//! The user's settings.

use crate::format::Sample;
use vstd::prelude::*;

verus! {

#[derive(Debug, Clone)]
pub struct Config {
    /// Stable device ID of the microphone. Empty: the system's default.
    pub input_device_id: String,
    /// Stable device ID of the output target. Empty: detect the virtual cable by its name.
    pub output_device_id: String,
    /// Master switch. When off, the pipeline passes audio through unprocessed, so that
    /// toggling is instant.
    pub enabled: bool,
    /// Bit pattern of the attenuation limit in dB: 6.0 is subtle, 100.0 is the most.
    pub attenuation_db: Sample,
    /// Start when the user logs in.
    pub auto_start: bool,
}

/// The single-precision bit pattern of 100.0.
pub const ATTENUATION_MAX: Sample = 0x42C8_0000;

/// The settings of a user who has changed nothing.
pub open spec fn is_default(c: Config) -> bool {
    &&& c.input_device_id@ == Seq::<char>::empty()
    &&& c.output_device_id@ == Seq::<char>::empty()
    &&& c.enabled
    &&& c.attenuation_db == ATTENUATION_MAX
    &&& !c.auto_start
}

/// What a missing `enabled` means.
pub fn default_true() -> (r: bool)
    ensures
        r,
{
    true
}

/// What a missing `attenuation_db` means.
pub fn default_atten() -> (r: Sample)
    ensures
        r == ATTENUATION_MAX,
{
    ATTENUATION_MAX
}

impl Default for Config {
    fn default() -> (r: Self)
        ensures
            is_default(r),
    {
        Config {
            input_device_id: String::new(),
            output_device_id: String::new(),
            enabled: default_true(),
            attenuation_db: default_atten(),
            auto_start: false,
        }
    }
}

/// Settings to run with, and whether the settings file is still to be written: on the first
/// run there is none yet.
#[derive(Debug)]
pub struct Loaded {
    pub config: Config,
    pub first_run: bool,
}

/// The two hold the same settings.
pub open spec fn same_settings(a: Config, b: Config) -> bool {
    &&& a.input_device_id@ == b.input_device_id@
    &&& a.output_device_id@ == b.output_device_id@
    &&& a.enabled == b.enabled
    &&& a.attenuation_db == b.attenuation_db
    &&& a.auto_start == b.auto_start
}

/// What the settings file came to, and what is loaded of it.
pub open spec fn loads(file: Option<Result<Config, String>>, r: Result<Loaded, String>) -> bool {
    match file {
        None => r matches Ok(loaded) && is_default(loaded.config) && loaded.first_run,
        Some(Ok(config)) => r matches Ok(loaded) && loaded.config == config && !loaded.first_run,
        Some(Err(why)) => r == Err::<Loaded, String>(why),
    }
}

/// Settings that were saved are the ones that are loaded, so that the chosen devices survive a
/// restart, where the file gives back what was written to it.
pub proof fn law_saved_settings_are_loaded(
    saved: Config,
    read_back: Config,
    r: Result<Loaded, String>,
)
    requires
        same_settings(read_back, saved),
        loads(Some(Ok(read_back)), r),
    ensures
        r matches Ok(loaded) && same_settings(loaded.config, saved) && !loaded.first_run,
{
}

impl Config {
    /// The settings, from what the settings file came to: nothing where there is no such file,
    /// else its contents or why they could not be had. A missing file is no error.
    pub fn load(file: Option<Result<Config, String>>) -> (r: Result<Loaded, String>)
        ensures
            loads(file, r),
    {
        match file {
            None => Ok(Loaded { config: Config::default(), first_run: true }),
            Some(Ok(config)) => Ok(Loaded { config, first_run: false }),
            Some(Err(why)) => Err(why),
        }
    }

    /// The settings; the default ones where the file cannot be used. Such a file is left as it
    /// is.
    pub fn load_or_default(file: Option<Result<Config, String>>) -> (r: Loaded)
        ensures
            match file {
                None => is_default(r.config) && r.first_run,
                Some(Ok(config)) => r.config == config && !r.first_run,
                Some(Err(_)) => is_default(r.config) && !r.first_run,
            },
    {
        match Self::load(file) {
            Ok(loaded) => loaded,
            Err(_) => Loaded { config: Config::default(), first_run: false },
        }
    }
}

/// The settings of a running program: those that are kept on file, and the microphone that the
/// command line asked for, which holds for this run alone and is never saved.
#[derive(Debug)]
pub struct Session {
    pub saved: Config,
    pub mic: Option<String>,
}

impl Session {
    /// The ID of the microphone that this run uses; empty for the system's default.
    pub open spec fn microphone(&self) -> Seq<char> {
        match self.mic {
            Some(id) => id@,
            None => self.saved.input_device_id@,
        }
    }

    /// The settings that this run uses.
    pub fn running(&self) -> (r: Config)
        ensures
            r.input_device_id@ == self.microphone(),
            r.output_device_id@ == self.saved.output_device_id@,
            r.enabled == self.saved.enabled,
            r.attenuation_db == self.saved.attenuation_db,
            r.auto_start == self.saved.auto_start,
    {
        Config {
            input_device_id: match &self.mic {
                Some(id) => id.clone(),
                None => self.saved.input_device_id.clone(),
            },
            output_device_id: self.saved.output_device_id.clone(),
            enabled: self.saved.enabled,
            attenuation_db: self.saved.attenuation_db,
            auto_start: self.saved.auto_start,
        }
    }
}

/// A user who has changed nothing has no device chosen, suppression on at its fullest, and the
/// program not started at login; and whoever has just that has changed nothing.
pub proof fn law_default_settings_leave_everything_open(c: Config)
    ensures
        is_default(c) <==> c.input_device_id@.len() == 0 && c.output_device_id@.len() == 0
            && c.enabled && c.attenuation_db == 0x42C8_0000 && !c.auto_start,
{
    if c.input_device_id@.len() == 0 && c.output_device_id@.len() == 0 {
        assert(c.input_device_id@ == Seq::<char>::empty());
        assert(c.output_device_id@ == Seq::<char>::empty());
    }
}

/// Settings are loaded as the file has them; where there is no file the default ones are, and it
/// is a first run; and what keeps the file from being used is what is reported.
pub proof fn law_settings_are_loaded_as_they_are(
    file: Option<Result<Config, String>>,
    r: Result<Loaded, String>,
)
    requires
        loads(file, r),
    ensures
        file matches Some(Ok(c)) ==> (r matches Ok(loaded) && loaded.config.input_device_id
            == c.input_device_id && loaded.config.output_device_id == c.output_device_id
            && loaded.config.enabled == c.enabled && loaded.config.attenuation_db
            == c.attenuation_db && loaded.config.auto_start == c.auto_start && !loaded.first_run),
        file matches Some(Err(why)) ==> (r matches Err(e) && e == why),
        file is None ==> (r matches Ok(loaded) && loaded.first_run
            && loaded.config.input_device_id@.len() == 0
            && loaded.config.output_device_id@.len() == 0 && loaded.config.enabled
            && loaded.config.attenuation_db == 0x42C8_0000 && !loaded.config.auto_start),
{
}

/// The microphone that the command line asked for is the one of this run, whatever is on file;
/// without one it is the one on file.
pub proof fn law_the_command_line_comes_before_the_file(session: Session)
    ensures
        session.mic matches Some(id) ==> session.microphone() == id@,
        session.mic is None ==> session.microphone() == session.saved.input_device_id@,
{
}

/// Two hold the same settings exactly where all five agree.
pub proof fn law_all_five_settings_count(a: Config, b: Config)
    ensures
        same_settings(a, b) <==> a.input_device_id@ == b.input_device_id@ && a.output_device_id@
            == b.output_device_id@ && a.enabled == b.enabled && a.attenuation_db
            == b.attenuation_db && a.auto_start == b.auto_start,
{
}

} // verus!
