//! Where the program keeps its files and finds the ones it uses.
//!
//! A location is a starting directory and the names to descend by. The directory is whatever
//! the system says it is; only the names are decided here.

use crate::text::texts;
use std::path::PathBuf;
use vstd::prelude::*;

verus! {

/// `std::path::PathBuf`, carried through and never looked into.
#[verifier::external_type_specification]
#[verifier::external_body]
pub struct ExPathBuf(std::path::PathBuf);

/// The directory that a location starts from.
#[derive(Debug)]
pub enum Root {
    /// One that the system named.
    Dir(PathBuf),
    /// A fixed one, where the system named none.
    Fixed(&'static str),
}

/// A location: a starting directory, then the names to descend by.
#[derive(Debug)]
pub struct Location {
    pub root: Root,
    pub names: Vec<String>,
}

/// The starting directory: the one that the system named, else `fallback`.
pub open spec fn starts_from(root: Root, named: Option<PathBuf>, fallback: Seq<char>) -> bool {
    match named {
        Some(dir) => root == Root::Dir(dir),
        None => root matches Root::Fixed(text) && text@ == fallback,
    }
}

/// A location below the directory that the system named, or below `fallback`.
fn locate(named: Option<PathBuf>, fallback: &'static str) -> (r: Location)
    ensures
        starts_from(r.root, named, fallback@),
        r.names@.len() == 0,
{
    match named {
        Some(dir) => Location { root: Root::Dir(dir), names: Vec::new() },
        None => Location { root: Root::Fixed(fallback), names: Vec::new() },
    }
}

impl Location {
    /// One name further down.
    fn join(self, name: &str) -> (r: Self)
        ensures
            r.root == self.root,
            texts(r.names@) == texts(self.names@).push(name@),
    {
        let Location { root, names } = self;
        let mut names: Vec<String> = names;
        let ghost before = names@;
        names.push(name.to_owned());
        proof {
            assert(texts(names@) == texts(before).push(name@));
        }
        Location { root, names }
    }
}

/// `dirs::config_dir`: the user's settings directory, where the system has one. What it is
/// rests with the machine and the environment, so nothing is promised of it.
#[verifier::external_body]
fn config_dir() -> Option<PathBuf> {
    dirs::config_dir()
}

/// `dir` is what asking the system for the settings directory may give.
pub closed spec fn is_settings_dir(dir: Option<PathBuf>) -> bool {
    call_ensures(config_dir, (), dir)
}

/// The program's own directory below the user's settings directory; below the working
/// directory where the system names none.
pub fn base_dir(settings: Option<PathBuf>) -> (r: Location)
    ensures
        starts_from(r.root, settings, "."@),
        texts(r.names@) == seq!["NoiseGate"@],
{
    let r: Location = locate(settings, ".").join("NoiseGate");
    proof {
        assert(texts(r.names@) == seq!["NoiseGate"@]);
    }
    r
}

/// The settings file, below the given settings directory.
pub fn config_path_in(settings: Option<PathBuf>) -> (r: Location)
    ensures
        starts_from(r.root, settings, "."@),
        texts(r.names@) == seq!["NoiseGate"@, "config.toml"@],
{
    let r: Location = base_dir(settings).join("config.toml");
    proof {
        assert(texts(r.names@) == seq!["NoiseGate"@, "config.toml"@]);
    }
    r
}

/// The log directory, below the given settings directory.
pub fn log_dir_in(settings: Option<PathBuf>) -> (r: Location)
    ensures
        starts_from(r.root, settings, "."@),
        texts(r.names@) == seq!["NoiseGate"@, "logs"@],
{
    let r: Location = base_dir(settings).join("logs");
    proof {
        assert(texts(r.names@) == seq!["NoiseGate"@, "logs"@]);
    }
    r
}

/// The settings file of the current user.
pub fn config_path() -> (r: Location)
    ensures
        exists|settings: Option<PathBuf>|
            #[trigger] is_settings_dir(settings) && starts_from(r.root, settings, "."@),
        texts(r.names@) == seq!["NoiseGate"@, "config.toml"@],
{
    let settings: Option<PathBuf> = config_dir();
    proof {
        assert(is_settings_dir(settings));
    }
    config_path_in(settings)
}

/// The log directory of the current user.
pub fn log_dir() -> (r: Location)
    ensures
        exists|settings: Option<PathBuf>|
            #[trigger] is_settings_dir(settings) && starts_from(r.root, settings, "."@),
        texts(r.names@) == seq!["NoiseGate"@, "logs"@],
{
    let settings: Option<PathBuf> = config_dir();
    proof {
        assert(is_settings_dir(settings));
    }
    log_dir_in(settings)
}

/// The log file of the current user.
pub fn log_file() -> (r: Location)
    ensures
        exists|settings: Option<PathBuf>|
            #[trigger] is_settings_dir(settings) && starts_from(r.root, settings, "."@),
        texts(r.names@) == seq!["NoiseGate"@, "logs"@, "noisegate.log"@],
{
    let r: Location = log_dir().join("noisegate.log");
    proof {
        assert(texts(r.names@) == seq!["NoiseGate"@, "logs"@, "noisegate.log"@]);
    }
    r
}

/// The absolute path of Explorer, below the system's own directory. Spawning it by its bare name
/// would resolve it through the search path, where any writable directory gets to supply the
/// program; so a system directory that is not `absolute` counts for nothing.
pub fn explorer_path(system_root: Option<PathBuf>, absolute: bool) -> (r: Location)
    ensures
        starts_from(
            r.root,
            if absolute {
                system_root
            } else {
                None
            },
            "C:\\Windows"@,
        ),
        texts(r.names@) == seq!["explorer.exe"@],
{
    let named: Option<PathBuf> = if absolute {
        system_root
    } else {
        None
    };
    let r: Location = locate(named, "C:\\Windows").join("explorer.exe");
    proof {
        assert(texts(r.names@) == seq!["explorer.exe"@]);
    }
    r
}

/// Where to load the inference library from: beside the program, unless a path was already
/// chosen (`chosen`) or the program's own directory is unknown. Naming the full path keeps the
/// system from searching the working directory for it.
pub fn pin_dylib_path(chosen: bool, program_dir: Option<PathBuf>) -> (r: Option<Location>)
    ensures
        r is Some <==> !chosen && program_dir is Some,
        r matches Some(at) ==> at.root == Root::Dir(program_dir->0) && texts(at.names@)
            == seq!["onnxruntime.dll"@],
{
    if chosen {
        return None;
    }
    match program_dir {
        Some(dir) => {
            let at: Location = (Location { root: Root::Dir(dir), names: Vec::new() }).join(
                "onnxruntime.dll",
            );
            proof {
                assert(texts(at.names@) == seq!["onnxruntime.dll"@]);
            }
            Some(at)
        },
        None => None,
    }
}

/// A location starts from the very directory that the system named, and from the fixed one only
/// where it named none.
pub proof fn law_the_systems_directory_comes_first(
    root: Root,
    dir: PathBuf,
    fallback: Seq<char>,
)
    ensures
        starts_from(root, Some(dir), fallback) <==> root == Root::Dir(dir),
        starts_from(root, None, fallback) <==> (root matches Root::Fixed(text) && text@ == fallback),
{
}

/// What counts as the settings directory is what the system gives when it is asked for it, and
/// nothing else.
proof fn law_the_settings_directory_is_the_systems(dir: Option<PathBuf>)
    ensures
        is_settings_dir(dir) <==> call_ensures(config_dir, (), dir),
{
}

} // verus!
