//! System tray: enable/disable toggle, microphone picker, start-at-login, meter, log folder,
//! quit.

use crate::config::{Config, Session};
use crate::devices::{Device, DeviceList};
use crate::pipeline::Pipeline;
use crate::text::{concat2, concat3, same_text};
use vstd::prelude::*;

verus! {

/// The label of a microphone in the picker.
pub open spec fn label_of(name: Seq<char>, is_system_default: bool) -> Seq<char> {
    if is_system_default {
        name + "  (system default)"@
    } else {
        name
    }
}

/// Label for a capture device in the picker; the system's default one is marked.
pub fn mic_label(name: &str, is_system_default: bool) -> (r: String)
    ensures
        r@ == label_of(name@, is_system_default),
{
    if is_system_default {
        concat2(name, "  (system default)")
    } else {
        name.to_owned()
    }
}

/// The commands of the menu other than picking a microphone.
#[derive(Debug, Clone, Copy, PartialEq, Eq, Structural)]
pub enum Command {
    Enable,
    AutoStart,
    OpenLogs,
    Quit,
}

/// One row of the menu.
#[derive(Debug)]
pub enum MenuRow {
    Check { command: Command, label: &'static str, checked: bool },
    Item { command: Command, label: &'static str },
    /// The microphone picker, a menu of its own.
    Microphones { label: &'static str },
    Separator,
}

/// One row of the microphone picker.
#[derive(Debug)]
pub enum MicRow {
    /// A microphone to pick; the empty ID follows the system's default.
    Choice { label: String, checked: bool, device_id: String },
    Separator,
    /// A line that cannot be picked.
    Note { text: &'static str },
}

/// The whole menu.
#[derive(Debug)]
pub struct MenuModel {
    pub rows: Vec<MenuRow>,
    pub mics: Vec<MicRow>,
}

/// The row is a choice with this label, check mark and device.
pub open spec fn is_choice(
    row: MicRow,
    label: Seq<char>,
    checked: bool,
    device_id: Seq<char>,
) -> bool {
    row matches MicRow::Choice { label: l, checked: c, device_id: d } && l@ == label && c == checked
        && d@ == device_id
}

/// The row that stands for a capture device, when `configured` is the configured microphone.
pub open spec fn is_device_choice(row: MicRow, d: Device, configured: Seq<char>) -> bool {
    is_choice(
        row,
        label_of(d.friendly_name@, d.is_default),
        configured.len() > 0 && d.id@ == configured,
        d.id@,
    )
}

/// The microphone picker: first the choice to follow the system's default, checked where
/// nothing else is configured; then, set off by a separator, every capture device, checked
/// where it is the configured one. Where the devices are unknown, a note says so.
pub open spec fn is_picker(
    rows: Seq<MicRow>,
    configured: Seq<char>,
    devices: Option<Seq<Device>>,
) -> bool {
    &&& rows.len() > 0
    &&& is_choice(rows[0], "Windows default"@, configured.len() == 0, seq![])
    &&& match devices {
        None => rows.len() == 2 && (rows[1] matches MicRow::Note { text } && text@
            == "(no microphones found)"@),
        Some(list) => if list.len() == 0 {
            rows.len() == 1
        } else {
            &&& rows.len() == list.len() + 2
            &&& rows[1] is Separator
            &&& forall|i: int|
                0 <= i < list.len() ==> is_device_choice(
                    #[trigger] rows[i + 2],
                    list[i],
                    configured,
                )
        },
    }
}

/// The main menu, top to bottom.
pub open spec fn is_main_menu(rows: Seq<MenuRow>, enabled: bool, auto_start: bool) -> bool {
    &&& rows.len() == 8
    &&& rows[0] matches MenuRow::Check { command, label, checked } && command == Command::Enable
        && label@ == "Enabled"@ && checked == enabled
    &&& rows[1] is Separator
    &&& rows[2] matches MenuRow::Microphones { label } && label@ == "Microphone"@
    &&& rows[3] is Separator
    &&& rows[4] matches MenuRow::Check { command, label, checked } && command == Command::AutoStart
        && label@ == "Start with Windows"@ && checked == auto_start
    &&& rows[5] matches MenuRow::Item { command, label } && command == Command::OpenLogs && label@
        == "Open log folder"@
    &&& rows[6] is Separator
    &&& rows[7] matches MenuRow::Item { command, label } && command == Command::Quit && label@
        == "Quit NoiseGate"@
}

/// Build the microphone picker.
fn build_picker(configured: &str, devices: Option<&DeviceList>) -> (mics: Vec<MicRow>)
    ensures
        is_picker(
            mics@,
            configured@,
            match devices {
                Some(list) => Some(list.capture@),
                None => None,
            },
        ),
{
    let mut mics: Vec<MicRow> = Vec::new();
    let follow_default: bool = configured.is_empty();
    mics.push(
        MicRow::Choice {
            label: "Windows default".to_owned(),
            checked: follow_default,
            device_id: String::new(),
        },
    );
    match devices {
        Some(list) => {
            if list.capture.len() > 0 {
                mics.push(MicRow::Separator);
                let mut i: usize = 0;
                while i < list.capture.len()
                    invariant
                        0 <= i <= list.capture.len(),
                        follow_default == (configured@.len() == 0),
                        mics@.len() == i + 2,
                        is_choice(mics@[0], "Windows default"@, configured@.len() == 0, seq![]),
                        mics@[1] is Separator,
                        forall|j: int|
                            0 <= j < i ==> is_device_choice(
                                #[trigger] mics@[j + 2],
                                list.capture@[j],
                                configured@,
                            ),
                    decreases list.capture.len() - i,
                {
                    let d: &Device = &list.capture[i];
                    let checked: bool = !follow_default && same_text(d.id.as_str(), configured);
                    mics.push(
                        MicRow::Choice {
                            label: mic_label(d.friendly_name.as_str(), d.is_default),
                            checked,
                            device_id: d.id.clone(),
                        },
                    );
                    proof {
                        assert(is_device_choice(
                            mics@[i as int + 2],
                            list.capture@[i as int],
                            configured@,
                        ));
                    }
                    i = i + 1;
                }
            }
        },
        None => {
            mics.push(MicRow::Note { text: "(no microphones found)" });
        },
    }
    mics
}

/// Build the menu. Whether start-at-login is on is asked of the registry, not of the settings:
/// the user may have removed the entry by hand since.
pub fn build_menu(cfg: &Config, devices: Option<&DeviceList>, registered: bool) -> (r: MenuModel)
    ensures
        is_main_menu(r.rows@, cfg.enabled, registered),
        is_picker(
            r.mics@,
            cfg.input_device_id@,
            match devices {
                Some(list) => Some(list.capture@),
                None => None,
            },
        ),
{
    let mut rows: Vec<MenuRow> = Vec::new();
    rows.push(MenuRow::Check { command: Command::Enable, label: "Enabled", checked: cfg.enabled });
    rows.push(MenuRow::Separator);
    rows.push(MenuRow::Microphones { label: "Microphone" });
    rows.push(MenuRow::Separator);
    rows.push(
        MenuRow::Check {
            command: Command::AutoStart,
            label: "Start with Windows",
            checked: registered,
        },
    );
    rows.push(MenuRow::Item { command: Command::OpenLogs, label: "Open log folder" });
    rows.push(MenuRow::Separator);
    rows.push(MenuRow::Item { command: Command::Quit, label: "Quit NoiseGate" });
    let mics: Vec<MicRow> = build_picker(cfg.input_device_id.as_str(), devices);
    MenuModel { rows, mics }
}

/// One entry of the microphone picker: the menu item's own ID, and the device it picks. The
/// empty device ID follows the system's default.
#[derive(Debug)]
pub struct MicEntry {
    pub item: String,
    pub device_id: String,
}

/// The IDs of the menu's items.
#[derive(Debug)]
pub struct Items {
    pub enable: String,
    pub mics: Vec<MicEntry>,
    pub auto_start: String,
    pub open_logs: String,
    pub quit: String,
}

/// The first entry with this item ID.
pub open spec fn entry_of(mics: Seq<MicEntry>, id: Seq<char>) -> Option<MicEntry>
    decreases mics.len(),
{
    if mics.len() == 0 {
        None
    } else if mics[0].item@ == id {
        Some(mics[0])
    } else {
        entry_of(mics.drop_first(), id)
    }
}

/// What a click asks for.
#[derive(Debug)]
pub enum TrayAction {
    SetEnabled(bool),
    SetAutoStart(bool),
    OpenLogs,
    Quit,
    SelectMic(String),
    Nothing,
}

/// What a click on the item with this ID asks for, when the two check boxes stand as given.
pub open spec fn is_answer(
    action: TrayAction,
    items: Items,
    id: Seq<char>,
    enable_checked: bool,
    auto_start_checked: bool,
) -> bool {
    if id == items.enable@ {
        action == TrayAction::SetEnabled(enable_checked)
    } else if id == items.auto_start@ {
        action == TrayAction::SetAutoStart(auto_start_checked)
    } else if id == items.open_logs@ {
        action is OpenLogs
    } else if id == items.quit@ {
        action is Quit
    } else {
        match entry_of(items.mics@, id) {
            Some(entry) => action matches TrayAction::SelectMic(device) && device@
                == entry.device_id@,
            None => action is Nothing,
        }
    }
}

impl Items {
    /// The picker's entry with this item ID.
    pub fn mic_by_id(&self, id: &str) -> (r: Option<&MicEntry>)
        ensures
            match r {
                Some(entry) => entry_of(self.mics@, id@) == Some(*entry),
                None => entry_of(self.mics@, id@) is None,
            },
    {
        let mut i: usize = 0;
        proof {
            assert(self.mics@.skip(0) == self.mics@);
        }
        while i < self.mics.len()
            invariant
                0 <= i <= self.mics.len(),
                entry_of(self.mics@, id@) == entry_of(self.mics@.skip(i as int), id@),
            decreases self.mics.len() - i,
        {
            proof {
                assert(self.mics@.skip(i as int)[0] == self.mics@[i as int]);
                assert(self.mics@.skip(i as int).drop_first() == self.mics@.skip(i + 1));
            }
            if same_text(self.mics[i].item.as_str(), id) {
                return Some(&self.mics[i]);
            }
            i = i + 1;
        }
        proof {
            assert(self.mics@.skip(self.mics@.len() as int).len() == 0);
        }
        None
    }

    /// What a click on the item with this ID asks for.
    pub fn user_event(&self, id: &str, enable_checked: bool, auto_start_checked: bool) -> (r:
        TrayAction)
        ensures
            is_answer(r, *self, id@, enable_checked, auto_start_checked),
    {
        if same_text(id, self.enable.as_str()) {
            TrayAction::SetEnabled(enable_checked)
        } else if same_text(id, self.auto_start.as_str()) {
            TrayAction::SetAutoStart(auto_start_checked)
        } else if same_text(id, self.open_logs.as_str()) {
            TrayAction::OpenLogs
        } else if same_text(id, self.quit.as_str()) {
            TrayAction::Quit
        } else {
            match self.mic_by_id(id) {
                Some(entry) => TrayAction::SelectMic(entry.device_id.clone()),
                None => TrayAction::Nothing,
            }
        }
    }

    /// The check marks of the picker once `device_id` is chosen.
    fn marks_for(&self, device_id: &str) -> (marks: Vec<bool>)
        ensures
            marks@ == marks_of(self.mics@, device_id@),
    {
        let mut marks: Vec<bool> = Vec::new();
        let mut i: usize = 0;
        while i < self.mics.len()
            invariant
                0 <= i <= self.mics.len(),
                marks@ == marks_of(self.mics@, device_id@).take(i as int),
            decreases self.mics.len() - i,
        {
            proof {
                assert(marks_of(self.mics@, device_id@).take(i + 1) == marks_of(
                    self.mics@,
                    device_id@,
                ).take(i as int).push(self.mics@[i as int].device_id@ == device_id@));
            }
            marks.push(same_text(self.mics[i].device_id.as_str(), device_id));
            i = i + 1;
        }
        proof {
            assert(marks_of(self.mics@, device_id@).take(self.mics@.len() as int) == marks_of(
                self.mics@,
                device_id@,
            ));
        }
        marks
    }
}

/// The check marks of the picker once `device_id` is chosen: the entries of that device.
pub open spec fn marks_of(mics: Seq<MicEntry>, device_id: Seq<char>) -> Seq<bool> {
    mics.map_values(|m: MicEntry| m.device_id@ == device_id)
}

/// The settings differ in the chosen microphone alone.
pub open spec fn same_but_mic(a: Config, b: Config) -> bool {
    &&& a.output_device_id == b.output_device_id
    &&& a.enabled == b.enabled
    &&& a.attenuation_db == b.attenuation_db
    &&& a.auto_start == b.auto_start
}

/// The settings differ in the master switch alone.
pub open spec fn same_but_enabled(a: Config, b: Config) -> bool {
    &&& a.input_device_id == b.input_device_id
    &&& a.output_device_id == b.output_device_id
    &&& a.attenuation_db == b.attenuation_db
    &&& a.auto_start == b.auto_start
}

/// The settings differ in start-at-login alone.
pub open spec fn same_but_auto_start(a: Config, b: Config) -> bool {
    &&& a.input_device_id == b.input_device_id
    &&& a.output_device_id == b.output_device_id
    &&& a.enabled == b.enabled
    &&& a.attenuation_db == b.attenuation_db
}

/// Note the chosen microphone in the settings, where it takes the place of one that the command
/// line asked for, and say how the picker's check marks stand now: they are radio buttons in
/// checkbox clothing, and the menu does not enforce that by itself. The settings are to be saved
/// and the pipeline restarted.
pub fn select_mic(session: &mut Session, items: &Items, device_id: &str) -> (marks: Vec<bool>)
    ensures
        final(session).saved.input_device_id@ == device_id@,
        final(session).mic is None,
        same_but_mic(final(session).saved, old(session).saved),
        marks@ == marks_of(items.mics@, device_id@),
{
    session.saved.input_device_id = device_id.to_owned();
    session.mic = None;
    items.marks_for(device_id)
}

/// No two entries of the picker pick the same device.
pub open spec fn all_differ(mics: Seq<MicEntry>) -> bool {
    forall|i: int, j: int|
        0 <= i < j < mics.len() ==> (#[trigger] mics[i]).device_id@ != (#[trigger] mics[j]).device_id@
}

/// Exactly one entry stays checked: the one that was chosen.
pub proof fn law_exactly_one_microphone_is_checked(mics: Seq<MicEntry>, chosen: int)
    requires
        all_differ(mics),
        0 <= chosen < mics.len(),
    ensures
        marks_of(mics, mics[chosen].device_id@).len() == mics.len(),
        forall|i: int|
            0 <= i < mics.len() ==> (#[trigger] marks_of(mics, mics[chosen].device_id@)[i] <==> i
                == chosen),
{
    let id = mics[chosen].device_id@;
    assert forall|i: int| 0 <= i < mics.len() implies (#[trigger] marks_of(mics, id)[i] <==> i
        == chosen) by {
        assert(marks_of(mics, id)[i] == (mics[i].device_id@ == id));
        if i < chosen {
            assert(mics[i].device_id@ != mics[chosen].device_id@);
        } else if chosen < i {
            assert(mics[chosen].device_id@ != mics[i].device_id@);
        }
    }
}

/// The row of the picker that the `n`-th entry stands in: behind the separator, but for the
/// first.
pub open spec fn row_of_entry(n: int) -> int {
    if n == 0 {
        0
    } else {
        n + 1
    }
}

/// The entries are those of a picker over these devices.
pub open spec fn are_entries(mics: Seq<MicEntry>, devices: Seq<Device>) -> bool {
    &&& mics.len() == devices.len() + 1
    &&& mics[0].device_id@ == Seq::<char>::empty()
    &&& forall|i: int|
        0 <= i < devices.len() ==> (#[trigger] mics[i + 1]).device_id@ == devices[i].id@
}

/// A picker built anew from the settings shows the check marks that picking left behind. (A
/// device with an empty ID could not be told from following the default.)
pub proof fn law_rebuilt_picker_shows_the_choice(
    rows: Seq<MicRow>,
    mics: Seq<MicEntry>,
    devices: Seq<Device>,
    chosen: Seq<char>,
)
    requires
        is_picker(rows, chosen, Some(devices)),
        are_entries(mics, devices),
        forall|i: int| 0 <= i < devices.len() ==> (#[trigger] devices[i]).id@.len() > 0,
    ensures
        forall|n: int|
            0 <= n < mics.len() ==> (#[trigger] rows[row_of_entry(n)] matches MicRow::Choice {
                checked,
                device_id,
                ..
            } && checked == marks_of(mics, chosen)[n] && device_id@ == mics[n].device_id@),
{
    assert forall|n: int| 0 <= n < mics.len() implies (#[trigger] rows[row_of_entry(
        n,
    )] matches MicRow::Choice { checked, device_id, .. } && checked == marks_of(mics, chosen)[n]
        && device_id@ == mics[n].device_id@) by {
        assert(marks_of(mics, chosen)[n] == (mics[n].device_id@ == chosen));
        if n == 0 {
            assert(chosen.len() == 0 ==> chosen == Seq::<char>::empty());
        } else {
            let i = n - 1;
            assert(mics[i + 1].device_id@ == devices[i].id@);
            assert(is_device_choice(rows[i + 2], devices[i], chosen));
            assert(devices[i].id@.len() > 0);
        }
    }
}

/// The words for a microphone in the log.
pub fn mic_words(device_id: &str) -> (r: String)
    ensures
        r@ == (if device_id@.len() == 0 {
            "Windows default"@
        } else {
            device_id@
        }),
{
    if device_id.is_empty() {
        "Windows default".to_owned()
    } else {
        device_id.to_owned()
    }
}

/// Turn noise suppression on or off: in the running pipeline, where there is one, and in the
/// settings, which are to be saved.
pub fn toggle_enabled(cfg: &mut Config, pipeline: &mut Option<Pipeline>, now_enabled: bool)
    ensures
        final(cfg).enabled == now_enabled,
        same_but_enabled(*final(cfg), *old(cfg)),
        match *old(pipeline) {
            Some(p) => *final(pipeline) matches Some(q) && q.bypassed() == !now_enabled && q.model()
                == p.model() && q.limit() == p.limit(),
            None => *final(pipeline) is None,
        },
{
    match pipeline.take() {
        Some(p) => {
            let mut q: Pipeline = p;
            q.set_enabled(now_enabled);
            *pipeline = Some(q);
        },
        None => {},
    }
    cfg.enabled = now_enabled;
}

/// What follows an attempt to change start-at-login.
#[derive(Debug)]
pub struct AutoStartOutcome {
    /// How the check box stands: it reflects the registry, not what the user wished for.
    pub checked: bool,
    /// Whether the settings are to be saved.
    pub save: bool,
    /// What to tell the user.
    pub complaint: Option<String>,
}

/// Note in the settings what an attempt to change start-at-login to `wanted` came to.
pub fn auto_start_changed(
    cfg: &mut Config,
    wanted: bool,
    outcome: &Result<(), String>,
) -> (r: AutoStartOutcome)
    ensures
        match *outcome {
            Ok(_) => {
                &&& final(cfg).auto_start == wanted
                &&& same_but_auto_start(*final(cfg), *old(cfg))
                &&& r.checked == wanted
                &&& r.save
                &&& r.complaint is None
            },
            Err(why) => {
                &&& *final(cfg) == *old(cfg)
                &&& r.checked == !wanted
                &&& !r.save
                &&& r.complaint matches Some(text) && text@
                    == "Could not change start-with-Windows:\n\n"@ + why@
            },
        },
{
    match outcome {
        Ok(_) => {
            cfg.auto_start = wanted;
            AutoStartOutcome { checked: wanted, save: true, complaint: None }
        },
        Err(why) => AutoStartOutcome {
            checked: !wanted,
            save: false,
            complaint: Some(concat2("Could not change start-with-Windows:\n\n", why.as_str())),
        },
    }
}

/// What to tell the user after the pipeline was restarted with a new device: nothing where it
/// runs. Where it does not, the tray stays, so that another device can be picked from it.
pub fn restart_complaint(outcome: &Result<(), String>) -> (r: Option<String>)
    ensures
        match *outcome {
            Ok(_) => r is None,
            Err(why) => r matches Some(text) && text@
                == "Could not start audio with that device:\n\n"@ + why@,
        },
{
    match outcome {
        Ok(_) => None,
        Err(why) => Some(concat2("Could not start audio with that device:\n\n", why.as_str())),
    }
}

/// What an attempt to restart the pipeline leaves behind: the pipeline that runs now, if one
/// does, and what to tell the user. The old pipeline is gone either way.
pub fn restarted(outcome: Result<Pipeline, String>) -> (r: (Option<Pipeline>, Option<String>))
    ensures
        match outcome {
            Ok(p) => r.0 == Some(p) && r.1 is None,
            Err(why) => r.0 is None && (r.1 matches Some(text) && text@
                == "Could not start audio with that device:\n\n"@ + why@),
        },
{
    match outcome {
        Ok(p) => (Some(p), None),
        Err(why) => (None, restart_complaint(&Err(why))),
    }
}

/// The tooltip of a fresh tray: it names the model where a pipeline runs.
pub fn initial_tooltip(denoiser_name: Option<&str>) -> (r: String)
    ensures
        r@ == (match denoiser_name {
            Some(name) => "NoiseGate ("@ + name@ + ") \u{2014} starting"@,
            None => "NoiseGate \u{2014} stopped"@,
        }),
{
    match denoiser_name {
        Some(name) => concat3("NoiseGate (", name, ") \u{2014} starting"),
        None => "NoiseGate \u{2014} stopped".to_owned(),
    }
}

/// The tooltip of a running pipeline, with the processor share and the slowest frame already
/// put into figures.
pub open spec fn tooltip_text(
    name: Seq<char>,
    enabled: bool,
    cpu_percent: Seq<char>,
    peak_ms: Seq<char>,
) -> Seq<char> {
    "NoiseGate ("@ + name + ")\n"@ + (if enabled {
        "ON"@
    } else {
        "BYPASS"@
    }) + "  |  CPU: "@ + cpu_percent + "%  peak: "@ + peak_ms + "ms"@
}

/// The tooltip of a running pipeline.
pub fn tooltip(pipeline: &Pipeline, cpu_percent: &str, peak_ms: &str) -> (r: String)
    ensures
        r@ == tooltip_text(pipeline.model(), !pipeline.bypassed(), cpu_percent@, peak_ms@),
{
    let mut r: String = concat3("NoiseGate (", pipeline.denoiser_name(), ")\n");
    r.append(
        if pipeline.is_enabled() {
            "ON"
        } else {
            "BYPASS"
        },
    );
    r.append("  |  CPU: ");
    r.append(cpu_percent);
    r.append("%  peak: ");
    r.append(peak_ms);
    r.append("ms");
    r
}

/// Milliseconds between two refreshes of the tooltip.
pub const TOOLTIP_PERIOD_MS: u64 = 1000;

/// The tooltip to show now, if it is due: `elapsed_ms` after the last one. `running` holds the
/// pipeline and its figures, where one runs.
pub fn about_to_wait(elapsed_ms: u64, running: Option<(&Pipeline, &str, &str)>) -> (r: Option<
    String,
>)
    ensures
        if elapsed_ms < TOOLTIP_PERIOD_MS {
            r is None
        } else {
            r matches Some(text) && text@ == (match running {
                Some((p, cpu, peak)) => tooltip_text(p.model(), !p.bypassed(), cpu@, peak@),
                None => "NoiseGate \u{2014} stopped (pick a microphone)"@,
            })
        },
{
    if elapsed_ms >= TOOLTIP_PERIOD_MS {
        match running {
            Some((p, cpu, peak)) => Some(tooltip(p, cpu, peak)),
            None => Some("NoiseGate \u{2014} stopped (pick a microphone)".to_owned()),
        }
    } else {
        None
    }
}

/// Width and height of the tray icon.
pub const ICON_SIDE: usize = 16;

/// The pixel at column `x` and row `y` lies in the disc of radius 7 about (8, 8).
pub open spec fn in_disc(x: int, y: int) -> bool {
    (x - 8) * (x - 8) + (y - 8) * (y - 8) <= 49
}

/// The bytes of one pixel of the icon: red, green, blue, opacity.
pub open spec fn pixel(x: int, y: int) -> Seq<u8> {
    if in_disc(x, y) {
        seq![0x2au8, 0xa1u8, 0x98u8, 0xffu8]
    } else {
        seq![0u8, 0u8, 0u8, 0u8]
    }
}

/// The byte at offset `i` of the icon, whose pixels stand row by row, four bytes each.
pub open spec fn icon_byte(i: int) -> u8 {
    pixel((i / 4) % (ICON_SIDE as int), (i / 4) / (ICON_SIDE as int))[i % 4]
}

/// The tray icon, drawn rather than shipped: a disc on a transparent ground.
pub fn build_default_icon() -> (rgba: Vec<u8>)
    ensures
        rgba@.len() == ICON_SIDE * ICON_SIDE * 4,
        forall|i: int| 0 <= i < rgba@.len() ==> #[trigger] rgba@[i] == icon_byte(i),
{
    let mut rgba: Vec<u8> = Vec::new();
    let mut n: usize = 0;
    while n < ICON_SIDE * ICON_SIDE
        invariant
            0 <= n <= ICON_SIDE * ICON_SIDE,
            rgba@.len() == n * 4,
            forall|i: int| 0 <= i < rgba@.len() ==> #[trigger] rgba@[i] == icon_byte(i),
        decreases ICON_SIDE * ICON_SIDE - n,
    {
        let x: i32 = (n % ICON_SIDE) as i32;
        let y: i32 = (n / ICON_SIDE) as i32;
        let dx: i32 = x - 8;
        let dy: i32 = y - 8;
        proof {
            assert(0 <= dx * dx <= 64 && 0 <= dy * dy <= 64) by (nonlinear_arith)
                requires
                    -8 <= dx <= 8,
                    -8 <= dy <= 8,
            ;
        }
        let ghost before = rgba@;
        if dx * dx + dy * dy <= 49 {
            rgba.push(0x2a);
            rgba.push(0xa1);
            rgba.push(0x98);
            rgba.push(0xff);
        } else {
            rgba.push(0);
            rgba.push(0);
            rgba.push(0);
            rgba.push(0);
        }
        proof {
            assert(rgba@ == before + pixel(x as int, y as int));
            assert forall|i: int| 0 <= i < rgba@.len() implies #[trigger] rgba@[i] == icon_byte(
                i,
            ) by {
                if i < before.len() {
                    assert(rgba@[i] == before[i]);
                } else {
                    assert(i / 4 == n);
                    assert(rgba@[i] == pixel(x as int, y as int)[i - before.len()]);
                }
            }
        }
        n = n + 1;
    }
    rgba
}

/// A microphone's label is its name, whole, with a mark behind it exactly where it is the
/// system's default.
pub proof fn law_labels_start_with_the_name(name: Seq<char>)
    ensures
        label_of(name, false) == name,
        label_of(name, true) == name + "  (system default)"@,
{
}

/// The rows of the main menu: the switch as the settings have it, the picker, start-at-login as
/// the registry has it, the log folder and the way out, with lines between them.
pub proof fn law_the_menu_shows_how_things_stand(
    rows: Seq<MenuRow>,
    enabled: bool,
    auto_start: bool,
)
    requires
        is_main_menu(rows, enabled, auto_start),
    ensures
        rows.len() == 8,
        rows[0] matches MenuRow::Check { command, label, checked } && command == Command::Enable
            && checked == enabled && label@ == "Enabled"@,
        rows[2] matches MenuRow::Microphones { label } && label@ == "Microphone"@,
        rows[4] matches MenuRow::Check { command, label, checked } && command == Command::AutoStart
            && checked == auto_start && label@ == "Start with Windows"@,
        rows[5] matches MenuRow::Item { command, label } && command == Command::OpenLogs && label@
            == "Open log folder"@,
        rows[7] matches MenuRow::Item { command, label } && command == Command::Quit && label@
            == "Quit NoiseGate"@,
        rows[1] is Separator && rows[3] is Separator && rows[6] is Separator,
{
}

/// The picker's first row follows the system's default, and is checked exactly where no
/// microphone is configured.
pub proof fn law_the_picker_starts_with_the_default(
    rows: Seq<MicRow>,
    configured: Seq<char>,
    devices: Option<Seq<Device>>,
)
    requires
        is_picker(rows, configured, devices),
    ensures
        rows.len() > 0,
        rows[0] matches MicRow::Choice { label, checked, device_id } && label@ == "Windows default"@
            && (checked <==> configured.len() == 0) && device_id@.len() == 0,
        devices is None ==> rows.len() == 2 && (rows[1] matches MicRow::Note { text } && text@
            == "(no microphones found)"@),
        devices matches Some(list) ==> rows.len() == (if list.len() == 0 {
            1
        } else {
            list.len() + 2
        }),
{
}

/// Every microphone has its own row in the picker, in the order of the list, behind one
/// separator: with its name, marked where it is the system's default, and its ID; checked exactly
/// where it is the one that is configured.
pub proof fn law_every_microphone_has_its_row(
    rows: Seq<MicRow>,
    configured: Seq<char>,
    list: Seq<Device>,
    i: int,
)
    requires
        is_picker(rows, configured, Some(list)),
        0 <= i < list.len(),
    ensures
        rows[1] is Separator,
        rows[i + 2] matches MicRow::Choice { label, checked, device_id } && device_id@ == list[i].id@
            && (checked <==> configured.len() > 0 && list[i].id@ == configured) && (
        list[i].is_default ==> label@ == list[i].friendly_name@ + "  (system default)"@) && (
        !list[i].is_default ==> label@ == list[i].friendly_name@),
{
    assert(is_device_choice(rows[i + 2], list[i], configured));
}

/// A row of the picker is found by its item's ID: the first that has it, and none where none
/// has.
pub proof fn law_entries_are_found_by_their_items(mics: Seq<MicEntry>, id: Seq<char>, i: int)
    requires
        0 <= i <= mics.len(),
        forall|j: int| 0 <= j < i ==> (#[trigger] mics[j]).item@ != id,
    ensures
        i < mics.len() && mics[i].item@ == id ==> entry_of(mics, id) == Some(mics[i]),
        i == mics.len() ==> entry_of(mics, id) is None,
    decreases i,
{
    if i > 0 {
        let rest = mics.drop_first();
        assert(mics[0].item@ != id);
        assert forall|j: int| 0 <= j < i - 1 implies (#[trigger] rest[j]).item@ != id by {
            assert(rest[j] == mics[j + 1]);
        }
        law_entries_are_found_by_their_items(rest, id, i - 1);
    }
}

/// A click does what its item is for: the switch and start-at-login go to where their boxes now
/// stand, a microphone is chosen by the device of its row, and an unknown item does nothing. An
/// ID that two items share goes to the first of them, the commands before the microphones.
pub proof fn law_clicks_do_what_their_items_are_for(
    action: TrayAction,
    items: Items,
    id: Seq<char>,
    enable_checked: bool,
    auto_start_checked: bool,
    i: int,
)
    requires
        is_answer(action, items, id, enable_checked, auto_start_checked),
        0 <= i <= items.mics@.len(),
        forall|j: int| 0 <= j < i ==> (#[trigger] items.mics@[j]).item@ != id,
    ensures
        id == items.enable@ ==> action == TrayAction::SetEnabled(enable_checked),
        id != items.enable@ && id == items.auto_start@ ==> action == TrayAction::SetAutoStart(
            auto_start_checked,
        ),
        id != items.enable@ && id != items.auto_start@ && id == items.open_logs@
            ==> action is OpenLogs,
        id != items.enable@ && id != items.auto_start@ && id != items.open_logs@ && id
            == items.quit@ ==> action is Quit,
        id != items.enable@ && id != items.auto_start@ && id != items.open_logs@ && id
            != items.quit@ ==> {
            &&& i < items.mics@.len() && items.mics@[i].item@ == id ==> (
            action matches TrayAction::SelectMic(device) && device@ == items.mics@[i].device_id@)
            &&& i == items.mics@.len() ==> action is Nothing
        },
{
    law_entries_are_found_by_their_items(items.mics@, id, i);
}

/// The check marks of the picker stand in the order of its entries, and one is set exactly where
/// the entry picks the chosen device.
pub proof fn law_marks_stand_by_the_chosen_device(
    mics: Seq<MicEntry>,
    device_id: Seq<char>,
    i: int,
)
    requires
        0 <= i < mics.len(),
    ensures
        marks_of(mics, device_id).len() == mics.len(),
        marks_of(mics, device_id)[i] <==> mics[i].device_id@ == device_id,
{
}

/// A change of one setting leaves the four others as they were.
pub proof fn law_one_setting_changes_at_a_time(a: Config, b: Config)
    ensures
        same_but_mic(a, b) <==> a.output_device_id == b.output_device_id && a.enabled == b.enabled
            && a.attenuation_db == b.attenuation_db && a.auto_start == b.auto_start,
        same_but_enabled(a, b) <==> a.input_device_id == b.input_device_id && a.output_device_id
            == b.output_device_id && a.attenuation_db == b.attenuation_db && a.auto_start
            == b.auto_start,
        same_but_auto_start(a, b) <==> a.input_device_id == b.input_device_id && a.output_device_id
            == b.output_device_id && a.enabled == b.enabled && a.attenuation_db == b.attenuation_db,
{
}

/// The tooltip names the model, says whether it is on or bypassed, and gives both figures as they
/// were handed in.
pub proof fn law_the_tooltip_says_how_it_runs(
    name: Seq<char>,
    cpu_percent: Seq<char>,
    peak_ms: Seq<char>,
)
    ensures
        tooltip_text(name, true, cpu_percent, peak_ms) == "NoiseGate ("@ + name + ")\n"@ + "ON"@
            + "  |  CPU: "@ + cpu_percent + "%  peak: "@ + peak_ms + "ms"@,
        tooltip_text(name, false, cpu_percent, peak_ms) == "NoiseGate ("@ + name + ")\n"@
            + "BYPASS"@ + "  |  CPU: "@ + cpu_percent + "%  peak: "@ + peak_ms + "ms"@,
        TOOLTIP_PERIOD_MS == 1000,
{
}

/// The icon is a disc: the pixel at column `x` of row `y` is coloured and opaque exactly where it
/// is no further than 7 from the middle, and clear everywhere else.
pub proof fn law_the_icon_is_a_disc(x: int, y: int)
    requires
        0 <= x < 16,
        0 <= y < 16,
    ensures
        (x - 8) * (x - 8) + (y - 8) * (y - 8) <= 49 ==> icon_byte(4 * (16 * y + x)) == 0x2a
            && icon_byte(4 * (16 * y + x) + 1) == 0xa1 && icon_byte(4 * (16 * y + x) + 2) == 0x98
            && icon_byte(4 * (16 * y + x) + 3) == 0xff,
        (x - 8) * (x - 8) + (y - 8) * (y - 8) > 49 ==> forall|c: int|
            0 <= c < 4 ==> #[trigger] icon_byte(4 * (16 * y + x) + c) == 0,
        ICON_SIDE == 16,
{
    let at = 4 * (16 * y + x);
    assert(at / 4 == 16 * y + x && at % 4 == 0);
    assert((at + 1) / 4 == 16 * y + x && (at + 1) % 4 == 1);
    assert((at + 2) / 4 == 16 * y + x && (at + 2) % 4 == 2);
    assert((at + 3) / 4 == 16 * y + x && (at + 3) % 4 == 3);
    assert((16 * y + x) % 16 == x && (16 * y + x) / 16 == y);
    assert forall|c: int| 0 <= c < 4 implies #[trigger] icon_byte(at + c) == pixel(x, y)[c] by {
        assert((at + c) / 4 == 16 * y + x && (at + c) % 4 == c);
    }
    assert(icon_byte(at + 0) == pixel(x, y)[0]);
}

} // verus!
