//! The command line, and what it prints.

use crate::config::{Config, Session};
use crate::devices::{Device, DeviceList};
use crate::error::{error_text, AudioError};
use crate::text::{
    ascii_lowered, concat2, concat3, decimal, decimal_text, fold, folded, found, join, joined,
    law_ascii_folds_to_ascii, law_folding_ignores_ascii_case, law_folding_keeps_ascii_matches,
    law_folding_keeps_what_is_held, law_held_text_stands_between, occurs, same_but_ascii_case, same_text, starts_with, texts,
};
use vstd::prelude::*;

verus! {

#[derive(Debug)]
pub struct CliArgs {
    pub help: bool,
    pub list_devices: bool,
    pub mic: Option<String>,
}

/// What a command line asks for.
pub struct Wishes {
    pub help: bool,
    pub list_devices: bool,
    pub mic: Option<Seq<char>>,
}

impl View for CliArgs {
    type V = Wishes;

    open spec fn view(&self) -> Wishes {
        Wishes {
            help: self.help,
            list_devices: self.list_devices,
            mic: match self.mic {
                Some(m) => Some(m@),
                None => None,
            },
        }
    }
}

impl Default for CliArgs {
    fn default() -> (r: Self)
        ensures
            r@ == nothing_wished(),
    {
        CliArgs { help: false, list_devices: false, mic: None }
    }
}

/// A command line that asks for nothing.
pub open spec fn nothing_wished() -> Wishes {
    Wishes { help: false, list_devices: false, mic: None }
}

/// What the program is to do.
#[derive(Debug, Clone, Copy, PartialEq, Eq, Structural)]
pub enum Mode {
    /// Show the help and exit.
    Help,
    /// Print the devices and exit.
    ListDevices,
    /// Run.
    Run,
}

impl CliArgs {
    /// What the program is to do. Asking for help comes first, whatever else is asked for.
    pub fn mode(&self) -> (r: Mode)
        ensures
            r == (if self.help {
                Mode::Help
            } else if self.list_devices {
                Mode::ListDevices
            } else {
                Mode::Run
            }),
    {
        if self.help {
            Mode::Help
        } else if self.list_devices {
            Mode::ListDevices
        } else {
            Mode::Run
        }
    }
}

/// Is this argument a known option of its own?
pub open spec fn is_option(arg: Seq<char>) -> bool {
    ||| arg == "-h"@
    ||| arg == "--help"@
    ||| arg == "--list-devices"@
    ||| arg == "--mic"@
    ||| "--mic="@.is_prefix_of(arg)
}

/// What the arguments add to what was already wished, read from left to right. `--mic` takes
/// the next argument, whatever it is; a last `--mic` takes none and clears the wish. Unknown
/// arguments are ignored.
pub open spec fn wishes(args: Seq<Seq<char>>, so_far: Wishes) -> Wishes
    decreases args.len(),
{
    if args.len() == 0 {
        so_far
    } else {
        let arg = args[0];
        if arg == "-h"@ || arg == "--help"@ {
            wishes(args.skip(1), Wishes { help: true, ..so_far })
        } else if arg == "--list-devices"@ {
            wishes(args.skip(1), Wishes { list_devices: true, ..so_far })
        } else if arg == "--mic"@ {
            if args.len() == 1 {
                Wishes { mic: None, ..so_far }
            } else {
                wishes(args.skip(2), Wishes { mic: Some(args[1]), ..so_far })
            }
        } else if "--mic="@.is_prefix_of(arg) {
            wishes(
                args.skip(1),
                Wishes { mic: Some(arg.skip("--mic="@.len() as int)), ..so_far },
            )
        } else {
            wishes(args.skip(1), so_far)
        }
    }
}

/// Read the arguments that follow the program's name.
pub fn parse_args(args: &Vec<String>) -> (r: CliArgs)
    ensures
        r@ == wishes(texts(args@), nothing_wished()),
{
    let mut out: CliArgs = CliArgs::default();
    let ghost all = texts(args@);
    let mut i: usize = 0;
    proof {
        assert(all.skip(0) == all);
        reveal_strlit("--mic=");
    }
    while i < args.len()
        invariant
            0 <= i <= args.len(),
            all == texts(args@),
            "--mic="@.len() == 6,
            wishes(all.skip(i as int), out@) == wishes(all, nothing_wished()),
        decreases args.len() - i,
    {
        let arg: &str = args[i].as_str();
        let ghost rest = all.skip(i as int);
        proof {
            assert(rest[0] == arg@);
            assert(rest.skip(1) == all.skip(i + 1));
        }
        if same_text(arg, "-h") || same_text(arg, "--help") {
            out.help = true;
        } else if same_text(arg, "--list-devices") {
            out.list_devices = true;
        } else if same_text(arg, "--mic") {
            i = i + 1;
            if i < args.len() {
                out.mic = Some(args[i].clone());
                proof {
                    assert(rest[1] == args@[i as int]@);
                    assert(rest.skip(2) == all.skip(i + 1));
                }
            } else {
                out.mic = None;
                proof {
                    assert(all.skip(i as int).len() == 0);
                }
                return out;
            }
        } else if starts_with(arg, "--mic=") {
            let value: &str = arg.substring_char(6, arg.unicode_len());
            out.mic = Some(value.to_owned());
            proof {
                assert(value@ == arg@.skip(6));
            }
        }
        i = i + 1;
    }
    proof {
        assert(all.skip(all.len() as int).len() == 0);
    }
    out
}

/// Arguments that are no option leave no trace.
pub proof fn law_unknown_arguments_are_ignored(args: Seq<Seq<char>>, so_far: Wishes)
    requires
        forall|i: int| 0 <= i < args.len() ==> !is_option(#[trigger] args[i]),
    ensures
        wishes(args, so_far) == so_far,
    decreases args.len(),
{
    if args.len() > 0 {
        assert(!is_option(args[0]));
        assert forall|i: int| 0 <= i < args.skip(1).len() implies !is_option(
            #[trigger] args.skip(1)[i],
        ) by {
            assert(args.skip(1)[i] == args[i + 1]);
        }
        law_unknown_arguments_are_ignored(args.skip(1), so_far);
    }
}

/// `--mic NAME` and `--mic=NAME` ask for the same.
pub proof fn law_both_forms_of_mic_agree(name: Seq<char>, rest: Seq<Seq<char>>, so_far: Wishes)
    ensures
        wishes(seq!["--mic"@, name] + rest, so_far) == wishes(
            seq!["--mic="@ + name] + rest,
            so_far,
        ),
{
    reveal_strlit("-h");
    reveal_strlit("--help");
    reveal_strlit("--list-devices");
    reveal_strlit("--mic");
    reveal_strlit("--mic=");
    let apart = seq!["--mic"@, name] + rest;
    let fused = seq!["--mic="@ + name] + rest;
    assert(apart[0] == "--mic"@);
    assert(apart[1] == name);
    assert(apart.skip(2) == rest);
    assert(fused[0] == "--mic="@ + name);
    assert(fused.skip(1) == rest);
    assert("--mic"@.len() == 5 && "-h"@.len() == 2 && "--help"@.len() == 6);
    assert("--mic"@[2] == 'm' && "--help"@[2] == 'h' && "--list-devices"@[2] == 'l');
    assert(fused[0][2] == 'm');
    assert(fused[0][5] == '=');
    assert(fused[0].skip("--mic="@.len() as int) == name);
    assert("--mic="@.is_prefix_of(fused[0]));
    assert(fused[0] != "--mic"@) by {
        assert(fused[0].len() >= 6);
    }
    assert(fused[0] != "-h"@) by {
        assert(fused[0].len() >= 6);
    }
}

/// The lines for one capture device.
pub open spec fn capture_entry(d: Device) -> Seq<char> {
    "  - "@ + d.friendly_name@ + (if d.is_default {
        " [default]"@
    } else {
        ""@
    }) + "\n    id: "@ + d.id@ + "\n"@
}

/// The lines for one render device.
pub open spec fn render_entry(d: Device) -> Seq<char> {
    "  - "@ + d.friendly_name@ + (if d.is_default {
        " [default]"@
    } else {
        ""@
    }) + (if d.is_cable() {
        "  [VB-Cable]"@
    } else {
        ""@
    }) + "\n    id: "@ + d.id@ + "\n"@
}

/// The lines for all capture devices.
pub open spec fn capture_entries(devices: Seq<Device>) -> Seq<char>
    decreases devices.len(),
{
    if devices.len() == 0 {
        seq![]
    } else {
        capture_entries(devices.drop_last()) + capture_entry(devices.last())
    }
}

/// The lines for all render devices.
pub open spec fn render_entries(devices: Seq<Device>) -> Seq<char>
    decreases devices.len(),
{
    if devices.len() == 0 {
        seq![]
    } else {
        render_entries(devices.drop_last()) + render_entry(devices.last())
    }
}

/// The device inventory that `--list-devices` prints.
pub fn list_devices(list: &DeviceList) -> (r: String)
    ensures
        r@ == "Capture (input) devices:\n"@ + capture_entries(list.capture@)
            + "\nRender (output) devices:\n"@ + render_entries(list.render@),
{
    let mut r: String = "Capture (input) devices:\n".to_owned();
    let mut i: usize = 0;
    proof {
        assert(r@ + capture_entries(list.capture@.take(0)) == r@);
    }
    while i < list.capture.len()
        invariant
            0 <= i <= list.capture.len(),
            r@ == "Capture (input) devices:\n"@ + capture_entries(list.capture@.take(i as int)),
        decreases list.capture.len() - i,
    {
        let d: &Device = &list.capture[i];
        let ghost before = r@;
        r.append("  - ");
        r.append(d.friendly_name.as_str());
        r.append(
            if d.is_default {
                " [default]"
            } else {
                ""
            },
        );
        r.append("\n    id: ");
        r.append(d.id.as_str());
        r.append("\n");
        proof {
            let now = list.capture@.take(i + 1);
            assert(now.drop_last() == list.capture@.take(i as int));
            assert(now.last() == *d);
            assert(r@ == before + capture_entry(*d));
            assert(r@ == "Capture (input) devices:\n"@ + capture_entries(now));
        }
        i = i + 1;
    }
    r.append("\nRender (output) devices:\n");
    let ghost head = r@;
    proof {
        assert(list.capture@.take(list.capture@.len() as int) == list.capture@);
        assert(head + render_entries(list.render@.take(0)) == head);
    }
    let mut k: usize = 0;
    while k < list.render.len()
        invariant
            0 <= k <= list.render.len(),
            r@ == head + render_entries(list.render@.take(k as int)),
        decreases list.render.len() - k,
    {
        let d: &Device = &list.render[k];
        let ghost before = r@;
        r.append("  - ");
        r.append(d.friendly_name.as_str());
        r.append(
            if d.is_default {
                " [default]"
            } else {
                ""
            },
        );
        r.append(
            if d.is_vb_cable_input() {
                "  [VB-Cable]"
            } else {
                ""
            },
        );
        r.append("\n    id: ");
        r.append(d.id.as_str());
        r.append("\n");
        proof {
            let now = list.render@.take(k + 1);
            assert(now.drop_last() == list.render@.take(k as int));
            assert(now.last() == *d);
            assert(r@ == before + render_entry(*d));
            assert(r@ == head + render_entries(now));
        }
        k = k + 1;
    }
    proof {
        assert(list.render@.take(list.render@.len() as int) == list.render@);
    }
    r
}

/// One line of the start-up log about a microphone.
#[derive(Debug)]
pub struct DeviceNote {
    pub name: String,
    pub id: String,
    pub message: String,
}

/// The note about one microphone.
pub open spec fn notes_on(note: DeviceNote, d: Device) -> bool {
    &&& note.name@ == d.friendly_name@
    &&& note.id@ == d.id@
    &&& note.message@ == "input device available"@ + (if d.is_default {
        " (default)"@
    } else {
        ""@
    })
}

/// What the start-up log says of each microphone, in order.
pub fn log_input_devices(list: &DeviceList) -> (notes: Vec<DeviceNote>)
    ensures
        notes@.len() == list.capture@.len(),
        forall|i: int|
            0 <= i < notes@.len() ==> notes_on(#[trigger] notes@[i], list.capture@[i]),
{
    let mut notes: Vec<DeviceNote> = Vec::new();
    let mut i: usize = 0;
    while i < list.capture.len()
        invariant
            0 <= i <= list.capture.len(),
            notes@.len() == i,
            forall|j: int| 0 <= j < i ==> notes_on(#[trigger] notes@[j], list.capture@[j]),
        decreases list.capture.len() - i,
    {
        let d: &Device = &list.capture[i];
        let message: String = concat2(
            "input device available",
            if d.is_default {
                " (default)"
            } else {
                ""
            },
        );
        notes.push(DeviceNote { name: d.friendly_name.clone(), id: d.id.clone(), message });
        i = i + 1;
    }
    notes
}

/// Why no single microphone matched.
#[derive(Debug)]
pub enum MicError {
    /// The devices could not be listed; why not.
    Unlisted(String),
    NoMatch,
    /// The friendly names of all that matched.
    Ambiguous(Vec<String>),
}

/// The words of an error.
pub open spec fn mic_error_text(why: MicError) -> Seq<char> {
    match why {
        MicError::Unlisted(text) => text@,
        MicError::NoMatch => "no capture device matched"@,
        MicError::Ambiguous(names) => "ambiguous: "@ + decimal(names@.len())
            + " devices matched ("@ + joined(texts(names@), ", "@) + "). Refine the substring."@,
    }
}

impl MicError {
    /// What the user reads.
    pub fn message(&self) -> (r: String)
        ensures
            r@ == mic_error_text(*self),
    {
        match self {
            MicError::Unlisted(text) => text.clone(),
            MicError::NoMatch => "no capture device matched".to_owned(),
            MicError::Ambiguous(names) => {
                let mut r: String = concat3(
                    "ambiguous: ",
                    decimal_text(names.len() as u64).as_str(),
                    " devices matched (",
                );
                r.append(join(names, ", ").as_str());
                r.append("). Refine the substring.");
                r
            },
        }
    }
}

/// The test that a device's name holds `needle`, letter case ignored.
pub open spec fn name_test(needle: Seq<char>) -> spec_fn(Device) -> bool {
    |d: Device| occurs(fold(d.friendly_name@), fold(needle))
}

/// The devices whose names hold `needle`, in order.
pub open spec fn matching(devices: Seq<Device>, needle: Seq<char>) -> Seq<Device> {
    devices.filter(name_test(needle))
}

/// The friendly names of devices.
pub open spec fn names_of(devices: Seq<Device>) -> Seq<Seq<char>> {
    devices.map_values(|d: Device| d.friendly_name@)
}

/// Why `needle` names no one microphone among the devices that were listed.
pub open spec fn is_mic_failure(
    listed: Result<DeviceList, AudioError>,
    needle: Seq<char>,
    why: MicError,
) -> bool {
    match (listed, why) {
        (Err(e), MicError::Unlisted(text)) => text@ == error_text(e),
        (Ok(list), MicError::NoMatch) => matching(list.capture@, needle).len() == 0,
        (Ok(list), MicError::Ambiguous(names)) => {
            &&& matching(list.capture@, needle).len() >= 2
            &&& texts(names@) == names_of(matching(list.capture@, needle))
        },
        _ => false,
    }
}

/// `id` is that of the one microphone that `needle` names among the devices that were listed.
pub open spec fn is_mic_match(
    listed: Result<DeviceList, AudioError>,
    needle: Seq<char>,
    id: Seq<char>,
) -> bool {
    &&& listed matches Ok(list)
    &&& matching(list.capture@, needle).len() == 1
    &&& id == matching(list.capture@, needle)[0].id@
}

/// The ID of the one microphone whose name holds `needle`, letter case ignored, among the
/// devices that were listed.
pub fn resolve_mic_by_substring(listed: &Result<DeviceList, AudioError>, needle: &str) -> (r: Result<
    String,
    MicError,
>)
    ensures
        match r {
            Ok(id) => is_mic_match(*listed, needle@, id@),
            Err(why) => is_mic_failure(*listed, needle@, why),
        },
{
    match listed {
        Ok(list) => match_mic(list, needle),
        Err(e) => Err(MicError::Unlisted(e.message())),
    }
}

/// The ID of the one microphone of the list whose name holds `needle`, letter case ignored.
fn match_mic(list: &DeviceList, needle: &str) -> (r: Result<String, MicError>)
    ensures
        is_pick(r, matching(list.capture@, needle@)),
{
    let mut names: Vec<Vec<char>> = Vec::new();
    let mut i: usize = 0;
    while i < list.capture.len()
        invariant
            0 <= i <= list.capture.len(),
            names@.len() == i,
            forall|j: int|
                0 <= j < i ==> (#[trigger] names@[j])@ == fold(list.capture@[j].friendly_name@),
        decreases list.capture.len() - i,
    {
        names.push(folded(list.capture[i].friendly_name.as_str()));
        i = i + 1;
    }
    proof {
        lemma_folded_matching(list.capture@, runs(names@), needle@);
    }
    match_folded(list, &names, &folded(needle))
}

/// The characters of each run of a list.
pub open spec fn runs(list: Seq<Vec<char>>) -> Seq<Seq<char>> {
    list.map_values(|v: Vec<char>| v@)
}

/// `r` is the ID of the one device picked, or says that none or several were.
pub open spec fn is_pick(r: Result<String, MicError>, picked: Seq<Device>) -> bool {
    match r {
        Ok(id) => picked.len() == 1 && id@ == picked[0].id@,
        Err(MicError::NoMatch) => picked.len() == 0,
        Err(MicError::Ambiguous(names)) => picked.len() >= 2 && texts(names@) == names_of(picked),
        Err(MicError::Unlisted(_)) => false,
    }
}

/// The devices whose text in `names`, at the same place, holds `needle`, in order.
pub open spec fn holding(
    devices: Seq<Device>,
    names: Seq<Seq<char>>,
    needle: Seq<char>,
) -> Seq<Device>
    decreases devices.len(),
{
    if devices.len() == 0 {
        seq![]
    } else {
        let before = holding(devices.drop_last(), names.drop_last(), needle);
        if occurs(names.last(), needle) {
            before.push(devices.last())
        } else {
            before
        }
    }
}

/// Folded names and needle match as names and needle do when letter case is ignored.
proof fn lemma_folded_matching(devices: Seq<Device>, names: Seq<Seq<char>>, needle: Seq<char>)
    requires
        names.len() == devices.len(),
        forall|i: int|
            0 <= i < devices.len() ==> #[trigger] names[i] == fold(devices[i].friendly_name@),
    ensures
        holding(devices, names, fold(needle)) == matching(devices, needle),
    decreases devices.len(),
{
    reveal(Seq::filter);
    if devices.len() > 0 {
        assert forall|i: int| 0 <= i < devices.len() - 1 implies #[trigger] names.drop_last()[i]
            == fold(devices.drop_last()[i].friendly_name@) by {
            assert(names.drop_last()[i] == names[i]);
        }
        lemma_folded_matching(devices.drop_last(), names.drop_last(), needle);
        assert(names.last() == fold(devices.last().friendly_name@));
    }
}

/// The ID of the one microphone of the list whose text in `names` holds `needle`: `names` has
/// one text for each microphone.
pub fn match_folded(list: &DeviceList, names: &Vec<Vec<char>>, needle: &Vec<char>) -> (r: Result<
    String,
    MicError,
>)
    requires
        names@.len() == list.capture@.len(),
    ensures
        is_pick(r, holding(list.capture@, runs(names@), needle@)),
{
    let mut ids: Vec<String> = Vec::new();
    let mut shown: Vec<String> = Vec::new();
    let ghost all = list.capture@;
    let ghost keys = runs(names@);
    let mut i: usize = 0;
    while i < list.capture.len()
        invariant
            0 <= i <= list.capture.len(),
            names@.len() == list.capture@.len(),
            all == list.capture@,
            keys == runs(names@),
            ids@.len() == shown@.len(),
            texts(shown@) == names_of(holding(all.take(i as int), keys.take(i as int), needle@)),
            forall|j: int|
                0 <= j < ids@.len() ==> (#[trigger] ids@[j])@ == holding(
                    all.take(i as int),
                    keys.take(i as int),
                    needle@,
                )[j].id@,
        decreases list.capture.len() - i,
    {
        let d: &Device = &list.capture[i];
        let ghost so_far = holding(all.take(i as int), keys.take(i as int), needle@);
        let ghost now = holding(all.take(i + 1), keys.take(i + 1), needle@);
        proof {
            assert(all.take(i + 1).drop_last() == all.take(i as int));
            assert(keys.take(i + 1).drop_last() == keys.take(i as int));
            assert(keys.take(i + 1).last() == names@[i as int]@);
            assert(names_of(so_far).len() == so_far.len());
            assert(texts(shown@).len() == shown@.len());
        }
        if found(&names[i], needle) {
            ids.push(d.id.clone());
            let ghost before = shown@;
            shown.push(d.friendly_name.clone());
            proof {
                assert(now == so_far.push(*d));
                assert(texts(shown@) == texts(before).push(d.friendly_name@));
                assert(names_of(now) == names_of(so_far).push(d.friendly_name@));
            }
        }
        i = i + 1;
    }
    proof {
        assert(all.take(all.len() as int) == all);
        assert(keys.take(keys.len() as int) == keys);
        assert(texts(shown@).len() == shown@.len());
        assert(names_of(holding(all, keys, needle@)).len() == holding(all, keys, needle@).len());
    }
    if ids.len() == 0 {
        Err(MicError::NoMatch)
    } else if ids.len() == 1 {
        Ok(ids[0].clone())
    } else {
        Err(MicError::Ambiguous(shown))
    }
}

/// A microphone whose name holds the needle letter for letter, or when the case of ASCII letters
/// is ignored, is among those that match.
pub proof fn law_held_names_match(devices: Seq<Device>, needle: Seq<char>, i: int)
    requires
        0 <= i < devices.len(),
        occurs(devices[i].friendly_name@, needle) || occurs(
            ascii_lowered(devices[i].friendly_name@),
            ascii_lowered(needle),
        ),
    ensures
        matching(devices, needle).contains(devices[i]),
{
    let name = devices[i].friendly_name@;
    if occurs(name, needle) {
        law_folding_keeps_what_is_held(name, needle);
    } else {
        law_folding_keeps_ascii_matches(name, needle);
    }
    assert(name_test(needle)(devices[i]));
    devices.lemma_filter_contains(name_test(needle), i);
}

/// The IDs of devices.
pub open spec fn ids_of(devices: Seq<Device>) -> Seq<Seq<char>> {
    devices.map_values(|d: Device| d.id@)
}

/// The two lists hold the same devices, but for the case of ASCII letters in their names.
pub open spec fn same_but_case_of_names(a: Seq<Device>, b: Seq<Device>) -> bool {
    &&& a.len() == b.len()
    &&& forall|i: int|
        0 <= i < a.len() ==> (#[trigger] a[i]).id@ == b[i].id@ && same_but_ascii_case(
            a[i].friendly_name@,
            b[i].friendly_name@,
        )
}

/// The case of ASCII letters, in the needle or in the names, makes no difference to which
/// microphones match.
pub proof fn law_mic_filter_ignores_case(
    devices: Seq<Device>,
    needle: Seq<char>,
    other_devices: Seq<Device>,
    other_needle: Seq<char>,
)
    requires
        same_but_ascii_case(needle, other_needle),
        same_but_case_of_names(devices, other_devices),
    ensures
        ids_of(matching(devices, needle)) == ids_of(matching(other_devices, other_needle)),
        matching(devices, needle).len() == matching(other_devices, other_needle).len(),
    decreases devices.len(),
{
    reveal(Seq::filter);
    law_folding_ignores_ascii_case(needle, other_needle);
    if devices.len() > 0 {
        let a = devices.drop_last();
        let b = other_devices.drop_last();
        assert forall|i: int| 0 <= i < a.len() implies (#[trigger] a[i]).id@ == b[i].id@
            && same_but_ascii_case(a[i].friendly_name@, b[i].friendly_name@) by {
            assert(a[i] == devices[i]);
        }
        law_mic_filter_ignores_case(a, needle, b, other_needle);
        let d = devices.last();
        let e = other_devices.last();
        assert(devices[devices.len() - 1] == d);
        law_folding_ignores_ascii_case(d.friendly_name@, e.friendly_name@);
        assert(name_test(needle)(d) == name_test(other_needle)(e));
        if name_test(needle)(d) {
            assert(ids_of(matching(devices, needle)) == ids_of(matching(a, needle)).push(d.id@));
            assert(ids_of(matching(other_devices, other_needle)) == ids_of(
                matching(b, other_needle),
            ).push(e.id@));
        }
    }
}

/// A microphone is resolved to the same ID, or to none, whatever the case of ASCII letters in the
/// needle and in the names.
pub proof fn law_resolution_ignores_case(
    list: DeviceList,
    needle: Seq<char>,
    other_list: DeviceList,
    other_needle: Seq<char>,
    id: Seq<char>,
)
    requires
        same_but_ascii_case(needle, other_needle),
        same_but_case_of_names(list.capture@, other_list.capture@),
    ensures
        is_mic_match(Ok(list), needle, id) <==> is_mic_match(Ok(other_list), other_needle, id),
{
    law_mic_filter_ignores_case(list.capture@, needle, other_list.capture@, other_needle);
    let a = matching(list.capture@, needle);
    let b = matching(other_list.capture@, other_needle);
    if a.len() == 1 {
        assert(ids_of(a)[0] == a[0].id@);
        assert(ids_of(b)[0] == b[0].id@);
    }
}

/// The complaint about a `--mic` that cannot be met.
pub fn mic_complaint(filter: &str, why: &MicError) -> (r: String)
    ensures
        r@ == "--mic '"@ + filter@ + "' did not match any input device: "@ + mic_error_text(*why),
{
    let mut r: String = concat3("--mic '", filter, "' did not match any input device: ");
    r.append(why.message().as_str());
    r
}

/// The settings of this run when the command line asks for the microphone that `filter` names:
/// it is used in place of the one on file, which stays. Where `filter` names no one microphone,
/// the complaint about that.
pub fn override_mic(
    saved: Config,
    filter: &str,
    listed: &Result<DeviceList, AudioError>,
) -> (r: Result<Session, String>)
    ensures
        match r {
            Ok(session) => {
                &&& session.saved == saved
                &&& session.mic matches Some(id) && is_mic_match(*listed, filter@, id@)
            },
            Err(text) => exists|why: MicError|
                text@ == "--mic '"@ + filter@ + "' did not match any input device: "@
                    + #[trigger] mic_error_text(why) && is_mic_failure(*listed, filter@, why),
        },
{
    match resolve_mic_by_substring(listed, filter) {
        Ok(id) => Ok(Session { saved, mic: Some(id) }),
        Err(why) => Err(mic_complaint(filter, &why)),
    }
}

/// Every argument is heard by itself, in turn, and the rest after it. Asking for help or for the
/// devices adds that wish and no other; `--mic` takes the argument behind it, whatever it is, and
/// goes on behind that one; `--mic=` takes what follows the sign; the last microphone asked for
/// is the one; a last `--mic` leaves none.
pub proof fn law_arguments_are_heard_in_turn(
    arg: Seq<char>,
    rest: Seq<Seq<char>>,
    so_far: Wishes,
    name: Seq<char>,
)
    ensures
        wishes(Seq::<Seq<char>>::empty(), so_far) == so_far,
        arg == "-h"@ || arg == "--help"@ ==> wishes(seq![arg] + rest, so_far) == wishes(
            rest,
            (Wishes { help: true, list_devices: so_far.list_devices, mic: so_far.mic }),
        ),
        arg == "--list-devices"@ ==> wishes(seq![arg] + rest, so_far) == wishes(
            rest,
            (Wishes { help: so_far.help, list_devices: true, mic: so_far.mic }),
        ),
        arg == "--mic"@ ==> wishes(seq![arg, name] + rest, so_far) == wishes(
            rest,
            (Wishes { help: so_far.help, list_devices: so_far.list_devices, mic: Some(name) }),
        ),
        arg == "--mic"@ ==> wishes(seq![arg], so_far) == (Wishes {
            help: so_far.help,
            list_devices: so_far.list_devices,
            mic: None,
        }),
        arg == "--mic="@ + name ==> wishes(seq![arg] + rest, so_far) == wishes(
            rest,
            (Wishes { help: so_far.help, list_devices: so_far.list_devices, mic: Some(name) }),
        ),
        arg != "-h"@ && arg != "--help"@ && arg != "--list-devices"@ && arg != "--mic"@ && (forall|
            value: Seq<char>,
        |
            arg != #[trigger] ("--mic="@ + value)) ==> wishes(seq![arg] + rest, so_far) == wishes(
            rest,
            so_far,
        ),
        nothing_wished() == (Wishes { help: false, list_devices: false, mic: None }),
{
    reveal_strlit("-h");
    reveal_strlit("--help");
    reveal_strlit("--list-devices");
    reveal_strlit("--mic");
    reveal_strlit("--mic=");
    let one = seq![arg] + rest;
    assert(one[0] == arg);
    assert(one.skip(1) == rest);
    assert("-h"@.len() == 2 && "--help"@.len() == 6 && "--mic"@.len() == 5);
    assert("--help"@[2] == 'h' && "--list-devices"@[2] == 'l' && "--mic"@[2] == 'm');
    if arg == "--mic"@ {
        let two = seq![arg, name] + rest;
        assert(two[0] == arg && two[1] == name);
        assert(two.skip(2) == rest);
        let alone = seq![arg];
        assert(alone[0] == arg);
    }
    if arg == "--mic="@ + name {
        law_both_forms_of_mic_agree(name, rest, so_far);
        let apart = seq!["--mic"@, name] + rest;
        assert(apart[0] == "--mic"@ && apart[1] == name);
        assert(apart.skip(2) == rest);
    }
    if "--mic="@.is_prefix_of(arg) {
        let value = arg.skip(6);
        assert(arg == "--mic="@ + value);
    }
}

/// What is printed of the capture devices: of each in turn, on lines of its own, its name, the
/// mark of the default where it is that, and its ID.
pub proof fn law_capture_devices_are_printed_in_turn(devices: Seq<Device>, d: Device)
    ensures
        capture_entries(Seq::<Device>::empty()) == Seq::<char>::empty(),
        d.is_default ==> capture_entries(devices.push(d)) == capture_entries(devices) + "  - "@
            + d.friendly_name@ + " [default]"@ + "\n    id: "@ + d.id@ + "\n"@,
        !d.is_default ==> capture_entries(devices.push(d)) == capture_entries(devices) + "  - "@
            + d.friendly_name@ + "\n    id: "@ + d.id@ + "\n"@,
{
    reveal_strlit("");
    assert(devices.push(d).drop_last() == devices);
    assert(capture_entries(devices.push(d)) == capture_entries(devices) + capture_entry(d));
    if d.is_default {
        assert(capture_entries(devices) + capture_entry(d) == capture_entries(devices) + "  - "@
            + d.friendly_name@ + " [default]"@ + "\n    id: "@ + d.id@ + "\n"@);
    } else {
        assert(capture_entries(devices) + capture_entry(d) == capture_entries(devices) + "  - "@
            + d.friendly_name@ + "\n    id: "@ + d.id@ + "\n"@);
    }
}

/// What is printed of the render devices: as of the capture devices, and behind the name of each
/// that passes as the virtual cable the mark of that.
pub proof fn law_render_devices_are_printed_in_turn(devices: Seq<Device>, d: Device)
    ensures
        render_entries(Seq::<Device>::empty()) == Seq::<char>::empty(),
        d.is_cable() ==> render_entries(devices.push(d)) == render_entries(devices) + "  - "@
            + d.friendly_name@ + (if d.is_default {
            " [default]"@
        } else {
            Seq::<char>::empty()
        }) + "  [VB-Cable]"@ + "\n    id: "@ + d.id@ + "\n"@,
        !d.is_cable() ==> render_entries(devices.push(d)) == render_entries(devices) + "  - "@
            + d.friendly_name@ + (if d.is_default {
            " [default]"@
        } else {
            Seq::<char>::empty()
        }) + "\n    id: "@ + d.id@ + "\n"@,
{
    reveal_strlit("");
    assert(""@ == Seq::<char>::empty());
    assert(devices.push(d).drop_last() == devices);
    assert(render_entries(devices.push(d)) == render_entries(devices) + render_entry(d));
    let tag = if d.is_default {
        " [default]"@
    } else {
        Seq::<char>::empty()
    };
    if d.is_cable() {
        assert(render_entries(devices) + render_entry(d) == render_entries(devices) + "  - "@
            + d.friendly_name@ + tag + "  [VB-Cable]"@ + "\n    id: "@ + d.id@ + "\n"@);
    } else {
        assert(render_entries(devices) + render_entry(d) == render_entries(devices) + "  - "@
            + d.friendly_name@ + tag + "\n    id: "@ + d.id@ + "\n"@);
    }
}

/// The start-up log names a microphone by name and ID, and says of the default one, and of no
/// other, that it is that.
pub proof fn law_the_log_marks_the_default(note: DeviceNote, d: Device)
    requires
        notes_on(note, d),
    ensures
        note.name@ == d.friendly_name@,
        note.id@ == d.id@,
        d.is_default ==> note.message@ == "input device available"@ + " (default)"@,
        !d.is_default ==> note.message@ == "input device available"@,
{
    reveal_strlit("");
    assert("input device available"@ + Seq::<char>::empty() == "input device available"@);
    assert(""@ == Seq::<char>::empty());
}

/// What the user reads where no one microphone was meant: why the devices could not be listed,
/// that none matched, or how many did and which.
pub proof fn law_mic_errors_say_why(text: String, names: Vec<String>)
    ensures
        mic_error_text(MicError::Unlisted(text)) == text@,
        mic_error_text(MicError::NoMatch) == "no capture device matched"@,
        mic_error_text(MicError::Ambiguous(names)) == "ambiguous: "@ + decimal(names@.len())
            + " devices matched ("@ + joined(texts(names@), ", "@) + "). Refine the substring."@,
{
}

/// The microphones that match are those, all of those and no others, whose names hold the needle
/// when both are folded; in the order of the list.
pub proof fn law_matching_is_holding_the_needle(devices: Seq<Device>, needle: Seq<char>)
    ensures
        forall|d: Device| #[trigger]
            matching(devices, needle).contains(d) <==> devices.contains(d) && occurs(
                fold(d.friendly_name@),
                fold(needle),
            ),
        matching(devices, needle).len() <= devices.len(),
        devices.len() > 0 ==> matching(devices, needle) == matching(devices.drop_last(), needle)
            + matching(seq![devices.last()], needle),
{
    broadcast use vstd::seq_lib::group_filter_ensures;

    assert forall|d: Device| #[trigger] matching(devices, needle).contains(d) implies
        devices.contains(d) && occurs(fold(d.friendly_name@), fold(needle)) by {
        devices.lemma_filter_contains_rev(name_test(needle), d);
        let i = choose|i: int|
            0 <= i < matching(devices, needle).len() && matching(devices, needle)[i] == d;
        devices.lemma_filter_pred(name_test(needle), i);
    }
    assert forall|d: Device|
        devices.contains(d) && occurs(fold(d.friendly_name@), fold(needle)) implies #[trigger] matching(
        devices,
        needle,
    ).contains(d) by {
        let i = choose|i: int| 0 <= i < devices.len() && devices[i] == d;
        assert(name_test(needle)(devices[i]));
        devices.lemma_filter_contains(name_test(needle), i);
    }
    if devices.len() > 0 {
        reveal(Seq::filter);
        let last = seq![devices.last()];
        assert(last.drop_last() == Seq::<Device>::empty());
        assert(last.last() == devices.last());
        assert(Seq::<Device>::empty().filter(name_test(needle)) == Seq::<Device>::empty());
        assert(matching(devices, needle) == matching(devices.drop_last(), needle) + matching(
            last,
            needle,
        ));
    }
}

/// Among ASCII names an ASCII needle matches exactly the names that hold the whole of it when the
/// case of ASCII letters is ignored.
pub proof fn law_ascii_names_match_by_the_whole_needle(
    devices: Seq<Device>,
    needle: Seq<char>,
    d: Device,
)
    requires
        devices.contains(d),
        forall|i: int| 0 <= i < needle.len() ==> #[trigger] needle[i] <= '\u{7f}',
        forall|i: int|
            0 <= i < d.friendly_name@.len() ==> #[trigger] d.friendly_name@[i] <= '\u{7f}',
    ensures
        matching(devices, needle).contains(d) <==> exists|before: Seq<char>, after: Seq<char>|
            ascii_lowered(d.friendly_name@) == #[trigger] (before + ascii_lowered(needle) + after),
{
    law_matching_is_holding_the_needle(devices, needle);
    law_ascii_folds_to_ascii(needle);
    law_ascii_folds_to_ascii(d.friendly_name@);
    law_held_text_stands_between(ascii_lowered(d.friendly_name@), ascii_lowered(needle));
    assert(matching(devices, needle).contains(d) <==> occurs(
        fold(d.friendly_name@),
        fold(needle),
    ));
}

/// A microphone is resolved exactly where it is the only one whose name holds the needle, and
/// then to its own ID: another one that holds it too, or none that does, and there is no answer.
pub proof fn law_only_the_one_microphone_is_resolved(
    list: DeviceList,
    needle: Seq<char>,
    i: int,
    id: Seq<char>,
)
    requires
        0 <= i < list.capture@.len(),
        occurs(fold(list.capture@[i].friendly_name@), fold(needle)),
        forall|j: int|
            0 <= j < list.capture@.len() && j != i ==> !occurs(
                fold((#[trigger] list.capture@[j]).friendly_name@),
                fold(needle),
            ),
    ensures
        is_mic_match(Ok(list), needle, id) <==> id == list.capture@[i].id@,
        forall|why: MicError| !#[trigger] is_mic_failure(Ok(list), needle, why),
{
    lemma_only_match(list.capture@, needle, i);
}

proof fn lemma_no_match(devices: Seq<Device>, needle: Seq<char>)
    requires
        forall|j: int|
            0 <= j < devices.len() ==> !occurs(
                fold((#[trigger] devices[j]).friendly_name@),
                fold(needle),
            ),
    ensures
        matching(devices, needle) == Seq::<Device>::empty(),
    decreases devices.len(),
{
    reveal(Seq::filter);
    if devices.len() > 0 {
        let before = devices.drop_last();
        assert forall|j: int| 0 <= j < before.len() implies !occurs(
            fold((#[trigger] before[j]).friendly_name@),
            fold(needle),
        ) by {
            assert(before[j] == devices[j]);
        }
        lemma_no_match(before, needle);
        assert(!name_test(needle)(devices[devices.len() - 1]));
    }
}

proof fn lemma_only_match(devices: Seq<Device>, needle: Seq<char>, i: int)
    requires
        0 <= i < devices.len(),
        occurs(fold(devices[i].friendly_name@), fold(needle)),
        forall|j: int|
            0 <= j < devices.len() && j != i ==> !occurs(
                fold((#[trigger] devices[j]).friendly_name@),
                fold(needle),
            ),
    ensures
        matching(devices, needle) == seq![devices[i]],
    decreases devices.len(),
{
    reveal(Seq::filter);
    let n = devices.len() - 1;
    let before = devices.drop_last();
    if i == n {
        assert forall|j: int| 0 <= j < before.len() implies !occurs(
            fold((#[trigger] before[j]).friendly_name@),
            fold(needle),
        ) by {
            assert(before[j] == devices[j]);
        }
        lemma_no_match(before, needle);
    } else {
        assert forall|j: int| 0 <= j < before.len() && j != i implies !occurs(
            fold((#[trigger] before[j]).friendly_name@),
            fold(needle),
        ) by {
            assert(before[j] == devices[j]);
        }
        lemma_only_match(before, needle, i);
        assert(!name_test(needle)(devices[n]));
    }
}

/// Where no name holds the needle no microphone is resolved, and the only failure that fits is
/// that none matched; where the devices could not be listed, that they could not, and why.
pub proof fn law_no_microphone_is_made_up(
    list: DeviceList,
    needle: Seq<char>,
    e: AudioError,
    id: Seq<char>,
    why: MicError,
)
    ensures
        (forall|j: int|
            0 <= j < list.capture@.len() ==> !occurs(
                fold((#[trigger] list.capture@[j]).friendly_name@),
                fold(needle),
            )) ==> !is_mic_match(Ok(list), needle, id) && (is_mic_failure(Ok(list), needle, why)
            <==> why is NoMatch),
        !is_mic_match(Err(e), needle, id),
        is_mic_failure(Err(e), needle, why) <==> (why matches MicError::Unlisted(text) && text@
            == error_text(e)),
{
    if forall|j: int|
        0 <= j < list.capture@.len() ==> !occurs(
            fold((#[trigger] list.capture@[j]).friendly_name@),
            fold(needle),
        ) {
        lemma_no_match(list.capture@, needle);
    }
}

/// Where two names hold the needle no microphone is resolved, and the failure names every one
/// that does.
pub proof fn law_several_microphones_are_named(
    list: DeviceList,
    needle: Seq<char>,
    i: int,
    j: int,
    id: Seq<char>,
    why: MicError,
)
    requires
        0 <= i < j < list.capture@.len(),
        occurs(fold(list.capture@[i].friendly_name@), fold(needle)),
        occurs(fold(list.capture@[j].friendly_name@), fold(needle)),
    ensures
        !is_mic_match(Ok(list), needle, id),
        is_mic_failure(Ok(list), needle, why) ==> (why matches MicError::Ambiguous(names)
            && names@.len() == matching(list.capture@, needle).len() && forall|k: int|
            0 <= k < names@.len() ==> (#[trigger] names@[k])@ == matching(
                list.capture@,
                needle,
            )[k].friendly_name@),
{
    lemma_two_matches(list.capture@, needle, i, j);
    if is_mic_failure(Ok(list), needle, why) {
        if let MicError::Ambiguous(names) = why {
            let m = matching(list.capture@, needle);
            assert(texts(names@).len() == names@.len());
            assert(names_of(m).len() == m.len());
            assert forall|k: int| 0 <= k < names@.len() implies (#[trigger] names@[k])@
                == m[k].friendly_name@ by {
                assert(texts(names@)[k] == names_of(m)[k]);
            }
        }
    }
}

proof fn lemma_two_matches(devices: Seq<Device>, needle: Seq<char>, i: int, j: int)
    requires
        0 <= i < j < devices.len(),
        occurs(fold(devices[i].friendly_name@), fold(needle)),
        occurs(fold(devices[j].friendly_name@), fold(needle)),
    ensures
        matching(devices, needle).len() >= 2,
    decreases devices.len(),
{
    reveal(Seq::filter);
    let before = devices.drop_last();
    if j == devices.len() - 1 {
        assert(name_test(needle)(before[i]));
        before.lemma_filter_contains(name_test(needle), i);
        assert(matching(before, needle).len() >= 1);
        assert(name_test(needle)(devices.last()));
    } else {
        lemma_two_matches(before, needle, i, j);
    }
}

/// Matching by texts that stand for the names: a device is among those that hold the needle
/// exactly as its own text holds the whole of it, and the devices keep their order.
pub proof fn law_each_device_is_held_by_its_own_text(
    devices: Seq<Device>,
    names: Seq<Seq<char>>,
    d: Device,
    name: Seq<char>,
    needle: Seq<char>,
)
    requires
        names.len() == devices.len(),
    ensures
        holding(Seq::<Device>::empty(), Seq::<Seq<char>>::empty(), needle) == Seq::<Device>::empty(),
        (exists|before: Seq<char>, after: Seq<char>| name == #[trigger] (before + needle + after))
            ==> holding(devices.push(d), names.push(name), needle) == holding(
            devices,
            names,
            needle,
        ).push(d),
        !(exists|before: Seq<char>, after: Seq<char>| name == #[trigger] (before + needle + after))
            ==> holding(devices.push(d), names.push(name), needle) == holding(
            devices,
            names,
            needle,
        ),
{
    law_held_text_stands_between(name, needle);
    assert(devices.push(d).drop_last() == devices);
    assert(names.push(name).drop_last() == names);
}

/// A pick of one device is its ID, a pick of none or of several an error that says so, with the
/// names of all of several.
pub proof fn law_a_pick_is_one_device(r: Result<String, MicError>, picked: Seq<Device>)
    requires
        is_pick(r, picked),
    ensures
        picked.len() == 1 <==> r is Ok,
        r matches Ok(id) ==> id@ == picked[0].id@,
        picked.len() == 0 <==> (r matches Err(why) && why is NoMatch),
        picked.len() >= 2 ==> (r matches Err(MicError::Ambiguous(names)) && names@.len()
            == picked.len() && forall|k: int|
            0 <= k < picked.len() ==> (#[trigger] names@[k])@ == picked[k].friendly_name@),
{
    if picked.len() >= 2 {
        if let Err(MicError::Ambiguous(names)) = r {
            assert(texts(names@).len() == names@.len());
            assert(names_of(picked).len() == picked.len());
            assert forall|k: int| 0 <= k < picked.len() implies (#[trigger] names@[k])@
                == picked[k].friendly_name@ by {
                assert(texts(names@)[k] == names_of(picked)[k]);
            }
        }
    }
}

/// What a command line asks for is what its fields say, each by itself.
pub proof fn law_wishes_are_what_the_fields_say(args: CliArgs)
    ensures
        args@.help == args.help,
        args@.list_devices == args.list_devices,
        args.mic matches Some(name) ==> args@.mic == Some(name@),
        args.mic is None ==> args@.mic is None,
{
}

/// The runs of characters of a list stand each in its own place, whole.
pub proof fn law_runs_keep_places(list: Seq<Vec<char>>)
    ensures
        runs(list).len() == list.len(),
        forall|i: int| 0 <= i < list.len() ==> #[trigger] runs(list)[i] == list[i]@,
{
}

} // verus!
