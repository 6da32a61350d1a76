use noisegate::cli::{
    list_devices, log_input_devices, match_folded, mic_complaint, override_mic, parse_args,
    resolve_mic_by_substring, CliArgs, MicError, Mode,
};
use noisegate::config::Config;
use noisegate::devices::{Device, DeviceDirection, DeviceList};
use noisegate::error::AudioError;
use noisegate::text::{
    contains, decimal_text, folded, hex8_text, join, same_text, starts_with,
};

fn parse(args: &[&str]) -> CliArgs {
    parse_args(&args.iter().map(|a| a.to_string()).collect::<Vec<String>>())
}

fn mic(id: &str, name: &str, is_default: bool) -> Device {
    Device {
        id: id.into(),
        friendly_name: name.into(),
        direction: DeviceDirection::Capture,
        is_default,
    }
}

fn mics() -> DeviceList {
    DeviceList {
        capture: vec![
            mic("1", "Blue Yeti", true),
            mic("2", "Headset (Bluetooth)", false),
            mic("3", "YETI Nano", false),
        ],
        render: vec![Device {
            id: "9".into(),
            friendly_name: "CABLE Input (VB-Audio Virtual Cable)".into(),
            direction: DeviceDirection::Render,
            is_default: false,
        }],
    }
}

#[test]
fn options_are_read() {
    let none = parse(&[]);
    assert!(!none.help && !none.list_devices && none.mic.is_none());
    assert!(parse(&["-h"]).help);
    assert!(parse(&["--help"]).help);
    assert!(parse(&["--list-devices"]).list_devices);
    let both = parse(&["--list-devices", "-h"]);
    assert!(both.help && both.list_devices);
}

#[test]
fn both_forms_of_mic_agree() {
    assert_eq!(parse(&["--mic", "yeti"]).mic.as_deref(), Some("yeti"));
    assert_eq!(parse(&["--mic=yeti"]).mic.as_deref(), Some("yeti"));
    assert_eq!(parse(&["--mic="]).mic.as_deref(), Some(""));
    assert_eq!(parse(&["--mic=\u{e9}="]).mic.as_deref(), Some("\u{e9}="));
}

#[test]
fn mic_takes_the_next_argument_whatever_it_is() {
    let r = parse(&["--mic", "--help"]);
    assert_eq!(r.mic.as_deref(), Some("--help"));
    assert!(!r.help);
    assert_eq!(parse(&["--mic=a", "--mic", "b"]).mic.as_deref(), Some("b"));
    assert!(parse(&["--mic=a", "--mic"]).mic.is_none());
}

#[test]
fn unknown_arguments_are_ignored() {
    let r = parse(&["x", "--miC", "-H", "--mi", ""]);
    assert!(!r.help && !r.list_devices && r.mic.is_none());
}

#[test]
fn device_listing() {
    assert_eq!(
        list_devices(&mics()),
        "Capture (input) devices:\n\
         \x20 - Blue Yeti [default]\n    id: 1\n\
         \x20 - Headset (Bluetooth)\n    id: 2\n\
         \x20 - YETI Nano\n    id: 3\n\
         \nRender (output) devices:\n\
         \x20 - CABLE Input (VB-Audio Virtual Cable)  [VB-Cable]\n    id: 9\n"
    );
    assert_eq!(
        list_devices(&DeviceList::default()),
        "Capture (input) devices:\n\nRender (output) devices:\n"
    );
}

#[test]
fn start_up_notes() {
    let notes = log_input_devices(&mics());
    assert_eq!(notes.len(), 3);
    assert_eq!(notes[0].message, "input device available (default)");
    assert_eq!(notes[1].message, "input device available");
    assert_eq!((notes[2].name.as_str(), notes[2].id.as_str()), ("YETI Nano", "3"));
}

#[test]
fn one_match_is_resolved() {
    assert_eq!(resolve_mic_by_substring(&Ok(mics()), "bluetooth").unwrap(), "2");
    assert_eq!(resolve_mic_by_substring(&Ok(mics()), "NANO").unwrap(), "3");
}

#[test]
fn letter_case_makes_no_difference() {
    let list = Ok(mics());
    for needle in ["blue y", "BLUE Y", "bLuE y"] {
        assert_eq!(resolve_mic_by_substring(&list, needle).unwrap(), "1");
    }
}

#[test]
fn letters_beyond_ascii_match_in_either_case() {
    let list = Ok(DeviceList {
        capture: vec![mic("m1", "MICRO \u{c9}CRAN", false), mic("m2", "M\u{ef}cro", false)],
        render: vec![],
    });
    assert_eq!(resolve_mic_by_substring(&list, "\u{e9}cran").unwrap(), "m1");
    assert_eq!(resolve_mic_by_substring(&list, "\u{c9}CRAN").unwrap(), "m1");
    assert_eq!(resolve_mic_by_substring(&list, "M\u{cf}C").unwrap(), "m2");
    // An accent is more than a matter of case.
    assert!(matches!(
        resolve_mic_by_substring(&list, "ecran"),
        Err(MicError::NoMatch)
    ));
}

#[test]
fn a_letter_folds_alike_wherever_it_stands() {
    let list = Ok(DeviceList {
        capture: vec![
            mic("m1", "\u{3a3}\u{3a5}\u{3a3}\u{39a}\u{395}\u{3a5}\u{397}", false),
            mic("m2", "\u{397}\u{3a7}\u{39f}\u{3a3}", false),
        ],
        render: vec![],
    });
    // The needle ends in a capital sigma that stands inside a word in the name.
    assert_eq!(
        resolve_mic_by_substring(&list, "\u{3a3}\u{3a5}\u{3a3}").unwrap(),
        "m1"
    );
    // Both small sigmas have the one capital.
    assert_eq!(
        resolve_mic_by_substring(&list, "\u{3c3}\u{3c5}\u{3c2}").unwrap(),
        "m1"
    );
    assert_eq!(
        resolve_mic_by_substring(&list, "\u{3c7}\u{3bf}\u{3c2}").unwrap(),
        "m2"
    );
}

#[test]
fn the_case_of_names_makes_no_difference() {
    for name in ["Blue Yeti", "BLUE YETI", "blue yeti"] {
        let list = Ok(DeviceList { capture: vec![mic("1", name, true)], render: vec![] });
        for needle in ["E y", "e Y"] {
            assert_eq!(resolve_mic_by_substring(&list, needle).unwrap(), "1");
        }
    }
}

#[test]
fn folding_a_text() {
    let folded_text = |s: &str| folded(s).into_iter().collect::<String>();
    assert_eq!(folded_text("AbZ @[`{09"), "abz @[`{09");
    assert_eq!(folded_text("\u{c9}\u{e9}"), "\u{e9}\u{e9}");
    assert_eq!(folded_text("\u{3a3}\u{3c3}\u{3c2}"), "\u{3c3}\u{3c3}\u{3c3}");
    // A capital of several letters is no reason to change the letter.
    assert_eq!(folded_text("stra\u{df}e"), "stra\u{df}e");
    assert_eq!(folded_text(""), "");
}

#[test]
fn folded_names_are_matched_as_they_stand() {
    let list = mics();
    let run = |s: &str| s.chars().collect::<Vec<char>>();
    let names = vec![run("one"), run("two"), run("one two")];
    assert_eq!(match_folded(&list, &names, &run("one t")).unwrap(), "3");
    assert!(matches!(match_folded(&list, &names, &run("ONE")), Err(MicError::NoMatch)));
    assert!(matches!(
        match_folded(&list, &names, &run("two")),
        Err(MicError::Ambiguous(names)) if names == ["Headset (Bluetooth)", "YETI Nano"]
    ));
}

#[test]
fn no_match_and_several_matches_are_errors() {
    let list = Ok(mics());
    let none = resolve_mic_by_substring(&list, "rode").unwrap_err();
    assert!(matches!(none, MicError::NoMatch));
    assert_eq!(
        mic_complaint("rode", &none),
        "--mic 'rode' did not match any input device: no capture device matched"
    );
    let many = resolve_mic_by_substring(&list, "yeti").unwrap_err();
    assert_eq!(
        many.message(),
        "ambiguous: 2 devices matched (Blue Yeti, YETI Nano). Refine the substring."
    );
    // The empty text is in every name.
    assert!(matches!(
        resolve_mic_by_substring(&list, ""),
        Err(MicError::Ambiguous(names)) if names.len() == 3
    ));
}

#[test]
fn unlisted_devices_are_an_error() {
    let listed = Err(AudioError::ThreadDied);
    let why = resolve_mic_by_substring(&listed, "yeti").unwrap_err();
    assert_eq!(why.message(), "audio thread panicked or exited unexpectedly");
}

#[test]
fn help_comes_first() {
    assert_eq!(parse(&["--list-devices", "-h"]).mode(), Mode::Help);
    assert_eq!(parse(&["--list-devices"]).mode(), Mode::ListDevices);
    assert_eq!(parse(&["--mic", "x"]).mode(), Mode::Run);
}

#[test]
fn a_microphone_from_the_command_line_is_not_saved() {
    let mut saved = Config::default();
    saved.input_device_id = "on file".into();
    let session = override_mic(saved, "nano", &Ok(mics())).unwrap();
    assert_eq!(session.running().input_device_id, "3");
    assert_eq!(session.saved.input_device_id, "on file");
    assert_eq!(
        override_mic(Config::default(), "rode", &Ok(mics())).unwrap_err(),
        "--mic 'rode' did not match any input device: no capture device matched"
    );
}

#[test]
fn text_search() {
    assert!(contains("abcabd", "abd"));
    assert!(contains("abc", ""));
    assert!(contains("", ""));
    assert!(!contains("", "a"));
    assert!(!contains("ab", "abc"));
    assert!(starts_with("--mic=x", "--mic="));
    assert!(!starts_with("--mic", "--mic="));
    assert!(same_text("a\u{e9}", "a\u{e9}"));
    assert!(!same_text("a", "b"));
    assert!(!same_text("a", "ab"));
}

#[test]
fn numbers_in_text() {
    assert_eq!(decimal_text(0), "0");
    assert_eq!(decimal_text(1090), "1090");
    assert_eq!(decimal_text(u64::MAX), u64::MAX.to_string());
    assert_eq!(hex8_text(0), "00000000");
    assert_eq!(hex8_text(0x8889_abcd), "8889ABCD");
    assert_eq!(hex8_text(u32::MAX), "FFFFFFFF");
    let words = vec!["a".to_string(), "b".to_string(), "c".to_string()];
    assert_eq!(join(&words, ", "), "a, b, c");
    assert_eq!(join(&vec![], ", "), "");
}
