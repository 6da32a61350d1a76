use noisegate::config::{Config, Session};
use noisegate::devices::{Device, DeviceDirection, DeviceList};
use noisegate::pipeline::Pipeline;
use noisegate::tray::{
    about_to_wait, auto_start_changed, build_default_icon, build_menu, initial_tooltip, mic_label,
    mic_words, restart_complaint, restarted, select_mic, toggle_enabled, tooltip, Command, Items, MenuRow,
    MicEntry, MicRow, TrayAction,
};

fn mic(id: &str, name: &str, is_default: bool) -> Device {
    Device {
        id: id.into(),
        friendly_name: name.into(),
        direction: DeviceDirection::Capture,
        is_default,
    }
}

fn mics() -> DeviceList {
    DeviceList {
        capture: vec![mic("a", "Yeti", true), mic("b", "Headset", false)],
        render: vec![],
    }
}

fn items() -> Items {
    Items {
        enable: "1000".into(),
        mics: vec![
            MicEntry { item: "1001".into(), device_id: "".into() },
            MicEntry { item: "1002".into(), device_id: "a".into() },
            MicEntry { item: "1003".into(), device_id: "b".into() },
        ],
        auto_start: "1004".into(),
        open_logs: "1005".into(),
        quit: "1006".into(),
    }
}

fn checks(cfg: &Config) -> Vec<(String, bool, String)> {
    let mut out = Vec::new();
    for row in build_menu(cfg, Some(&mics()), false).mics {
        if let MicRow::Choice { label, checked, device_id } = row {
            out.push((label, checked, device_id));
        }
    }
    out
}

#[test]
fn system_default_mic_is_marked_in_the_label() {
    assert_eq!(mic_label("Yeti", false), "Yeti");
    assert!(mic_label("Yeti", true).starts_with("Yeti"));
    assert!(mic_label("Yeti", true).contains("system default"));
}

#[test]
fn label_of_the_system_default_in_full() {
    assert_eq!(mic_label("Yeti", true), "Yeti  (system default)");
    assert_eq!(mic_label("", false), "");
}

#[test]
fn main_menu_rows() {
    let mut cfg = Config::default();
    cfg.enabled = false;
    let menu = build_menu(&cfg, Some(&mics()), true);
    assert_eq!(menu.rows.len(), 8);
    assert!(matches!(
        menu.rows[0],
        MenuRow::Check { command: Command::Enable, label: "Enabled", checked: false }
    ));
    assert!(matches!(menu.rows[1], MenuRow::Separator));
    assert!(matches!(menu.rows[2], MenuRow::Microphones { label: "Microphone" }));
    assert!(matches!(menu.rows[3], MenuRow::Separator));
    assert!(matches!(
        menu.rows[4],
        MenuRow::Check { command: Command::AutoStart, label: "Start with Windows", checked: true }
    ));
    assert!(matches!(
        menu.rows[5],
        MenuRow::Item { command: Command::OpenLogs, label: "Open log folder" }
    ));
    assert!(matches!(menu.rows[6], MenuRow::Separator));
    assert!(matches!(
        menu.rows[7],
        MenuRow::Item { command: Command::Quit, label: "Quit NoiseGate" }
    ));
}

#[test]
fn picker_follows_the_default_when_nothing_is_chosen() {
    let picked = checks(&Config::default());
    assert_eq!(picked[0], ("Windows default".to_string(), true, String::new()));
    assert_eq!(
        picked[1],
        ("Yeti  (system default)".to_string(), false, "a".to_string())
    );
    assert_eq!(picked[2], ("Headset".to_string(), false, "b".to_string()));
}

#[test]
fn picker_without_devices() {
    let empty = build_menu(&Config::default(), Some(&DeviceList::default()), false);
    assert_eq!(empty.mics.len(), 1);
    let unknown = build_menu(&Config::default(), None, false);
    assert_eq!(unknown.mics.len(), 2);
    assert!(matches!(
        unknown.mics[1],
        MicRow::Note { text: "(no microphones found)" }
    ));
    let listed = build_menu(&Config::default(), Some(&mics()), false);
    assert!(matches!(listed.mics[1], MicRow::Separator));
}

#[test]
fn exactly_one_microphone_is_checked() {
    let items = items();
    let mut s = Session { saved: Config::default(), mic: Some("a".into()) };
    assert_eq!(s.running().input_device_id, "a");
    assert_eq!(select_mic(&mut s, &items, "b"), vec![false, false, true]);
    assert_eq!(s.saved.input_device_id, "b");
    assert_eq!(s.running().input_device_id, "b");
    assert_eq!(select_mic(&mut s, &items, ""), vec![true, false, false]);
    assert_eq!(s.running().input_device_id, "");
    assert!(s.saved.enabled && !s.saved.auto_start);
}

#[test]
fn a_rebuilt_picker_shows_the_choice() {
    let items = items();
    for id in ["", "a", "b"] {
        let mut session = Session { saved: Config::default(), mic: None };
        let marks = select_mic(&mut session, &items, id);
        let rebuilt: Vec<bool> = checks(&session.running()).into_iter().map(|c| c.1).collect();
        assert_eq!(marks, rebuilt);
    }
}

#[test]
fn clicks_are_told_apart() {
    let items = items();
    assert!(matches!(
        items.user_event("1000", true, false),
        TrayAction::SetEnabled(true)
    ));
    assert!(matches!(
        items.user_event("1004", true, false),
        TrayAction::SetAutoStart(false)
    ));
    assert!(matches!(items.user_event("1005", true, true), TrayAction::OpenLogs));
    assert!(matches!(items.user_event("1006", true, true), TrayAction::Quit));
    assert!(matches!(
        items.user_event("1003", true, true),
        TrayAction::SelectMic(id) if id == "b"
    ));
    assert!(matches!(
        items.user_event("1001", true, true),
        TrayAction::SelectMic(id) if id.is_empty()
    ));
    assert!(matches!(items.user_event("9", true, true), TrayAction::Nothing));
    assert_eq!(items.mic_by_id("1002").unwrap().device_id, "a");
    assert!(items.mic_by_id("1000").is_none());
}

#[test]
fn toggling_reaches_pipeline_and_settings() {
    let mut cfg = Config::default();
    let (p, _) = Pipeline::start(&cfg, &mics(), "model");
    let mut pipeline = Some(p);
    toggle_enabled(&mut cfg, &mut pipeline, false);
    assert!(!cfg.enabled);
    assert!(!pipeline.as_ref().unwrap().is_enabled());
    assert_eq!(pipeline.as_ref().unwrap().denoiser_name(), "model");
    let mut none = None;
    toggle_enabled(&mut cfg, &mut none, true);
    assert!(cfg.enabled && none.is_none());
}

#[test]
fn the_start_box_reflects_the_registry() {
    let mut cfg = Config::default();
    let ok = auto_start_changed(&mut cfg, true, &Ok(()));
    assert!(ok.checked && ok.save && ok.complaint.is_none());
    assert!(cfg.auto_start);
    let failed = auto_start_changed(&mut cfg, false, &Err("denied".into()));
    assert!(failed.checked && !failed.save);
    assert_eq!(
        failed.complaint.unwrap(),
        "Could not change start-with-Windows:\n\ndenied"
    );
    assert!(cfg.auto_start);
}

#[test]
fn a_failed_restart_is_told() {
    assert!(restart_complaint(&Ok(())).is_none());
    assert_eq!(
        restart_complaint(&Err("busy".into())).unwrap(),
        "Could not start audio with that device:\n\nbusy"
    );
}

#[test]
fn a_restart_leaves_the_new_pipeline_or_none() {
    let (p, _) = Pipeline::start(&Config::default(), &mics(), "M");
    let (running, complaint) = restarted(Ok(p));
    assert_eq!(running.unwrap().denoiser_name(), "M");
    assert!(complaint.is_none());
    let (running, complaint) = restarted(Err("busy".into()));
    assert!(running.is_none());
    assert_eq!(
        complaint.unwrap(),
        "Could not start audio with that device:\n\nbusy"
    );
}

#[test]
fn tooltips() {
    assert_eq!(initial_tooltip(Some("M")), "NoiseGate (M) \u{2014} starting");
    assert_eq!(initial_tooltip(None), "NoiseGate \u{2014} stopped");
    let (mut p, _) = Pipeline::start(&Config::default(), &mics(), "M");
    assert_eq!(
        tooltip(&p, "1.5", "0.2"),
        "NoiseGate (M)\nON  |  CPU: 1.5%  peak: 0.2ms"
    );
    p.set_enabled(false);
    assert_eq!(
        tooltip(&p, "0.0", "0.0"),
        "NoiseGate (M)\nBYPASS  |  CPU: 0.0%  peak: 0.0ms"
    );
    assert!(about_to_wait(999, None).is_none());
    assert_eq!(
        about_to_wait(1000, None).unwrap(),
        "NoiseGate \u{2014} stopped (pick a microphone)"
    );
    assert_eq!(
        about_to_wait(1500, Some((&p, "2.0", "3.0"))).unwrap(),
        "NoiseGate (M)\nBYPASS  |  CPU: 2.0%  peak: 3.0ms"
    );
}

#[test]
fn microphones_in_the_log() {
    assert_eq!(mic_words(""), "Windows default");
    assert_eq!(mic_words("a"), "a");
}

#[test]
fn the_icon_is_a_disc() {
    let rgba = build_default_icon();
    assert_eq!(rgba.len(), 16 * 16 * 4);
    for y in 0..16i32 {
        for x in 0..16i32 {
            let i = ((y * 16 + x) * 4) as usize;
            let expected: [u8; 4] = if (x - 8).pow(2) + (y - 8).pow(2) <= 49 {
                [0x2a, 0xa1, 0x98, 0xff]
            } else {
                [0, 0, 0, 0]
            };
            assert_eq!(rgba[i..i + 4], expected);
        }
    }
}
