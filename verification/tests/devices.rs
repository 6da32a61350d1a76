use noisegate::devices::{
    direction_of_flow, enumerate_direction, Device, DeviceDirection, DeviceList, Endpoint,
    Endpoints, E_CAPTURE, E_RENDER,
};
use noisegate::error::AudioError;

fn render(name: &str) -> Device {
    Device {
        id: format!("{{0.0.0.00000000}}.{name}"),
        friendly_name: name.into(),
        direction: DeviceDirection::Render,
        is_default: false,
    }
}

fn mic(id: &str, is_default: bool) -> Device {
    Device {
        id: id.into(),
        friendly_name: format!("Mic {id}"),
        direction: DeviceDirection::Capture,
        is_default,
    }
}

#[test]
fn matches_the_real_vb_cable_endpoint() {
    assert!(render("CABLE Input (VB-Audio Virtual Cable)").is_vb_cable_input());
}

#[test]
fn ignores_lookalikes_and_capture_endpoints() {
    // Name-squatting: anything can call itself "CABLE Input".
    assert!(!render("CABLE Input (Totally Not A Recorder)").is_vb_cable_input());
    // The side other apps capture from, not the side we render into.
    assert!(!render("CABLE Output (VB-Audio Virtual Cable)").is_vb_cable_input());

    let mut capture = render("CABLE Input (VB-Audio Virtual Cable)");
    capture.direction = DeviceDirection::Capture;
    assert!(!capture.is_vb_cable_input());
}

#[test]
fn refuses_to_guess_between_two_cables() {
    let list = DeviceList {
        capture: vec![],
        render: vec![
            render("CABLE Input (VB-Audio Virtual Cable)"),
            render("CABLE Input (VB-Audio Virtual Cable) 2"),
        ],
    };
    assert!(list.find_vb_cable_input().is_err());
}

#[test]
fn reports_missing_cable() {
    let list = DeviceList {
        capture: vec![],
        render: vec![render("Speakers (Realtek Audio)")],
    };
    assert!(matches!(
        list.find_vb_cable_input(),
        Err(AudioError::VbCableMissing)
    ));
}

#[test]
fn two_cables_are_reported_as_ambiguous() {
    let list = DeviceList {
        capture: vec![],
        render: vec![
            render("CABLE Input (VB-Audio Virtual Cable)"),
            render("Speakers"),
            render("CABLE Input (VB-Audio Virtual Cable) 2"),
        ],
    };
    match list.find_vb_cable_input() {
        Err(AudioError::AmbiguousDevice(what)) => assert_eq!(
            what,
            "multiple VB-Cable input endpoints found; set output_device_id in config.toml"
        ),
        other => panic!("unexpected: {other:?}"),
    }
}

#[test]
fn the_one_cable_is_found_among_others() {
    let list = DeviceList {
        capture: vec![],
        render: vec![
            render("Speakers (Realtek Audio)"),
            render("CABLE Input (VB-Audio Virtual Cable)"),
            render("CABLE Input (Totally Not A Recorder)"),
        ],
    };
    let found = list.find_vb_cable_input().unwrap();
    assert_eq!(found.friendly_name, "CABLE Input (VB-Audio Virtual Cable)");
    assert!(found.is_vb_cable_input());
}

#[test]
fn name_test_is_case_sensitive_and_needs_both_halves() {
    assert!(!render("cable input (vb-audio)").is_vb_cable_input());
    assert!(!render("VB-Audio Point").is_vb_cable_input());
    assert!(render("VB-AudioCABLE Input").is_vb_cable_input());
    assert!(!render("").is_vb_cable_input());
}

#[test]
fn first_default_microphone_wins() {
    let list = DeviceList {
        capture: vec![mic("a", false), mic("b", true), mic("c", true)],
        render: vec![],
    };
    assert_eq!(list.default_capture().unwrap().id, "b");
    assert!(DeviceList::default().default_capture().is_none());
    let none = DeviceList { capture: vec![mic("a", false)], render: vec![] };
    assert!(none.default_capture().is_none());
}

#[test]
fn endpoints_become_devices_in_order() {
    let endpoints = Endpoints {
        default_id: "{2}".into(),
        list: vec![
            Endpoint { id: "{1}".into(), friendly_name: Some("Yeti".into()) },
            Endpoint { id: "{2}".into(), friendly_name: None },
        ],
    };
    let devices = enumerate_direction(&endpoints, E_CAPTURE);
    assert_eq!(devices.len(), 2);
    assert_eq!(devices[0].friendly_name, "Yeti");
    assert!(!devices[0].is_default);
    // A name that could not be read is replaced by the ID.
    assert_eq!(devices[1].friendly_name, "{2}");
    assert!(devices[1].is_default);
    assert_eq!(devices[1].direction, DeviceDirection::Capture);
}

#[test]
fn enumeration_fills_both_directions() {
    let one = |id: &str| Endpoints {
        default_id: String::new(),
        list: vec![Endpoint { id: id.into(), friendly_name: None }],
    };
    let list = DeviceList::enumerate(Some(Ok((one("in"), one("out"))))).unwrap();
    assert_eq!(list.capture[0].id, "in");
    assert_eq!(list.capture[0].direction, DeviceDirection::Capture);
    assert_eq!(list.render[0].id, "out");
    assert_eq!(list.render[0].direction, DeviceDirection::Render);
}

#[test]
fn enumeration_fails_without_the_interface() {
    let e = DeviceList::enumerate(None).unwrap_err();
    assert_eq!(e.message(), "device enumeration is only supported on Windows");
}

#[test]
fn enumeration_passes_the_systems_error_on() {
    let why = AudioError::wasapi("EnumAudioEndpoints", 5, "access denied");
    let e = DeviceList::enumerate(Some(Err(why))).unwrap_err();
    assert_eq!(
        e.message(),
        "WASAPI call failed: EnumAudioEndpoints: HRESULT 0x00000005: access denied"
    );
}

#[test]
fn zero_flow_is_render() {
    assert_eq!(direction_of_flow(E_RENDER), DeviceDirection::Render);
    assert_eq!(direction_of_flow(1), DeviceDirection::Capture);
    assert_eq!(direction_of_flow(2), DeviceDirection::Capture);
}

#[test]
fn error_texts() {
    assert_eq!(AudioError::DeviceNotFound("x".into()).message(), "device not found: x");
    assert_eq!(
        AudioError::VbCableMissing.message(),
        "VB-Cable input device is not installed (looked for friendly name containing 'CABLE Input')"
    );
    assert_eq!(AudioError::AmbiguousDevice("two".into()).message(), "two");
    assert_eq!(AudioError::UnsupportedFormat("y".into()).message(), "unsupported audio format: y");
    assert_eq!(
        AudioError::ThreadDied.message(),
        "audio thread panicked or exited unexpectedly"
    );
    assert_eq!(AudioError::Other("z".into()).message(), "z");
    assert_eq!(
        AudioError::wasapi("GetBuffer", 0x8889_0004, "device invalidated").message(),
        "WASAPI call failed: GetBuffer: HRESULT 0x88890004: device invalidated"
    );
    assert_eq!(
        AudioError::wasapi("Item", 0x1f, "").message(),
        "WASAPI call failed: Item: HRESULT 0x0000001F: "
    );
}
