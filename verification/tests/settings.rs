use noisegate::autostart::{command_string, is_enabled, open_run_key, run_value, AutostartError};
use noisegate::config::{default_atten, default_true, Config};
use noisegate::instance::acquire;
use noisegate::paths::{
    base_dir, config_path, config_path_in, explorer_path, log_dir, log_dir_in, log_file,
    pin_dylib_path, Location, Root,
};
use noisegate::utf16::{bytes_of, wide};
use std::path::PathBuf;

fn parts(at: &Location) -> (Option<PathBuf>, Vec<&str>) {
    let root = match &at.root {
        Root::Dir(dir) => dir.clone(),
        Root::Fixed(text) => PathBuf::from(text),
    };
    (Some(root), at.names.iter().map(|n| n.as_str()).collect())
}

#[test]
fn command_is_quoted_for_paths_with_spaces() {
    let cmd = command_string(r"C:\Program Files\NoiseGate\noisegate.exe");
    assert_eq!(cmd, "\"C:\\Program Files\\NoiseGate\\noisegate.exe\"");
    assert!(cmd.starts_with('"') && cmd.ends_with('"'));
}

#[test]
fn run_value_is_zero_terminated_utf16() {
    assert_eq!(run_value("a"), vec![34, 0, 97, 0, 34, 0, 0, 0]);
    let expected: Vec<u8> = "\"C:\\\u{e9}\u{1F3A4}\""
        .encode_utf16()
        .chain(std::iter::once(0))
        .flat_map(|u| u.to_le_bytes())
        .collect();
    assert_eq!(run_value("C:\\\u{e9}\u{1F3A4}"), expected);
}

#[test]
fn wide_strings_agree_with_std() {
    for text in ["", "plain", "\u{d7ff}\u{e000}\u{ffff}", "\u{10000}\u{10ffff}x"] {
        let expected: Vec<u16> = text.encode_utf16().chain(std::iter::once(0)).collect();
        let units = wide(text);
        assert_eq!(units, expected);
        assert_eq!(String::from_utf16(&units[..units.len() - 1]).unwrap(), text);
    }
    assert!(!wide("no zero inside \u{1F3A4}")[..16].contains(&0));
    assert_eq!(bytes_of(&vec![0x1234, 0xff00]), vec![0x34, 0x12, 0x00, 0xff]);
}

#[test]
fn start_at_login_is_on_when_the_value_exists() {
    assert!(is_enabled(Some(0)));
    assert!(!is_enabled(Some(2)));
    assert!(!is_enabled(None));
}

/// The one value that start-at-login keeps, as the registry would.
struct RunKey {
    value: Option<Vec<u8>>,
}

impl RunKey {
    fn is_enabled(&self) -> bool {
        is_enabled(Some(if self.value.is_some() { 0 } else { 2 }))
    }

    fn set(&mut self, enabled: bool) -> Result<(), AutostartError> {
        let status = if enabled {
            self.value = Some(run_value(r"C:\NoiseGate\noisegate.exe"));
            0
        } else if self.value.take().is_some() {
            0
        } else {
            2
        };
        noisegate::autostart::set(enabled, status, self.is_enabled())
    }
}

#[test]
fn enabling_and_disabling_round_trips() {
    let mut key = RunKey { value: None };
    let original = key.is_enabled();

    key.set(true).expect("enable");
    assert!(key.is_enabled(), "should be registered after set(true)");

    key.set(false).expect("disable");
    assert!(!key.is_enabled(), "should be gone after set(false)");

    // Disabling twice must not error.
    key.set(false).expect("disable again");

    if original {
        key.set(true).expect("restore");
    }
    // A stale path still counts.
    key.value = Some(vec![]);
    assert!(key.is_enabled());
}

#[test]
fn disabling_twice_is_no_error() {
    assert!(noisegate::autostart::set(false, 0, false).is_ok());
    // The value is gone already, so the delete fails.
    assert!(noisegate::autostart::set(false, 2, false).is_ok());
}

#[test]
fn failed_registry_writes_are_reported() {
    let e = noisegate::autostart::set(true, 5, false).unwrap_err();
    assert_eq!(e, AutostartError::WriteFailed(5));
    assert_eq!(e.message(), "writing the Run key failed: error 5");
    assert_eq!(
        noisegate::autostart::set(false, 5, true),
        Err(AutostartError::WriteFailed(5))
    );
    assert!(noisegate::autostart::set(true, 0, true).is_ok());
    assert!(open_run_key(0).is_ok());
    assert_eq!(
        open_run_key(1010).unwrap_err().message(),
        "opening the Run key failed: error 1010"
    );
}

#[test]
fn default_settings() {
    let c = Config::default();
    assert_eq!(c.input_device_id, "");
    assert_eq!(c.output_device_id, "");
    assert!(c.enabled && default_true());
    assert_eq!(f32::from_bits(c.attenuation_db), 100.0);
    assert_eq!(default_atten(), 100.0f32.to_bits());
    assert!(!c.auto_start);
}

#[test]
fn a_missing_settings_file_means_a_first_run() {
    let loaded = Config::load(None).unwrap();
    assert!(loaded.first_run);
    assert!(loaded.config.enabled);
    assert!(Config::load_or_default(None).first_run);
}

#[test]
fn settings_come_from_the_file() {
    let mut c = Config::default();
    c.enabled = false;
    c.input_device_id = "m1".into();
    let loaded = Config::load_or_default(Some(Ok(c)));
    assert!(!loaded.first_run);
    assert!(!loaded.config.enabled);
    assert_eq!(loaded.config.input_device_id, "m1");
}

#[test]
fn a_broken_settings_file_means_defaults() {
    assert_eq!(Config::load(Some(Err("bad".into()))).unwrap_err(), "bad");
    let loaded = Config::load_or_default(Some(Err("bad".into())));
    assert!(!loaded.first_run);
    assert!(loaded.config.enabled);
    assert_eq!(loaded.config.input_device_id, "");
}

#[test]
fn files_stand_below_the_settings_directory() {
    let dir = PathBuf::from("/home/u/.config");
    assert_eq!(
        parts(&config_path_in(Some(dir.clone()))),
        (Some(dir.clone()), vec!["NoiseGate", "config.toml"])
    );
    assert_eq!(
        parts(&log_dir_in(Some(dir.clone()))),
        (Some(dir.clone()), vec!["NoiseGate", "logs"])
    );
    assert_eq!(
        parts(&base_dir(None)),
        (Some(PathBuf::from(".")), vec!["NoiseGate"])
    );
}

#[test]
fn current_user_paths_start_where_the_system_says() {
    let expected = Some(dirs::config_dir().unwrap_or_else(|| PathBuf::from(".")));
    assert_eq!(
        parts(&config_path()),
        (expected.clone(), vec!["NoiseGate", "config.toml"])
    );
    assert_eq!(parts(&log_dir()), (expected.clone(), vec!["NoiseGate", "logs"]));
    assert_eq!(
        parts(&log_file()),
        (expected, vec!["NoiseGate", "logs", "noisegate.log"])
    );
}

#[test]
fn explorer_is_named_below_the_system_directory() {
    assert_eq!(
        parts(&explorer_path(None, false)),
        (Some(PathBuf::from(r"C:\Windows")), vec!["explorer.exe"])
    );
    let root = PathBuf::from(r"D:\Windows");
    assert_eq!(
        parts(&explorer_path(Some(root.clone()), true)),
        (Some(root), vec!["explorer.exe"])
    );
}

fn explorer_below(system_root: &str) -> Location {
    let root = PathBuf::from(system_root);
    let absolute = root.is_absolute();
    explorer_path(Some(root), absolute)
}

#[test]
fn explorer_is_resolved_absolutely_and_exists() {
    let here = [r"D:\Windows", "/windows"].into_iter().find(|r| PathBuf::from(r).is_absolute());
    let at = explorer_below(here.unwrap());
    let (root, names) = parts(&at);
    let mut p = root.unwrap();
    p.extend(names);
    assert!(p.is_absolute(), "must not be resolved through PATH");
    assert_eq!(p.file_name().unwrap(), "explorer.exe");

    // A system directory that is relative or empty would leave the search to PATH.
    for root in ["Windows", "", "."] {
        let at = explorer_below(root);
        assert!(matches!(at.root, Root::Fixed(r"C:\Windows")));
        assert_eq!(at.names, ["explorer.exe"]);
    }
}

#[test]
fn inference_library_is_pinned_beside_the_program() {
    let dir = PathBuf::from("/opt/noisegate");
    assert!(pin_dylib_path(true, Some(dir.clone())).is_none());
    assert!(pin_dylib_path(false, None).is_none());
    let at = pin_dylib_path(false, Some(dir.clone())).unwrap();
    assert_eq!(parts(&at), (Some(dir), vec!["onnxruntime.dll"]));
}

#[test]
fn one_instance_at_a_time() {
    assert!(acquire(Ok(0)).is_ok());
    assert_eq!(acquire(Ok(183)).unwrap_err(), "already running");
    assert_eq!(
        acquire(Err("denied".into())).unwrap_err(),
        "CreateMutexW: denied"
    );
}
