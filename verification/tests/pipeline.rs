use noisegate::config::Config;
use noisegate::devices::{Device, DeviceDirection, DeviceList};
use noisegate::dsp::{input_shape, DspError, OnnxDenoiser};
use noisegate::format::{Frame, FRAME_SAMPLES, SAMPLE_RATE};
use noisegate::pipeline::{outgoing, resolve_devices, DspAction, DspLoop, Pipeline};
use noisegate::ring::{frame_ring, RING_FRAMES};

fn frame(n: u32) -> Frame {
    [n; 480]
}

fn device(id: &str, name: &str, direction: DeviceDirection, is_default: bool) -> Device {
    Device { id: id.into(), friendly_name: name.into(), direction, is_default }
}

fn machine() -> DeviceList {
    DeviceList {
        capture: vec![
            device("m1", "Headset", DeviceDirection::Capture, false),
            device("m2", "Yeti", DeviceDirection::Capture, true),
        ],
        render: vec![
            device("s1", "Speakers", DeviceDirection::Render, true),
            device(
                "s2",
                "CABLE Input (VB-Audio Virtual Cable)",
                DeviceDirection::Render,
                false,
            ),
        ],
    }
}

#[test]
fn unset_devices_are_detected() {
    let route = resolve_devices(&Config::default(), &machine());
    assert_eq!(route.input_id, "m2");
    assert_eq!(route.output_id, "s2");
    assert!(!route.cable_missing);
}

#[test]
fn chosen_devices_win() {
    let mut cfg = Config::default();
    cfg.input_device_id = "m1".into();
    cfg.output_device_id = "gone".into();
    let route = resolve_devices(&cfg, &machine());
    assert_eq!(route.input_id, "m1");
    assert_eq!(route.output_id, "gone");
    assert!(!route.cable_missing);
}

#[test]
fn no_cable_is_guessed() {
    let mut list = machine();
    list.render.push(device(
        "s3",
        "CABLE Input (VB-Audio Virtual Cable) 2",
        DeviceDirection::Render,
        false,
    ));
    let route = resolve_devices(&Config::default(), &list);
    assert_eq!(route.output_id, "");
    assert!(route.cable_missing);
    let route = resolve_devices(&Config::default(), &DeviceList::default());
    assert_eq!((route.input_id.as_str(), route.output_id.as_str()), ("", ""));
    assert!(route.cable_missing);
}

#[test]
fn pipeline_starts_as_the_user_left_it() {
    let mut cfg = Config::default();
    let (mut p, route) = Pipeline::start(&cfg, &machine(), "RNNoise (nnnoiseless)");
    assert!(p.is_enabled());
    assert_eq!(p.denoiser_name(), "RNNoise (nnnoiseless)");
    assert_eq!(route.output_id, "s2");
    p.set_enabled(false);
    assert!(!p.is_enabled());
    p.set_enabled(true);
    assert!(p.is_enabled());
    assert_eq!(p.attenuation_limit(), 100.0f32.to_bits());
    cfg.attenuation_db = 6.0f32.to_bits();
    let subtle = Pipeline::start(&cfg, &machine(), "x").0;
    assert_eq!(subtle.attenuation_limit(), 6.0f32.to_bits());
    cfg.enabled = false;
    assert!(!Pipeline::start(&cfg, &machine(), "x").0.is_enabled());
}

#[test]
fn a_ring_holds_eight_frames_in_order() {
    let (mut prod, mut cons) = frame_ring();
    assert!(cons.next_frame().is_none());
    for n in 0..8 {
        assert!(prod.offer(&frame(n)));
    }
    // The ninth is dropped; the ones already in stay.
    assert!(!prod.offer(&frame(8)));
    for n in 0..8 {
        assert!(cons.next_frame() == Some(frame(n)));
    }
    assert!(cons.next_frame().is_none());
    assert!(prod.offer(&frame(9)));
    assert!(cons.next_frame() == Some(frame(9)));
}

#[test]
fn the_ends_of_a_ring_can_go_to_their_threads() {
    fn is_send<T: Send>(_: &T) {}
    let (prod, cons) = frame_ring();
    is_send(&prod);
    is_send(&cons);
}

#[test]
fn frames_come_out_in_order_however_the_ends_take_turns() {
    let (mut prod, mut cons) = frame_ring();
    let (mut sent, mut got) = (0, 0);
    for round in 0..500u32 {
        for _ in 0..round % 11 {
            if prod.offer(&frame(sent)) {
                sent += 1;
            }
        }
        for _ in 0..round % 7 {
            if let Some(f) = cons.next_frame() {
                assert!(f == frame(got));
                got += 1;
            }
        }
        assert!(got <= sent && sent <= got + 8);
    }
    assert!(got > 1000);
}

#[test]
fn a_full_ring_is_eighty_milliseconds() {
    assert_eq!(RING_FRAMES * FRAME_SAMPLES * 1000 / SAMPLE_RATE as usize, 80);
}

#[test]
fn suppression_loop_sleeps_when_starved() {
    let (_prod, mut cons) = frame_ring();
    let mut dsp = DspLoop::new();
    for n in 1..=400u64 {
        match dsp.poll(&mut cons) {
            DspAction::Sleep { millis, warn } => {
                assert_eq!(millis, 2);
                assert_eq!(warn, if n == 200 || n == 400 { Some(n) } else { None });
            }
            DspAction::Process(_) => panic!("no frame was put in"),
        }
    }
}

#[test]
fn suppression_loop_passes_frames_on_in_order() {
    let (mut prod_a, mut cons_a) = frame_ring();
    let (mut prod_b, mut cons_b) = frame_ring();
    let mut dsp = DspLoop::new();
    for n in 0..3 {
        prod_a.offer(&frame(n));
    }
    for n in 0..3 {
        match dsp.poll(&mut cons_a) {
            DspAction::Process(f) => {
                assert!(f == frame(n));
                let outcome = if n == 1 { None } else { Some(frame(n + 10)) };
                let d = dsp.deliver(&f, false, &outcome, &mut prod_b);
                assert_eq!(d.passed_through, n == 1);
                assert!(!d.dropped);
            }
            DspAction::Sleep { .. } => panic!("a frame was there"),
        }
    }
    for n in [10, 1, 12] {
        assert!(cons_b.next_frame() == Some(frame(n)));
    }
}

#[test]
fn a_frame_that_finds_no_room_is_dropped() {
    let (mut prod, _cons) = frame_ring();
    let dsp = DspLoop::new();
    for n in 0..8 {
        assert!(!dsp.deliver(&frame(n), true, &None, &mut prod).dropped);
    }
    assert!(dsp.deliver(&frame(8), true, &None, &mut prod).dropped);
}

#[test]
fn bypass_leaves_frames_untouched() {
    assert!(outgoing(true, &frame(1), &Some(frame(2))) == frame(1));
    assert!(outgoing(true, &frame(1), &None) == frame(1));
    assert!(outgoing(false, &frame(1), &Some(frame(2))) == frame(2));
    assert!(outgoing(false, &frame(1), &None) == frame(1));

    let (mut prod, mut cons) = frame_ring();
    let d = DspLoop::new().deliver(&frame(1), true, &Some(frame(2)), &mut prod);
    // Nothing has failed, so nothing is reported.
    assert!(!d.passed_through && !d.dropped);
    assert!(cons.next_frame() == Some(frame(1)));
}

#[test]
fn frames_reach_render_in_order() {
    let (mut prod_a, mut cons_a) = frame_ring();
    let (mut prod_b, mut cons_b) = frame_ring();
    let mut dsp = DspLoop::new();
    let mut handed: Vec<u32> = Vec::new();
    for n in 0..600u32 {
        prod_a.offer(&frame(n));
        for _ in 0..n % 3 {
            if let DspAction::Process(f) = dsp.poll(&mut cons_a) {
                let outcome = Some(frame(f[0] + 1000));
                dsp.deliver(&f, false, &outcome, &mut prod_b);
            }
        }
        if n % 5 != 0 {
            if let Some(f) = cons_b.next_frame() {
                handed.push(f[0] - 1000);
            }
        }
    }
    assert!(handed.len() > 300);
    assert!(handed.windows(2).all(|w| w[0] < w[1]));
    assert!(handed.iter().all(|n| *n < 600));
}

#[test]
fn decision_on_what_was_polled() {
    let mut dsp = DspLoop::new();
    assert!(matches!(dsp.on_polled(Some(frame(7))), DspAction::Process(f) if f == frame(7)));
    assert!(matches!(
        dsp.on_polled(None),
        DspAction::Sleep { millis: 2, warn: None }
    ));
}

fn model() -> OnnxDenoiser {
    OnnxDenoiser::load(
        Some("dns.onnx"),
        &vec!["in".to_string(), "state".to_string()],
        &vec!["out".to_string()],
    )
    .unwrap()
}

#[test]
fn model_is_identified_by_its_first_tensors() {
    let m = model();
    assert_eq!(m.input_name, "in");
    assert_eq!(m.output_name, "out");
    assert_eq!(m.model_label, "dns.onnx");
    let unnamed = OnnxDenoiser::load(None, &vec!["i".to_string()], &vec!["o".to_string()]).unwrap();
    assert_eq!(unnamed.model_label, "onnx-model");
}

#[test]
fn a_frame_is_handed_over_in_the_declared_shape() {
    assert_eq!(input_shape(&vec![1, 480]), [1, 480]);
    assert_eq!(input_shape(&vec![1, 1, 480]), [1, 1, 480]);
    assert_eq!(input_shape(&vec![-1, -1, -1]), [1, 1, 480]);
    assert_eq!(input_shape(&vec![]), [1, 480]);
}

#[test]
fn models_without_tensors_are_refused() {
    let some = vec!["t".to_string()];
    match OnnxDenoiser::load(None, &vec![], &vec![]) {
        Err(DspError::Load(why)) => assert_eq!(why, "model has no inputs"),
        other => panic!("unexpected: {other:?}"),
    }
    match OnnxDenoiser::load(None, &some, &vec![]) {
        Err(DspError::Load(why)) => assert_eq!(why, "model has no outputs"),
        other => panic!("unexpected: {other:?}"),
    }
}

#[test]
fn only_a_whole_frame_is_accepted_as_output() {
    let m = model();
    let mut f = frame(1);
    let good: Vec<u32> = (0..480).collect();
    assert!(m.accept_output(Some(&good), &mut f).is_ok());
    assert_eq!(f.to_vec(), good);
    match m.accept_output(Some(&good[..479]), &mut f) {
        Err(DspError::Inference(why)) => {
            assert_eq!(why, "expected 480 output samples, got 479")
        }
        other => panic!("unexpected: {other:?}"),
    }
    match m.accept_output(None, &mut f) {
        Err(DspError::Inference(why)) => assert_eq!(why, "missing output 'out'"),
        other => panic!("unexpected: {other:?}"),
    }
    assert_eq!(f.to_vec(), good);
}
