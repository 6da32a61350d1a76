use noisegate::capture::{
    find_device, plan_capture, startup_result, BufferLook, CaptureAction, CaptureEvent,
    CaptureLoop, CaptureStream, DeviceQuery, FailedCall, FrameAccumulator,
    AUDCLNT_S_BUFFER_EMPTY,
};
use noisegate::convert::{Arithmetic, InlineConverter};
use noisegate::error::AudioError;
use noisegate::format::{
    format_matches, mono_float_format, StreamFormat, WaveFormat, FRAME_SAMPLES, SAMPLE_RATE,
    WAVE_FORMAT_EXTENSIBLE, WAVE_FORMAT_IEEE_FLOAT,
};

fn mean(group: &[u32]) -> u32 {
    let mut acc = 0.0f32;
    for s in group {
        acc += f32::from_bits(*s);
    }
    (acc / group.len() as f32).to_bits()
}

fn place(phase: u64) -> (usize, u64) {
    let x = f64::from_bits(phase);
    let idx = x as usize;
    (idx, (x - idx as f64).to_bits())
}

fn advance(phase: u64, src_rate: u32, dst_rate: u32) -> u64 {
    (f64::from_bits(phase) + src_rate as f64 / dst_rate as f64).to_bits()
}

fn rewind(phase: u64, frames: usize) -> u64 {
    (f64::from_bits(phase) - frames as f64).to_bits()
}

fn lerp(a: u32, b: u32, frac: u64) -> u32 {
    let (a, b) = (f32::from_bits(a) as f64, f32::from_bits(b) as f64);
    ((a + (b - a) * f64::from_bits(frac)) as f32).to_bits()
}

type Floats = Arithmetic<
    fn(&[u32]) -> u32,
    fn(u64) -> (usize, u64),
    fn(u64, u32, u32) -> u64,
    fn(u64, usize) -> u64,
    fn(u32, u32, u64) -> u32,
>;

fn floats() -> Floats {
    Arithmetic { mix: mean, place, advance, rewind, lerp }
}

fn bits(samples: &[f32]) -> Vec<u32> {
    samples.iter().map(|s| s.to_bits()).collect()
}

fn stereo_44k() -> WaveFormat {
    WaveFormat {
        format_tag: WAVE_FORMAT_EXTENSIBLE,
        channels: 2,
        samples_per_sec: 44_100,
        avg_bytes_per_sec: 352_800,
        block_align: 8,
        bits_per_sample: 32,
        extra_size: 22,
    }
}

#[test]
fn frames_come_out_at_480_samples() {
    let mut acc = FrameAccumulator::new();
    let first: Vec<u32> = (0..479).collect();
    assert!(acc.feed(&first).is_empty());
    let frames = acc.feed(&[479]);
    assert_eq!(frames.len(), 1);
    let expected: Vec<u32> = (0..480).collect();
    assert_eq!(frames[0].to_vec(), expected);
    assert!(acc.feed(&[]).is_empty());
}

#[test]
fn feeding_in_pieces_is_feeding_at_once() {
    let stream: Vec<u32> = (0..2000).collect();
    let mut whole = FrameAccumulator::new();
    let at_once = whole.feed(&stream);
    let mut pieces = FrameAccumulator::new();
    let mut in_pieces = Vec::new();
    for chunk in stream.chunks(77) {
        in_pieces.extend(pieces.feed(chunk));
    }
    assert_eq!(at_once.len(), 4);
    assert!(at_once == in_pieces);
}

#[test]
fn no_sample_is_lost() {
    let stream: Vec<u32> = (0..1500).collect();
    let mut acc = FrameAccumulator::new();
    let mut out: Vec<u32> = Vec::new();
    for frame in acc.feed(&stream) {
        out.extend(frame);
    }
    for frame in acc.feed(&(1500..1920).collect::<Vec<u32>>()) {
        out.extend(frame);
    }
    assert_eq!(out, (0..1920).collect::<Vec<u32>>());
}

#[test]
fn stereo_is_averaged() {
    let c = InlineConverter::new(48_000, 2, 48_000);
    let mono = c.downmix(&bits(&[1.0, 3.0, -2.0, 2.0, 9.0]), 2, &mean);
    assert_eq!(mono, bits(&[2.0, 0.0]));
}

#[test]
fn mono_at_the_same_rate_passes_through() {
    let mut c = InlineConverter::new(48_000, 1, 48_000);
    let block = bits(&[0.5, -0.5, 0.25]);
    let out = c.process(&block, 3, &floats());
    assert_eq!(out, block);
    // Only the stated number of time steps is read.
    assert_eq!(c.process(&block, 2, &floats()), bits(&[0.5, -0.5]));
}

#[test]
fn resampling_starts_from_silence() {
    let mut c = InlineConverter::new(24_000, 1, 48_000);
    let out = c.process(&bits(&[1.0, 2.0]), 2, &floats());
    assert_eq!(out, bits(&[0.0, 0.5, 1.0, 1.5]));
}

#[test]
fn faster_devices_are_thinned_out() {
    let mut c = InlineConverter::new(96_000, 1, 48_000);
    let out = c.process(&bits(&[1.0, 2.0, 3.0, 4.0, 5.0]), 5, &floats());
    assert_eq!(out, bits(&[0.0, 2.0, 4.0]));
    // The next output falls one sample into the next block.
    let out = c.process(&bits(&[6.0, 7.0, 8.0]), 3, &floats());
    assert_eq!(out, bits(&[6.0]));
}

#[test]
fn block_boundaries_leave_no_mark() {
    let mut one = InlineConverter::new(24_000, 1, 48_000);
    let all = one.process(&bits(&[1.0, 2.0, 4.0, 8.0]), 4, &floats());
    assert_eq!(all, bits(&[0.0, 0.5, 1.0, 1.5, 2.0, 3.0, 4.0, 6.0]));
    let mut two = InlineConverter::new(24_000, 1, 48_000);
    let mut halves = two.process(&bits(&[1.0, 2.0]), 2, &floats());
    halves.extend(two.process(&bits(&[4.0, 8.0]), 2, &floats()));
    assert_eq!(all, halves);
}

#[test]
fn an_empty_block_keeps_the_last_sample() {
    let mut c = InlineConverter::new(24_000, 1, 48_000);
    c.process(&bits(&[5.0]), 1, &floats());
    assert!(c.process(&[], 0, &floats()).is_empty());
    assert_eq!(c.process(&bits(&[9.0]), 1, &floats()), bits(&[5.0, 7.0]));
}

#[test]
fn the_cut_into_blocks_makes_no_difference() {
    // Rates whose ratio is a short binary fraction, so that the arithmetic is exact.
    for rate in [12_000u32, 24_000, 48_000, 72_000, 96_000] {
        let stream: Vec<f32> = (0..600).map(|i| ((i * 37) % 64) as f32 / 64.0).collect();
        let mut whole = InlineConverter::new(rate, 2, 48_000);
        let at_once = whole.process(&bits(&stream), 300, &floats());
        assert_eq!(at_once.len() as u64, (300 * 48_000u64).div_ceil(rate as u64));
        for cut in [2usize, 14, 66] {
            let mut c = InlineConverter::new(rate, 2, 48_000);
            let mut in_pieces = Vec::new();
            for block in stream.chunks(cut) {
                in_pieces.extend(c.process(&bits(block), block.len() / 2, &floats()));
                assert!(c.process(&[], 0, &floats()).is_empty());
            }
            assert_eq!(in_pieces, at_once);
        }
    }
}

/// The samples that a plain floating-point loop gives.
fn reference(src_rate: u32, channels: usize, blocks: &[Vec<f32>]) -> Vec<u32> {
    let (mut last, mut phase, mut out) = (0.0f32, 0.0f64, Vec::new());
    let ratio = src_rate as f64 / 48_000f64;
    for block in blocks {
        let mono: Vec<f32> = block
            .chunks(channels)
            .map(|g| g.iter().fold(0.0f32, |acc, s| acc + s) / channels as f32)
            .collect();
        while phase < mono.len() as f64 {
            let idx = phase as usize;
            let frac = phase - idx as f64;
            let a = if idx == 0 { last } else { mono[idx - 1] };
            let b = mono.get(idx).copied().unwrap_or(last);
            out.push(((a as f64 + (b as f64 - a as f64) * frac) as f32).to_bits());
            phase += ratio;
        }
        phase -= mono.len() as f64;
        last = *mono.last().unwrap_or(&last);
    }
    out
}

#[test]
fn resampling_agrees_with_a_plain_loop() {
    for rate in [8_000u32, 16_000, 44_100, 88_200, 96_000, 192_000] {
        let blocks: Vec<Vec<f32>> = (0..7usize)
            .map(|b| (0..2 * (100 + 37 * b)).map(|i| ((i * 7 + b * 13) % 101) as f32 / 101.0).collect())
            .collect();
        let mut c = InlineConverter::new(rate, 2, 48_000);
        let mut out = Vec::new();
        for block in &blocks {
            out.extend(c.process(&bits(block), block.len() / 2, &floats()));
        }
        assert_eq!(out, reference(rate, 2, &blocks));
    }
}

#[test]
fn pipeline_format_is_mono_48k() {
    let f = StreamFormat::pipeline();
    assert_eq!((f.sample_rate, f.channels), (48_000, 1));
    assert_eq!(FRAME_SAMPLES as u32 * 100, SAMPLE_RATE);
}

#[test]
fn mono_float_format_is_consistent() {
    let f = mono_float_format(48_000);
    assert_eq!(f.format_tag, WAVE_FORMAT_IEEE_FLOAT);
    assert_eq!(f.avg_bytes_per_sec, 192_000);
    assert_eq!(f.block_align, 4);
    assert_eq!(f.bits_per_sample, 32);
    assert_eq!(f.extra_size, 0);
    assert!(format_matches(&f, 48_000, 1));
    assert!(!format_matches(&f, 44_100, 1));
    assert!(!format_matches(&f, 48_000, 2));
}

#[test]
fn format_match_wants_32_bit_float() {
    let mut f = mono_float_format(48_000);
    f.format_tag = WAVE_FORMAT_EXTENSIBLE;
    assert!(format_matches(&f, 48_000, 1));
    f.format_tag = 1;
    assert!(!format_matches(&f, 48_000, 1));
    f.format_tag = WAVE_FORMAT_IEEE_FLOAT;
    f.bits_per_sample = 16;
    assert!(!format_matches(&f, 48_000, 1));
}

#[test]
fn matching_devices_are_opened_in_the_pipeline_format() {
    let mut mix = mono_float_format(48_000);
    mix.format_tag = WAVE_FORMAT_EXTENSIBLE;
    let plan = plan_capture(&mix);
    assert!(!plan.needs_convert);
    assert_eq!(plan.format, mono_float_format(48_000));
    assert_eq!(plan.period_frames, 480);
}

#[test]
fn other_devices_are_opened_in_their_own_format() {
    let plan = plan_capture(&stereo_44k());
    assert!(plan.needs_convert);
    assert_eq!(plan.format, stereo_44k());
    assert_eq!(plan.period_frames, 441);
}

#[test]
fn capture_stream_converts_only_where_planned() {
    let mut direct = CaptureStream::new(&plan_capture(&mono_float_format(48_000)));
    let raw: Vec<u32> = (0..480).collect();
    let frames = direct.accept(&raw, 480, &floats());
    assert_eq!(frames.len(), 1);
    assert_eq!(frames[0].to_vec(), raw);

    let mut stereo = stereo_44k();
    stereo.samples_per_sec = 48_000;
    let mut mixed = CaptureStream::new(&plan_capture(&stereo));
    let mut pairs = Vec::new();
    for i in 0..480 {
        pairs.push(i as f32);
        pairs.push(i as f32 + 1.0);
    }
    let frames = mixed.accept(&bits(&pairs), 480, &floats());
    assert_eq!(frames.len(), 1);
    assert_eq!(frames[0][3], 3.5f32.to_bits());
    assert_eq!(frames[0][479], 479.5f32.to_bits());
}

#[test]
fn capture_stream_resamples_to_the_pipeline_rate() {
    let mut plan = plan_capture(&stereo_44k());
    plan.format.samples_per_sec = 24_000;
    let mut stream = CaptureStream::new(&plan);
    let mut pairs = Vec::new();
    for i in 0..240 {
        pairs.push(i as f32);
        pairs.push(i as f32 + 2.0);
    }
    let frames = stream.accept(&bits(&pairs), 240, &floats());
    assert_eq!(frames.len(), 1);
    assert_eq!(frames[0][0], 0.0f32.to_bits());
    assert_eq!(frames[0][1], 0.5f32.to_bits());
    assert_eq!(frames[0][2], 1.0f32.to_bits());
    assert_eq!(frames[0][479], 239.5f32.to_bits());
}

#[test]
fn empty_id_and_default_name_the_default_device() {
    assert!(matches!(find_device(""), DeviceQuery::Default));
    assert!(matches!(find_device("default"), DeviceQuery::Default));
    match find_device("a{1}") {
        DeviceQuery::ById(wide) => assert_eq!(wide, vec![97, 123, 49, 125, 0]),
        other => panic!("unexpected: {other:?}"),
    }
    assert!(matches!(find_device("Default"), DeviceQuery::ById(_)));
}

#[test]
fn startup_passes_on_what_was_heard() {
    assert!(startup_result(Some(Ok(()))).is_ok());
    assert!(matches!(startup_result(None), Err(AudioError::ThreadDied)));
    assert!(matches!(
        startup_result(Some(Err(AudioError::DeviceNotFound("x".into())))),
        Err(AudioError::DeviceNotFound(_))
    ));
}

#[test]
fn capture_loop_drains_and_gives_back() {
    let mut l = CaptureLoop::new(2);
    assert_eq!(l.step(CaptureEvent::StopFlag(false)), CaptureAction::Wait(200));
    assert_eq!(l.step(CaptureEvent::Signalled(true)), CaptureAction::GetBuffer);
    assert_eq!(
        l.step(CaptureEvent::Looked(BufferLook::Buffer { frames: 441, flags: 0 })),
        CaptureAction::Deliver { glitch: None, frames: 441, samples: 882 }
    );
    assert_eq!(l.step(CaptureEvent::Released(Ok(()))), CaptureAction::GetBuffer);
    assert_eq!(
        l.step(CaptureEvent::Looked(BufferLook::Buffer { frames: 1, flags: 3 })),
        CaptureAction::Deliver { glitch: Some(3), frames: 1, samples: 2 }
    );
    assert_eq!(l.step(CaptureEvent::Released(Ok(()))), CaptureAction::GetBuffer);
    assert_eq!(
        l.step(CaptureEvent::Looked(BufferLook::Status(AUDCLNT_S_BUFFER_EMPTY))),
        CaptureAction::CheckStop
    );
    assert_eq!(l.step(CaptureEvent::StopFlag(true)), CaptureAction::Stop);
}

#[test]
fn capture_loop_rechecks_the_stop_flag_after_a_timeout_or_an_empty_buffer() {
    let mut l = CaptureLoop::new(1);
    l.step(CaptureEvent::StopFlag(false));
    assert_eq!(l.step(CaptureEvent::Signalled(false)), CaptureAction::CheckStop);
    l.step(CaptureEvent::StopFlag(false));
    l.step(CaptureEvent::Signalled(true));
    assert_eq!(
        l.step(CaptureEvent::Looked(BufferLook::Buffer { frames: 0, flags: 7 })),
        CaptureAction::ReleaseEmpty
    );
    assert_eq!(l.step(CaptureEvent::StopFlag(true)), CaptureAction::Stop);
}

#[test]
fn capture_loop_ends_on_failed_calls() {
    let mut l = CaptureLoop::new(1);
    l.step(CaptureEvent::StopFlag(false));
    l.step(CaptureEvent::Signalled(true));
    assert_eq!(
        l.step(CaptureEvent::Looked(BufferLook::Status(0x8889_0004))),
        CaptureAction::Fail(FailedCall::GetBuffer, 0x8889_0004)
    );
    let mut m = CaptureLoop::new(1);
    m.step(CaptureEvent::StopFlag(false));
    m.step(CaptureEvent::Signalled(true));
    m.step(CaptureEvent::Looked(BufferLook::Buffer { frames: 5, flags: 8 }));
    assert_eq!(
        m.step(CaptureEvent::Released(Err(9))),
        CaptureAction::Fail(FailedCall::ReleaseBuffer, 9)
    );
    assert_eq!(FailedCall::GetBuffer.name(), "GetBuffer");
    assert_eq!(FailedCall::ReleaseBuffer.name(), "ReleaseBuffer");
}

#[test]
fn only_three_flags_are_glitches() {
    for flags in 0..16u32 {
        let mut l = CaptureLoop::new(1);
        l.step(CaptureEvent::StopFlag(false));
        l.step(CaptureEvent::Signalled(true));
        let expected = if flags & 7 != 0 { Some(flags) } else { None };
        assert_eq!(
            l.step(CaptureEvent::Looked(BufferLook::Buffer { frames: 1, flags })),
            CaptureAction::Deliver { glitch: expected, frames: 1, samples: 1 }
        );
    }
}
