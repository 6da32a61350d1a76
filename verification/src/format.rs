//! Audio formats: what the pipeline runs on, and what a device asks for.

use vstd::prelude::*;

verus! {

/// Sample rate of the whole pipeline, in Hz.
pub const SAMPLE_RATE: u32 = 48_000;

/// Samples in one pipeline frame: 10 ms at the pipeline rate.
pub const FRAME_SAMPLES: usize = 480;

/// The IEEE-754 bit pattern of one single-precision sample. The rules here move samples
/// about and never compute with them; arithmetic on samples is handed in by the caller.
pub type Sample = u32;

/// One pipeline frame: 480 mono samples.
pub type Frame = [Sample; FRAME_SAMPLES];

/// Pipeline-internal audio format. Always mono single-precision at 48 kHz; resampling and
/// channel mixing happen at the capture edge when the device's mix format differs.
#[derive(Debug, Clone, Copy, PartialEq, Eq, Structural)]
pub struct StreamFormat {
    pub sample_rate: u32,
    pub channels: u16,
}

impl StreamFormat {
    /// The format that every stage of the pipeline uses.
    pub fn pipeline() -> (r: Self)
        ensures
            r.sample_rate == SAMPLE_RATE,
            r.channels == 1,
    {
        StreamFormat { sample_rate: SAMPLE_RATE, channels: 1 }
    }
}

/// Format tag of plain single-precision samples.
pub const WAVE_FORMAT_IEEE_FLOAT: u16 = 3;

/// Format tag of a description that carries an extension block.
pub const WAVE_FORMAT_EXTENSIBLE: u16 = 65534;

/// The fixed part of a Windows wave format description.
#[derive(Debug, Clone, Copy, PartialEq, Eq, Structural)]
pub struct WaveFormat {
    pub format_tag: u16,
    pub channels: u16,
    pub samples_per_sec: u32,
    pub avg_bytes_per_sec: u32,
    pub block_align: u16,
    pub bits_per_sample: u16,
    pub extra_size: u16,
}

/// The format of mono single-precision samples at `rate`.
pub open spec fn mono_float(rate: u32) -> WaveFormat {
    WaveFormat {
        format_tag: WAVE_FORMAT_IEEE_FLOAT,
        channels: 1,
        samples_per_sec: rate,
        avg_bytes_per_sec: (rate * 4) as u32,
        block_align: 4,
        bits_per_sample: 32,
        extra_size: 0,
    }
}

/// `fmt` carries 32-bit samples, presumed floating point, at `rate` on `channels` channels.
pub open spec fn matches_stream(fmt: WaveFormat, rate: u32, channels: u16) -> bool {
    &&& fmt.samples_per_sec == rate
    &&& fmt.channels == channels
    &&& fmt.bits_per_sample == 32
    &&& (fmt.format_tag == WAVE_FORMAT_IEEE_FLOAT || fmt.format_tag == WAVE_FORMAT_EXTENSIBLE)
}

/// Describe mono single-precision samples at `rate`.
pub fn mono_float_format(rate: u32) -> (r: WaveFormat)
    requires
        rate * 4 <= u32::MAX,
    ensures
        r == mono_float(rate),
{
    WaveFormat {
        format_tag: WAVE_FORMAT_IEEE_FLOAT,
        channels: 1,
        samples_per_sec: rate,
        avg_bytes_per_sec: rate * 4,
        block_align: 4,
        bits_per_sample: 32,
        extra_size: 0,
    }
}

/// Can samples of this format go through at `rate` on `channels` channels unconverted?
pub fn format_matches(fmt: &WaveFormat, rate: u32, channels: u16) -> (r: bool)
    ensures
        r == matches_stream(*fmt, rate, channels),
{
    fmt.samples_per_sec == rate && fmt.channels == channels && fmt.bits_per_sample == 32 && (
    fmt.format_tag == WAVE_FORMAT_IEEE_FLOAT || fmt.format_tag == WAVE_FORMAT_EXTENSIBLE)
}

/// A mono single-precision format always passes its own test, and is self-consistent: a block
/// is one sample on each channel, and a second holds `rate` blocks.
pub proof fn law_mono_float_matches_itself(rate: u32)
    requires
        rate * 4 <= u32::MAX,
    ensures
        matches_stream(mono_float(rate), rate, 1),
        mono_float(rate).block_align as int * 8 == mono_float(rate).channels * mono_float(
            rate,
        ).bits_per_sample,
        mono_float(rate).avg_bytes_per_sec == rate * mono_float(rate).block_align,
{
}

/// A frame lasts 10 ms at the pipeline rate.
pub proof fn law_frame_is_ten_milliseconds()
    ensures
        FRAME_SAMPLES * 1000 == 10 * SAMPLE_RATE,
{
}

/// The pipeline runs on 48 000 samples a second, in frames of 480.
pub proof fn law_pipeline_runs_at_48_kilohertz()
    ensures
        SAMPLE_RATE == 48_000,
        FRAME_SAMPLES == 480,
{
}

/// A mono single-precision format says so in every field: samples of four bytes, as many a
/// second as the rate, and nothing behind the description.
pub proof fn law_mono_float_describes_its_samples(rate: u32)
    requires
        rate * 4 <= u32::MAX,
    ensures
        mono_float(rate).format_tag == 3,
        mono_float(rate).channels == 1,
        mono_float(rate).samples_per_sec == rate,
        mono_float(rate).bits_per_sample == 32,
        mono_float(rate).block_align == 4,
        mono_float(rate).avg_bytes_per_sec == 4 * rate,
        mono_float(rate).extra_size == 0,
{
}

/// A format goes through unconverted exactly where rate and channels are the ones asked for and
/// its samples have 32 bits under one of the two tags that stand for floating point. Its other
/// fields make no difference.
pub proof fn law_format_match_is_exact(a: WaveFormat, b: WaveFormat, rate: u32, channels: u16)
    ensures
        matches_stream(a, rate, channels) ==> a.samples_per_sec == rate && a.channels == channels
            && a.bits_per_sample == 32 && (a.format_tag == 3 || a.format_tag == 65534),
        a.bits_per_sample == 32 && (a.format_tag == 3 || a.format_tag == 65534) ==> matches_stream(
            a,
            a.samples_per_sec,
            a.channels,
        ),
        a.format_tag == b.format_tag && a.channels == b.channels && a.samples_per_sec
            == b.samples_per_sec && a.bits_per_sample == b.bits_per_sample ==> matches_stream(
            a,
            rate,
            channels,
        ) == matches_stream(b, rate, channels),
{
}

} // verus!
