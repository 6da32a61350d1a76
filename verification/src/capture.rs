//! The capture edge: from whatever a device delivers to 480-sample mono frames.

use crate::convert::{Arithmetic, InlineConverter, Phase, Position};
use crate::error::AudioError;
use crate::format::{
    format_matches, matches_stream, mono_float, mono_float_format, Frame, Sample, WaveFormat,
    FRAME_SAMPLES, SAMPLE_RATE,
};
use crate::text::same_text;
use crate::utf16::{encode, wide};
use vstd::prelude::*;

verus! {

/// Which frames a sample stream holds and what is left over: the stream cut into
/// consecutive runs of 480, and the tail that fills no run.
pub open spec fn is_cut(stream: Seq<Sample>, frames: Seq<Frame>, rest: Seq<Sample>) -> bool {
    &&& frames.len() == stream.len() / FRAME_SAMPLES as nat
    &&& forall|i: int|
        0 <= i < frames.len() ==> (#[trigger] frames[i])@ == stream.subrange(
            i * FRAME_SAMPLES,
            i * FRAME_SAMPLES + FRAME_SAMPLES,
        )
    &&& rest == stream.skip(frames.len() * FRAME_SAMPLES)
}

/// Collects an arbitrary-length mono stream into fixed 480-sample frames. Holds at most one
/// partial frame across calls.
pub struct FrameAccumulator {
    buf: Vec<Sample>,
}

/// Copy 480 samples into a frame.
fn frame_of(samples: &Vec<Sample>) -> (f: Frame)
    requires
        samples.len() == FRAME_SAMPLES,
    ensures
        f@ == samples@,
{
    let mut f: Frame = [0u32; FRAME_SAMPLES];
    let mut i: usize = 0;
    while i < FRAME_SAMPLES
        invariant
            samples.len() == FRAME_SAMPLES,
            0 <= i <= FRAME_SAMPLES,
            forall|j: int| 0 <= j < i ==> f@[j] == samples@[j],
        decreases FRAME_SAMPLES - i,
    {
        f[i] = samples[i];
        i = i + 1;
    }
    proof {
        assert(f@ == samples@);
    }
    f
}

impl FrameAccumulator {
    /// The samples held back for the next frame, oldest first.
    pub closed spec fn pending(&self) -> Seq<Sample> {
        self.buf@
    }

    /// What is held back never fills a frame.
    pub open spec fn wf(&self) -> bool {
        self.pending().len() < FRAME_SAMPLES
    }

    pub fn new() -> (r: Self)
        ensures
            r.wf(),
            r.pending() == Seq::<Sample>::empty(),
    {
        FrameAccumulator { buf: Vec::with_capacity(FRAME_SAMPLES * 2) }
    }

    /// Take in more samples and hand back every frame they complete, in order.
    pub fn feed(&mut self, samples: &[Sample]) -> (frames: Vec<Frame>)
        requires
            old(self).wf(),
        ensures
            final(self).wf(),
            is_cut(old(self).pending() + samples@, frames@, final(self).pending()),
    {
        let mut frames: Vec<Frame> = Vec::new();
        let ghost held = self.buf@;
        let ghost stream = held + samples@;
        let mut i: usize = 0;
        proof {
            assert(stream.subrange(0, held.len() as int) == held);
        }
        while i < samples.len()
            invariant
                0 <= i <= samples.len(),
                self.buf@.len() < FRAME_SAMPLES,
                stream == held + samples@,
                self.buf@ == stream.subrange(
                    frames@.len() * FRAME_SAMPLES,
                    held.len() + i,
                ),
                frames@.len() * FRAME_SAMPLES + self.buf@.len() == held.len() + i,
                forall|k: int|
                    0 <= k < frames@.len() ==> (#[trigger] frames@[k])@ == stream.subrange(
                        k * FRAME_SAMPLES,
                        k * FRAME_SAMPLES + FRAME_SAMPLES,
                    ),
            decreases samples.len() - i,
        {
            let need: usize = FRAME_SAMPLES - self.buf.len();
            let left: usize = samples.len() - i;
            let take: usize = if need < left { need } else { left };
            let ghost before = self.buf@;
            self.buf.extend_from_slice(&samples[i..i + take]);
            i = i + take;
            proof {
                assert(self.buf@ == stream.subrange(frames@.len() * FRAME_SAMPLES, held.len() + i));
            }
            if self.buf.len() == FRAME_SAMPLES {
                let frame: Frame = frame_of(&self.buf);
                self.buf.clear();
                frames.push(frame);
                proof {
                    assert(self.buf@ == stream.subrange(
                        frames@.len() * FRAME_SAMPLES,
                        held.len() + i,
                    ));
                }
            }
        }
        proof {
            assert(self.buf@ == stream.skip(frames@.len() * FRAME_SAMPLES));
        }
        frames
    }
}

/// The samples of a run of frames, one frame after the other.
pub open spec fn flat(frames: Seq<Frame>) -> Seq<Sample>
    decreases frames.len(),
{
    if frames.len() == 0 {
        seq![]
    } else {
        flat(frames.drop_last()) + frames.last()@
    }
}

/// No sample is lost, repeated or moved: the frames that come out, followed by what is held
/// back, are the stream that went in.
pub proof fn law_feed_conserves_samples(stream: Seq<Sample>, frames: Seq<Frame>, rest: Seq<Sample>)
    requires
        is_cut(stream, frames, rest),
    ensures
        flat(frames) + rest == stream,
        rest.len() < FRAME_SAMPLES,
{
    lemma_flat_is_prefix(stream, frames);
    assert(stream.take(frames.len() * FRAME_SAMPLES) + stream.skip(frames.len() * FRAME_SAMPLES)
        == stream);
}

proof fn lemma_flat_is_prefix(stream: Seq<Sample>, frames: Seq<Frame>)
    requires
        frames.len() * FRAME_SAMPLES <= stream.len(),
        forall|i: int|
            0 <= i < frames.len() ==> (#[trigger] frames[i])@ == stream.subrange(
                i * FRAME_SAMPLES,
                i * FRAME_SAMPLES + FRAME_SAMPLES,
            ),
    ensures
        flat(frames) == stream.take(frames.len() * FRAME_SAMPLES),
    decreases frames.len(),
{
    if frames.len() > 0 {
        let n = frames.len() - 1;
        assert forall|i: int| 0 <= i < n implies (#[trigger] frames.drop_last()[i])@
            == stream.subrange(i * FRAME_SAMPLES, i * FRAME_SAMPLES + FRAME_SAMPLES) by {
            assert(frames.drop_last()[i] == frames[i]);
        }
        lemma_flat_is_prefix(stream, frames.drop_last());
        assert(frames.last()@ == stream.subrange(
            n * FRAME_SAMPLES,
            n * FRAME_SAMPLES + FRAME_SAMPLES,
        ));
        assert(flat(frames) == stream.take(frames.len() * FRAME_SAMPLES));
    } else {
        assert(flat(frames) == stream.take(0));
    }
}

/// How a stream is chopped up on its way in makes no difference: feeding `more` after `stream`
/// gives the same frames and holds back the same samples as feeding both at once.
pub proof fn law_feed_in_pieces_is_feed_at_once(
    stream: Seq<Sample>,
    frames1: Seq<Frame>,
    rest1: Seq<Sample>,
    more: Seq<Sample>,
    frames2: Seq<Frame>,
    rest2: Seq<Sample>,
    frames: Seq<Frame>,
    rest: Seq<Sample>,
)
    requires
        is_cut(stream, frames1, rest1),
        is_cut(rest1 + more, frames2, rest2),
        is_cut(stream + more, frames, rest),
    ensures
        frames1 + frames2 == frames,
        rest2 == rest,
{
    let n1 = frames1.len();
    assert((rest1 + more).len() == stream.len() - n1 * FRAME_SAMPLES + more.len());
    assert(frames1.len() + frames2.len() == frames.len());
    assert forall|i: int| 0 <= i < frames.len() implies (frames1 + frames2)[i] == #[trigger] frames[i] by {
        let f = frames[i];
        let g = (frames1 + frames2)[i];
        if i < n1 {
            assert(g == frames1[i]);
            assert(stream.subrange(i * FRAME_SAMPLES, i * FRAME_SAMPLES + FRAME_SAMPLES) == (stream
                + more).subrange(i * FRAME_SAMPLES, i * FRAME_SAMPLES + FRAME_SAMPLES));
        } else {
            let j = i - n1;
            assert(g == frames2[j]);
            assert((rest1 + more).subrange(j * FRAME_SAMPLES, j * FRAME_SAMPLES + FRAME_SAMPLES)
                == (stream + more).subrange(
                i * FRAME_SAMPLES,
                i * FRAME_SAMPLES + FRAME_SAMPLES,
            ));
        }
        assert(f@ == g@);
        assert(f =~= g);
    }
    assert(frames1 + frames2 == frames);
    assert(rest2 == rest);
}

/// Which capture device to open.
#[derive(Debug)]
pub enum DeviceQuery {
    /// The system's default for communications.
    Default,
    /// The one with this ID, as a wide string.
    ById(Vec<u16>),
}

/// Which device an ID names. The empty ID and the word "default" stand for the system's
/// default.
pub fn find_device(id: &str) -> (r: DeviceQuery)
    ensures
        if id@.len() == 0 || id@ == "default"@ {
            r is Default
        } else {
            r matches DeviceQuery::ById(name) && name@ == encode(id@).push(0)
        },
{
    if id.is_empty() || same_text(id, "default") {
        DeviceQuery::Default
    } else {
        DeviceQuery::ById(wide(id))
    }
}

/// How to open a device.
#[derive(Debug, Clone, Copy, PartialEq, Eq, Structural)]
pub struct CapturePlan {
    /// The format to ask for.
    pub format: WaveFormat,
    /// Whether what the device delivers has to be converted.
    pub needs_convert: bool,
    /// The period to ask for, in time steps: 10 ms.
    pub period_frames: u32,
}

/// How to open a device whose mix format is `mix`: in the pipeline's format where it is already
/// as good as that, else in its own, to be converted inline.
pub fn plan_capture(mix: &WaveFormat) -> (r: CapturePlan)
    ensures
        r.needs_convert == !matches_stream(*mix, SAMPLE_RATE, 1),
        r.format == (if r.needs_convert {
            *mix
        } else {
            mono_float(SAMPLE_RATE)
        }),
        r.period_frames == r.format.samples_per_sec / 100,
{
    if format_matches(mix, SAMPLE_RATE, 1) {
        let format: WaveFormat = mono_float_format(SAMPLE_RATE);
        CapturePlan { format, needs_convert: false, period_frames: format.samples_per_sec / 100 }
    } else {
        CapturePlan {
            format: *mix,
            needs_convert: true,
            period_frames: mix.samples_per_sec / 100,
        }
    }
}

/// The way from a device's buffers to frames: conversion where the plan asks for it, then
/// cutting into frames.
pub struct CaptureStream {
    converter: Option<InlineConverter>,
    accumulator: FrameAccumulator,
}

impl CaptureStream {
    pub closed spec fn converter(&self) -> Option<InlineConverter> {
        self.converter
    }

    /// The samples held back for the next frame.
    pub closed spec fn pending(&self) -> Seq<Sample> {
        self.accumulator.pending()
    }

    pub open spec fn wf(&self) -> bool {
        &&& self.pending().len() < FRAME_SAMPLES
        &&& self.converter() matches Some(c) ==> c.wf()
    }

    /// Start a stream by the plan.
    pub fn new(plan: &CapturePlan) -> (r: Self)
        ensures
            r.wf(),
            r.pending() == Seq::<Sample>::empty(),
            r.converter() is Some == plan.needs_convert,
            r.converter() matches Some(c) ==> {
                &&& c.src_rate() == plan.format.samples_per_sec
                &&& c.src_channels() == plan.format.channels
                &&& c.dst_rate() == SAMPLE_RATE
                &&& c.last_sample() == 0
                &&& c.phase() == 0
            },
    {
        let converter: Option<InlineConverter> = if plan.needs_convert {
            Some(
                InlineConverter::new(
                    plan.format.samples_per_sec,
                    plan.format.channels as usize,
                    SAMPLE_RATE,
                ),
            )
        } else {
            None
        };
        CaptureStream { converter, accumulator: FrameAccumulator::new() }
    }

    /// Take in one buffer of `frames` time steps and hand back the frames that it completes.
    /// A conversion is done with the arithmetic that is handed in.
    pub fn accept<
        M: Fn(&[Sample]) -> Sample,
        P: Fn(Phase) -> Position,
        A: Fn(Phase, u32, u32) -> Phase,
        R: Fn(Phase, usize) -> Phase,
        L: Fn(Sample, Sample, u64) -> Sample,
    >(
        &mut self,
        raw: &[Sample],
        frames: usize,
        arithmetic: &Arithmetic<M, P, A, R, L>,
    ) -> (out: Vec<Frame>)
        requires
            old(self).wf(),
            old(self).converter() matches Some(c) ==> {
                &&& frames * c.src_channels() <= raw@.len()
                &&& c.served_by(arithmetic, frames)
            },
        ensures
            final(self).wf(),
            match old(self).converter() {
                None => {
                    &&& final(self).converter() is None
                    &&& is_cut(old(self).pending() + raw@, out@, final(self).pending())
                },
                Some(c) => final(self).converter() matches Some(d) && exists|
                    converted: Seq<Sample>,
                |
                    {
                        &&& #[trigger] c.converts(arithmetic, raw@, frames as nat, converted, &d)
                        &&& is_cut(old(self).pending() + converted, out@, final(self).pending())
                    },
            },
    {
        match self.converter.take() {
            None => self.accumulator.feed(raw),
            Some(c) => {
                let mut c: InlineConverter = c;
                let converted: Vec<Sample> = c.process(raw, frames, arithmetic);
                self.converter = Some(c);
                self.accumulator.feed(converted.as_slice())
            },
        }
    }
}

/// What the starter of a capture thread learns, from what the thread told it once the device was
/// opened or could not be: nothing where the thread died first.
pub fn startup_result(heard: Option<Result<(), AudioError>>) -> (r: Result<(), AudioError>)
    ensures
        match heard {
            None => r matches Err(AudioError::ThreadDied),
            Some(outcome) => r == outcome,
        },
{
    match heard {
        None => Err(AudioError::ThreadDied),
        Some(outcome) => outcome,
    }
}

/// The code by which the audio engine says that it has nothing more for now.
pub const AUDCLNT_S_BUFFER_EMPTY: u32 = 0x0889_0001;

/// Flag of a buffer that does not follow on the one before.
pub const FLAG_DATA_DISCONTINUITY: u32 = 1;

/// Flag of a buffer that was filled with silence.
pub const FLAG_SILENT: u32 = 2;

/// Flag of a buffer whose time stamp is wrong.
pub const FLAG_TIMESTAMP_ERROR: u32 = 4;

/// How long one wait for the engine may last before the stop flag is looked at again.
pub const WAIT_MS: u32 = 200;

/// What one look at the engine's buffer gave.
#[derive(Debug, Clone, Copy, PartialEq, Eq, Structural)]
pub enum BufferLook {
    /// A buffer of so many time steps, with its flags.
    Buffer { frames: u32, flags: u32 },
    /// A status that is no success.
    Status(u32),
}

/// Where the capture loop stands: what it waits to hear.
#[derive(Debug, Clone, Copy, PartialEq, Eq, Structural)]
pub enum CaptureState {
    /// Whether it should stop.
    Checking,
    /// Whether the engine has signalled.
    Waiting,
    /// What the engine has.
    Draining,
    /// Whether the buffer could be given back.
    Releasing,
    /// Nothing more.
    Done,
}

/// What the capture loop hears.
#[derive(Debug, Clone, Copy, PartialEq, Eq)]
pub enum CaptureEvent {
    StopFlag(bool),
    Signalled(bool),
    Looked(BufferLook),
    Released(Result<(), u32>),
}

/// What the capture loop has done for it next.
#[derive(Debug, Clone, Copy, PartialEq, Eq)]
pub enum CaptureAction {
    /// Look at the stop flag.
    CheckStop,
    /// Wait for the engine's signal, at most so many milliseconds.
    Wait(u32),
    /// Look at the engine's buffer.
    GetBuffer,
    /// Give an empty buffer back, whatever comes of it, and look at the stop flag.
    ReleaseEmpty,
    /// Report a glitch where there is one, take in the samples, and give the buffer back.
    Deliver { glitch: Option<u32>, frames: u32, samples: u64 },
    /// Stop the stream: the loop was asked to end.
    Stop,
    /// End with an error: the call that failed, and its status.
    Fail(FailedCall, u32),
}

/// The calls that end the loop when they fail.
#[derive(Debug, Clone, Copy, PartialEq, Eq, Structural)]
pub enum FailedCall {
    GetBuffer,
    ReleaseBuffer,
}

impl FailedCall {
    /// The call's name.
    pub fn name(&self) -> (r: &'static str)
        ensures
            r@ == (match *self {
                FailedCall::GetBuffer => "GetBuffer"@,
                FailedCall::ReleaseBuffer => "ReleaseBuffer"@,
            }),
    {
        match *self {
            FailedCall::GetBuffer => "GetBuffer",
            FailedCall::ReleaseBuffer => "ReleaseBuffer",
        }
    }
}

/// The buffer's flags report a gap, a wrong time stamp or silence.
pub open spec fn is_glitch(flags: u32) -> bool {
    flags & (FLAG_DATA_DISCONTINUITY | FLAG_TIMESTAMP_ERROR | FLAG_SILENT) != 0
}

/// The event is of the kind that the state waits for.
pub open spec fn awaits(state: CaptureState, event: CaptureEvent) -> bool {
    match state {
        CaptureState::Checking => event is StopFlag,
        CaptureState::Waiting => event is Signalled,
        CaptureState::Draining => event is Looked,
        CaptureState::Releasing => event is Released,
        CaptureState::Done => false,
    }
}

/// What follows on an event: the state it leaves the loop in, and what is done next, on a
/// device of so many channels.
pub open spec fn follows(event: CaptureEvent, channels: u16) -> (CaptureState, CaptureAction) {
    match event {
        CaptureEvent::StopFlag(true) => (CaptureState::Done, CaptureAction::Stop),
        CaptureEvent::StopFlag(false) => (CaptureState::Waiting, CaptureAction::Wait(WAIT_MS)),
        CaptureEvent::Signalled(false) => (CaptureState::Checking, CaptureAction::CheckStop),
        CaptureEvent::Signalled(true) => (CaptureState::Draining, CaptureAction::GetBuffer),
        CaptureEvent::Looked(BufferLook::Status(code)) => if code == AUDCLNT_S_BUFFER_EMPTY {
            (CaptureState::Checking, CaptureAction::CheckStop)
        } else {
            (CaptureState::Done, CaptureAction::Fail(FailedCall::GetBuffer, code))
        },
        CaptureEvent::Looked(BufferLook::Buffer { frames, flags }) => if frames == 0 {
            (CaptureState::Checking, CaptureAction::ReleaseEmpty)
        } else {
            (
                CaptureState::Releasing,
                CaptureAction::Deliver {
                    glitch: if is_glitch(flags) {
                        Some(flags)
                    } else {
                        None
                    },
                    frames,
                    samples: (frames * channels) as u64,
                },
            )
        },
        CaptureEvent::Released(Ok(_)) => (CaptureState::Draining, CaptureAction::GetBuffer),
        CaptureEvent::Released(Err(code)) => (
            CaptureState::Done,
            CaptureAction::Fail(FailedCall::ReleaseBuffer, code),
        ),
    }
}

/// The decisions of the capture loop.
#[derive(Debug)]
pub struct CaptureLoop {
    state: CaptureState,
    channels: u16,
}

impl CaptureLoop {
    pub closed spec fn state(&self) -> CaptureState {
        self.state
    }

    /// Channels of the device.
    pub closed spec fn channels(&self) -> u16 {
        self.channels
    }

    /// A loop on a device of so many channels, which first looks at the stop flag.
    pub fn new(channels: u16) -> (r: Self)
        ensures
            r.state() == CaptureState::Checking,
            r.channels() == channels,
    {
        CaptureLoop { state: CaptureState::Checking, channels }
    }

    /// One step of the loop: what it does on hearing `event`.
    pub fn step(&mut self, event: CaptureEvent) -> (r: CaptureAction)
        requires
            awaits(old(self).state(), event),
        ensures
            (final(self).state(), r) == follows(event, old(self).channels()),
            final(self).channels() == old(self).channels(),
    {
        let (state, action) = match event {
            CaptureEvent::StopFlag(stop) => if stop {
                (CaptureState::Done, CaptureAction::Stop)
            } else {
                (CaptureState::Waiting, CaptureAction::Wait(WAIT_MS))
            },
            CaptureEvent::Signalled(signalled) => if signalled {
                (CaptureState::Draining, CaptureAction::GetBuffer)
            } else {
                (CaptureState::Checking, CaptureAction::CheckStop)
            },
            CaptureEvent::Looked(BufferLook::Status(code)) => if code == AUDCLNT_S_BUFFER_EMPTY {
                (CaptureState::Checking, CaptureAction::CheckStop)
            } else {
                (CaptureState::Done, CaptureAction::Fail(FailedCall::GetBuffer, code))
            },
            CaptureEvent::Looked(BufferLook::Buffer { frames, flags }) => {
                if frames == 0 {
                    (CaptureState::Checking, CaptureAction::ReleaseEmpty)
                } else {
                    (CaptureState::Releasing, delivery(frames, flags, self.channels))
                }
            },
            CaptureEvent::Released(Ok(_)) => (CaptureState::Draining, CaptureAction::GetBuffer),
            CaptureEvent::Released(Err(code)) => (
                CaptureState::Done,
                CaptureAction::Fail(FailedCall::ReleaseBuffer, code),
            ),
        };
        self.state = state;
        action
    }
}

/// What is done with a buffer of samples.
fn delivery(frames: u32, flags: u32, channels: u16) -> (r: CaptureAction)
    requires
        frames > 0,
    ensures
        r == follows(
            CaptureEvent::Looked(BufferLook::Buffer { frames, flags }),
            channels,
        ).1,
{
    let mask: u32 = FLAG_DATA_DISCONTINUITY | FLAG_TIMESTAMP_ERROR | FLAG_SILENT;
    let glitch: Option<u32> = if flags & mask != 0 {
        Some(flags)
    } else {
        None
    };
    proof {
        assert(frames * channels <= 0xFFFF_FFFF * 0xFFFF) by (nonlinear_arith)
            requires
                frames <= 0xFFFF_FFFF,
                channels <= 0xFFFF,
        ;
    }
    let samples: u64 = frames as u64 * channels as u64;
    CaptureAction::Deliver { glitch, frames, samples }
}

/// A run of the loop from its start: every event is one that the state reached so far awaits.
pub open spec fn is_run(events: Seq<CaptureEvent>) -> bool
    decreases events.len(),
{
    if events.len() == 0 {
        true
    } else {
        is_run(events.drop_last()) && awaits(state_after(events.drop_last()), events.last())
    }
}

/// The state that a run ends in; the loop starts by looking at the stop flag.
pub open spec fn state_after(events: Seq<CaptureEvent>) -> CaptureState {
    if events.len() == 0 {
        CaptureState::Checking
    } else {
        follows(events.last(), 1).0
    }
}

/// How many buffers with samples in them the engine handed out in a run.
pub open spec fn handed_out(events: Seq<CaptureEvent>) -> nat
    decreases events.len(),
{
    if events.len() == 0 {
        0
    } else {
        handed_out(events.drop_last()) + (if events.last() matches CaptureEvent::Looked(
            BufferLook::Buffer { frames, .. },
        ) && frames > 0 {
            1nat
        } else {
            0nat
        })
    }
}

/// How many of them were given back, or could not be.
pub open spec fn given_back(events: Seq<CaptureEvent>) -> nat
    decreases events.len(),
{
    if events.len() == 0 {
        0
    } else {
        given_back(events.drop_last()) + (if events.last() is Released {
            1nat
        } else {
            0nat
        })
    }
}

/// No buffer is kept and none is given back twice: at every point of a run as many buffers have
/// been given back as were handed out, but for one that is just being delivered.
pub proof fn law_every_buffer_is_given_back(events: Seq<CaptureEvent>)
    requires
        is_run(events),
    ensures
        handed_out(events) == given_back(events) + (if state_after(events) is Releasing {
            1nat
        } else {
            0nat
        }),
    decreases events.len(),
{
    if events.len() > 0 {
        law_every_buffer_is_given_back(events.drop_last());
    }
}

/// Once asked to stop the loop hears nothing more, and it is asked before every wait.
pub proof fn law_stop_is_final_and_asked_before_every_wait(events: Seq<CaptureEvent>)
    requires
        is_run(events),
    ensures
        forall|i: int|
            0 <= i < events.len() && #[trigger] events[i] == CaptureEvent::StopFlag(true) ==> i
                == events.len() - 1,
        forall|i: int|
            0 <= i < events.len() && #[trigger] events[i] is Signalled ==> i > 0 && events[i - 1]
                == CaptureEvent::StopFlag(false),
    decreases events.len(),
{
    if events.len() > 0 {
        let before = events.drop_last();
        law_stop_is_final_and_asked_before_every_wait(before);
        let n = before.len() as int;
        assert forall|i: int|
            0 <= i < events.len() && #[trigger] events[i] == CaptureEvent::StopFlag(true) implies i
            == events.len() - 1 by {
            if i < n {
                assert(before[i] == events[i]);
                assert(i == n - 1);
                assert(before.last() == CaptureEvent::StopFlag(true));
                assert(state_after(before) is Done);
            }
        }
        assert forall|i: int|
            0 <= i < events.len() && #[trigger] events[i] is Signalled implies i > 0 && events[i
            - 1] == CaptureEvent::StopFlag(false) by {
            if i < n {
                assert(before[i] == events[i]);
                assert(before[i - 1] == events[i - 1]);
            } else {
                assert(state_after(before) is Waiting);
                assert(before.len() > 0);
                assert(before.last() == CaptureEvent::StopFlag(false));
                assert(events[i - 1] == before.last());
            }
        }
    }
}

/// Every sample of a stream stands in its own place: the sample at `j` is the one at `j % 480` of
/// the frame at `j / 480`, as far as whole frames go, and those behind them are held back, fewer
/// than a frame of them.
pub proof fn law_every_sample_stands_in_its_place(
    stream: Seq<Sample>,
    frames: Seq<Frame>,
    rest: Seq<Sample>,
    j: int,
)
    requires
        is_cut(stream, frames, rest),
        0 <= j < stream.len(),
    ensures
        480 * frames.len() + rest.len() == stream.len(),
        rest.len() < 480,
        j < 480 * frames.len() ==> frames[j / 480]@[j % 480] == stream[j],
        j >= 480 * frames.len() ==> rest[j - 480 * frames.len()] == stream[j],
{
    if j < 480 * frames.len() {
        let i = j / 480;
        assert(frames[i]@ == stream.subrange(i * FRAME_SAMPLES, i * FRAME_SAMPLES + FRAME_SAMPLES));
    }
}

/// A stream of nothing gives no frame and holds nothing back.
pub proof fn law_nothing_comes_of_nothing(frames: Seq<Frame>, rest: Seq<Sample>)
    requires
        is_cut(Seq::<Sample>::empty(), frames, rest),
    ensures
        frames.len() == 0,
        rest.len() == 0,
{
}

/// A glitch is reported exactly where one of the three lowest flags is set, whatever the others
/// say.
pub proof fn law_three_flags_are_glitches(flags: u32)
    ensures
        is_glitch(flags) <==> flags % 8 != 0,
{
    assert((flags & (1u32 | 4u32 | 2u32)) != 0 <==> flags % 8 != 0) by (bit_vector);
}

/// What the loop does tells what it has heard. It stops only when told to, waits only when told
/// to go on (200 ms at most), looks at the engine's buffer exactly on its signal and after a
/// buffer was given back, delivers exactly a buffer that holds something (all of it, with its
/// flags where they report a glitch), and fails exactly on the status of a call that failed,
/// which an empty buffer does not count as.
pub proof fn law_actions_tell_what_was_heard(event: CaptureEvent, channels: u16)
    ensures
        follows(event, channels).1 is Stop <==> event == CaptureEvent::StopFlag(true),
        follows(event, channels).1 is Wait <==> event == CaptureEvent::StopFlag(false),
        follows(event, channels).1 matches CaptureAction::Wait(ms) ==> ms == 200,
        follows(event, channels).1 is GetBuffer <==> event == CaptureEvent::Signalled(true)
            || event == CaptureEvent::Released(Ok::<(), u32>(())),
        follows(event, channels).1 is CheckStop <==> event == CaptureEvent::Signalled(false)
            || event == CaptureEvent::Looked(BufferLook::Status(0x0889_0001)),
        follows(event, channels).1 is ReleaseEmpty <==> (event matches CaptureEvent::Looked(
            BufferLook::Buffer { frames, flags },
        ) && frames == 0),
        follows(event, channels).1 is Deliver <==> (event matches CaptureEvent::Looked(
            BufferLook::Buffer { frames, flags },
        ) && frames > 0),
        event matches CaptureEvent::Looked(BufferLook::Buffer { frames: n, flags: bits }) ==> (
        follows(event, channels).1 matches CaptureAction::Deliver { glitch, frames, samples } ==> frames
            == n && samples == n * channels && (bits % 8 != 0 ==> glitch == Some(bits)) && (bits % 8
            == 0 ==> glitch is None)),
        follows(event, channels).1 matches CaptureAction::Fail(call, code) ==> match call {
            FailedCall::GetBuffer => event == CaptureEvent::Looked(BufferLook::Status(code)) && code
                != 0x0889_0001,
            FailedCall::ReleaseBuffer => event == CaptureEvent::Released(Err::<(), u32>(code)),
        },
        event matches CaptureEvent::Looked(BufferLook::Status(code)) ==> (code != 0x0889_0001
            ==> follows(event, channels).1 == CaptureAction::Fail(FailedCall::GetBuffer, code)),
        event matches CaptureEvent::Released(Err(code)) ==> follows(event, channels).1
            == CaptureAction::Fail(FailedCall::ReleaseBuffer, code),
{
    if let CaptureEvent::Looked(BufferLook::Buffer { frames, flags }) = event {
        law_three_flags_are_glitches(flags);
        assert(0 <= frames * channels <= 0xFFFF_FFFF * 0xFFFF) by (nonlinear_arith)
            requires
                0 <= frames <= 0xFFFF_FFFF,
                0 <= channels <= 0xFFFF,
        ;
    }
    match event {
        CaptureEvent::Released(Ok(u)) => {
            assert(u == ());
        },
        _ => {},
    }
}

/// What the loop does next is what tells it what it then waits to hear: the stop flag, the
/// signal, the buffer or its return; and after it stopped or failed it waits for nothing more.
pub proof fn law_the_loop_waits_for_what_it_asked(event: CaptureEvent, channels: u16)
    ensures
        match follows(event, channels).1 {
            CaptureAction::CheckStop => follows(event, channels).0 == CaptureState::Checking,
            CaptureAction::ReleaseEmpty => follows(event, channels).0 == CaptureState::Checking,
            CaptureAction::Wait(_) => follows(event, channels).0 == CaptureState::Waiting,
            CaptureAction::GetBuffer => follows(event, channels).0 == CaptureState::Draining,
            CaptureAction::Deliver { .. } => follows(event, channels).0 == CaptureState::Releasing,
            CaptureAction::Stop => follows(event, channels).0 == CaptureState::Done,
            CaptureAction::Fail(_, _) => follows(event, channels).0 == CaptureState::Done,
        },
{
}

/// Each state waits for its own kind of event, and the last one for none.
pub proof fn law_states_wait_for_their_own_events(event: CaptureEvent)
    ensures
        awaits(CaptureState::Checking, event) <==> event is StopFlag,
        awaits(CaptureState::Waiting, event) <==> event is Signalled,
        awaits(CaptureState::Draining, event) <==> event is Looked,
        awaits(CaptureState::Releasing, event) <==> event is Released,
        !awaits(CaptureState::Done, event),
{
}

} // verus!
