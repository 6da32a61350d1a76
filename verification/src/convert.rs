//! Inline downmix and linear resampling for devices whose mix format differs from the
//! pipeline's. Which samples take part, in which order, and where a block ends is decided here;
//! the arithmetic on floating-point numbers is handed in.

use crate::format::Sample;
use vstd::prelude::*;

verus! {

/// The bit pattern of a double-precision position in the source stream, counted in samples from
/// the start of the current block.
pub type Phase = u64;

/// Where a phase falls in the source block: the index of the right neighbour, and the bit
/// pattern of the fraction between the left neighbour and the right one.
pub type Position = (usize, u64);

/// The double-precision bit pattern of infinity, the largest of the patterns that stand for
/// numbers that are not negative. Those patterns are ordered as the numbers are.
pub const INFINITY_BITS: u64 = 0x7FF0_0000_0000_0000;

/// The phase is a number, and not negative.
pub open spec fn is_phase(p: Phase) -> bool {
    p <= INFINITY_BITS
}

/// The arithmetic that a conversion needs.
pub struct Arithmetic<M, P, A, R, L> {
    /// The mean of a group of samples.
    pub mix: M,
    /// The whole part of a phase, and the fraction that is left.
    pub place: P,
    /// A phase moved on by the source rate over the destination rate.
    pub advance: A,
    /// A phase counted from the end of a block of so many samples.
    pub rewind: R,
    /// The point between two samples at a fraction of the way.
    pub lerp: L,
}

impl<
    M: Fn(&[Sample]) -> Sample,
    P: Fn(Phase) -> Position,
    A: Fn(Phase, u32, u32) -> Phase,
    R: Fn(Phase, usize) -> Phase,
    L: Fn(Sample, Sample, u64) -> Sample,
> Arithmetic<M, P, A, R, L> {
    /// Every operation may be called on every value.
    pub open spec fn is_total(&self) -> bool {
        &&& forall|s: &[Sample]| call_requires(self.mix, (s,))
        &&& forall|p: Phase| call_requires(self.place, (p,))
        &&& forall|p: Phase, s: u32, d: u32| call_requires(self.advance, (p, s, d))
        &&& forall|p: Phase, n: usize| call_requires(self.rewind, (p, n))
        &&& forall|a: Sample, b: Sample, w: u64| call_requires(self.lerp, (a, b, w))
    }

    /// Between these rates a phase inside a block of `frames` samples moves on to a later one,
    /// and a phase behind the block is not negative when counted from the block's end.
    pub open spec fn moves_on(&self, src_rate: u32, dst_rate: u32, frames: usize) -> bool {
        &&& forall|p: Phase, at: Position, q: Phase|
            #![trigger call_ensures(self.place, (p,), at), call_ensures(self.advance, (p, src_rate, dst_rate), q)]
            is_phase(p) && call_ensures(self.place, (p,), at) && at.0 < frames && call_ensures(
                self.advance,
                (p, src_rate, dst_rate),
                q,
            ) ==> p < q && is_phase(q)
        &&& forall|p: Phase, at: Position, q: Phase|
            #![trigger call_ensures(self.place, (p,), at), call_ensures(self.rewind, (p, frames), q)]
            is_phase(p) && call_ensures(self.place, (p,), at) && at.0 >= frames && call_ensures(
                self.rewind,
                (p, frames),
                q,
            ) ==> is_phase(q)
    }

    /// A walk over a block of `frames` samples: the phases that it comes by from `start` on, one
    /// step after the other, and where they fall. All fall in the block but the last, which ends
    /// the walk.
    pub open spec fn is_walk(
        &self,
        src_rate: u32,
        dst_rate: u32,
        frames: nat,
        start: Phase,
        phases: Seq<Phase>,
        places: Seq<Position>,
    ) -> bool {
        &&& self.is_walk_so_far(src_rate, dst_rate, frames, start, phases, places)
        &&& places.last().0 >= frames
    }

    /// The beginning of such a walk, up to a phase that may or may not end it.
    pub open spec fn is_walk_so_far(
        &self,
        src_rate: u32,
        dst_rate: u32,
        frames: nat,
        start: Phase,
        phases: Seq<Phase>,
        places: Seq<Position>,
    ) -> bool {
        &&& phases.len() > 0
        &&& places.len() == phases.len()
        &&& phases[0] == start
        &&& forall|k: int|
            0 <= k < phases.len() ==> call_ensures(self.place, (phases[k],), #[trigger] places[k])
        &&& forall|k: int| 0 <= k < phases.len() - 1 ==> (#[trigger] places[k]).0 < frames
        &&& forall|j: int, k: int|
            0 <= j && j + 1 == k && k < phases.len() ==> call_ensures(
                self.advance,
                (#[trigger] phases[j], src_rate, dst_rate),
                #[trigger] phases[k],
            )
    }

    /// `out` is the block `mono`, which follows `last`, resampled from phase `start` on: one
    /// output sample for each phase in the block, each what `lerp` makes of the phase's two
    /// neighbours. `end` is the phase that the next block starts from.
    pub open spec fn is_resampling(
        &self,
        src_rate: u32,
        dst_rate: u32,
        last: Sample,
        mono: Seq<Sample>,
        start: Phase,
        out: Seq<Sample>,
        end: Phase,
    ) -> bool {
        exists|phases: Seq<Phase>, places: Seq<Position>|
            {
                &&& #[trigger] self.is_walk(src_rate, dst_rate, mono.len(), start, phases, places)
                &&& self.interpolates(last, mono, places.drop_last(), out)
                &&& call_ensures(self.rewind, (phases.last(), mono.len() as usize), end)
            }
    }

    /// `out` holds, for each position in turn, what `lerp` makes of its two neighbours.
    pub open spec fn interpolates(
        &self,
        last: Sample,
        mono: Seq<Sample>,
        positions: Seq<Position>,
        out: Seq<Sample>,
    ) -> bool {
        &&& out.len() == positions.len()
        &&& forall|k: int|
            0 <= k < out.len() ==> call_ensures(
                self.lerp,
                (
                    left_tap(last, mono, positions[k].0 as int),
                    mono[positions[k].0 as int],
                    positions[k].1,
                ),
                #[trigger] out[k],
            )
    }
}

/// The samples of all channels at time step `f` of an interleaved block.
pub open spec fn group(interleaved: Seq<Sample>, channels: nat, f: int) -> Seq<Sample> {
    interleaved.subrange(f * channels, f * channels + channels)
}

/// `mono` is a downmix of the first `frames` time steps of an interleaved block: the block
/// itself where it has one channel, else what `mix` makes of each group of channels.
pub open spec fn is_downmix<M: Fn(&[Sample]) -> Sample>(
    interleaved: Seq<Sample>,
    channels: nat,
    frames: nat,
    mix: M,
    mono: Seq<Sample>,
) -> bool {
    if channels == 1 {
        mono == interleaved.take(frames as int)
    } else {
        &&& mono.len() == frames
        &&& forall|f: int|
            0 <= f < frames ==> mixes_to(mix, group(interleaved, channels, f), #[trigger] mono[f])
    }
}

/// `mix` may turn a group of samples into `out`.
pub open spec fn mixes_to<M: Fn(&[Sample]) -> Sample>(
    mix: M,
    samples: Seq<Sample>,
    out: Sample,
) -> bool {
    exists|s: &[Sample]| s@ == samples && #[trigger] call_ensures(mix, (s,), out)
}

/// The left neighbour of position `idx` in a block that follows `last`. The right neighbour is
/// the sample at `idx` itself.
pub open spec fn left_tap(last: Sample, mono: Seq<Sample>, idx: int) -> Sample {
    if idx == 0 {
        last
    } else {
        mono[idx - 1]
    }
}

/// The sample that the next block follows.
pub open spec fn last_of(last: Sample, mono: Seq<Sample>) -> Sample {
    if mono.len() == 0 {
        last
    } else {
        mono.last()
    }
}

/// Cheap inline downmix and linear resampler.
pub struct InlineConverter {
    src_rate: u32,
    src_channels: usize,
    dst_rate: u32,
    last_sample: Sample,
    phase: Phase,
}

impl InlineConverter {
    pub closed spec fn src_rate(&self) -> u32 {
        self.src_rate
    }

    pub closed spec fn src_channels(&self) -> usize {
        self.src_channels
    }

    pub closed spec fn dst_rate(&self) -> u32 {
        self.dst_rate
    }

    /// The last source sample so far; silence at first.
    pub closed spec fn last_sample(&self) -> Sample {
        self.last_sample
    }

    /// Where the next output sample falls in the block to come.
    pub closed spec fn phase(&self) -> Phase {
        self.phase
    }

    /// The phase is never negative.
    pub open spec fn wf(&self) -> bool {
        is_phase(self.phase())
    }

    /// Source and destination run at the same rate.
    pub open spec fn same_rate(&self) -> bool {
        self.src_rate() == self.dst_rate()
    }

    /// The two converters convert between the same formats.
    pub open spec fn same_formats(&self, other: &Self) -> bool {
        &&& self.src_rate() == other.src_rate()
        &&& self.src_channels() == other.src_channels()
        &&& self.dst_rate() == other.dst_rate()
    }

    /// The arithmetic is fit for a block of `frames` samples between this converter's rates.
    /// Equal rates ask nothing of it.
    pub open spec fn served_by<
        M: Fn(&[Sample]) -> Sample,
        P: Fn(Phase) -> Position,
        A: Fn(Phase, u32, u32) -> Phase,
        R: Fn(Phase, usize) -> Phase,
        L: Fn(Sample, Sample, u64) -> Sample,
    >(&self, arithmetic: &Arithmetic<M, P, A, R, L>, frames: usize) -> bool {
        &&& arithmetic.is_total()
        &&& self.same_rate() || arithmetic.moves_on(self.src_rate(), self.dst_rate(), frames)
    }

    /// What the mono block `mono` becomes, and what it makes of the converter: at equal rates
    /// the block passes through, else it is resampled.
    pub open spec fn turns<
        M: Fn(&[Sample]) -> Sample,
        P: Fn(Phase) -> Position,
        A: Fn(Phase, u32, u32) -> Phase,
        R: Fn(Phase, usize) -> Phase,
        L: Fn(Sample, Sample, u64) -> Sample,
    >(
        &self,
        arithmetic: &Arithmetic<M, P, A, R, L>,
        mono: Seq<Sample>,
        out: Seq<Sample>,
        after: &Self,
    ) -> bool {
        &&& after.same_formats(self)
        &&& after.last_sample() == last_of(self.last_sample(), mono)
        &&& if self.same_rate() {
            out == mono && after.phase() == self.phase()
        } else {
            arithmetic.is_resampling(
                self.src_rate(),
                self.dst_rate(),
                self.last_sample(),
                mono,
                self.phase(),
                out,
                after.phase(),
            )
        }
    }

    /// What an interleaved block of `frames` time steps becomes, and what it makes of the
    /// converter.
    pub open spec fn converts<
        M: Fn(&[Sample]) -> Sample,
        P: Fn(Phase) -> Position,
        A: Fn(Phase, u32, u32) -> Phase,
        R: Fn(Phase, usize) -> Phase,
        L: Fn(Sample, Sample, u64) -> Sample,
    >(
        &self,
        arithmetic: &Arithmetic<M, P, A, R, L>,
        interleaved: Seq<Sample>,
        frames: nat,
        out: Seq<Sample>,
        after: &Self,
    ) -> bool {
        exists|mono: Seq<Sample>|
            {
                &&& mono.len() == frames
                &&& is_downmix(
                    interleaved,
                    self.src_channels() as nat,
                    frames,
                    arithmetic.mix,
                    mono,
                )
                &&& #[trigger] self.turns(arithmetic, mono, out, after)
            }
    }

    pub fn new(src_rate: u32, src_channels: usize, dst_rate: u32) -> (r: Self)
        ensures
            r.wf(),
            r.src_rate() == src_rate,
            r.src_channels() == src_channels,
            r.dst_rate() == dst_rate,
            r.last_sample() == 0,
            r.phase() == 0,
    {
        InlineConverter { src_rate, src_channels, dst_rate, last_sample: 0, phase: 0 }
    }

    /// Mix the first `frames` time steps of an interleaved block down to mono.
    pub fn downmix<M: Fn(&[Sample]) -> Sample>(
        &self,
        interleaved: &[Sample],
        frames: usize,
        mix: &M,
    ) -> (mono: Vec<Sample>)
        requires
            frames * self.src_channels() <= interleaved@.len(),
            forall|s: &[Sample]| call_requires(*mix, (s,)),
        ensures
            mono@.len() == frames,
            is_downmix(interleaved@, self.src_channels() as nat, frames as nat, *mix, mono@),
    {
        let mut mono: Vec<Sample> = Vec::with_capacity(frames);
        if self.src_channels == 1 {
            mono.extend_from_slice(&interleaved[0..frames]);
            proof {
                assert(mono@ == interleaved@.take(frames as int));
            }
            return mono;
        }
        let channels: usize = self.src_channels;
        let mut f: usize = 0;
        while f < frames
            invariant
                channels == self.src_channels(),
                channels != 1,
                frames * channels <= interleaved@.len(),
                forall|s: &[Sample]| call_requires(*mix, (s,)),
                0 <= f <= frames,
                mono@.len() == f,
                forall|g: int|
                    0 <= g < f ==> mixes_to(
                        *mix,
                        group(interleaved@, channels as nat, g),
                        #[trigger] mono@[g],
                    ),
            decreases frames - f,
        {
            proof {
                assert(f * channels + channels <= frames * channels) by (nonlinear_arith)
                    requires
                        f + 1 <= frames,
                ;
                assert(0 <= f * channels) by (nonlinear_arith);
                assert(interleaved@.len() == interleaved.len());
            }
            let base: usize = f * channels;
            let samples: &[Sample] = &interleaved[base..base + channels];
            let m: Sample = mix(samples);
            proof {
                assert(samples@ == group(interleaved@, channels as nat, f as int));
                assert(mixes_to(*mix, group(interleaved@, channels as nat, f as int), m));
            }
            mono.push(m);
            f = f + 1;
        }
        mono
    }

    /// Resample a mono block. At equal rates it passes through.
    pub fn resample<
        M: Fn(&[Sample]) -> Sample,
        P: Fn(Phase) -> Position,
        A: Fn(Phase, u32, u32) -> Phase,
        R: Fn(Phase, usize) -> Phase,
        L: Fn(Sample, Sample, u64) -> Sample,
    >(&mut self, mono: &Vec<Sample>, arithmetic: &Arithmetic<M, P, A, R, L>) -> (out: Vec<Sample>)
        requires
            old(self).wf(),
            old(self).served_by(arithmetic, mono.len()),
        ensures
            final(self).wf(),
            old(self).turns(arithmetic, mono@, out@, &*final(self)),
    {
        let last: Sample = self.last_sample;
        if mono.len() > 0 {
            self.last_sample = mono[mono.len() - 1];
        }
        let mut out: Vec<Sample> = Vec::new();
        if self.src_rate == self.dst_rate {
            out.extend_from_slice(mono.as_slice());
            proof {
                assert(out@ == mono@);
            }
            return out;
        }
        let src_rate: u32 = self.src_rate;
        let dst_rate: u32 = self.dst_rate;
        let ghost start = self.phase;
        let mut phase: Phase = self.phase;
        let mut at: Position = (arithmetic.place)(phase);
        let ghost mut phases: Seq<Phase> = seq![phase];
        let ghost mut places: Seq<Position> = seq![at];
        while at.0 < mono.len()
            invariant
                arithmetic.is_total(),
                arithmetic.moves_on(src_rate, dst_rate, mono.len()),
                is_phase(phase),
                arithmetic.is_walk_so_far(
                    src_rate,
                    dst_rate,
                    mono@.len(),
                    start,
                    phases,
                    places,
                ),
                phases.last() == phase,
                places.last() == at,
                arithmetic.interpolates(last, mono@, places.drop_last(), out@),
            decreases INFINITY_BITS - phase,
        {
            let idx: usize = at.0;
            let a: Sample = if idx == 0 {
                last
            } else {
                mono[idx - 1]
            };
            let b: Sample = mono[idx];
            let s: Sample = (arithmetic.lerp)(a, b, at.1);
            let ghost done = out@;
            let ghost old_places = places;
            out.push(s);
            phase = (arithmetic.advance)(phase, src_rate, dst_rate);
            at = (arithmetic.place)(phase);
            proof {
                phases = phases.push(phase);
                places = places.push(at);
                assert(places.drop_last() == old_places);
                assert forall|k: int| 0 <= k < out@.len() implies call_ensures(
                    arithmetic.lerp,
                    (
                        left_tap(last, mono@, places.drop_last()[k].0 as int),
                        mono@[places.drop_last()[k].0 as int],
                        places.drop_last()[k].1,
                    ),
                    #[trigger] out@[k],
                ) by {
                    if k < done.len() {
                        assert(out@[k] == done[k]);
                        assert(old_places.drop_last()[k] == old_places[k]);
                    }
                }
            }
        }
        self.phase = (arithmetic.rewind)(phase, mono.len());
        proof {
            assert(arithmetic.is_walk(src_rate, dst_rate, mono@.len(), start, phases, places));
        }
        out
    }

    /// Convert one interleaved block of `frames` time steps to mono at the destination rate.
    pub fn process<
        M: Fn(&[Sample]) -> Sample,
        P: Fn(Phase) -> Position,
        A: Fn(Phase, u32, u32) -> Phase,
        R: Fn(Phase, usize) -> Phase,
        L: Fn(Sample, Sample, u64) -> Sample,
    >(
        &mut self,
        interleaved: &[Sample],
        frames: usize,
        arithmetic: &Arithmetic<M, P, A, R, L>,
    ) -> (out: Vec<Sample>)
        requires
            old(self).wf(),
            frames * old(self).src_channels() <= interleaved@.len(),
            old(self).served_by(arithmetic, frames),
        ensures
            final(self).wf(),
            old(self).converts(arithmetic, interleaved@, frames as nat, out@, &*final(self)),
    {
        let mono: Vec<Sample> = self.downmix(interleaved, frames, &arithmetic.mix);
        self.resample(&mono, arithmetic)
    }
}

/// Where one block ends and the next begins leaves no mark on the neighbours: a position in the
/// second of two blocks has those that it would have if both blocks had come as one.
pub proof fn law_block_boundaries_leave_no_mark(
    last: Sample,
    first: Seq<Sample>,
    second: Seq<Sample>,
    idx: int,
)
    requires
        0 <= idx < second.len(),
    ensures
        left_tap(last_of(last, first), second, idx) == left_tap(
            last,
            first + second,
            first.len() + idx,
        ),
        second[idx] == (first + second)[first.len() + idx],
        last_of(last_of(last, first), second) == last_of(last, first + second),
{
}

/// A mono device at the pipeline's own rate needs no conversion: its samples pass through.
pub proof fn law_matching_mono_passes_through<
    M: Fn(&[Sample]) -> Sample,
    P: Fn(Phase) -> Position,
    A: Fn(Phase, u32, u32) -> Phase,
    R: Fn(Phase, usize) -> Phase,
    L: Fn(Sample, Sample, u64) -> Sample,
>(
    before: InlineConverter,
    arithmetic: Arithmetic<M, P, A, R, L>,
    interleaved: Seq<Sample>,
    frames: nat,
    out: Seq<Sample>,
    after: InlineConverter,
)
    requires
        before.same_rate(),
        before.src_channels() == 1,
        before.converts(&arithmetic, interleaved, frames, out, &after),
    ensures
        out == interleaved.take(frames as int),
{
}

/// The mono samples that an interleaved block becomes: with one channel the block's own, in
/// their own places; with any other number, what `mix` makes of the samples of all channels at
/// each time step, which stand side by side in the block.
pub proof fn law_each_time_step_is_mixed_by_itself<M: Fn(&[Sample]) -> Sample>(
    interleaved: Seq<Sample>,
    channels: nat,
    frames: nat,
    mix: M,
    mono: Seq<Sample>,
    f: int,
)
    requires
        is_downmix(interleaved, channels, frames, mix, mono),
        frames * channels <= interleaved.len(),
        0 <= f < frames,
    ensures
        mono.len() == frames,
        channels == 1 ==> mono[f] == interleaved[f],
        channels != 1 ==> exists|s: &[Sample]| #[trigger]
            call_ensures(mix, (s,), mono[f]) && s@.len() == channels && forall|c: int|
                0 <= c < channels ==> #[trigger] s@[c] == interleaved[f * channels + c],
{
    if channels != 1 {
        assert(mixes_to(mix, group(interleaved, channels, f), mono[f]));
        let s = choose|s: &[Sample]|
            s@ == group(interleaved, channels, f) && #[trigger] call_ensures(mix, (s,), mono[f]);
        assert(f * channels + channels <= frames * channels) by (nonlinear_arith)
            requires
                f + 1 <= frames,
        ;
        assert(0 <= f * channels) by (nonlinear_arith)
            requires
                0 <= f,
        ;
        assert forall|c: int| 0 <= c < channels implies #[trigger] s@[c] == interleaved[f * channels
            + c] by {}
        assert(call_ensures(mix, (s,), mono[f]));
    }
}

/// The outputs of a block are taken from the stream itself. With the last sample of the stream
/// so far in front of the block, whatever its bits, the output at a phase whose whole part is
/// `p` is what `lerp` makes of the sample at `p` and the one behind it. The phases start where
/// the block before left off and move on step by step by the two rates; there is one output for
/// every phase in the block and none for the first one behind it, which, counted from the
/// block's end, is where the next block starts. The stream's last sample is then the block's.
pub proof fn law_outputs_lie_between_samples_of_the_stream<
    M: Fn(&[Sample]) -> Sample,
    P: Fn(Phase) -> Position,
    A: Fn(Phase, u32, u32) -> Phase,
    R: Fn(Phase, usize) -> Phase,
    L: Fn(Sample, Sample, u64) -> Sample,
>(
    before: InlineConverter,
    arithmetic: Arithmetic<M, P, A, R, L>,
    mono: Seq<Sample>,
    out: Seq<Sample>,
    after: InlineConverter,
)
    requires
        before.src_rate() != before.dst_rate(),
        before.turns(&arithmetic, mono, out, &after),
    ensures
        exists|phases: Seq<Phase>, places: Seq<Position>|
            {
                let stream = seq![before.last_sample()] + mono;
                &&& #[trigger] phases.len() == out.len() + 1
                &&& #[trigger] places.len() == out.len() + 1
                &&& phases[0] == before.phase()
                &&& forall|k: int|
                    0 <= k <= out.len() ==> call_ensures(
                        arithmetic.place,
                        (phases[k],),
                        #[trigger] places[k],
                    )
                &&& forall|j: int, k: int|
                    0 <= j && j + 1 == k && k <= out.len() ==> call_ensures(
                        arithmetic.advance,
                        (#[trigger] phases[j], before.src_rate(), before.dst_rate()),
                        #[trigger] phases[k],
                    )
                &&& forall|k: int|
                    0 <= k < out.len() ==> places[k].0 < mono.len() && call_ensures(
                        arithmetic.lerp,
                        (stream[places[k].0 as int], stream[places[k].0 + 1], places[k].1),
                        #[trigger] out[k],
                    )
                &&& places[out.len() as int].0 >= mono.len()
                &&& call_ensures(
                    arithmetic.rewind,
                    (phases[out.len() as int], mono.len() as usize),
                    after.phase(),
                )
            },
        after.last_sample() == (seq![before.last_sample()] + mono).last(),
        after.src_rate() == before.src_rate(),
        after.dst_rate() == before.dst_rate(),
        after.src_channels() == before.src_channels(),
{
    let (phases, places) = choose|phases: Seq<Phase>, places: Seq<Position>|
        {
            &&& #[trigger] arithmetic.is_walk(
                before.src_rate(),
                before.dst_rate(),
                mono.len(),
                before.phase(),
                phases,
                places,
            )
            &&& arithmetic.interpolates(before.last_sample(), mono, places.drop_last(), out)
            &&& call_ensures(arithmetic.rewind, (phases.last(), mono.len() as usize), after.phase())
        };
    let stream = seq![before.last_sample()] + mono;
    assert(phases.len() == out.len() + 1);
    assert(places.len() == out.len() + 1);
    assert forall|k: int| 0 <= k < out.len() implies places[k].0 < mono.len() && call_ensures(
        arithmetic.lerp,
        (stream[places[k].0 as int], stream[places[k].0 + 1], places[k].1),
        #[trigger] out[k],
    ) by {
        assert(places.drop_last()[k] == places[k]);
        assert(places[k].0 < mono.len());
        assert(left_tap(before.last_sample(), mono, places[k].0 as int) == stream[places[k].0 as int]);
        assert(mono[places[k].0 as int] == stream[places[k].0 + 1]);
    }
}

/// Between equal rates a mono block becomes itself, and only the stream's last sample moves on.
pub proof fn law_equal_rates_change_nothing<
    M: Fn(&[Sample]) -> Sample,
    P: Fn(Phase) -> Position,
    A: Fn(Phase, u32, u32) -> Phase,
    R: Fn(Phase, usize) -> Phase,
    L: Fn(Sample, Sample, u64) -> Sample,
>(
    before: InlineConverter,
    arithmetic: Arithmetic<M, P, A, R, L>,
    mono: Seq<Sample>,
    out: Seq<Sample>,
    after: InlineConverter,
)
    requires
        before.src_rate() == before.dst_rate(),
        before.turns(&arithmetic, mono, out, &after),
    ensures
        out == mono,
        after.last_sample() == (seq![before.last_sample()] + mono).last(),
        after.phase() == before.phase(),
        after.src_rate() == before.src_rate(),
        after.dst_rate() == before.dst_rate(),
        after.src_channels() == before.src_channels(),
{
}

/// A block is converted by mixing it down and resampling what comes of that.
pub proof fn law_a_block_is_mixed_then_resampled<
    M: Fn(&[Sample]) -> Sample,
    P: Fn(Phase) -> Position,
    A: Fn(Phase, u32, u32) -> Phase,
    R: Fn(Phase, usize) -> Phase,
    L: Fn(Sample, Sample, u64) -> Sample,
>(
    before: InlineConverter,
    arithmetic: Arithmetic<M, P, A, R, L>,
    interleaved: Seq<Sample>,
    frames: nat,
    out: Seq<Sample>,
    after: InlineConverter,
)
    requires
        before.converts(&arithmetic, interleaved, frames, out, &after),
    ensures
        exists|mono: Seq<Sample>|
            mono.len() == frames && is_downmix(
                interleaved,
                before.src_channels() as nat,
                frames,
                arithmetic.mix,
                mono,
            ) && #[trigger] before.turns(&arithmetic, mono, out, &after),
{
}

} // verus!
