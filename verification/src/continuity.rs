//! What holds of a whole stream that is converted block by block: how it is cut into blocks
//! makes no difference, and how many samples come of it.
//!
//! Rounding in floating-point arithmetic can spoil both. They hold where the arithmetic is exact
//! on the phases that a stream comes by, which it is between rates whose ratio is a short binary
//! fraction.

use crate::convert::{
    group, is_downmix, last_of, left_tap, mixes_to, Arithmetic, InlineConverter, Phase, Position,
};
use crate::format::Sample;
use vstd::arithmetic::div_mod::{
    lemma_fundamental_div_mod, lemma_fundamental_div_mod_converse, lemma_hoist_over_denominator,
    lemma_mod_multiples_vanish,
};
use vstd::prelude::*;

verus! {

/// The arithmetic is exact between these rates, in blocks of up to `limit` samples. `num` counts
/// a phase in units of one sample over the destination rate, so that one step is as many units
/// as the source rate; a phase that `num` gives less than zero is none that a stream comes by.
/// `weight` is the fraction that a rest of units stands for.
pub open spec fn counts_by<
    M: Fn(&[Sample]) -> Sample,
    P: Fn(Phase) -> Position,
    A: Fn(Phase, u32, u32) -> Phase,
    R: Fn(Phase, usize) -> Phase,
    L: Fn(Sample, Sample, u64) -> Sample,
>(
    arithmetic: &Arithmetic<M, P, A, R, L>,
    src_rate: u32,
    dst_rate: u32,
    limit: usize,
    num: spec_fn(Phase) -> int,
    weight: spec_fn(int) -> u64,
) -> bool {
    &&& dst_rate > 0
    &&& num(0) == 0
    &&& forall|p: Phase, at: Position|
        num(p) >= 0 && #[trigger] call_ensures(arithmetic.place, (p,), at) ==> at.0 == num(p)
            / (dst_rate as int) && at.1 == weight(num(p) % (dst_rate as int))
    &&& forall|p: Phase, q: Phase|
        0 <= num(p) < limit * dst_rate && #[trigger] call_ensures(
            arithmetic.advance,
            (p, src_rate, dst_rate),
            q,
        ) ==> num(q) == num(p) + src_rate
    &&& forall|p: Phase, n: usize, q: Phase|
        n <= limit && num(p) >= n * dst_rate && #[trigger] call_ensures(
            arithmetic.rewind,
            (p, n),
            q,
        ) ==> num(q) == num(p) - n * dst_rate
}

/// The same samples always mix and interpolate to the same sample.
pub open spec fn is_deterministic<
    M: Fn(&[Sample]) -> Sample,
    P: Fn(Phase) -> Position,
    A: Fn(Phase, u32, u32) -> Phase,
    R: Fn(Phase, usize) -> Phase,
    L: Fn(Sample, Sample, u64) -> Sample,
>(arithmetic: &Arithmetic<M, P, A, R, L>) -> bool {
    &&& forall|s: Seq<Sample>, x: Sample, y: Sample| #[trigger]
        mixes_to(arithmetic.mix, s, x) && #[trigger] mixes_to(arithmetic.mix, s, y) ==> x == y
    &&& forall|a: Sample, b: Sample, w: u64, x: Sample, y: Sample| #[trigger]
        call_ensures(arithmetic.lerp, (a, b, w), x) && #[trigger] call_ensures(
            arithmetic.lerp,
            (a, b, w),
            y,
        ) ==> x == y
}

/// The two converters will convert what is to come in the same way.
pub open spec fn same_state(a: &InlineConverter, b: &InlineConverter) -> bool {
    &&& a.same_formats(b)
    &&& a.last_sample() == b.last_sample()
    &&& a.phase() == b.phase()
}

/// `m` steps of `step` from `start` are the fewest that reach `end`.
pub open spec fn fewest_steps(m: int, start: int, step: int, end: int) -> bool {
    &&& start + m * step >= end
    &&& m > 0 ==> start + (m - 1) * step < end
}

proof fn lemma_fewest_steps_are_unique(m1: int, m2: int, start: int, step: int, end: int)
    requires
        m1 >= 0,
        m2 >= 0,
        step >= 0,
        fewest_steps(m1, start, step, end),
        fewest_steps(m2, start, step, end),
    ensures
        m1 == m2,
{
    if m1 < m2 {
        assert(m1 * step <= (m2 - 1) * step) by (nonlinear_arith)
            requires
                m1 <= m2 - 1,
                step >= 0,
        ;
    } else if m2 < m1 {
        assert(m2 * step <= (m1 - 1) * step) by (nonlinear_arith)
            requires
                m2 <= m1 - 1,
                step >= 0,
        ;
    }
}

/// A whole part below `n` is a number below `n` wholes.
proof fn lemma_below(x: int, d: int, n: int)
    requires
        d > 0,
    ensures
        x / d < n <==> x < n * d,
{
    lemma_fundamental_div_mod(x, d);
    if x / d < n {
        assert(d * (x / d) <= d * (n - 1)) by (nonlinear_arith)
            requires
                x / d <= n - 1,
                d > 0,
        ;
        assert(d * (n - 1) == n * d - d) by (nonlinear_arith);
    } else {
        assert(d * (x / d) >= n * d) by (nonlinear_arith)
            requires
                x / d >= n,
                d > 0,
        ;
    }
}

/// The phase `p` is `k` steps behind `start` units, and falls at `at`.
pub open spec fn falls(
    src_rate: u32,
    dst_rate: u32,
    num: spec_fn(Phase) -> int,
    weight: spec_fn(int) -> u64,
    start: int,
    p: Phase,
    at: Position,
    k: int,
) -> bool {
    &&& num(p) == start + k * src_rate
    &&& num(p) >= 0
    &&& at.0 == num(p) / (dst_rate as int)
    &&& at.1 == weight(num(p) % (dst_rate as int))
}

/// Where an exact walk comes by: its phases are evenly spaced.
proof fn lemma_walk<
    M: Fn(&[Sample]) -> Sample,
    P: Fn(Phase) -> Position,
    A: Fn(Phase, u32, u32) -> Phase,
    R: Fn(Phase, usize) -> Phase,
    L: Fn(Sample, Sample, u64) -> Sample,
>(
    arithmetic: &Arithmetic<M, P, A, R, L>,
    src_rate: u32,
    dst_rate: u32,
    limit: usize,
    num: spec_fn(Phase) -> int,
    weight: spec_fn(int) -> u64,
    frames: nat,
    start: Phase,
    phases: Seq<Phase>,
    places: Seq<Position>,
    k: int,
)
    requires
        counts_by(arithmetic, src_rate, dst_rate, limit, num, weight),
        frames <= limit,
        num(start) >= 0,
        arithmetic.is_walk(src_rate, dst_rate, frames, start, phases, places),
        0 <= k < phases.len(),
    ensures
        falls(src_rate, dst_rate, num, weight, num(start), phases[k], places[k], k),
    decreases k,
{
    if k == 0 {
        assert(call_ensures(arithmetic.place, (phases[0],), places[0]));
    } else {
        lemma_walk(
            arithmetic,
            src_rate,
            dst_rate,
            limit,
            num,
            weight,
            frames,
            start,
            phases,
            places,
            k - 1,
        );
        assert(places[k - 1].0 < frames);
        lemma_below(num(phases[k - 1]), dst_rate as int, frames as int);
        assert(frames * dst_rate <= limit * dst_rate) by (nonlinear_arith)
            requires
                frames <= limit,
        ;
        assert(call_ensures(arithmetic.advance, (phases[k - 1], src_rate, dst_rate), phases[k]));
        assert((k - 1) * src_rate + src_rate == k * src_rate) by (nonlinear_arith);
        assert(0 <= k * src_rate) by (nonlinear_arith)
            requires
                k >= 0,
        ;
        assert(call_ensures(arithmetic.place, (phases[k],), places[k]));
    }
}

/// The output sample that falls at `at` units of a block is what `lerp` makes of the two
/// neighbours there.
pub open spec fn interpolated<
    M: Fn(&[Sample]) -> Sample,
    P: Fn(Phase) -> Position,
    A: Fn(Phase, u32, u32) -> Phase,
    R: Fn(Phase, usize) -> Phase,
    L: Fn(Sample, Sample, u64) -> Sample,
>(
    arithmetic: &Arithmetic<M, P, A, R, L>,
    dst_rate: u32,
    weight: spec_fn(int) -> u64,
    last: Sample,
    mono: Seq<Sample>,
    at: int,
    out: Sample,
) -> bool {
    let idx = at / (dst_rate as int);
    &&& 0 <= idx < mono.len()
    &&& call_ensures(
        arithmetic.lerp,
        (left_tap(last, mono, idx), mono[idx], weight(at % (dst_rate as int))),
        out,
    )
}

/// What an exact resampling of one block comes to.
proof fn lemma_resampling<
    M: Fn(&[Sample]) -> Sample,
    P: Fn(Phase) -> Position,
    A: Fn(Phase, u32, u32) -> Phase,
    R: Fn(Phase, usize) -> Phase,
    L: Fn(Sample, Sample, u64) -> Sample,
>(
    arithmetic: &Arithmetic<M, P, A, R, L>,
    src_rate: u32,
    dst_rate: u32,
    limit: usize,
    num: spec_fn(Phase) -> int,
    weight: spec_fn(int) -> u64,
    last: Sample,
    mono: Seq<Sample>,
    start: Phase,
    out: Seq<Sample>,
    end: Phase,
)
    requires
        counts_by(arithmetic, src_rate, dst_rate, limit, num, weight),
        mono.len() <= limit,
        num(start) >= 0,
        arithmetic.is_resampling(src_rate, dst_rate, last, mono, start, out, end),
    ensures
        fewest_steps(out.len() as int, num(start), src_rate as int, mono.len() * dst_rate),
        num(end) == num(start) + out.len() * src_rate - mono.len() * dst_rate,
        num(end) >= 0,
        forall|k: int|
            0 <= k < out.len() ==> interpolated(
                arithmetic,
                dst_rate,
                weight,
                last,
                mono,
                num(start) + k * src_rate,
                #[trigger] out[k],
            ),
{
    let (phases, places) = choose|phases: Seq<Phase>, places: Seq<Position>|
        {
            &&& #[trigger] arithmetic.is_walk(
                src_rate,
                dst_rate,
                mono.len(),
                start,
                phases,
                places,
            )
            &&& arithmetic.interpolates(last, mono, places.drop_last(), out)
            &&& call_ensures(arithmetic.rewind, (phases.last(), mono.len() as usize), end)
        };
    let m = phases.len() - 1;
    assert(out.len() == m);
    assert forall|k: int| 0 <= k < phases.len() implies falls(
        src_rate,
        dst_rate,
        num,
        weight,
        num(start),
        #[trigger] phases[k],
        places[k],
        k,
    ) by {
        lemma_walk(
            arithmetic,
            src_rate,
            dst_rate,
            limit,
            num,
            weight,
            mono.len(),
            start,
            phases,
            places,
            k,
        );
    }
    assert(places.last() == places[m]);
    assert(phases.last() == phases[m]);
    assert(falls(src_rate, dst_rate, num, weight, num(start), phases[m], places[m], m));
    lemma_below(num(phases[m]), dst_rate as int, mono.len() as int);
    if m > 0 {
        assert(falls(
            src_rate,
            dst_rate,
            num,
            weight,
            num(start),
            phases[m - 1],
            places[m - 1],
            m - 1,
        ));
        assert(places[m - 1].0 < mono.len());
        lemma_below(num(phases[m - 1]), dst_rate as int, mono.len() as int);
    }
    assert(mono.len() as usize == mono.len());
    assert forall|k: int| 0 <= k < out.len() implies interpolated(
        arithmetic,
        dst_rate,
        weight,
        last,
        mono,
        num(start) + k * src_rate,
        #[trigger] out[k],
    ) by {
        assert(falls(src_rate, dst_rate, num, weight, num(start), phases[k], places[k], k));
        assert(places.drop_last()[k] == places[k]);
        assert(places[k].0 < mono.len());
    }
}

/// Downmixing two blocks one after the other is downmixing them as one.
proof fn lemma_downmix<
    M: Fn(&[Sample]) -> Sample,
    P: Fn(Phase) -> Position,
    A: Fn(Phase, u32, u32) -> Phase,
    R: Fn(Phase, usize) -> Phase,
    L: Fn(Sample, Sample, u64) -> Sample,
>(
    arithmetic: &Arithmetic<M, P, A, R, L>,
    channels: nat,
    first: Seq<Sample>,
    n: nat,
    mono1: Seq<Sample>,
    second: Seq<Sample>,
    m: nat,
    mono2: Seq<Sample>,
    mono: Seq<Sample>,
)
    requires
        is_deterministic(arithmetic),
        first.len() == n * channels,
        second.len() == m * channels,
        mono1.len() == n,
        mono2.len() == m,
        mono.len() == n + m,
        is_downmix(first, channels, n, arithmetic.mix, mono1),
        is_downmix(second, channels, m, arithmetic.mix, mono2),
        is_downmix(first + second, channels, n + m, arithmetic.mix, mono),
    ensures
        mono == mono1 + mono2,
{
    if channels == 1 {
        assert(mono == mono1 + mono2);
    } else {
        assert forall|f: int| 0 <= f < mono.len() implies #[trigger] mono[f] == (mono1 + mono2)[f] by {
            let whole = group(first + second, channels, f);
            assert(mixes_to(arithmetic.mix, whole, mono[f]));
            if f < n {
                assert(f * channels + channels <= n * channels) by (nonlinear_arith)
                    requires
                        f + 1 <= n,
                ;
                assert(0 <= f * channels) by (nonlinear_arith)
                    requires
                        0 <= f,
                ;
                assert(whole == group(first, channels, f));
                assert(mixes_to(arithmetic.mix, group(first, channels, f), mono1[f]));
            } else {
                let g = f - n;
                assert(g * channels + channels <= m * channels) by (nonlinear_arith)
                    requires
                        g + 1 <= m,
                ;
                assert(0 <= g * channels) by (nonlinear_arith)
                    requires
                        0 <= g,
                ;
                assert(f * channels == n * channels + g * channels) by (nonlinear_arith)
                    requires
                        f == n + g,
                ;
                assert(whole == group(second, channels, g));
                assert(mixes_to(arithmetic.mix, group(second, channels, g), mono2[g]));
            }
        }
        assert(mono == mono1 + mono2);
    }
}

/// Resampling two mono blocks one after the other is resampling them as one.
proof fn lemma_turns<
    M: Fn(&[Sample]) -> Sample,
    P: Fn(Phase) -> Position,
    A: Fn(Phase, u32, u32) -> Phase,
    R: Fn(Phase, usize) -> Phase,
    L: Fn(Sample, Sample, u64) -> Sample,
>(
    arithmetic: &Arithmetic<M, P, A, R, L>,
    limit: usize,
    num: spec_fn(Phase) -> int,
    weight: spec_fn(int) -> u64,
    begin: &InlineConverter,
    first: Seq<Sample>,
    out1: Seq<Sample>,
    mid: &InlineConverter,
    second: Seq<Sample>,
    out2: Seq<Sample>,
    end: &InlineConverter,
    begin_whole: &InlineConverter,
    out: Seq<Sample>,
    end_whole: &InlineConverter,
)
    requires
        is_deterministic(arithmetic),
        !begin.same_rate(),
        counts_by(arithmetic, begin.src_rate(), begin.dst_rate(), limit, num, weight),
        first.len() + second.len() <= limit,
        num(begin.phase()) >= 0,
        same_state(begin, begin_whole),
        begin.turns(arithmetic, first, out1, mid),
        mid.turns(arithmetic, second, out2, end),
        begin_whole.turns(arithmetic, first + second, out, end_whole),
    ensures
        out == out1 + out2,
        num(end_whole.phase()) == num(end.phase()),
        num(end.phase()) >= 0,
{
    let src = begin.src_rate();
    let dst = begin.dst_rate();
    let last = begin.last_sample();
    let s = num(begin.phase());
    let n = first.len();
    let m = second.len();
    let m1 = out1.len();
    let m2 = out2.len();
    lemma_resampling(
        arithmetic,
        src,
        dst,
        limit,
        num,
        weight,
        last,
        first,
        begin.phase(),
        out1,
        mid.phase(),
    );
    lemma_resampling(
        arithmetic,
        src,
        dst,
        limit,
        num,
        weight,
        mid.last_sample(),
        second,
        mid.phase(),
        out2,
        end.phase(),
    );
    lemma_resampling(
        arithmetic,
        src,
        dst,
        limit,
        num,
        weight,
        last,
        first + second,
        begin.phase(),
        out,
        end_whole.phase(),
    );
    let t = num(mid.phase());
    assert(t == s + m1 * src - n * dst);
    assert((n + m) * dst == n * dst + m * dst) by (nonlinear_arith);
    assert((m1 + m2) * src == m1 * src + m2 * src) by (nonlinear_arith);
    assert((m1 + m2 - 1) * src == m1 * src + (m2 - 1) * src) by (nonlinear_arith);
    if m2 == 0 && m1 > 0 {
        assert(m * dst >= 0) by (nonlinear_arith)
            requires
                m >= 0,
                dst >= 0,
        ;
    }
    assert(fewest_steps((m1 + m2) as int, s, src as int, (n + m) * dst));
    lemma_fewest_steps_are_unique(
        out.len() as int,
        (m1 + m2) as int,
        s,
        src as int,
        (n + m) * dst,
    );
    assert forall|k: int| 0 <= k < out.len() implies #[trigger] out[k] == (out1 + out2)[k] by {
        let at = s + k * src;
        assert(interpolated(arithmetic, dst, weight, last, first + second, at, out[k]));
        if k < m1 {
            assert(interpolated(arithmetic, dst, weight, last, first, at, out1[k]));
            let idx = at / (dst as int);
            assert(0 <= idx < n);
            assert(left_tap(last, first, idx) == left_tap(last, first + second, idx));
            assert(first[idx] == (first + second)[idx]);
        } else {
            let j = k - m1;
            let at2 = t + j * src;
            assert(k * src == m1 * src + j * src) by (nonlinear_arith)
                requires
                    k == m1 + j,
            ;
            assert(at == at2 + n * dst);
            assert(interpolated(
                arithmetic,
                dst,
                weight,
                mid.last_sample(),
                second,
                at2,
                out2[j],
            ));
            lemma_hoist_over_denominator(at2, n as int, dst as nat);
            lemma_mod_multiples_vanish(n as int, at2, dst as int);
            assert(dst * n + at2 == at) by (nonlinear_arith)
                requires
                    at == at2 + n * dst,
            ;
            let idx = at2 / (dst as int);
            assert(at / (dst as int) == idx + n);
            assert(at % (dst as int) == at2 % (dst as int));
            assert(0 <= idx < m);
            assert(left_tap(mid.last_sample(), second, idx) == left_tap(
                last,
                first + second,
                idx + n,
            ));
            assert(second[idx] == (first + second)[idx + n]);
        }
    }
    assert(out == out1 + out2);
    assert(num(end.phase()) == t + m2 * src - m * dst);
}

/// How a stream is cut into buffers makes no difference: two blocks converted one after the
/// other give, one after the other, what both give as one, and leave the converter where both
/// as one leave it. The arithmetic is exact; at equal rates nothing is asked of it but that the
/// same samples mix to the same sample.
pub proof fn law_cut_makes_no_difference<
    M: Fn(&[Sample]) -> Sample,
    P: Fn(Phase) -> Position,
    A: Fn(Phase, u32, u32) -> Phase,
    R: Fn(Phase, usize) -> Phase,
    L: Fn(Sample, Sample, u64) -> Sample,
>(
    arithmetic: &Arithmetic<M, P, A, R, L>,
    limit: usize,
    num: spec_fn(Phase) -> int,
    weight: spec_fn(int) -> u64,
    begin: &InlineConverter,
    first: Seq<Sample>,
    n: nat,
    out1: Seq<Sample>,
    mid: &InlineConverter,
    second: Seq<Sample>,
    m: nat,
    out2: Seq<Sample>,
    end: &InlineConverter,
    begin_whole: &InlineConverter,
    out: Seq<Sample>,
    end_whole: &InlineConverter,
)
    requires
        is_deterministic(arithmetic),
        begin.same_rate() || {
            &&& counts_by(arithmetic, begin.src_rate(), begin.dst_rate(), limit, num, weight)
            &&& n + m <= limit
            &&& num(begin.phase()) >= 0
        },
        first.len() == n * begin.src_channels(),
        second.len() == m * begin.src_channels(),
        same_state(begin, begin_whole),
        begin.converts(arithmetic, first, n, out1, mid),
        mid.converts(arithmetic, second, m, out2, end),
        begin_whole.converts(arithmetic, first + second, n + m, out, end_whole),
    ensures
        out == out1 + out2,
        end_whole.same_formats(end),
        end_whole.last_sample() == end.last_sample(),
        if begin.same_rate() {
            end_whole.phase() == end.phase()
        } else {
            num(end_whole.phase()) == num(end.phase()) && num(end.phase()) >= 0
        },
{
    let channels = begin.src_channels() as nat;
    let mono1 = choose|mono: Seq<Sample>|
        {
            &&& mono.len() == n
            &&& is_downmix(first, channels, n, arithmetic.mix, mono)
            &&& #[trigger] begin.turns(arithmetic, mono, out1, mid)
        };
    let mono2 = choose|mono: Seq<Sample>|
        {
            &&& mono.len() == m
            &&& is_downmix(second, channels, m, arithmetic.mix, mono)
            &&& #[trigger] mid.turns(arithmetic, mono, out2, end)
        };
    let mono = choose|mono: Seq<Sample>|
        {
            &&& mono.len() == n + m
            &&& is_downmix(first + second, channels, n + m, arithmetic.mix, mono)
            &&& #[trigger] begin_whole.turns(arithmetic, mono, out, end_whole)
        };
    lemma_downmix(arithmetic, channels, first, n, mono1, second, m, mono2, mono);
    assert(last_of(last_of(begin.last_sample(), mono1), mono2) == last_of(
        begin.last_sample(),
        mono1 + mono2,
    ));
    if !begin.same_rate() {
        lemma_turns(
            arithmetic,
            limit,
            num,
            weight,
            begin,
            mono1,
            out1,
            mid,
            mono2,
            out2,
            end,
            begin_whole,
            out,
            end_whole,
        );
    }
}

/// A block of no samples gives none, and leaves the converter where it was.
pub proof fn law_empty_block_leaves_no_trace<
    M: Fn(&[Sample]) -> Sample,
    P: Fn(Phase) -> Position,
    A: Fn(Phase, u32, u32) -> Phase,
    R: Fn(Phase, usize) -> Phase,
    L: Fn(Sample, Sample, u64) -> Sample,
>(
    arithmetic: &Arithmetic<M, P, A, R, L>,
    limit: usize,
    num: spec_fn(Phase) -> int,
    weight: spec_fn(int) -> u64,
    before: &InlineConverter,
    interleaved: Seq<Sample>,
    out: Seq<Sample>,
    after: &InlineConverter,
)
    requires
        before.same_rate() || {
            &&& counts_by(arithmetic, before.src_rate(), before.dst_rate(), limit, num, weight)
            &&& num(before.phase()) >= 0
        },
        before.converts(arithmetic, interleaved, 0, out, after),
    ensures
        out == Seq::<Sample>::empty(),
        after.same_formats(before),
        after.last_sample() == before.last_sample(),
        if before.same_rate() {
            after.phase() == before.phase()
        } else {
            num(after.phase()) == num(before.phase())
        },
{
    let mono = choose|mono: Seq<Sample>|
        {
            &&& mono.len() == 0
            &&& is_downmix(
                interleaved,
                before.src_channels() as nat,
                0,
                arithmetic.mix,
                mono,
            )
            &&& #[trigger] before.turns(arithmetic, mono, out, after)
        };
    if before.same_rate() {
        assert(out == Seq::<Sample>::empty());
    } else {
        let s = num(before.phase());
        lemma_resampling(
            arithmetic,
            before.src_rate(),
            before.dst_rate(),
            limit,
            num,
            weight,
            before.last_sample(),
            mono,
            before.phase(),
            out,
            after.phase(),
        );
        assert(fewest_steps(0, s, before.src_rate() as int, 0));
        lemma_fewest_steps_are_unique(
            out.len() as int,
            0,
            s,
            before.src_rate() as int,
            mono.len() * before.dst_rate(),
        );
        assert(out == Seq::<Sample>::empty());
    }
}

/// A run of a converter over a stream from its very start: each block in turn, with its number
/// of time steps and what it became. `states` holds the converter before and after every block.
pub open spec fn is_stream_run<
    M: Fn(&[Sample]) -> Sample,
    P: Fn(Phase) -> Position,
    A: Fn(Phase, u32, u32) -> Phase,
    R: Fn(Phase, usize) -> Phase,
    L: Fn(Sample, Sample, u64) -> Sample,
>(
    arithmetic: &Arithmetic<M, P, A, R, L>,
    states: Seq<InlineConverter>,
    blocks: Seq<Seq<Sample>>,
    frames: Seq<nat>,
    outs: Seq<Seq<Sample>>,
) -> bool {
    &&& states.len() == outs.len() + 1
    &&& blocks.len() == outs.len()
    &&& frames.len() == outs.len()
    &&& states[0].phase() == 0
    &&& forall|i: int|
        0 <= i < outs.len() ==> states[i].converts(
            arithmetic,
            blocks[i],
            frames[i],
            #[trigger] outs[i],
            &states[i + 1],
        )
}

/// The sum of the numbers.
pub open spec fn total(numbers: Seq<nat>) -> nat
    decreases numbers.len(),
{
    if numbers.len() == 0 {
        0
    } else {
        total(numbers.drop_last()) + numbers.last()
    }
}

/// How many samples the blocks hold together.
pub open spec fn samples_in(outs: Seq<Seq<Sample>>) -> nat {
    total(outs.map_values(|out: Seq<Sample>| out.len()))
}

/// After a run as many samples have come out as are needed to reach its end.
proof fn lemma_stream_run<
    M: Fn(&[Sample]) -> Sample,
    P: Fn(Phase) -> Position,
    A: Fn(Phase, u32, u32) -> Phase,
    R: Fn(Phase, usize) -> Phase,
    L: Fn(Sample, Sample, u64) -> Sample,
>(
    arithmetic: &Arithmetic<M, P, A, R, L>,
    limit: usize,
    num: spec_fn(Phase) -> int,
    weight: spec_fn(int) -> u64,
    states: Seq<InlineConverter>,
    blocks: Seq<Seq<Sample>>,
    frames: Seq<nat>,
    outs: Seq<Seq<Sample>>,
)
    requires
        is_stream_run(arithmetic, states, blocks, frames, outs),
        states[0].same_rate() || {
            &&& counts_by(
                arithmetic,
                states[0].src_rate(),
                states[0].dst_rate(),
                limit,
                num,
                weight,
            )
            &&& forall|i: int| 0 <= i < frames.len() ==> #[trigger] frames[i] <= limit
        },
    ensures
        states.last().same_formats(&states[0]),
        if states[0].same_rate() {
            samples_in(outs) == total(frames)
        } else {
            &&& num(states.last().phase()) == samples_in(outs) * states[0].src_rate() - total(
                frames,
            ) * states[0].dst_rate()
            &&& num(states.last().phase()) >= 0
            &&& fewest_steps(
                samples_in(outs) as int,
                0,
                states[0].src_rate() as int,
                total(frames) * states[0].dst_rate(),
            )
        },
    decreases outs.len(),
{
    let lens = outs.map_values(|out: Seq<Sample>| out.len());
    if outs.len() == 0 {
        assert(total(frames) == 0);
        assert(samples_in(outs) == 0);
    } else {
        let c = outs.len() - 1;
        let f0 = frames.drop_last();
        let o0 = outs.drop_last();
        let s0 = states.drop_last();
        let b0 = blocks.drop_last();
        assert forall|i: int| 0 <= i < o0.len() implies s0[i].converts(
            arithmetic,
            b0[i],
            f0[i],
            #[trigger] o0[i],
            &s0[i + 1],
        ) by {
            assert(o0[i] == outs[i]);
        }
        if !states[0].same_rate() {
            assert forall|i: int| 0 <= i < f0.len() implies #[trigger] f0[i] <= limit by {
                assert(f0[i] == frames[i]);
            }
        }
        lemma_stream_run(arithmetic, limit, num, weight, s0, b0, f0, o0);
        assert(lens.drop_last() == o0.map_values(|out: Seq<Sample>| out.len()));
        assert(lens.last() == outs.last().len());
        let before = states[c];
        let after = states[c + 1];
        let out = outs[c];
        assert(s0.last() == before);
        assert(before.converts(arithmetic, blocks[c], frames[c], out, &after));
        let mono = choose|mono: Seq<Sample>|
            {
                &&& mono.len() == frames[c]
                &&& is_downmix(
                    blocks[c],
                    before.src_channels() as nat,
                    frames[c],
                    arithmetic.mix,
                    mono,
                )
                &&& #[trigger] before.turns(arithmetic, mono, out, &after)
            };
        let big_n = samples_in(o0);
        let big_t = total(f0);
        assert(samples_in(outs) == big_n + out.len());
        assert(total(frames) == big_t + frames[c]);
        if !states[0].same_rate() {
            let src = states[0].src_rate();
            let dst = states[0].dst_rate();
            assert(frames[c] <= limit);
            lemma_resampling(
                arithmetic,
                src,
                dst,
                limit,
                num,
                weight,
                before.last_sample(),
                mono,
                before.phase(),
                out,
                after.phase(),
            );
            let m = out.len();
            assert((big_n + m) * src == big_n * src + m * src) by (nonlinear_arith);
            assert((big_n + m - 1) * src == big_n * src + (m - 1) * src) by (nonlinear_arith);
            assert((big_t + frames[c]) * dst == big_t * dst + frames[c] * dst) by (nonlinear_arith);
            assert(0 <= frames[c] * dst) by (nonlinear_arith)
                requires
                    0 <= frames[c],
                    0 <= dst,
            ;
        }
    }
}

/// How many samples come of a stream: for every so many source samples exactly as many as the
/// ratio of the rates asks for, rounded up; at equal rates one for each.
pub proof fn law_number_of_samples<
    M: Fn(&[Sample]) -> Sample,
    P: Fn(Phase) -> Position,
    A: Fn(Phase, u32, u32) -> Phase,
    R: Fn(Phase, usize) -> Phase,
    L: Fn(Sample, Sample, u64) -> Sample,
>(
    arithmetic: &Arithmetic<M, P, A, R, L>,
    limit: usize,
    num: spec_fn(Phase) -> int,
    weight: spec_fn(int) -> u64,
    states: Seq<InlineConverter>,
    blocks: Seq<Seq<Sample>>,
    frames: Seq<nat>,
    outs: Seq<Seq<Sample>>,
)
    requires
        is_stream_run(arithmetic, states, blocks, frames, outs),
        states[0].src_rate() > 0,
        states[0].same_rate() || {
            &&& counts_by(
                arithmetic,
                states[0].src_rate(),
                states[0].dst_rate(),
                limit,
                num,
                weight,
            )
            &&& forall|i: int| 0 <= i < frames.len() ==> #[trigger] frames[i] <= limit
        },
    ensures
        samples_in(outs) == (total(frames) * states[0].dst_rate() + states[0].src_rate() - 1)
            / states[0].src_rate() as int,
        states[0].same_rate() ==> samples_in(outs) == total(frames),
{
    lemma_stream_run(arithmetic, limit, num, weight, states, blocks, frames, outs);
    let src = states[0].src_rate() as int;
    let end = total(frames) * states[0].dst_rate();
    let n = samples_in(outs) as int;
    if states[0].same_rate() {
        assert((n - 1) * src == n * src - src) by (nonlinear_arith);
        assert(fewest_steps(n, 0, src, end));
    }
    if n > 0 {
        assert((n - 1) * src == n * src - src) by (nonlinear_arith);
    } else {
        let frames_in = total(frames);
        let dst = states[0].dst_rate();
        assert(frames_in * dst >= 0) by (nonlinear_arith);
        assert(n * src == 0) by (nonlinear_arith)
            requires
                n == 0,
        ;
    }
    let r = end + src - 1 - n * src;
    lemma_fundamental_div_mod_converse(end + src - 1, src, n, r);
}

/// A run of a converter over the mono blocks of a stream, from its very start: `states` holds the
/// converter before and after every block.
pub open spec fn is_mono_run<
    M: Fn(&[Sample]) -> Sample,
    P: Fn(Phase) -> Position,
    A: Fn(Phase, u32, u32) -> Phase,
    R: Fn(Phase, usize) -> Phase,
    L: Fn(Sample, Sample, u64) -> Sample,
>(
    arithmetic: &Arithmetic<M, P, A, R, L>,
    states: Seq<InlineConverter>,
    monos: Seq<Seq<Sample>>,
    outs: Seq<Seq<Sample>>,
) -> bool {
    &&& states.len() == outs.len() + 1
    &&& monos.len() == outs.len()
    &&& states[0].phase() == 0
    &&& states[0].last_sample() == 0
    &&& forall|i: int|
        0 <= i < outs.len() ==> states[i].turns(
            arithmetic,
            monos[i],
            #[trigger] outs[i],
            &states[i + 1],
        )
}

/// The output that falls at `at` units of the whole stream lies between the two samples there.
spec fn lies_between<
    M: Fn(&[Sample]) -> Sample,
    P: Fn(Phase) -> Position,
    A: Fn(Phase, u32, u32) -> Phase,
    R: Fn(Phase, usize) -> Phase,
    L: Fn(Sample, Sample, u64) -> Sample,
>(
    arithmetic: &Arithmetic<M, P, A, R, L>,
    dst_rate: u32,
    weight: spec_fn(int) -> u64,
    stream: Seq<Sample>,
    at: int,
    out: Sample,
) -> bool {
    let p = at / (dst_rate as int);
    &&& 0 <= p
    &&& p + 1 < stream.len()
    &&& call_ensures(arithmetic.lerp, (stream[p], stream[p + 1], weight(at % (dst_rate as int))), out)
}

proof fn lemma_mono_run<
    M: Fn(&[Sample]) -> Sample,
    P: Fn(Phase) -> Position,
    A: Fn(Phase, u32, u32) -> Phase,
    R: Fn(Phase, usize) -> Phase,
    L: Fn(Sample, Sample, u64) -> Sample,
>(
    arithmetic: &Arithmetic<M, P, A, R, L>,
    limit: usize,
    num: spec_fn(Phase) -> int,
    weight: spec_fn(int) -> u64,
    states: Seq<InlineConverter>,
    monos: Seq<Seq<Sample>>,
    outs: Seq<Seq<Sample>>,
)
    requires
        is_mono_run(arithmetic, states, monos, outs),
        !states[0].same_rate(),
        counts_by(arithmetic, states[0].src_rate(), states[0].dst_rate(), limit, num, weight),
        forall|i: int| 0 <= i < monos.len() ==> (#[trigger] monos[i]).len() <= limit,
    ensures
        states.last().same_formats(&states[0]),
        states.last().last_sample() == (seq![0u32] + monos.flatten_alt()).last(),
        num(states.last().phase()) == outs.flatten_alt().len() * states[0].src_rate()
            - monos.flatten_alt().len() * states[0].dst_rate(),
        num(states.last().phase()) >= 0,
        forall|k: int|
            0 <= k < outs.flatten_alt().len() ==> lies_between(
                arithmetic,
                states[0].dst_rate(),
                weight,
                seq![0u32] + monos.flatten_alt(),
                k * states[0].src_rate(),
                #[trigger] outs.flatten_alt()[k],
            ),
    decreases outs.len(),
{
    let src = states[0].src_rate();
    let dst = states[0].dst_rate();
    if outs.len() > 0 {
        let c = outs.len() - 1;
        let s0 = states.drop_last();
        let m0 = monos.drop_last();
        let o0 = outs.drop_last();
        assert forall|i: int| 0 <= i < o0.len() implies s0[i].turns(
            arithmetic,
            m0[i],
            #[trigger] o0[i],
            &s0[i + 1],
        ) by {
            assert(o0[i] == outs[i]);
        }
        assert forall|i: int| 0 <= i < m0.len() implies (#[trigger] m0[i]).len() <= limit by {
            assert(m0[i] == monos[i]);
        }
        lemma_mono_run(arithmetic, limit, num, weight, s0, m0, o0);
        let before = states[c];
        let after = states[c + 1];
        let mono = monos[c];
        let out = outs[c];
        assert(s0.last() == before);
        assert(before.turns(arithmetic, mono, out, &after));
        assert(mono.len() <= limit);
        lemma_resampling(
            arithmetic,
            src,
            dst,
            limit,
            num,
            weight,
            before.last_sample(),
            mono,
            before.phase(),
            out,
            after.phase(),
        );
        let old_out = o0.flatten_alt();
        let old_mono = m0.flatten_alt();
        let all_out = outs.flatten_alt();
        let all_mono = monos.flatten_alt();
        assert(all_out == old_out + out);
        assert(all_mono == old_mono + mono);
        let old_stream = seq![0u32] + old_mono;
        let stream = seq![0u32] + all_mono;
        let big_n = old_out.len();
        let big_t = old_mono.len();
        assert((big_n + out.len()) * src == big_n * src + out.len() * src) by (nonlinear_arith);
        assert((big_t + mono.len()) * dst == big_t * dst + mono.len() * dst) by (nonlinear_arith);
        assert(all_out.len() == big_n + out.len());
        assert(all_mono.len() == big_t + mono.len());
        assert(after.last_sample() == last_of(before.last_sample(), mono));
        assert(stream.last() == last_of(old_stream.last(), mono));
        assert forall|k: int| 0 <= k < all_out.len() implies lies_between(
            arithmetic,
            dst,
            weight,
            stream,
            k * src,
            #[trigger] all_out[k],
        ) by {
            if k < big_n {
                assert(all_out[k] == old_out[k]);
                assert(lies_between(arithmetic, dst, weight, old_stream, k * src, old_out[k]));
                let p = (k * src) / (dst as int);
                assert(old_stream[p] == stream[p] && old_stream[p + 1] == stream[p + 1]);
            } else {
                let j = k - big_n;
                let at = num(before.phase()) + j * src;
                assert(all_out[k] == out[j]);
                assert(interpolated(
                    arithmetic,
                    dst,
                    weight,
                    before.last_sample(),
                    mono,
                    at,
                    out[j],
                ));
                assert(k * src == big_n * src + j * src) by (nonlinear_arith)
                    requires
                        k == big_n + j,
                ;
                assert(k * src == at + big_t * dst);
                lemma_hoist_over_denominator(at, big_t as int, dst as nat);
                lemma_mod_multiples_vanish(big_t as int, at, dst as int);
                assert(dst * big_t + at == at + big_t * dst) by (nonlinear_arith);
                let idx = at / (dst as int);
                let p = (k * src) / (dst as int);
                assert(p == idx + big_t);
                assert((k * src) % (dst as int) == at % (dst as int));
                assert(stream[p + 1] == mono[idx]);
                if idx == 0 {
                    assert(stream[p] == old_stream.last());
                } else {
                    assert(stream[p] == mono[idx - 1]);
                }
            }
        }
    } else {
        let n = outs.flatten_alt().len();
        let t = monos.flatten_alt().len();
        assert(n * src == 0) by (nonlinear_arith)
            requires
                n == 0,
        ;
        assert(t * dst == 0) by (nonlinear_arith)
            requires
                t == 0,
        ;
    }
}

/// Every output has its place in the stream, however the stream came in blocks: with silence in
/// front of all samples of the stream, and the arithmetic exact, the `k`-th output of all is what
/// `lerp` makes of the sample at `k` times the source rate over the destination rate, rounded
/// down, and of the one behind it, at the fraction that is left.
pub proof fn law_every_output_has_its_place_in_the_stream<
    M: Fn(&[Sample]) -> Sample,
    P: Fn(Phase) -> Position,
    A: Fn(Phase, u32, u32) -> Phase,
    R: Fn(Phase, usize) -> Phase,
    L: Fn(Sample, Sample, u64) -> Sample,
>(
    arithmetic: &Arithmetic<M, P, A, R, L>,
    limit: usize,
    num: spec_fn(Phase) -> int,
    weight: spec_fn(int) -> u64,
    states: Seq<InlineConverter>,
    monos: Seq<Seq<Sample>>,
    outs: Seq<Seq<Sample>>,
    k: int,
)
    requires
        is_mono_run(arithmetic, states, monos, outs),
        states[0].src_rate() != states[0].dst_rate(),
        counts_by(arithmetic, states[0].src_rate(), states[0].dst_rate(), limit, num, weight),
        forall|i: int| 0 <= i < monos.len() ==> (#[trigger] monos[i]).len() <= limit,
        0 <= k < outs.flatten().len(),
    ensures
        ({
            let stream = seq![0u32] + monos.flatten();
            let units = k * states[0].src_rate();
            let p = units / (states[0].dst_rate() as int);
            &&& 0 <= p
            &&& p + 1 < stream.len()
            &&& call_ensures(
                arithmetic.lerp,
                (stream[p], stream[p + 1], weight(units % (states[0].dst_rate() as int))),
                outs.flatten()[k],
            )
        }),
{
    monos.lemma_flatten_and_flatten_alt_are_equivalent();
    outs.lemma_flatten_and_flatten_alt_are_equivalent();
    lemma_mono_run(arithmetic, limit, num, weight, states, monos, outs);
    assert(lies_between(
        arithmetic,
        states[0].dst_rate(),
        weight,
        seq![0u32] + monos.flatten_alt(),
        k * states[0].src_rate(),
        outs.flatten_alt()[k],
    ));
}

/// Every output is a sample of the stream where interpolation keeps the left neighbour: the one
/// at its place, with all its bits; at twice the rate every second sample of the stream comes
/// out, and at half the rate every sample twice, silence first.
pub proof fn law_samples_of_the_stream_come_out_whole<
    M: Fn(&[Sample]) -> Sample,
    P: Fn(Phase) -> Position,
    A: Fn(Phase, u32, u32) -> Phase,
    R: Fn(Phase, usize) -> Phase,
    L: Fn(Sample, Sample, u64) -> Sample,
>(
    arithmetic: &Arithmetic<M, P, A, R, L>,
    limit: usize,
    num: spec_fn(Phase) -> int,
    weight: spec_fn(int) -> u64,
    states: Seq<InlineConverter>,
    monos: Seq<Seq<Sample>>,
    outs: Seq<Seq<Sample>>,
    k: int,
)
    requires
        is_mono_run(arithmetic, states, monos, outs),
        states[0].src_rate() != states[0].dst_rate(),
        counts_by(arithmetic, states[0].src_rate(), states[0].dst_rate(), limit, num, weight),
        forall|i: int| 0 <= i < monos.len() ==> (#[trigger] monos[i]).len() <= limit,
        forall|a: Sample, b: Sample, w: u64, r: Sample| #[trigger]
            call_ensures(arithmetic.lerp, (a, b, w), r) ==> r == a,
        0 <= k < outs.flatten().len(),
    ensures
        outs.flatten()[k] == (seq![0u32] + monos.flatten())[(k * states[0].src_rate()) / (
        states[0].dst_rate() as int)],
        states[0].src_rate() == 2 * states[0].dst_rate() ==> outs.flatten()[k] == (seq![0u32]
            + monos.flatten())[2 * k],
        states[0].dst_rate() == 2 * states[0].src_rate() ==> outs.flatten()[k] == (seq![0u32]
            + monos.flatten())[k / 2],
{
    law_every_output_has_its_place_in_the_stream(
        arithmetic,
        limit,
        num,
        weight,
        states,
        monos,
        outs,
        k,
    );
    let src = states[0].src_rate() as int;
    let dst = states[0].dst_rate() as int;
    if src == 2 * dst {
        assert(k * src == (2 * k) * dst + 0) by (nonlinear_arith)
            requires
                src == 2 * dst,
        ;
        lemma_fundamental_div_mod_converse(k * src, dst, 2 * k, 0);
    }
    if dst == 2 * src {
        let r = (k % 2) * src;
        assert(k * src == (k / 2) * dst + r) by (nonlinear_arith)
            requires
                dst == 2 * src,
                r == (k % 2) * src,
                k == 2 * (k / 2) + k % 2,
        ;
        assert(0 <= r < dst) by (nonlinear_arith)
            requires
                dst == 2 * src,
                dst > 0,
                r == (k % 2) * src,
                0 <= k % 2 <= 1,
        ;
        lemma_fundamental_div_mod_converse(k * src, dst, k / 2, r);
    }
}

} // verus!
