//! The single-producer single-consumer rings between the audio threads, kept in `ringbuf`.
//!
//! The two ends of a ring live on different threads, so neither end can say what the ring
//! holds at a given moment. What an end can say is what has gone in or come out through itself,
//! and that both ends speak of the same frames in the same order.

use crate::format::{Frame, FRAME_SAMPLES, SAMPLE_RATE};
use ringbuf::traits::{Consumer, Producer, Split};
use vstd::prelude::*;

verus! {

/// Frames that one ring holds: enough headroom to absorb a scheduler hiccup, small enough not
/// to hide actual problems.
pub const RING_FRAMES: usize = 8;

/// The end of a ring that frames go in by: a `ringbuf::HeapProd` of frames.
#[verifier::external_body]
pub struct FrameProducer {
    inner: ringbuf::HeapProd<Frame>,
}

/// The end of a ring that frames come out by: a `ringbuf::HeapCons` of frames.
#[verifier::external_body]
pub struct FrameConsumer {
    inner: ringbuf::HeapCons<Frame>,
}

/// The frames of the ring that this end belongs to, numbered from zero in the order in which
/// they go in over the ring's whole life. Of a number that no frame has yet, nothing is known.
pub uninterp spec fn inflow(p: FrameProducer) -> Map<nat, Frame>;

/// How many frames have gone in through this end.
pub uninterp spec fn entered(p: FrameProducer) -> nat;

/// How many frames this end knows to have come out by the other one. It looks anew only where
/// the ring seems full.
pub uninterp spec fn seen(p: FrameProducer) -> nat;

/// How many frames the ring of this end can hold.
pub uninterp spec fn slots(p: FrameProducer) -> nat;

/// The frames of the ring that this end belongs to, numbered as they go in.
pub uninterp spec fn outflow(c: FrameConsumer) -> Map<nat, Frame>;

/// How many frames have come out through this end.
pub uninterp spec fn departed(c: FrameConsumer) -> nat;

/// How many frames this end knows to have gone in by the other one. It looks anew only where
/// the ring seems empty.
pub uninterp spec fn arrived(c: FrameConsumer) -> nat;

/// The frames that have gone into the ring through this end, oldest first.
pub open spec fn accepted(p: FrameProducer) -> Seq<Frame> {
    Seq::new(entered(p), |i: int| inflow(p)[i as nat])
}

/// The frames that have come out of the ring through this end, oldest first.
pub open spec fn taken(c: FrameConsumer) -> Seq<Frame> {
    Seq::new(departed(c), |i: int| outflow(c)[i as nat])
}

/// The two ends belong to one ring.
pub open spec fn same_ring(p: FrameProducer, c: FrameConsumer) -> bool {
    inflow(p) == outflow(c)
}

/// What putting a frame in does: it goes in behind the others, unless the ring is full, that is,
/// unless as many frames as the ring has slots have gone in and not come out.
pub open spec fn offers(
    before: FrameProducer,
    frame: Frame,
    went_in: bool,
    after: FrameProducer,
) -> bool {
    &&& slots(after) == slots(before)
    &&& inflow(after) == inflow(before)
    &&& seen(after) >= seen(before)
    &&& accepted(after) == (if went_in {
        accepted(before).push(frame)
    } else {
        accepted(before)
    })
    &&& went_in ==> accepted(after).len() <= seen(after) + slots(after)
    &&& !went_in ==> accepted(after).len() == seen(after) + slots(after)
}

/// What taking a frame out does: the oldest one comes out, unless the ring is empty, that is,
/// unless every frame that has gone in has come out.
pub open spec fn takes(before: FrameConsumer, r: Option<Frame>, after: FrameConsumer) -> bool {
    &&& outflow(after) == outflow(before)
    &&& arrived(after) >= arrived(before)
    &&& match r {
        Some(frame) => taken(after) == taken(before).push(frame) && taken(after).len() <= arrived(
            after,
        ),
        None => taken(after) == taken(before) && taken(after).len() == arrived(after),
    }
}

/// `ringbuf::HeapRb::new` followed by `Split::split`: the two ends of one ring of `capacity`
/// slots, which nothing has gone into or come out of. A ring of no slots, or of more than an
/// allocation can hold, is refused there by a panic.
#[verifier::external_body]
fn new_ring(capacity: usize) -> (ends: (FrameProducer, FrameConsumer))
    requires
        0 < capacity,
        capacity * FRAME_SAMPLES * 4 <= i32::MAX,
    ensures
        same_ring(ends.0, ends.1),
        entered(ends.0) == 0,
        seen(ends.0) == 0,
        slots(ends.0) == capacity,
        departed(ends.1) == 0,
        arrived(ends.1) == 0,
{
    let (prod, cons) = ringbuf::HeapRb::<Frame>::new(capacity).split();
    (FrameProducer { inner: prod }, FrameConsumer { inner: cons })
}

/// `ringbuf::traits::Producer::try_push` on a `HeapProd`: the frame goes in as the next one of
/// its ring, or comes back because the ring is full: as many frames have gone in and not come
/// out as it has slots. Where the ring seems full the end first looks how many have come out by
/// then; how many that are rests with the other end, on its own thread.
#[verifier::external_body]
fn try_push(p: &mut FrameProducer, frame: Frame) -> (r: Result<(), Frame>)
    ensures
        slots(*final(p)) == slots(*old(p)),
        inflow(*final(p)) == inflow(*old(p)),
        seen(*final(p)) >= seen(*old(p)),
        match r {
            Ok(_) => {
                &&& entered(*final(p)) == entered(*old(p)) + 1
                &&& inflow(*final(p))[entered(*old(p))] == frame
                &&& entered(*final(p)) <= seen(*final(p)) + slots(*final(p))
            },
            Err(back) => {
                &&& back == frame
                &&& entered(*final(p)) == entered(*old(p))
                &&& entered(*final(p)) == seen(*final(p)) + slots(*final(p))
            },
        },
{
    p.inner.try_push(frame)
}

/// `ringbuf::traits::Consumer::try_pop` on a `HeapCons`: the next frame of its ring, in the
/// order in which the frames went in, or nothing where the ring is empty: every frame that has
/// gone in has come out. Where the ring seems empty the end first looks how many have gone in by
/// then; how many that are rests with the other end, on its own thread.
#[verifier::external_body]
fn try_pop(c: &mut FrameConsumer) -> (r: Option<Frame>)
    ensures
        outflow(*final(c)) == outflow(*old(c)),
        arrived(*final(c)) >= arrived(*old(c)),
        match r {
            Some(frame) => {
                &&& departed(*final(c)) == departed(*old(c)) + 1
                &&& frame == outflow(*old(c))[departed(*old(c))]
                &&& departed(*final(c)) <= arrived(*final(c))
            },
            None => {
                &&& departed(*final(c)) == departed(*old(c))
                &&& departed(*final(c)) == arrived(*final(c))
            },
        },
{
    c.inner.try_pop()
}

/// A new, empty ring of the pipeline's size, as its two ends.
pub fn frame_ring() -> (ends: (FrameProducer, FrameConsumer))
    ensures
        same_ring(ends.0, ends.1),
        accepted(ends.0) == Seq::<Frame>::empty(),
        seen(ends.0) == 0,
        slots(ends.0) == RING_FRAMES,
        taken(ends.1) == Seq::<Frame>::empty(),
        arrived(ends.1) == 0,
{
    new_ring(RING_FRAMES)
}

impl FrameProducer {
    /// Put a frame in without ever blocking. Where the ring is full the new frame is dropped:
    /// audible as a tiny click, far better than stalling an audio thread. Says whether the
    /// frame went in.
    pub fn offer(&mut self, frame: &Frame) -> (went_in: bool)
        ensures
            offers(*old(self), *frame, went_in, *final(self)),
    {
        let went_in: bool = match try_push(self, *frame) {
            Ok(_) => true,
            Err(_) => false,
        };
        proof {
            assert(accepted(*self) == (if went_in {
                accepted(*old(self)).push(*frame)
            } else {
                accepted(*old(self))
            }));
        }
        went_in
    }
}

impl FrameConsumer {
    /// Take the oldest frame out, if there is one.
    pub fn next_frame(&mut self) -> (r: Option<Frame>)
        ensures
            takes(*old(self), r, *final(self)),
    {
        let r: Option<Frame> = try_pop(self);
        proof {
            assert(taken(*self) == (match r {
                Some(frame) => taken(*old(self)).push(frame),
                None => taken(*old(self)),
            }));
        }
        r
    }
}

/// A ring takes every frame as long as it has room: what has gone in and is not known to have
/// come out is never more than its slots, and a frame is turned away only where it is as many.
pub proof fn law_only_a_full_ring_turns_frames_away(
    before: FrameProducer,
    frame: Frame,
    went_in: bool,
    after: FrameProducer,
)
    requires
        offers(before, frame, went_in, after),
    ensures
        accepted(before).len() < seen(before) + slots(before) ==> went_in,
        accepted(after).len() <= seen(after) + slots(after),
{
}

/// Frames come out as they went in: none is changed, skipped, repeated or moved. At any two
/// moments, what has come out by one end of a ring and what has gone in by the other agree as
/// far as both go.
pub proof fn law_frames_come_out_in_order(p: FrameProducer, c: FrameConsumer)
    requires
        same_ring(p, c),
    ensures
        forall|i: int|
            0 <= i < accepted(p).len() && 0 <= i < taken(c).len() ==> #[trigger] taken(c)[i]
                == accepted(p)[i],
        taken(c).len() <= accepted(p).len() ==> taken(c).is_prefix_of(accepted(p)),
{
}

/// A full ring is 80 ms of audio at the pipeline rate.
pub proof fn law_ring_is_eighty_milliseconds()
    ensures
        RING_FRAMES * FRAME_SAMPLES * 1000 == 80 * SAMPLE_RATE,
{
}

/// What an end has carried is what it counts, in the order of the ring.
pub proof fn law_ends_speak_of_their_ring(p: FrameProducer, c: FrameConsumer)
    ensures
        accepted(p).len() == entered(p),
        forall|i: int| 0 <= i < entered(p) ==> #[trigger] accepted(p)[i] == inflow(p)[i as nat],
        taken(c).len() == departed(c),
        forall|i: int| 0 <= i < departed(c) ==> #[trigger] taken(c)[i] == outflow(c)[i as nat],
        same_ring(p, c) <==> inflow(p) == outflow(c),
{
}

/// A frame that goes in stands behind all that went in before it, unchanged; one that is turned
/// away leaves no trace. Either way the ring stays the same ring, with the same room.
pub proof fn law_a_frame_goes_in_last_or_not_at_all(
    before: FrameProducer,
    frame: Frame,
    went_in: bool,
    after: FrameProducer,
)
    requires
        offers(before, frame, went_in, after),
    ensures
        went_in ==> accepted(after) == accepted(before).push(frame),
        !went_in ==> accepted(after) == accepted(before) && entered(before) == seen(after) + slots(
            before,
        ),
        inflow(after) == inflow(before),
        slots(after) == slots(before),
        seen(after) >= seen(before),
{
    assert(accepted(after).len() == entered(after));
    assert(accepted(before).len() == entered(before));
}

/// A frame that comes out is the next one of the ring; nothing comes out only where every frame
/// known to have gone in has come out.
pub proof fn law_the_oldest_frame_comes_out(
    before: FrameConsumer,
    r: Option<Frame>,
    after: FrameConsumer,
)
    requires
        takes(before, r, after),
    ensures
        r matches Some(frame) ==> taken(after) == taken(before).push(frame) && frame == outflow(
            before,
        )[departed(before)],
        r is None ==> departed(after) == departed(before) && departed(after) == arrived(after),
        departed(before) < arrived(before) ==> r is Some,
        outflow(after) == outflow(before),
{
    assert(taken(after).len() == departed(after));
    assert(taken(before).len() == departed(before));
    if r is Some {
        assert(taken(after)[departed(before) as int] == outflow(after)[departed(before)]);
    }
}

} // verus!
