//! Pipeline glue: capture, ring, noise suppression, ring, render.

use crate::config::Config;
use crate::devices::{
    cables, law_no_cable_is_made_up, law_the_one_cable_is_found, law_two_cables_are_noticed, Device,
    DeviceList,
};
use crate::format::{Frame, Sample};
use crate::ring::{
    accepted, inflow, offers, outflow, same_ring, seen, slots, taken, takes, FrameConsumer, FrameProducer,
    RING_FRAMES,
};
use vstd::prelude::*;

verus! {

/// The devices to open, by ID. An empty ID stands for the system's default. `cable_missing`
/// says that the virtual cable was looked for and not found, or not found alone.
#[derive(Debug)]
pub struct Route {
    pub input_id: String,
    pub output_id: String,
    pub cable_missing: bool,
}

/// The ID of the first device that the system marks as its default; empty where none is.
pub open spec fn default_id(capture: Seq<Device>) -> Seq<char>
    decreases capture.len(),
{
    if capture.len() == 0 {
        seq![]
    } else if capture[0].is_default {
        capture[0].id@
    } else {
        default_id(capture.drop_first())
    }
}

/// The microphone to open: the configured one, else the default one.
pub open spec fn input_for(configured: Seq<char>, capture: Seq<Device>) -> Seq<char> {
    if configured.len() == 0 {
        default_id(capture)
    } else {
        configured
    }
}

/// The target to open: the configured one, else the one virtual cable, else the default one.
pub open spec fn output_for(configured: Seq<char>, render: Seq<Device>) -> Seq<char> {
    if configured.len() == 0 {
        if cables(render).len() == 1 {
            cables(render)[0].id@
        } else {
            seq![]
        }
    } else {
        configured
    }
}

proof fn lemma_default_id(capture: Seq<Device>, i: int)
    requires
        0 <= i <= capture.len(),
        forall|j: int| 0 <= j < i ==> !(#[trigger] capture[j]).is_default,
    ensures
        default_id(capture) == default_id(capture.skip(i)),
    decreases i,
{
    if i > 0 {
        assert forall|j: int| 0 <= j < i - 1 implies !(#[trigger] capture.drop_first()[j]).is_default by {
            assert(capture.drop_first()[j] == capture[j + 1]);
        }
        assert(!capture[0].is_default);
        lemma_default_id(capture.drop_first(), i - 1);
        assert(capture.drop_first().skip(i - 1) == capture.skip(i));
    } else {
        assert(capture.skip(0) == capture);
    }
}

/// Pick the devices to open.
pub fn resolve_devices(cfg: &Config, devices: &DeviceList) -> (r: Route)
    ensures
        r.input_id@ == input_for(cfg.input_device_id@, devices.capture@),
        r.output_id@ == output_for(cfg.output_device_id@, devices.render@),
        r.cable_missing == (cfg.output_device_id@.len() == 0 && cables(devices.render@).len() != 1),
{
    let input_id: String = if cfg.input_device_id.as_str().is_empty() {
        match devices.default_capture() {
            Some(d) => {
                proof {
                    let i = choose|i: int|
                        0 <= i < devices.capture@.len() && *d == #[trigger] devices.capture@[i]
                            && d.is_default && forall|j: int|
                            0 <= j < i ==> !(#[trigger] devices.capture@[j]).is_default;
                    lemma_default_id(devices.capture@, i);
                    assert(devices.capture@.skip(i)[0] == *d);
                }
                d.id.clone()
            },
            None => {
                proof {
                    let n = devices.capture@.len() as int;
                    lemma_default_id(devices.capture@, n);
                    assert(devices.capture@.skip(n).len() == 0);
                }
                String::new()
            },
        }
    } else {
        cfg.input_device_id.clone()
    };
    let mut cable_missing: bool = false;
    let output_id: String = if cfg.output_device_id.as_str().is_empty() {
        match devices.find_vb_cable_input() {
            Ok(d) => d.id.clone(),
            Err(_) => {
                cable_missing = true;
                String::new()
            },
        }
    } else {
        cfg.output_device_id.clone()
    };
    Route { input_id, output_id, cable_missing }
}

/// The control side of a pipeline.
#[derive(Debug)]
pub struct Pipeline {
    bypass: bool,
    denoiser_name: String,
    limit: Sample,
}

impl Pipeline {
    /// Frames pass through unprocessed.
    pub closed spec fn bypassed(&self) -> bool {
        self.bypass
    }

    /// The name of the noise-suppression model.
    pub closed spec fn model(&self) -> Seq<char> {
        self.denoiser_name@
    }

    /// The bit pattern of the attenuation limit in dB that the model is to run with.
    pub closed spec fn limit(&self) -> Sample {
        self.limit
    }

    /// Set up a pipeline with the current settings: which devices to open, the switch as the
    /// user left it, and the attenuation limit for the model.
    pub fn start(cfg: &Config, devices: &DeviceList, denoiser_name: &str) -> (r: (Self, Route))
        ensures
            r.0.bypassed() == !cfg.enabled,
            r.0.model() == denoiser_name@,
            r.0.limit() == cfg.attenuation_db,
            r.1.input_id@ == input_for(cfg.input_device_id@, devices.capture@),
            r.1.output_id@ == output_for(cfg.output_device_id@, devices.render@),
            r.1.cable_missing == (cfg.output_device_id@.len() == 0 && cables(
                devices.render@,
            ).len() != 1),
    {
        let route: Route = resolve_devices(cfg, devices);
        let control: Pipeline = Pipeline {
            bypass: !cfg.enabled,
            denoiser_name: denoiser_name.to_owned(),
            limit: cfg.attenuation_db,
        };
        (control, route)
    }

    pub fn set_enabled(&mut self, enabled: bool)
        ensures
            final(self).bypassed() == !enabled,
            final(self).model() == old(self).model(),
            final(self).limit() == old(self).limit(),
    {
        self.bypass = !enabled;
    }

    pub fn is_enabled(&self) -> (r: bool)
        ensures
            r == !self.bypassed(),
    {
        !self.bypass
    }

    /// The bit pattern of the attenuation limit in dB, for the model.
    pub fn attenuation_limit(&self) -> (r: Sample)
        ensures
            r == self.limit(),
    {
        self.limit
    }

    pub fn denoiser_name(&self) -> (r: &str)
        ensures
            r@ == self.model(),
    {
        self.denoiser_name.as_str()
    }
}

/// How long the suppression thread sleeps when it finds no frame, in milliseconds.
pub const STARVED_SLEEP_MS: u64 = 2;

/// Every how many empty looks the suppression thread complains.
pub const STARVED_WARN_EVERY: u64 = 200;

/// What the suppression thread does next.
#[derive(Debug)]
pub enum DspAction {
    /// Sleep, and complain first where `warn` says how often it has starved.
    Sleep { millis: u64, warn: Option<u64> },
    /// Suppress noise in this frame, then pass it on.
    Process(Frame),
}

/// What became of a frame on its way out: whether to report that suppression failed, and
/// whether to report that there was no room for the frame.
#[derive(Debug, Clone, Copy, PartialEq, Eq, Structural)]
pub struct Delivery {
    pub passed_through: bool,
    pub dropped: bool,
}

/// The frame that is passed on for a captured one: what the model made of it, or the captured
/// one itself where the pipeline is bypassed or the model has failed.
pub open spec fn passed_on(bypass: bool, captured: Frame, outcome: Option<Frame>) -> Frame {
    match outcome {
        Some(frame) => if bypass {
            captured
        } else {
            frame
        },
        None => captured,
    }
}

/// The frame to pass on for a captured one. `outcome` is what the model made of it, or nothing
/// where the model has failed or was not asked.
pub fn outgoing(bypass: bool, captured: &Frame, outcome: &Option<Frame>) -> (r: Frame)
    ensures
        r == passed_on(bypass, *captured, *outcome),
{
    match outcome {
        Some(frame) => if bypass {
            *captured
        } else {
            *frame
        },
        None => *captured,
    }
}

/// A count after one more, wrapping at 64 bits.
pub open spec fn one_more(n: u64) -> u64 {
    if n == u64::MAX {
        0
    } else {
        (n + 1) as u64
    }
}

/// The suppression thread's own state: how often it has found no frame to work on.
#[derive(Debug)]
pub struct DspLoop {
    starved: u64,
}

impl DspLoop {
    pub closed spec fn starved(&self) -> u64 {
        self.starved
    }

    pub fn new() -> (r: Self)
        ensures
            r.starved() == 0,
    {
        DspLoop { starved: 0 }
    }

    /// Decide what to do with what the input ring gave.
    pub fn on_polled(&mut self, polled: Option<Frame>) -> (r: DspAction)
        ensures
            decides(*old(self), polled, r, *final(self)),
    {
        match polled {
            Some(frame) => DspAction::Process(frame),
            None => {
                self.starved = self.starved.wrapping_add(1);
                let warn: Option<u64> = if self.starved % STARVED_WARN_EVERY == 0 {
                    Some(self.starved)
                } else {
                    None
                };
                DspAction::Sleep { millis: STARVED_SLEEP_MS, warn }
            },
        }
    }

    /// Look for a frame in the input ring and decide what to do.
    pub fn poll(&mut self, ring: &mut FrameConsumer) -> (r: DspAction)
        ensures
            takes(*old(ring), found(r), *final(ring)),
            decides(*old(self), found(r), r, *final(self)),
    {
        let polled: Option<Frame> = ring.next_frame();
        self.on_polled(polled)
    }

    /// Pass a captured frame on, as the model made it. Where the model has failed, or the
    /// pipeline is bypassed, the frame goes on as it is. A frame that finds the output ring full
    /// is dropped, which is better than blocking.
    pub fn deliver(
        &self,
        captured: &Frame,
        bypass: bool,
        outcome: &Option<Frame>,
        ring: &mut FrameProducer,
    ) -> (r: Delivery)
        ensures
            delivers(*old(ring), *captured, bypass, *outcome, r, *final(ring)),
    {
        let frame: Frame = outgoing(bypass, captured, outcome);
        let went_in: bool = ring.offer(&frame);
        Delivery { passed_through: !bypass && outcome.is_none(), dropped: !went_in }
    }
}

/// The frame that an action is about, if it is about one.
pub open spec fn found(action: DspAction) -> Option<Frame> {
    match action {
        DspAction::Process(frame) => Some(frame),
        DspAction::Sleep { .. } => None,
    }
}

/// What follows on a look at the input ring: a frame is processed; where there is none, the
/// thread sleeps, and complains at every so many such looks.
pub open spec fn decides(
    before: DspLoop,
    polled: Option<Frame>,
    r: DspAction,
    after: DspLoop,
) -> bool {
    match polled {
        Some(frame) => {
            &&& r == DspAction::Process(frame)
            &&& after.starved() == before.starved()
        },
        None => {
            &&& after.starved() == one_more(before.starved())
            &&& r == (DspAction::Sleep {
                millis: STARVED_SLEEP_MS,
                warn: if after.starved() % STARVED_WARN_EVERY == 0 {
                    Some(after.starved())
                } else {
                    None
                },
            })
        },
    }
}

/// What passing a captured frame on does to the output ring, and what is reported of it.
pub open spec fn delivers(
    before: FrameProducer,
    captured: Frame,
    bypass: bool,
    outcome: Option<Frame>,
    r: Delivery,
    after: FrameProducer,
) -> bool {
    &&& r.passed_through == (!bypass && outcome is None)
    &&& offers(before, passed_on(bypass, captured, outcome), !r.dropped, after)
}

/// While the pipeline is bypassed, every frame that goes out is the captured one, sample for
/// sample, whatever a model would have made of it; and a model that fails drops no frame.
pub proof fn law_bypass_leaves_frames_untouched(captured: Frame, outcome: Option<Frame>)
    ensures
        passed_on(true, captured, outcome) == captured,
        passed_on(false, captured, None) == captured,
{
}

/// One round of the suppression thread: what its look at the input ring led to, and, where that
/// was a frame, how the frame was passed on.
pub struct Round {
    pub action: DspAction,
    pub bypass: bool,
    pub outcome: Option<Frame>,
    pub delivery: Delivery,
}

/// A run of the capture side: each captured frame in turn is offered to a ring that was new at
/// first. `ring` holds the ring's end before and after every step.
pub open spec fn is_capture_run(
    ring: Seq<FrameProducer>,
    captured: Seq<Frame>,
    went_in: Seq<bool>,
) -> bool {
    &&& ring.len() == captured.len() + 1
    &&& went_in.len() == captured.len()
    &&& accepted(ring[0]) == Seq::<Frame>::empty()
    &&& slots(ring[0]) == RING_FRAMES
    &&& forall|i: int|
        0 <= i < captured.len() ==> offers(ring[i], captured[i], #[trigger] went_in[i], ring[i + 1])
}

/// A run of the suppression thread between two rings that were new at first: in each round one
/// look at the input ring, and the delivery of a frame that was found.
pub open spec fn is_suppression_run(
    source: Seq<FrameConsumer>,
    target: Seq<FrameProducer>,
    rounds: Seq<Round>,
) -> bool {
    &&& source.len() == rounds.len() + 1
    &&& target.len() == rounds.len() + 1
    &&& taken(source[0]) == Seq::<Frame>::empty()
    &&& accepted(target[0]) == Seq::<Frame>::empty()
    &&& slots(target[0]) == RING_FRAMES
    &&& forall|i: int|
        0 <= i < rounds.len() ==> is_round(
            source[i],
            target[i],
            #[trigger] rounds[i],
            source[i + 1],
            target[i + 1],
        )
}

/// One round of such a run.
pub open spec fn is_round(
    source: FrameConsumer,
    target: FrameProducer,
    round: Round,
    source_after: FrameConsumer,
    target_after: FrameProducer,
) -> bool {
    &&& takes(source, found(round.action), source_after)
    &&& match found(round.action) {
        Some(frame) => delivers(
            target,
            frame,
            round.bypass,
            round.outcome,
            round.delivery,
            target_after,
        ),
        None => target_after == target,
    }
}

/// The places are in rising order, all below `end`.
pub open spec fn rises(places: Seq<int>, end: int) -> bool {
    &&& forall|k: int| 0 <= k < places.len() ==> 0 <= #[trigger] places[k] < end
    &&& forall|j: int, k: int| 0 <= j < k < places.len() ==> #[trigger] places[j] < #[trigger] places[k]
}

/// The items at the given places.
pub open spec fn picked<A>(items: Seq<A>, places: Seq<int>) -> Seq<A> {
    Seq::new(places.len(), |k: int| items[places[k]])
}

/// What has gone into a ring by a run of the capture side are captured frames, each at most
/// once, in the order in which they were captured.
proof fn lemma_capture_run(
    ring: Seq<FrameProducer>,
    captured: Seq<Frame>,
    went_in: Seq<bool>,
) -> (places: Seq<int>)
    requires
        is_capture_run(ring, captured, went_in),
    ensures
        rises(places, captured.len() as int),
        accepted(ring.last()) == picked(captured, places),
        inflow(ring.last()) == inflow(ring[0]),
    decreases captured.len(),
{
    if captured.len() == 0 {
        assert(accepted(ring.last()) == picked(captured, Seq::<int>::empty()));
        Seq::empty()
    } else {
        let n = captured.len() - 1;
        let r = ring.drop_last();
        let c = captured.drop_last();
        let w = went_in.drop_last();
        assert forall|i: int| 0 <= i < c.len() implies offers(r[i], c[i], #[trigger] w[i], r[i + 1]) by {
            assert(w[i] == went_in[i]);
        }
        let before = lemma_capture_run(r, c, w);
        assert(offers(ring[n], captured[n], went_in[n], ring[n + 1]));
        assert(r.last() == ring[n]);
        if went_in[n] {
            let places = before.push(n);
            assert(picked(captured, places) == picked(c, before).push(captured[n]));
            places
        } else {
            assert(picked(captured, before) == picked(c, before));
            before
        }
    }
}

/// A frame that went out comes of the frame at `place` among those that came in, by the round at
/// `round`: it is what is passed on for that frame in that round.
pub open spec fn came_of(
    rounds: Seq<Round>,
    came_in: Seq<Frame>,
    round: int,
    place: int,
    out: Frame,
) -> bool {
    &&& 0 <= round < rounds.len()
    &&& 0 <= place < came_in.len()
    &&& found(rounds[round].action) == Some(came_in[place])
    &&& !rounds[round].delivery.dropped
    &&& out == passed_on(rounds[round].bypass, came_in[place], rounds[round].outcome)
}

/// What has gone out by a run of the suppression thread comes of the frames that came in, each
/// at most once, in the order in which they came in.
proof fn lemma_suppression_run(
    source: Seq<FrameConsumer>,
    target: Seq<FrameProducer>,
    rounds: Seq<Round>,
) -> (r: (Seq<int>, Seq<int>))
    requires
        is_suppression_run(source, target, rounds),
    ensures
        r.0.len() == accepted(target.last()).len(),
        r.1.len() == accepted(target.last()).len(),
        rises(r.0, rounds.len() as int),
        rises(r.1, taken(source.last()).len() as int),
        forall|k: int|
            0 <= k < r.0.len() ==> came_of(
                rounds,
                taken(source.last()),
                r.0[k],
                r.1[k],
                #[trigger] accepted(target.last())[k],
            ),
        outflow(source.last()) == outflow(source[0]),
        inflow(target.last()) == inflow(target[0]),
    decreases rounds.len(),
{
    if rounds.len() == 0 {
        (Seq::empty(), Seq::empty())
    } else {
        let n = rounds.len() - 1;
        let s = source.drop_last();
        let t = target.drop_last();
        let q = rounds.drop_last();
        assert forall|i: int| 0 <= i < q.len() implies is_round(
            s[i],
            t[i],
            #[trigger] q[i],
            s[i + 1],
            t[i + 1],
        ) by {
            assert(q[i] == rounds[i]);
        }
        let (a, b) = lemma_suppression_run(s, t, q);
        assert(is_round(source[n], target[n], rounds[n], source[n + 1], target[n + 1]));
        assert(s.last() == source[n]);
        assert(t.last() == target[n]);
        let came_in = taken(source.last());
        let out = accepted(target.last());
        assert forall|k: int| 0 <= k < a.len() implies came_of(
            rounds,
            came_in,
            a[k],
            b[k],
            #[trigger] out[k],
        ) by {
            assert(out[k] == accepted(t.last())[k]);
            assert(came_of(q, taken(s.last()), a[k], b[k], accepted(t.last())[k]));
            assert(q[a[k]] == rounds[a[k]]);
            assert(came_in[b[k]] == taken(s.last())[b[k]]);
        }
        if found(rounds[n].action) is Some && !rounds[n].delivery.dropped {
            let place = taken(s.last()).len() as int;
            let a2 = a.push(n);
            let b2 = b.push(place);
            assert forall|k: int| 0 <= k < a2.len() implies came_of(
                rounds,
                came_in,
                a2[k],
                b2[k],
                #[trigger] out[k],
            ) by {
                if k == a.len() {
                    assert(came_in[place] == found(rounds[n].action)->0);
                }
            }
            (a2, b2)
        } else {
            (a, b)
        }
    }
}

/// The `k`-th frame handed to render comes of the captured frame at `captured_at[k]`, in the
/// round at `round_at[k]`, and both are in rising order.
pub open spec fn is_passage(
    captured: Seq<Frame>,
    rounds: Seq<Round>,
    handed: Seq<Frame>,
    captured_at: Seq<int>,
    round_at: Seq<int>,
) -> bool {
    &&& captured_at.len() == handed.len()
    &&& round_at.len() == handed.len()
    &&& rises(captured_at, captured.len() as int)
    &&& rises(round_at, rounds.len() as int)
    &&& forall|k: int|
        0 <= k < handed.len() ==> came_of(
            rounds,
            captured,
            round_at[k],
            captured_at[k],
            #[trigger] handed[k],
        )
}

/// The frames handed to render are, in order and each at most once, what is passed on for
/// frames that were captured. A captured frame is left out only where the ring it was to enter
/// held as many frames as a ring can: that many had gone in and not come out. (The two rings are
/// looked at when nothing has come out of them that is not counted as having gone in.)
pub proof fn law_frames_reach_render_in_order(
    capture: Seq<FrameProducer>,
    captured: Seq<Frame>,
    went_in: Seq<bool>,
    source: Seq<FrameConsumer>,
    target: Seq<FrameProducer>,
    rounds: Seq<Round>,
    sink: FrameConsumer,
)
    requires
        is_capture_run(capture, captured, went_in),
        is_suppression_run(source, target, rounds),
        same_ring(capture[0], source[0]),
        same_ring(target[0], sink),
        taken(source.last()).len() <= accepted(capture.last()).len(),
        taken(sink).len() <= accepted(target.last()).len(),
    ensures
        exists|captured_at: Seq<int>, round_at: Seq<int>| #[trigger]
            is_passage(captured, rounds, taken(sink), captured_at, round_at),
        forall|i: int|
            0 <= i < captured.len() && !(#[trigger] went_in[i]) ==> accepted(capture[i + 1]).len()
                == seen(capture[i + 1]) + RING_FRAMES,
        forall|i: int|
            0 <= i < rounds.len() && found((#[trigger] rounds[i]).action) is Some
                && rounds[i].delivery.dropped ==> accepted(target[i + 1]).len() == seen(
                target[i + 1],
            ) + RING_FRAMES,
{
    let places = lemma_capture_run(capture, captured, went_in);
    let (a, b) = lemma_suppression_run(source, target, rounds);
    let came_in = taken(source.last());
    let handed = taken(sink);
    let n = handed.len() as int;
    let round_at = a.take(n);
    let captured_at = Seq::new(handed.len(), |k: int| places[b[k]]);
    assert forall|i: int| 0 <= i < came_in.len() implies #[trigger] came_in[i]
        == captured[places[i]] by {
        assert(came_in[i] == accepted(capture.last())[i]);
    }
    assert forall|k: int| 0 <= k < handed.len() implies came_of(
        rounds,
        captured,
        round_at[k],
        captured_at[k],
        #[trigger] handed[k],
    ) by {
        assert(handed[k] == accepted(target.last())[k]);
        assert(came_of(rounds, came_in, a[k], b[k], accepted(target.last())[k]));
        assert(came_in[b[k]] == captured[places[b[k]]]);
        assert(0 <= places[b[k]] < captured.len());
    }
    assert forall|k: int| 0 <= k < captured_at.len() implies 0 <= #[trigger] captured_at[k]
        < captured.len() by {
        assert(0 <= b[k] < came_in.len());
        assert(0 <= places[b[k]] < captured.len());
    }
    assert forall|j: int, k: int| 0 <= j < k < captured_at.len() implies #[trigger] captured_at[j]
        < #[trigger] captured_at[k] by {
        assert(b[j] < b[k]);
        assert(0 <= b[j] && b[k] < came_in.len());
        assert(places[b[j]] < places[b[k]]);
    }
    assert forall|k: int| 0 <= k < round_at.len() implies 0 <= #[trigger] round_at[k]
        < rounds.len() by {
        assert(round_at[k] == a[k]);
    }
    assert forall|j: int, k: int| 0 <= j < k < round_at.len() implies #[trigger] round_at[j]
        < #[trigger] round_at[k] by {
        assert(a[j] < a[k]);
    }
    assert(rises(captured_at, captured.len() as int));
    assert(rises(round_at, rounds.len() as int));
    assert(is_passage(captured, rounds, handed, captured_at, round_at));
    assert forall|i: int|
        0 <= i < captured.len() && !(#[trigger] went_in[i]) implies accepted(capture[i + 1]).len()
        == seen(capture[i + 1]) + RING_FRAMES by {
        lemma_capture_slots(capture, captured, went_in, i + 1);
    }
    assert forall|i: int|
        0 <= i < rounds.len() && found((#[trigger] rounds[i]).action) is Some
            && rounds[i].delivery.dropped implies accepted(target[i + 1]).len() == seen(
        target[i + 1],
    ) + RING_FRAMES by {
        lemma_target_slots(source, target, rounds, i + 1);
    }
}

proof fn lemma_capture_slots(
    ring: Seq<FrameProducer>,
    captured: Seq<Frame>,
    went_in: Seq<bool>,
    i: int,
)
    requires
        is_capture_run(ring, captured, went_in),
        0 <= i < ring.len(),
    ensures
        slots(ring[i]) == RING_FRAMES,
    decreases i,
{
    if i > 0 {
        lemma_capture_slots(ring, captured, went_in, i - 1);
        assert(offers(ring[i - 1], captured[i - 1], went_in[i - 1], ring[i]));
    }
}

proof fn lemma_target_slots(
    source: Seq<FrameConsumer>,
    target: Seq<FrameProducer>,
    rounds: Seq<Round>,
    i: int,
)
    requires
        is_suppression_run(source, target, rounds),
        0 <= i < target.len(),
    ensures
        slots(target[i]) == RING_FRAMES,
    decreases i,
{
    if i > 0 {
        lemma_target_slots(source, target, rounds, i - 1);
        assert(is_round(source[i - 1], target[i - 1], rounds[i - 1], source[i], target[i]));
    }
}

/// A device that the user has chosen is the one that is opened, whatever is plugged in.
pub proof fn law_chosen_devices_win(configured: Seq<char>, capture: Seq<Device>, render: Seq<Device>)
    requires
        configured.len() > 0,
    ensures
        input_for(configured, capture) == configured,
        output_for(configured, render) == configured,
{
}

/// Without a choice of the user's the microphone goes into the one virtual cable there is, or
/// to the system's default target; never to one cable out of several.
pub proof fn law_no_cable_is_guessed(render: Seq<Device>)
    requires
        cables(render).len() != 1,
    ensures
        output_for(Seq::<char>::empty(), render) == Seq::<char>::empty(),
{
}

/// Where the pipeline is not bypassed and the model has made something of a captured frame, that
/// is what is passed on, sample for sample.
pub proof fn law_the_models_output_is_passed_on(captured: Frame, denoised: Frame)
    ensures
        passed_on(false, captured, Some(denoised)) == denoised,
        forall|i: int|
            0 <= i < 480 ==> #[trigger] passed_on(false, captured, Some(denoised))@[i]
                == denoised@[i],
{
}

/// What the output ring gets of a captured frame: the model's output while suppression is on and
/// the model works, else the captured frame; in full, behind what it got before, unless it is
/// full. Suppression is reported to have failed exactly where it is on and failed, and a frame
/// to be dropped exactly where it was.
pub proof fn law_what_goes_out_for_a_captured_frame(
    before: FrameProducer,
    captured: Frame,
    bypass: bool,
    outcome: Option<Frame>,
    r: Delivery,
    after: FrameProducer,
)
    requires
        delivers(before, captured, bypass, outcome, r, after),
    ensures
        !r.dropped && bypass ==> accepted(after) == accepted(before).push(captured),
        !r.dropped && outcome is None ==> accepted(after) == accepted(before).push(captured),
        !r.dropped && !bypass ==> (outcome matches Some(denoised) ==> accepted(after) == accepted(
            before,
        ).push(denoised)),
        r.dropped ==> accepted(after) == accepted(before),
        accepted(before).len() < seen(before) + slots(before) ==> !r.dropped,
        r.passed_through <==> !bypass && outcome is None,
{
}

/// A frame that was found is processed as it is. Where none was found the thread sleeps for two
/// milliseconds and counts one more; at every two hundredth such look, and at no other, it says
/// how many there were.
pub proof fn law_starved_looks_are_counted(
    before: DspLoop,
    polled: Option<Frame>,
    r: DspAction,
    after: DspLoop,
)
    requires
        decides(before, polled, r, after),
    ensures
        polled matches Some(frame) ==> r == DspAction::Process(frame) && after.starved()
            == before.starved(),
        polled is None && before.starved() < u64::MAX ==> after.starved() == before.starved() + 1,
        polled is None && before.starved() == u64::MAX ==> after.starved() == 0,
        polled is None ==> (r matches DspAction::Sleep { millis, warn } && millis == 2 && (
        after.starved() as int % 200 == 0 ==> warn == Some(after.starved())) && (
        after.starved() as int % 200 != 0 ==> warn is None)),
        found(r) == polled,
{
}

/// Where no output device is configured and exactly one render device passes as the virtual
/// cable, it is the target.
pub proof fn law_the_one_cable_is_the_target(render: Seq<Device>, i: int)
    requires
        0 <= i < render.len(),
        render[i].is_cable(),
        forall|j: int| 0 <= j < render.len() && j != i ==> !(#[trigger] render[j]).is_cable(),
    ensures
        output_for(Seq::<char>::empty(), render) == render[i].id@,
        cables(render).len() == 1,
{
    law_the_one_cable_is_found(render, i);
}

/// Where no output device is configured and no render device, or more than one, passes as the
/// virtual cable, the target is the system's default.
pub proof fn law_without_one_cable_the_default_is_the_target(render: Seq<Device>)
    requires
        (forall|i: int| 0 <= i < render.len() ==> !(#[trigger] render[i]).is_cable()) || (exists|
            i: int,
            j: int,
        |
            0 <= i < j < render.len() && (#[trigger] render[i]).is_cable() && (
            #[trigger] render[j]).is_cable()),
    ensures
        output_for(Seq::<char>::empty(), render).len() == 0,
        cables(render).len() != 1,
{
    if forall|i: int| 0 <= i < render.len() ==> !(#[trigger] render[i]).is_cable() {
        law_no_cable_is_made_up(render);
    } else {
        let (i, j) = choose|i: int, j: int|
            0 <= i < j < render.len() && (#[trigger] render[i]).is_cable() && (
            #[trigger] render[j]).is_cable();
        law_two_cables_are_noticed(render, i, j);
    }
}

/// Where no microphone is configured, the first capture device that the system marks as its
/// default is the one; where none is marked, the choice is left to the system.
pub proof fn law_the_default_microphone_is_taken(capture: Seq<Device>, i: int)
    requires
        0 <= i <= capture.len(),
        forall|j: int| 0 <= j < i ==> !(#[trigger] capture[j]).is_default,
    ensures
        i < capture.len() && capture[i].is_default ==> input_for(Seq::<char>::empty(), capture)
            == capture[i].id@,
        i == capture.len() ==> input_for(Seq::<char>::empty(), capture).len() == 0,
{
    lemma_default_id(capture, i);
    if i < capture.len() {
        assert(capture.skip(i)[0] == capture[i]);
    } else {
        assert(capture.skip(i).len() == 0);
    }
}

} // verus!
