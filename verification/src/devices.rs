//! The audio endpoints of the machine, and which of them the pipeline uses.

use crate::error::AudioError;
use crate::text::{contains, law_held_text_stands_between, occurs};
use vstd::prelude::*;

verus! {

#[derive(Debug, Clone, Copy, PartialEq, Eq, Structural)]
pub enum DeviceDirection {
    Capture,
    Render,
}

#[derive(Debug, Clone)]
pub struct Device {
    /// Stable endpoint ID (e.g. "{0.0.1.00000000}.{guid}"). Persisted in the settings so that
    /// the user's chosen device survives reboots and unrelated device plug events.
    pub id: String,
    pub friendly_name: String,
    pub direction: DeviceDirection,
    pub is_default: bool,
}

impl Device {
    /// The device is one that audio is rendered into, and its name carries both the product
    /// half and the vendor half of the virtual cable's.
    pub open spec fn is_cable(&self) -> bool {
        &&& self.direction == DeviceDirection::Render
        &&& occurs(self.friendly_name@, "CABLE Input"@)
        &&& occurs(self.friendly_name@, "VB-Audio"@)
    }

    /// Heuristic: is this the VB-Cable virtual input device? VB-Audio names its endpoints
    /// "CABLE Input (VB-Audio Virtual Cable)" for what we render into, and "CABLE Output" for
    /// what other programs capture from.
    ///
    /// The vendor half of the name is required too: this decides where the microphone ends up,
    /// and "CABLE Input" on its own is a name that any virtual audio device could claim.
    pub fn is_vb_cable_input(&self) -> (r: bool)
        ensures
            r == self.is_cable(),
    {
        self.direction == DeviceDirection::Render && contains(
            self.friendly_name.as_str(),
            "CABLE Input",
        ) && contains(self.friendly_name.as_str(), "VB-Audio")
    }
}

/// One endpoint as the system reports it. The name is missing where it could not be read.
#[derive(Debug, Clone)]
pub struct Endpoint {
    pub id: String,
    pub friendly_name: Option<String>,
}

/// All endpoints of one direction, and the ID of the system's default among them (empty where
/// there is none).
#[derive(Debug, Clone)]
pub struct Endpoints {
    pub default_id: String,
    pub list: Vec<Endpoint>,
}

/// The device that stands for an endpoint: named by its ID where it has no readable name, and
/// the default one exactly where its ID is the default's.
pub open spec fn describes(
    d: Device,
    e: Endpoint,
    direction: DeviceDirection,
    default_id: Seq<char>,
) -> bool {
    &&& d.id@ == e.id@
    &&& d.friendly_name@ == (match e.friendly_name {
        Some(name) => name@,
        None => e.id@,
    })
    &&& d.direction == direction
    &&& d.is_default == (e.id@ == default_id)
}

/// The devices that stand for the endpoints of one direction, in the same order.
pub open spec fn describe_all(
    devices: Seq<Device>,
    endpoints: Endpoints,
    direction: DeviceDirection,
) -> bool {
    &&& devices.len() == endpoints.list@.len()
    &&& forall|i: int|
        0 <= i < devices.len() ==> describes(
            #[trigger] devices[i],
            endpoints.list@[i],
            direction,
            endpoints.default_id@,
        )
}

/// The system's code for the flow of data into render devices.
pub const E_RENDER: i32 = 0;

/// The system's code for the flow of data out of capture devices.
pub const E_CAPTURE: i32 = 1;

/// The direction of a data flow: render for the one code, capture for any other.
pub open spec fn direction_of(flow: i32) -> DeviceDirection {
    if flow == E_RENDER {
        DeviceDirection::Render
    } else {
        DeviceDirection::Capture
    }
}

/// The direction of a data flow, by the system's code.
pub fn direction_of_flow(flow: i32) -> (r: DeviceDirection)
    ensures
        r == direction_of(flow),
{
    if flow == E_RENDER {
        DeviceDirection::Render
    } else {
        DeviceDirection::Capture
    }
}

/// Turn the endpoints of one data flow into devices.
pub fn enumerate_direction(endpoints: &Endpoints, flow: i32) -> (out: Vec<Device>)
    ensures
        describe_all(out@, *endpoints, direction_of(flow)),
{
    let direction: DeviceDirection = direction_of_flow(flow);
    let mut out: Vec<Device> = Vec::with_capacity(endpoints.list.len());
    let mut i: usize = 0;
    while i < endpoints.list.len()
        invariant
            0 <= i <= endpoints.list.len(),
            out@.len() == i,
            forall|j: int|
                0 <= j < i ==> describes(
                    #[trigger] out@[j],
                    endpoints.list@[j],
                    direction,
                    endpoints.default_id@,
                ),
        decreases endpoints.list.len() - i,
    {
        let e: &Endpoint = &endpoints.list[i];
        let friendly_name: String = match &e.friendly_name {
            Some(name) => name.clone(),
            None => e.id.clone(),
        };
        out.push(
            Device {
                id: e.id.clone(),
                friendly_name,
                direction,
                is_default: e.id == endpoints.default_id,
            },
        );
        i = i + 1;
    }
    out
}

#[derive(Debug)]
pub struct DeviceList {
    pub capture: Vec<Device>,
    pub render: Vec<Device>,
}

impl Default for DeviceList {
    fn default() -> (r: Self)
        ensures
            r.capture@.len() == 0,
            r.render@.len() == 0,
    {
        DeviceList { capture: Vec::new(), render: Vec::new() }
    }
}

/// The devices that pass as the virtual cable, in order.
pub open spec fn cables(render: Seq<Device>) -> Seq<Device> {
    render.filter(cable_test())
}

/// The test that a device passes as the virtual cable by.
pub open spec fn cable_test() -> spec_fn(Device) -> bool {
    |d: Device| d.is_cable()
}

impl DeviceList {
    /// The devices of the machine, from what the system reports of capture and render
    /// endpoints, or why it does not; nothing is reported where the system has no such
    /// interface.
    pub fn enumerate(found: Option<Result<(Endpoints, Endpoints), AudioError>>) -> (r: Result<
        Self,
        AudioError,
    >)
        ensures
            match (found, r) {
                (Some(Ok((capture, render))), Ok(list)) => {
                    &&& describe_all(list.capture@, capture, DeviceDirection::Capture)
                    &&& describe_all(list.render@, render, DeviceDirection::Render)
                },
                (Some(Err(why)), Err(e)) => e == why,
                (None, Err(AudioError::Other(what))) => what@
                    == "device enumeration is only supported on Windows"@,
                _ => false,
            },
    {
        match found {
            Some(Err(why)) => Err(why),
            Some(Ok((capture, render))) => Ok(
                DeviceList {
                    capture: enumerate_direction(&capture, E_CAPTURE),
                    render: enumerate_direction(&render, E_RENDER),
                },
            ),
            None => Err(
                AudioError::Other("device enumeration is only supported on Windows".to_owned()),
            ),
        }
    }

    /// The virtual cable's input, where exactly one device passes for it. Which of several
    /// cables gets the microphone is not guessed.
    pub fn find_vb_cable_input(&self) -> (r: Result<&Device, AudioError>)
        ensures
            match r {
                Ok(d) => cables(self.render@) == seq![*d],
                Err(AudioError::VbCableMissing) => cables(self.render@).len() == 0,
                Err(AudioError::AmbiguousDevice(what)) => cables(self.render@).len() >= 2 && what@
                    == "multiple VB-Cable input endpoints found; set output_device_id in config.toml"@,
                Err(_) => false,
            },
    {
        let mut first: Option<&Device> = None;
        let mut i: usize = 0;
        while i < self.render.len()
            invariant
                0 <= i <= self.render.len(),
                match first {
                    Some(d) => cables(self.render@.take(i as int)) == seq![*d],
                    None => cables(self.render@.take(i as int)).len() == 0,
                },
            decreases self.render.len() - i,
        {
            let d: &Device = &self.render[i];
            proof {
                lemma_one_more(self.render@, i as int);
            }
            if d.is_vb_cable_input() {
                if first.is_some() {
                    proof {
                        lemma_prefix_bounds(self.render@, i + 1);
                    }
                    return Err(
                        AudioError::AmbiguousDevice(
                            "multiple VB-Cable input endpoints found; set output_device_id in config.toml".to_owned(),
                        ),
                    );
                }
                first = Some(d);
            }
            i = i + 1;
        }
        proof {
            assert(self.render@.take(self.render@.len() as int) == self.render@);
        }
        match first {
            Some(d) => Ok(d),
            None => Err(AudioError::VbCableMissing),
        }
    }

    /// The first capture device that the system marks as its default.
    pub fn default_capture(&self) -> (r: Option<&Device>)
        ensures
            match r {
                Some(d) => exists|i: int|
                    0 <= i < self.capture@.len() && *d == #[trigger] self.capture@[i] && d.is_default
                        && forall|j: int| 0 <= j < i ==> !(#[trigger] self.capture@[j]).is_default,
                None => forall|j: int|
                    0 <= j < self.capture@.len() ==> !(#[trigger] self.capture@[j]).is_default,
            },
    {
        let mut i: usize = 0;
        while i < self.capture.len()
            invariant
                0 <= i <= self.capture.len(),
                forall|j: int| 0 <= j < i ==> !(#[trigger] self.capture@[j]).is_default,
            decreases self.capture.len() - i,
        {
            if self.capture[i].is_default {
                return Some(&self.capture[i]);
            }
            i = i + 1;
        }
        None
    }
}

proof fn lemma_one_more(render: Seq<Device>, i: int)
    requires
        0 <= i < render.len(),
    ensures
        cables(render.take(i + 1)) == (if render[i].is_cable() {
            cables(render.take(i)).push(render[i])
        } else {
            cables(render.take(i))
        }),
{
    reveal(Seq::filter);
    assert(render.take(i + 1).drop_last() == render.take(i));
}

proof fn lemma_prefix_bounds(render: Seq<Device>, i: int)
    requires
        0 <= i <= render.len(),
    ensures
        cables(render.take(i)).len() <= cables(render).len(),
    decreases render.len() - i,
{
    if i < render.len() {
        lemma_one_more(render, i);
        lemma_prefix_bounds(render, i + 1);
    } else {
        assert(render.take(i) == render);
    }
}

/// The microphone is only ever sent into a render device whose name carries both halves of the
/// virtual cable's; a device that is captured from, or that only looks alike, is never chosen.
pub proof fn law_chosen_cable_is_a_cable(render: Seq<Device>, chosen: Device)
    requires
        cables(render) == seq![chosen],
    ensures
        chosen.is_cable(),
        chosen.direction == DeviceDirection::Render,
        render.contains(chosen),
{
    broadcast use vstd::seq_lib::group_filter_ensures;

    assert(cables(render)[0] == chosen);
    assert(cables(render).contains(chosen));
    render.lemma_filter_contains_rev(cable_test(), chosen);
}

/// A device passes as the virtual cable exactly where audio is rendered into it and its name is
/// made of something, "CABLE Input", and something more, and likewise of "VB-Audio": in either
/// order and wherever they stand. Its ID and whether it is the default make no difference.
pub proof fn law_cable_is_told_by_both_halves(d: Device)
    ensures
        d.is_cable() <==> d.direction == DeviceDirection::Render && (exists|
            a: Seq<char>,
            b: Seq<char>,
        |
            d.friendly_name@ == #[trigger] (a + "CABLE Input"@ + b)) && (exists|
            a: Seq<char>,
            b: Seq<char>,
        |
            d.friendly_name@ == #[trigger] (a + "VB-Audio"@ + b)),
{
    law_held_text_stands_between(d.friendly_name@, "CABLE Input"@);
    law_held_text_stands_between(d.friendly_name@, "VB-Audio"@);
}

proof fn lemma_no_cable(render: Seq<Device>)
    requires
        forall|i: int| 0 <= i < render.len() ==> !(#[trigger] render[i]).is_cable(),
    ensures
        cables(render) == Seq::<Device>::empty(),
    decreases render.len(),
{
    reveal(Seq::filter);
    if render.len() > 0 {
        let before = render.drop_last();
        assert forall|i: int| 0 <= i < before.len() implies !(#[trigger] before[i]).is_cable() by {
            assert(before[i] == render[i]);
        }
        lemma_no_cable(before);
        assert(!render[render.len() - 1].is_cable());
    }
}

/// Where exactly one render device passes as the virtual cable, it is the one that is found.
pub proof fn law_the_one_cable_is_found(render: Seq<Device>, i: int)
    requires
        0 <= i < render.len(),
        render[i].is_cable(),
        forall|j: int| 0 <= j < render.len() && j != i ==> !(#[trigger] render[j]).is_cable(),
    ensures
        cables(render) == seq![render[i]],
    decreases render.len(),
{
    reveal(Seq::filter);
    let n = render.len() - 1;
    let before = render.drop_last();
    if i == n {
        assert forall|j: int| 0 <= j < before.len() implies !(#[trigger] before[j]).is_cable() by {
            assert(before[j] == render[j]);
        }
        lemma_no_cable(before);
    } else {
        assert forall|j: int| 0 <= j < before.len() && j != i implies !(
        #[trigger] before[j]).is_cable() by {
            assert(before[j] == render[j]);
        }
        law_the_one_cable_is_found(before, i);
        assert(!render[n].is_cable());
    }
}

/// Where no render device passes as the virtual cable, none is found.
pub proof fn law_no_cable_is_made_up(render: Seq<Device>)
    requires
        forall|i: int| 0 <= i < render.len() ==> !(#[trigger] render[i]).is_cable(),
    ensures
        cables(render).len() == 0,
{
    lemma_no_cable(render);
}

/// Where two render devices pass as the virtual cable, more than one is found.
pub proof fn law_two_cables_are_noticed(render: Seq<Device>, i: int, j: int)
    requires
        0 <= i < j < render.len(),
        render[i].is_cable(),
        render[j].is_cable(),
    ensures
        cables(render).len() >= 2,
    decreases render.len(),
{
    reveal(Seq::filter);
    let before = render.drop_last();
    if j == render.len() - 1 {
        assert(cable_test()(before[i]));
        before.lemma_filter_contains(cable_test(), i);
        assert(cables(before).len() >= 1);
    } else {
        law_two_cables_are_noticed(before, i, j);
    }
}

/// What is listed of an endpoint, in its own place: its ID, its name (its ID where the name could
/// not be read), the direction that was asked for; and it is marked as the default exactly where
/// its ID is the default one's, whatever its name.
pub proof fn law_endpoints_are_listed_as_they_are(
    devices: Seq<Device>,
    endpoints: Endpoints,
    direction: DeviceDirection,
    i: int,
)
    requires
        describe_all(devices, endpoints, direction),
        0 <= i < endpoints.list@.len(),
    ensures
        devices.len() == endpoints.list@.len(),
        devices[i].id@ == endpoints.list@[i].id@,
        endpoints.list@[i].friendly_name matches Some(name) ==> devices[i].friendly_name@ == name@,
        endpoints.list@[i].friendly_name is None ==> devices[i].friendly_name@ == devices[i].id@,
        devices[i].direction == direction,
        devices[i].is_default <==> endpoints.list@[i].id@ == endpoints.default_id@,
{
    assert(describes(devices[i], endpoints.list@[i], direction, endpoints.default_id@));
}

/// Where the system's default is among the endpoints, the first device marked as the default is
/// the one with that ID; where it is not, no device is marked.
pub proof fn law_the_default_is_found_by_its_id(
    devices: Seq<Device>,
    endpoints: Endpoints,
    direction: DeviceDirection,
)
    requires
        describe_all(devices, endpoints, direction),
    ensures
        forall|i: int|
            0 <= i < devices.len() && (#[trigger] devices[i]).is_default ==> devices[i].id@
                == endpoints.default_id@,
        (exists|i: int|
            0 <= i < endpoints.list@.len() && (#[trigger] endpoints.list@[i]).id@
                == endpoints.default_id@) <==> (exists|i: int|
            0 <= i < devices.len() && (#[trigger] devices[i]).is_default),
{
    assert forall|i: int| 0 <= i < devices.len() implies ((#[trigger] devices[i]).is_default
        <==> endpoints.list@[i].id@ == endpoints.default_id@) && devices[i].id@
        == endpoints.list@[i].id@ by {
        law_endpoints_are_listed_as_they_are(devices, endpoints, direction, i);
    }
    if exists|i: int|
        0 <= i < endpoints.list@.len() && (#[trigger] endpoints.list@[i]).id@
            == endpoints.default_id@ {
        let i = choose|i: int|
            0 <= i < endpoints.list@.len() && (#[trigger] endpoints.list@[i]).id@
                == endpoints.default_id@;
        assert(devices.len() == endpoints.list@.len());
        assert(devices[i].is_default);
    }
    if exists|i: int| 0 <= i < devices.len() && (#[trigger] devices[i]).is_default {
        let i = choose|i: int| 0 <= i < devices.len() && (#[trigger] devices[i]).is_default;
        assert(endpoints.list@[i].id@ == endpoints.default_id@);
    }
}

/// The system's flow code zero is the one that means render.
pub proof fn law_zero_is_the_flow_into_render(flow: i32)
    ensures
        direction_of(flow) == DeviceDirection::Render <==> flow == 0,
        direction_of(flow) == DeviceDirection::Capture <==> flow != 0,
        E_RENDER == 0,
        E_CAPTURE != 0,
{
}

} // verus!
