use vstd::prelude::*;

use crate::channel::{channel_capacity, channel_queue, TransferChannel};
use crate::rate::{negotiate, spec_negotiate, CapsModel, DeviceCaps, StreamParams};
use crate::rate::FALLBACK_SAMPLE_RATE;

verus! {

/// Slots in every transfer channel: enough to absorb scheduling jitter
/// between the capture callback and an output callback.
pub const CHANNEL_CAPACITY: usize = 16384;

/// The 32-bit encoding of the scalar one: the default volume of the input
/// path and of every freshly added route.
pub const UNITY_GAIN: u32 = 0x3F80_0000;

/// The 32-bit encoding of the scalar zero: the sample rendered on underrun
/// and the gain applied while muted.
pub const SILENCE: u32 = 0;

/// The gain a callback applies: the stored volume, or zero while muted.
pub open spec fn spec_effective_gain(volume: u32, muted: bool) -> u32 {
    if muted {
        SILENCE
    } else {
        volume
    }
}

/// The messages the surrounding application sends the engine, one per
/// mutation. Volumes travel as raw 32-bit scalar encodings.
pub enum AudioCommand {
    StartLoopback,
    StopLoopback,
    AddOutput(String),
    RemoveOutput(String),
    SetVolume(String, u32),
    SetMute(String, bool),
    SetInputVolume(u32),
    SetInputMute(bool),
}

/// One output route as a mathematical value.
#[verifier::ext_equal]
pub ghost struct RouteModel {
    pub name: Seq<char>,
    pub queue: Seq<u32>,
    pub capacity: nat,
    pub volume: u32,
    pub muted: bool,
    pub sample_rate: u32,
}

/// The whole engine as a mathematical value.
#[verifier::ext_equal]
pub ghost struct EngineModel {
    pub capture_rate: Option<u32>,
    pub input_volume: u32,
    pub input_muted: bool,
    pub routes: Seq<RouteModel>,
}

impl EngineModel {
    /// Route names are unique and no queue exceeds its channel's capacity.
    pub open spec fn wf(self) -> bool {
        &&& forall|i: int, j: int|
            #![trigger self.routes[i], self.routes[j]]
            0 <= i < j < self.routes.len() ==> self.routes[i].name != self.routes[j].name
        &&& forall|i: int|
            0 <= i < self.routes.len() ==> (#[trigger] self.routes[i]).queue.len()
                <= self.routes[i].capacity
    }

    /// Whether a route with this name is registered.
    pub open spec fn has_route(self, name: Seq<char>) -> bool {
        exists|i: int|
            0 <= i < self.routes.len() && (#[trigger] self.routes[i]).name == name
    }

    /// The index of the route with this name (unique under `wf`).
    pub open spec fn route_index(self, name: Seq<char>) -> int {
        choose|i: int|
            0 <= i < self.routes.len() && (#[trigger] self.routes[i]).name == name
    }

    /// The route with this name.
    pub open spec fn route_named(self, name: Seq<char>) -> RouteModel {
        self.routes[self.route_index(name)]
    }

    /// The rate a new output negotiates against: the capture session's rate
    /// while one exists, and a fixed fallback otherwise.
    pub open spec fn target_rate(self) -> u32 {
        match self.capture_rate {
            Some(r) => r,
            None => FALLBACK_SAMPLE_RATE,
        }
    }
}

/// The engine as first created: no capture session, no routes, input at
/// unity volume and unmuted.
pub open spec fn spec_initial() -> EngineModel {
    EngineModel {
        capture_rate: None,
        input_volume: UNITY_GAIN,
        input_muted: false,
        routes: Seq::empty(),
    }
}

/// Starting capture: a no-op while a session exists or when the host could
/// not negotiate one; otherwise the negotiated rate is recorded.
pub open spec fn spec_start_capture(m: EngineModel, negotiated: Option<u32>) -> EngineModel {
    match m.capture_rate {
        Some(_) => m,
        None => match negotiated {
            Some(r) => EngineModel { capture_rate: Some(r), ..m },
            None => m,
        },
    }
}

/// Stopping capture releases the session; routes stay registered.
pub open spec fn spec_stop_capture(m: EngineModel) -> EngineModel {
    EngineModel { capture_rate: None, ..m }
}

/// One route after a volume change aimed at `name`.
pub open spec fn spec_route_volume(r: RouteModel, name: Seq<char>, volume: u32) -> RouteModel {
    if r.name == name {
        RouteModel { volume, ..r }
    } else {
        r
    }
}

/// Setting a route's volume: only the named route changes, and a name with
/// no route changes nothing.
pub open spec fn spec_set_volume(m: EngineModel, name: Seq<char>, volume: u32) -> EngineModel {
    EngineModel { routes: m.routes.map_values(|r: RouteModel| spec_route_volume(r, name, volume)), ..m }
}

/// One route after a mute change aimed at `name`.
pub open spec fn spec_route_mute(r: RouteModel, name: Seq<char>, muted: bool) -> RouteModel {
    if r.name == name {
        RouteModel { muted, ..r }
    } else {
        r
    }
}

/// Setting a route's mute flag, a no-op for an unknown name.
pub open spec fn spec_set_mute(m: EngineModel, name: Seq<char>, muted: bool) -> EngineModel {
    EngineModel { routes: m.routes.map_values(|r: RouteModel| spec_route_mute(r, name, muted)), ..m }
}

/// Setting the input path's volume.
pub open spec fn spec_set_input_volume(m: EngineModel, volume: u32) -> EngineModel {
    EngineModel { input_volume: volume, ..m }
}

/// Setting the input path's mute flag.
pub open spec fn spec_set_input_mute(m: EngineModel, muted: bool) -> EngineModel {
    EngineModel { input_muted: muted, ..m }
}

/// The capabilities handed to `add_output`, as a mathematical value.
pub open spec fn spec_caps_view(caps: Option<&DeviceCaps>) -> Option<CapsModel> {
    match caps {
        Some(c) => Some(c@),
        None => None,
    }
}

/// Adding an output: a no-op when the name is already routed or the device
/// was not found; otherwise a fresh empty channel and default control state
/// are registered, at the rate negotiated against the engine's target.
pub open spec fn spec_add_output(m: EngineModel, name: Seq<char>, caps: Option<CapsModel>) -> EngineModel {
    if m.has_route(name) {
        m
    } else {
        match caps {
            None => m,
            Some(c) => EngineModel {
                routes: m.routes.push(
                    RouteModel {
                        name,
                        queue: Seq::empty(),
                        capacity: CHANNEL_CAPACITY as nat,
                        volume: UNITY_GAIN,
                        muted: false,
                        sample_rate: spec_negotiate(c, m.target_rate()).sample_rate,
                    },
                ),
                ..m
            },
        }
    }
}

/// The stream `add_output` asks the host to open, when it opens one.
pub open spec fn spec_open_result(m: EngineModel, name: Seq<char>, caps: Option<CapsModel>) -> Option<StreamParams> {
    if m.has_route(name) {
        None
    } else {
        match caps {
            None => None,
            Some(c) => Some(spec_negotiate(c, m.target_rate())),
        }
    }
}

/// Removing an output: the named route leaves the registry, the rest keep
/// their order; a no-op for an unknown name.
pub open spec fn spec_remove_output(m: EngineModel, name: Seq<char>) -> EngineModel {
    if m.has_route(name) {
        EngineModel { routes: m.routes.remove(m.route_index(name)), ..m }
    } else {
        m
    }
}

/// What a bounded queue accepts of a block: the whole block if it fits in
/// the free slots, and otherwise the prefix that fills them; the rest is
/// dropped.
pub open spec fn spec_accept(queue: Seq<u32>, capacity: nat, block: Seq<u32>) -> Seq<u32> {
    let free = if queue.len() <= capacity {
        capacity - queue.len()
    } else {
        0
    };
    if block.len() <= free {
        queue + block
    } else {
        queue + block.take(free as int)
    }
}

/// One route after the capture fan-out delivered a block to it.
pub open spec fn spec_deliver(r: RouteModel, block: Seq<u32>) -> RouteModel {
    RouteModel { queue: spec_accept(r.queue, r.capacity, block), ..r }
}

/// The capture fan-out: every route's channel accepts what it has room for,
/// independently of the others.
pub open spec fn spec_fan_out(m: EngineModel, block: Seq<u32>) -> EngineModel {
    EngineModel { routes: m.routes.map_values(|r: RouteModel| spec_deliver(r, block)), ..m }
}

/// What an output callback renders into `n` slots from a queue: the queued
/// samples in order, then silence for every slot the queue ran out of.
pub open spec fn spec_render_slots(queue: Seq<u32>, n: nat) -> Seq<u32> {
    Seq::new(n, |i: int| if i < queue.len() { queue[i] } else { SILENCE })
}

/// A queue after `n` slots were rendered from it.
pub open spec fn spec_drained_queue(queue: Seq<u32>, n: nat) -> Seq<u32> {
    if n < queue.len() {
        queue.skip(n as int)
    } else {
        Seq::empty()
    }
}

/// One route after a render pass aimed at `name`.
pub open spec fn spec_route_drain(r: RouteModel, name: Seq<char>, n: nat) -> RouteModel {
    if r.name == name {
        RouteModel { queue: spec_drained_queue(r.queue, n), ..r }
    } else {
        r
    }
}

/// The engine after the named route rendered `n` slots.
pub open spec fn spec_drain(m: EngineModel, name: Seq<char>, n: nat) -> EngineModel {
    EngineModel { routes: m.routes.map_values(|r: RouteModel| spec_route_drain(r, name, n)), ..m }
}

/// One output route: its transfer channel's consumer side, its control
/// state, and the rate its hardware stream was opened at.
struct OutputRoute {
    name: String,
    channel: TransferChannel,
    volume: u32,
    muted: bool,
    sample_rate: u32,
}

impl View for OutputRoute {
    type V = RouteModel;

    closed spec fn view(&self) -> RouteModel {
        RouteModel {
            name: self.name@,
            queue: channel_queue(self.channel),
            capacity: channel_capacity(self.channel),
            volume: self.volume,
            muted: self.muted,
            sample_rate: self.sample_rate,
        }
    }
}

/// The engine actor's state: the single owner of the capture session, the
/// route registry, and all control cells. One thread drives it, one command
/// at a time, so no two structural changes ever race.
pub struct AudioActor {
    capture_rate: Option<u32>,
    input_volume: u32,
    input_muted: bool,
    routes: Vec<OutputRoute>,
}

impl View for AudioActor {
    type V = EngineModel;

    closed spec fn view(&self) -> EngineModel {
        EngineModel {
            capture_rate: self.capture_rate,
            input_volume: self.input_volume,
            input_muted: self.input_muted,
            routes: self.routes@.map_values(|r: OutputRoute| r@),
        }
    }
}

impl AudioActor {
    /// A fresh engine: nothing captured, nothing routed.
    pub fn new() -> (actor: AudioActor)
        ensures
            actor@ == spec_initial(),
            actor@.wf(),
    {
        let actor = AudioActor {
            capture_rate: None,
            input_volume: UNITY_GAIN,
            input_muted: false,
            routes: Vec::new(),
        };
        proof {
            assert(actor@.routes =~= spec_initial().routes);
            assert(actor@ =~= spec_initial());
        }
        actor
    }

    /// Whether a capture session is running.
    pub fn capture_active(&self) -> (active: bool)
        ensures
            active == (self@.capture_rate is Some),
    {
        self.capture_rate.is_some()
    }

    /// The rate a new output should negotiate against right now.
    pub fn target_rate(&self) -> (rate: u32)
        ensures
            rate == self@.target_rate(),
    {
        match self.capture_rate {
            Some(r) => r,
            None => FALLBACK_SAMPLE_RATE,
        }
    }

    /// How many routes are registered.
    pub fn route_count(&self) -> (n: usize)
        ensures
            n == self@.routes.len(),
    {
        self.routes.len()
    }

    /// Whether the named route is registered.
    pub fn has_output(&self, device_name: &String) -> (present: bool)
        ensures
            present == self@.has_route(device_name@),
    {
        let n = self.routes.len();
        let mut k: usize = 0;
        while k < n
            invariant
                k <= n,
                n == self.routes@.len(),
                forall|j: int| 0 <= j < k ==> (#[trigger] self@.routes[j]).name != device_name@,
            decreases n - k,
        {
            if self.routes[k].name == *device_name {
                proof {
                    assert(self@.routes[k as int].name == device_name@);
                }
                return true;
            }
            k += 1;
        }
        false
    }

    /// Records the negotiated capture rate; a no-op while a session already
    /// runs or when the host could not open one.
    pub fn start_loopback(&mut self, negotiated: Option<u32>)
        ensures
            final(self)@ == spec_start_capture(old(self)@, negotiated),
            old(self)@.wf() ==> final(self)@.wf(),
    {
        if self.capture_rate.is_none() {
            if let Some(r) = negotiated {
                self.capture_rate = Some(r);
            }
        }
        proof {
            assert(final(self)@ =~= spec_start_capture(old(self)@, negotiated));
        }
    }

    /// Releases the capture session. Routes stay alive; their channels now
    /// drain to empty and their outputs render silence.
    pub fn stop_loopback(&mut self)
        ensures
            final(self)@ == spec_stop_capture(old(self)@),
            old(self)@.wf() ==> final(self)@.wf(),
    {
        self.capture_rate = None;
        proof {
            assert(final(self)@ =~= spec_stop_capture(old(self)@));
        }
    }

    /// Sets the input path's volume.
    pub fn set_input_volume(&mut self, volume: u32)
        ensures
            final(self)@ == spec_set_input_volume(old(self)@, volume),
            old(self)@.wf() ==> final(self)@.wf(),
    {
        self.input_volume = volume;
        proof {
            assert(final(self)@ =~= spec_set_input_volume(old(self)@, volume));
        }
    }

    /// Sets the input path's mute flag.
    pub fn set_input_mute(&mut self, muted: bool)
        ensures
            final(self)@ == spec_set_input_mute(old(self)@, muted),
            old(self)@.wf() ==> final(self)@.wf(),
    {
        self.input_muted = muted;
        proof {
            assert(final(self)@ =~= spec_set_input_mute(old(self)@, muted));
        }
    }

    /// The gain the capture callback applies before fanning a block out.
    pub fn input_gain(&self) -> (gain: u32)
        ensures
            gain == spec_effective_gain(self@.input_volume, self@.input_muted),
    {
        if self.input_muted {
            SILENCE
        } else {
            self.input_volume
        }
    }

    /// Sets the named route's volume; a name with no route changes nothing.
    pub fn set_volume(&mut self, device_name: String, volume: u32)
        ensures
            final(self)@ == spec_set_volume(old(self)@, device_name@, volume),
            old(self)@.wf() ==> final(self)@.wf(),
    {
        let n = self.routes.len();
        let mut k: usize = 0;
        while k < n
            invariant
                k <= n,
                n == self.routes@.len(),
                n == old(self).routes@.len(),
                self.capture_rate == old(self).capture_rate,
                self.input_volume == old(self).input_volume,
                self.input_muted == old(self).input_muted,
                forall|j: int| 0 <= j < k ==> #[trigger] self.routes@[j]@ == spec_route_volume(
                    old(self).routes@[j]@,
                    device_name@,
                    volume,
                ),
                forall|j: int| k <= j < n ==> #[trigger] self.routes@[j] == old(self).routes@[j],
            decreases n - k,
        {
            if self.routes[k].name == device_name {
                let route = &mut self.routes[k];
                route.volume = volume;
            }
            k += 1;
        }
        proof {
            assert(final(self)@.routes =~= spec_set_volume(old(self)@, device_name@, volume).routes);
            assert(final(self)@ =~= spec_set_volume(old(self)@, device_name@, volume));
            if old(self)@.wf() {
                lemma_map_routes_preserves_wf(
                    old(self)@,
                    final(self)@,
                    |r: RouteModel| spec_route_volume(r, device_name@, volume),
                );
            }
        }
    }

    /// Sets the named route's mute flag; a name with no route changes
    /// nothing.
    pub fn set_mute(&mut self, device_name: String, muted: bool)
        ensures
            final(self)@ == spec_set_mute(old(self)@, device_name@, muted),
            old(self)@.wf() ==> final(self)@.wf(),
    {
        let n = self.routes.len();
        let mut k: usize = 0;
        while k < n
            invariant
                k <= n,
                n == self.routes@.len(),
                n == old(self).routes@.len(),
                self.capture_rate == old(self).capture_rate,
                self.input_volume == old(self).input_volume,
                self.input_muted == old(self).input_muted,
                forall|j: int| 0 <= j < k ==> #[trigger] self.routes@[j]@ == spec_route_mute(
                    old(self).routes@[j]@,
                    device_name@,
                    muted,
                ),
                forall|j: int| k <= j < n ==> #[trigger] self.routes@[j] == old(self).routes@[j],
            decreases n - k,
        {
            if self.routes[k].name == device_name {
                let route = &mut self.routes[k];
                route.muted = muted;
            }
            k += 1;
        }
        proof {
            assert(final(self)@.routes =~= spec_set_mute(old(self)@, device_name@, muted).routes);
            assert(final(self)@ =~= spec_set_mute(old(self)@, device_name@, muted));
            if old(self)@.wf() {
                lemma_map_routes_preserves_wf(
                    old(self)@,
                    final(self)@,
                    |r: RouteModel| spec_route_mute(r, device_name@, muted),
                );
            }
        }
    }

    /// Registers a new route: resolves nothing itself, but decides from the
    /// handed capabilities which stream the host should open, creates the
    /// transfer channel and the default control state. A no-op when the name
    /// is already routed or the device was not found.
    pub fn add_output(&mut self, device_name: String, caps: Option<&DeviceCaps>) -> (opened: Option<
        StreamParams,
    >)
        requires
            old(self)@.wf(),
        ensures
            final(self)@ == spec_add_output(old(self)@, device_name@, spec_caps_view(caps)),
            final(self)@.wf(),
            opened == spec_open_result(old(self)@, device_name@, spec_caps_view(caps)),
    {
        if self.has_output(&device_name) {
            return None;
        }
        let c = match caps {
            Some(c) => c,
            None => {
                return None;
            },
        };
        let params = negotiate(c, self.target_rate());
        let channel = TransferChannel::new(CHANNEL_CAPACITY);
        let route = OutputRoute {
            name: device_name,
            channel,
            volume: UNITY_GAIN,
            muted: false,
            sample_rate: params.sample_rate,
        };
        self.routes.push(route);
        proof {
            let m = old(self)@;
            let target = spec_add_output(m, route.name@, spec_caps_view(caps));
            assert(final(self)@.routes =~= target.routes);
            assert(final(self)@ =~= target);
            lemma_add_preserves_wf(m, route.name@, spec_caps_view(caps));
        }
        Some(params)
    }

    /// Drops the named route: it leaves the registry and its channel with
    /// it; the remaining routes keep their order. A no-op for an unknown
    /// name.
    pub fn remove_output(&mut self, device_name: String)
        requires
            old(self)@.wf(),
        ensures
            final(self)@ == spec_remove_output(old(self)@, device_name@),
            final(self)@.wf(),
    {
        let n = self.routes.len();
        let mut k: usize = 0;
        while k < n
            invariant
                k <= n,
                n == self.routes@.len(),
                *self == *old(self),
                old(self)@.wf(),
                forall|j: int| 0 <= j < k ==> (#[trigger] self@.routes[j]).name != device_name@,
            decreases n - k,
        {
            if self.routes[k].name == device_name {
                self.routes.remove(k);
                proof {
                    let m = old(self)@;
                    assert(m.routes[k as int].name == device_name@);
                    lemma_route_index_unique(m, device_name@, k as int);
                    assert(final(self)@.routes =~= m.routes.remove(k as int)) by {
                        lemma_map_values_remove(old(self).routes@, k as int);
                    }
                    assert(final(self)@ =~= spec_remove_output(m, device_name@));
                    lemma_remove_preserves_wf(m, device_name@);
                }
                return;
            }
            k += 1;
        }
        proof {
            assert(!old(self)@.has_route(device_name@));
        }
    }

    /// Fans one block of already-scaled samples out to every route: each
    /// channel accepts what it has room for and drops the rest, so a slow
    /// or full route never stalls the others.
    pub fn fan_out(&mut self, block: &Vec<u32>)
        requires
            old(self)@.wf(),
        ensures
            final(self)@ == spec_fan_out(old(self)@, block@),
            final(self)@.wf(),
    {
        let n = self.routes.len();
        let mut k: usize = 0;
        while k < n
            invariant
                k <= n,
                n == self.routes@.len(),
                n == old(self).routes@.len(),
                self.capture_rate == old(self).capture_rate,
                self.input_volume == old(self).input_volume,
                self.input_muted == old(self).input_muted,
                old(self)@.wf(),
                forall|j: int| 0 <= j < k ==> #[trigger] self.routes@[j]@ == spec_deliver(
                    old(self).routes@[j]@,
                    block@,
                ),
                forall|j: int| k <= j < n ==> #[trigger] self.routes@[j] == old(self).routes@[j],
            decreases n - k,
        {
            proof {
                assert(old(self)@.routes[k as int] == old(self).routes@[k as int]@);
            }
            let route = &mut self.routes[k];
            let ghost q0 = channel_queue(route.channel);
            let ghost cap = channel_capacity(route.channel);
            let ghost free: int = if q0.len() <= cap {
                cap - q0.len()
            } else {
                0
            };
            let ghost r0 = *route;
            let m = block.len();
            let mut i: usize = 0;
            while i < m
                invariant
                    i <= m,
                    m == block@.len(),
                    route.name == r0.name,
                    route.volume == r0.volume,
                    route.muted == r0.muted,
                    route.sample_rate == r0.sample_rate,
                    channel_capacity(route.channel) == cap,
                    q0 == channel_queue(r0.channel),
                    cap == channel_capacity(r0.channel),
                    free == (if q0.len() <= cap { cap - q0.len() } else { 0int }),
                    channel_queue(route.channel) == spec_accept(q0, cap, block@.take(i as int)),
                decreases m - i,
            {
                proof {
                    assert(block@.take(i as int).len() == i as int);
                    if i < free {
                        assert(spec_accept(q0, cap, block@.take(i as int)) == q0 + block@.take(
                            i as int,
                        ));
                    }
                }
                let _ = route.channel.try_push(block[i]);
                proof {
                    let prev = spec_accept(q0, cap, block@.take(i as int));
                    let next = spec_accept(q0, cap, block@.take(i as int + 1));
                    assert(block@.take(i as int + 1) =~= block@.take(i as int).push(
                        block@[i as int],
                    ));
                    if i < free {
                        assert(prev.len() < cap);
                        assert(next =~= prev.push(block@[i as int]));
                    } else {
                        assert(prev.len() >= cap);
                        assert(block@.take(i as int + 1).take(free) =~= block@.take(
                            i as int,
                        ).take(free));
                        assert(next =~= prev);
                    }
                }
                i += 1;
            }
            proof {
                assert(block@.take(m as int) =~= block@);
                assert(route@ =~= spec_deliver(r0@, block@));
            }
            k += 1;
        }
        proof {
            assert(final(self)@.routes =~= spec_fan_out(old(self)@, block@).routes);
            assert(final(self)@ =~= spec_fan_out(old(self)@, block@));
            lemma_fan_out_preserves_wf(old(self)@, block@);
        }
    }

    /// Renders `slot_count` slots for the named route: pops one queued
    /// sample per slot, substitutes silence on underrun, and hands back the
    /// gain the callback multiplies each slot by. Returns nothing when the
    /// name has no route.
    pub fn render(&mut self, device_name: &String, slot_count: usize) -> (out: Option<(u32, Vec<u32>)>)
        requires
            old(self)@.wf(),
        ensures
            final(self)@ == spec_drain(old(self)@, device_name@, slot_count as nat),
            final(self)@.wf(),
            match out {
                None => !old(self)@.has_route(device_name@),
                Some(p) => {
                    &&& old(self)@.has_route(device_name@)
                    &&& p.0 == spec_effective_gain(
                        old(self)@.route_named(device_name@).volume,
                        old(self)@.route_named(device_name@).muted,
                    )
                    &&& p.1@ == spec_render_slots(
                        old(self)@.route_named(device_name@).queue,
                        slot_count as nat,
                    )
                },
            },
    {
        let n = self.routes.len();
        let mut k: usize = 0;
        while k < n
            invariant
                k <= n,
                n == self.routes@.len(),
                *self == *old(self),
                old(self)@.wf(),
                forall|j: int| 0 <= j < k ==> (#[trigger] self@.routes[j]).name != device_name@,
            decreases n - k,
        {
            if self.routes[k].name == *device_name {
                proof {
                    let m = old(self)@;
                    assert(m.routes[k as int].name == device_name@);
                    lemma_route_index_unique(m, device_name@, k as int);
                }
                let route = &mut self.routes[k];
                let gain = if route.muted {
                    SILENCE
                } else {
                    route.volume
                };
                let ghost q0 = channel_queue(route.channel);
                let ghost r0 = *route;
                let mut rendered: Vec<u32> = Vec::new();
                let mut i: usize = 0;
                while i < slot_count
                    invariant
                        i <= slot_count,
                        rendered@.len() == i as int,
                        route.name == r0.name,
                        route.volume == r0.volume,
                        route.muted == r0.muted,
                        route.sample_rate == r0.sample_rate,
                        channel_capacity(route.channel) == channel_capacity(r0.channel),
                        q0 == channel_queue(r0.channel),
                        channel_queue(route.channel) == spec_drained_queue(q0, i as nat),
                        forall|j: int| 0 <= j < i ==> rendered@[j] == (if j < q0.len() {
                            q0[j]
                        } else {
                            SILENCE
                        }),
                    decreases slot_count - i,
                {
                    let popped = route.channel.pop();
                    let v = match popped {
                        Some(s) => s,
                        None => SILENCE,
                    };
                    proof {
                        if i < q0.len() {
                            assert(spec_drained_queue(q0, i as nat)[0] == q0[i as int]);
                            assert(spec_drained_queue(q0, i as nat).drop_first() =~= spec_drained_queue(
                                q0,
                                i as nat + 1,
                            ));
                        }
                    }
                    rendered.push(v);
                    i += 1;
                }
                proof {
                    assert(rendered@ =~= spec_render_slots(q0, slot_count as nat));
                    assert(route@ =~= spec_route_drain(r0@, device_name@, slot_count as nat));
                }
                proof {
                    let m = old(self)@;
                    assert forall|j: int| 0 <= j < m.routes.len() && j != k as int
                        implies (#[trigger] m.routes[j]).name != device_name@ by {
                        if j < k as int {
                            assert(m.routes[j].name != m.routes[k as int].name);
                        } else {
                            assert(m.routes[k as int].name != m.routes[j].name);
                        }
                    }
                    assert(final(self)@.routes =~= spec_drain(
                        m,
                        device_name@,
                        slot_count as nat,
                    ).routes);
                    assert(final(self)@ =~= spec_drain(m, device_name@, slot_count as nat));
                    lemma_map_routes_preserves_wf(
                        m,
                        final(self)@,
                        |r: RouteModel| spec_route_drain(r, device_name@, slot_count as nat),
                    );
                    assert(m.route_named(device_name@) == m.routes[k as int]);
                }
                return Some((gain, rendered));
            }
            k += 1;
        }
        proof {
            let m = old(self)@;
            assert(!m.has_route(device_name@));
            assert(final(self)@.routes =~= spec_drain(m, device_name@, slot_count as nat).routes);
            assert(final(self)@ =~= spec_drain(m, device_name@, slot_count as nat));
            lemma_map_routes_preserves_wf(
                m,
                final(self)@,
                |r: RouteModel| spec_route_drain(r, device_name@, slot_count as nat),
            );
        }
        None
    }
}

/// Under `wf`, a scan that found a name found the route's unique index.
pub(crate) proof fn lemma_route_index_unique(m: EngineModel, name: Seq<char>, k: int)
    requires
        m.wf(),
        0 <= k < m.routes.len(),
        m.routes[k].name == name,
    ensures
        m.has_route(name),
        m.route_index(name) == k,
{
    assert(m.has_route(name));
    let idx = m.route_index(name);
    assert(0 <= idx < m.routes.len() && m.routes[idx].name == name);
    if idx < k {
        assert(m.routes[idx].name != m.routes[k].name);
    } else if idx > k {
        assert(m.routes[k].name != m.routes[idx].name);
    }
}

/// Mapping the routes with a function that keeps each route's name and
/// keeps each queue within its capacity preserves well-formedness.
proof fn lemma_map_routes_preserves_wf(m: EngineModel, m2: EngineModel, f: spec_fn(RouteModel) -> RouteModel)
    requires
        m.wf(),
        m2.routes == m.routes.map_values(f),
        forall|r: RouteModel| (#[trigger] f(r)).name == r.name,
        forall|r: RouteModel| r.queue.len() <= r.capacity ==> (#[trigger] f(r)).queue.len() <= f(
            r,
        ).capacity,
    ensures
        m2.wf(),
{
    assert forall|i: int, j: int|
        0 <= i < j < m2.routes.len() implies #[trigger] m2.routes[i].name != #[trigger] m2.routes[j].name by {
        assert(m2.routes[i] == f(m.routes[i]));
        assert(m2.routes[j] == f(m.routes[j]));
    }
    assert forall|i: int| 0 <= i < m2.routes.len() implies (#[trigger] m2.routes[i]).queue.len()
        <= m2.routes[i].capacity by {
        assert(m2.routes[i] == f(m.routes[i]));
    }
}

/// Adding an output preserves well-formedness.
pub proof fn lemma_add_preserves_wf(m: EngineModel, name: Seq<char>, caps: Option<CapsModel>)
    requires
        m.wf(),
    ensures
        spec_add_output(m, name, caps).wf(),
{
    if !m.has_route(name) && caps is Some {
        let m2 = spec_add_output(m, name, caps);
        assert forall|i: int, j: int|
            0 <= i < j < m2.routes.len() implies #[trigger] m2.routes[i].name
            != #[trigger] m2.routes[j].name by {
            if j == m.routes.len() {
                assert(m2.routes[i] == m.routes[i]);
                if m.routes[i].name == name {
                    assert(m.has_route(name));
                }
            } else {
                assert(m2.routes[i] == m.routes[i]);
                assert(m2.routes[j] == m.routes[j]);
            }
        }
        assert forall|i: int| 0 <= i < m2.routes.len() implies (#[trigger] m2.routes[i]).queue.len()
            <= m2.routes[i].capacity by {
            if i < m.routes.len() {
                assert(m2.routes[i] == m.routes[i]);
            }
        }
    }
}

/// Removing an output preserves well-formedness.
pub proof fn lemma_remove_preserves_wf(m: EngineModel, name: Seq<char>)
    requires
        m.wf(),
    ensures
        spec_remove_output(m, name).wf(),
{
    if m.has_route(name) {
        let idx = m.route_index(name);
        assert(0 <= idx < m.routes.len());
        let m2 = spec_remove_output(m, name);
        m.routes.remove_ensures(idx);
        assert forall|i: int, j: int|
            0 <= i < j < m2.routes.len() implies #[trigger] m2.routes[i].name
            != #[trigger] m2.routes[j].name by {
            let i0 = if i < idx { i } else { i + 1 };
            let j0 = if j < idx { j } else { j + 1 };
            assert(m2.routes[i] == m.routes[i0]);
            assert(m2.routes[j] == m.routes[j0]);
        }
        assert forall|i: int| 0 <= i < m2.routes.len() implies (#[trigger] m2.routes[i]).queue.len()
            <= m2.routes[i].capacity by {
            let i0 = if i < idx { i } else { i + 1 };
            assert(m2.routes[i] == m.routes[i0]);
        }
    }
}

/// The fan-out preserves well-formedness: names are untouched and a queue
/// never grows past its capacity.
pub proof fn lemma_fan_out_preserves_wf(m: EngineModel, block: Seq<u32>)
    requires
        m.wf(),
    ensures
        spec_fan_out(m, block).wf(),
{
    lemma_map_routes_preserves_wf(
        m,
        spec_fan_out(m, block),
        |r: RouteModel| spec_deliver(r, block),
    );
}

/// Removing a mapped element commutes with mapping: used to relate the
/// registry view before and after a removal.
proof fn lemma_map_values_remove(s: Seq<OutputRoute>, i: int)
    requires
        0 <= i < s.len(),
    ensures
        s.remove(i).map_values(|r: OutputRoute| r@) == s.map_values(|r: OutputRoute| r@).remove(i),
{
    s.remove_ensures(i);
    s.map_values(|r: OutputRoute| r@).remove_ensures(i);
    assert(s.remove(i).map_values(|r: OutputRoute| r@) =~= s.map_values(
        |r: OutputRoute| r@,
    ).remove(i));
}

} // verus!
