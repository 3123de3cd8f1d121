use vstd::prelude::*;

use crate::engine::{
    lemma_add_preserves_wf, lemma_fan_out_preserves_wf, lemma_remove_preserves_wf,
    lemma_route_index_unique, spec_add_output, spec_deliver, spec_effective_gain, spec_fan_out,
    spec_remove_output, spec_render_slots, spec_route_mute, spec_route_volume, spec_set_mute,
    spec_set_volume, EngineModel, SILENCE,
};
use crate::rate::{first_matching_range, rate_in_range, spec_negotiate, CapsModel, ConfigRange};

verus! {

/// While a route is muted its rendered gain is zero whatever its volume
/// holds, and while it is unmuted the gain is exactly the stored volume.
pub proof fn lemma_mute_overrides_volume(volume: u32)
    ensures
        spec_effective_gain(volume, true) == SILENCE,
        spec_effective_gain(volume, false) == volume,
{
}

/// Adding an output and removing it right away restores the registry to
/// what it was before the addition.
pub proof fn lemma_add_then_remove_restores(m: EngineModel, name: Seq<char>, caps: Option<CapsModel>)
    requires
        m.wf(),
        !m.has_route(name),
    ensures
        spec_remove_output(spec_add_output(m, name, caps), name) == m,
{
    match caps {
        None => {
            assert(spec_remove_output(spec_add_output(m, name, caps), name) == m);
        },
        Some(_) => {
            let m2 = spec_add_output(m, name, caps);
            let n = m.routes.len() as int;
            assert(m2.routes[n].name == name);
            lemma_add_preserves_wf(m, name, caps);
            lemma_route_index_unique(m2, name, n);
            m2.routes.remove_ensures(n);
            assert(m2.routes.remove(n) =~= m.routes);
            assert(spec_remove_output(m2, name) =~= m);
        },
    }
}

/// Adding a name that is already routed changes nothing: no second channel
/// and no second route appear.
pub proof fn lemma_add_present_is_noop(m: EngineModel, name: Seq<char>, caps: Option<CapsModel>)
    requires
        m.has_route(name),
    ensures
        spec_add_output(m, name, caps) == m,
{
}

/// A volume change aimed at a name with no route changes nothing.
pub proof fn lemma_set_volume_unknown_is_noop(m: EngineModel, name: Seq<char>, volume: u32)
    requires
        !m.has_route(name),
    ensures
        spec_set_volume(m, name, volume) == m,
{
    assert forall|i: int| 0 <= i < m.routes.len() implies spec_route_volume(
        #[trigger] m.routes[i],
        name,
        volume,
    ) == m.routes[i] by {
        if m.routes[i].name == name {
            assert(m.has_route(name));
        }
    }
    assert(spec_set_volume(m, name, volume).routes =~= m.routes);
    assert(spec_set_volume(m, name, volume) =~= m);
}

/// A mute change aimed at a name with no route changes nothing.
pub proof fn lemma_set_mute_unknown_is_noop(m: EngineModel, name: Seq<char>, muted: bool)
    requires
        !m.has_route(name),
    ensures
        spec_set_mute(m, name, muted) == m,
{
    assert forall|i: int| 0 <= i < m.routes.len() implies spec_route_mute(
        #[trigger] m.routes[i],
        name,
        muted,
    ) == m.routes[i] by {
        if m.routes[i].name == name {
            assert(m.has_route(name));
        }
    }
    assert(spec_set_mute(m, name, muted).routes =~= m.routes);
    assert(spec_set_mute(m, name, muted) =~= m);
}

/// Every slot past what the queue held is rendered as silence, never a
/// stale value.
pub proof fn lemma_underrun_renders_silence(queue: Seq<u32>, n: nat, i: int)
    requires
        queue.len() <= i < n,
    ensures
        spec_render_slots(queue, n)[i] == SILENCE,
{
}

/// Removing a route leaves every other route exactly as it was.
pub proof fn lemma_remove_keeps_other(m: EngineModel, name: Seq<char>, other: Seq<char>)
    requires
        m.wf(),
        m.has_route(other),
        other != name,
    ensures
        spec_remove_output(m, name).has_route(other),
        spec_remove_output(m, name).route_named(other) == m.route_named(other),
{
    let i = m.route_index(other);
    assert(0 <= i < m.routes.len() && m.routes[i].name == other);
    lemma_route_index_unique(m, other, i);
    if m.has_route(name) {
        let r = m.route_index(name);
        assert(0 <= r < m.routes.len() && m.routes[r].name == name);
        assert(i != r);
        let m2 = spec_remove_output(m, name);
        m.routes.remove_ensures(r);
        let i2 = if i < r {
            i
        } else {
            i - 1
        };
        assert(m2.routes[i2] == m.routes[i]);
        lemma_remove_preserves_wf(m, name);
        lemma_route_index_unique(m2, other, i2);
    }
}

/// The fan-out keeps every route registered and delivers to it exactly
/// what its own free space accepts of the block.
pub proof fn lemma_fan_out_keeps_route(m: EngineModel, name: Seq<char>, block: Seq<u32>)
    requires
        m.wf(),
        m.has_route(name),
    ensures
        spec_fan_out(m, block).has_route(name),
        spec_fan_out(m, block).route_named(name) == spec_deliver(m.route_named(name), block),
{
    let i = m.route_index(name);
    assert(0 <= i < m.routes.len() && m.routes[i].name == name);
    lemma_route_index_unique(m, name, i);
    let m2 = spec_fan_out(m, block);
    assert(m2.routes[i] == spec_deliver(m.routes[i], block));
    lemma_fan_out_preserves_wf(m, block);
    lemma_route_index_unique(m2, name, i);
}

/// Removing one output does not change what the fan-out delivers to any
/// other route.
pub proof fn lemma_fan_out_independent_of_removal(
    m: EngineModel,
    removed: Seq<char>,
    other: Seq<char>,
    block: Seq<u32>,
)
    requires
        m.wf(),
        m.has_route(other),
        other != removed,
    ensures
        spec_fan_out(spec_remove_output(m, removed), block).has_route(other),
        spec_fan_out(spec_remove_output(m, removed), block).route_named(other) == spec_fan_out(
            m,
            block,
        ).route_named(other),
{
    lemma_remove_keeps_other(m, removed, other);
    lemma_remove_preserves_wf(m, removed);
    lemma_fan_out_keeps_route(spec_remove_output(m, removed), other, block);
    lemma_fan_out_keeps_route(m, other, block);
}

/// When some supported range contains the target rate, negotiation fixes
/// the stream to the target exactly.
pub proof fn lemma_negotiate_rate_exact(caps: CapsModel, target: u32)
    requires
        exists|i: int|
            0 <= i < caps.supported.len() && rate_in_range(#[trigger] caps.supported[i], target),
    ensures
        spec_negotiate(caps, target).sample_rate == target,
{
    lemma_first_match_found(caps.supported, target);
}

/// When no supported range contains the target rate, negotiation falls
/// back to the device's own default configuration.
pub proof fn lemma_negotiate_falls_back(caps: CapsModel, target: u32)
    requires
        forall|i: int|
            0 <= i < caps.supported.len() ==> !rate_in_range(#[trigger] caps.supported[i], target),
    ensures
        spec_negotiate(caps, target) == caps.fallback,
{
    lemma_first_match_none(caps.supported, target);
}

proof fn lemma_first_match_found(ranges: Seq<ConfigRange>, target: u32)
    requires
        exists|i: int| 0 <= i < ranges.len() && rate_in_range(#[trigger] ranges[i], target),
    ensures
        first_matching_range(ranges, target) is Some,
    decreases ranges.len(),
{
    if !rate_in_range(ranges[0], target) {
        let i = choose|i: int| 0 <= i < ranges.len() && rate_in_range(#[trigger] ranges[i], target);
        assert(ranges.drop_first()[i - 1] == ranges[i]);
        lemma_first_match_found(ranges.drop_first(), target);
    }
}

proof fn lemma_first_match_none(ranges: Seq<ConfigRange>, target: u32)
    requires
        forall|i: int| 0 <= i < ranges.len() ==> !rate_in_range(#[trigger] ranges[i], target),
    ensures
        first_matching_range(ranges, target) is None,
    decreases ranges.len(),
{
    if ranges.len() > 0 {
        assert forall|i: int| 0 <= i < ranges.drop_first().len() implies !rate_in_range(
            #[trigger] ranges.drop_first()[i],
            target,
        ) by {
            assert(ranges.drop_first()[i] == ranges[i + 1]);
        }
        lemma_first_match_none(ranges.drop_first(), target);
    }
}

} // verus!
