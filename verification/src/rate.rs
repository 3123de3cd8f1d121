use vstd::prelude::*;

verus! {

/// The sample rate an output falls back to when no capture session fixes one.
pub const FALLBACK_SAMPLE_RATE: u32 = 48000;

/// One supported configuration of an output device: a channel count and a
/// closed range of sample rates the device accepts for it.
#[derive(Clone, Copy, Debug, PartialEq, Eq, Structural)]
pub struct ConfigRange {
    pub channels: u16,
    pub min_rate: u32,
    pub max_rate: u32,
}

/// A concrete stream configuration: a channel count and one exact rate.
#[derive(Clone, Copy, Debug, PartialEq, Eq, Structural)]
pub struct StreamParams {
    pub channels: u16,
    pub sample_rate: u32,
}

/// What the host reports about one output device: its supported
/// configuration ranges, in the order the host enumerates them, and its
/// own default configuration.
pub struct DeviceCaps {
    pub supported: Vec<ConfigRange>,
    pub fallback: StreamParams,
}

/// The capabilities of a device as a mathematical value.
#[verifier::ext_equal]
pub ghost struct CapsModel {
    pub supported: Seq<ConfigRange>,
    pub fallback: StreamParams,
}

impl View for DeviceCaps {
    type V = CapsModel;

    open spec fn view(&self) -> CapsModel {
        CapsModel { supported: self.supported@, fallback: self.fallback }
    }
}

/// Whether a configuration range accepts the given rate.
pub open spec fn rate_in_range(r: ConfigRange, target: u32) -> bool {
    r.min_rate <= target && target <= r.max_rate
}

/// The first configuration range that accepts the target rate, if any.
pub open spec fn first_matching_range(ranges: Seq<ConfigRange>, target: u32) -> Option<ConfigRange>
    decreases ranges.len(),
{
    if ranges.len() == 0 {
        None
    } else if rate_in_range(ranges[0], target) {
        Some(ranges[0])
    } else {
        first_matching_range(ranges.drop_first(), target)
    }
}

/// The configuration an output is opened with: the first supported range
/// whose rate interval contains the target, fixed to the target exactly, and
/// the device's own default configuration when no range matches.
pub open spec fn spec_negotiate(caps: CapsModel, target: u32) -> StreamParams {
    match first_matching_range(caps.supported, target) {
        Some(r) => StreamParams { channels: r.channels, sample_rate: target },
        None => caps.fallback,
    }
}

proof fn lemma_first_matching_skip(ranges: Seq<ConfigRange>, target: u32, k: int)
    requires
        0 <= k < ranges.len(),
        !rate_in_range(ranges[k], target),
    ensures
        first_matching_range(ranges.skip(k), target) == first_matching_range(
            ranges.skip(k + 1),
            target,
        ),
{
    assert(ranges.skip(k)[0] == ranges[k]);
    assert(ranges.skip(k).drop_first() =~= ranges.skip(k + 1));
}

/// Picks the stream configuration for an output asked to follow `target`.
pub fn negotiate(caps: &DeviceCaps, target: u32) -> (p: StreamParams)
    ensures
        p == spec_negotiate(caps@, target),
{
    let n = caps.supported.len();
    let mut k: usize = 0;
    proof {
        assert(caps.supported@.skip(0) =~= caps.supported@);
    }
    while k < n
        invariant
            0 <= k <= n,
            n == caps.supported.len(),
            first_matching_range(caps.supported@, target) == first_matching_range(
                caps.supported@.skip(k as int),
                target,
            ),
        decreases n - k,
    {
        let r = caps.supported[k];
        proof {
            assert(caps.supported@.skip(k as int)[0] == caps.supported@[k as int]);
        }
        if r.min_rate <= target && target <= r.max_rate {
            return StreamParams { channels: r.channels, sample_rate: target };
        }
        proof {
            lemma_first_matching_skip(caps.supported@, target, k as int);
        }
        k = k + 1;
    }
    proof {
        assert(caps.supported@.skip(n as int) =~= Seq::<ConfigRange>::empty());
    }
    caps.fallback
}

} // verus!
