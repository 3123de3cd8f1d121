use vstd::prelude::*;

use crate::engine::UNITY_GAIN;

verus! {

/// The persisted control state of one output route. The volume is the raw
/// 32-bit scalar encoding the engine traffics in.
pub struct OutputConfig {
    pub name: String,
    pub volume: u32,
    pub muted: bool,
}

/// The persisted state of a whole session: the input path's controls and
/// one record per output route. The surrounding application loads and
/// stores it; the engine only replays it as commands.
pub struct AppConfig {
    pub input_volume: u32,
    pub input_muted: bool,
    pub outputs: Vec<OutputConfig>,
}

impl AppConfig {
    /// The configuration used when none was persisted yet: input at unity
    /// volume and unmuted, with no outputs.
    pub fn default_config() -> (c: AppConfig)
        ensures
            c.input_volume == UNITY_GAIN,
            !c.input_muted,
            c.outputs@.len() == 0,
    {
        AppConfig { input_volume: UNITY_GAIN, input_muted: false, outputs: Vec::new() }
    }
}

} // verus!
