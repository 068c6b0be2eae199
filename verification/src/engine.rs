use crate::options::RubberBandOption;
use vstd::prelude::*;

verus! {

/// The ratio 1, as the bit pattern of a 64-bit IEEE-754 number.
pub const RATIO_ONE: u64 = 0x3ff0_0000_0000_0000;

/// The ratio 3/2, as the bit pattern of a 64-bit IEEE-754 number.
pub const RATIO_THREE_HALVES: u64 = 0x3ff8_0000_0000_0000;

/// What a stretching engine is created with. The two ratios are bit
/// patterns of 64-bit IEEE-754 numbers: the library hands them on and never
/// computes with them.
#[derive(Debug, Clone, Copy, PartialEq, Eq, Structural)]
pub struct EngineConfig {
    pub sample_rate: u32,
    pub channels: u32,
    pub options: RubberBandOption,
    pub time_ratio: u64,
    pub pitch_scale: u64,
}

impl EngineConfig {
    /// The engine for a stream that starts: stretched in time by 3/2, at
    /// the pitch of the input.
    pub fn initial(sample_rate: u32, channels: u32, options: RubberBandOption) -> (config:
        EngineConfig)
        ensures
            config == (EngineConfig {
                sample_rate,
                channels,
                options,
                time_ratio: RATIO_THREE_HALVES,
                pitch_scale: RATIO_ONE,
            }),
    {
        EngineConfig {
            sample_rate,
            channels,
            options,
            time_ratio: RATIO_THREE_HALVES,
            pitch_scale: RATIO_ONE,
        }
    }

    /// The engine that takes over when the number of channels has changed:
    /// both ratios start again at 1, since nothing carries the warping over
    /// from one channel layout to another.
    pub fn replacement(sample_rate: u32, channels: u32, options: RubberBandOption) -> (config:
        EngineConfig)
        ensures
            config == replacement_for(sample_rate, channels, options),
    {
        EngineConfig {
            sample_rate,
            channels,
            options,
            time_ratio: RATIO_ONE,
            pitch_scale: RATIO_ONE,
        }
    }
}

/// The engine that takes over after a change of the channel count.
pub open spec fn replacement_for(
    sample_rate: u32,
    channels: u32,
    options: RubberBandOption,
) -> EngineConfig {
    EngineConfig { sample_rate, channels, options, time_ratio: RATIO_ONE, pitch_scale: RATIO_ONE }
}

} // verus!
