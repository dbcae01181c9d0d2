use vstd::prelude::*;
use crate::modes::DirectSamplingMode;
use crate::state::UiState;

verus! {

/// Upper direct-sampling frequency assumed when the source does not report one.
pub const DS_FREQ_HZ_MAX_FALLBACK: u64 = 30_000_000;

/// Valid centre-frequency range in Hz; `center_max == 0` means the radio's
/// capabilities are not known yet and callers apply no constraint.
#[derive(Debug, Clone, Copy)]
pub struct FreqLimits {
    pub center_min: u64,
    pub center_max: u64,
}

/// The limits that the current source mode imposes: in direct sampling
/// `0 ..= ds max` (with a 30 MHz fallback when the source reports none),
/// otherwise the radio's tuning range.
pub open spec fn limits_for(s: UiState) -> FreqLimits {
    if s.source_control.direct_sampling != DirectSamplingMode::Off {
        FreqLimits {
            center_min: 0,
            center_max: if s.source_capabilities.direct_sampling_freq_hz_max > 0 {
                s.source_capabilities.direct_sampling_freq_hz_max
            } else {
                DS_FREQ_HZ_MAX_FALLBACK
            },
        }
    } else {
        FreqLimits {
            center_min: s.radio_capabilities.min_freq_hz,
            center_max: s.radio_capabilities.max_freq_hz,
        }
    }
}

/// Compute the valid centre-frequency range given the current source mode.
pub fn active_freq_limits(state: &UiState) -> (l: FreqLimits)
    ensures
        l == limits_for(*state),
{
    let ds_active = match state.source_control.direct_sampling {
        DirectSamplingMode::Off => false,
        _ => true,
    };
    if ds_active {
        let max = if state.source_capabilities.direct_sampling_freq_hz_max > 0 {
            state.source_capabilities.direct_sampling_freq_hz_max
        } else {
            DS_FREQ_HZ_MAX_FALLBACK
        };
        FreqLimits { center_min: 0, center_max: max }
    } else {
        FreqLimits {
            center_min: state.radio_capabilities.min_freq_hz,
            center_max: state.radio_capabilities.max_freq_hz,
        }
    }
}

/// In direct sampling the range always starts at 0 Hz and is never unknown.
pub proof fn law_direct_sampling_limits_known(s: UiState)
    requires
        s.source_control.direct_sampling != DirectSamplingMode::Off,
    ensures
        limits_for(s).center_min == 0,
        limits_for(s).center_max > 0,
{
}

} // verus!
