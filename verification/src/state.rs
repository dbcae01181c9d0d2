use vstd::prelude::*;
use vstd::string::StringExecFns;
use crate::modes::{DemodMode, DirectSamplingMode};

verus! {

/// Attached amplifier status, as far as the library reads it.
#[derive(Debug, Clone)]
pub struct AmplifierStatus {
    /// Serial open failure or loss of a previously detected amplifier.
    pub last_error: Option<String>,
}

/// Read-only telemetry of the active source, as far as the library reads it.
#[derive(Debug, Clone)]
pub struct SourceStatus {
    /// `Some(false)` when the SDR stopped sending data.
    pub device_responding: Option<bool>,
}

/// Source-control settings, as far as the library reads them.
#[derive(Debug, Clone, Copy)]
pub struct SourceControlState {
    pub direct_sampling: DirectSamplingMode,
}

/// Capabilities the active source advertises.
#[derive(Debug, Clone, Copy)]
pub struct SourceCapabilities {
    /// Highest frequency reachable in direct sampling (0 = not reported).
    pub direct_sampling_freq_hz_max: u64,
    pub supports_tx_tune_test: bool,
    pub supports_fdx: bool,
}

/// Tuning range of the acquired radio (both 0 before capabilities arrive).
#[derive(Debug, Clone, Copy)]
pub struct RadioCapabilities {
    pub min_freq_hz: u64,
    pub max_freq_hz: u64,
}

/// The part of the client UI state that the library's decisions read:
/// subsystem statuses for problem reporting, the source mode and
/// capabilities for frequency limits and panel sections, and the demod mode.
#[derive(Debug, Clone)]
pub struct UiState {
    /// Current demodulation mode.
    pub demod_mode: DemodMode,
    /// Human-readable server status.
    pub server_status: String,
    /// Whether a radio is currently acquired.
    pub radio_acquired: bool,
    pub source_control: SourceControlState,
    pub source_capabilities: SourceCapabilities,
    pub radio_capabilities: RadioCapabilities,
    pub amplifier_status: AmplifierStatus,
    pub source_status: SourceStatus,
    /// `Some(reason)` when the rigctl (CAT) server could not bind its port.
    pub rigctl_status: Option<String>,
    /// Whether this platform provides the virtual digital-audio endpoints
    /// (PipeWire/Pulse, i.e. Linux); elsewhere their absence is no problem.
    pub digital_audio_platform: bool,
    pub digital_output_available: bool,
    pub digital_rx_available: bool,
    pub digital_input_available: bool,
    pub digital_output_reason: Option<String>,
    pub digital_rx_reason: Option<String>,
    pub digital_input_reason: Option<String>,
    /// Microphone fallback / unavailable status; empty when fine.
    pub mic_status: String,
    /// Operator/bookmark persistence issue; empty when fine.
    pub persistence_status: String,
}

impl Default for UiState {
    /// The state at start-up: WFM, not connected ("no server"), no radio,
    /// direct sampling off, no capabilities known yet, digital endpoints not
    /// (yet) available, no statuses to report.
    fn default() -> (s: Self)
        ensures
            s.demod_mode == DemodMode::Wfm,
            s.server_status@ == "no server"@,
            !s.radio_acquired,
            s.source_control.direct_sampling == DirectSamplingMode::Off,
            s.source_capabilities.direct_sampling_freq_hz_max == 0,
            !s.source_capabilities.supports_tx_tune_test,
            !s.source_capabilities.supports_fdx,
            s.radio_capabilities.min_freq_hz == 0,
            s.radio_capabilities.max_freq_hz == 0,
            s.amplifier_status.last_error is None,
            s.source_status.device_responding is None,
            s.rigctl_status is None,
            s.digital_audio_platform,
            !s.digital_output_available,
            !s.digital_rx_available,
            !s.digital_input_available,
            s.digital_output_reason is None,
            s.digital_rx_reason is None,
            s.digital_input_reason is None,
            s.mic_status@.len() == 0,
            s.persistence_status@.len() == 0,
    {
        UiState {
            demod_mode: DemodMode::Wfm,
            server_status: String::from_str("no server"),
            radio_acquired: false,
            source_control: SourceControlState { direct_sampling: DirectSamplingMode::Off },
            source_capabilities: SourceCapabilities {
                direct_sampling_freq_hz_max: 0,
                supports_tx_tune_test: false,
                supports_fdx: false,
            },
            radio_capabilities: RadioCapabilities { min_freq_hz: 0, max_freq_hz: 0 },
            amplifier_status: AmplifierStatus { last_error: None },
            source_status: SourceStatus { device_responding: None },
            rigctl_status: None,
            digital_audio_platform: true,
            digital_output_available: false,
            digital_rx_available: false,
            digital_input_available: false,
            digital_output_reason: None,
            digital_rx_reason: None,
            digital_input_reason: None,
            mic_status: String::new(),
            persistence_status: String::new(),
        }
    }
}

} // verus!
