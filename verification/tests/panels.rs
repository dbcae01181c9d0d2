use rigflow_client::cw::default_cw_macros;
use rigflow_client::freq_limits::active_freq_limits;
use rigflow_client::modes::{
    center_step_hz, format_direct_sampling_mode, mode_label, vfo_mode_label, DemodMode, DirectSamplingMode,
};
use rigflow_client::radios::{category_label, category_order, RadioSourceKind};
use rigflow_client::sections::{present_sections, section_id_salt, section_layout, Panel, Section};
use rigflow_client::state::UiState;
use rigflow_client::stats::{ClientStatsLogger, JitterBufferCounters, MediaPacketStats};

#[test]
fn limits_follow_source_mode() {
    let mut s = UiState::default();
    let l = active_freq_limits(&s);
    assert_eq!((l.center_min, l.center_max), (0, 0));
    s.radio_capabilities.min_freq_hz = 24_000_000;
    s.radio_capabilities.max_freq_hz = 1_766_000_000;
    let l = active_freq_limits(&s);
    assert_eq!((l.center_min, l.center_max), (24_000_000, 1_766_000_000));
    s.source_control.direct_sampling = DirectSamplingMode::Q;
    let l = active_freq_limits(&s);
    assert_eq!((l.center_min, l.center_max), (0, 30_000_000));
    s.source_capabilities.direct_sampling_freq_hz_max = 28_800_000;
    let l = active_freq_limits(&s);
    assert_eq!((l.center_min, l.center_max), (0, 28_800_000));
}

#[test]
fn lo_steps_by_mode() {
    assert_eq!(center_step_hz(DemodMode::Usb, false), 1_000);
    assert_eq!(center_step_hz(DemodMode::Cwl, true), 25_000);
    assert_eq!(center_step_hz(DemodMode::DgtU, false), 1_000);
    assert_eq!(center_step_hz(DemodMode::Am, false), 10_000);
    assert_eq!(center_step_hz(DemodMode::Am, true), 100_000);
    assert_eq!(center_step_hz(DemodMode::Nfm, true), 250_000);
    assert_eq!(center_step_hz(DemodMode::Wfm, false), 200_000);
    assert_eq!(center_step_hz(DemodMode::Wfm, true), 2_000_000);
}

#[test]
fn mode_and_source_labels() {
    assert_eq!(mode_label(DemodMode::Cwu), "CWU");
    assert_eq!(vfo_mode_label(DemodMode::Cwu), "CW-U");
    assert_eq!(mode_label(DemodMode::DgtU), "DATA-U");
    assert_eq!(format_direct_sampling_mode(DirectSamplingMode::I), "I channel");
    assert_eq!(category_order(RadioSourceKind::Hardware), 0);
    assert_eq!(category_order(RadioSourceKind::Unknown), 3);
    assert_eq!(category_label(RadioSourceKind::Recording), "Recordings");
    assert_eq!(category_label(RadioSourceKind::Unknown), "Other");
}

#[test]
fn radio_control_sections() {
    let mut s = UiState::default();
    s.demod_mode = DemodMode::Am;
    assert_eq!(
        present_sections(Panel::RadioControl, &s),
        vec![Section::Audio, Section::Receive, Section::Transmit, Section::Advanced]
    );
    s.demod_mode = DemodMode::Lsb;
    let l = section_layout(Panel::RadioControl, &s, false);
    assert_eq!(l.sections, vec![Section::Audio, Section::Receive, Section::Transmit]);
    assert!(l.show_advanced_toggle);
    let l = section_layout(Panel::RadioControl, &s, true);
    assert_eq!(
        l.sections,
        vec![Section::Audio, Section::Receive, Section::Transmit, Section::Advanced, Section::Diagnostics]
    );
}

#[test]
fn source_control_sections() {
    let mut s = UiState::default();
    let l = section_layout(Panel::SourceControl, &s, true);
    assert_eq!(l.sections, vec![Section::Configuration, Section::Recording, Section::Status]);
    assert!(!l.show_advanced_toggle);
    s.source_capabilities.supports_fdx = true;
    let l = section_layout(Panel::SourceControl, &s, false);
    assert_eq!(l.sections, vec![Section::Configuration, Section::Recording, Section::Status]);
    assert!(l.show_advanced_toggle);
    for w in l.sections.windows(2) {
        assert!(w[0].weight() < w[1].weight());
    }
}

#[test]
fn section_metadata() {
    assert_eq!(section_id_salt(Panel::RadioControl, Section::Audio), "rc_audio");
    assert_eq!(section_id_salt(Panel::SourceControl, Section::Diagnostics), "sc_diagnostics");
    assert_eq!(Section::Status.title(), "Status");
    assert!(Section::Configuration.default_open());
    assert!(!Section::Transmit.default_open());
    assert!(Section::Advanced.gated());
    assert!(!Section::Recording.gated());
}

#[test]
fn cw_macros_from_defaults() {
    let m = default_cw_macros([("CQ", "CQ CQ DE"), ("599", "5NN TU"), ("QRZ", "QRZ?"), ("73", "73 SK")]);
    assert_eq!(m[0].label, "CQ");
    assert_eq!(m[0].text, "CQ CQ DE");
    assert_eq!(m[3].label, "73");
    assert_eq!(m[3].text, "73 SK");
}

#[test]
fn stats_interval_reports_deltas_and_resets() {
    let mut logger = ClientStatsLogger::new();
    logger.add_audio_samples(480);
    logger.add_audio_samples(480);
    let mut media = MediaPacketStats {
        incoming_packets: 10,
        audio_packets: 8,
        waterfall_packets: 2,
        dropped_audio_packets: 1,
        dropped_waterfall_packets: 0,
        late_audio_packets: 0,
        late_waterfall_packets: 0,
    };
    let jb = JitterBufferCounters {
        packets_missing_concealed: 3,
        packets_dropped_late: 0,
        packets_dropped_overflow: 0,
        packets_dropped_invalid_size: 0,
        resync_count: 1,
        buffered_samples: 960,
        started: true,
    };
    assert!(logger.close_interval(500_000_000, &mut media, &jb).is_none());
    assert_eq!(media.audio_packets, 8);
    let r = logger.close_interval(1_000_000_000, &mut media, &jb).unwrap();
    assert_eq!(r.audio_samples, 960);
    assert_eq!(r.media.audio_packets, 8);
    assert_eq!(r.conceal_delta, 3);
    assert_eq!(r.resync_delta, 1);
    assert!(r.jitter_event);
    assert_eq!(media.audio_packets, 0);
    assert_eq!(media.incoming_packets, 0);
    // Same cumulative counters again: no new events.
    let r = logger.close_interval(2_000_000_000, &mut media, &jb).unwrap();
    assert_eq!(r.audio_samples, 0);
    assert_eq!(r.conceal_delta, 0);
    assert!(!r.jitter_event);
    // A counter that went backwards (buffer reset) saturates at zero.
    let jb2 = JitterBufferCounters { packets_missing_concealed: 1, ..jb };
    let r = logger.close_interval(1_500_000_000, &mut media, &jb2).unwrap();
    assert_eq!(r.conceal_delta, 0);
}

#[test]
fn stats_maybe_log_waits_a_second() {
    let mut logger = ClientStatsLogger::new();
    let mut media = MediaPacketStats {
        incoming_packets: 0,
        audio_packets: 5,
        waterfall_packets: 0,
        dropped_audio_packets: 0,
        dropped_waterfall_packets: 0,
        late_audio_packets: 0,
        late_waterfall_packets: 0,
    };
    let jb = JitterBufferCounters {
        packets_missing_concealed: 0,
        packets_dropped_late: 0,
        packets_dropped_overflow: 0,
        packets_dropped_invalid_size: 0,
        resync_count: 0,
        buffered_samples: 0,
        started: false,
    };
    // Immediately after creation less than a second has passed.
    assert!(logger.maybe_log(&mut media, &jb).is_none());
    assert_eq!(media.audio_packets, 5);
}
