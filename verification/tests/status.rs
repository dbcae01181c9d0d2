use rigflow_client::formatting::{offset_badge, rx_counters_note, split_badge, tx_xrun_note, vfo_b_badge};
use rigflow_client::keying::{is_transmitting, voice_keyer_abort, SpaceKeyInput, TxActivity};
use rigflow_client::modes::{digital_rx_routing, select_demod_sideband, vfo_b_sideband_for, DemodMode, Sideband};
use rigflow_client::problems::{collect_problems, status_light};
use rigflow_client::server::{server_button_action, server_button_label, ServerAction};
use rigflow_client::state::UiState;
use rigflow_client::status::{cluster_status_display, format_status, status_color, ClusterStatus, TxTuneStatus};

#[test]
fn tx_tune_status_texts() {
    assert_eq!(format_status(TxTuneStatus::NotRun), "--");
    assert_eq!(format_status(TxTuneStatus::Passed), "OK");
    assert_eq!(format_status(TxTuneStatus::HighSwr), "High SWR");
    assert_eq!(format_status(TxTuneStatus::Underflow), "FIFO underflow");
    assert_eq!(format_status(TxTuneStatus::Fault), "Fault");
}

#[test]
fn tx_tune_status_colours() {
    assert_eq!(status_color(TxTuneStatus::NotRun), (160, 160, 160));
    assert_eq!(status_color(TxTuneStatus::Passed), (255, 255, 255));
    assert_eq!(status_color(TxTuneStatus::NoForwardPower), (255, 200, 50));
    assert_eq!(status_color(TxTuneStatus::HighSwr), (255, 200, 50));
    assert_eq!(status_color(TxTuneStatus::Timeout), (255, 80, 80));
}

#[test]
fn cluster_status_texts_and_colours() {
    assert_eq!(
        cluster_status_display(&ClusterStatus::Disconnected),
        ("disconnected".to_string(), (160, 160, 160))
    );
    assert_eq!(
        cluster_status_display(&ClusterStatus::Connecting),
        ("connecting\u{2026}".to_string(), (235, 200, 90))
    );
    assert_eq!(cluster_status_display(&ClusterStatus::Connected).1, (120, 205, 140));
    assert_eq!(
        cluster_status_display(&ClusterStatus::Error("refused".to_string())),
        ("refused \u{2014} retrying".to_string(), (230, 130, 120))
    );
}

#[test]
fn status_light_green_when_healthy() {
    let (rgb, hover) = status_light(&Vec::new());
    assert_eq!(rgb, (40, 200, 80));
    assert_eq!(hover, "All subsystems OK");
}

#[test]
fn status_light_red_with_error_lists_every_problem() {
    let mut s = UiState::default();
    s.radio_acquired = true;
    s.server_status = "connected".to_string();
    s.rigctl_status = Some("port 4532 in use".to_string());
    s.mic_status = "using default input".to_string();
    let problems = collect_problems(&s);
    let (rgb, hover) = status_light(&problems);
    let has_error = problems.iter().any(|p| p.severity == rigflow_client::problems::ProblemSeverity::Error);
    assert_eq!(rgb, if has_error { (230, 60, 60) } else { (255, 170, 40) });
    let expected: Vec<String> = problems.iter().map(|p| format!("{}: {}", p.source, p.detail)).collect();
    assert_eq!(hover, expected.join("\n"));
    assert!(hover.contains("rigctl: port 4532 in use"));
}

#[test]
fn status_light_amber_for_warnings_only() {
    let mut s = UiState::default();
    s.radio_acquired = true;
    s.server_status = "connected".to_string();
    s.digital_audio_platform = false;
    s.mic_status = "using default input".to_string();
    let problems = collect_problems(&s);
    assert!(!problems.is_empty());
    assert!(problems.iter().all(|p| p.severity == rigflow_client::problems::ProblemSeverity::Warning));
    assert_eq!(status_light(&problems).0, (255, 170, 40));
}

#[test]
fn offset_badges() {
    assert_eq!(offset_badge("RIT", true, 50), Some("RIT +50 Hz".to_string()));
    assert_eq!(offset_badge("XIT", true, -120), Some("XIT -120 Hz".to_string()));
    assert_eq!(offset_badge("RIT", true, 0), None);
    assert_eq!(offset_badge("RIT", false, 75), None);
    assert_eq!(offset_badge("RIT", true, 9999), Some(format!("RIT {:+} Hz", 9999)));
}

#[test]
fn latency_counter_notes() {
    assert_eq!(rx_counters_note(0, 0, 0, 0), None);
    assert_eq!(
        rx_counters_note(3, 0, 1, 0),
        Some("conceal 3  \u{b7}  late 0  \u{b7}  overflow 1  \u{b7}  resync 0".to_string())
    );
    assert_eq!(tx_xrun_note(0, 0), None);
    assert_eq!(tx_xrun_note(2, 5), Some("underruns 2  \u{b7}  overruns 5".to_string()));
}

#[test]
fn vfo_b_and_split_badges() {
    assert_eq!(vfo_b_badge(7_074_000, DemodMode::Usb), "B 7.074.000  USB");
    assert_eq!(vfo_b_badge(999, DemodMode::DgtU), "B 999  DATA-U");
    assert_eq!(split_badge(true), "SPLIT\u{25b6}B");
    assert_eq!(split_badge(false), "SPLIT\u{25b6}A");
}

#[test]
fn demod_selector_sidebands() {
    assert_eq!(select_demod_sideband(DemodMode::Lsb, Sideband::Usb), (Sideband::Lsb, true));
    assert_eq!(select_demod_sideband(DemodMode::DgtU, Sideband::Lsb), (Sideband::Usb, true));
    assert_eq!(select_demod_sideband(DemodMode::Cwu, Sideband::Lsb), (Sideband::Lsb, false));
    assert_eq!(select_demod_sideband(DemodMode::Am, Sideband::Usb), (Sideband::Usb, false));
    assert_eq!(vfo_b_sideband_for(DemodMode::Cwl), Sideband::Lsb);
    assert_eq!(vfo_b_sideband_for(DemodMode::Lsb), Sideband::Lsb);
    assert_eq!(vfo_b_sideband_for(DemodMode::Cwu), Sideband::Usb);
    assert_eq!(vfo_b_sideband_for(DemodMode::Nfm), Sideband::Usb);
}

#[test]
fn data_usb_routing_tie() {
    assert_eq!(digital_rx_routing(Some(DemodMode::Usb), DemodMode::DgtU), Some(true));
    assert_eq!(digital_rx_routing(None, DemodMode::DgtU), Some(true));
    assert_eq!(digital_rx_routing(Some(DemodMode::DgtU), DemodMode::Lsb), Some(false));
    assert_eq!(digital_rx_routing(Some(DemodMode::DgtU), DemodMode::DgtU), None);
    assert_eq!(digital_rx_routing(Some(DemodMode::Usb), DemodMode::Lsb), None);
}

#[test]
fn voice_keyer_safety_aborts() {
    let idle = SpaceKeyInput { focused: true, typing: false, space_down: false, space_pressed: false };
    let space = SpaceKeyInput { focused: true, typing: false, space_down: true, space_pressed: true };
    assert!(!voice_keyer_abort(true, false, idle, true, true, DemodMode::Usb));
    assert!(voice_keyer_abort(true, false, space, true, true, DemodMode::Usb));
    assert!(!voice_keyer_abort(true, true, space, true, true, DemodMode::Usb));
    assert!(voice_keyer_abort(true, false, idle, false, true, DemodMode::Usb));
    assert!(voice_keyer_abort(true, false, idle, true, false, DemodMode::Lsb));
    assert!(voice_keyer_abort(true, false, idle, true, true, DemodMode::Cwu));
    assert!(!voice_keyer_abort(false, false, space, false, false, DemodMode::Am));
}

#[test]
fn any_path_counts_as_transmitting() {
    let none = TxActivity {
        cw_key_down: false,
        ssb_ptt_down: false,
        cat_ptt: false,
        tx_tone_running: false,
        voice_keyer_playing: false,
    };
    assert!(!is_transmitting(none));
    assert!(is_transmitting(TxActivity { cat_ptt: true, ..none }));
    assert!(is_transmitting(TxActivity { voice_keyer_playing: true, ..none }));
    assert!(is_transmitting(TxActivity { cw_key_down: true, ..none }));
}

#[test]
fn server_button() {
    assert_eq!(server_button_label(true), "Disconnect");
    assert_eq!(server_button_label(false), "Connect");
    assert_eq!(server_button_action(true, ""), ServerAction::Disconnect);
    assert_eq!(
        server_button_action(false, "  \t "),
        ServerAction::Refuse("connect failed: missing server IP".to_string())
    );
    assert_eq!(
        server_button_action(false, " 192.168.1.20 \n"),
        ServerAction::Connect("192.168.1.20".to_string())
    );
}
