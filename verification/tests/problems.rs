use rigflow_client::problems::{collect_problems, ProblemSeverity};
use rigflow_client::state::UiState;

fn healthy_digital(s: &mut UiState) {
    s.digital_output_available = true;
    s.digital_rx_available = true;
    s.digital_input_available = true;
}

#[test]
fn healthy_state_has_no_problems() {
    let mut s = UiState::default();
    s.digital_output_available = true;
    s.digital_rx_available = true;
    s.digital_input_available = true;
    s.server_status = "connected, 1 radios available".to_string();
    assert!(collect_problems(&s).is_empty());
}

#[test]
fn failures_surface_with_errors_before_warnings() {
    let mut s = UiState::default();
    s.digital_output_available = true;
    s.digital_rx_available = true;
    s.digital_input_available = true;
    s.server_status = "connect failed: connection refused".to_string();
    s.rigctl_status = Some("rigctl: cannot bind 127.0.0.1:4532 — in use".to_string());
    s.amplifier_status.last_error = Some("HR50 serial open failed".to_string());

    let problems = collect_problems(&s);
    assert_eq!(problems.len(), 3);
    assert_eq!(problems[0].severity, ProblemSeverity::Error);
    assert_eq!(problems[1].severity, ProblemSeverity::Error);
    assert_eq!(problems.last().unwrap().severity, ProblemSeverity::Warning);
    assert_eq!(problems.last().unwrap().source, "rigctl");
}

#[test]
fn idle_not_connected_is_not_a_problem() {
    let mut s = UiState::default();
    s.digital_output_available = true;
    s.digital_rx_available = true;
    s.digital_input_available = true;
    s.server_status = "no server".to_string();
    assert!(collect_problems(&s).is_empty());
}

#[test]
fn reconnecting_is_a_warning_not_an_error() {
    let mut s = UiState::default();
    healthy_digital(&mut s);
    s.server_status = "reconnecting (attempt 3)…".to_string();
    let problems = collect_problems(&s);
    assert_eq!(problems.len(), 1);
    assert_eq!(problems[0].severity, ProblemSeverity::Warning);
    assert_eq!(problems[0].source, "Server");
}

#[test]
fn re_acquiring_is_a_warning() {
    let mut s = UiState::default();
    healthy_digital(&mut s);
    s.server_status = "re-acquiring radio…".to_string();
    let problems = collect_problems(&s);
    assert_eq!(problems.len(), 1);
    assert_eq!(problems[0].severity, ProblemSeverity::Warning);
}

#[test]
fn re_acquire_give_up_is_an_error() {
    let mut s = UiState::default();
    healthy_digital(&mut s);
    s.server_status = "re-acquire failed: radio still busy".to_string();
    let problems = collect_problems(&s);
    assert_eq!(problems.len(), 1);
    assert_eq!(problems[0].severity, ProblemSeverity::Error);
    assert_eq!(problems[0].source, "Server");
}

#[test]
fn device_not_responding_is_a_radio_error() {
    let mut s = UiState::default();
    healthy_digital(&mut s);
    s.radio_acquired = true;

    s.source_status.device_responding = Some(false);
    let problems = collect_problems(&s);
    assert_eq!(problems.len(), 1);
    assert_eq!(problems[0].severity, ProblemSeverity::Error);
    assert_eq!(problems[0].source, "Radio");

    s.source_status.device_responding = Some(true);
    assert!(collect_problems(&s).is_empty());
    s.source_status.device_responding = None;
    assert!(collect_problems(&s).is_empty());

    s.radio_acquired = false;
    s.source_status.device_responding = Some(false);
    assert!(collect_problems(&s).is_empty());
}

#[test]
fn server_already_has_a_client_is_an_error() {
    let mut s = UiState::default();
    healthy_digital(&mut s);
    s.server_status = "server already has a client".to_string();
    let problems = collect_problems(&s);
    assert_eq!(problems.len(), 1);
    assert_eq!(problems[0].severity, ProblemSeverity::Error);
    assert_eq!(problems[0].source, "Server");
}

#[test]
fn server_status_match_ignores_ascii_case() {
    let mut s = UiState::default();
    healthy_digital(&mut s);
    s.server_status = "Connect FAILED".to_string();
    let problems = collect_problems(&s);
    assert_eq!(problems.len(), 1);
    assert_eq!(problems[0].severity, ProblemSeverity::Error);
    assert_eq!(problems[0].detail, "Connect FAILED");
}

#[test]
fn digital_endpoints_collapse_into_one_warning() {
    let mut s = UiState::default();
    s.digital_output_available = true;
    s.digital_rx_reason = None;
    s.digital_input_reason = Some("pactl not found".to_string());
    let problems = collect_problems(&s);
    assert_eq!(problems.len(), 1);
    assert_eq!(problems[0].severity, ProblemSeverity::Warning);
    assert_eq!(problems[0].source, "Digital Audio");
    assert_eq!(
        problems[0].detail,
        "RigflowDigitalRX, RigflowDigitalInput unavailable: pactl not found"
    );
}

#[test]
fn digital_endpoints_without_reason_use_default_text() {
    let s = UiState::default();
    let problems = collect_problems(&s);
    assert_eq!(problems.len(), 1);
    assert_eq!(
        problems[0].detail,
        "RigflowDigitalOutput, RigflowDigitalRX, RigflowDigitalInput unavailable: unavailable (PipeWire/pactl not running?)"
    );
}

#[test]
fn digital_endpoints_are_no_problem_off_linux() {
    let mut s = UiState::default();
    s.digital_audio_platform = false;
    assert!(collect_problems(&s).is_empty());
}

#[test]
fn every_warning_source_in_order() {
    let mut s = UiState::default();
    s.server_status = "reconnecting".to_string();
    s.rigctl_status = Some("busy".to_string());
    s.mic_status = "fallback to default device".to_string();
    s.persistence_status = "save failed".to_string();
    s.amplifier_status.last_error = Some("amp lost".to_string());
    let problems = collect_problems(&s);
    let sources: Vec<_> = problems.iter().map(|p| p.source).collect();
    assert_eq!(
        sources,
        vec!["Amplifier", "Server", "rigctl", "Digital Audio", "Microphone", "Persistence"]
    );
    assert_eq!(problems[0].severity, ProblemSeverity::Error);
    for p in &problems[1..] {
        assert_eq!(p.severity, ProblemSeverity::Warning);
    }
}

#[test]
fn server_status_gives_at_most_one_server_problem() {
    let cases = [
        ("connected", None),
        ("Connect FAILED: refused", Some(ProblemSeverity::Error)),
        ("reconnecting (attempt 2)", Some(ProblemSeverity::Warning)),
        ("re-acquiring radio", Some(ProblemSeverity::Warning)),
        ("reconnecting after error", Some(ProblemSeverity::Error)),
        ("server already has a client", Some(ProblemSeverity::Error)),
    ];
    for (status, expected) in cases {
        let mut s = UiState::default();
        s.server_status = status.to_string();
        let server: Vec<_> = collect_problems(&s).into_iter().filter(|p| p.source == "Server").collect();
        match expected {
            None => assert!(server.is_empty(), "{status}"),
            Some(sev) => {
                assert_eq!(server.len(), 1, "{status}");
                assert_eq!(server[0].severity, sev);
                assert_eq!(server[0].detail, status);
            }
        }
    }
}
