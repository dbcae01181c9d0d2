use rigflow_client::contacts::{call_reply_is_current, parse_u64, ContactFields, ContactForm, LogEntryFields, LogEntryForm};

fn form(call: &str, date: &str, time: &str, mode: &str) -> ContactForm {
    ContactForm {
        call: call.to_string(),
        qso_date: date.to_string(),
        time_on: time.to_string(),
        mode: mode.to_string(),
        rst_sent: " 599 ".to_string(),
        rst_rcvd: "".to_string(),
        gridsquare: "  ".to_string(),
    }
}

#[test]
fn parse_matches_std() {
    for s in [
        "0", "7", "007", "+12", "+", "", "-1", "-0", "12a", " 12", "14074000", "18446744073709551615",
        "18446744073709551616", "99999999999999999999", "+18446744073709551615", "١٢", "1_000",
    ] {
        assert_eq!(parse_u64(s), s.parse::<u64>().ok(), "input {s:?}");
    }
}

#[test]
fn contact_form_valid() {
    let f = form("  dl1abc ", " 20240131 ", "1234", " ft8 ");
    assert_eq!(
        f.validate(),
        Ok(ContactFields {
            call: "DL1ABC".to_string(),
            qso_date: "20240131".to_string(),
            time_on: "1234".to_string(),
            mode: "FT8".to_string(),
            rst_sent: Some("599".to_string()),
            rst_rcvd: None,
            gridsquare: None,
        })
    );
    assert!(form("k1abc", "20240131", "123456", "CW").validate().is_ok());
}

#[test]
fn contact_form_errors_in_order() {
    assert_eq!(form("  ", "x", "x", "").validate(), Err("Call is required.".to_string()));
    assert_eq!(form("k1abc", "2024013", "1234", "CW").validate(), Err("Date must be 8 digits, YYYYMMDD.".to_string()));
    assert_eq!(form("k1abc", "2024-1-3", "1234", "CW").validate(), Err("Date must be 8 digits, YYYYMMDD.".to_string()));
    assert_eq!(form("k1abc", "20240131", "12345", "CW").validate(), Err("Time must be HHMM or HHMMSS.".to_string()));
    assert_eq!(form("k1abc", "20240131", "12:4", "CW").validate(), Err("Time must be HHMM or HHMMSS.".to_string()));
    assert_eq!(form("k1abc", "20240131", "1234", "   ").validate(), Err("Mode is required.".to_string()));
}

fn entry(call: &str, split: bool, rx: &str) -> LogEntryForm {
    LogEntryForm {
        call: call.to_string(),
        rst_sent: "59".to_string(),
        rst_rcvd: " 57 ".to_string(),
        name: " Anna ".to_string(),
        comment: "".to_string(),
        gridsquare: "JO62".to_string(),
        freq_rx_hz: rx.to_string(),
        split_active: split,
    }
}

#[test]
fn log_entry_fields() {
    assert_eq!(
        entry(" w1aw ", true, " 14200000 ").fields(),
        Ok(LogEntryFields {
            call: "W1AW".to_string(),
            rst_sent: Some("59".to_string()),
            rst_rcvd: Some("57".to_string()),
            gridsquare: Some("JO62".to_string()),
            name: Some("Anna".to_string()),
            comment: None,
            freq_rx_hz: Some(14_200_000),
        })
    );
    assert_eq!(entry("w1aw", false, "14200000").fields().unwrap().freq_rx_hz, None);
    assert_eq!(entry("w1aw", true, "14.2 MHz").fields().unwrap().freq_rx_hz, None);
    assert_eq!(entry("w1aw", true, "").fields().unwrap().freq_rx_hz, None);
    assert_eq!(entry("   ", true, "1").fields(), Err("callsign required".to_string()));
}

#[test]
fn stale_call_replies_are_dropped() {
    assert!(call_reply_is_current(7, "DL1ABC", 7, "  dl1abc "));
    assert!(!call_reply_is_current(6, "DL1ABC", 7, "dl1abc"));
    assert!(!call_reply_is_current(7, "DL1ABD", 7, "dl1abc"));
    assert!(!call_reply_is_current(7, "DL1ABC/P", 7, "dl1abc"));
    for (call, lookup) in [("W1AW", "w1aw"), ("Ä1", "ä1"), ("k1x", " K1X\t"), ("", "  ")] {
        assert_eq!(call_reply_is_current(1, call, 1, lookup), call.eq_ignore_ascii_case(lookup.trim()));
    }
}
