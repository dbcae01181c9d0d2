use rigflow_client::formatting::{fmt_age, format_elapsed, format_freq_dotted, format_raw, tuning_step_label};
use rigflow_client::names::{make_bookmark_id, sanitize_clip_name, service_label};

#[test]
fn age_units() {
    assert_eq!(fmt_age(0), "0s");
    assert_eq!(fmt_age(12), "12s");
    assert_eq!(fmt_age(59), "59s");
    assert_eq!(fmt_age(60), "1m");
    assert_eq!(fmt_age(240), "4m");
    assert_eq!(fmt_age(3599), "59m");
    assert_eq!(fmt_age(3600), "1h");
    assert_eq!(fmt_age(90_000), "25h");
}

#[test]
fn elapsed_clock() {
    assert_eq!(format_elapsed(0), "00:00:00");
    assert_eq!(format_elapsed(3_725), "01:02:05");
    assert_eq!(format_elapsed(360_000), "100:00:00");
}

#[test]
fn raw_readings() {
    assert_eq!(format_raw(Some(0)), "0");
    assert_eq!(format_raw(Some(4095)), "4095");
    assert_eq!(format_raw(None), "--");
}

#[test]
fn dotted_frequencies() {
    assert_eq!(format_freq_dotted(0), "0");
    assert_eq!(format_freq_dotted(999), "999");
    assert_eq!(format_freq_dotted(1_000), "1.000");
    assert_eq!(format_freq_dotted(14_074_000), "14.074.000");
    assert_eq!(format_freq_dotted(7_005), "7.005");
    assert_eq!(format_freq_dotted(1_296_000_000), "1.296.000.000");
    assert_eq!(format_freq_dotted(u64::MAX), "18.446.744.073.709.551.615");
    // Removing the separators gives back the plain decimal digits.
    for hz in [0u64, 5, 12_345, 1_000_001, 987_654_321] {
        assert_eq!(format_freq_dotted(hz).replace('.', ""), hz.to_string());
    }
}

#[test]
fn step_labels() {
    assert_eq!(tuning_step_label(1), "1 Hz");
    assert_eq!(tuning_step_label(500), "500 Hz");
    assert_eq!(tuning_step_label(1_000), "1 kHz");
    assert_eq!(tuning_step_label(10_000), "10 kHz");
    assert_eq!(tuning_step_label(1_500), "1500 Hz");
    assert_eq!(tuning_step_label(0), "0 Hz");
    assert_eq!(tuning_step_label(-1_000), "-1000 Hz");
}

#[test]
fn service_labels() {
    assert_eq!(service_label("lotw"), "LoTW");
    assert_eq!(service_label("eqsl"), "eQSL");
    assert_eq!(service_label("qsl"), "QSL");
    assert_eq!(service_label("clublog"), "clublog");
    assert_eq!(service_label("LOTW"), "LOTW");
}

#[test]
fn clip_names_are_file_safe() {
    assert_eq!(sanitize_clip_name("  CQ contest 1  "), "CQ_contest_1");
    assert_eq!(sanitize_clip_name("a/b\\c.wav"), "a_b_c_wav");
    assert_eq!(sanitize_clip_name("über-call_1"), "_ber-call_1");
    assert_eq!(sanitize_clip_name("\t\u{3000}x\u{2003}"), "x");
    assert_eq!(sanitize_clip_name("   "), "");
}

#[test]
fn bookmark_ids() {
    assert_eq!(make_bookmark_id("FT8 20m"), "ft8-20m");
    assert_eq!(make_bookmark_id("  My  -- Net__Night  "), "my-net-night");
    assert_eq!(make_bookmark_id("--Hello!--"), "hello");
    assert_eq!(make_bookmark_id("!!!"), "bookmark");
    assert_eq!(make_bookmark_id(""), "bookmark");
    assert_eq!(make_bookmark_id("a - !b"), "a-b");
    assert_eq!(make_bookmark_id("ÄBC déf"), "bc-df");
}

#[test]
fn bookmark_ids_are_well_formed() {
    for name in ["", " - ", "x", "A B C", "--a--b--", "Ωmega 7", "___", "40m CW (QRP)"] {
        let id = make_bookmark_id(name);
        assert!(!id.is_empty());
        assert!(!id.starts_with('-') && !id.ends_with('-'));
        assert!(!id.contains("--"));
        assert!(id.chars().all(|c| c.is_ascii_lowercase() || c.is_ascii_digit() || c == '-'));
    }
}
