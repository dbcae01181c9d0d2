use rigflow_client::civil::{civil_from_days, local_timestamp_compact_from_secs, timestamp_compact_from_secs};

#[test]
fn epoch_is_first_of_january_1970() {
    assert_eq!(civil_from_days(0), (1970, 1, 1));
    assert_eq!(civil_from_days(-1), (1969, 12, 31));
}

#[test]
fn leap_days_and_century_rules() {
    assert_eq!(civil_from_days(19_782), (2024, 2, 29));
    assert_eq!(civil_from_days(11_017), (2000, 3, 1));
    assert_eq!(civil_from_days(11_016), (2000, 2, 29));
    // 2100 is not a leap year: 28 Feb is followed by 1 Mar.
    assert_eq!(civil_from_days(47_540), (2100, 2, 28));
    assert_eq!(civil_from_days(47_541), (2100, 3, 1));
    assert_eq!(civil_from_days(-719_162), (1, 1, 1));
}

#[test]
fn consecutive_days_advance_the_date_by_one() {
    let mut prev = civil_from_days(-800_000);
    for z in -799_999i64..200_000 {
        let cur = civil_from_days(z);
        let next_expected = if cur.2 == 1 {
            // new month: previous day was the last of its month
            assert!(prev.2 >= 28);
            cur
        } else {
            (prev.0, prev.1, prev.2 + 1)
        };
        assert_eq!(cur, next_expected);
        prev = cur;
    }
}

#[test]
fn compact_timestamps() {
    assert_eq!(timestamp_compact_from_secs(0), "1970-01-01_00-00-00");
    assert_eq!(timestamp_compact_from_secs(1_700_000_000), "2023-11-14_22-13-20");
    assert_eq!(local_timestamp_compact_from_secs(1_700_000_000), "2023-11-14_221320");
    assert_eq!(local_timestamp_compact_from_secs(86_399), "1970-01-01_235959");
}
