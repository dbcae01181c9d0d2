use rigflow_client::bands::{radio_bands, visible_radio_bands};

fn names_at(freq_hz: u64) -> Vec<&'static str> {
    visible_radio_bands(freq_hz - 100, freq_hz + 100)
        .into_iter()
        .map(|b| b.name)
        .collect()
}

#[test]
fn full_band_count() {
    assert_eq!(radio_bands().len(), 23);
}

#[test]
fn previously_missing_bands_now_present() {
    assert_eq!(names_at(136_000), vec!["2200m"]);
    assert_eq!(names_at(475_000), vec!["630m"]);
    assert_eq!(names_at(5_360_000), vec!["60m"]);
    assert_eq!(names_at(915_000_000), vec!["33cm"]);
    assert_eq!(names_at(1_270_000_000), vec!["23cm"]);
}

#[test]
fn non_amateur_bands_retained() {
    assert_eq!(names_at(1_000_000), vec!["AM Broadcast"]);
    assert_eq!(names_at(98_000_000), vec!["FM Broadcast"]);
    assert_eq!(names_at(125_000_000), vec!["Air Band"]);
    assert_eq!(names_at(162_500_000), vec!["NOAA Weather"]);
    assert_eq!(names_at(300_000_000), vec!["Military Air"]);
}

#[test]
fn bands_clipping_carries_full_band_edges() {
    let v = visible_radio_bands(14_100_000, 14_200_000);
    assert_eq!(v.len(), 1);
    assert_eq!(v[0].name, "20m");
    assert_eq!(v[0].start_hz, 14_100_000);
    assert_eq!(v[0].end_hz, 14_200_000);
    assert_eq!(v[0].band_start_hz, 14_000_000);
    assert_eq!(v[0].band_end_hz, 14_350_000);
}

#[test]
fn empty_or_reversed_view_shows_no_band() {
    assert!(visible_radio_bands(14_200_000, 14_200_000).is_empty());
    assert!(visible_radio_bands(14_300_000, 14_200_000).is_empty());
}

#[test]
fn band_covering_the_view_is_clipped_to_it() {
    // Law: a band covering the whole view comes back clipped exactly to it.
    let v = visible_radio_bands(7_100_000, 7_200_000);
    assert_eq!(v.len(), 1);
    assert_eq!(v[0].name, "40m");
    assert_eq!((v[0].start_hz, v[0].end_hz), (7_100_000, 7_200_000));
    assert_eq!(v[0].color, 0x6557AD);
}

#[test]
fn bands_touching_at_an_edge_do_not_both_show() {
    // 1.25m ends where Military Air starts (225 MHz); a view starting there
    // shows only Military Air.
    let v = visible_radio_bands(225_000_000, 226_000_000);
    let names: Vec<_> = v.iter().map(|b| b.name).collect();
    assert_eq!(names, vec!["Military Air"]);
}

#[test]
fn wide_view_keeps_table_order() {
    let v = visible_radio_bands(0, 2_000_000_000);
    assert_eq!(v.len(), 23);
    assert_eq!(v[0].name, "2200m");
    assert_eq!(v[22].name, "23cm");
    for b in &v {
        assert!(b.start_hz < b.end_hz);
        assert_eq!((b.start_hz, b.end_hz), (b.band_start_hz, b.band_end_hz));
    }
}
