use rigflow_client::om_bands::{
    band_plan, license_bit, license_label, next_license, om_kind_color, om_kind_label, prev_license,
    visible_om_segments, LicenseClass, OmKind, COLOR_OM_PHONE_IMAGE, COLOR_OM_RTTY_DATA,
};

fn at(freq_hz: u64, license: LicenseClass) -> Vec<(OmKind, u8, u8)> {
    visible_om_segments(freq_hz - 100, freq_hz + 100, license)
        .into_iter()
        .map(|s| (s.kind, s.lane, s.lanes))
        .collect()
}

#[test]
fn overlapping_red_green_stacks_into_two_lanes() {
    let mut v = at(223_000_000, LicenseClass::AmateurExtra);
    v.sort_by_key(|(_, lane, _)| *lane);
    assert_eq!(v.len(), 2);
    assert_eq!(v[0], (OmKind::RttyData, 0, 2));
    assert_eq!(v[1], (OmKind::PhoneImage, 1, 2));
}

#[test]
fn non_overlapping_segment_is_full_height() {
    let v = at(14_250_000, LicenseClass::AmateurExtra);
    assert_eq!(v, vec![(OmKind::PhoneImage, 0, 1)]);
}

#[test]
fn license_filtering_still_selects_the_right_rows() {
    assert_eq!(at(28_400_000, LicenseClass::General), vec![(OmKind::PhoneImage, 0, 1)]);
    assert_eq!(at(28_400_000, LicenseClass::Novice), vec![(OmKind::SsbPhone, 0, 1)]);
}

#[test]
fn hover_key_is_carried_through() {
    let v = visible_om_segments(14_240_000, 14_260_000, LicenseClass::General);
    assert_eq!(v.len(), 1);
    assert_eq!(v[0].key, "phone and image");
}

#[test]
fn om_bands_clipping_carries_full_band_edges() {
    let v = visible_om_segments(14_200_000, 14_300_000, LicenseClass::AmateurExtra);
    assert_eq!(v.len(), 1);
    assert_eq!(v[0].kind, OmKind::PhoneImage);
    assert_eq!(v[0].start_hz, 14_200_000);
    assert_eq!(v[0].end_hz, 14_300_000);
    assert_eq!(v[0].band_start_hz, 14_150_000);
    assert_eq!(v[0].band_end_hz, 14_350_000);
}

#[test]
fn band_plan_has_every_row() {
    assert_eq!(band_plan().len(), 60);
}

#[test]
fn empty_view_has_no_segments() {
    assert!(visible_om_segments(14_000_000, 14_000_000, LicenseClass::General).is_empty());
    assert!(visible_om_segments(15_000_000, 14_000_000, LicenseClass::General).is_empty());
}

#[test]
fn whole_20m_band_for_extra_sorted_by_start() {
    let v = visible_om_segments(13_900_000, 14_400_000, LicenseClass::AmateurExtra);
    let got: Vec<_> = v.iter().map(|s| (s.start_hz, s.end_hz, s.kind, s.lane, s.lanes)).collect();
    assert_eq!(
        got,
        vec![
            (14_000_000, 14_150_000, OmKind::RttyData, 0, 1),
            (14_150_000, 14_350_000, OmKind::PhoneImage, 0, 1),
        ]
    );
}

#[test]
fn stacking_orders_equal_starts_by_kind() {
    // 6 m for General: CW 50.0-50.1, then phone and RTTY both 50.1-54.0.
    let v = visible_om_segments(49_000_000, 55_000_000, LicenseClass::General);
    let got: Vec<_> = v.iter().map(|s| (s.start_hz, s.kind, s.lane, s.lanes)).collect();
    assert_eq!(
        got,
        vec![
            (50_000_000, OmKind::CwOnly, 0, 1),
            (50_100_000, OmKind::RttyData, 0, 2),
            (50_100_000, OmKind::PhoneImage, 1, 2),
        ]
    );
}

#[test]
fn same_lane_segments_never_overlap_across_whole_plan() {
    for lic in [
        LicenseClass::AmateurExtra,
        LicenseClass::Advanced,
        LicenseClass::General,
        LicenseClass::Technician,
        LicenseClass::Novice,
    ] {
        let v = visible_om_segments(0, 2_000_000_000, lic);
        for i in 0..v.len() {
            assert!(v[i].lane < v[i].lanes);
            if i > 0 {
                assert!(v[i - 1].start_hz <= v[i].start_hz);
            }
            for k in 0..v.len() {
                if i != k && v[i].lane == v[k].lane {
                    let overlap = v[i].start_hz < v[k].end_hz && v[k].start_hz < v[i].end_hz;
                    assert!(!overlap);
                }
            }
        }
    }
}

#[test]
fn license_cycle_forward_and_back() {
    let all = [
        LicenseClass::AmateurExtra,
        LicenseClass::Advanced,
        LicenseClass::General,
        LicenseClass::Technician,
        LicenseClass::Novice,
    ];
    for (i, l) in all.iter().enumerate() {
        assert_eq!(next_license(*l), all[(i + 1) % 5]);
        assert_eq!(prev_license(next_license(*l)), *l);
        assert_eq!(next_license(prev_license(*l)), *l);
    }
    let mut l = LicenseClass::General;
    for _ in 0..5 {
        l = next_license(l);
    }
    assert_eq!(l, LicenseClass::General);
}

#[test]
fn license_bits_and_labels() {
    assert_eq!(license_bit(LicenseClass::AmateurExtra), 1);
    assert_eq!(license_bit(LicenseClass::Novice), 16);
    assert_eq!(license_label(LicenseClass::AmateurExtra), "Extra");
    assert_eq!(license_label(LicenseClass::Technician), "Technician");
}

#[test]
fn kind_colors_and_labels() {
    assert_eq!(om_kind_color(OmKind::RttyData), COLOR_OM_RTTY_DATA);
    assert_eq!(om_kind_color(OmKind::PhoneImage), COLOR_OM_PHONE_IMAGE);
    assert_eq!(om_kind_color(OmKind::FixedDigitalMessages), 0x00ff9000);
    assert_eq!(om_kind_label(OmKind::UsbPhoneCwRttyData), "USB/CW/DATA");
    assert_eq!(om_kind_label(OmKind::CwOnly), "CW");
}

#[test]
fn lane_count_is_the_deepest_overlap_of_each_cluster() {
    let views: [(u64, u64); 4] =
        [(0, 3_000_000_000), (1_800_000, 2_000_000), (144_000_000, 148_000_000), (222_000_000, 225_000_000)];
    let licenses = [LicenseClass::AmateurExtra, LicenseClass::Technician, LicenseClass::General];
    for (left, right) in views {
        for license in licenses {
            let segs = visible_om_segments(left, right, license);
            // Split the start-sorted list into clusters of transitive overlap.
            let mut start = 0;
            while start < segs.len() {
                let mut end = start + 1;
                let mut reach = segs[start].end_hz;
                while end < segs.len() && segs[end].start_hz < reach {
                    reach = reach.max(segs[end].end_hz);
                    end += 1;
                }
                let cluster = &segs[start..end];
                let deepest = cluster
                    .iter()
                    .map(|p| cluster.iter().filter(|q| q.start_hz <= p.start_hz && p.start_hz < q.end_hz).count())
                    .max()
                    .unwrap();
                for s in cluster {
                    assert_eq!(s.lanes as usize, deepest);
                }
                start = end;
            }
        }
    }
}

#[test]
fn overlapping_segments_take_different_lanes_of_one_count() {
    for license in [LicenseClass::AmateurExtra, LicenseClass::General, LicenseClass::Technician] {
        let segs = visible_om_segments(0, 3_000_000_000, license);
        for (i, a) in segs.iter().enumerate() {
            for (k, b) in segs.iter().enumerate() {
                if i != k && a.start_hz < b.end_hz && b.start_hz < a.end_hz {
                    assert_ne!(a.lane, b.lane);
                    assert_eq!(a.lanes, b.lanes);
                }
            }
        }
    }
}
