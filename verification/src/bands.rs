use vstd::prelude::*;

verus! {

/// Static description of a radio band, used for the band overlay on the
/// spectrum: display name, extent in Hz and RGB colour (0xRRGGBB).
#[derive(Debug, Clone, Copy)]
pub struct RadioBand {
    pub name: &'static str,
    pub start_hz: u64,
    pub end_hz: u64,
    pub color: u32,
}

/// A band that is currently visible: `start_hz`/`end_hz` are clipped to the
/// view; `band_start_hz`/`band_end_hz` are the full allocation edges.
#[derive(Debug, Clone, Copy)]
pub struct VisibleRadioBand {
    pub name: &'static str,
    pub start_hz: u64,
    pub end_hz: u64,
    pub band_start_hz: u64,
    pub band_end_hz: u64,
    pub color: u32,
}

pub open spec fn band(name: &'static str, start_hz: u64, end_hz: u64, color: u32) -> RadioBand {
    RadioBand { name, start_hz, end_hz, color }
}

fn mk_band(name: &'static str, start_hz: u64, end_hz: u64, color: u32) -> (b: RadioBand)
    ensures
        b == band(name, start_hz, end_hz, color),
{
    RadioBand { name, start_hz, end_hz, color }
}

/// Known radio bands, amateur and non-amateur (approximate, for display).
pub open spec fn radio_bands_spec() -> Seq<RadioBand> {
    seq![
        band("2200m", 135_700, 137_800, 0x6557AD),
        band("630m", 472_000, 479_000, 0x6557AD),
        band("AM Broadcast", 530_000, 1_700_000, 0x804000),
        band("160m", 1_800_000, 2_000_000, 0x6557AD),
        band("80m", 3_500_000, 4_000_000, 0x6557AD),
        band("60m", 5_330_500, 5_405_000, 0x6557AD),
        band("40m", 7_000_000, 7_300_000, 0x6557AD),
        band("30m", 10_100_000, 10_150_000, 0x6557AD),
        band("20m", 14_000_000, 14_350_000, 0x6557AD),
        band("17m", 18_068_000, 18_168_000, 0x6557AD),
        band("15m", 21_000_000, 21_450_000, 0x6557AD),
        band("12m", 24_890_000, 24_990_000, 0x6557AD),
        band("10m", 28_000_000, 29_700_000, 0x6557AD),
        band("6m", 50_000_000, 54_000_000, 0x6557AD),
        band("FM Broadcast", 88_000_000, 108_000_000, 0x205020),
        band("Air Band", 118_000_000, 137_000_000, 0x505020),
        band("2m", 144_000_000, 148_000_000, 0x6557AD),
        band("NOAA Weather", 162_400_000, 162_550_000, 0x206060),
        band("1.25m", 219_000_000, 225_000_000, 0x6557AD),
        band("Military Air", 225_000_000, 400_000_000, 0x900000),
        band("70cm", 420_000_000, 450_000_000, 0x6557AD),
        band("33cm", 902_000_000, 928_000_000, 0x6557AD),
        band("23cm", 1_240_000_000, 1_300_000_000, 0x6557AD)
    ]
}

/// The list of known radio bands, in table order.
pub fn radio_bands() -> (bands: Vec<RadioBand>)
    ensures
        bands@ == radio_bands_spec(),
{
    let bands = vec![
        mk_band("2200m", 135_700, 137_800, 0x6557AD),
        mk_band("630m", 472_000, 479_000, 0x6557AD),
        mk_band("AM Broadcast", 530_000, 1_700_000, 0x804000),
        mk_band("160m", 1_800_000, 2_000_000, 0x6557AD),
        mk_band("80m", 3_500_000, 4_000_000, 0x6557AD),
        mk_band("60m", 5_330_500, 5_405_000, 0x6557AD),
        mk_band("40m", 7_000_000, 7_300_000, 0x6557AD),
        mk_band("30m", 10_100_000, 10_150_000, 0x6557AD),
        mk_band("20m", 14_000_000, 14_350_000, 0x6557AD),
        mk_band("17m", 18_068_000, 18_168_000, 0x6557AD),
        mk_band("15m", 21_000_000, 21_450_000, 0x6557AD),
        mk_band("12m", 24_890_000, 24_990_000, 0x6557AD),
        mk_band("10m", 28_000_000, 29_700_000, 0x6557AD),
        mk_band("6m", 50_000_000, 54_000_000, 0x6557AD),
        mk_band("FM Broadcast", 88_000_000, 108_000_000, 0x205020),
        mk_band("Air Band", 118_000_000, 137_000_000, 0x505020),
        mk_band("2m", 144_000_000, 148_000_000, 0x6557AD),
        mk_band("NOAA Weather", 162_400_000, 162_550_000, 0x206060),
        mk_band("1.25m", 219_000_000, 225_000_000, 0x6557AD),
        mk_band("Military Air", 225_000_000, 400_000_000, 0x900000),
        mk_band("70cm", 420_000_000, 450_000_000, 0x6557AD),
        mk_band("33cm", 902_000_000, 928_000_000, 0x6557AD),
        mk_band("23cm", 1_240_000_000, 1_300_000_000, 0x6557AD)
    ];
    assert(bands@ =~= radio_bands_spec());
    bands
}

/// The part of a band inside the view `[left_hz, right_hz]`, if any.
pub open spec fn clip_band(b: RadioBand, left_hz: u64, right_hz: u64) -> Option<VisibleRadioBand> {
    let start = if b.start_hz >= left_hz { b.start_hz } else { left_hz };
    let end = if b.end_hz <= right_hz { b.end_hz } else { right_hz };
    if end <= start {
        None
    } else {
        Some(VisibleRadioBand {
            name: b.name,
            start_hz: start,
            end_hz: end,
            band_start_hz: b.start_hz,
            band_end_hz: b.end_hz,
            color: b.color,
        })
    }
}

/// The bands of `table` that intersect the view, clipped, in table order.
pub open spec fn visible_bands(table: Seq<RadioBand>, left_hz: u64, right_hz: u64) -> Seq<VisibleRadioBand>
    decreases table.len(),
{
    if table.len() == 0 {
        Seq::empty()
    } else {
        let rest = visible_bands(table.drop_last(), left_hz, right_hz);
        match clip_band(table.last(), left_hz, right_hz) {
            Some(v) => rest.push(v),
            None => rest,
        }
    }
}

/// Compute the radio bands that intersect the view `[left_hz, right_hz]`,
/// clipped to it, in table order; nothing when the view is empty.
pub fn visible_radio_bands(left_hz: u64, right_hz: u64) -> (r: Vec<VisibleRadioBand>)
    ensures
        right_hz <= left_hz ==> r@.len() == 0,
        left_hz < right_hz ==> r@ == visible_bands(radio_bands_spec(), left_hz, right_hz),
{
    if right_hz <= left_hz {
        return Vec::new();
    }
    let table = radio_bands();
    let n = table.len();
    let mut out: Vec<VisibleRadioBand> = Vec::new();
    for i in 0..n
        invariant
            n == table.len(),
            out@ == visible_bands(table@.take(i as int), left_hz, right_hz),
    {
        let b = table[i];
        assert(table@.take(i + 1).drop_last() =~= table@.take(i as int));
        assert(table@.take(i + 1).last() == b);
        let start = if b.start_hz >= left_hz { b.start_hz } else { left_hz };
        let end = if b.end_hz <= right_hz { b.end_hz } else { right_hz };
        if start < end {
            out.push(VisibleRadioBand {
                name: b.name,
                start_hz: start,
                end_hz: end,
                band_start_hz: b.start_hz,
                band_end_hz: b.end_hz,
                color: b.color,
            });
        }
    }
    assert(table@.take(n as int) =~= table@);
    out
}

/// Every visible band is clipped to the view, is not empty and lies inside its
/// full allocation, whose edges it carries.
pub proof fn law_visible_bands_inside_view(table: Seq<RadioBand>, left_hz: u64, right_hz: u64)
    ensures
        forall|k: int| 0 <= k < visible_bands(table, left_hz, right_hz).len() ==> {
            let v = #[trigger] visible_bands(table, left_hz, right_hz)[k];
            &&& left_hz <= v.start_hz < v.end_hz <= right_hz
            &&& v.band_start_hz <= v.start_hz
            &&& v.end_hz <= v.band_end_hz
        },
    decreases table.len(),
{
    if table.len() > 0 {
        law_visible_bands_inside_view(table.drop_last(), left_hz, right_hz);
        let rest = visible_bands(table.drop_last(), left_hz, right_hz);
        let all = visible_bands(table, left_hz, right_hz);
        assert forall|k: int| 0 <= k < all.len() implies {
            let v = #[trigger] all[k];
            &&& left_hz <= v.start_hz < v.end_hz <= right_hz
            &&& v.band_start_hz <= v.start_hz
            &&& v.end_hz <= v.band_end_hz
        } by {
            if k < rest.len() {
                assert(all[k] == rest[k]);
            }
        }
    }
}

/// A band that covers the whole view is visible, clipped exactly to the view.
pub proof fn law_band_covering_view_is_visible(table: Seq<RadioBand>, left_hz: u64, right_hz: u64, i: int)
    requires
        0 <= i < table.len(),
        left_hz < right_hz,
        table[i].start_hz <= left_hz,
        right_hz <= table[i].end_hz,
    ensures
        exists|k: int| 0 <= k < visible_bands(table, left_hz, right_hz).len()
            && #[trigger] visible_bands(table, left_hz, right_hz)[k] == (VisibleRadioBand {
                name: table[i].name,
                start_hz: left_hz,
                end_hz: right_hz,
                band_start_hz: table[i].start_hz,
                band_end_hz: table[i].end_hz,
                color: table[i].color,
            }),
    decreases table.len(),
{
    let rest = visible_bands(table.drop_last(), left_hz, right_hz);
    if i == table.len() - 1 {
        let k = rest.len() as int;
        assert(visible_bands(table, left_hz, right_hz)[k] == clip_band(table[i], left_hz, right_hz)->0);
    } else {
        law_band_covering_view_is_visible(table.drop_last(), left_hz, right_hz, i);
        let k = choose|k: int| 0 <= k < rest.len() && #[trigger] rest[k] == (VisibleRadioBand {
            name: table[i].name,
            start_hz: left_hz,
            end_hz: right_hz,
            band_start_hz: table[i].start_hz,
            band_end_hz: table[i].end_hz,
            color: table[i].color,
        });
        assert(visible_bands(table, left_hz, right_hz)[k] == rest[k]);
    }
}


/// Every band that shares some frequency with the view is visible, clipped to
/// the view: from the later of its start and the left edge to the earlier of
/// its end and the right edge. This holds for bands that cover only part of
/// the view as much as for those that cover all of it.
pub proof fn law_band_sharing_view_is_visible(table: Seq<RadioBand>, left_hz: u64, right_hz: u64, i: int)
    requires
        0 <= i < table.len(),
        left_hz < right_hz,
        (if table[i].start_hz >= left_hz { table[i].start_hz } else { left_hz }) < (if table[i].end_hz
            <= right_hz { table[i].end_hz } else { right_hz }),
    ensures
        exists|k: int| 0 <= k < visible_bands(table, left_hz, right_hz).len()
            && #[trigger] visible_bands(table, left_hz, right_hz)[k] == (VisibleRadioBand {
                name: table[i].name,
                start_hz: if table[i].start_hz >= left_hz { table[i].start_hz } else { left_hz },
                end_hz: if table[i].end_hz <= right_hz { table[i].end_hz } else { right_hz },
                band_start_hz: table[i].start_hz,
                band_end_hz: table[i].end_hz,
                color: table[i].color,
            }),
    decreases table.len(),
{
    let rest = visible_bands(table.drop_last(), left_hz, right_hz);
    let want = VisibleRadioBand {
        name: table[i].name,
        start_hz: if table[i].start_hz >= left_hz { table[i].start_hz } else { left_hz },
        end_hz: if table[i].end_hz <= right_hz { table[i].end_hz } else { right_hz },
        band_start_hz: table[i].start_hz,
        band_end_hz: table[i].end_hz,
        color: table[i].color,
    };
    if i == table.len() - 1 {
        let k = rest.len() as int;
        assert(clip_band(table[i], left_hz, right_hz) == Some(want));
        assert(visible_bands(table, left_hz, right_hz)[k] == want);
    } else {
        law_band_sharing_view_is_visible(table.drop_last(), left_hz, right_hz, i);
        assert(table.drop_last()[i] == table[i]);
        let k = choose|k: int| 0 <= k < rest.len() && #[trigger] rest[k] == want;
        assert(visible_bands(table, left_hz, right_hz)[k] == rest[k]);
    }
}

} // verus!
