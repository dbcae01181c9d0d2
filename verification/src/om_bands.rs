use vstd::prelude::*;
use vstd::set_lib::{lemma_int_range, lemma_len_subset, set_int_range};

verus! {

/// Colour for RTTY / data segments (0xRRGGBB, red).
pub const COLOR_OM_RTTY_DATA: u32 = 0x00c00000;
/// Colour for phone / image segments (green).
pub const COLOR_OM_PHONE_IMAGE: u32 = 0x0000a000;
/// Colour for CW-only segments (white).
pub const COLOR_OM_CW_ONLY: u32 = 0x00f0f0f0;
/// Colour for SSB-phone segments (yellow).
pub const COLOR_OM_SSB_PHONE: u32 = 0x00d0c000;
/// Colour for USB phone / CW / RTTY / data segments (light blue).
pub const COLOR_OM_USB_PHONE_CW_RTTY_DATA: u32 = 0x0040b0ff;
/// Colour for fixed digital message forwarding segments (orange).
pub const COLOR_OM_FIXED_DIGITAL: u32 = 0x00ff9000;

/// Classification of operator privileges.
#[derive(Debug, Clone, Copy, PartialEq, Eq, Structural)]
pub enum LicenseClass {
    AmateurExtra,
    Advanced,
    General,
    Technician,
    Novice,
}

/// License bitmask values used by the band-plan table, so that one flat list
/// carries the per-license rows of the ARRL band plan.
pub const LIC_E: u8 = 1;
pub const LIC_A: u8 = 2;
pub const LIC_G: u8 = 4;
pub const LIC_T: u8 = 8;
pub const LIC_N: u8 = 16;

/// Position of a license class in the cycling order used by the UI toggle.
pub open spec fn license_index(l: LicenseClass) -> int {
    match l {
        LicenseClass::AmateurExtra => 0,
        LicenseClass::Advanced => 1,
        LicenseClass::General => 2,
        LicenseClass::Technician => 3,
        LicenseClass::Novice => 4,
    }
}

/// The single bit that stands for a license class in the band-plan masks.
pub open spec fn license_mask(l: LicenseClass) -> u8 {
    match l {
        LicenseClass::AmateurExtra => LIC_E,
        LicenseClass::Advanced => LIC_A,
        LicenseClass::General => LIC_G,
        LicenseClass::Technician => LIC_T,
        LicenseClass::Novice => LIC_N,
    }
}

/// Single-bit mask for one license class (for filtering the band plan).
pub fn license_bit(license: LicenseClass) -> (bit: u8)
    ensures
        bit == license_mask(license),
{
    match license {
        LicenseClass::AmateurExtra => LIC_E,
        LicenseClass::Advanced => LIC_A,
        LicenseClass::General => LIC_G,
        LicenseClass::Technician => LIC_T,
        LicenseClass::Novice => LIC_N,
    }
}

/// The license class that follows `l` in the cycle Extra, Advanced, General,
/// Technician, Novice, Extra, ...
pub open spec fn license_after(l: LicenseClass) -> LicenseClass {
    match l {
        LicenseClass::AmateurExtra => LicenseClass::Advanced,
        LicenseClass::Advanced => LicenseClass::General,
        LicenseClass::General => LicenseClass::Technician,
        LicenseClass::Technician => LicenseClass::Novice,
        LicenseClass::Novice => LicenseClass::AmateurExtra,
    }
}

/// The license class that precedes `l` in the same cycle.
pub open spec fn license_before(l: LicenseClass) -> LicenseClass {
    match l {
        LicenseClass::AmateurExtra => LicenseClass::Novice,
        LicenseClass::Advanced => LicenseClass::AmateurExtra,
        LicenseClass::General => LicenseClass::Advanced,
        LicenseClass::Technician => LicenseClass::General,
        LicenseClass::Novice => LicenseClass::Technician,
    }
}

/// Cycle forward through license classes (used for UI toggling).
pub fn next_license(license: LicenseClass) -> (r: LicenseClass)
    ensures
        r == license_after(license),
        license_index(r) == (license_index(license) + 1) % 5,
{
    match license {
        LicenseClass::AmateurExtra => LicenseClass::Advanced,
        LicenseClass::Advanced => LicenseClass::General,
        LicenseClass::General => LicenseClass::Technician,
        LicenseClass::Technician => LicenseClass::Novice,
        LicenseClass::Novice => LicenseClass::AmateurExtra,
    }
}

/// Cycle backward through license classes.
pub fn prev_license(license: LicenseClass) -> (r: LicenseClass)
    ensures
        r == license_before(license),
        license_index(r) == (license_index(license) + 4) % 5,
{
    match license {
        LicenseClass::AmateurExtra => LicenseClass::Novice,
        LicenseClass::Advanced => LicenseClass::AmateurExtra,
        LicenseClass::General => LicenseClass::Advanced,
        LicenseClass::Technician => LicenseClass::General,
        LicenseClass::Novice => LicenseClass::Technician,
    }
}

/// Stepping backward undoes stepping forward, and the other way round.
pub proof fn law_prev_next_inverse(l: LicenseClass)
    ensures
        license_before(license_after(l)) == l,
        license_after(license_before(l)) == l,
{
}

/// Stepping forward five times visits every class once and returns to the start.
pub proof fn law_next_cycles_through_all(l: LicenseClass)
    ensures
        license_after(license_after(license_after(license_after(license_after(l))))) == l,
        license_index(license_after(l)) == (license_index(l) + 1) % 5,
        license_index(license_before(l)) == (license_index(l) + 4) % 5,
{
}

/// Distinct classes have distinct cycle positions, so the position names the class.
pub proof fn law_license_index_injective(a: LicenseClass, b: LicenseClass)
    ensures
        license_index(a) == license_index(b) ==> a == b,
        0 <= license_index(a) < 5,
{
}

/// Compact license-class label for the status bar.
pub fn license_label(license: LicenseClass) -> (s: &'static str)
    ensures
        s@ == match license {
            LicenseClass::AmateurExtra => "Extra"@,
            LicenseClass::Advanced => "Advanced"@,
            LicenseClass::General => "General"@,
            LicenseClass::Technician => "Technician"@,
            LicenseClass::Novice => "Novice"@,
        },
{
    match license {
        LicenseClass::AmateurExtra => "Extra",
        LicenseClass::Advanced => "Advanced",
        LicenseClass::General => "General",
        LicenseClass::Technician => "Technician",
        LicenseClass::Novice => "Novice",
    }
}

/// OM segment type: maps to the bar colour and the in-bar abbreviation. The
/// declaration order is also the vertical stacking tiebreak (RttyData stacks
/// above PhoneImage).
#[derive(Debug, Clone, Copy, PartialEq, Eq, Structural)]
pub enum OmKind {
    RttyData,
    PhoneImage,
    CwOnly,
    SsbPhone,
    UsbPhoneCwRttyData,
    FixedDigitalMessages,
}

/// Declaration position of a segment kind (its stacking tiebreak).
pub open spec fn kind_rank(k: OmKind) -> int {
    match k {
        OmKind::RttyData => 0,
        OmKind::PhoneImage => 1,
        OmKind::CwOnly => 2,
        OmKind::SsbPhone => 3,
        OmKind::UsbPhoneCwRttyData => 4,
        OmKind::FixedDigitalMessages => 5,
    }
}

/// Declaration position of a segment kind, as a byte.
pub fn om_kind_rank(k: OmKind) -> (r: u8)
    ensures
        r == kind_rank(k),
{
    match k {
        OmKind::RttyData => 0,
        OmKind::PhoneImage => 1,
        OmKind::CwOnly => 2,
        OmKind::SsbPhone => 3,
        OmKind::UsbPhoneCwRttyData => 4,
        OmKind::FixedDigitalMessages => 5,
    }
}

/// Bar colour of a segment kind (0xRRGGBB).
pub fn om_kind_color(kind: OmKind) -> (c: u32)
    ensures
        c == match kind {
            OmKind::RttyData => COLOR_OM_RTTY_DATA,
            OmKind::PhoneImage => COLOR_OM_PHONE_IMAGE,
            OmKind::CwOnly => COLOR_OM_CW_ONLY,
            OmKind::SsbPhone => COLOR_OM_SSB_PHONE,
            OmKind::UsbPhoneCwRttyData => COLOR_OM_USB_PHONE_CW_RTTY_DATA,
            OmKind::FixedDigitalMessages => COLOR_OM_FIXED_DIGITAL,
        },
{
    match kind {
        OmKind::RttyData => COLOR_OM_RTTY_DATA,
        OmKind::PhoneImage => COLOR_OM_PHONE_IMAGE,
        OmKind::CwOnly => COLOR_OM_CW_ONLY,
        OmKind::SsbPhone => COLOR_OM_SSB_PHONE,
        OmKind::UsbPhoneCwRttyData => COLOR_OM_USB_PHONE_CW_RTTY_DATA,
        OmKind::FixedDigitalMessages => COLOR_OM_FIXED_DIGITAL,
    }
}

/// In-bar abbreviation of a segment kind.
pub fn om_kind_label(kind: OmKind) -> (s: &'static str)
    ensures
        s@ == match kind {
            OmKind::RttyData => "RTTY/DATA"@,
            OmKind::PhoneImage => "PHONE"@,
            OmKind::CwOnly => "CW"@,
            OmKind::SsbPhone => "SSB"@,
            OmKind::UsbPhoneCwRttyData => "USB/CW/DATA"@,
            OmKind::FixedDigitalMessages => "DIGITAL"@,
        },
{
    match kind {
        OmKind::RttyData => "RTTY/DATA",
        OmKind::PhoneImage => "PHONE",
        OmKind::CwOnly => "CW",
        OmKind::SsbPhone => "SSB",
        OmKind::UsbPhoneCwRttyData => "USB/CW/DATA",
        OmKind::FixedDigitalMessages => "DIGITAL",
    }
}

/// Raw segment definition: one full band allocation, frequencies in Hz.
#[derive(Debug, Clone, Copy)]
pub struct OmSegment {
    pub start_hz: u64,
    pub end_hz: u64,
    /// Bitmask of the license classes this allocation applies to (`LIC_*`).
    pub licenses: u8,
    pub kind: OmKind,
    /// Allowed-operations text (shown on hover).
    pub key: &'static str,
}

/// Visible segment for rendering. `start_hz`/`end_hz` are clipped to the view;
/// `band_start_hz`/`band_end_hz` are the full allocation edges. `lane` is this
/// segment's stacking lane and `lanes` the number of lanes in its overlap
/// cluster (`lanes == 1` when nothing overlaps it).
#[derive(Debug, Clone, Copy)]
pub struct VisibleOmSegment {
    pub start_hz: u64,
    pub end_hz: u64,
    pub band_start_hz: u64,
    pub band_end_hz: u64,
    pub kind: OmKind,
    pub key: &'static str,
    pub lane: u8,
    pub lanes: u8,
}

/// One band-plan row.
pub open spec fn seg(start_hz: u64, end_hz: u64, licenses: u8, kind: OmKind, key: &'static str) -> OmSegment {
    OmSegment { start_hz, end_hz, licenses, kind, key }
}

fn mk_seg(start_hz: u64, end_hz: u64, licenses: u8, kind: OmKind, key: &'static str) -> (s: OmSegment)
    ensures
        s == seg(start_hz, end_hz, licenses, kind, key),
{
    OmSegment { start_hz, end_hz, licenses, kind, key }
}

/// The complete US amateur band plan (ARRL band plan), one row per allocation
/// and license group, frequencies in Hz.
pub open spec fn band_plan_spec() -> Seq<OmSegment> {
    seq![
        seg(135_700, 137_800, LIC_E | LIC_A | LIC_G, OmKind::PhoneImage, "phone and image"),
        seg(135_700, 137_800, LIC_E | LIC_A | LIC_G, OmKind::RttyData, "RTTY and data"),
        seg(472_000, 479_000, LIC_E | LIC_A | LIC_G, OmKind::PhoneImage, "phone and image"),
        seg(472_000, 479_000, LIC_E | LIC_A | LIC_G, OmKind::RttyData, "RTTY and data"),
        seg(1_800_000, 2_000_000, LIC_E | LIC_A | LIC_G, OmKind::PhoneImage, "phone and image"),
        seg(1_800_000, 2_000_000, LIC_E | LIC_A | LIC_G, OmKind::RttyData, "RTTY and data"),
        seg(3_500_000, 3_600_000, LIC_E, OmKind::RttyData, "RTTY and data"),
        seg(3_600_000, 4_000_000, LIC_E, OmKind::PhoneImage, "phone and image"),
        seg(3_525_000, 3_600_000, LIC_A, OmKind::RttyData, "RTTY and data"),
        seg(3_700_000, 4_000_000, LIC_A, OmKind::PhoneImage, "phone and image"),
        seg(3_525_000, 3_600_000, LIC_G, OmKind::RttyData, "RTTY and data"),
        seg(3_800_000, 4_000_000, LIC_G, OmKind::PhoneImage, "phone and image"),
        seg(3_525_000, 3_600_000, LIC_N | LIC_T, OmKind::CwOnly, "CW only"),
        seg(5_332_000, 5_405_000, LIC_E | LIC_A | LIC_G, OmKind::UsbPhoneCwRttyData, "USB, CW and digital modes"),
        seg(7_000_000, 7_125_000, LIC_E, OmKind::RttyData, "RTTY and data"),
        seg(7_125_000, 7_300_000, LIC_E, OmKind::PhoneImage, "phone and image"),
        seg(7_025_000, 7_125_000, LIC_A, OmKind::RttyData, "RTTY and data"),
        seg(7_125_000, 7_300_000, LIC_A, OmKind::PhoneImage, "phone and image"),
        seg(7_025_000, 7_125_000, LIC_G, OmKind::RttyData, "RTTY and data"),
        seg(7_175_000, 7_300_000, LIC_G, OmKind::PhoneImage, "phone and image"),
        seg(7_025_000, 7_125_000, LIC_N | LIC_T, OmKind::CwOnly, "CW only"),
        seg(10_100_000, 10_150_000, LIC_E | LIC_A | LIC_G, OmKind::RttyData, "RTTY and data"),
        seg(14_000_000, 14_150_000, LIC_E, OmKind::RttyData, "RTTY and data"),
        seg(14_150_000, 14_350_000, LIC_E, OmKind::PhoneImage, "phone and image"),
        seg(14_025_000, 14_150_000, LIC_A, OmKind::RttyData, "RTTY and data"),
        seg(14_175_000, 14_350_000, LIC_A, OmKind::PhoneImage, "phone and image"),
        seg(14_025_000, 14_150_000, LIC_G, OmKind::RttyData, "RTTY and data"),
        seg(14_225_000, 14_350_000, LIC_G, OmKind::PhoneImage, "phone and image"),
        seg(18_068_000, 18_110_000, LIC_E | LIC_A | LIC_G, OmKind::RttyData, "RTTY and data"),
        seg(18_110_000, 18_168_000, LIC_E | LIC_A | LIC_G, OmKind::PhoneImage, "phone and image"),
        seg(21_000_000, 21_200_000, LIC_E, OmKind::RttyData, "RTTY and data"),
        seg(21_200_000, 21_450_000, LIC_E, OmKind::PhoneImage, "phone and image"),
        seg(21_025_000, 21_200_000, LIC_A, OmKind::RttyData, "RTTY and data"),
        seg(21_225_000, 21_450_000, LIC_A, OmKind::PhoneImage, "phone and image"),
        seg(21_025_000, 21_200_000, LIC_G, OmKind::RttyData, "RTTY and data"),
        seg(21_275_000, 21_450_000, LIC_G, OmKind::PhoneImage, "phone and image"),
        seg(21_025_000, 21_200_000, LIC_N | LIC_T, OmKind::CwOnly, "CW only"),
        seg(24_890_000, 24_930_000, LIC_E | LIC_A | LIC_G, OmKind::RttyData, "RTTY and data"),
        seg(24_930_000, 24_990_000, LIC_E | LIC_A | LIC_G, OmKind::PhoneImage, "phone and image"),
        seg(28_000_000, 28_300_000, LIC_E | LIC_A | LIC_G, OmKind::RttyData, "RTTY and data"),
        seg(28_300_000, 29_700_000, LIC_E | LIC_A | LIC_G, OmKind::PhoneImage, "phone and image"),
        seg(28_000_000, 28_300_000, LIC_N | LIC_T, OmKind::RttyData, "RTTY and data"),
        seg(28_300_000, 28_500_000, LIC_N | LIC_T, OmKind::SsbPhone, "SSB phone"),
        seg(50_000_000, 50_100_000, LIC_E | LIC_A | LIC_G | LIC_T, OmKind::CwOnly, "CW only"),
        seg(50_100_000, 54_000_000, LIC_E | LIC_A | LIC_G | LIC_T, OmKind::PhoneImage, "phone and image"),
        seg(50_100_000, 54_000_000, LIC_E | LIC_A | LIC_G | LIC_T, OmKind::RttyData, "RTTY and data"),
        seg(144_000_000, 144_100_000, LIC_E | LIC_A | LIC_G | LIC_T, OmKind::CwOnly, "CW only"),
        seg(144_100_000, 148_000_000, LIC_E | LIC_A | LIC_G | LIC_T, OmKind::PhoneImage, "phone and image"),
        seg(144_100_000, 148_000_000, LIC_E | LIC_A | LIC_G | LIC_T, OmKind::RttyData, "RTTY and data"),
        seg(219_000_000, 220_000_000, LIC_E | LIC_A | LIC_G | LIC_T, OmKind::FixedDigitalMessages, "Fixed digital message forwarding systems only"),
        seg(222_000_000, 225_000_000, LIC_E | LIC_A | LIC_G | LIC_T | LIC_N, OmKind::PhoneImage, "phone and image"),
        seg(222_000_000, 225_000_000, LIC_E | LIC_A | LIC_G | LIC_T | LIC_N, OmKind::RttyData, "RTTY and data"),
        seg(420_000_000, 450_000_000, LIC_E | LIC_A | LIC_G | LIC_T, OmKind::PhoneImage, "phone and image"),
        seg(420_000_000, 450_000_000, LIC_E | LIC_A | LIC_G | LIC_T, OmKind::RttyData, "RTTY and data"),
        seg(902_000_000, 928_000_000, LIC_E | LIC_A | LIC_G | LIC_T, OmKind::PhoneImage, "phone and image"),
        seg(902_000_000, 928_000_000, LIC_E | LIC_A | LIC_G | LIC_T, OmKind::RttyData, "RTTY and data"),
        seg(1_240_000_000, 1_300_000_000, LIC_E | LIC_A | LIC_G | LIC_T, OmKind::PhoneImage, "phone and image"),
        seg(1_240_000_000, 1_300_000_000, LIC_E | LIC_A | LIC_G | LIC_T, OmKind::RttyData, "RTTY and data"),
        seg(1_270_000_000, 1_295_000_000, LIC_N, OmKind::PhoneImage, "phone and image"),
        seg(1_270_000_000, 1_295_000_000, LIC_N, OmKind::RttyData, "RTTY and data")
    ]
}

/// The band plan as a vector, in table order.
#[verifier::rlimit(50)]
pub fn band_plan() -> (plan: Vec<OmSegment>)
    ensures
        plan@ == band_plan_spec(),
{
    let plan = vec![
        mk_seg(135_700, 137_800, LIC_E | LIC_A | LIC_G, OmKind::PhoneImage, "phone and image"),
        mk_seg(135_700, 137_800, LIC_E | LIC_A | LIC_G, OmKind::RttyData, "RTTY and data"),
        mk_seg(472_000, 479_000, LIC_E | LIC_A | LIC_G, OmKind::PhoneImage, "phone and image"),
        mk_seg(472_000, 479_000, LIC_E | LIC_A | LIC_G, OmKind::RttyData, "RTTY and data"),
        mk_seg(1_800_000, 2_000_000, LIC_E | LIC_A | LIC_G, OmKind::PhoneImage, "phone and image"),
        mk_seg(1_800_000, 2_000_000, LIC_E | LIC_A | LIC_G, OmKind::RttyData, "RTTY and data"),
        mk_seg(3_500_000, 3_600_000, LIC_E, OmKind::RttyData, "RTTY and data"),
        mk_seg(3_600_000, 4_000_000, LIC_E, OmKind::PhoneImage, "phone and image"),
        mk_seg(3_525_000, 3_600_000, LIC_A, OmKind::RttyData, "RTTY and data"),
        mk_seg(3_700_000, 4_000_000, LIC_A, OmKind::PhoneImage, "phone and image"),
        mk_seg(3_525_000, 3_600_000, LIC_G, OmKind::RttyData, "RTTY and data"),
        mk_seg(3_800_000, 4_000_000, LIC_G, OmKind::PhoneImage, "phone and image"),
        mk_seg(3_525_000, 3_600_000, LIC_N | LIC_T, OmKind::CwOnly, "CW only"),
        mk_seg(5_332_000, 5_405_000, LIC_E | LIC_A | LIC_G, OmKind::UsbPhoneCwRttyData, "USB, CW and digital modes"),
        mk_seg(7_000_000, 7_125_000, LIC_E, OmKind::RttyData, "RTTY and data"),
        mk_seg(7_125_000, 7_300_000, LIC_E, OmKind::PhoneImage, "phone and image"),
        mk_seg(7_025_000, 7_125_000, LIC_A, OmKind::RttyData, "RTTY and data"),
        mk_seg(7_125_000, 7_300_000, LIC_A, OmKind::PhoneImage, "phone and image"),
        mk_seg(7_025_000, 7_125_000, LIC_G, OmKind::RttyData, "RTTY and data"),
        mk_seg(7_175_000, 7_300_000, LIC_G, OmKind::PhoneImage, "phone and image"),
        mk_seg(7_025_000, 7_125_000, LIC_N | LIC_T, OmKind::CwOnly, "CW only"),
        mk_seg(10_100_000, 10_150_000, LIC_E | LIC_A | LIC_G, OmKind::RttyData, "RTTY and data"),
        mk_seg(14_000_000, 14_150_000, LIC_E, OmKind::RttyData, "RTTY and data"),
        mk_seg(14_150_000, 14_350_000, LIC_E, OmKind::PhoneImage, "phone and image"),
        mk_seg(14_025_000, 14_150_000, LIC_A, OmKind::RttyData, "RTTY and data"),
        mk_seg(14_175_000, 14_350_000, LIC_A, OmKind::PhoneImage, "phone and image"),
        mk_seg(14_025_000, 14_150_000, LIC_G, OmKind::RttyData, "RTTY and data"),
        mk_seg(14_225_000, 14_350_000, LIC_G, OmKind::PhoneImage, "phone and image"),
        mk_seg(18_068_000, 18_110_000, LIC_E | LIC_A | LIC_G, OmKind::RttyData, "RTTY and data"),
        mk_seg(18_110_000, 18_168_000, LIC_E | LIC_A | LIC_G, OmKind::PhoneImage, "phone and image"),
        mk_seg(21_000_000, 21_200_000, LIC_E, OmKind::RttyData, "RTTY and data"),
        mk_seg(21_200_000, 21_450_000, LIC_E, OmKind::PhoneImage, "phone and image"),
        mk_seg(21_025_000, 21_200_000, LIC_A, OmKind::RttyData, "RTTY and data"),
        mk_seg(21_225_000, 21_450_000, LIC_A, OmKind::PhoneImage, "phone and image"),
        mk_seg(21_025_000, 21_200_000, LIC_G, OmKind::RttyData, "RTTY and data"),
        mk_seg(21_275_000, 21_450_000, LIC_G, OmKind::PhoneImage, "phone and image"),
        mk_seg(21_025_000, 21_200_000, LIC_N | LIC_T, OmKind::CwOnly, "CW only"),
        mk_seg(24_890_000, 24_930_000, LIC_E | LIC_A | LIC_G, OmKind::RttyData, "RTTY and data"),
        mk_seg(24_930_000, 24_990_000, LIC_E | LIC_A | LIC_G, OmKind::PhoneImage, "phone and image"),
        mk_seg(28_000_000, 28_300_000, LIC_E | LIC_A | LIC_G, OmKind::RttyData, "RTTY and data"),
        mk_seg(28_300_000, 29_700_000, LIC_E | LIC_A | LIC_G, OmKind::PhoneImage, "phone and image"),
        mk_seg(28_000_000, 28_300_000, LIC_N | LIC_T, OmKind::RttyData, "RTTY and data"),
        mk_seg(28_300_000, 28_500_000, LIC_N | LIC_T, OmKind::SsbPhone, "SSB phone"),
        mk_seg(50_000_000, 50_100_000, LIC_E | LIC_A | LIC_G | LIC_T, OmKind::CwOnly, "CW only"),
        mk_seg(50_100_000, 54_000_000, LIC_E | LIC_A | LIC_G | LIC_T, OmKind::PhoneImage, "phone and image"),
        mk_seg(50_100_000, 54_000_000, LIC_E | LIC_A | LIC_G | LIC_T, OmKind::RttyData, "RTTY and data"),
        mk_seg(144_000_000, 144_100_000, LIC_E | LIC_A | LIC_G | LIC_T, OmKind::CwOnly, "CW only"),
        mk_seg(144_100_000, 148_000_000, LIC_E | LIC_A | LIC_G | LIC_T, OmKind::PhoneImage, "phone and image"),
        mk_seg(144_100_000, 148_000_000, LIC_E | LIC_A | LIC_G | LIC_T, OmKind::RttyData, "RTTY and data"),
        mk_seg(219_000_000, 220_000_000, LIC_E | LIC_A | LIC_G | LIC_T, OmKind::FixedDigitalMessages, "Fixed digital message forwarding systems only"),
        mk_seg(222_000_000, 225_000_000, LIC_E | LIC_A | LIC_G | LIC_T | LIC_N, OmKind::PhoneImage, "phone and image"),
        mk_seg(222_000_000, 225_000_000, LIC_E | LIC_A | LIC_G | LIC_T | LIC_N, OmKind::RttyData, "RTTY and data"),
        mk_seg(420_000_000, 450_000_000, LIC_E | LIC_A | LIC_G | LIC_T, OmKind::PhoneImage, "phone and image"),
        mk_seg(420_000_000, 450_000_000, LIC_E | LIC_A | LIC_G | LIC_T, OmKind::RttyData, "RTTY and data"),
        mk_seg(902_000_000, 928_000_000, LIC_E | LIC_A | LIC_G | LIC_T, OmKind::PhoneImage, "phone and image"),
        mk_seg(902_000_000, 928_000_000, LIC_E | LIC_A | LIC_G | LIC_T, OmKind::RttyData, "RTTY and data"),
        mk_seg(1_240_000_000, 1_300_000_000, LIC_E | LIC_A | LIC_G | LIC_T, OmKind::PhoneImage, "phone and image"),
        mk_seg(1_240_000_000, 1_300_000_000, LIC_E | LIC_A | LIC_G | LIC_T, OmKind::RttyData, "RTTY and data"),
        mk_seg(1_270_000_000, 1_295_000_000, LIC_N, OmKind::PhoneImage, "phone and image"),
        mk_seg(1_270_000_000, 1_295_000_000, LIC_N, OmKind::RttyData, "RTTY and data")
    ];
    assert(plan@ =~= band_plan_spec());
    plan
}

/// Max and min of two frequencies.
pub open spec fn max_hz(a: u64, b: u64) -> u64 {
    if a >= b { a } else { b }
}

pub open spec fn min_hz(a: u64, b: u64) -> u64 {
    if a <= b { a } else { b }
}

/// The part of a band-plan row that lies inside the view `[left_hz, right_hz]`,
/// or `None` when nothing of it is visible.
pub open spec fn clip_segment(s: OmSegment, left_hz: u64, right_hz: u64) -> Option<VisibleOmSegment> {
    let start = max_hz(s.start_hz, left_hz);
    let end = min_hz(s.end_hz, right_hz);
    if end <= start {
        None
    } else {
        Some(VisibleOmSegment {
            start_hz: start,
            end_hz: end,
            band_start_hz: s.start_hz,
            band_end_hz: s.end_hz,
            kind: s.kind,
            key: s.key,
            lane: 0,
            lanes: 1,
        })
    }
}

/// The rows of `plan` that apply to the license bit `bit` and are visible in the
/// view, clipped, in table order.
pub open spec fn visible_rows(plan: Seq<OmSegment>, bit: u8, left_hz: u64, right_hz: u64) -> Seq<VisibleOmSegment>
    decreases plan.len(),
{
    if plan.len() == 0 {
        Seq::empty()
    } else {
        let rest = visible_rows(plan.drop_last(), bit, left_hz, right_hz);
        let last = plan.last();
        if last.licenses & bit != 0 && clip_segment(last, left_hz, right_hz) is Some {
            rest.push(clip_segment(last, left_hz, right_hz)->0)
        } else {
            rest
        }
    }
}


/// Stacking order of visible segments: by start frequency, then by kind.
pub open spec fn key_lt(a: VisibleOmSegment, b: VisibleOmSegment) -> bool {
    a.start_hz < b.start_hz || (a.start_hz == b.start_hz && kind_rank(a.kind) < kind_rank(b.kind))
}

pub open spec fn key_eq(a: VisibleOmSegment, b: VisibleOmSegment) -> bool {
    a.start_hz == b.start_hz && kind_rank(a.kind) == kind_rank(b.kind)
}

/// `a` and `b` describe the same clipped allocation (lane fields aside).
pub open spec fn same_band(a: VisibleOmSegment, b: VisibleOmSegment) -> bool {
    &&& a.start_hz == b.start_hz
    &&& a.end_hz == b.end_hz
    &&& a.band_start_hz == b.band_start_hz
    &&& a.band_end_hz == b.band_end_hz
    &&& a.kind == b.kind
    &&& a.key == b.key
}

/// `p` maps each position of `r` to a distinct position of `s` holding the same
/// allocation, and `r` is ordered by (start, kind), ties kept in the order of `s`.
pub open spec fn stable_sort_witness(s: Seq<VisibleOmSegment>, r: Seq<VisibleOmSegment>, p: Seq<int>) -> bool {
    &&& r.len() == s.len()
    &&& p.len() == r.len()
    &&& forall|k: int| 0 <= k < p.len() ==> 0 <= #[trigger] p[k] < s.len()
    &&& forall|a: int, b: int| 0 <= a < b < p.len() ==> #[trigger] p[a] != #[trigger] p[b]
    &&& forall|k: int| 0 <= k < r.len() ==> same_band(#[trigger] r[k], s[p[k]])
    &&& forall|a: int, b: int|
        0 <= a < b < r.len() ==> key_lt(#[trigger] r[a], #[trigger] r[b]) || (key_eq(r[a], r[b]) && p[a] < p[b])
}

/// `r` is the stable sort of `s` by (start frequency, kind).
pub open spec fn is_stable_sort_of(s: Seq<VisibleOmSegment>, r: Seq<VisibleOmSegment>) -> bool {
    exists|p: Seq<int>| stable_sort_witness(s, r, p)
}

/// Stable insertion sort of visible segments by (start frequency, kind).
fn sort_segments(segs: &Vec<VisibleOmSegment>) -> (out: Vec<VisibleOmSegment>)
    ensures
        is_stable_sort_of(segs@, out@),
{
    let n = segs.len();
    let mut out: Vec<VisibleOmSegment> = Vec::new();
    let ghost mut p: Seq<int> = Seq::empty();
    for i in 0..n
        invariant
            n == segs.len(),
            out.len() == i,
            p.len() == i,
            forall|k: int| 0 <= k < i ==> 0 <= #[trigger] p[k] < i,
            forall|a: int, b: int| 0 <= a < b < i ==> #[trigger] p[a] != #[trigger] p[b],
            forall|k: int| 0 <= k < i ==> #[trigger] out@[k] == segs@[p[k]],
            forall|a: int, b: int|
                0 <= a < b < i ==> key_lt(#[trigger] out@[a], #[trigger] out@[b]) || (key_eq(out@[a], out@[b]) && p[a] < p[b]),
    {
        let x = segs[i];
        let xr = om_kind_rank(x.kind);
        let mut pos: usize = 0;
        while pos < out.len()
            invariant
                pos <= out.len(),
                xr == kind_rank(x.kind),
                forall|m: int| 0 <= m < pos ==> !key_lt(x, #[trigger] out@[m]),
            ensures
                pos <= out.len(),
                forall|m: int| 0 <= m < pos ==> !key_lt(x, #[trigger] out@[m]),
                pos < out.len() ==> key_lt(x, out@[pos as int]),
            decreases out.len() - pos,
        {
            let y = out[pos];
            let yr = om_kind_rank(y.kind);
            if y.start_hz > x.start_hz || (y.start_hz == x.start_hz && yr > xr) {
                break;
            }
            pos = pos + 1;
        }
        assert(forall|m: int| pos <= m < out.len() ==> key_lt(x, #[trigger] out@[m])) by {
            if pos < out.len() {
                assert(key_lt(x, out@[pos as int]));
                assert forall|m: int| pos <= m < out.len() implies key_lt(x, #[trigger] out@[m]) by {
                    if m > pos {
                        assert(key_lt(out@[pos as int], out@[m]) || key_eq(out@[pos as int], out@[m]));
                    }
                }
            }
        }
        let ghost old_out = out@;
        let ghost old_p = p;
        out.insert(pos, x);
        proof {
            p = old_p.insert(pos as int, i as int);
            assert forall|k: int| 0 <= k < i + 1 implies #[trigger] out@[k] == segs@[p[k]] by {
                if k < pos {
                    assert(out@[k] == old_out[k]);
                } else if k > pos {
                    assert(out@[k] == old_out[k - 1]);
                }
            }
            assert forall|a: int, b: int| 0 <= a < b < i + 1 implies key_lt(#[trigger] out@[a], #[trigger] out@[b])
                || (key_eq(out@[a], out@[b]) && p[a] < p[b]) by {
                if a < pos && b < pos {
                    assert(out@[a] == old_out[a] && out@[b] == old_out[b]);
                } else if a < pos && b == pos {
                    assert(out@[a] == old_out[a]);
                } else if a < pos && b > pos {
                    assert(out@[a] == old_out[a] && out@[b] == old_out[b - 1]);
                } else if a == pos {
                    assert(out@[b] == old_out[b - 1]);
                } else {
                    assert(out@[a] == old_out[a - 1] && out@[b] == old_out[b - 1]);
                }
            }
        }
    }
    proof {
        assert forall|k: int| 0 <= k < out@.len() implies same_band(#[trigger] out@[k], segs@[p[k]]) by {}
        assert(stable_sort_witness(segs@, out@, p));
    }
    out
}


/// Segment `k` begins a new overlap cluster: every earlier segment ends at or
/// before its start.
pub open spec fn starts_cluster(r: Seq<VisibleOmSegment>, k: int) -> bool {
    forall|m: int| 0 <= m < k ==> #[trigger] r[m].end_hz <= r[k].start_hz
}

/// Segments `i <= k` belong to the same overlap cluster: no cluster begins
/// after `i` up to and including `k`.
pub open spec fn same_cluster(r: Seq<VisibleOmSegment>, i: int, k: int) -> bool {
    &&& 0 <= i <= k < r.len()
    &&& forall|m: int| i < m <= k ==> !#[trigger] starts_cluster(r, m)
}

/// Lane `l` was already taken, at the start of segment `k`, by an earlier
/// segment of its cluster that still overlaps it.
pub open spec fn lane_blocked(r: Seq<VisibleOmSegment>, lane: Seq<u8>, k: int, l: int) -> bool {
    exists|i: int| 0 <= i < k && #[trigger] same_cluster(r, i, k) && lane[i] == l && r[i].end_hz > r[k].start_hz
}

/// Some segment of `k`'s cluster uses the top lane that `count[k]` announces.
pub open spec fn count_attained(r: Seq<VisibleOmSegment>, lane: Seq<u8>, count: Seq<u8>, k: int) -> bool {
    exists|w: int|
        0 <= w < r.len() && (#[trigger] same_cluster(r, w, k) || same_cluster(r, k, w)) && lane[w] + 1 == count[k]
}

/// First-fit lane stacking of the first `n0` segments of `r` (sorted by start):
/// two segments of one cluster in the same lane never overlap; each segment
/// takes the lowest lane not occupied at its start; every segment knows the
/// number of lanes of its cluster.
pub open spec fn lanes_fit_upto(r: Seq<VisibleOmSegment>, lane: Seq<u8>, count: Seq<u8>, n0: int) -> bool {
    &&& 0 <= n0 <= r.len()
    &&& lane.len() >= n0
    &&& count.len() >= n0
    &&& forall|i: int, k: int|
        0 <= i < k < n0 && #[trigger] same_cluster(r, i, k) && lane[i] == lane[k] ==> r[i].end_hz <= r[k].start_hz
    &&& forall|k: int, l: int| 0 <= k < n0 && 0 <= l < lane[k] ==> #[trigger] lane_blocked(r, lane, k, l)
    &&& forall|k: int| 0 <= k < n0 ==> lane[k] < #[trigger] count[k]
    &&& forall|i: int, k: int| 0 <= i <= k < n0 && #[trigger] same_cluster(r, i, k) ==> count[i] == count[k]
    &&& forall|k: int| 0 <= k < n0 ==> #[trigger] count_attained(r, lane, count, k)
}

pub open spec fn lane_seq(r: Seq<VisibleOmSegment>) -> Seq<u8> {
    Seq::new(r.len(), |k: int| r[k].lane)
}

pub open spec fn count_seq(r: Seq<VisibleOmSegment>) -> Seq<u8> {
    Seq::new(r.len(), |k: int| r[k].lanes)
}

/// The lane fields of `r` are a first-fit stacking of its overlap clusters.
pub open spec fn lanes_ok(r: Seq<VisibleOmSegment>) -> bool {
    lanes_fit_upto(r, lane_seq(r), count_seq(r), r.len() as int)
}

pub open spec fn sorted_by_start(r: Seq<VisibleOmSegment>) -> bool {
    forall|a: int, b: int| 0 <= a < b < r.len() ==> #[trigger] r[a].start_hz <= #[trigger] r[b].start_hz
}

pub open spec fn nonempty_ranges(r: Seq<VisibleOmSegment>) -> bool {
    forall|k: int| 0 <= k < r.len() ==> #[trigger] r[k].start_hz < r[k].end_hz
}

/// Lane and lane-count for each segment of a start-sorted list.
#[verifier::rlimit(80)]
fn compute_lanes(g: &Vec<VisibleOmSegment>) -> (res: (Vec<u8>, Vec<u8>))
    requires
        g.len() <= 255,
        sorted_by_start(g@),
        nonempty_ranges(g@),
    ensures
        res.0.len() == g.len(),
        res.1.len() == g.len(),
        lanes_fit_upto(g@, res.0@, res.1@, g.len() as int),
{
    let n = g.len();
    let mut lane_v: Vec<u8> = Vec::new();
    let mut count_v: Vec<u8> = Vec::new();
    let mut i: usize = 0;
    while i < n
        invariant
            n == g.len(),
            n <= 255,
            sorted_by_start(g@),
            nonempty_ranges(g@),
            i <= n,
            lane_v.len() == i,
            count_v.len() == i,
            i < n ==> starts_cluster(g@, i as int),
            lanes_fit_upto(g@, lane_v@, count_v@, i as int),
        decreases n - i,
    {
        // Grow the cluster [i, j) of transitively overlapping segments.
        let mut j: usize = i + 1;
        let mut cluster_end: u64 = g[i].end_hz;
        while j < n && g[j].start_hz < cluster_end
            invariant
                n == g.len(),
                sorted_by_start(g@),
                i < j <= n,
                starts_cluster(g@, i as int),
                forall|m: int| i < m < j ==> !#[trigger] starts_cluster(g@, m),
                forall|m: int| i <= m < j ==> #[trigger] g@[m].end_hz <= cluster_end,
                exists|m: int| i <= m < j && #[trigger] g@[m].end_hz == cluster_end,
            decreases n - j,
        {
            assert(!starts_cluster(g@, j as int)) by {
                let m = choose|m: int| i <= m < j && #[trigger] g@[m].end_hz == cluster_end;
                assert(g@[m].end_hz > g@[j as int].start_hz);
            }
            if g[j].end_hz > cluster_end {
                cluster_end = g[j].end_hz;
            }
            j = j + 1;
        }
        assert(j < n ==> starts_cluster(g@, j as int)) by {
            if j < n {
                assert forall|m: int| 0 <= m < j implies #[trigger] g@[m].end_hz <= g@[j as int].start_hz by {
                    if m < i {
                        assert(g@[m].end_hz <= g@[i as int].start_hz);
                        assert(g@[i as int].start_hz <= g@[j as int].start_hz);
                    }
                }
            }
        }
        assert forall|a: int, b: int| i <= a <= b < j implies #[trigger] same_cluster(g@, a, b) by {}
        assert forall|a: int, b: int| 0 <= a < i <= b < n implies !#[trigger] same_cluster(g@, a, b) by {
            assert(starts_cluster(g@, i as int));
        }
        // Greedy first-fit lane assignment within the cluster.
        let mut lane_end: Vec<u64> = Vec::new();
        let ghost mut last: Seq<int> = Seq::empty();
        let mut k: usize = i;
        while k < j
            invariant
                n == g.len(),
                n <= 255,
                sorted_by_start(g@),
                nonempty_ranges(g@),
                i < j <= n,
                i <= k <= j,
                lane_v.len() == k,
                count_v.len() == i,
                starts_cluster(g@, i as int),
                lanes_fit_upto(g@, lane_v@, count_v@, i as int),
                forall|a: int, b: int| i <= a <= b < j ==> #[trigger] same_cluster(g@, a, b),
                forall|a: int, b: int| 0 <= a < i <= b < n ==> !#[trigger] same_cluster(g@, a, b),
                lane_end.len() == last.len(),
                lane_end.len() <= k - i,
                k > i ==> lane_end.len() >= 1,
                forall|l: int|
                    0 <= l < last.len() ==> i <= #[trigger] last[l] < k && lane_v@[last[l]] == l
                        && g@[last[l]].end_hz == lane_end@[l],
                forall|m: int| i <= m < k ==> (#[trigger] lane_v@[m] as int) < lane_end.len(),
                forall|m: int| i <= m < k ==> g@[m].end_hz <= lane_end@[#[trigger] lane_v@[m] as int],
                forall|a: int, b: int|
                    i <= a < b < k && #[trigger] same_cluster(g@, a, b) && lane_v@[a] == lane_v@[b]
                        ==> g@[a].end_hz <= g@[b].start_hz,
                forall|m: int, l: int| i <= m < k && 0 <= l < lane_v@[m] ==> #[trigger] lane_blocked(g@, lane_v@, m, l),
            decreases j - k,
        {
            let s = g[k].start_hz;
            let mut l: usize = 0;
            while l < lane_end.len() && lane_end[l] > s
                invariant
                    l <= lane_end.len(),
                    forall|q: int| 0 <= q < l ==> #[trigger] lane_end@[q] > s,
                decreases lane_end.len() - l,
            {
                l = l + 1;
            }
            let ghost old_lane_v = lane_v@;
            let ghost old_lane_end = lane_end@;
            let ghost old_last = last;
            if l < lane_end.len() {
                lane_end.set(l, g[k].end_hz);
                proof {
                    last = old_last.update(l as int, k as int);
                }
            } else {
                lane_end.push(g[k].end_hz);
                proof {
                    last = old_last.push(k as int);
                }
            }
            lane_v.push(l as u8);
            proof {
                assert(lane_v@ == old_lane_v.push(l as u8));
                assert forall|m: int, q: int| 0 <= m < i && 0 <= q < lane_v@[m] implies #[trigger] lane_blocked(g@, lane_v@, m, q) by {
                    assert(lane_v@[m] == old_lane_v[m]);
                    assert(lane_blocked(g@, old_lane_v, m, q));
                    let w = choose|w: int| 0 <= w < m && #[trigger] same_cluster(g@, w, m) && old_lane_v[w] == q && g@[w].end_hz > g@[m].start_hz;
                    assert(lane_v@[w] == old_lane_v[w]);
                }
                assert forall|m: int| 0 <= m < i implies #[trigger] count_attained(g@, lane_v@, count_v@, m) by {
                    assert(count_attained(g@, old_lane_v, count_v@, m));
                    let w = choose|w: int| 0 <= w < g@.len() && (#[trigger] same_cluster(g@, w, m) || same_cluster(g@, m, w)) && old_lane_v[w] + 1 == count_v@[m];
                    if w >= i {
                        assert(!same_cluster(g@, m, w));
                    }
                    assert(lane_v@[w] == old_lane_v[w]);
                }
                assert(lanes_fit_upto(g@, lane_v@, count_v@, i as int));
                assert forall|m: int, q: int| i <= m < k + 1 && 0 <= q < lane_v@[m] implies #[trigger] lane_blocked(g@, lane_v@, m, q) by {
                    if m < k {
                        assert(lane_v@[m] == old_lane_v[m]);
                        assert(lane_blocked(g@, old_lane_v, m, q));
                        let w = choose|w: int| 0 <= w < m && #[trigger] same_cluster(g@, w, m) && old_lane_v[w] == q && g@[w].end_hz > g@[m].start_hz;
                        assert(lane_v@[w] == old_lane_v[w]);
                    } else {
                        let w = old_last[q];
                        assert(old_lane_end[q] > s);
                        assert(same_cluster(g@, w, m));
                        assert(lane_v@[w] == old_lane_v[w]);
                    }
                }
                assert forall|a: int, b: int|
                    i <= a < b < k + 1 && #[trigger] same_cluster(g@, a, b) && lane_v@[a] == lane_v@[b]
                        implies g@[a].end_hz <= g@[b].start_hz by {
                    assert(lane_v@[a] == old_lane_v[a]);
                    if b < k {
                        assert(lane_v@[b] == old_lane_v[b]);
                    } else {
                        assert(g@[a].end_hz <= old_lane_end[old_lane_v[a] as int]);
                    }
                }
                assert forall|m: int| i <= m < k + 1 implies g@[m].end_hz <= lane_end@[#[trigger] lane_v@[m] as int] by {
                    if m < k {
                        assert(lane_v@[m] == old_lane_v[m]);
                        assert(g@[m].end_hz <= old_lane_end[old_lane_v[m] as int]);
                        if old_lane_v[m] as int == l as int {
                            assert(g@[k as int].start_hz <= g@[k as int].end_hz);
                        }
                    }
                }
                assert forall|q: int|
                    0 <= q < last.len() implies i <= #[trigger] last[q] < k + 1 && lane_v@[last[q]] == q
                        && g@[last[q]].end_hz == lane_end@[q] by {
                    if q != l {
                        assert(lane_v@[old_last[q]] == old_lane_v[old_last[q]]);
                    }
                }
            }
            k = k + 1;
        }
        // Every segment of the cluster learns the cluster's lane count.
        let lanes = lane_end.len() as u8;
        let ghost top = last[last.len() - 1];
        let ghost count_before = count_v@;
        let ghost lane_snapshot = lane_v@;
        let mut c: usize = i;
        while c < j
            invariant
                n == g.len(),
                i <= c <= j,
                lane_v.len() == j,
                count_before.len() == i,
                count_v.len() == c,
                forall|m: int| 0 <= m < i ==> #[trigger] count_v@[m] == count_before[m],
                forall|m: int| i <= m < c ==> #[trigger] count_v@[m] == lanes,
            decreases j - c,
        {
            count_v.push(lanes);
            c = c + 1;
        }
        proof {
            assert(lanes_fit_upto(g@, lane_v@, count_before, i as int));
            assert(i <= top < j && lane_v@[top] as int == lanes as int - 1);
            assert forall|m: int| 0 <= m < j implies #[trigger] count_attained(g@, lane_v@, count_v@, m) by {
                if m < i {
                    assert(count_attained(g@, lane_v@, count_before, m));
                    let w = choose|w: int| 0 <= w < g@.len() && (#[trigger] same_cluster(g@, w, m) || same_cluster(g@, m, w)) && lane_v@[w] + 1 == count_before[m];
                    assert(count_v@[m] == count_before[m]);
                } else {
                    if top <= m {
                        assert(same_cluster(g@, top, m));
                    } else {
                        assert(same_cluster(g@, m, top));
                    }
                }
            }
            assert forall|a: int, b: int| 0 <= a <= b < j && #[trigger] same_cluster(g@, a, b) implies count_v@[a] == count_v@[b] by {
                if b < i {
                    assert(count_v@[a] == count_before[a] && count_v@[b] == count_before[b]);
                }
            }
            assert forall|m: int| 0 <= m < j implies lane_v@[m] < #[trigger] count_v@[m] by {
                if m < i {
                    assert(lane_v@[m] < count_before[m]);
                }
            }
            assert forall|a: int, b: int|
                0 <= a < b < j && #[trigger] same_cluster(g@, a, b) && lane_v@[a] == lane_v@[b]
                    implies g@[a].end_hz <= g@[b].start_hz by {
            }
            assert forall|m: int, q: int| 0 <= m < j && 0 <= q < lane_v@[m] implies #[trigger] lane_blocked(g@, lane_v@, m, q) by {
            }
            assert(lanes_fit_upto(g@, lane_v@, count_v@, j as int));
        }
        i = j;
    }
    (lane_v, count_v)
}


/// `r` is `s` stably sorted by (start, kind), with first-fit stacking lanes.
pub open spec fn lanes_assigned(s: Seq<VisibleOmSegment>, r: Seq<VisibleOmSegment>) -> bool {
    is_stable_sort_of(s, r) && lanes_ok(r)
}

proof fn lemma_same_geometry(g: Seq<VisibleOmSegment>, r: Seq<VisibleOmSegment>, lane: Seq<u8>, count: Seq<u8>)
    requires
        r.len() == g.len(),
        forall|k: int| #![trigger r[k]] 0 <= k < g.len() ==> r[k].start_hz == g[k].start_hz && r[k].end_hz == g[k].end_hz,
        lanes_fit_upto(g, lane, count, g.len() as int),
    ensures
        lanes_fit_upto(r, lane, count, g.len() as int),
{
    let n = g.len() as int;
    assert forall|m: int| 0 <= m < n implies #[trigger] starts_cluster(r, m) == starts_cluster(g, m) by {
        if starts_cluster(g, m) {
            assert forall|q: int| 0 <= q < m implies #[trigger] r[q].end_hz <= r[m].start_hz by {
                assert(g[q].end_hz <= g[m].start_hz);
                assert(r[q].end_hz == g[q].end_hz && r[m].start_hz == g[m].start_hz);
            }
        }
        if starts_cluster(r, m) {
            assert forall|q: int| 0 <= q < m implies #[trigger] g[q].end_hz <= g[m].start_hz by {
                assert(r[q].end_hz <= r[m].start_hz);
                assert(r[q].end_hz == g[q].end_hz && r[m].start_hz == g[m].start_hz);
            }
        }
    }
    assert forall|a: int, b: int| #[trigger] same_cluster(r, a, b) == same_cluster(g, a, b) by {
        if 0 <= a <= b < n {
            if same_cluster(g, a, b) {
                assert forall|m: int| a < m <= b implies !#[trigger] starts_cluster(r, m) by {
                    assert(!starts_cluster(g, m));
                }
            }
            if same_cluster(r, a, b) {
                assert forall|m: int| a < m <= b implies !#[trigger] starts_cluster(g, m) by {
                    assert(!starts_cluster(r, m));
                }
            }
        }
    }
    assert forall|k: int, l: int| 0 <= k < n && 0 <= l < lane[k] implies #[trigger] lane_blocked(r, lane, k, l) by {
        assert(lane_blocked(g, lane, k, l));
        let w = choose|w: int| 0 <= w < k && #[trigger] same_cluster(g, w, k) && lane[w] == l && g[w].end_hz > g[k].start_hz;
        assert(same_cluster(r, w, k));
    }
    assert forall|k: int| 0 <= k < n implies #[trigger] count_attained(r, lane, count, k) by {
        assert(count_attained(g, lane, count, k));
        let w = choose|w: int| 0 <= w < g.len() && (#[trigger] same_cluster(g, w, k) || same_cluster(g, k, w)) && lane[w] + 1 == count[k];
        assert(same_cluster(r, w, k) == same_cluster(g, w, k));
        assert(same_cluster(r, k, w) == same_cluster(g, k, w));
    }
    assert forall|i: int, k: int|
        0 <= i < k < n && #[trigger] same_cluster(r, i, k) && lane[i] == lane[k] implies r[i].end_hz <= r[k].start_hz by {
        assert(same_cluster(g, i, k));
    }
    assert forall|i: int, k: int| 0 <= i <= k < n && #[trigger] same_cluster(r, i, k) implies count[i] == count[k] by {
        assert(same_cluster(g, i, k));
    }
}

/// Sort the segments by (start, kind) and assign vertical stacking lanes so
/// overlapping segments render as stacked bars: segments are grouped into
/// clusters of transitively overlapping ranges, each takes the lowest lane free
/// at its start, and every member learns its cluster's lane count.
fn assign_lanes(segs: &mut Vec<VisibleOmSegment>)
    requires
        old(segs).len() <= 255,
        nonempty_ranges(old(segs)@),
    ensures
        lanes_assigned(old(segs)@, final(segs)@),
{
    let sorted = sort_segments(segs);
    let n = sorted.len();
    proof {
        let p = choose|p: Seq<int>| stable_sort_witness(segs@, sorted@, p);
        assert forall|a: int, b: int| 0 <= a < b < n implies #[trigger] sorted@[a].start_hz <= #[trigger] sorted@[b].start_hz by {
            assert(key_lt(sorted@[a], sorted@[b]) || key_eq(sorted@[a], sorted@[b]));
        }
        assert forall|k: int| 0 <= k < n implies #[trigger] sorted@[k].start_hz < sorted@[k].end_hz by {
            assert(same_band(sorted@[k], segs@[p[k]]));
        }
    }
    let (lane_v, count_v) = compute_lanes(&sorted);
    let mut out: Vec<VisibleOmSegment> = Vec::new();
    for k in 0..n
        invariant
            n == sorted.len(),
            lane_v.len() == n,
            count_v.len() == n,
            out.len() == k,
            forall|m: int| 0 <= m < k ==> same_band(#[trigger] out@[m], sorted@[m]) && out@[m].lane == lane_v@[m]
                && out@[m].lanes == count_v@[m],
    {
        let mut x = sorted[k];
        x.lane = lane_v[k];
        x.lanes = count_v[k];
        out.push(x);
    }
    proof {
        lemma_same_geometry(sorted@, out@, lane_v@, count_v@);
        assert(lane_seq(out@) =~= lane_v@);
        assert(count_seq(out@) =~= count_v@);
        let p = choose|p: Seq<int>| stable_sort_witness(segs@, sorted@, p);
        assert forall|k: int| 0 <= k < out@.len() implies same_band(#[trigger] out@[k], segs@[p[k]]) by {
            assert(same_band(sorted@[k], segs@[p[k]]));
        }
        assert forall|a: int, b: int| 0 <= a < b < out@.len() implies key_lt(#[trigger] out@[a], #[trigger] out@[b])
            || (key_eq(out@[a], out@[b]) && p[a] < p[b]) by {
            assert(key_lt(sorted@[a], sorted@[b]) || (key_eq(sorted@[a], sorted@[b]) && p[a] < p[b]));
        }
        assert(stable_sort_witness(segs@, out@, p));
    }
    *segs = out;
}


/// Compute the OM segments visible in the view `[left_hz, right_hz]` (Hz),
/// clipped to it, filtered to the operator's license class, sorted by start
/// (then kind) and with vertical lanes assigned for overlaps.
pub fn visible_om_segments(left_hz: u64, right_hz: u64, license: LicenseClass) -> (r: Vec<VisibleOmSegment>)
    ensures
        right_hz <= left_hz ==> r@.len() == 0,
        left_hz < right_hz ==> lanes_assigned(
            visible_rows(band_plan_spec(), license_mask(license), left_hz, right_hz),
            r@,
        ),
{
    if right_hz <= left_hz {
        return Vec::new();
    }
    let bit = license_bit(license);
    let plan = band_plan();
    let n = plan.len();
    let mut visible: Vec<VisibleOmSegment> = Vec::new();
    for i in 0..n
        invariant
            n == plan.len(),
            plan@ == band_plan_spec(),
            bit == license_mask(license),
            visible@ == visible_rows(plan@.take(i as int), bit, left_hz, right_hz),
            visible.len() <= i,
            nonempty_ranges(visible@),
    {
        let s = plan[i];
        assert(plan@.take(i + 1).drop_last() =~= plan@.take(i as int));
        assert(plan@.take(i + 1).last() == s);
        if s.licenses & bit != 0 {
            let start = if s.start_hz >= left_hz { s.start_hz } else { left_hz };
            let end = if s.end_hz <= right_hz { s.end_hz } else { right_hz };
            if start < end {
                let v = VisibleOmSegment {
                    start_hz: start,
                    end_hz: end,
                    band_start_hz: s.start_hz,
                    band_end_hz: s.end_hz,
                    kind: s.kind,
                    key: s.key,
                    lane: 0,
                    lanes: 1,
                };
                visible.push(v);
            }
        }
    }
    assert(plan@.take(n as int) =~= plan@);
    assign_lanes(&mut visible);
    visible
}


/// Two clipped ranges share some frequency.
pub open spec fn overlaps(a: VisibleOmSegment, b: VisibleOmSegment) -> bool {
    a.start_hz < b.end_hz && b.start_hz < a.end_hz
}

proof fn lemma_sorted_nonempty(s: Seq<VisibleOmSegment>, r: Seq<VisibleOmSegment>)
    requires
        nonempty_ranges(s),
        is_stable_sort_of(s, r),
    ensures
        sorted_by_start(r),
        nonempty_ranges(r),
{
    let p = choose|p: Seq<int>| stable_sort_witness(s, r, p);
    assert forall|a: int, b: int| 0 <= a < b < r.len() implies #[trigger] r[a].start_hz <= #[trigger] r[b].start_hz by {
        assert(key_lt(r[a], r[b]) || key_eq(r[a], r[b]));
    }
    assert forall|k: int| 0 <= k < r.len() implies #[trigger] r[k].start_hz < r[k].end_hz by {
        assert(same_band(r[k], s[p[k]]));
    }
}

/// A segment that overlaps no other visible segment is drawn at full height:
/// lane 0 of a single-lane cluster.
pub proof fn law_isolated_segment_full_height(s: Seq<VisibleOmSegment>, r: Seq<VisibleOmSegment>, k: int)
    requires
        nonempty_ranges(s),
        lanes_assigned(s, r),
        0 <= k < r.len(),
        forall|m: int| 0 <= m < r.len() && m != k ==> !overlaps(#[trigger] r[m], r[k]),
    ensures
        r[k].lane == 0,
        r[k].lanes == 1,
{
    lemma_sorted_nonempty(s, r);
    let lane = lane_seq(r);
    let count = count_seq(r);
    assert forall|m: int| 0 <= m < k implies #[trigger] r[m].end_hz <= r[k].start_hz by {
        assert(!overlaps(r[m], r[k]));
        assert(r[m].start_hz <= r[k].start_hz);
    }
    assert(starts_cluster(r, k));
    if k + 1 < r.len() {
        assert forall|m: int| 0 <= m < k + 1 implies #[trigger] r[m].end_hz <= r[k + 1].start_hz by {
            assert(r[k].start_hz <= r[k + 1].start_hz);
            if m == k {
                assert(!overlaps(r[k + 1], r[k]));
            }
        }
        assert(starts_cluster(r, k + 1));
    }
    if lane[k] > 0 {
        assert(lane_blocked(r, lane, k, 0));
        let i = choose|i: int| 0 <= i < k && #[trigger] same_cluster(r, i, k) && lane[i] == 0 && r[i].end_hz > r[k].start_hz;
        assert(!starts_cluster(r, k));
    }
    assert(count_attained(r, lane, count, k));
    let w = choose|w: int| 0 <= w < r.len() && (#[trigger] same_cluster(r, w, k) || same_cluster(r, k, w)) && lane[w] + 1 == count[k];
    if w < k {
        assert(!starts_cluster(r, k));
    } else if w > k {
        assert(!starts_cluster(r, k + 1));
    }
}

/// Segments drawn in the same lane never overlap in frequency, so stacked
/// bars never paint over each other.
pub proof fn law_same_lane_never_overlaps(s: Seq<VisibleOmSegment>, r: Seq<VisibleOmSegment>, i: int, k: int)
    requires
        nonempty_ranges(s),
        lanes_assigned(s, r),
        0 <= i < r.len(),
        0 <= k < r.len(),
        i != k,
        r[i].lane == r[k].lane,
    ensures
        !overlaps(r[i], r[k]),
{
    lemma_sorted_nonempty(s, r);
    let lane = lane_seq(r);
    let (a, b) = if i < k { (i, k) } else { (k, i) };
    assert(lane[a] == lane[b]);
    if same_cluster(r, a, b) {
        assert(r[a].end_hz <= r[b].start_hz);
    } else {
        let m = choose|m: int| a < m <= b && #[trigger] starts_cluster(r, m);
        assert(r[a].end_hz <= r[m].start_hz);
        assert(r[m].start_hz <= r[b].start_hz);
    }
}

/// Overlapping segments are stacked: they sit in different lanes of one
/// cluster, so both know the same lane count.
pub proof fn law_overlapping_segments_stack(s: Seq<VisibleOmSegment>, r: Seq<VisibleOmSegment>, i: int, k: int)
    requires
        nonempty_ranges(s),
        lanes_assigned(s, r),
        0 <= i < r.len(),
        0 <= k < r.len(),
        i != k,
        overlaps(r[i], r[k]),
    ensures
        r[i].lane != r[k].lane,
        r[i].lanes == r[k].lanes,
{
    lemma_sorted_nonempty(s, r);
    if r[i].lane == r[k].lane {
        law_same_lane_never_overlaps(s, r, i, k);
    }
    let count = count_seq(r);
    if i < k {
        lemma_sorted_overlap_same_cluster(r, i, k);
        assert(count[i] == count[k]);
    } else {
        lemma_sorted_overlap_same_cluster(r, k, i);
        assert(count[k] == count[i]);
    }
}

/// Every lane index is below its segment's lane count.
pub proof fn law_lane_below_count(s: Seq<VisibleOmSegment>, r: Seq<VisibleOmSegment>, k: int)
    requires
        lanes_assigned(s, r),
        0 <= k < r.len(),
    ensures
        r[k].lane < r[k].lanes,
{
    assert(lane_seq(r)[k] < count_seq(r)[k]);
}

/// Segment `m` belongs to the overlap cluster of segment `k`.
pub open spec fn in_cluster_of(r: Seq<VisibleOmSegment>, k: int, m: int) -> bool {
    same_cluster(r, m, k) || same_cluster(r, k, m)
}

/// Frequency `x` lies in the clipped range of `v`.
pub open spec fn covers(v: VisibleOmSegment, x: int) -> bool {
    v.start_hz <= x < v.end_hz
}

/// How many of the first `n` segments belong to `k`'s cluster and cover `x`.
pub open spec fn depth_upto(r: Seq<VisibleOmSegment>, k: int, x: int, n: int) -> nat
    decreases n,
{
    if n <= 0 {
        0
    } else {
        depth_upto(r, k, x, n - 1) + if in_cluster_of(r, k, n - 1) && covers(r[n - 1], x) {
            1nat
        } else {
            0nat
        }
    }
}

/// How many segments of `k`'s cluster cover frequency `x`.
pub open spec fn cluster_depth(r: Seq<VisibleOmSegment>, k: int, x: int) -> nat {
    depth_upto(r, k, x, r.len() as int)
}

/// The lanes of the first `n` segments that belong to `k`'s cluster and cover `x`.
pub open spec fn lanes_upto(r: Seq<VisibleOmSegment>, k: int, x: int, n: int) -> Set<int> {
    Set::new(|l: int| exists|m: int| 0 <= m < n && #[trigger] in_cluster_of(r, k, m) && covers(r[m], x) && r[m].lane == l)
}

proof fn lemma_sorted_overlap_same_cluster(r: Seq<VisibleOmSegment>, a: int, b: int)
    requires
        sorted_by_start(r),
        0 <= a < b < r.len(),
        overlaps(r[a], r[b]),
    ensures
        same_cluster(r, a, b),
{
    assert forall|m: int| a < m <= b implies !#[trigger] starts_cluster(r, m) by {
        assert(r[m].start_hz <= r[b].start_hz);
        assert(r[a].end_hz > r[m].start_hz);
    }
}

proof fn lemma_cluster_count(r: Seq<VisibleOmSegment>, k: int, m: int)
    requires
        lanes_ok(r),
        0 <= k < r.len(),
        0 <= m < r.len(),
        in_cluster_of(r, k, m),
    ensures
        r[m].lane < r[k].lanes,
{
    let lane = lane_seq(r);
    let count = count_seq(r);
    assert(lane[m] < count[m]);
    if same_cluster(r, m, k) {
        assert(count[m] == count[k]);
    } else {
        assert(count[k] == count[m]);
    }
}

/// The covering segments of a cluster have distinct lanes, so their number
/// is the number of lanes they use.
proof fn lemma_depth_is_lane_count(s: Seq<VisibleOmSegment>, r: Seq<VisibleOmSegment>, k: int, x: int, n: int)
    requires
        nonempty_ranges(s),
        lanes_assigned(s, r),
        0 <= k < r.len(),
        0 <= n <= r.len(),
    ensures
        lanes_upto(r, k, x, n).finite(),
        lanes_upto(r, k, x, n).len() == depth_upto(r, k, x, n),
    decreases n,
{
    if n == 0 {
        assert(lanes_upto(r, k, x, 0) =~= Set::<int>::empty());
    } else {
        lemma_depth_is_lane_count(s, r, k, x, n - 1);
        let prev = lanes_upto(r, k, x, n - 1);
        let m = n - 1;
        if in_cluster_of(r, k, m) && covers(r[m], x) {
            let l = r[m].lane as int;
            assert(lanes_upto(r, k, x, n) =~= prev.insert(l)) by {
                assert(in_cluster_of(r, k, m));
            }
            if prev.contains(l) {
                let q = choose|q: int| 0 <= q < n - 1 && #[trigger] in_cluster_of(r, k, q) && covers(r[q], x) && r[q].lane == l;
                law_same_lane_never_overlaps(s, r, q, m);
                assert(false);
            }
        } else {
            assert(lanes_upto(r, k, x, n) =~= prev) by {
                assert forall|l: int| #[trigger] lanes_upto(r, k, x, n).contains(l) implies prev.contains(l) by {
                    let q = choose|q: int| 0 <= q < n && #[trigger] in_cluster_of(r, k, q) && covers(r[q], x) && r[q].lane == l;
                    assert(q != m);
                }
            }
        }
    }
}

/// The stacking uses as few lanes as possible: no frequency is covered by
/// more segments of a cluster than the cluster has lanes, and some frequency
/// is covered by exactly that many, so no valid stacking, which must give
/// segments sharing a frequency different lanes, could use fewer.
pub proof fn law_lanes_are_fewest_possible(s: Seq<VisibleOmSegment>, r: Seq<VisibleOmSegment>, k: int)
    requires
        nonempty_ranges(s),
        lanes_assigned(s, r),
        0 <= k < r.len(),
    ensures
        forall|x: int| #[trigger] cluster_depth(r, k, x) <= r[k].lanes,
        exists|x: int| #[trigger] cluster_depth(r, k, x) == r[k].lanes,
{
    lemma_sorted_nonempty(s, r);
    let n = r.len() as int;
    let big = r[k].lanes as int;
    lemma_int_range(0, big);
    assert forall|x: int| #[trigger] cluster_depth(r, k, x) <= r[k].lanes by {
        lemma_depth_is_lane_count(s, r, k, x, n);
        assert forall|l: int| #[trigger] lanes_upto(r, k, x, n).contains(l) implies set_int_range(0, big).contains(l) by {
            let q = choose|q: int| 0 <= q < n && #[trigger] in_cluster_of(r, k, q) && covers(r[q], x) && r[q].lane == l;
            lemma_cluster_count(r, k, q);
        }
        lemma_len_subset(lanes_upto(r, k, x, n), set_int_range(0, big));
    }
    // The segment that opened the top lane: at its start every lower lane is
    // still held by an earlier segment of the cluster.
    let lane = lane_seq(r);
    let count = count_seq(r);
    assert(count_attained(r, lane, count, k));
    let w = choose|w: int| 0 <= w < r.len() && (#[trigger] same_cluster(r, w, k) || same_cluster(r, k, w)) && lane[w] + 1 == count[k];
    let x = r[w].start_hz as int;
    lemma_depth_is_lane_count(s, r, k, x, n);
    assert forall|l: int| #[trigger] set_int_range(0, big).contains(l) implies lanes_upto(r, k, x, n).contains(l) by {
        if l == lane[w] {
            assert(in_cluster_of(r, k, w));
            assert(covers(r[w], x));
        } else {
            assert(lane_blocked(r, lane, w, l));
            let i = choose|i: int| 0 <= i < w && #[trigger] same_cluster(r, i, w) && lane[i] == l && r[i].end_hz > r[w].start_hz;
            assert(r[i].start_hz <= r[w].start_hz);
            assert(covers(r[i], x));
            assert(in_cluster_of(r, k, i)) by {
                if same_cluster(r, w, k) {
                    assert forall|m: int| i < m <= k implies !#[trigger] starts_cluster(r, m) by {
                        if m <= w {
                            assert(!starts_cluster(r, m));
                        }
                    }
                    assert(same_cluster(r, i, k));
                } else if i <= k {
                    assert(same_cluster(r, i, k));
                } else {
                    assert(same_cluster(r, k, i));
                }
            }
        }
    }
    lemma_len_subset(set_int_range(0, big), lanes_upto(r, k, x, n));
    assert(cluster_depth(r, k, x) == r[k].lanes);
}

/// Every visible row lies inside the view and inside its full allocation, is
/// not empty, and applies to the selected license.
proof fn lemma_visible_rows_bounds(plan: Seq<OmSegment>, bit: u8, left_hz: u64, right_hz: u64)
    ensures
        forall|k: int| 0 <= k < visible_rows(plan, bit, left_hz, right_hz).len() ==> {
            let v = #[trigger] visible_rows(plan, bit, left_hz, right_hz)[k];
            &&& left_hz <= v.start_hz < v.end_hz <= right_hz
            &&& v.band_start_hz <= v.start_hz
            &&& v.end_hz <= v.band_end_hz
        },
    decreases plan.len(),
{
    if plan.len() > 0 {
        lemma_visible_rows_bounds(plan.drop_last(), bit, left_hz, right_hz);
    }
}

/// Each visible segment is clipped to the view: it starts and ends inside
/// `[left_hz, right_hz]`, is not empty, and lies within its full allocation.
pub proof fn law_visible_segments_inside_view(left_hz: u64, right_hz: u64, license: LicenseClass, r: Seq<VisibleOmSegment>, k: int)
    requires
        lanes_assigned(visible_rows(band_plan_spec(), license_mask(license), left_hz, right_hz), r),
        0 <= k < r.len(),
    ensures
        left_hz <= r[k].start_hz < r[k].end_hz <= right_hz,
        r[k].band_start_hz <= r[k].start_hz,
        r[k].end_hz <= r[k].band_end_hz,
{
    let s = visible_rows(band_plan_spec(), license_mask(license), left_hz, right_hz);
    lemma_visible_rows_bounds(band_plan_spec(), license_mask(license), left_hz, right_hz);
    let p = choose|p: Seq<int>| stable_sort_witness(s, r, p);
    assert(same_band(r[k], s[p[k]]));
}


/// Each license class filters by its own bit: Amateur Extra 1, Advanced 2,
/// General 4, Technician 8, Novice 16; so distinct classes never share a bit
/// and each mask is a single bit.
pub proof fn law_license_masks(a: LicenseClass, b: LicenseClass)
    ensures
        license_mask(LicenseClass::AmateurExtra) == 1u8,
        license_mask(LicenseClass::Advanced) == 2u8,
        license_mask(LicenseClass::General) == 4u8,
        license_mask(LicenseClass::Technician) == 8u8,
        license_mask(LicenseClass::Novice) == 16u8,
        a != b ==> license_mask(a) & license_mask(b) == 0u8,
        license_mask(a) & license_mask(a) == license_mask(a),
        license_mask(a) != 0u8,
{
    let ma = license_mask(a);
    let mb = license_mask(b);
    assert(1u8 & 2u8 == 0u8 && 1u8 & 4u8 == 0u8 && 1u8 & 8u8 == 0u8 && 1u8 & 16u8 == 0u8) by (bit_vector);
    assert(2u8 & 1u8 == 0u8 && 2u8 & 4u8 == 0u8 && 2u8 & 8u8 == 0u8 && 2u8 & 16u8 == 0u8) by (bit_vector);
    assert(4u8 & 1u8 == 0u8 && 4u8 & 2u8 == 0u8 && 4u8 & 8u8 == 0u8 && 4u8 & 16u8 == 0u8) by (bit_vector);
    assert(8u8 & 1u8 == 0u8 && 8u8 & 2u8 == 0u8 && 8u8 & 4u8 == 0u8 && 8u8 & 16u8 == 0u8) by (bit_vector);
    assert(16u8 & 1u8 == 0u8 && 16u8 & 2u8 == 0u8 && 16u8 & 4u8 == 0u8 && 16u8 & 8u8 == 0u8) by (bit_vector);
    assert(1u8 & 1u8 == 1u8 && 2u8 & 2u8 == 2u8 && 4u8 & 4u8 == 4u8 && 8u8 & 8u8 == 8u8 && 16u8 & 16u8 == 16u8) by (bit_vector);
}

proof fn lemma_visible_rows_from_plan(plan: Seq<OmSegment>, bit: u8, left_hz: u64, right_hz: u64)
    ensures
        forall|k: int| 0 <= k < visible_rows(plan, bit, left_hz, right_hz).len() ==> exists|j: int|
            0 <= j < plan.len() && #[trigger] plan[j].licenses & bit != 0
                && clip_segment(plan[j], left_hz, right_hz) == Some(
                #[trigger] visible_rows(plan, bit, left_hz, right_hz)[k],
            ),
    decreases plan.len(),
{
    if plan.len() > 0 {
        let d = plan.drop_last();
        lemma_visible_rows_from_plan(d, bit, left_hz, right_hz);
        let v = visible_rows(plan, bit, left_hz, right_hz);
        let rest = visible_rows(d, bit, left_hz, right_hz);
        assert forall|k: int| 0 <= k < v.len() implies exists|j: int|
            0 <= j < plan.len() && #[trigger] plan[j].licenses & bit != 0
                && clip_segment(plan[j], left_hz, right_hz) == Some(#[trigger] v[k]) by {
            if k < rest.len() {
                assert(v[k] == rest[k]);
                let j = choose|j: int| 0 <= j < d.len() && #[trigger] d[j].licenses & bit != 0
                    && clip_segment(d[j], left_hz, right_hz) == Some(#[trigger] rest[k]);
                assert(plan[j] == d[j]);
            } else {
                let j = plan.len() - 1;
                assert(plan[j] == plan.last());
            }
        }
    }
}

/// Every segment shown for a license class comes from a band-plan row whose
/// license set holds that class's bit, and carries that row's allocation,
/// kind and description.
pub proof fn law_segments_licensed(left_hz: u64, right_hz: u64, license: LicenseClass, r: Seq<VisibleOmSegment>, k: int)
    requires
        lanes_assigned(visible_rows(band_plan_spec(), license_mask(license), left_hz, right_hz), r),
        0 <= k < r.len(),
    ensures
        exists|j: int| 0 <= j < band_plan_spec().len() && {
            let row = #[trigger] band_plan_spec()[j];
            &&& row.licenses & license_mask(license) != 0
            &&& r[k].band_start_hz == row.start_hz
            &&& r[k].band_end_hz == row.end_hz
            &&& r[k].kind == row.kind
            &&& r[k].key == row.key
        },
{
    let plan = band_plan_spec();
    let s = visible_rows(plan, license_mask(license), left_hz, right_hz);
    lemma_visible_rows_from_plan(plan, license_mask(license), left_hz, right_hz);
    let p = choose|p: Seq<int>| stable_sort_witness(s, r, p);
    assert(same_band(r[k], s[p[k]]));
    let j = choose|j: int| 0 <= j < plan.len() && #[trigger] plan[j].licenses & license_mask(license) != 0
        && clip_segment(plan[j], left_hz, right_hz) == Some(#[trigger] s[p[k]]);
    assert(plan[j].licenses & license_mask(license) != 0);
}

} // verus!
