use vstd::prelude::*;

verus! {

/// Demodulation modes offered by the radio.
#[derive(Debug, Clone, Copy, PartialEq, Eq, Structural)]
pub enum DemodMode {
    Wfm,
    Nfm,
    Usb,
    Lsb,
    Am,
    Cwu,
    Cwl,
    DgtU,
}

/// Direct-sampling setting of the SDR source.
#[derive(Debug, Clone, Copy, PartialEq, Eq, Structural)]
pub enum DirectSamplingMode {
    Off,
    I,
    Q,
}

/// Uppercase mode label of the status bar.
pub open spec fn mode_label_text(mode: DemodMode) -> Seq<char> {
    match mode {
        DemodMode::Wfm => "WFM"@,
        DemodMode::Nfm => "NFM"@,
        DemodMode::Usb => "USB"@,
        DemodMode::Lsb => "LSB"@,
        DemodMode::Am => "AM"@,
        DemodMode::Cwu => "CWU"@,
        DemodMode::Cwl => "CWL"@,
        DemodMode::DgtU => "DATA-U"@,
    }
}

/// Uppercase mode label for the status bar.
pub fn mode_label(mode: DemodMode) -> (s: &'static str)
    ensures
        s@ == mode_label_text(mode),
{
    match mode {
        DemodMode::Wfm => "WFM",
        DemodMode::Nfm => "NFM",
        DemodMode::Usb => "USB",
        DemodMode::Lsb => "LSB",
        DemodMode::Am => "AM",
        DemodMode::Cwu => "CWU",
        DemodMode::Cwl => "CWL",
        DemodMode::DgtU => "DATA-U",
    }
}

/// Mode label used by the dual-VFO panel.
pub fn vfo_mode_label(mode: DemodMode) -> (s: &'static str)
    ensures
        s@ == match mode {
            DemodMode::Usb => "USB"@,
            DemodMode::Lsb => "LSB"@,
            DemodMode::Cwu => "CW-U"@,
            DemodMode::Cwl => "CW-L"@,
            DemodMode::Am => "AM"@,
            DemodMode::Nfm => "NFM"@,
            DemodMode::Wfm => "WFM"@,
            DemodMode::DgtU => "DATA-U"@,
        },
{
    match mode {
        DemodMode::Usb => "USB",
        DemodMode::Lsb => "LSB",
        DemodMode::Cwu => "CW-U",
        DemodMode::Cwl => "CW-L",
        DemodMode::Am => "AM",
        DemodMode::Nfm => "NFM",
        DemodMode::Wfm => "WFM",
        DemodMode::DgtU => "DATA-U",
    }
}

/// Human text for a direct-sampling setting.
pub fn format_direct_sampling_mode(mode: DirectSamplingMode) -> (s: &'static str)
    ensures
        s@ == match mode {
            DirectSamplingMode::Off => "Off"@,
            DirectSamplingMode::I => "I channel"@,
            DirectSamplingMode::Q => "Q channel"@,
        },
{
    match mode {
        DirectSamplingMode::Off => "Off",
        DirectSamplingMode::I => "I channel",
        DirectSamplingMode::Q => "Q channel",
    }
}

/// The four LO-step families: CWU/CWL, USB/LSB and DgtU behave identically.
#[derive(Debug, Clone, Copy, PartialEq, Eq, Structural)]
pub enum Family {
    Ssb,
    Am,
    Nfm,
    Wfm,
}

pub open spec fn family_of(mode: DemodMode) -> Family {
    match mode {
        DemodMode::Cwu | DemodMode::Cwl | DemodMode::Usb | DemodMode::Lsb | DemodMode::DgtU => Family::Ssb,
        DemodMode::Am => Family::Am,
        DemodMode::Nfm => Family::Nfm,
        DemodMode::Wfm => Family::Wfm,
    }
}

/// Group a mode into one of the four LO-step families.
pub fn family(mode: DemodMode) -> (f: Family)
    ensures
        f == family_of(mode),
{
    match mode {
        DemodMode::Cwu | DemodMode::Cwl | DemodMode::Usb | DemodMode::Lsb | DemodMode::DgtU => Family::Ssb,
        DemodMode::Am => Family::Am,
        DemodMode::Nfm => Family::Nfm,
        DemodMode::Wfm => Family::Wfm,
    }
}

pub const CENTER_SSB_FINE: u32 = 1_000;
pub const CENTER_SSB_SHIFT: u32 = 25_000;
pub const CENTER_AM_FINE: u32 = 10_000;
pub const CENTER_AM_SHIFT: u32 = 100_000;
pub const CENTER_NFM_FINE: u32 = 25_000;
pub const CENTER_NFM_SHIFT: u32 = 250_000;
/// US FM broadcast channel spacing.
pub const CENTER_WFM_FINE: u32 = 200_000;
pub const CENTER_WFM_SHIFT: u32 = 2_000_000;

/// The LO step table, by family and Shift column.
pub open spec fn center_step(f: Family, shift: bool) -> u32 {
    match (f, shift) {
        (Family::Ssb, false) => CENTER_SSB_FINE,
        (Family::Ssb, true) => CENTER_SSB_SHIFT,
        (Family::Am, false) => CENTER_AM_FINE,
        (Family::Am, true) => CENTER_AM_SHIFT,
        (Family::Nfm, false) => CENTER_NFM_FINE,
        (Family::Nfm, true) => CENTER_NFM_SHIFT,
        (Family::Wfm, false) => CENTER_WFM_FINE,
        (Family::Wfm, true) => CENTER_WFM_SHIFT,
    }
}

/// Centre/LO step (Hz) for one up/down press, by mode; `shift` selects the
/// coarse column.  Independent of the Snap value.
pub fn center_step_hz(mode: DemodMode, shift: bool) -> (hz: u32)
    ensures
        hz == center_step(family_of(mode), shift),
{
    match (family(mode), shift) {
        (Family::Ssb, false) => CENTER_SSB_FINE,
        (Family::Ssb, true) => CENTER_SSB_SHIFT,
        (Family::Am, false) => CENTER_AM_FINE,
        (Family::Am, true) => CENTER_AM_SHIFT,
        (Family::Nfm, false) => CENTER_NFM_FINE,
        (Family::Nfm, true) => CENTER_NFM_SHIFT,
        (Family::Wfm, false) => CENTER_WFM_FINE,
        (Family::Wfm, true) => CENTER_WFM_SHIFT,
    }
}

/// The Shift column is the coarse one: at least ten times the plain step, and
/// every step is positive.
pub proof fn law_shift_step_is_coarser(mode: DemodMode)
    ensures
        center_step(family_of(mode), true) >= 10 * center_step(family_of(mode), false),
        center_step(family_of(mode), false) > 0,
{
}

/// CW, SSB and digital-USB modes tune the LO identically.
pub proof fn law_ssb_family_steps_agree(shift: bool)
    ensures
        center_step(family_of(DemodMode::Cwu), shift) == center_step(family_of(DemodMode::Usb), shift),
        center_step(family_of(DemodMode::Cwl), shift) == center_step(family_of(DemodMode::Usb), shift),
        center_step(family_of(DemodMode::Lsb), shift) == center_step(family_of(DemodMode::Usb), shift),
        center_step(family_of(DemodMode::DgtU), shift) == center_step(family_of(DemodMode::Usb), shift),
{
}

/// Which sideband an SSB-style receiver demodulates.
#[derive(Debug, Clone, Copy, PartialEq, Eq, Structural)]
pub enum Sideband {
    Usb,
    Lsb,
}

/// Modes whose selection also sends the sideband to the server.
pub open spec fn is_ssb_mode(mode: DemodMode) -> bool {
    mode == DemodMode::Lsb || mode == DemodMode::Usb || mode == DemodMode::DgtU
}

/// Sideband after choosing `selected` in the demod selector: LSB for LSB, USB
/// for USB and Data-USB; any other mode keeps the current sideband.
pub open spec fn sideband_after(selected: DemodMode, current: Sideband) -> Sideband {
    match selected {
        DemodMode::Lsb => Sideband::Lsb,
        DemodMode::Usb | DemodMode::DgtU => Sideband::Usb,
        _ => current,
    }
}

/// The demod selector's mode switch: the new sideband, and whether the
/// sideband message is sent along with the mode.
pub fn select_demod_sideband(selected: DemodMode, current: Sideband) -> (r: (Sideband, bool))
    ensures
        r.0 == sideband_after(selected, current),
        r.1 == is_ssb_mode(selected),
        r.1 ==> (r.0 == Sideband::Lsb <==> selected == DemodMode::Lsb),
{
    match selected {
        DemodMode::Lsb => (Sideband::Lsb, true),
        DemodMode::Usb | DemodMode::DgtU => (Sideband::Usb, true),
        _ => (current, false),
    }
}

/// VFO B's sideband for a mode change: lower for LSB and CW-L, upper otherwise.
pub fn vfo_b_sideband_for(mode: DemodMode) -> (sb: Sideband)
    ensures
        sb == (if mode == DemodMode::Lsb || mode == DemodMode::Cwl { Sideband::Lsb } else { Sideband::Usb }),
{
    match mode {
        DemodMode::Lsb | DemodMode::Cwl => Sideband::Lsb,
        _ => Sideband::Usb,
    }
}

/// The Data-USB routing tie: entering Data-USB switches RX digital output on,
/// leaving it switches it off, and a switch between other modes leaves the
/// user's setting alone (`None`).
pub open spec fn digital_rx_change(previous: Option<DemodMode>, mode: DemodMode) -> Option<bool> {
    let was_dgt = previous == Some(DemodMode::DgtU);
    let is_dgt = mode == DemodMode::DgtU;
    if is_dgt && !was_dgt {
        Some(true)
    } else if was_dgt && !is_dgt {
        Some(false)
    } else {
        None
    }
}

/// RX digital-output routing change for a mode switch from `previous` to `mode`.
pub fn digital_rx_routing(previous: Option<DemodMode>, mode: DemodMode) -> (r: Option<bool>)
    ensures
        r == digital_rx_change(previous, mode),
{
    let was_dgt = match previous {
        Some(DemodMode::DgtU) => true,
        _ => false,
    };
    let is_dgt = match mode {
        DemodMode::DgtU => true,
        _ => false,
    };
    if is_dgt && !was_dgt {
        Some(true)
    } else if was_dgt && !is_dgt {
        Some(false)
    } else {
        None
    }
}

/// Routing follows Data-USB: after any switch into Data-USB routing is on,
/// after any switch out of it routing is off, and re-selecting the same mode
/// never touches it.
pub proof fn law_digital_rx_follows_data_usb(previous: Option<DemodMode>, mode: DemodMode)
    ensures
        mode == DemodMode::DgtU && previous != Some(DemodMode::DgtU) ==> digital_rx_change(previous, mode) == Some(true),
        previous == Some(DemodMode::DgtU) && mode != DemodMode::DgtU ==> digital_rx_change(previous, mode) == Some(false),
        previous == Some(mode) ==> digital_rx_change(previous, mode) is None,
        mode != DemodMode::DgtU && previous != Some(DemodMode::DgtU) ==> digital_rx_change(previous, mode) is None,
{
}

} // verus!
