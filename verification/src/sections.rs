use vstd::prelude::*;
use crate::modes::DemodMode;
use crate::state::UiState;
use crate::text::{push_str, string_from_chars};

verus! {

/// Which panel a section belongs to.
#[derive(Debug, Clone, Copy, PartialEq, Eq, Structural)]
pub enum Panel {
    RadioControl,
    SourceControl,
}

/// A left-panel sub-section.
#[derive(Debug, Clone, Copy, PartialEq, Eq, Structural)]
pub enum Section {
    Audio,
    Receive,
    Transmit,
    Configuration,
    Recording,
    Status,
    Advanced,
    Diagnostics,
}

pub open spec fn prefix_of(p: Panel) -> Seq<char> {
    match p {
        Panel::RadioControl => "rc"@,
        Panel::SourceControl => "sc"@,
    }
}

impl Panel {
    /// Id-salt prefix of the panel.
    pub fn prefix(self) -> (s: &'static str)
        ensures
            s@ == prefix_of(self),
    {
        match self {
            Panel::RadioControl => "rc",
            Panel::SourceControl => "sc",
        }
    }
}

pub open spec fn weight_of(s: Section) -> u32 {
    match s {
        Section::Audio => 100,
        Section::Receive => 200,
        Section::Transmit => 300,
        Section::Configuration => 400,
        Section::Recording => 500,
        Section::Status => 600,
        Section::Advanced => 800,
        Section::Diagnostics => 900,
    }
}

pub open spec fn gated_spec(s: Section) -> bool {
    s == Section::Advanced || s == Section::Diagnostics
}

pub open spec fn title_of(s: Section) -> Seq<char> {
    match s {
        Section::Audio => "Audio"@,
        Section::Receive => "Receive"@,
        Section::Transmit => "Transmit"@,
        Section::Configuration => "Configuration"@,
        Section::Recording => "Recording"@,
        Section::Status => "Status"@,
        Section::Advanced => "Advanced"@,
        Section::Diagnostics => "Diagnostics"@,
    }
}

pub open spec fn salt_of(s: Section) -> Seq<char> {
    match s {
        Section::Audio => "audio"@,
        Section::Receive => "receive"@,
        Section::Transmit => "transmit"@,
        Section::Configuration => "configuration"@,
        Section::Recording => "recording"@,
        Section::Status => "status"@,
        Section::Advanced => "advanced"@,
        Section::Diagnostics => "diagnostics"@,
    }
}

impl Section {
    /// Sort key: lower draws first, higher sinks to the bottom.
    pub fn weight(self) -> (w: u32)
        ensures
            w == weight_of(self),
    {
        match self {
            Section::Audio => 100,
            Section::Receive => 200,
            Section::Transmit => 300,
            Section::Configuration => 400,
            Section::Recording => 500,
            Section::Status => 600,
            Section::Advanced => 800,
            Section::Diagnostics => 900,
        }
    }

    /// Gated sections are only shown with "Show advanced & diagnostics
    /// controls" on, and their presence makes that checkbox appear.
    pub fn gated(self) -> (g: bool)
        ensures
            g == gated_spec(self),
    {
        match self {
            Section::Advanced | Section::Diagnostics => true,
            _ => false,
        }
    }

    pub fn title(self) -> (s: &'static str)
        ensures
            s@ == title_of(self),
    {
        match self {
            Section::Audio => "Audio",
            Section::Receive => "Receive",
            Section::Transmit => "Transmit",
            Section::Configuration => "Configuration",
            Section::Recording => "Recording",
            Section::Status => "Status",
            Section::Advanced => "Advanced",
            Section::Diagnostics => "Diagnostics",
        }
    }

    pub fn salt(self) -> (s: &'static str)
        ensures
            s@ == salt_of(self),
    {
        match self {
            Section::Audio => "audio",
            Section::Receive => "receive",
            Section::Transmit => "transmit",
            Section::Configuration => "configuration",
            Section::Recording => "recording",
            Section::Status => "status",
            Section::Advanced => "advanced",
            Section::Diagnostics => "diagnostics",
        }
    }

    /// Whether the section starts expanded.
    pub fn default_open(self) -> (b: bool)
        ensures
            b == (self == Section::Audio || self == Section::Receive || self == Section::Configuration
                || self == Section::Status),
    {
        match self {
            Section::Audio | Section::Receive | Section::Configuration | Section::Status => true,
            _ => false,
        }
    }
}

/// Whether the mode is USB or LSB (the modes with transmit diagnostics).
pub open spec fn is_sideband_voice(m: DemodMode) -> bool {
    m == DemodMode::Usb || m == DemodMode::Lsb
}

/// The sections a panel has content for (empty sections are never listed):
/// Radio Control always has Audio, Receive, Transmit and Advanced, plus
/// Diagnostics in USB/LSB; Source Control has Configuration, Recording and
/// Status, plus Diagnostics when the source supports the TX tune test or
/// full duplex.
pub open spec fn present_spec(panel: Panel, s: UiState) -> Seq<Section> {
    match panel {
        Panel::RadioControl => {
            let base = seq![Section::Audio, Section::Receive, Section::Transmit, Section::Advanced];
            if is_sideband_voice(s.demod_mode) {
                base.push(Section::Diagnostics)
            } else {
                base
            }
        },
        Panel::SourceControl => {
            let base = seq![Section::Configuration, Section::Recording, Section::Status];
            if s.source_capabilities.supports_tx_tune_test || s.source_capabilities.supports_fdx {
                base.push(Section::Diagnostics)
            } else {
                base
            }
        },
    }
}

/// Which sections this panel currently has content for.
pub fn present_sections(panel: Panel, snapshot: &UiState) -> (v: Vec<Section>)
    ensures
        v@ == present_spec(panel, *snapshot),
{
    match panel {
        Panel::RadioControl => {
            let mut v = vec![Section::Audio, Section::Receive, Section::Transmit, Section::Advanced];
            let m = snapshot.demod_mode;
            let sideband = match m {
                DemodMode::Usb | DemodMode::Lsb => true,
                _ => false,
            };
            if sideband {
                v.push(Section::Diagnostics);
            }
            assert(v@ =~= present_spec(panel, *snapshot));
            v
        },
        Panel::SourceControl => {
            let mut v = vec![Section::Configuration, Section::Recording, Section::Status];
            if snapshot.source_capabilities.supports_tx_tune_test || snapshot.source_capabilities.supports_fdx {
                v.push(Section::Diagnostics);
            }
            assert(v@ =~= present_spec(panel, *snapshot));
            v
        },
    }
}

/// The sections to draw, in weight order, leaving out gated ones unless
/// `show_advanced` is on.
pub open spec fn shown_spec(panel: Panel, s: UiState, show_advanced: bool) -> Seq<Section> {
    present_spec(panel, s).filter(|sec: Section| show_advanced || !gated_spec(sec))
}

/// What a panel draws: its sections in weight order (gated ones only with
/// `show_advanced`), and whether the "Show advanced & diagnostics controls"
/// checkbox is drawn below them (iff any present section is gated).
pub struct SectionLayout {
    pub sections: Vec<Section>,
    pub show_advanced_toggle: bool,
}

/// Lay out a panel's sub-sections: weight order, gating Advanced/Diagnostics
/// behind `show_advanced`, and the toggle iff any gated section is present.
pub fn section_layout(panel: Panel, snapshot: &UiState, show_advanced: bool) -> (l: SectionLayout)
    ensures
        l.sections@ == shown_spec(panel, *snapshot, show_advanced),
        l.show_advanced_toggle == exists|k: int|
            0 <= k < present_spec(panel, *snapshot).len() && gated_spec(#[trigger] present_spec(panel, *snapshot)[k]),
{
    let present = present_sections(panel, snapshot);
    let n = present.len();
    let mut shown: Vec<Section> = Vec::new();
    let mut any_gated = false;
    for i in 0..n
        invariant
            n == present.len(),
            present@ == present_spec(panel, *snapshot),
            shown@ == present@.take(i as int).filter(|sec: Section| show_advanced || !gated_spec(sec)),
            any_gated == exists|k: int| 0 <= k < i && gated_spec(#[trigger] present@[k]),
    {
        let sec = present[i];
        let g = sec.gated();
        proof {
            reveal_with_fuel(Seq::<_>::filter, 1);
            assert(present@.take(i + 1).drop_last() =~= present@.take(i as int));
        }
        if g {
            any_gated = true;
        }
        if show_advanced || !g {
            shown.push(sec);
        }
        assert(shown@ =~= present@.take(i + 1).filter(|sec: Section| show_advanced || !gated_spec(sec)));
    }
    assert(present@.take(n as int) =~= present@);
    SectionLayout { sections: shown, show_advanced_toggle: any_gated }
}

/// Shown sections are drawn in strictly increasing weight.
pub proof fn law_sections_in_weight_order(panel: Panel, s: UiState, show_advanced: bool)
    ensures
        forall|a: int, b: int|
            0 <= a < b < shown_spec(panel, s, show_advanced).len() ==> weight_of(
                #[trigger] shown_spec(panel, s, show_advanced)[a],
            ) < weight_of(#[trigger] shown_spec(panel, s, show_advanced)[b]),
{
    let p = present_spec(panel, s);
    let f = |sec: Section| show_advanced || !gated_spec(sec);
    assert forall|a: int, b: int| 0 <= a < b < p.len() implies weight_of(#[trigger] p[a]) < weight_of(#[trigger] p[b]) by {}
    lemma_filter_keeps_increasing(p, f);
}

proof fn lemma_filter_keeps_increasing(p: Seq<Section>, f: spec_fn(Section) -> bool)
    requires
        forall|a: int, b: int| 0 <= a < b < p.len() ==> weight_of(#[trigger] p[a]) < weight_of(#[trigger] p[b]),
    ensures
        forall|a: int, b: int|
            0 <= a < b < p.filter(f).len() ==> weight_of(#[trigger] p.filter(f)[a]) < weight_of(#[trigger] p.filter(f)[b]),
        forall|a: int| 0 <= a < p.filter(f).len() ==> exists|k: int| 0 <= k < p.len() && #[trigger] p.filter(f)[a] == p[k],
    decreases p.len(),
{
    reveal_with_fuel(Seq::<_>::filter, 1);
    if p.len() > 0 {
        let q = p.drop_last();
        assert forall|a: int, b: int| 0 <= a < b < q.len() implies weight_of(#[trigger] q[a]) < weight_of(#[trigger] q[b]) by {
            assert(q[a] == p[a] && q[b] == p[b]);
        }
        lemma_filter_keeps_increasing(q, f);
        let fq = q.filter(f);
        assert forall|a: int| 0 <= a < fq.len() implies weight_of(#[trigger] fq[a]) < weight_of(p.last()) by {
            let k = choose|k: int| 0 <= k < q.len() && #[trigger] fq[a] == q[k];
            assert(q[k] == p[k]);
        }
        assert forall|a: int| 0 <= a < p.filter(f).len() implies exists|k: int| 0 <= k < p.len() && #[trigger] p.filter(f)[a] == p[k] by {
            if a < fq.len() {
                let k = choose|k: int| 0 <= k < q.len() && #[trigger] fq[a] == q[k];
                assert(p.filter(f)[a] == fq[a]);
                assert(q[k] == p[k]);
            } else {
                assert(p.filter(f)[a] == p[p.len() - 1]);
            }
        }
    }
}

proof fn lemma_filter_all(p: Seq<Section>, f: spec_fn(Section) -> bool)
    requires
        forall|x: Section| #[trigger] f(x),
    ensures
        p.filter(f) == p,
    decreases p.len(),
{
    reveal_with_fuel(Seq::<_>::filter, 1);
    if p.len() > 0 {
        lemma_filter_all(p.drop_last(), f);
        assert(p.drop_last().push(p.last()) =~= p);
    } else {
        assert(p.filter(f) =~= p);
    }
}

/// Without `show_advanced` no gated section is shown; with it, every present
/// section is shown.
pub proof fn law_gating(panel: Panel, s: UiState, show_advanced: bool)
    ensures
        !show_advanced ==> forall|k: int|
            0 <= k < shown_spec(panel, s, show_advanced).len() ==> !gated_spec(
                #[trigger] shown_spec(panel, s, show_advanced)[k],
            ),
        show_advanced ==> shown_spec(panel, s, show_advanced) == present_spec(panel, s),
{
    broadcast use vstd::seq_lib::group_filter_ensures;
    let p = present_spec(panel, s);
    let f = |sec: Section| show_advanced || !gated_spec(sec);
    if show_advanced {
        lemma_filter_all(p, f);
    } else {
        assert forall|k: int| 0 <= k < p.filter(f).len() implies !gated_spec(#[trigger] p.filter(f)[k]) by {
            assert(f(p.filter(f)[k]));
        }
    }
}

/// Id salt of a section's collapsing header: `<panel prefix>_<section salt>`.
pub fn section_id_salt(panel: Panel, sec: Section) -> (s: String)
    ensures
        s@ == prefix_of(panel) + seq!['_'] + salt_of(sec),
{
    let mut out: Vec<char> = Vec::new();
    push_str(&mut out, panel.prefix());
    out.push('_');
    push_str(&mut out, sec.salt());
    assert(out@ =~= prefix_of(panel) + seq!['_'] + salt_of(sec));
    string_from_chars(&out)
}


/// Radio Control always lists Audio, Receive, Transmit and Advanced, and lists
/// Diagnostics exactly when the mode is USB or LSB; USB and LSB give the same
/// sections. Source Control lists Diagnostics exactly when the source
/// supports the TX tune test or full duplex. With `show_advanced` on, the
/// drawn sections are these.
pub proof fn law_diagnostics_presence(s: UiState, show_advanced: bool)
    ensures
        present_spec(Panel::RadioControl, s).contains(Section::Audio),
        present_spec(Panel::RadioControl, s).contains(Section::Receive),
        present_spec(Panel::RadioControl, s).contains(Section::Transmit),
        present_spec(Panel::RadioControl, s).contains(Section::Advanced),
        present_spec(Panel::RadioControl, s).contains(Section::Diagnostics) <==> (s.demod_mode == DemodMode::Usb
            || s.demod_mode == DemodMode::Lsb),
        present_spec(Panel::RadioControl, (UiState { demod_mode: DemodMode::Usb, ..s }))
            == present_spec(Panel::RadioControl, (UiState { demod_mode: DemodMode::Lsb, ..s })),
        present_spec(Panel::SourceControl, s).contains(Section::Diagnostics) <==> (
        s.source_capabilities.supports_tx_tune_test || s.source_capabilities.supports_fdx),
        shown_spec(Panel::RadioControl, s, true).contains(Section::Diagnostics) <==> (s.demod_mode == DemodMode::Usb
            || s.demod_mode == DemodMode::Lsb),
{
    let p = present_spec(Panel::RadioControl, s);
    assert(p[0] == Section::Audio);
    assert(p[1] == Section::Receive);
    assert(p[2] == Section::Transmit);
    assert(p[3] == Section::Advanced);
    if s.demod_mode == DemodMode::Usb || s.demod_mode == DemodMode::Lsb {
        assert(p[4] == Section::Diagnostics);
    } else {
        assert(!p.contains(Section::Diagnostics)) by {
            assert forall|k: int| 0 <= k < p.len() implies p[k] != Section::Diagnostics by {}
        }
    }
    let q = present_spec(Panel::SourceControl, s);
    if s.source_capabilities.supports_tx_tune_test || s.source_capabilities.supports_fdx {
        assert(q[3] == Section::Diagnostics);
    } else {
        assert(!q.contains(Section::Diagnostics)) by {
            assert forall|k: int| 0 <= k < q.len() implies q[k] != Section::Diagnostics by {}
        }
    }
    law_gating(Panel::RadioControl, s, true);
}

} // verus!
