use vstd::prelude::*;
use crate::text::{push_str, string_from_chars};

verus! {

/// An RGB colour, one byte per channel.
pub type Rgb = (u8, u8, u8);

/// Outcome of the last TX tune test, as the server reports it.
#[derive(Debug, Clone, Copy, PartialEq, Eq, Structural)]
pub enum TxTuneStatus {
    NotRun,
    Passed,
    NoForwardPower,
    HighSwr,
    TxInhibited,
    InvalidFrequency,
    Timeout,
    Underflow,
    Overflow,
    Fault,
}

/// Text shown for a TX tune test outcome.
pub fn format_status(status: TxTuneStatus) -> (s: &'static str)
    ensures
        s@ == match status {
            TxTuneStatus::NotRun => "--"@,
            TxTuneStatus::Passed => "OK"@,
            TxTuneStatus::NoForwardPower => "No forward power"@,
            TxTuneStatus::HighSwr => "High SWR"@,
            TxTuneStatus::TxInhibited => "TX inhibited"@,
            TxTuneStatus::InvalidFrequency => "Invalid frequency"@,
            TxTuneStatus::Timeout => "Timeout"@,
            TxTuneStatus::Underflow => "FIFO underflow"@,
            TxTuneStatus::Overflow => "FIFO overflow"@,
            TxTuneStatus::Fault => "Fault"@,
        },
{
    match status {
        TxTuneStatus::NotRun => "--",
        TxTuneStatus::Passed => "OK",
        TxTuneStatus::NoForwardPower => "No forward power",
        TxTuneStatus::HighSwr => "High SWR",
        TxTuneStatus::TxInhibited => "TX inhibited",
        TxTuneStatus::InvalidFrequency => "Invalid frequency",
        TxTuneStatus::Timeout => "Timeout",
        TxTuneStatus::Underflow => "FIFO underflow",
        TxTuneStatus::Overflow => "FIFO overflow",
        TxTuneStatus::Fault => "Fault",
    }
}

/// Colour of a TX tune test outcome: grey before any run, white when fine,
/// amber for the two antenna-side warnings, red for every fault.
pub open spec fn tx_tune_rgb(status: TxTuneStatus) -> Rgb {
    match status {
        TxTuneStatus::NotRun => (160, 160, 160),
        TxTuneStatus::Passed => (255, 255, 255),
        TxTuneStatus::NoForwardPower | TxTuneStatus::HighSwr => (255, 200, 50),
        _ => (255, 80, 80),
    }
}

/// Colour of a TX tune test outcome.
pub fn status_color(status: TxTuneStatus) -> (c: Rgb)
    ensures
        c == tx_tune_rgb(status),
{
    match status {
        TxTuneStatus::NotRun => (160, 160, 160),
        TxTuneStatus::Passed => (255, 255, 255),
        TxTuneStatus::NoForwardPower | TxTuneStatus::HighSwr => (255, 200, 50),
        _ => (255, 80, 80),
    }
}

/// Connection state of the DX cluster (telnet) link.
#[derive(Debug, Clone, PartialEq, Eq)]
pub enum ClusterStatus {
    Disconnected,
    Connecting,
    Connected,
    /// The link failed with this message and will be retried.
    Error(String),
}

/// Status text of the cluster link.
pub open spec fn cluster_status_text(status: ClusterStatus) -> Seq<char> {
    match status {
        ClusterStatus::Disconnected => "disconnected"@,
        ClusterStatus::Connecting => "connecting\u{2026}"@,
        ClusterStatus::Connected => "connected"@,
        ClusterStatus::Error(e) => e@ + " \u{2014} retrying"@,
    }
}

/// Colour of the cluster link status (colour, not glyphs, tells the states apart).
pub open spec fn cluster_status_rgb(status: ClusterStatus) -> Rgb {
    match status {
        ClusterStatus::Disconnected => (160, 160, 160),
        ClusterStatus::Connecting => (235, 200, 90),
        ClusterStatus::Connected => (120, 205, 140),
        ClusterStatus::Error(_) => (230, 130, 120),
    }
}

/// Status text and colour for the cluster connection state.
pub fn cluster_status_display(status: &ClusterStatus) -> (r: (String, Rgb))
    ensures
        r.0@ == cluster_status_text(*status),
        r.1 == cluster_status_rgb(*status),
{
    let mut out: Vec<char> = Vec::new();
    let rgb: Rgb = match status {
        ClusterStatus::Disconnected => {
            push_str(&mut out, "disconnected");
            (160, 160, 160)
        },
        ClusterStatus::Connecting => {
            push_str(&mut out, "connecting\u{2026}");
            (235, 200, 90)
        },
        ClusterStatus::Connected => {
            push_str(&mut out, "connected");
            (120, 205, 140)
        },
        ClusterStatus::Error(e) => {
            push_str(&mut out, e.as_str());
            push_str(&mut out, " \u{2014} retrying");
            (230, 130, 120)
        },
    };
    (string_from_chars(&out), rgb)
}

} // verus!
