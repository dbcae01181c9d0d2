use vstd::prelude::*;
use std::time::Duration;
use std::time::Instant;

verus! {

/// `std::time::Instant`, carried through opaquely.
#[verifier::external_type_specification]
#[verifier::external_body]
pub struct ExInstant(Instant);

/// `Instant::now` reads the monotonic clock; nothing is promised of the value.
pub assume_specification[ Instant::now ]() -> Instant;

/// `Instant::elapsed` reads the clock again; nothing is promised of the value.
pub assume_specification[ Instant::elapsed ](i: &Instant) -> Duration;

/// `Duration::as_nanos` converts an opaque duration; nothing is promised here.
pub assume_specification[ Duration::as_nanos ](d: &Duration) -> u128;

/// Per-interval network media counters (reset after each stats line).
#[derive(Debug, Clone, Copy)]
pub struct MediaPacketStats {
    pub incoming_packets: u64,
    pub audio_packets: u64,
    pub waterfall_packets: u64,
    pub dropped_audio_packets: u64,
    pub dropped_waterfall_packets: u64,
    pub late_audio_packets: u64,
    pub late_waterfall_packets: u64,
}

/// Cumulative jitter-buffer counters and current depth.
#[derive(Debug, Clone, Copy)]
pub struct JitterBufferCounters {
    pub packets_missing_concealed: u64,
    pub packets_dropped_late: u64,
    pub packets_dropped_overflow: u64,
    pub packets_dropped_invalid_size: u64,
    pub resync_count: u64,
    pub buffered_samples: usize,
    pub started: bool,
}

/// What one stats line reports for the interval that just ended.
#[derive(Debug, Clone, Copy)]
pub struct ClientStatsReport {
    /// Length of the interval in nanoseconds.
    pub elapsed_nanos: u128,
    /// Audio samples produced during the interval.
    pub audio_samples: u64,
    /// The interval's media counters (before they were reset).
    pub media: MediaPacketStats,
    /// The jitter buffer's counters at the end of the interval.
    pub jitter: JitterBufferCounters,
    /// Growth of each cumulative jitter-buffer counter since the last line.
    pub conceal_delta: u64,
    pub late_delta: u64,
    pub overflow_delta: u64,
    pub invalid_delta: u64,
    pub resync_delta: u64,
    /// Whether any jitter-buffer event happened (some delta is positive).
    pub jitter_event: bool,
}

/// The counters a stats logger keeps between lines.
pub struct StatsCounters {
    pub audio_samples_since_last: u64,
    pub last_jb_concealed: u64,
    pub last_jb_late: u64,
    pub last_jb_overflow: u64,
    pub last_jb_invalid: u64,
    pub last_jb_resync: u64,
}

/// Periodic client-side media statistics: audio sample throughput, media
/// packet rates, jitter buffer depth, loss/lateness and conceal/resync counts.
pub struct ClientStatsLogger {
    last_log: Instant,
    audio_samples_since_last: u64,
    last_jb_concealed: u64,
    last_jb_late: u64,
    last_jb_overflow: u64,
    last_jb_invalid: u64,
    last_jb_resync: u64,
}

impl View for ClientStatsLogger {
    type V = StatsCounters;

    closed spec fn view(&self) -> StatsCounters {
        StatsCounters {
            audio_samples_since_last: self.audio_samples_since_last,
            last_jb_concealed: self.last_jb_concealed,
            last_jb_late: self.last_jb_late,
            last_jb_overflow: self.last_jb_overflow,
            last_jb_invalid: self.last_jb_invalid,
            last_jb_resync: self.last_jb_resync,
        }
    }
}

/// `a - b`, or 0 when `b` exceeds `a`.
pub open spec fn sat_sub(a: u64, b: u64) -> u64 {
    if a >= b { (a - b) as u64 } else { 0 }
}

/// The report of an interval of `nanos` nanoseconds, given the counters kept
/// so far, the interval's media counters and the jitter buffer now.
pub open spec fn report_for(c: StatsCounters, nanos: u128, media: MediaPacketStats, jb: JitterBufferCounters) -> ClientStatsReport {
    let conceal = sat_sub(jb.packets_missing_concealed, c.last_jb_concealed);
    let late = sat_sub(jb.packets_dropped_late, c.last_jb_late);
    let overflow = sat_sub(jb.packets_dropped_overflow, c.last_jb_overflow);
    let invalid = sat_sub(jb.packets_dropped_invalid_size, c.last_jb_invalid);
    let resync = sat_sub(jb.resync_count, c.last_jb_resync);
    ClientStatsReport {
        elapsed_nanos: nanos,
        audio_samples: c.audio_samples_since_last,
        media: media,
        jitter: jb,
        conceal_delta: conceal,
        late_delta: late,
        overflow_delta: overflow,
        invalid_delta: invalid,
        resync_delta: resync,
        jitter_event: conceal > 0 || late > 0 || overflow > 0 || invalid > 0 || resync > 0,
    }
}

/// Nanoseconds in the one-second logging interval.
pub const LOG_INTERVAL_NANOS: u128 = 1_000_000_000;

impl ClientStatsLogger {
    /// The instant the current logging interval started.
    pub closed spec fn interval_start(&self) -> Instant {
        self.last_log
    }

    /// A logger whose first interval starts now, with all counters at zero.
    pub fn new() -> (s: Self)
        ensures
            s@.audio_samples_since_last == 0,
            s@.last_jb_concealed == 0,
            s@.last_jb_late == 0,
            s@.last_jb_overflow == 0,
            s@.last_jb_invalid == 0,
            s@.last_jb_resync == 0,
    {
        ClientStatsLogger {
            last_log: Instant::now(),
            audio_samples_since_last: 0,
            last_jb_concealed: 0,
            last_jb_late: 0,
            last_jb_overflow: 0,
            last_jb_invalid: 0,
            last_jb_resync: 0,
        }
    }

    /// Record audio samples produced during the current logging interval.
    pub fn add_audio_samples(&mut self, count: usize)
        requires
            old(self)@.audio_samples_since_last + count <= u64::MAX,
        ensures
            final(self)@.audio_samples_since_last == old(self)@.audio_samples_since_last + count,
            final(self)@.last_jb_concealed == old(self)@.last_jb_concealed,
            final(self)@.last_jb_late == old(self)@.last_jb_late,
            final(self)@.last_jb_overflow == old(self)@.last_jb_overflow,
            final(self)@.last_jb_invalid == old(self)@.last_jb_invalid,
            final(self)@.last_jb_resync == old(self)@.last_jb_resync,
            final(self).interval_start() == old(self).interval_start(),
    {
        self.audio_samples_since_last = self.audio_samples_since_last + count as u64;
    }

    /// Close the interval if at least one second (`elapsed_nanos`) has passed:
    /// report it, remember the jitter-buffer counters, and reset the interval's
    /// sample count and media counters.  Otherwise nothing changes.  The
    /// interval's start instant is never moved here.
    pub fn close_interval(
        &mut self,
        elapsed_nanos: u128,
        media_stats: &mut MediaPacketStats,
        jb: &JitterBufferCounters,
    ) -> (r: Option<ClientStatsReport>)
        ensures
            final(self).interval_start() == old(self).interval_start(),
            elapsed_nanos < LOG_INTERVAL_NANOS ==> r is None && final(self)@ == old(self)@
                && *final(media_stats) == *old(media_stats),
            elapsed_nanos >= LOG_INTERVAL_NANOS ==> {
                &&& r == Some(report_for(old(self)@, elapsed_nanos, *old(media_stats), *jb))
                &&& final(self)@.audio_samples_since_last == 0
                &&& final(self)@.last_jb_concealed == jb.packets_missing_concealed
                &&& final(self)@.last_jb_late == jb.packets_dropped_late
                &&& final(self)@.last_jb_overflow == jb.packets_dropped_overflow
                &&& final(self)@.last_jb_invalid == jb.packets_dropped_invalid_size
                &&& final(self)@.last_jb_resync == jb.resync_count
                &&& *final(media_stats) == (MediaPacketStats {
                    incoming_packets: 0,
                    audio_packets: 0,
                    waterfall_packets: 0,
                    dropped_audio_packets: 0,
                    dropped_waterfall_packets: 0,
                    late_audio_packets: 0,
                    late_waterfall_packets: 0,
                })
            },
    {
        if elapsed_nanos < LOG_INTERVAL_NANOS {
            return None;
        }
        let conceal = jb.packets_missing_concealed.saturating_sub(self.last_jb_concealed);
        let late = jb.packets_dropped_late.saturating_sub(self.last_jb_late);
        let overflow = jb.packets_dropped_overflow.saturating_sub(self.last_jb_overflow);
        let invalid = jb.packets_dropped_invalid_size.saturating_sub(self.last_jb_invalid);
        let resync = jb.resync_count.saturating_sub(self.last_jb_resync);
        let report = ClientStatsReport {
            elapsed_nanos,
            audio_samples: self.audio_samples_since_last,
            media: *media_stats,
            jitter: *jb,
            conceal_delta: conceal,
            late_delta: late,
            overflow_delta: overflow,
            invalid_delta: invalid,
            resync_delta: resync,
            jitter_event: conceal > 0 || late > 0 || overflow > 0 || invalid > 0 || resync > 0,
        };
        self.last_jb_concealed = jb.packets_missing_concealed;
        self.last_jb_late = jb.packets_dropped_late;
        self.last_jb_overflow = jb.packets_dropped_overflow;
        self.last_jb_invalid = jb.packets_dropped_invalid_size;
        self.last_jb_resync = jb.resync_count;
        self.audio_samples_since_last = 0;
        *media_stats = MediaPacketStats {
            incoming_packets: 0,
            audio_packets: 0,
            waterfall_packets: 0,
            dropped_audio_packets: 0,
            dropped_waterfall_packets: 0,
            late_audio_packets: 0,
            late_waterfall_packets: 0,
        };
        Some(report)
    }

    /// Once per second: report the interval that ended (see
    /// [`ClientStatsLogger::close_interval`]) and start the next one now.
    /// How much time passed is read from the clock, so the contract holds for
    /// whatever the clock says: either nothing changed, or the interval was
    /// reported with exactly the counters it accumulated.
    pub fn maybe_log(&mut self, media_stats: &mut MediaPacketStats, jb: &JitterBufferCounters) -> (r: Option<ClientStatsReport>)
        ensures
            r is None ==> final(self)@ == old(self)@ && *final(media_stats) == *old(media_stats)
                && final(self).interval_start() == old(self).interval_start(),
            r is Some ==> {
                &&& r->0.elapsed_nanos >= LOG_INTERVAL_NANOS
                &&& r == Some(report_for(old(self)@, r->0.elapsed_nanos, *old(media_stats), *jb))
                &&& final(self)@.audio_samples_since_last == 0
                &&& final(self)@.last_jb_concealed == jb.packets_missing_concealed
                &&& final(self)@.last_jb_late == jb.packets_dropped_late
                &&& final(self)@.last_jb_overflow == jb.packets_dropped_overflow
                &&& final(self)@.last_jb_invalid == jb.packets_dropped_invalid_size
                &&& final(self)@.last_jb_resync == jb.resync_count
                &&& *final(media_stats) == (MediaPacketStats {
                    incoming_packets: 0,
                    audio_packets: 0,
                    waterfall_packets: 0,
                    dropped_audio_packets: 0,
                    dropped_waterfall_packets: 0,
                    late_audio_packets: 0,
                    late_waterfall_packets: 0,
                })
            },
    {
        let elapsed = self.last_log.elapsed();
        let nanos = elapsed.as_nanos();
        let r = self.close_interval(nanos, media_stats, jb);
        if r.is_some() {
            self.last_log = Instant::now();
        }
        r
    }
}

} // verus!
