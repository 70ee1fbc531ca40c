//! Counters of timing faults, and how often they are reported.
use super::rxtx_dev::{BlockCount, SampleCount};
use crate::number::{is_power_of_two, max_int, power_of_two, saturated_u64};
use vstd::prelude::*;

verus! {

/// A transmit or receive turn that takes longer than this is reported, in nanoseconds.
pub const SLOW_TURN_NS: u128 = 25_000_000;

/// Every turn whose number is a multiple of this is reported.
pub const TURN_REPORT_INTERVAL: u64 = 256;

/// What is reported of a transmit and receive turn.
#[derive(Debug, Clone, Copy, PartialEq, Eq, Structural)]
pub enum TurnReport {
    /// Nothing is reported.
    Silent,
    /// The turn took its usual time.
    Usual,
    /// The turn took too long.
    Slow,
    /// The turn ended with an error.
    Failed,
}

/// Which kinds of timing faults are reported.
#[derive(Debug, Clone, Copy, PartialEq, Eq, Structural)]
pub struct FaultReports {
    pub late_tx: bool,
    pub tx_write_error: bool,
    pub rx_sample_gap: bool,
}

/// Whether the `count`th fault of a kind is reported: the first, and every power of two.
pub open spec fn is_reported(count: u64) -> bool {
    count == 1 || is_power_of_two(count as nat)
}

/// Whether the `count`th fault of a kind is reported.
pub fn should_log_low_rate(count: u64) -> (r: bool)
    ensures
        r == is_reported(count),
{
    count == 1 || power_of_two(count)
}

#[derive(Debug, Clone, Copy, PartialEq, Eq, Structural)]
pub struct PhyTimingCounters {
    pub late_tx_events: u64,
    pub late_tx_blocks: u64,
    pub tx_write_errors: u64,
    pub rx_sample_gaps: u64,
    pub rx_sample_gap_samples: i64,
    pub rxtx_timeslots: u64,
}

impl Default for PhyTimingCounters {
    fn default() -> (out: PhyTimingCounters)
        ensures
            out == (PhyTimingCounters {
                late_tx_events: 0,
                late_tx_blocks: 0,
                tx_write_errors: 0,
                rx_sample_gaps: 0,
                rx_sample_gap_samples: 0,
                rxtx_timeslots: 0,
            }),
    {
        PhyTimingCounters {
            late_tx_events: 0,
            late_tx_blocks: 0,
            tx_write_errors: 0,
            rx_sample_gaps: 0,
            rx_sample_gap_samples: 0,
            rxtx_timeslots: 0,
        }
    }
}

/// The magnitude of an integer.
pub open spec fn magnitude(n: int) -> int {
    if n < 0 {
        -n
    } else {
        n
    }
}

/// `n`, held to the upper bound of `i64`.
pub open spec fn saturated_i64(n: int) -> i64 {
    if n > i64::MAX {
        i64::MAX
    } else {
        n as i64
    }
}

/// The report that a turn gets.
pub open spec fn turn_report(turn: u64, duration_ns: u128, failed: bool) -> TurnReport {
    if failed {
        TurnReport::Failed
    } else if duration_ns > SLOW_TURN_NS {
        TurnReport::Slow
    } else if turn == 1 || turn % TURN_REPORT_INTERVAL == 0 {
        TurnReport::Usual
    } else {
        TurnReport::Silent
    }
}

impl PhyTimingCounters {
    /// The counters after a late transmit block.
    pub open spec fn after_late_tx(self, skipped_blocks: int) -> PhyTimingCounters {
        PhyTimingCounters {
            late_tx_events: saturated_u64(self.late_tx_events + 1),
            late_tx_blocks: saturated_u64(self.late_tx_blocks + max_int(skipped_blocks, 0)),
            ..self
        }
    }

    /// The counters after a failed write.
    pub open spec fn after_tx_write_error(self) -> PhyTimingCounters {
        PhyTimingCounters { tx_write_errors: saturated_u64(self.tx_write_errors + 1), ..self }
    }

    /// The counters after lost or repeated receive samples.
    pub open spec fn after_rx_sample_gap(self, samples_lost: int) -> PhyTimingCounters {
        PhyTimingCounters {
            rx_sample_gaps: saturated_u64(self.rx_sample_gaps + 1),
            rx_sample_gap_samples: saturated_i64(
                self.rx_sample_gap_samples + magnitude(samples_lost),
            ),
            ..self
        }
    }

    /// Which faults are reported when the counters stood at `before` and have come to `self`:
    /// those of each kind that has gone up to a count that is reported.
    pub open spec fn reports(self, before: PhyTimingCounters) -> FaultReports {
        FaultReports {
            late_tx: self.late_tx_events != before.late_tx_events && is_reported(
                self.late_tx_events,
            ),
            tx_write_error: self.tx_write_errors != before.tx_write_errors && is_reported(
                self.tx_write_errors,
            ),
            rx_sample_gap: self.rx_sample_gaps != before.rx_sample_gaps && is_reported(
                self.rx_sample_gaps,
            ),
        }
    }

    /// Which faults are reported since the counters stood at `before`.
    pub fn reports_since(&self, before: &PhyTimingCounters) -> (out: FaultReports)
        ensures
            out == self.reports(*before),
    {
        FaultReports {
            late_tx: self.late_tx_events != before.late_tx_events && should_log_low_rate(
                self.late_tx_events,
            ),
            tx_write_error: self.tx_write_errors != before.tx_write_errors && should_log_low_rate(
                self.tx_write_errors,
            ),
            rx_sample_gap: self.rx_sample_gaps != before.rx_sample_gaps && should_log_low_rate(
                self.rx_sample_gaps,
            ),
        }
    }

    /// Counts a late transmit block, by which `skipped_blocks` are left out. Returns whether it
    /// is reported.
    pub fn record_late_tx(&mut self, skipped_blocks: BlockCount) -> (log: bool)
        ensures
            *final(self) == old(self).after_late_tx(skipped_blocks as int),
            log == is_reported(final(self).late_tx_events),
    {
        self.late_tx_events = self.late_tx_events.saturating_add(1);
        let skipped: u64 = if skipped_blocks > 0 {
            skipped_blocks as u64
        } else {
            0
        };
        self.late_tx_blocks = self.late_tx_blocks.saturating_add(skipped);
        should_log_low_rate(self.late_tx_events)
    }

    /// Counts a failed write. Returns whether it is reported.
    pub fn record_tx_write_error(&mut self) -> (log: bool)
        ensures
            *final(self) == old(self).after_tx_write_error(),
            log == is_reported(final(self).tx_write_errors),
    {
        self.tx_write_errors = self.tx_write_errors.saturating_add(1);
        should_log_low_rate(self.tx_write_errors)
    }

    /// Counts a gap of `samples_lost` receive samples; the count is negative where samples were
    /// repeated. Returns whether it is reported.
    pub fn record_rx_sample_gap(&mut self, samples_lost: SampleCount) -> (log: bool)
        requires
            samples_lost > i64::MIN,
        ensures
            *final(self) == old(self).after_rx_sample_gap(samples_lost as int),
            log == is_reported(final(self).rx_sample_gaps),
    {
        self.rx_sample_gaps = self.rx_sample_gaps.saturating_add(1);
        let lost: i64 = if samples_lost < 0 {
            -samples_lost
        } else {
            samples_lost
        };
        if self.rx_sample_gap_samples > i64::MAX - lost {
            self.rx_sample_gap_samples = i64::MAX;
        } else {
            self.rx_sample_gap_samples = self.rx_sample_gap_samples + lost;
        }
        should_log_low_rate(self.rx_sample_gaps)
    }

    /// Counts a transmit and receive turn. Returns what is reported of it.
    pub fn record_rxtx_duration(&mut self, duration_ns: u128, failed: bool) -> (report: TurnReport)
        ensures
            *final(self) == (PhyTimingCounters {
                rxtx_timeslots: saturated_u64(old(self).rxtx_timeslots + 1),
                ..*old(self)
            }),
            report == turn_report(final(self).rxtx_timeslots, duration_ns, failed),
    {
        self.rxtx_timeslots = self.rxtx_timeslots.saturating_add(1);
        if failed {
            TurnReport::Failed
        } else if duration_ns > SLOW_TURN_NS {
            TurnReport::Slow
        } else if self.rxtx_timeslots == 1 || self.rxtx_timeslots % TURN_REPORT_INTERVAL == 0 {
            TurnReport::Usual
        } else {
            TurnReport::Silent
        }
    }
}

// ---------------------------------------------------------------------------------------------
// Laws
// ---------------------------------------------------------------------------------------------
/// No counter ever goes back, whatever faults come and however many.
pub proof fn counters_never_go_back(c: PhyTimingCounters, skipped_blocks: int, samples_lost: int)
    ensures
        c.after_late_tx(skipped_blocks).late_tx_events >= c.late_tx_events,
        c.after_late_tx(skipped_blocks).late_tx_blocks >= c.late_tx_blocks,
        c.after_tx_write_error().tx_write_errors >= c.tx_write_errors,
        c.after_rx_sample_gap(samples_lost).rx_sample_gaps >= c.rx_sample_gaps,
        c.after_rx_sample_gap(samples_lost).rx_sample_gap_samples >= c.rx_sample_gap_samples,
{
}

/// A fault is reported just where its new count is one that is reported, and no fault of another
/// kind is reported with it, as long as the faults can be counted.
pub proof fn each_fault_is_reported_by_its_count(
    c: PhyTimingCounters,
    skipped_blocks: int,
    samples_lost: int,
)
    requires
        c.late_tx_events < u64::MAX,
        c.tx_write_errors < u64::MAX,
        c.rx_sample_gaps < u64::MAX,
    ensures
        c.after_late_tx(skipped_blocks).reports(c) == (FaultReports {
            late_tx: is_reported((c.late_tx_events + 1) as u64),
            tx_write_error: false,
            rx_sample_gap: false,
        }),
        c.after_tx_write_error().reports(c) == (FaultReports {
            late_tx: false,
            tx_write_error: is_reported((c.tx_write_errors + 1) as u64),
            rx_sample_gap: false,
        }),
        c.after_rx_sample_gap(samples_lost).reports(c) == (FaultReports {
            late_tx: false,
            tx_write_error: false,
            rx_sample_gap: is_reported((c.rx_sample_gaps + 1) as u64),
        }),
{
}

/// The first fault of a kind is reported, then the second, and after an even number of faults just
/// where the one at half that number was; at no other odd number is one reported.
pub proof fn faults_are_reported_less_and_less(count: u64, r: bool, half: u64, r_half: bool)
    requires
        half == count / 2,
        call_ensures(should_log_low_rate, (count,), r),
        call_ensures(should_log_low_rate, (half,), r_half),
    ensures
        count == 0 ==> !r,
        count == 1 ==> r,
        count > 0 && count % 2 == 0 ==> r == r_half,
        count > 1 && count % 2 == 1 ==> !r,
{
    lemma_reported_at_halves(count as nat);
    lemma_reported_at_halves(half as nat);
}

proof fn lemma_reported_at_halves(n: nat)
    ensures
        n == 0 ==> !is_power_of_two(n),
        n == 1 ==> is_power_of_two(n),
        n > 0 && n % 2 == 0 ==> is_power_of_two(n) == is_power_of_two(n / 2),
        n > 1 && n % 2 == 1 ==> !is_power_of_two(n),
{
    vstd::arithmetic::power2::lemma2_to64();
    if n == 1 {
        assert(n == vstd::arithmetic::power2::pow2(0));
    }
    if is_power_of_two(n) {
        let k = choose|k: nat| n == #[trigger] vstd::arithmetic::power2::pow2(k);
        vstd::arithmetic::power2::lemma_pow2_pos(k);
        if k > 0 {
            vstd::arithmetic::power2::lemma_pow2_unfold(k);
            assert(n / 2 == vstd::arithmetic::power2::pow2((k - 1) as nat));
        }
    }
    if n > 0 && n % 2 == 0 && is_power_of_two(n / 2) {
        let k = choose|k: nat| n / 2 == #[trigger] vstd::arithmetic::power2::pow2(k);
        vstd::arithmetic::power2::lemma_pow2_unfold(k + 1);
        assert(n == vstd::arithmetic::power2::pow2(k + 1));
    }
}

/// `n` where it is no larger than `bound`, and else the bound.
pub open spec fn at_most(n: int, bound: int) -> int {
    if n <= bound {
        n
    } else {
        bound
    }
}

/// A late transmit block is counted once, and the blocks that it leaves out with it; whether it is
/// reported goes by the new count. No other counter changes.
pub proof fn late_blocks_are_counted(
    c: &mut PhyTimingCounters,
    skipped_blocks: BlockCount,
    log: bool,
    r: bool,
)
    requires
        call_ensures(PhyTimingCounters::record_late_tx, (c, skipped_blocks), log),
        call_ensures(should_log_low_rate, (final(c).late_tx_events,), r),
    ensures
        final(c).late_tx_events == at_most(old(c).late_tx_events + 1, u64::MAX as int),
        skipped_blocks >= 0 ==> final(c).late_tx_blocks == at_most(
            old(c).late_tx_blocks + skipped_blocks,
            u64::MAX as int,
        ),
        skipped_blocks < 0 ==> final(c).late_tx_blocks == old(c).late_tx_blocks,
        final(c).tx_write_errors == old(c).tx_write_errors,
        final(c).rx_sample_gaps == old(c).rx_sample_gaps,
        final(c).rx_sample_gap_samples == old(c).rx_sample_gap_samples,
        final(c).rxtx_timeslots == old(c).rxtx_timeslots,
        log == r,
{
}

/// A failed write is counted once, and reported by the new count. No other counter changes.
pub proof fn failed_writes_are_counted(c: &mut PhyTimingCounters, log: bool, r: bool)
    requires
        call_ensures(PhyTimingCounters::record_tx_write_error, (c,), log),
        call_ensures(should_log_low_rate, (final(c).tx_write_errors,), r),
    ensures
        final(c).tx_write_errors == at_most(old(c).tx_write_errors + 1, u64::MAX as int),
        final(c).late_tx_events == old(c).late_tx_events,
        final(c).late_tx_blocks == old(c).late_tx_blocks,
        final(c).rx_sample_gaps == old(c).rx_sample_gaps,
        final(c).rx_sample_gap_samples == old(c).rx_sample_gap_samples,
        final(c).rxtx_timeslots == old(c).rxtx_timeslots,
        log == r,
{
}

/// A gap is counted once, with as many samples as are missing or come again, and reported by the
/// new count. No other counter changes.
pub proof fn gaps_are_counted(
    c: &mut PhyTimingCounters,
    samples_lost: SampleCount,
    log: bool,
    r: bool,
)
    requires
        samples_lost > i64::MIN,
        call_ensures(PhyTimingCounters::record_rx_sample_gap, (c, samples_lost), log),
        call_ensures(should_log_low_rate, (final(c).rx_sample_gaps,), r),
    ensures
        final(c).rx_sample_gaps == at_most(old(c).rx_sample_gaps + 1, u64::MAX as int),
        samples_lost >= 0 ==> final(c).rx_sample_gap_samples == at_most(
            old(c).rx_sample_gap_samples + samples_lost,
            i64::MAX as int,
        ),
        samples_lost < 0 ==> final(c).rx_sample_gap_samples == at_most(
            old(c).rx_sample_gap_samples - samples_lost,
            i64::MAX as int,
        ),
        final(c).late_tx_events == old(c).late_tx_events,
        final(c).late_tx_blocks == old(c).late_tx_blocks,
        final(c).tx_write_errors == old(c).tx_write_errors,
        final(c).rxtx_timeslots == old(c).rxtx_timeslots,
        log == r,
{
}

/// A turn is counted once. One that failed is reported as failed, one that took more than 25 ms as
/// slow; of the others the first and every 256th is reported. No other counter changes.
pub proof fn turns_are_counted(
    c: &mut PhyTimingCounters,
    duration_ns: u128,
    failed: bool,
    report: TurnReport,
)
    requires
        call_ensures(PhyTimingCounters::record_rxtx_duration, (c, duration_ns, failed), report),
    ensures
        final(c).rxtx_timeslots == at_most(old(c).rxtx_timeslots + 1, u64::MAX as int),
        final(c).late_tx_events == old(c).late_tx_events,
        final(c).late_tx_blocks == old(c).late_tx_blocks,
        final(c).tx_write_errors == old(c).tx_write_errors,
        final(c).rx_sample_gaps == old(c).rx_sample_gaps,
        final(c).rx_sample_gap_samples == old(c).rx_sample_gap_samples,
        failed <==> report == TurnReport::Failed,
        !failed && duration_ns > 25_000_000 <==> report == TurnReport::Slow,
        !failed && duration_ns <= 25_000_000 && (old(c).rxtx_timeslots == 0
            || final(c).rxtx_timeslots % 256 == 0) <==> report == TurnReport::Usual,
{
}

/// A kind of fault is reported just where its count has changed to one that is reported, and no
/// kind for the sake of another.
pub proof fn changed_counts_are_reported(
    c: &PhyTimingCounters,
    before: &PhyTimingCounters,
    out: FaultReports,
    late: bool,
    write: bool,
    gap: bool,
)
    requires
        call_ensures(PhyTimingCounters::reports_since, (c, before), out),
        call_ensures(should_log_low_rate, (c.late_tx_events,), late),
        call_ensures(should_log_low_rate, (c.tx_write_errors,), write),
        call_ensures(should_log_low_rate, (c.rx_sample_gaps,), gap),
    ensures
        out.late_tx <==> c.late_tx_events != before.late_tx_events && late,
        out.tx_write_error <==> c.tx_write_errors != before.tx_write_errors && write,
        out.rx_sample_gap <==> c.rx_sample_gaps != before.rx_sample_gaps && gap,
{
}

/// In the beginning nothing is counted.
pub proof fn counting_begins_at_zero(c: PhyTimingCounters)
    requires
        call_ensures(PhyTimingCounters::default, (), c),
    ensures
        c.late_tx_events == 0 && c.late_tx_blocks == 0 && c.tx_write_errors == 0
            && c.rx_sample_gaps == 0 && c.rx_sample_gap_samples == 0 && c.rxtx_timeslots == 0,
{
}

} // verus!
