//! The transmit and receive turn of a timeslot.
use super::counters::{at_most, turn_report, PhyTimingCounters, TurnReport};
use super::receiver::RxDsp;
use super::rxtx_dev::{dev_result, is_rx_timeout, rx_timeout, BlockCount, DevErrorView, RxTxDevError};
use super::soapyio::SoapyIo;
use super::transmitter::TxDsp;
use crate::number::saturated_u64;
use vstd::prelude::*;

verus! {

/// The device with its receive and transmit sides.
pub struct RxTxDevSoapySdr<S> {
    pub sdr: SoapyIo,
    pub rx_dsp: Option<RxDsp<S>>,
    pub tx_dsp: Option<TxDsp>,
    pub timing: PhyTimingCounters,
}

/// What a turn does next.
#[derive(Debug, Clone, Copy, PartialEq, Eq, Structural)]
pub enum TurnStep {
    /// Produce a transmit block.
    Tx,
    /// Process a block of received samples.
    Rx,
    /// Nothing: the turn is over.
    End,
}

/// What a turn does after a step that went well. Each side says whether it can go on: as much
/// transmit signal as possible is produced first, and again after each received block; the turn
/// is over when a slot has been received.
pub open spec fn step_after(step: TurnStep, go_on: bool) -> TurnStep {
    match step {
        TurnStep::Tx => if go_on {
            TurnStep::Tx
        } else {
            TurnStep::Rx
        },
        TurnStep::Rx => if go_on {
            TurnStep::Tx
        } else {
            TurnStep::End
        },
        TurnStep::End => TurnStep::End,
    }
}

/// What a turn does first.
pub fn first_step() -> (out: TurnStep)
    ensures
        out == TurnStep::Tx,
{
    TurnStep::Tx
}

/// What a turn does after a step, or why it ends with an error.
pub fn next_step(step: TurnStep, outcome: Result<bool, RxTxDevError>) -> (out: Result<
    TurnStep,
    RxTxDevError,
>)
    ensures
        dev_result(out) == match dev_result(outcome) {
            Ok(go_on) => Ok(step_after(step, go_on)),
            Err(e) => Err(e),
        },
{
    match outcome {
        Err(err) => Err(err),
        Ok(go_on) => Ok(
            match step {
                TurnStep::Tx => if go_on {
                    TurnStep::Tx
                } else {
                    TurnStep::Rx
                },
                TurnStep::Rx => if go_on {
                    TurnStep::Tx
                } else {
                    TurnStep::End
                },
                TurnStep::End => TurnStep::End,
            },
        ),
    }
}

impl<S> RxTxDevSoapySdr<S> {
    pub fn new(sdr: SoapyIo, rx_dsp: RxDsp<S>, tx_dsp: TxDsp) -> (out: RxTxDevSoapySdr<S>)
        ensures
            out.sdr == sdr,
            out.rx_dsp == if sdr.rx {
                Some(rx_dsp)
            } else {
                None
            },
            out.tx_dsp == if sdr.tx {
                Some(tx_dsp)
            } else {
                None
            },
            out.timing == (PhyTimingCounters {
                late_tx_events: 0,
                late_tx_blocks: 0,
                tx_write_errors: 0,
                rx_sample_gaps: 0,
                rx_sample_gap_samples: 0,
                rxtx_timeslots: 0,
            }),
    {
        let rx_dsp = if sdr.rx_enabled() {
            Some(rx_dsp)
        } else {
            None
        };
        let tx_dsp = if sdr.tx_enabled() {
            Some(tx_dsp)
        } else {
            None
        };
        RxTxDevSoapySdr { sdr, rx_dsp, tx_dsp, timing: PhyTimingCounters::default() }
    }

    /// Whether processing can go on after a block of received signal was processed with
    /// `outcome`; if not, a slot has been received. A receive timeout ends the turn. Without a
    /// receive side there is nothing to go on with.
    pub fn process_rx_block(&self, outcome: Result<bool, RxTxDevError>) -> (out: Result<
        bool,
        RxTxDevError,
    >)
        ensures
            dev_result(out) == if self.rx_dsp is None {
                Ok::<bool, DevErrorView>(false)
            } else {
                match dev_result(outcome) {
                    Err(e) => if is_rx_timeout(e) {
                        Ok(false)
                    } else {
                        Err(e)
                    },
                    Ok(go_on) => Ok(go_on),
                }
            },
    {
        if self.rx_dsp.is_none() {
            return Ok(false);
        }
        match outcome {
            Err(err) => if rx_timeout(&err) {
                Ok(false)
            } else {
                Err(err)
            },
            Ok(go_on) => Ok(go_on),
        }
    }

    /// Whether a transmit block is to be produced at all, and the latest received block, by which
    /// it is scheduled.
    pub fn process_tx_block(&self) -> (out: (bool, Option<BlockCount>))
        ensures
            out.0 == (self.tx_dsp is Some && self.sdr.tx && self.sdr.initial_time is Some),
            out.1 == match self.rx_dsp {
                Some(rx) => Some(rx.rx_block_count),
                None => None,
            },
    {
        let due = self.tx_dsp.is_some() && self.sdr.tx_possible();
        match &self.rx_dsp {
            Some(rx) => (due, Some(rx.rx_block_count)),
            None => (due, None),
        }
    }

    /// Ends a turn that took `duration_ns`. Returns what is reported of it.
    pub fn end_turn(&mut self, duration_ns: u128, failed: bool) -> (report: TurnReport)
        ensures
            final(self).sdr == old(self).sdr,
            final(self).rx_dsp == old(self).rx_dsp,
            final(self).tx_dsp == old(self).tx_dsp,
            final(self).timing == (PhyTimingCounters {
                rxtx_timeslots: saturated_u64(old(self).timing.rxtx_timeslots + 1),
                ..old(self).timing
            }),
            report == turn_report(final(self).timing.rxtx_timeslots, duration_ns, failed),
    {
        self.timing.record_rxtx_duration(duration_ns, failed)
    }
}

// ---------------------------------------------------------------------------------------------
// Laws
// ---------------------------------------------------------------------------------------------
/// What a turn does after a number of steps that went well, of which the last is given last.
pub open spec fn step_after_all(outcomes: Seq<bool>) -> TurnStep
    decreases outcomes.len(),
{
    if outcomes.len() == 0 {
        TurnStep::Tx
    } else {
        step_after(step_after_all(outcomes.drop_last()), outcomes.last())
    }
}

/// Received signal is processed only after the transmit side could not go on, and a turn is over
/// only after the receive side could not.
pub proof fn transmission_goes_first(outcomes: Seq<bool>)
    requires
        outcomes.len() > 0,
    ensures
        step_after_all(outcomes) == TurnStep::Rx ==> !outcomes.last() && step_after_all(
            outcomes.drop_last(),
        ) == TurnStep::Tx,
        step_after_all(outcomes) == TurnStep::End ==> step_after_all(outcomes.drop_last())
            == TurnStep::End || (!outcomes.last() && step_after_all(outcomes.drop_last())
            == TurnStep::Rx),
{
}

/// A turn begins by transmitting. It goes on with that while the transmit side can, then receives;
/// after a received block it transmits again, and ends where the receive side cannot go on. An
/// error ends it at once, and is given back as it is.
pub proof fn turn_goes_between_its_sides(
    first: TurnStep,
    step: TurnStep,
    go_on: bool,
    out: Result<TurnStep, RxTxDevError>,
    err: RxTxDevError,
    failed: Result<TurnStep, RxTxDevError>,
)
    requires
        call_ensures(first_step, (), first),
        call_ensures(next_step, (step, Ok::<bool, RxTxDevError>(go_on)), out),
        call_ensures(next_step, (step, Err::<bool, RxTxDevError>(err)), failed),
    ensures
        first == TurnStep::Tx,
        out is Ok,
        step == TurnStep::Tx && go_on ==> out->Ok_0 == TurnStep::Tx,
        step == TurnStep::Tx && !go_on ==> out->Ok_0 == TurnStep::Rx,
        step == TurnStep::Rx && go_on ==> out->Ok_0 == TurnStep::Tx,
        step == TurnStep::Rx && !go_on ==> out->Ok_0 == TurnStep::End,
        step == TurnStep::End ==> out->Ok_0 == TurnStep::End,
        failed matches Err(e) && e@ == err@,
{
}

/// Without a receive side nothing goes on. With one, a block that was processed says whether it
/// does; a receive timeout ends the turn without error, and any other error is given back.
pub proof fn received_block_decides_on_the_turn<S>(
    dev: &RxTxDevSoapySdr<S>,
    go_on: bool,
    out: Result<bool, RxTxDevError>,
    err: RxTxDevError,
    failed: Result<bool, RxTxDevError>,
    timeout: bool,
)
    requires
        call_ensures(
            RxTxDevSoapySdr::<S>::process_rx_block,
            (dev, Ok::<bool, RxTxDevError>(go_on)),
            out,
        ),
        call_ensures(
            RxTxDevSoapySdr::<S>::process_rx_block,
            (dev, Err::<bool, RxTxDevError>(err)),
            failed,
        ),
        call_ensures(rx_timeout, (&err,), timeout),
    ensures
        dev.rx_dsp is None ==> out == Ok::<bool, RxTxDevError>(false) && failed == Ok::<
            bool,
            RxTxDevError,
        >(false),
        dev.rx_dsp is Some ==> out == Ok::<bool, RxTxDevError>(go_on),
        dev.rx_dsp is Some && timeout ==> failed == Ok::<bool, RxTxDevError>(false),
        dev.rx_dsp is Some && !timeout ==> (failed matches Err(e) && e@ == err@),
{
}

/// A transmit block is due where there is a transmit side, the device transmits, and its time is
/// known. It is scheduled by the block that is received, where there is a receive side.
pub proof fn transmission_waits_for_the_time<S>(
    dev: &RxTxDevSoapySdr<S>,
    out: (bool, Option<BlockCount>),
)
    requires
        call_ensures(RxTxDevSoapySdr::<S>::process_tx_block, (dev,), out),
    ensures
        out.0 <==> dev.tx_dsp is Some && dev.sdr.tx && dev.sdr.initial_time is Some,
        dev.rx_dsp is None ==> out.1 is None,
        dev.rx_dsp is Some ==> out.1 == Some(dev.rx_dsp->0.rx_block_count),
{
}

/// The end of a turn counts it once and reports it by its count, and changes nothing else.
pub proof fn end_of_turn_counts_it<S>(
    dev: &mut RxTxDevSoapySdr<S>,
    duration_ns: u128,
    failed: bool,
    report: TurnReport,
)
    requires
        call_ensures(RxTxDevSoapySdr::<S>::end_turn, (dev, duration_ns, failed), report),
    ensures
        final(dev).sdr == old(dev).sdr,
        final(dev).rx_dsp == old(dev).rx_dsp,
        final(dev).tx_dsp == old(dev).tx_dsp,
        final(dev).timing.rxtx_timeslots == at_most(
            old(dev).timing.rxtx_timeslots + 1,
            u64::MAX as int,
        ),
        final(dev).timing.late_tx_events == old(dev).timing.late_tx_events,
        final(dev).timing.late_tx_blocks == old(dev).timing.late_tx_blocks,
        final(dev).timing.tx_write_errors == old(dev).timing.tx_write_errors,
        final(dev).timing.rx_sample_gaps == old(dev).timing.rx_sample_gaps,
        final(dev).timing.rx_sample_gap_samples == old(dev).timing.rx_sample_gap_samples,
        failed <==> report == TurnReport::Failed,
        !failed && duration_ns > 25_000_000 <==> report == TurnReport::Slow,
        !failed && duration_ns <= 25_000_000 && (old(dev).timing.rxtx_timeslots == 0
            || final(dev).timing.rxtx_timeslots % 256 == 0) <==> report == TurnReport::Usual,
{
}

/// A new device has just the sides that its radio has, and nothing is counted yet.
pub proof fn new_device_has_the_sides_of_its_radio<S>(
    sdr: SoapyIo,
    rx_dsp: RxDsp<S>,
    tx_dsp: TxDsp,
    out: RxTxDevSoapySdr<S>,
)
    requires
        call_ensures(RxTxDevSoapySdr::<S>::new, (sdr, rx_dsp, tx_dsp), out),
    ensures
        out.sdr == sdr,
        sdr.rx ==> out.rx_dsp == Some(rx_dsp),
        !sdr.rx ==> out.rx_dsp is None,
        sdr.tx ==> out.tx_dsp == Some(tx_dsp),
        !sdr.tx ==> out.tx_dsp is None,
        out.timing.late_tx_events == 0 && out.timing.late_tx_blocks == 0
            && out.timing.tx_write_errors == 0 && out.timing.rx_sample_gaps == 0
            && out.timing.rx_sample_gap_samples == 0 && out.timing.rxtx_timeslots == 0,
{
}

} // verus!
