//! Sample counting and timestamps of a radio device stream.
//!
//! The device reports times in nanoseconds, the modem works with sample counts. Converting one
//! into the other takes the sample rate, which the device side knows: the operations below ask
//! for the converted values they need.
use super::counters::at_most;
use super::rxtx_dev::{
    check_tx_status, dev_result, needs_restart, soapy_error, soapy_error_needs_restart,
    status_outcome, DevErrorView, RxTxDevError, RxTxDirection, SampleCount, SoapyStreamErrorCode,
};
use crate::number::{fits_i64, saturated_u64};
use vstd::prelude::*;

verus! {

/// Timestamps can occasionally jitter by a single sample. Tiny differences count as contiguous,
/// which avoids large block realignments downstream.
pub const RX_TIMESTAMP_JITTER_TOLERANCE_SAMPLES: SampleCount = 1;

/// After this many reads of an unchanged hardware time the first warning is due.
pub const HARDWARE_TIME_STALE_WARN_READS: u64 = 8;

/// The outcome of a read.
#[derive(Debug, Clone, Copy)]
pub struct RxResult {
    /// Number of samples read.
    pub len: usize,
    /// Sample counter of the first sample read.
    pub count: SampleCount,
    /// Hardware timestamp of the first sample read, where the device reported one.
    pub time_ns: Option<i64>,
}

/// How a write ended.
pub enum WriteEnd {
    /// It was not tried.
    NotTried(RxTxDevError),
    /// The device refused it.
    Failed(SoapyStreamErrorCode, String),
    /// It was done, and the query of its status ended with this failure, if any.
    Written(Option<(SoapyStreamErrorCode, String)>),
}

/// The outcome of a stream operation.
pub struct Outcome<T> {
    pub result: Result<T, RxTxDevError>,
    /// Whether the stream has to be restarted.
    pub restart: bool,
    /// Whether a restart is reported even when it succeeds.
    pub log_restart: bool,
}

/// Where the current sample count comes from.
#[derive(Debug, Clone, Copy, PartialEq, Eq, Structural)]
pub enum CountSource {
    /// The count is known.
    Known(SampleCount),
    /// The count is the hardware time that has passed since `since`, in samples.
    HardwareTimeSince(i64),
}

pub struct SoapyIo {
    /// Whether there is a receive stream.
    pub rx: bool,
    /// Whether there is a transmit stream.
    pub tx: bool,
    /// Timestamp of the sample with count zero, once the device has reported a timestamp.
    pub initial_time: Option<i64>,
    /// The count that the next sample read is expected to have.
    pub rx_next_count: SampleCount,
    pub prev_time_ns: i64,
    pub last_hardware_time_ns: Option<i64>,
    pub stale_hardware_time_reads: u64,
    pub stale_hardware_time_warn_at: u64,
    pub stream_restarts: u64,
    pub stream_restart_log_at: u64,
    /// If false, the count of the latest read stands for the current hardware time. This is for
    /// devices on which the hardware time cannot be read, or not fast enough.
    pub use_get_hardware_time: bool,
}

/// Twice `n`, held to the range of `u64`, and at least one.
pub open spec fn doubled(n: u64) -> u64 {
    if n == 0 {
        1
    } else {
        saturated_u64(2 * n)
    }
}

fn double(n: u64) -> (r: u64)
    ensures
        r == doubled(n),
{
    if n == 0 {
        1
    } else if n > u64::MAX / 2 {
        u64::MAX
    } else {
        n * 2
    }
}

/// Whether a count is within the jitter tolerance of the expected one.
pub open spec fn within_jitter(count: int, expected: int) -> bool {
    -RX_TIMESTAMP_JITTER_TOLERANCE_SAMPLES <= count - expected
        <= RX_TIMESTAMP_JITTER_TOLERANCE_SAMPLES
}

/// The count by the timestamp of a read, where it has one.
pub open spec fn ticks_of(stamp: Option<(i64, SampleCount)>) -> Option<SampleCount> {
    match stamp {
        Some((_, ticks)) => Some(ticks),
        None => None,
    }
}

impl SoapyIo {
    /// Whether the timestamp of a read can be reckoned with.
    pub open spec fn stamp_in_range(self, time: i64, next_count_ns: i64) -> bool {
        self.stamped(time) ==> match self.initial_time {
            None => fits_i64(time - next_count_ns),
            Some(initial) => fits_i64(time - initial),
        }
    }

    /// Whether the samples of a read can be counted.
    pub open spec fn count_in_range(
        self,
        len: usize,
        stamp: Option<(i64, SampleCount)>,
        sample_ns: i64,
        back_ns: i64,
    ) -> bool {
        &&& len <= i64::MAX
        &&& fits_i64(self.read_count(ticks_of(stamp)) + len)
        &&& ticks_of(stamp) matches Some(ticks) ==> {
            let delta = ticks - self.rx_next_count;
            &&& self.initial_time is Some
            &&& i64::MIN < delta <= i64::MAX
            &&& delta == 1 ==> fits_i64(self.initial_time->0 + sample_ns)
            &&& delta == -1 ==> fits_i64(self.initial_time->0 + back_ns)
        }
    }

    /// Whether the time at which a block is to be sent can be reckoned with.
    pub open spec fn transmit_in_range(self, count: Option<SampleCount>, count_ns: i64) -> bool {
        self.tx && count is Some ==> match self.initial_time {
            Some(initial) => fits_i64(initial + count_ns),
            None => true,
        }
    }

    /// Whether the timestamp of a read can be reckoned with.
    pub fn can_stamp(&self, time: i64, next_count_ns: i64) -> (r: bool)
        ensures
            r == self.stamp_in_range(time, next_count_ns),
    {
        time == self.prev_time_ns || match self.initial_time {
            None => time.checked_sub(next_count_ns).is_some(),
            Some(initial) => time.checked_sub(initial).is_some(),
        }
    }

    /// Whether the samples of a read can be counted.
    pub fn can_count(
        &self,
        len: usize,
        stamp: Option<(i64, SampleCount)>,
        sample_ns: i64,
        back_ns: i64,
    ) -> (r: bool)
        ensures
            r == self.count_in_range(len, stamp, sample_ns, back_ns),
    {
        if len as u128 > i64::MAX as u128 {
            return false;
        }
        let mut count: i64 = self.rx_next_count;
        if let Some((_, ticks)) = stamp {
            let initial: i64 = match self.initial_time {
                Some(initial) => initial,
                None => {
                    return false;
                },
            };
            let delta: i64 = match ticks.checked_sub(self.rx_next_count) {
                Some(delta) => delta,
                None => {
                    return false;
                },
            };
            if delta == i64::MIN {
                return false;
            }
            if delta == 1 {
                if initial.checked_add(sample_ns).is_none() {
                    return false;
                }
            } else if delta == -1 {
                if initial.checked_add(back_ns).is_none() {
                    return false;
                }
            } else if delta != 0 {
                count = ticks;
            }
        }
        count.checked_add(len as i64).is_some()
    }

    /// Whether the time at which a block is to be sent can be reckoned with.
    pub fn can_transmit(&self, count: Option<SampleCount>, count_ns: i64) -> (r: bool)
        ensures
            r == self.transmit_in_range(count, count_ns),
    {
        match (self.tx, count, self.initial_time) {
            (true, Some(_), Some(initial)) => initial.checked_add(count_ns).is_some(),
            _ => true,
        }
    }

    /// Whether the device reported a timestamp with a read: one that differs from the one
    /// before.
    pub open spec fn stamped(self, time: i64) -> bool {
        time != self.prev_time_ns
    }

    /// The state after a read that reported `time`, before its samples are counted.
    /// `next_count_ns` is the duration of `rx_next_count` samples.
    pub open spec fn after_stamp(self, time: i64, next_count_ns: i64) -> SoapyIo {
        SoapyIo {
            prev_time_ns: time,
            initial_time: if self.initial_time is None && self.stamped(time) {
                Some((time - next_count_ns) as i64)
            } else {
                self.initial_time
            },
            ..self
        }
    }

    /// The count that a read starts at: `ticks` is the count by its timestamp, where it has one.
    pub open spec fn read_count(self, ticks: Option<SampleCount>) -> SampleCount {
        match ticks {
            Some(t) => if within_jitter(t as int, self.rx_next_count as int) {
                self.rx_next_count
            } else {
                t
            },
            None => self.rx_next_count,
        }
    }

    /// The state after a read of `len` samples is counted. `sample_ns` and `back_ns` are the
    /// durations of one sample and of minus one sample.
    pub open spec fn after_count(
        self,
        len: usize,
        ticks: Option<SampleCount>,
        sample_ns: i64,
        back_ns: i64,
    ) -> SoapyIo {
        SoapyIo {
            initial_time: match (self.initial_time, ticks) {
                (Some(initial), Some(t)) => if t - self.rx_next_count == 1 {
                    Some((initial + sample_ns) as i64)
                } else if t - self.rx_next_count == -1 {
                    Some((initial + back_ns) as i64)
                } else {
                    Some(initial)
                },
                _ => self.initial_time,
            },
            rx_next_count: (self.read_count(ticks) + len) as i64,
            ..self
        }
    }

    /// The time at which a block is to be sent, or why it cannot be.
    pub open spec fn transmit_outcome(self, count: Option<SampleCount>, count_ns: i64) -> Result<
        Option<i64>,
        DevErrorView,
    > {
        if !self.tx {
            Err(
                DevErrorView::SoapyStreamError {
                    direction: RxTxDirection::Tx,
                    code: SoapyStreamErrorCode::NotSupported,
                    operation: "write stream"@,
                    message: "TX stream is disabled"@,
                },
            )
        } else {
            match self.initial_time {
                Some(initial) => Ok(
                    match count {
                        Some(_) => Some((initial + count_ns) as i64),
                        None => None,
                    },
                ),
                None => Err(
                    DevErrorView::LateTx {
                        target_sample: match count {
                            Some(c) => c,
                            None => 0,
                        },
                        current_sample: 0,
                        min_headroom_samples: 0,
                        message: "TX requested before RX timestamp established"@,
                    },
                ),
            }
        }
    }

    pub fn new(rx: bool, tx: bool, use_get_hardware_time: bool) -> (out: SoapyIo)
        ensures
            out == (SoapyIo {
                rx,
                tx,
                initial_time: None,
                rx_next_count: 0,
                prev_time_ns: -1i64,
                last_hardware_time_ns: None,
                stale_hardware_time_reads: 0,
                stale_hardware_time_warn_at: HARDWARE_TIME_STALE_WARN_READS,
                stream_restarts: 0,
                stream_restart_log_at: 1,
                use_get_hardware_time,
            }),
    {
        SoapyIo {
            rx,
            tx,
            initial_time: None,
            rx_next_count: 0,
            prev_time_ns: -1,
            last_hardware_time_ns: None,
            stale_hardware_time_reads: 0,
            stale_hardware_time_warn_at: HARDWARE_TIME_STALE_WARN_READS,
            stream_restarts: 0,
            stream_restart_log_at: 1,
            use_get_hardware_time,
        }
    }

    /// Takes the timestamp of a read. The first timestamp fixes the time of the sample with
    /// count zero. Returns the time since that sample, where the read has a timestamp.
    ///
    /// The device does not say whether a read had a timestamp, so it counts as one when it
    /// differs from the one before.
    pub fn stamp_read(&mut self, time: i64, next_count_ns: i64) -> (elapsed: Option<i64>)
        requires
            old(self).stamp_in_range(time, next_count_ns),
        ensures
            *final(self) == old(self).after_stamp(time, next_count_ns),
            old(self).stamped(time) ==> final(self).initial_time is Some && elapsed == Some(
                (time - final(self).initial_time->0) as i64,
            ),
            !old(self).stamped(time) ==> elapsed is None,
    {
        let available = time != self.prev_time_ns;
        self.prev_time_ns = time;
        if !available {
            return None;
        }
        match self.initial_time {
            None => {
                self.initial_time = Some(time - next_count_ns);
                Some(next_count_ns)
            },
            Some(initial) => Some(time - initial),
        }
    }

    /// Counts the samples of a read. `stamp` holds its timestamp and the count by that
    /// timestamp, where it has one; a read without one continues right after the read before.
    ///
    /// A timestamp that is off by no more than the jitter tolerance moves the time of the sample
    /// with count zero, so that an offset that persists is corrected, and the count stays
    /// contiguous.
    pub fn count_read(
        &mut self,
        len: usize,
        stamp: Option<(i64, SampleCount)>,
        sample_ns: i64,
        back_ns: i64,
    ) -> (out: RxResult)
        requires
            old(self).count_in_range(len, stamp, sample_ns, back_ns),
        ensures
            *final(self) == old(self).after_count(len, ticks_of(stamp), sample_ns, back_ns),
            out.count == old(self).read_count(ticks_of(stamp)),
            out.len == len,
            out.time_ns == match stamp {
                Some((time, _)) => Some(time),
                None => None,
            },
    {
        let mut count: SampleCount = self.rx_next_count;
        let mut time_ns: Option<i64> = None;
        if let Some((time, ticks)) = stamp {
            time_ns = Some(time);
            let delta: i64 = ticks - self.rx_next_count;
            if delta >= -RX_TIMESTAMP_JITTER_TOLERANCE_SAMPLES && delta
                <= RX_TIMESTAMP_JITTER_TOLERANCE_SAMPLES {
                if let Some(initial) = self.initial_time {
                    if delta == 1 {
                        self.initial_time = Some(initial + sample_ns);
                    } else if delta == -1 {
                        self.initial_time = Some(initial + back_ns);
                    }
                }
            } else {
                count = ticks;
            }
        }
        self.rx_next_count = count + len as i64;
        RxResult { len, count, time_ns }
    }

    /// The time at which a block is to be sent, where its place in the sample stream is given.
    /// `count_ns` is the duration of `count` samples.
    ///
    /// Times of samples are known from the first receive timestamp on, so nothing can be sent
    /// before that.
    pub fn transmit_time(&self, count: Option<SampleCount>, count_ns: i64) -> (out: Result<
        Option<i64>,
        RxTxDevError,
    >)
        requires
            self.transmit_in_range(count, count_ns),
        ensures
            dev_result(out) == self.transmit_outcome(count, count_ns),
    {
        if !self.tx {
            return Err(
                RxTxDevError::SoapyStreamError {
                    direction: RxTxDirection::Tx,
                    code: SoapyStreamErrorCode::NotSupported,
                    operation: "write stream",
                    message: "TX stream is disabled".to_owned(),
                },
            );
        }
        match self.initial_time {
            Some(initial) => match count {
                Some(_) => Ok(Some(initial + count_ns)),
                None => Ok(None),
            },
            None => {
                let target_sample: i64 = match count {
                    Some(c) => c,
                    None => 0,
                };
                Err(
                    RxTxDevError::LateTx {
                        target_sample,
                        current_sample: 0,
                        min_headroom_samples: 0,
                        message: "TX requested before RX timestamp established".to_owned(),
                    },
                )
            },
        }
    }

    /// The state after a reading of the hardware time.
    pub open spec fn after_time(self, time: i64) -> SoapyIo {
        let reads = saturated_u64(self.stale_hardware_time_reads + 1);
        if self.last_hardware_time_ns == Some(time) {
            SoapyIo {
                stale_hardware_time_reads: reads,
                stale_hardware_time_warn_at: if self.warns_of(time) {
                    doubled(self.stale_hardware_time_warn_at)
                } else {
                    self.stale_hardware_time_warn_at
                },
                ..self
            }
        } else {
            SoapyIo {
                last_hardware_time_ns: Some(time),
                stale_hardware_time_reads: 0,
                stale_hardware_time_warn_at: HARDWARE_TIME_STALE_WARN_READS,
                ..self
            }
        }
    }

    /// Whether a reading of the hardware time brings a warning that it does not advance.
    pub open spec fn warns_of(self, time: i64) -> bool {
        self.last_hardware_time_ns == Some(time) && saturated_u64(
            self.stale_hardware_time_reads + 1,
        ) >= self.stale_hardware_time_warn_at
    }

    /// Takes a reading of the hardware time. Returns the time, or why it could not be read, and
    /// whether to warn that it does not advance. The number of unchanged readings between two
    /// warnings doubles each time.
    pub fn current_time(&mut self, reading: Result<i64, (SoapyStreamErrorCode, String)>) -> (out: (
        Result<i64, RxTxDevError>,
        bool,
    ))
        ensures
            match reading {
                Ok(time) => {
                    &&& out == (Ok::<i64, RxTxDevError>(time), old(self).warns_of(time))
                    &&& *final(self) == old(self).after_time(time)
                },
                Err((code, message)) => {
                    &&& dev_result(out.0) == Err::<i64, DevErrorView>(
                        DevErrorView::SoapyStreamError {
                            direction: RxTxDirection::Device,
                            code,
                            operation: "get hardware time"@,
                            message: message@,
                        },
                    )
                    &&& !out.1
                    &&& *final(self) == *old(self)
                },
            },
    {
        match reading {
            Ok(time) => {
                let warn = self.note_time(time);
                (Ok(time), warn)
            },
            Err((code, message)) => (
                Err(soapy_error(RxTxDirection::Device, "get hardware time", code, message)),
                false,
            ),
        }
    }

    fn note_time(&mut self, time: i64) -> (warn: bool)
        ensures
            warn == old(self).warns_of(time),
            *final(self) == old(self).after_time(time),
    {
        let unchanged = match self.last_hardware_time_ns {
            Some(last) => last == time,
            None => false,
        };
        if unchanged {
            self.stale_hardware_time_reads = self.stale_hardware_time_reads.saturating_add(1);
            if self.stale_hardware_time_reads >= self.stale_hardware_time_warn_at {
                self.stale_hardware_time_warn_at = double(self.stale_hardware_time_warn_at);
                true
            } else {
                false
            }
        } else {
            self.last_hardware_time_ns = Some(time);
            self.stale_hardware_time_reads = 0;
            self.stale_hardware_time_warn_at = HARDWARE_TIME_STALE_WARN_READS;
            false
        }
    }

    /// The state after a stream restart.
    pub open spec fn after_restart(self) -> SoapyIo {
        SoapyIo {
            stream_restarts: saturated_u64(self.stream_restarts + 1),
            stream_restart_log_at: if self.reports_restart() {
                doubled(self.stream_restart_log_at)
            } else {
                self.stream_restart_log_at
            },
            ..self
        }
    }

    /// Whether the next stream restart is reported even when it succeeds.
    pub open spec fn reports_restart(self) -> bool {
        saturated_u64(self.stream_restarts + 1) >= self.stream_restart_log_at
    }

    /// The result of a read that ended with `read`.
    pub open spec fn receive_result(
        self,
        read: Result<RxResult, (SoapyStreamErrorCode, String)>,
    ) -> Result<RxResult, DevErrorView> {
        if !self.rx {
            Err(DevErrorView::RxReadError)
        } else {
            match read {
                Ok(result) => Ok(result),
                Err((code, message)) => Err(
                    DevErrorView::SoapyStreamError {
                        direction: RxTxDirection::Rx,
                        code,
                        operation: "read stream"@,
                        message: message@,
                    },
                ),
            }
        }
    }

    /// The result of a write that ended with `write`.
    pub open spec fn transmit_result(write: WriteEnd) -> Result<(), DevErrorView> {
        match write {
            WriteEnd::NotTried(err) => Err(err@),
            WriteEnd::Failed(code, message) => Err(
                DevErrorView::SoapyStreamError {
                    direction: RxTxDirection::Tx,
                    code,
                    operation: "write stream"@,
                    message: message@,
                },
            ),
            WriteEnd::Written(failure) => status_outcome(failure),
        }
    }

    /// Whether a result asks for a restart, and the state after it.
    pub open spec fn is_settled<T>(
        self,
        result: Result<T, DevErrorView>,
        out: Outcome<T>,
        after: SoapyIo,
    ) -> bool {
        &&& dev_result(out.result) == result
        &&& out.restart == (result matches Err(e) && needs_restart(e))
        &&& out.log_restart == (out.restart && self.reports_restart())
        &&& after == if out.restart {
            self.after_restart()
        } else {
            self
        }
    }

    fn settle<T>(&mut self, result: Result<T, RxTxDevError>) -> (out: Outcome<T>)
        ensures
            old(self).is_settled(dev_result(result), out, *final(self)),
    {
        let restart = match &result {
            Ok(_) => false,
            Err(err) => soapy_error_needs_restart(err),
        };
        let log_restart = if restart {
            self.note_restart()
        } else {
            false
        };
        Outcome { result, restart, log_restart }
    }

    /// Ends a read. Says whether the receive stream has to be restarted.
    pub fn receive(&mut self, read: Result<RxResult, (SoapyStreamErrorCode, String)>) -> (out:
        Outcome<RxResult>)
        ensures
            old(self).is_settled(old(self).receive_result(read), out, *final(self)),
    {
        let result = if !self.rx {
            Err(RxTxDevError::RxReadError)
        } else {
            match read {
                Ok(result) => Ok(result),
                Err((code, message)) => Err(
                    soapy_error(RxTxDirection::Rx, "read stream", code, message),
                ),
            }
        };
        self.settle(result)
    }

    /// Ends a write. Says whether the transmit stream has to be restarted.
    pub fn transmit(&mut self, write: WriteEnd) -> (out: Outcome<()>)
        ensures
            old(self).is_settled(SoapyIo::transmit_result(write), out, *final(self)),
    {
        let result = match write {
            WriteEnd::NotTried(err) => Err(err),
            WriteEnd::Failed(code, message) => Err(
                soapy_error(RxTxDirection::Tx, "write stream", code, message),
            ),
            WriteEnd::Written(failure) => check_tx_status(failure),
        };
        self.settle(result)
    }

    /// Counts a stream restart. Returns whether it is reported even when it succeeds. The number
    /// of restarts between two reports doubles each time.
    pub fn note_restart(&mut self) -> (log: bool)
        ensures
            log == old(self).reports_restart(),
            *final(self) == old(self).after_restart(),
    {
        self.stream_restarts = self.stream_restarts.saturating_add(1);
        let log = self.stream_restarts >= self.stream_restart_log_at;
        if log {
            self.stream_restart_log_at = double(self.stream_restart_log_at);
        }
        log
    }

    /// Whether a stream of the given direction can be restarted; if not, why.
    pub fn restart_target(&self, direction: RxTxDirection) -> (out: Result<(), &'static str>)
        ensures
            match direction {
                RxTxDirection::Rx => if self.rx {
                    out is Ok
                } else {
                    out matches Err(e) && e@ == "RX stream is disabled"@
                },
                RxTxDirection::Tx => if self.tx {
                    out is Ok
                } else {
                    out matches Err(e) && e@ == "TX stream is disabled"@
                },
                RxTxDirection::Device => out matches Err(e) && e@
                    == "device direction has no stream to restart"@,
            },
    {
        match direction {
            RxTxDirection::Rx => if self.rx {
                Ok(())
            } else {
                Err("RX stream is disabled")
            },
            RxTxDirection::Tx => if self.tx {
                Ok(())
            } else {
                Err("TX stream is disabled")
            },
            RxTxDirection::Device => Err("device direction has no stream to restart"),
        }
    }

    /// Where the current receive sample count comes from.
    pub fn rx_current_count(&self) -> (out: CountSource)
        requires
            self.rx && !self.use_get_hardware_time ==> self.rx_next_count > i64::MIN,
        ensures
            out == self.count_source(self.rx),
    {
        self.source(self.rx)
    }

    /// Where the current transmit sample count comes from. Without hardware time this takes the
    /// receive and transmit sample rates to be equal.
    pub fn tx_current_count(&self) -> (out: CountSource)
        requires
            self.tx && !self.use_get_hardware_time ==> self.rx_next_count > i64::MIN,
        ensures
            out == self.count_source(self.tx),
    {
        self.source(self.tx)
    }

    pub open spec fn count_source(self, enabled: bool) -> CountSource {
        if !enabled {
            CountSource::Known(0)
        } else if self.use_get_hardware_time {
            CountSource::HardwareTimeSince(
                match self.initial_time {
                    Some(initial) => initial,
                    None => 0,
                },
            )
        } else {
            CountSource::Known((self.rx_next_count - 1) as i64)
        }
    }

    fn source(&self, enabled: bool) -> (out: CountSource)
        requires
            enabled && !self.use_get_hardware_time ==> self.rx_next_count > i64::MIN,
        ensures
            out == self.count_source(enabled),
    {
        if !enabled {
            CountSource::Known(0)
        } else if self.use_get_hardware_time {
            match self.initial_time {
                Some(initial) => CountSource::HardwareTimeSince(initial),
                None => CountSource::HardwareTimeSince(0),
            }
        } else {
            CountSource::Known(self.rx_next_count - 1)
        }
    }

    /// Whether samples can be sent: not before the first receive timestamp.
    pub fn tx_possible(&self) -> (r: bool)
        ensures
            r == (self.tx && self.initial_time is Some),
    {
        self.tx_enabled() && self.initial_time.is_some()
    }

    pub fn rx_enabled(&self) -> (r: bool)
        ensures
            r == self.rx,
    {
        self.rx
    }

    pub fn tx_enabled(&self) -> (r: bool)
        ensures
            r == self.tx,
    {
        self.tx
    }
}

// ---------------------------------------------------------------------------------------------
// Laws
// ---------------------------------------------------------------------------------------------
/// A read whose timestamp is off by no more than the jitter tolerance, and a read without one,
/// continues right after the read before: the counts of the samples have neither gap nor
/// overlap.
pub proof fn reads_are_contiguous(
    io: SoapyIo,
    len: usize,
    ticks: Option<SampleCount>,
    sample_ns: i64,
    back_ns: i64,
)
    requires
        ticks matches Some(t) ==> within_jitter(t as int, io.rx_next_count as int),
        fits_i64(io.rx_next_count + len),
    ensures
        io.read_count(ticks) == io.rx_next_count,
        io.after_count(len, ticks, sample_ns, back_ns).rx_next_count == io.rx_next_count + len,
{
}

/// Two reads in a row that both have no timestamp count as one read of all their samples.
pub proof fn unstamped_reads_join(io: SoapyIo, first: usize, second: usize, sample_ns: i64, back_ns: i64)
    requires
        first + second <= usize::MAX,
        fits_i64(io.rx_next_count + first + second),
    ensures
        io.after_count(first, None, sample_ns, back_ns).after_count(second, None, sample_ns, back_ns)
            == io.after_count((first + second) as usize, None, sample_ns, back_ns),
{
}

/// The time of the sample with count zero, once known, moves only to correct a jitter, and by
/// the duration of that jitter.
pub proof fn anchor_moves_by_jitter_only(
    io: SoapyIo,
    time: i64,
    next_count_ns: i64,
    len: usize,
    ticks: Option<SampleCount>,
    sample_ns: i64,
    back_ns: i64,
)
    requires
        io.initial_time is Some,
        ticks is Some ==> io.stamped(time),
        fits_i64(io.initial_time->0 + sample_ns),
        fits_i64(io.initial_time->0 + back_ns),
    ensures
        ({
            let stamp = io.after_stamp(time, next_count_ns);
            let end = stamp.after_count(len, ticks, sample_ns, back_ns);
            &&& stamp.initial_time == io.initial_time
            &&& end.initial_time is Some
            &&& end.initial_time->0 - io.initial_time->0 == match ticks {
                Some(t) => if t - io.rx_next_count == 1 {
                    sample_ns as int
                } else if t - io.rx_next_count == -1 {
                    back_ns as int
                } else {
                    0
                },
                None => 0,
            }
        }),
{
}

/// Sending is possible from the first receive timestamp on, and stays so.
pub proof fn tx_stays_possible(
    io: SoapyIo,
    time: i64,
    next_count_ns: i64,
    len: usize,
    ticks: Option<SampleCount>,
    sample_ns: i64,
    back_ns: i64,
)
    requires
        io.stamped(time) || io.initial_time is Some,
    ensures
        io.after_stamp(time, next_count_ns).initial_time is Some,
        io.after_stamp(time, next_count_ns).after_count(len, ticks, sample_ns, back_ns).initial_time is Some,
{
}

// ---------------------------------------------------------------------------------------------
// Laws of the operations
// ---------------------------------------------------------------------------------------------
/// A new device has the streams it is given; no time is known and no sample counted yet.
pub proof fn new_device_knows_no_time(
    rx: bool,
    tx: bool,
    use_get_hardware_time: bool,
    out: SoapyIo,
)
    requires
        call_ensures(SoapyIo::new, (rx, tx, use_get_hardware_time), out),
    ensures
        out.rx == rx,
        out.tx == tx,
        out.use_get_hardware_time == use_get_hardware_time,
        out.initial_time is None,
        out.rx_next_count == 0,
        out.prev_time_ns == -1,
        out.last_hardware_time_ns is None,
        out.stale_hardware_time_reads == 0,
        out.stale_hardware_time_warn_at == 8,
        out.stream_restarts == 0,
        out.stream_restart_log_at == 1,
{
}

/// Whether all but the anchor, the expected count and the last timestamp are as they were.
pub open spec fn same_apart_from_counting(a: SoapyIo, b: SoapyIo) -> bool {
    &&& b.rx == a.rx && b.tx == a.tx && b.use_get_hardware_time == a.use_get_hardware_time
    &&& b.last_hardware_time_ns == a.last_hardware_time_ns
    &&& b.stale_hardware_time_reads == a.stale_hardware_time_reads
    &&& b.stale_hardware_time_warn_at == a.stale_hardware_time_warn_at
    &&& b.stream_restarts == a.stream_restarts
    &&& b.stream_restart_log_at == a.stream_restart_log_at
}

/// A read has a timestamp where its time differs from the one before. The first timestamp fixes the
/// time of the sample with count zero, so that the read starts where it was expected; later ones
/// leave it. What is given back is the time since that sample.
pub proof fn first_timestamp_fixes_the_anchor(
    io: &mut SoapyIo,
    time: i64,
    next_count_ns: i64,
    elapsed: Option<i64>,
)
    requires
        i64::MIN <= time - next_count_ns <= i64::MAX,
        io.initial_time matches Some(initial) ==> i64::MIN <= time - initial <= i64::MAX,
        call_ensures(SoapyIo::stamp_read, (io, time, next_count_ns), elapsed),
    ensures
        elapsed is Some <==> time != old(io).prev_time_ns,
        final(io).prev_time_ns == time,
        old(io).initial_time is Some || elapsed is None ==> final(io).initial_time == old(
            io,
        ).initial_time,
        old(io).initial_time is None && elapsed is Some ==> final(io).initial_time is Some
            && final(io).initial_time->0 + next_count_ns == time,
        elapsed matches Some(since) ==> final(io).initial_time is Some
            && final(io).initial_time->0 + since == time,
        final(io).rx_next_count == old(io).rx_next_count,
        same_apart_from_counting(*old(io), *final(io)),
{
}

/// A read without timestamp, and one that is off by at most one sample, starts where it was
/// expected; any other starts where its timestamp says. The next one is expected right behind it.
/// Where the timestamp is off by one sample, the time of the sample with count zero moves by the
/// duration of that sample, and else it stays.
pub proof fn read_starts_where_expected_or_stamped(
    io: &mut SoapyIo,
    len: usize,
    time: i64,
    ticks: SampleCount,
    sample_ns: i64,
    back_ns: i64,
    out: RxResult,
)
    requires
        io.count_in_range(len, Some((time, ticks)), sample_ns, back_ns),
        call_ensures(
            SoapyIo::count_read,
            (io, len, Some((time, ticks)), sample_ns, back_ns),
            out,
        ),
    ensures
        ({
            let off = ticks - old(io).rx_next_count;
            &&& out.len == len
            &&& out.time_ns == Some(time)
            &&& -1 <= off <= 1 ==> out.count == old(io).rx_next_count
            &&& off < -1 || off > 1 ==> out.count == ticks
            &&& final(io).rx_next_count == out.count + len
            &&& old(io).initial_time matches Some(initial) ==> final(io).initial_time is Some
                && final(io).initial_time->0 == initial + if off == 1 {
                sample_ns as int
            } else if off == -1 {
                back_ns as int
            } else {
                0
            }
            &&& final(io).prev_time_ns == old(io).prev_time_ns
        }),
        same_apart_from_counting(*old(io), *final(io)),
{
}

/// A read without timestamp starts where it was expected, and the next one is expected right behind
/// it. Nothing else changes.
pub proof fn unstamped_read_continues(
    io: &mut SoapyIo,
    len: usize,
    sample_ns: i64,
    back_ns: i64,
    out: RxResult,
)
    requires
        io.count_in_range(len, None, sample_ns, back_ns),
        call_ensures(
            SoapyIo::count_read,
            (io, len, None::<(i64, SampleCount)>, sample_ns, back_ns),
            out,
        ),
    ensures
        out.len == len,
        out.time_ns is None,
        out.count == old(io).rx_next_count,
        final(io).rx_next_count == out.count + len,
        final(io).initial_time == old(io).initial_time,
        final(io).prev_time_ns == old(io).prev_time_ns,
        same_apart_from_counting(*old(io), *final(io)),
{
}

/// Without transmit stream nothing is sent, and before the first timestamp neither; the errors say
/// which, and the latter for which sample. Otherwise a block with a place in the stream is sent at
/// the time of that place, and one without a place at any time.
pub proof fn blocks_are_sent_at_their_time(
    io: &SoapyIo,
    count: Option<SampleCount>,
    count_ns: i64,
    out: Result<Option<i64>, RxTxDevError>,
)
    requires
        io.initial_time matches Some(initial) ==> i64::MIN <= initial + count_ns <= i64::MAX,
        call_ensures(SoapyIo::transmit_time, (io, count, count_ns), out),
    ensures
        !io.tx ==> (out matches Err(e) && (e matches RxTxDevError::SoapyStreamError {
            direction: d,
            code: c,
            operation: o,
            message: m,
        } && d == RxTxDirection::Tx && c == SoapyStreamErrorCode::NotSupported && o@
            == "write stream"@ && m@ == "TX stream is disabled"@)),
        io.tx && io.initial_time is None ==> (out matches Err(e) && (e matches RxTxDevError::LateTx {
            target_sample: t,
            current_sample: c,
            min_headroom_samples: h,
            message: m,
        } && c == 0 && h == 0 && (count matches Some(wanted) ==> t == wanted) && (count is None ==> t
            == 0) && m@ == "TX requested before RX timestamp established"@)),
        io.tx && io.initial_time is Some ==> out is Ok && (out->Ok_0 is Some <==> count is Some) && (
        out->Ok_0 matches Some(t) ==> t == io.initial_time->0 + count_ns),
{
}

/// Whether all but what is noted of hardware times is as it was.
pub open spec fn same_apart_from_times(a: SoapyIo, b: SoapyIo) -> bool {
    &&& b.rx == a.rx && b.tx == a.tx && b.use_get_hardware_time == a.use_get_hardware_time
    &&& b.initial_time == a.initial_time
    &&& b.rx_next_count == a.rx_next_count
    &&& b.prev_time_ns == a.prev_time_ns
    &&& b.stream_restarts == a.stream_restarts
    &&& b.stream_restart_log_at == a.stream_restart_log_at
}

/// A reading of the hardware time is given back as it is. One that differs from the one before
/// starts the count of unchanged readings anew; one that does not is counted, and warned of where
/// the count has come to the next warning, which is then due at twice the number. A reading that
/// failed is given back as an error of the device and changes nothing.
pub proof fn unchanged_times_are_warned_of(
    io: &mut SoapyIo,
    time: i64,
    out: (Result<i64, RxTxDevError>, bool),
    other: &mut SoapyIo,
    code: SoapyStreamErrorCode,
    message: String,
    failed: (Result<i64, RxTxDevError>, bool),
)
    requires
        call_ensures(
            SoapyIo::current_time,
            (io, Ok::<i64, (SoapyStreamErrorCode, String)>(time)),
            out,
        ),
        call_ensures(
            SoapyIo::current_time,
            (other, Err::<i64, (SoapyStreamErrorCode, String)>((code, message))),
            failed,
        ),
    ensures
        out.0 == Ok::<i64, RxTxDevError>(time),
        final(io).last_hardware_time_ns == Some(time),
        old(io).last_hardware_time_ns != Some(time) ==> !out.1
            && final(io).stale_hardware_time_reads == 0
            && final(io).stale_hardware_time_warn_at == 8,
        old(io).last_hardware_time_ns == Some(time) ==> {
            &&& final(io).stale_hardware_time_reads == at_most(
                old(io).stale_hardware_time_reads + 1,
                u64::MAX as int,
            )
            &&& out.1 <==> final(io).stale_hardware_time_reads >= old(io).stale_hardware_time_warn_at
            &&& !out.1 ==> final(io).stale_hardware_time_warn_at == old(
                io,
            ).stale_hardware_time_warn_at
            &&& out.1 && old(io).stale_hardware_time_warn_at > 0
                ==> final(io).stale_hardware_time_warn_at == at_most(
                2 * old(io).stale_hardware_time_warn_at,
                u64::MAX as int,
            )
            &&& out.1 && old(io).stale_hardware_time_warn_at == 0
                ==> final(io).stale_hardware_time_warn_at == 1
        },
        same_apart_from_times(*old(io), *final(io)),
        *final(other) == *old(other),
        !failed.1,
        failed.0 matches Err(e) && (e matches RxTxDevError::SoapyStreamError {
            direction: d,
            code: c,
            operation: o,
            message: m,
        } && d == RxTxDirection::Device && c == code && o@ == "get hardware time"@ && m@
            == message@),
{
}

/// Whether all but what is noted of restarts is as it was.
pub open spec fn same_apart_from_restarts(a: SoapyIo, b: SoapyIo) -> bool {
    &&& b.rx == a.rx && b.tx == a.tx && b.use_get_hardware_time == a.use_get_hardware_time
    &&& b.initial_time == a.initial_time
    &&& b.rx_next_count == a.rx_next_count
    &&& b.prev_time_ns == a.prev_time_ns
    &&& b.last_hardware_time_ns == a.last_hardware_time_ns
    &&& b.stale_hardware_time_reads == a.stale_hardware_time_reads
    &&& b.stale_hardware_time_warn_at == a.stale_hardware_time_warn_at
}

/// Every restart is counted. It is reported where the count has come to the next report, which is
/// then due at twice the number. Nothing else changes.
pub proof fn restarts_are_reported_less_and_less(io: &mut SoapyIo, log: bool)
    requires
        call_ensures(SoapyIo::note_restart, (io,), log),
    ensures
        final(io).stream_restarts == at_most(old(io).stream_restarts + 1, u64::MAX as int),
        log <==> final(io).stream_restarts >= old(io).stream_restart_log_at,
        !log ==> final(io).stream_restart_log_at == old(io).stream_restart_log_at,
        log && old(io).stream_restart_log_at > 0 ==> final(io).stream_restart_log_at == at_most(
            2 * old(io).stream_restart_log_at,
            u64::MAX as int,
        ),
        log && old(io).stream_restart_log_at == 0 ==> final(io).stream_restart_log_at == 1,
        same_apart_from_restarts(*old(io), *final(io)),
{
}

/// A read is given back as it ended: without receive stream with an error, one that succeeded as it
/// is, one that failed with an error of the receive side that holds its code and words. The stream
/// is restarted just after an error that asks for it; that restart is counted, and no other.
pub proof fn reads_end_as_the_device_says(
    io: &mut SoapyIo,
    read: Result<RxResult, (SoapyStreamErrorCode, String)>,
    out: Outcome<RxResult>,
    noted: &mut SoapyIo,
    log: bool,
)
    requires
        call_ensures(SoapyIo::receive, (io, read), out),
        *noted == *io,
        call_ensures(SoapyIo::note_restart, (noted,), log),
    ensures
        !old(io).rx ==> out.result == Err::<RxResult, RxTxDevError>(RxTxDevError::RxReadError)
            && !out.restart,
        old(io).rx && read is Ok ==> out.result is Ok && out.result->Ok_0 == read->Ok_0
            && !out.restart,
        old(io).rx && read is Err ==> {
            let code = read->Err_0.0;
            &&& out.result matches Err(e) && (e matches RxTxDevError::SoapyStreamError {
                direction: d,
                code: c,
                operation: o,
                message: m,
            } && d == RxTxDirection::Rx && c == code && o@ == "read stream"@ && m@
                == read->Err_0.1@)
            &&& out.restart <==> code == SoapyStreamErrorCode::StreamError || code
                == SoapyStreamErrorCode::Corruption || code == SoapyStreamErrorCode::Overflow || code
                == SoapyStreamErrorCode::TimeError || code == SoapyStreamErrorCode::Underflow
        },
        !out.restart ==> *final(io) == *old(io) && !out.log_restart,
        out.restart ==> *final(io) == *final(noted) && out.log_restart == log,
{
}

/// A write is given back as it ended: one that was not tried with its error, one that was refused
/// with an error of the transmit side that holds code and words, and one that was done by its
/// status. The stream is restarted just after an error that asks for it; that restart is counted,
/// and no other.
pub proof fn writes_end_as_the_device_says(
    io: &mut SoapyIo,
    write: WriteEnd,
    out: Outcome<()>,
    noted: &mut SoapyIo,
    log: bool,
    status: Result<(), RxTxDevError>,
    restart: bool,
)
    requires
        call_ensures(SoapyIo::transmit, (io, write), out),
        *noted == *io,
        call_ensures(SoapyIo::note_restart, (noted,), log),
        write matches WriteEnd::Written(failure) ==> call_ensures(
            check_tx_status,
            (failure,),
            status,
        ),
        out.result matches Err(e) ==> call_ensures(soapy_error_needs_restart, (&e,), restart),
    ensures
        write matches WriteEnd::NotTried(err) ==> (out.result matches Err(e) && e@ == err@),
        write matches WriteEnd::Failed(code, message) ==> (out.result matches Err(e) && (
        e matches RxTxDevError::SoapyStreamError { direction: d, code: c, operation: o, message: m }
            && d == RxTxDirection::Tx && c == code && o@ == "write stream"@ && m@ == message@)),
        write is Written ==> dev_result(out.result) == dev_result(status),
        out.result is Ok ==> !out.restart,
        out.result is Err ==> out.restart == restart,
        !out.restart ==> *final(io) == *old(io) && !out.log_restart,
        out.restart ==> *final(io) == *final(noted) && out.log_restart == log,
{
}

/// A stream can be restarted where there is one. The reasons why not name the missing stream.
pub proof fn streams_that_exist_are_restarted(
    io: &SoapyIo,
    rx: Result<(), &'static str>,
    tx: Result<(), &'static str>,
    device: Result<(), &'static str>,
)
    requires
        call_ensures(SoapyIo::restart_target, (io, RxTxDirection::Rx), rx),
        call_ensures(SoapyIo::restart_target, (io, RxTxDirection::Tx), tx),
        call_ensures(SoapyIo::restart_target, (io, RxTxDirection::Device), device),
    ensures
        rx is Ok <==> io.rx,
        tx is Ok <==> io.tx,
        rx matches Err(e) ==> e@ == "RX stream is disabled"@,
        tx matches Err(e) ==> e@ == "TX stream is disabled"@,
        device matches Err(e) && e@ == "device direction has no stream to restart"@,
{
}

/// The current count of a stream that does not exist is zero. Of one that exists it is the hardware
/// time since the sample with count zero, or since the beginning before that is known; without
/// hardware time it is the count of the last sample read. Sending is possible with a transmit
/// stream and a known time.
pub proof fn current_counts_come_from_the_clock_or_the_last_read(
    io: &SoapyIo,
    rx: CountSource,
    tx: CountSource,
    possible: bool,
    has_rx: bool,
    has_tx: bool,
)
    requires
        io.rx_next_count > i64::MIN,
        call_ensures(SoapyIo::rx_current_count, (io,), rx),
        call_ensures(SoapyIo::tx_current_count, (io,), tx),
        call_ensures(SoapyIo::tx_possible, (io,), possible),
        call_ensures(SoapyIo::rx_enabled, (io,), has_rx),
        call_ensures(SoapyIo::tx_enabled, (io,), has_tx),
    ensures
        has_rx == io.rx,
        has_tx == io.tx,
        possible <==> io.tx && io.initial_time is Some,
        !io.rx ==> rx == CountSource::Known(0),
        !io.tx ==> tx == CountSource::Known(0),
        io.rx && io.tx ==> rx == tx,
        io.rx && io.use_get_hardware_time && io.initial_time is Some ==> rx
            == CountSource::HardwareTimeSince(io.initial_time->0),
        io.rx && io.use_get_hardware_time && io.initial_time is None ==> rx
            == CountSource::HardwareTimeSince(0),
        io.rx && !io.use_get_hardware_time ==> (rx matches CountSource::Known(n) && n + 1
            == io.rx_next_count),
        io.tx && io.use_get_hardware_time && io.initial_time is Some ==> tx
            == CountSource::HardwareTimeSince(io.initial_time->0),
        io.tx && io.use_get_hardware_time && io.initial_time is None ==> tx
            == CountSource::HardwareTimeSince(0),
        io.tx && !io.use_get_hardware_time ==> (tx matches CountSource::Known(n) && n + 1
            == io.rx_next_count),
{
}

/// Times and counts can be reckoned with just where what is worked out of them can be held.
pub proof fn times_are_refused_where_they_run_over(
    io: &SoapyIo,
    time: i64,
    next_count_ns: i64,
    stamp: bool,
    len: usize,
    ticks: SampleCount,
    sample_ns: i64,
    back_ns: i64,
    stamped: bool,
    unstamped: bool,
    count: Option<SampleCount>,
    count_ns: i64,
    send: bool,
)
    requires
        call_ensures(SoapyIo::can_stamp, (io, time, next_count_ns), stamp),
        call_ensures(
            SoapyIo::can_count,
            (io, len, Some((time, ticks)), sample_ns, back_ns),
            stamped,
        ),
        call_ensures(
            SoapyIo::can_count,
            (io, len, None::<(i64, SampleCount)>, sample_ns, back_ns),
            unstamped,
        ),
        call_ensures(SoapyIo::can_transmit, (io, count, count_ns), send),
    ensures
        stamp <==> time == io.prev_time_ns || (match io.initial_time {
            None => i64::MIN <= time - next_count_ns <= i64::MAX,
            Some(initial) => i64::MIN <= time - initial <= i64::MAX,
        }),
        unstamped <==> len <= i64::MAX && io.rx_next_count + len <= i64::MAX,
        stamped <==> {
            let off = ticks - io.rx_next_count;
            let start = if -1 <= off <= 1 {
                io.rx_next_count
            } else {
                ticks
            };
            &&& len <= i64::MAX && start + len <= i64::MAX
            &&& io.initial_time is Some
            &&& i64::MIN < off <= i64::MAX
            &&& off == 1 ==> i64::MIN <= io.initial_time->0 + sample_ns <= i64::MAX
            &&& off == -1 ==> i64::MIN <= io.initial_time->0 + back_ns <= i64::MAX
        },
        send <==> (io.tx && count is Some ==> (io.initial_time matches Some(initial) ==> i64::MIN
            <= initial + count_ns <= i64::MAX)),
{
}

} // verus!
