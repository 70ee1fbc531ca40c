//! Errors and timing metadata of a radio device that works with full slots.
use crate::number::{signed_decimal, signed_decimal_of};
use vstd::prelude::*;
use vstd::string::*;

verus! {

/// Sample counter of the radio device.
pub type SampleCount = i64;

/// Counter of processing blocks.
pub type BlockCount = i64;

#[derive(Debug, PartialEq, Eq, Clone, Copy, Structural)]
pub enum RxTxDirection {
    Rx,
    Tx,
    Device,
}

#[derive(Debug, PartialEq, Eq, Clone, Copy, Structural)]
pub enum SoapyStreamErrorCode {
    Timeout,
    StreamError,
    Corruption,
    Overflow,
    NotSupported,
    TimeError,
    Underflow,
    Other,
}

#[derive(Debug, PartialEq, Eq, Clone)]
pub enum RxTxDevError {
    RxEndOfData,
    RxReadError,
    SoapyStreamError {
        direction: RxTxDirection,
        code: SoapyStreamErrorCode,
        operation: &'static str,
        message: String,
    },
    LateTx {
        target_sample: i64,
        current_sample: i64,
        min_headroom_samples: i64,
        message: String,
    },
}

/// What an error of the device says, with its texts as character sequences.
pub ghost enum DevErrorView {
    RxEndOfData,
    RxReadError,
    SoapyStreamError {
        direction: RxTxDirection,
        code: SoapyStreamErrorCode,
        operation: Seq<char>,
        message: Seq<char>,
    },
    LateTx {
        target_sample: i64,
        current_sample: i64,
        min_headroom_samples: i64,
        message: Seq<char>,
    },
}

impl View for RxTxDevError {
    type V = DevErrorView;

    open spec fn view(&self) -> DevErrorView {
        match *self {
            RxTxDevError::RxEndOfData => DevErrorView::RxEndOfData,
            RxTxDevError::RxReadError => DevErrorView::RxReadError,
            RxTxDevError::SoapyStreamError { direction, code, operation, message } => {
                DevErrorView::SoapyStreamError {
                    direction,
                    code,
                    operation: operation@,
                    message: message@,
                }
            },
            RxTxDevError::LateTx { target_sample, current_sample, min_headroom_samples, message } => {
                DevErrorView::LateTx {
                    target_sample,
                    current_sample,
                    min_headroom_samples,
                    message: message@,
                }
            },
        }
    }
}

/// A result whose error is taken by its view.
pub open spec fn dev_result<T>(r: Result<T, RxTxDevError>) -> Result<T, DevErrorView> {
    match r {
        Ok(value) => Ok(value),
        Err(e) => Err(e@),
    }
}

/// The name of a direction.
pub open spec fn direction_name(direction: RxTxDirection) -> Seq<char> {
    match direction {
        RxTxDirection::Rx => "Rx"@,
        RxTxDirection::Tx => "Tx"@,
        RxTxDirection::Device => "Device"@,
    }
}

/// The name of a stream error code.
pub open spec fn code_name(code: SoapyStreamErrorCode) -> Seq<char> {
    match code {
        SoapyStreamErrorCode::Timeout => "Timeout"@,
        SoapyStreamErrorCode::StreamError => "StreamError"@,
        SoapyStreamErrorCode::Corruption => "Corruption"@,
        SoapyStreamErrorCode::Overflow => "Overflow"@,
        SoapyStreamErrorCode::NotSupported => "NotSupported"@,
        SoapyStreamErrorCode::TimeError => "TimeError"@,
        SoapyStreamErrorCode::Underflow => "Underflow"@,
        SoapyStreamErrorCode::Other => "Other"@,
    }
}

/// The text that reports an error of the device.
pub open spec fn error_text(e: DevErrorView) -> Seq<char> {
    match e {
        DevErrorView::RxEndOfData => "RX end of data"@,
        DevErrorView::RxReadError => "RX read error"@,
        DevErrorView::SoapyStreamError { direction, code, operation, message } => "SoapySDR "@
            + direction_name(direction) + " "@ + operation + " failed with "@ + code_name(code)
            + ": "@ + message,
        DevErrorView::LateTx { target_sample, current_sample, min_headroom_samples, message } =>
        "late TX target_sample="@ + signed_decimal(target_sample as int) + " current_sample="@
            + signed_decimal(current_sample as int) + " min_headroom_samples="@ + signed_decimal(
            min_headroom_samples as int,
        ) + ": "@ + message,
    }
}

impl RxTxDirection {
    fn name(self) -> (out: &'static str)
        ensures
            out@ == direction_name(self),
    {
        match self {
            RxTxDirection::Rx => "Rx",
            RxTxDirection::Tx => "Tx",
            RxTxDirection::Device => "Device",
        }
    }
}

impl SoapyStreamErrorCode {
    fn name(self) -> (out: &'static str)
        ensures
            out@ == code_name(self),
    {
        match self {
            SoapyStreamErrorCode::Timeout => "Timeout",
            SoapyStreamErrorCode::StreamError => "StreamError",
            SoapyStreamErrorCode::Corruption => "Corruption",
            SoapyStreamErrorCode::Overflow => "Overflow",
            SoapyStreamErrorCode::NotSupported => "NotSupported",
            SoapyStreamErrorCode::TimeError => "TimeError",
            SoapyStreamErrorCode::Underflow => "Underflow",
            SoapyStreamErrorCode::Other => "Other",
        }
    }
}

impl RxTxDevError {
    /// The text that reports this error.
    pub fn to_text(&self) -> (out: String)
        ensures
            out@ == error_text(self@),
    {
        match self {
            RxTxDevError::RxEndOfData => "RX end of data".to_owned(),
            RxTxDevError::RxReadError => "RX read error".to_owned(),
            RxTxDevError::SoapyStreamError { direction, code, operation, message } => {
                let mut out = "SoapySDR ".to_owned();
                out.append(direction.name());
                out.append(" ");
                out.append(operation);
                out.append(" failed with ");
                out.append(code.name());
                out.append(": ");
                out.append(message.as_str());
                out
            },
            RxTxDevError::LateTx { target_sample, current_sample, min_headroom_samples, message } => {
                let mut out = "late TX target_sample=".to_owned();
                out.append(signed_decimal_of(*target_sample).as_str());
                out.append(" current_sample=");
                out.append(signed_decimal_of(*current_sample).as_str());
                out.append(" min_headroom_samples=");
                out.append(signed_decimal_of(*min_headroom_samples).as_str());
                out.append(": ");
                out.append(message.as_str());
                out
            },
        }
    }
}

/// Whether an error is a receive timeout.
pub open spec fn is_rx_timeout(e: DevErrorView) -> bool {
    e matches DevErrorView::SoapyStreamError { direction, code, .. } && direction
        == RxTxDirection::Rx && code == SoapyStreamErrorCode::Timeout
}

/// Whether an error is a receive timeout.
pub fn rx_timeout(err: &RxTxDevError) -> (r: bool)
    ensures
        r == is_rx_timeout(err@),
{
    match err {
        RxTxDevError::SoapyStreamError { direction, code, .. } => {
            *direction == RxTxDirection::Rx && *code == SoapyStreamErrorCode::Timeout
        },
        _ => false,
    }
}

/// The error of a failed stream operation.
pub fn soapy_error(
    direction: RxTxDirection,
    operation: &'static str,
    code: SoapyStreamErrorCode,
    message: String,
) -> (out: RxTxDevError)
    ensures
        out@ == (DevErrorView::SoapyStreamError {
            direction,
            code,
            operation: operation@,
            message: message@,
        }),
{
    RxTxDevError::SoapyStreamError { direction, code, operation, message }
}

/// Whether the stream has to be restarted after a stream error with this code: on all but
/// timeouts, unsupported operations and errors of unknown kind.
pub open spec fn code_needs_restart(code: SoapyStreamErrorCode) -> bool {
    match code {
        SoapyStreamErrorCode::Timeout => false,
        SoapyStreamErrorCode::NotSupported => false,
        SoapyStreamErrorCode::Other => false,
        _ => true,
    }
}

/// Whether the stream has to be restarted after this error.
pub open spec fn needs_restart(e: DevErrorView) -> bool {
    e matches DevErrorView::SoapyStreamError { code, .. } && code_needs_restart(code)
}

/// Whether the stream has to be restarted after this error.
pub fn soapy_error_needs_restart(err: &RxTxDevError) -> (r: bool)
    ensures
        r == needs_restart(err@),
{
    match err {
        RxTxDevError::SoapyStreamError { code, .. } => match *code {
            SoapyStreamErrorCode::Timeout => false,
            SoapyStreamErrorCode::NotSupported => false,
            SoapyStreamErrorCode::Other => false,
            _ => true,
        },
        _ => false,
    }
}

/// When a write is followed by a status query, the codes with which that query may fail and
/// the write still counts as done: no status was pending, or the device reports none.
pub open spec fn status_is_absent(code: SoapyStreamErrorCode) -> bool {
    code == SoapyStreamErrorCode::Timeout || code == SoapyStreamErrorCode::NotSupported
}

/// The outcome of a write whose status query ended with `failure`, or with a status where
/// there is none.
pub open spec fn status_outcome(failure: Option<(SoapyStreamErrorCode, String)>) -> Result<
    (),
    DevErrorView,
> {
    match failure {
        None => Ok(()),
        Some((code, message)) => if status_is_absent(code) {
            Ok(())
        } else {
            Err(
                DevErrorView::SoapyStreamError {
                    direction: RxTxDirection::Tx,
                    code,
                    operation: "read TX status"@,
                    message: message@,
                },
            )
        },
    }
}

/// The outcome of a write whose status query ended with `failure`, or with a status where
/// there is none.
pub fn check_tx_status(failure: Option<(SoapyStreamErrorCode, String)>) -> (out: Result<
    (),
    RxTxDevError,
>)
    ensures
        dev_result(out) == status_outcome(failure),
{
    match failure {
        None => Ok(()),
        Some((code, message)) => {
            if code == SoapyStreamErrorCode::Timeout || code == SoapyStreamErrorCode::NotSupported {
                Ok(())
            } else {
                Err(soapy_error(RxTxDirection::Tx, "read TX status", code, message))
            }
        },
    }
}

/// When and where in the sample stream received samples were taken.
#[derive(Debug, Clone, Copy)]
pub struct RxTiming {
    /// Hardware timestamp in nanoseconds of the first known sample, where it is known.
    pub time_ns: Option<i64>,
    /// Hardware sample counter of the first known sample, where it is known.
    pub sample_count: Option<i64>,
}

impl Default for RxTiming {
    fn default() -> (out: RxTiming)
        ensures
            out == (RxTiming { time_ns: None, sample_count: None }),
    {
        RxTiming { time_ns: None, sample_count: None }
    }
}

// ---------------------------------------------------------------------------------------------
// Laws
// ---------------------------------------------------------------------------------------------
/// A receive timeout is a stream error of the receive side with the code of a timeout, and nothing
/// else. The stream is restarted after all stream errors but timeouts, unsupported operations and
/// those of unknown kind, on whichever side they occur.
pub proof fn errors_are_told_apart(err: &RxTxDevError, timeout: bool, restart: bool)
    requires
        call_ensures(rx_timeout, (err,), timeout),
        call_ensures(soapy_error_needs_restart, (err,), restart),
    ensures
        err is RxEndOfData || err is RxReadError || err is LateTx ==> !timeout && !restart,
        *err matches RxTxDevError::SoapyStreamError { direction, code, .. } ==> {
            &&& timeout <==> direction == RxTxDirection::Rx && code == SoapyStreamErrorCode::Timeout
            &&& restart <==> code == SoapyStreamErrorCode::StreamError || code
                == SoapyStreamErrorCode::Corruption || code == SoapyStreamErrorCode::Overflow || code
                == SoapyStreamErrorCode::TimeError || code == SoapyStreamErrorCode::Underflow
        },
{
}

/// The error of a failed operation holds what it is made of, each in its place.
pub proof fn stream_error_holds_what_it_is_made_of(
    direction: RxTxDirection,
    operation: &'static str,
    code: SoapyStreamErrorCode,
    message: String,
    out: RxTxDevError,
)
    requires
        call_ensures(soapy_error, (direction, operation, code, message), out),
    ensures
        out matches RxTxDevError::SoapyStreamError { direction: d, code: c, operation: o, message: m }
            && d == direction && c == code && o@ == operation@ && m@ == message@,
{
}

/// A write counts as done where its status came, where none was pending and where the device
/// reports none. Any other failure of the status query is an error of the transmit side with its
/// code and words.
pub proof fn status_query_decides_on_a_write(
    code: SoapyStreamErrorCode,
    message: String,
    out: Result<(), RxTxDevError>,
    status: Result<(), RxTxDevError>,
)
    requires
        call_ensures(check_tx_status, (Some((code, message)),), out),
        call_ensures(check_tx_status, (None::<(SoapyStreamErrorCode, String)>,), status),
    ensures
        status is Ok,
        out is Ok <==> code == SoapyStreamErrorCode::Timeout || code
            == SoapyStreamErrorCode::NotSupported,
        out matches Err(e) ==> (e matches RxTxDevError::SoapyStreamError {
            direction: d,
            code: c,
            operation: o,
            message: m,
        } && d == RxTxDirection::Tx && c == code && o@ == "read TX status"@ && m@ == message@),
{
}

/// An error is reported with all that it holds, each in its place.
pub proof fn error_is_reported_with_all_it_holds(err: &RxTxDevError, out: String)
    requires
        call_ensures(RxTxDevError::to_text, (err,), out),
    ensures
        *err is RxEndOfData ==> out@ == "RX end of data"@,
        *err is RxReadError ==> out@ == "RX read error"@,
        *err matches RxTxDevError::SoapyStreamError { direction, code, operation, message }
            ==> out@ == "SoapySDR "@ + match direction {
            RxTxDirection::Rx => "Rx"@,
            RxTxDirection::Tx => "Tx"@,
            RxTxDirection::Device => "Device"@,
        } + " "@ + operation@ + " failed with "@ + match code {
            SoapyStreamErrorCode::Timeout => "Timeout"@,
            SoapyStreamErrorCode::StreamError => "StreamError"@,
            SoapyStreamErrorCode::Corruption => "Corruption"@,
            SoapyStreamErrorCode::Overflow => "Overflow"@,
            SoapyStreamErrorCode::NotSupported => "NotSupported"@,
            SoapyStreamErrorCode::TimeError => "TimeError"@,
            SoapyStreamErrorCode::Underflow => "Underflow"@,
            SoapyStreamErrorCode::Other => "Other"@,
        } + ": "@ + message@,
        *err matches RxTxDevError::LateTx {
            target_sample,
            current_sample,
            min_headroom_samples,
            message,
        } ==> out@ == "late TX target_sample="@ + signed_decimal(target_sample as int)
            + " current_sample="@ + signed_decimal(current_sample as int)
            + " min_headroom_samples="@ + signed_decimal(min_headroom_samples as int) + ": "@
            + message@,
{
}

/// In the beginning neither time nor count of received samples is known.
pub proof fn no_timing_is_known_at_first(timing: RxTiming)
    requires
        call_ensures(RxTiming::default, (), timing),
    ensures
        timing.time_ns is None,
        timing.sample_count is None,
{
}

/// Errors that look the same are of the same kind and hold the same, and so do results that look
/// the same.
pub proof fn error_is_known_by_its_view<T>(
    a: RxTxDevError,
    b: RxTxDevError,
    r: Result<T, RxTxDevError>,
    s: Result<T, RxTxDevError>,
)
    requires
        a@ == b@,
        dev_result(r) == dev_result(s),
    ensures
        a is RxEndOfData <==> b is RxEndOfData,
        a is RxReadError <==> b is RxReadError,
        a matches RxTxDevError::SoapyStreamError { direction, code, operation, message } ==> (
        b matches RxTxDevError::SoapyStreamError { direction: d, code: c, operation: o, message: m }
            && d == direction && c == code && o@ == operation@ && m@ == message@),
        a matches RxTxDevError::LateTx {
            target_sample,
            current_sample,
            min_headroom_samples,
            message,
        } ==> (b matches RxTxDevError::LateTx {
            target_sample: t,
            current_sample: c,
            min_headroom_samples: h,
            message: m,
        } && t == target_sample && c == current_sample && h == min_headroom_samples && m@
            == message@),
        r matches Ok(value) ==> s == Ok::<T, RxTxDevError>(value),
        r matches Err(e) ==> (s matches Err(f) && f@ == e@),
{
}

} // verus!
