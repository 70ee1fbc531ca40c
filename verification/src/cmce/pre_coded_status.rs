//! Pre-coded status values.
use crate::number::{decimal, decimal_of};
use vstd::prelude::*;
use vstd::std_specs::convert::FromSpecImpl;
use vstd::string::*;

verus! {

/// What a short report says of a message.
#[derive(Debug, Clone, Copy, PartialEq, Eq, Structural)]
pub enum ShortReportType {
    ProtocolNotSupported,
    DestinationMemoryFull,
    MessageReceived,
    MessageConsumed,
}

/// A short report of the short data service: its type, and the reference of the message that it
/// reports on. In a status value it stands behind a fixed prefix of six bits.
#[derive(Debug, Clone, Copy, PartialEq, Eq, Structural)]
pub struct SdsShortReport {
    pub report_type: ShortReportType,
    pub message_reference: u8,
}

/// The first status value that holds a short report.
pub const SDS_SHORT_REPORT_FIRST: u16 = 0x7c00;

/// The last status value that holds a short report.
pub const SDS_SHORT_REPORT_LAST: u16 = 0x7fff;

pub open spec fn report_type_code(t: ShortReportType) -> int {
    match t {
        ShortReportType::ProtocolNotSupported => 0,
        ShortReportType::DestinationMemoryFull => 1,
        ShortReportType::MessageReceived => 2,
        ShortReportType::MessageConsumed => 3,
    }
}

pub open spec fn report_type_of(code: int) -> ShortReportType {
    if code == 0 {
        ShortReportType::ProtocolNotSupported
    } else if code == 1 {
        ShortReportType::DestinationMemoryFull
    } else if code == 2 {
        ShortReportType::MessageReceived
    } else {
        ShortReportType::MessageConsumed
    }
}

/// The short report in a status value, where it has the prefix of one.
pub open spec fn short_report(x: u16) -> Option<SdsShortReport> {
    if SDS_SHORT_REPORT_FIRST <= x <= SDS_SHORT_REPORT_LAST {
        let body = x - SDS_SHORT_REPORT_FIRST;
        Some(
            SdsShortReport {
                report_type: report_type_of(body / 256),
                message_reference: (body % 256) as u8,
            },
        )
    } else {
        None
    }
}

/// The status value of a short report.
pub open spec fn short_report_raw(r: SdsShortReport) -> u16 {
    (SDS_SHORT_REPORT_FIRST + report_type_code(r.report_type) * 256 + r.message_reference) as u16
}

impl SdsShortReport {
    /// The short report in a status value.
    pub fn from_u16(x: u16) -> (out: Option<SdsShortReport>)
        ensures
            out == short_report(x),
    {
        if x < SDS_SHORT_REPORT_FIRST || x > SDS_SHORT_REPORT_LAST {
            return None;
        }
        let body: u16 = x - SDS_SHORT_REPORT_FIRST;
        let code: u16 = body / 256;
        let report_type = if code == 0 {
            ShortReportType::ProtocolNotSupported
        } else if code == 1 {
            ShortReportType::DestinationMemoryFull
        } else if code == 2 {
            ShortReportType::MessageReceived
        } else {
            ShortReportType::MessageConsumed
        };
        Some(SdsShortReport { report_type, message_reference: (body % 256) as u8 })
    }

    /// The status value of the report.
    pub fn to_u16(self) -> (out: u16)
        ensures
            out == short_report_raw(self),
    {
        let code: u16 = match self.report_type {
            ShortReportType::ProtocolNotSupported => 0,
            ShortReportType::DestinationMemoryFull => 1,
            ShortReportType::MessageReceived => 2,
            ShortReportType::MessageConsumed => 3,
        };
        SDS_SHORT_REPORT_FIRST + code * 256 + self.message_reference as u16
    }
}

/// A pre-coded status: general purpose status messages that are known to all TETRA systems, and
/// the short reports of the short data service.
#[derive(Debug, Clone, Copy, PartialEq, Eq, Structural)]
pub enum PreCodedStatus {
    Emergency,
    Reserved(u16),
    SdsTl(SdsShortReport),
    NetworkUserSpecific(u16),
}

/// The status that a raw value stands for.
pub open spec fn status_of(x: u16) -> PreCodedStatus {
    if x == 0 {
        PreCodedStatus::Emergency
    } else if x >= 0x8000 {
        PreCodedStatus::NetworkUserSpecific(x)
    } else {
        match short_report(x) {
            Some(report) => PreCodedStatus::SdsTl(report),
            None => PreCodedStatus::Reserved(x),
        }
    }
}

/// The raw value of a status.
pub open spec fn status_raw(s: PreCodedStatus) -> u16 {
    match s {
        PreCodedStatus::Emergency => 0,
        PreCodedStatus::Reserved(x) => x,
        PreCodedStatus::SdsTl(report) => short_report_raw(report),
        PreCodedStatus::NetworkUserSpecific(x) => x,
    }
}

impl FromSpecImpl<u16> for PreCodedStatus {
    open spec fn obeys_from_spec() -> bool {
        true
    }

    open spec fn from_spec(x: u16) -> PreCodedStatus {
        status_of(x)
    }
}

impl From<u16> for PreCodedStatus {
    fn from(x: u16) -> (out: PreCodedStatus) {
        if x == 0 {
            PreCodedStatus::Emergency
        } else if x >= 0x8000 {
            PreCodedStatus::NetworkUserSpecific(x)
        } else {
            match SdsShortReport::from_u16(x) {
                Some(report) => PreCodedStatus::SdsTl(report),
                None => PreCodedStatus::Reserved(x),
            }
        }
    }
}

impl FromSpecImpl<PreCodedStatus> for u16 {
    open spec fn obeys_from_spec() -> bool {
        true
    }

    open spec fn from_spec(s: PreCodedStatus) -> u16 {
        status_raw(s)
    }
}

impl From<PreCodedStatus> for u16 {
    fn from(s: PreCodedStatus) -> (out: u16) {
        s.into_raw()
    }
}

/// The text of a status. `report` is the text of a short report that it holds.
pub open spec fn status_text(s: PreCodedStatus, report: Seq<char>) -> Seq<char> {
    match s {
        PreCodedStatus::Emergency => "Emergency"@,
        PreCodedStatus::Reserved(x) => "Reserved("@ + decimal(x as nat) + ")"@,
        PreCodedStatus::SdsTl(_) => "SdsTl("@ + report + ")"@,
        PreCodedStatus::NetworkUserSpecific(x) => "NetworkUserSpecific("@ + decimal(x as nat)
            + ")"@,
    }
}

impl PreCodedStatus {
    /// The raw value of this status.
    pub fn into_raw(self) -> (out: u16)
        ensures
            out == status_raw(self),
    {
        match self {
            PreCodedStatus::Emergency => 0,
            PreCodedStatus::Reserved(x) => x,
            PreCodedStatus::SdsTl(report) => report.to_u16(),
            PreCodedStatus::NetworkUserSpecific(x) => x,
        }
    }

    /// The text of this status. `report` is the text of a short report that it holds.
    pub fn to_text(&self, report: &str) -> (out: String)
        ensures
            out@ == status_text(*self, report@),
    {
        match self {
            PreCodedStatus::Emergency => "Emergency".to_owned(),
            PreCodedStatus::Reserved(x) => {
                let mut out = "Reserved(".to_owned();
                out.append(decimal_of(*x as u128).as_str());
                out.append(")");
                out
            },
            PreCodedStatus::SdsTl(_) => {
                let mut out = "SdsTl(".to_owned();
                out.append(report);
                out.append(")");
                out
            },
            PreCodedStatus::NetworkUserSpecific(x) => {
                let mut out = "NetworkUserSpecific(".to_owned();
                out.append(decimal_of(*x as u128).as_str());
                out.append(")");
                out
            },
        }
    }
}

// ---------------------------------------------------------------------------------------------
// Laws
// ---------------------------------------------------------------------------------------------
/// Every raw value stands for a status whose raw value it is.
pub proof fn raw_values_round_trip(x: u16)
    ensures
        status_raw(status_of(x)) == x,
{
    if SDS_SHORT_REPORT_FIRST <= x <= SDS_SHORT_REPORT_LAST {
        let body = x - SDS_SHORT_REPORT_FIRST;
        assert(0 <= body / 256 <= 3);
        assert(body == (body / 256) * 256 + body % 256);
    }
}

/// Two raw values never stand for the same status.
pub proof fn raw_values_are_distinct(x: u16, y: u16)
    requires
        status_of(x) == status_of(y),
    ensures
        x == y,
{
    raw_values_round_trip(x);
    raw_values_round_trip(y);
}

/// Every short report comes back from its status value.
pub proof fn short_reports_round_trip(r: SdsShortReport)
    ensures
        short_report(short_report_raw(r)) == Some(r),
        status_of(short_report_raw(r)) == PreCodedStatus::SdsTl(r),
{
    let body = report_type_code(r.report_type) * 256 + r.message_reference;
    assert(body / 256 == report_type_code(r.report_type));
    assert(body % 256 == r.message_reference);
}

// ---------------------------------------------------------------------------------------------
// Laws of the operations
// ---------------------------------------------------------------------------------------------
/// Status values from 0x7c00 to 0x7fff hold a short report: the lowest eight bits are the reference
/// of the message, the two above them the type.
pub proof fn short_reports_are_found_by_their_prefix(x: u16, out: Option<SdsShortReport>)
    requires
        call_ensures(SdsShortReport::from_u16, (x,), out),
    ensures
        out is Some <==> 0x7c00 <= x <= 0x7fff,
        out matches Some(report) ==> {
            &&& report.message_reference == x % 256
            &&& report.report_type == ShortReportType::ProtocolNotSupported <==> x / 256 == 0x7c
            &&& report.report_type == ShortReportType::DestinationMemoryFull <==> x / 256 == 0x7d
            &&& report.report_type == ShortReportType::MessageReceived <==> x / 256 == 0x7e
            &&& report.report_type == ShortReportType::MessageConsumed <==> x / 256 == 0x7f
        },
{
    if 0x7c00 <= x <= 0x7fff {
        let body = x - 0x7c00;
        assert(body / 256 + 0x7c == x / 256 && body % 256 == x % 256);
    }
}

/// The status value of a short report has the prefix of one, with type and reference behind it.
pub proof fn short_reports_have_their_values(report: SdsShortReport, out: u16)
    requires
        call_ensures(SdsShortReport::to_u16, (report,), out),
    ensures
        out % 256 == report.message_reference,
        out / 256 == match report.report_type {
            ShortReportType::ProtocolNotSupported => 0x7cu16,
            ShortReportType::DestinationMemoryFull => 0x7d,
            ShortReportType::MessageReceived => 0x7e,
            ShortReportType::MessageConsumed => 0x7f,
        },
{
}

/// The value zero is an emergency, values from 0x8000 on are for users of the network, those with
/// the prefix of short reports hold one, and all others are reserved. From each the value comes
/// back.
pub proof fn status_values_are_told_apart(
    x: u16,
    out: PreCodedStatus,
    report: Option<SdsShortReport>,
    raw: u16,
    converted: u16,
)
    requires
        call_ensures(<PreCodedStatus as From<u16>>::from, (x,), out),
        call_ensures(SdsShortReport::from_u16, (x,), report),
        call_ensures(PreCodedStatus::into_raw, (out,), raw),
        call_ensures(<u16 as From<PreCodedStatus>>::from, (out,), converted),
    ensures
        x == 0 ==> out == PreCodedStatus::Emergency,
        x >= 0x8000 ==> out == PreCodedStatus::NetworkUserSpecific(x),
        0x7c00 <= x <= 0x7fff ==> report is Some && out == PreCodedStatus::SdsTl(report->0),
        0 < x < 0x7c00 ==> out == PreCodedStatus::Reserved(x),
        raw == x,
        converted == x,
{
    raw_values_round_trip(x);
}

/// The raw value of a status is the value that it holds, that of its short report, or zero for an
/// emergency.
pub proof fn every_status_has_its_value(
    status: PreCodedStatus,
    out: u16,
    report: SdsShortReport,
    value: u16,
)
    requires
        call_ensures(PreCodedStatus::into_raw, (status,), out),
        call_ensures(SdsShortReport::to_u16, (report,), value),
    ensures
        status == PreCodedStatus::Emergency ==> out == 0,
        status matches PreCodedStatus::Reserved(x) ==> out == x,
        status matches PreCodedStatus::NetworkUserSpecific(x) ==> out == x,
        status == PreCodedStatus::SdsTl(report) ==> out == value,
{
}

/// A status is written by its name, with the value or the report that it holds in brackets.
pub proof fn every_status_is_written_by_its_name(
    status: &PreCodedStatus,
    report: &str,
    out: String,
)
    requires
        call_ensures(PreCodedStatus::to_text, (status, report), out),
    ensures
        *status is Emergency ==> out@ == "Emergency"@,
        *status matches PreCodedStatus::Reserved(x) ==> out@ == "Reserved("@ + decimal(x as nat)
            + ")"@,
        *status is SdsTl ==> out@ == "SdsTl("@ + report@ + ")"@,
        *status matches PreCodedStatus::NetworkUserSpecific(x) ==> out@ == "NetworkUserSpecific("@
            + decimal(x as nat) + ")"@,
{
}

} // verus!
