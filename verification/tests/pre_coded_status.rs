use flowstation::cmce::pre_coded_status::{PreCodedStatus, SdsShortReport, ShortReportType};

#[test]
fn parses_all_raw_values_without_panic() {
    for raw in 0..=u16::MAX {
        let _ = PreCodedStatus::from(raw);
    }
}

#[test]
fn invalid_sds_tl_prefix_is_reserved() {
    assert_eq!(PreCodedStatus::from(31743), PreCodedStatus::Reserved(31743));
}

#[test]
fn raw_values_come_back() {
    for raw in 0..=u16::MAX {
        assert_eq!(PreCodedStatus::from(raw).into_raw(), raw);
        assert_eq!(u16::from(PreCodedStatus::from(raw)), raw);
    }
}

#[test]
fn raw_values_have_their_kinds() {
    assert_eq!(PreCodedStatus::from(0), PreCodedStatus::Emergency);
    assert_eq!(PreCodedStatus::from(1), PreCodedStatus::Reserved(1));
    assert_eq!(
        PreCodedStatus::from(0x7e05),
        PreCodedStatus::SdsTl(SdsShortReport {
            report_type: ShortReportType::MessageReceived,
            message_reference: 5
        })
    );
    assert_eq!(PreCodedStatus::from(32768), PreCodedStatus::NetworkUserSpecific(32768));
    assert_eq!(PreCodedStatus::from(65535), PreCodedStatus::NetworkUserSpecific(65535));
}

#[test]
fn short_reports_come_back() {
    let report = SdsShortReport {
        report_type: ShortReportType::MessageConsumed,
        message_reference: 255,
    };
    assert_eq!(report.to_u16(), 0x7fff);
    assert_eq!(SdsShortReport::from_u16(0x7fff), Some(report));
    assert_eq!(SdsShortReport::from_u16(0x7bff), None);
    assert_eq!(SdsShortReport::from_u16(0x8000), None);
}

#[test]
fn statuses_have_texts() {
    assert_eq!(PreCodedStatus::Emergency.to_text(""), "Emergency");
    assert_eq!(PreCodedStatus::Reserved(31743).to_text(""), "Reserved(31743)");
    assert_eq!(PreCodedStatus::from(0x7c00).to_text("r"), "SdsTl(r)");
    assert_eq!(
        PreCodedStatus::NetworkUserSpecific(40000).to_text(""),
        "NetworkUserSpecific(40000)"
    );
}
