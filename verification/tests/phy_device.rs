use flowstation::phy::counters::{
    should_log_low_rate, FaultReports, PhyTimingCounters, TurnReport,
};
use flowstation::phy::rxtx_dev::{
    check_tx_status, rx_timeout, soapy_error, soapy_error_needs_restart, RxTiming, RxTxDevError,
    RxTxDirection, SoapyStreamErrorCode,
};
use flowstation::phy::soapyio::{CountSource, RxResult, SoapyIo, WriteEnd};

fn stream_error(direction: RxTxDirection, code: SoapyStreamErrorCode) -> RxTxDevError {
    soapy_error(direction, "read stream", code, "why".to_string())
}

#[test]
fn errors_have_texts() {
    assert_eq!(RxTxDevError::RxEndOfData.to_text(), "RX end of data");
    assert_eq!(RxTxDevError::RxReadError.to_text(), "RX read error");
    assert_eq!(
        stream_error(RxTxDirection::Rx, SoapyStreamErrorCode::Overflow).to_text(),
        "SoapySDR Rx read stream failed with Overflow: why"
    );
    let late = RxTxDevError::LateTx {
        target_sample: -5,
        current_sample: 7,
        min_headroom_samples: 0,
        message: "m".to_string(),
    };
    assert_eq!(
        late.to_text(),
        "late TX target_sample=-5 current_sample=7 min_headroom_samples=0: m"
    );
}

#[test]
fn some_errors_need_a_restart() {
    let restart = [
        SoapyStreamErrorCode::StreamError,
        SoapyStreamErrorCode::Corruption,
        SoapyStreamErrorCode::Overflow,
        SoapyStreamErrorCode::TimeError,
        SoapyStreamErrorCode::Underflow,
    ];
    for code in restart {
        assert!(soapy_error_needs_restart(&stream_error(RxTxDirection::Tx, code)));
    }
    let go_on = [
        SoapyStreamErrorCode::Timeout,
        SoapyStreamErrorCode::NotSupported,
        SoapyStreamErrorCode::Other,
    ];
    for code in go_on {
        assert!(!soapy_error_needs_restart(&stream_error(RxTxDirection::Rx, code)));
    }
    assert!(!soapy_error_needs_restart(&RxTxDevError::RxReadError));
}

#[test]
fn receive_timeouts_are_told_apart() {
    assert!(rx_timeout(&stream_error(RxTxDirection::Rx, SoapyStreamErrorCode::Timeout)));
    assert!(!rx_timeout(&stream_error(RxTxDirection::Tx, SoapyStreamErrorCode::Timeout)));
    assert!(!rx_timeout(&stream_error(RxTxDirection::Rx, SoapyStreamErrorCode::Other)));
    assert!(!rx_timeout(&RxTxDevError::RxEndOfData));
}

#[test]
fn missing_transmit_status_is_no_error() {
    assert_eq!(check_tx_status(None), Ok(()));
    assert_eq!(check_tx_status(Some((SoapyStreamErrorCode::Timeout, String::new()))), Ok(()));
    assert_eq!(check_tx_status(Some((SoapyStreamErrorCode::NotSupported, String::new()))), Ok(()));
    assert_eq!(
        check_tx_status(Some((SoapyStreamErrorCode::Underflow, "u".to_string()))),
        Err(RxTxDevError::SoapyStreamError {
            direction: RxTxDirection::Tx,
            code: SoapyStreamErrorCode::Underflow,
            operation: "read TX status",
            message: "u".to_string(),
        })
    );
}

#[test]
fn timing_is_unknown_at_first() {
    let timing = RxTiming::default();
    assert_eq!((timing.time_ns, timing.sample_count), (None, None));
}

#[test]
fn faults_are_reported_ever_less_often() {
    let reported: Vec<u64> = (0..100).filter(|n| should_log_low_rate(*n)).collect();
    assert_eq!(reported, vec![1, 2, 4, 8, 16, 32, 64]);
    let mut c = PhyTimingCounters::default();
    assert!(c.record_late_tx(3));
    assert!(c.record_late_tx(-2));
    assert!(!c.record_late_tx(0));
    assert_eq!((c.late_tx_events, c.late_tx_blocks), (3, 3));
    assert!(c.record_rx_sample_gap(-5));
    assert!(c.record_rx_sample_gap(7));
    assert_eq!((c.rx_sample_gaps, c.rx_sample_gap_samples), (2, 12));
    assert!(c.record_tx_write_error());
    assert_eq!(c.tx_write_errors, 1);
    c.rx_sample_gap_samples = i64::MAX - 1;
    c.record_rx_sample_gap(9);
    assert_eq!(c.rx_sample_gap_samples, i64::MAX);
}

#[test]
fn faults_are_reported_by_their_counts() {
    let none = FaultReports { late_tx: false, tx_write_error: false, rx_sample_gap: false };
    let mut c = PhyTimingCounters::default();
    assert_eq!(c.reports_since(&c), none);
    let before = c;
    c.record_late_tx(1);
    assert_eq!(c.reports_since(&before), FaultReports { late_tx: true, ..none });
    let before = c;
    c.record_tx_write_error();
    assert_eq!(c.reports_since(&before), FaultReports { tx_write_error: true, ..none });
    c.rx_sample_gaps = 3;
    let before = c;
    c.record_rx_sample_gap(5);
    assert_eq!(c.reports_since(&before), FaultReports { rx_sample_gap: true, ..none });
    let before = c;
    c.record_rx_sample_gap(5);
    assert_eq!(c.reports_since(&before), none);
    c.late_tx_events = u64::MAX;
    let before = c;
    c.record_late_tx(1);
    assert_eq!(c.reports_since(&before), none);
}

#[test]
fn turns_are_reported() {
    let mut c = PhyTimingCounters::default();
    assert_eq!(c.record_rxtx_duration(1, false), TurnReport::Usual);
    assert_eq!(c.record_rxtx_duration(1, false), TurnReport::Silent);
    assert_eq!(c.record_rxtx_duration(25_000_000, false), TurnReport::Silent);
    assert_eq!(c.record_rxtx_duration(25_000_001, false), TurnReport::Slow);
    assert_eq!(c.record_rxtx_duration(1, true), TurnReport::Failed);
    c.rxtx_timeslots = 511;
    assert_eq!(c.record_rxtx_duration(1, false), TurnReport::Usual);
    assert_eq!(c.rxtx_timeslots, 512);
}

fn read(io: &mut SoapyIo, len: usize, time: i64, rate_ns: i64) -> RxResult {
    assert!(io.can_stamp(time, io.rx_next_count * rate_ns));
    let elapsed = io.stamp_read(time, io.rx_next_count * rate_ns);
    let stamp = elapsed.map(|e| (time, e / rate_ns));
    assert!(io.can_count(len, stamp, rate_ns, -rate_ns));
    io.count_read(len, stamp, rate_ns, -rate_ns)
}

#[test]
fn times_out_of_range_are_found() {
    let mut io = SoapyIo::new(true, true, true);
    assert!(!io.can_stamp(i64::MIN, 1) && io.can_stamp(i64::MIN, 0));
    assert!(!io.can_count(1, Some((5, 0)), 1, -1));
    assert!(io.can_count(1, None, 1, -1));
    io.initial_time = Some(i64::MAX);
    assert!(!io.can_stamp(-2, 0) && io.can_stamp(-1, 0) && io.can_stamp(0, 0));
    assert!(!io.can_count(1, Some((5, 1)), 1, -1) && io.can_count(1, Some((5, -1)), 1, -1));
    assert!(!io.can_count(1, Some((5, i64::MIN)), 1, -1));
    assert!(!io.can_count(1, Some((5, i64::MAX)), 1, -1));
    assert!(!io.can_transmit(Some(1), 1) && io.can_transmit(None, 1));
    assert!(io.can_transmit(Some(1), 0));
}

#[test]
fn reads_are_counted_from_the_first_timestamp() {
    let mut io = SoapyIo::new(true, true, true);
    assert!(!io.tx_possible());
    let first = read(&mut io, 10, 5_000, 100);
    assert_eq!((first.count, first.len, first.time_ns), (0, 10, Some(5_000)));
    assert_eq!(io.initial_time, Some(5_000));
    assert!(io.tx_possible());
    let second = read(&mut io, 10, 6_000, 100);
    assert_eq!(second.count, 10);
    // No new timestamp: the read continues after the one before.
    let third = read(&mut io, 5, 6_000, 100);
    assert_eq!((third.count, third.time_ns), (20, None));
    // Samples were lost.
    let fourth = read(&mut io, 5, 9_000, 100);
    assert_eq!(fourth.count, 40);
    assert_eq!(io.rx_next_count, 45);
}

#[test]
fn jitter_of_a_sample_is_smoothed() {
    let mut io = SoapyIo::new(true, true, true);
    read(&mut io, 10, 5_000, 100);
    let late = read(&mut io, 10, 6_100, 100);
    assert_eq!(late.count, 10);
    assert_eq!(io.initial_time, Some(5_100));
    let early = read(&mut io, 10, 7_000, 100);
    assert_eq!(early.count, 20);
    assert_eq!(io.initial_time, Some(5_000));
    let off = read(&mut io, 10, 8_200, 100);
    assert_eq!(off.count, 32);
    assert_eq!(io.initial_time, Some(5_000));
}

#[test]
fn transmit_time_follows_the_anchor() {
    let mut io = SoapyIo::new(true, true, true);
    match io.transmit_time(Some(4), 400) {
        Err(RxTxDevError::LateTx { target_sample, current_sample, message, .. }) => {
            assert_eq!((target_sample, current_sample), (4, 0));
            assert_eq!(message, "TX requested before RX timestamp established");
        }
        _ => panic!("not refused"),
    }
    io.initial_time = Some(1_000);
    assert_eq!(io.transmit_time(Some(4), 400), Ok(Some(1_400)));
    assert_eq!(io.transmit_time(None, 0), Ok(None));
    io.tx = false;
    assert_eq!(
        io.transmit_time(None, 0),
        Err(RxTxDevError::SoapyStreamError {
            direction: RxTxDirection::Tx,
            code: SoapyStreamErrorCode::NotSupported,
            operation: "write stream",
            message: "TX stream is disabled".to_string(),
        })
    );
}

#[test]
fn stale_hardware_time_is_warned_of() {
    let mut io = SoapyIo::new(true, true, true);
    let mut warned = Vec::new();
    for n in 0..40 {
        let (time, warn) = io.current_time(Ok(77));
        assert_eq!(time, Ok(77));
        if warn {
            warned.push(n);
        }
    }
    assert_eq!(warned, vec![8, 16, 32]);
    assert_eq!(io.current_time(Ok(78)), (Ok(78), false));
    assert_eq!(io.stale_hardware_time_reads, 0);
    let (failed, warn) = io.current_time(Err((SoapyStreamErrorCode::TimeError, "t".to_string())));
    assert!(!warn);
    assert_eq!(
        failed.unwrap_err().to_text(),
        "SoapySDR Device get hardware time failed with TimeError: t"
    );
}

#[test]
fn failed_operations_restart_their_stream() {
    let mut io = SoapyIo::new(true, true, true);
    let ok = io.receive(Ok(RxResult { len: 3, count: 9, time_ns: None }));
    assert!(!ok.restart && ok.result.is_ok());
    let first = io.receive(Err((SoapyStreamErrorCode::Overflow, "o".to_string())));
    assert!(first.restart && first.log_restart);
    assert_eq!(
        first.result.unwrap_err().to_text(),
        "SoapySDR Rx read stream failed with Overflow: o"
    );
    let second = io.transmit(WriteEnd::Failed(SoapyStreamErrorCode::Underflow, "u".to_string()));
    assert!(second.restart && second.log_restart);
    let third = io.transmit(WriteEnd::Failed(SoapyStreamErrorCode::Underflow, "u".to_string()));
    assert!(third.restart && !third.log_restart);
    assert_eq!((io.stream_restarts, io.stream_restart_log_at), (3, 4));
    let timeout = io.receive(Err((SoapyStreamErrorCode::Timeout, "t".to_string())));
    assert!(!timeout.restart);
    let written = io.transmit(WriteEnd::Written(None));
    assert!(!written.restart && written.result.is_ok());
    let late = io.transmit(WriteEnd::NotTried(RxTxDevError::RxEndOfData));
    assert_eq!(late.result, Err(RxTxDevError::RxEndOfData));
    io.rx = false;
    let off = io.receive(Err((SoapyStreamErrorCode::Overflow, "o".to_string())));
    assert!(!off.restart);
    assert_eq!(off.result.unwrap_err(), RxTxDevError::RxReadError);
    assert_eq!(io.restart_target(RxTxDirection::Rx), Err("RX stream is disabled"));
    assert_eq!(io.restart_target(RxTxDirection::Tx), Ok(()));
    assert_eq!(
        io.restart_target(RxTxDirection::Device),
        Err("device direction has no stream to restart")
    );
}

#[test]
fn current_count_has_its_source() {
    let mut io = SoapyIo::new(true, false, true);
    assert_eq!(io.rx_current_count(), CountSource::HardwareTimeSince(0));
    io.initial_time = Some(500);
    assert_eq!(io.rx_current_count(), CountSource::HardwareTimeSince(500));
    assert_eq!(io.tx_current_count(), CountSource::Known(0));
    io.use_get_hardware_time = false;
    io.rx_next_count = 30;
    assert_eq!(io.rx_current_count(), CountSource::Known(29));
    assert!(io.rx_enabled() && !io.tx_enabled() && !io.tx_possible());
}
