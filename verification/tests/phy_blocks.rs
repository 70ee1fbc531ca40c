use flowstation::phy::counters::PhyTimingCounters;
use flowstation::phy::receiver::{
    counts_fit, goes_on, is_direct_single_carrier, sample_count_in_block, take_slot_bits,
    uses_direct_modem, RxDsp, RxStep,
};
use flowstation::phy::rxtx_dev::{
    soapy_error, RxTxDevError, RxTxDirection, SoapyStreamErrorCode,
};
use flowstation::phy::soapyio::{RxResult, SoapyIo};
use flowstation::phy::timeslot::{first_step, next_step, RxTxDevSoapySdr, TurnStep};
use flowstation::phy::transmitter::{
    block_sent, read_env_block_count, HeadroomWarnings, ModulatorChannel, TxDsp, TxPlan,
    TxTimingConfig,
};

fn signal(from: i64, len: usize) -> Vec<i64> {
    (0..len as i64).map(|i| 1000 + from + i).collect()
}

/// Feeds a read of the signal and returns what is to be read next.
fn feed(rx: &mut RxDsp<i64>, c: &mut PhyTimingCounters, count: i64, len: usize) -> RxStep {
    let result = RxResult { len, count, time_ns: Some(count * 10) };
    assert!(rx.can_read(&result));
    rx.block_read(&result, &signal(count, len), c)
}

#[test]
fn blocks_are_assembled_from_reads() {
    let mut c = PhyTimingCounters::default();
    let mut rx: RxDsp<i64> = RxDsp::new(false, 6, 2, 0);
    rx.start_block();
    assert_eq!(rx.request(), RxStep::Read(6));
    // The stream starts elsewhere: assembly goes on with the block after the read.
    assert_eq!(feed(&mut rx, &mut c, 0, 4), RxStep::Read(2));
    assert_eq!((rx.rx_block_count, rx.rx_buffer_i, c.rx_sample_gaps), (1, 0, 1));
    assert_eq!(c.rx_sample_gap_samples, 8);
    assert_eq!(feed(&mut rx, &mut c, 4, 2), RxStep::Read(8));
    assert_eq!(feed(&mut rx, &mut c, 6, 5), RxStep::Read(3));
    assert_eq!(feed(&mut rx, &mut c, 11, 3), RxStep::Done);
    assert_eq!(rx.rx_buffer, signal(6, 8));
    assert_eq!(rx.current_rx_timing.sample_count, Some(11));
    assert_eq!(rx.current_rx_timing.time_ns, Some(110));
    // The next block begins with the last samples of this one.
    rx.start_block();
    assert_eq!(feed(&mut rx, &mut c, 14, 6), RxStep::Done);
    assert_eq!(rx.rx_buffer, signal(12, 8));
    assert_eq!(c.rx_sample_gaps, 1);
}

#[test]
fn failed_read_changes_nothing() {
    let mut c = PhyTimingCounters::default();
    let mut rx: RxDsp<i64> = RxDsp::new(false, 6, 2, 0);
    rx.start_block();
    assert_eq!(feed(&mut rx, &mut c, 8, 4), RxStep::Read(2));
    let (buffer, before) = (rx.rx_buffer.clone(), c);
    assert_eq!(
        rx.receive_block(Err(RxTxDevError::RxEndOfData), &[], &mut c),
        Err(RxTxDevError::RxEndOfData)
    );
    assert_eq!((rx.rx_buffer == buffer, rx.rx_buffer_i, rx.rx_block_count), (true, 6, 1));
    assert_eq!(c, before);
    let result = RxResult { len: 2, count: 12, time_ns: None };
    assert_eq!(rx.receive_block(Ok(result), &signal(12, 2), &mut c), Ok(RxStep::Done));
    assert_eq!(rx.rx_buffer[2..].to_vec(), signal(8, 6));
}

#[test]
fn first_block_begins_with_silence() {
    let mut c = PhyTimingCounters::default();
    let mut rx: RxDsp<i64> = RxDsp::new(false, 6, 2, 0);
    rx.start_block();
    assert_eq!(feed(&mut rx, &mut c, 8, 4), RxStep::Read(2));
    assert_eq!(feed(&mut rx, &mut c, 12, 2), RxStep::Done);
    assert_eq!(&rx.rx_buffer[..2], &[0, 0]);
    assert_eq!(rx.rx_buffer[2..].to_vec(), signal(8, 6));
    rx.start_block();
    assert_eq!(feed(&mut rx, &mut c, 14, 6), RxStep::Done);
    assert_eq!(rx.rx_buffer, signal(12, 8));
    assert_eq!(c.rx_sample_gaps, 0);
}

#[test]
fn lost_samples_skip_to_the_next_full_block() {
    let mut c = PhyTimingCounters::default();
    let mut rx: RxDsp<i64> = RxDsp::new(false, 4, 0, 0);
    rx.start_block();
    assert_eq!(feed(&mut rx, &mut c, 4, 1), RxStep::Read(3));
    assert_eq!(feed(&mut rx, &mut c, 9, 1), RxStep::Read(2));
    assert_eq!((rx.rx_block_count, rx.rx_skip), (3, 2));
    assert_eq!((c.rx_sample_gaps, c.rx_sample_gap_samples), (1, 4));
    assert_eq!(feed(&mut rx, &mut c, 10, 1), RxStep::Read(1));
    assert_eq!(feed(&mut rx, &mut c, 11, 1), RxStep::Read(4));
    assert_eq!(feed(&mut rx, &mut c, 12, 4), RxStep::Done);
    assert_eq!(rx.rx_buffer, signal(12, 4));
    // A read that ends at a block's beginning skips that block as a whole.
    rx.start_block();
    assert_eq!(feed(&mut rx, &mut c, 18, 2), RxStep::Read(4));
    assert_eq!((rx.rx_block_count, rx.rx_skip), (6, 4));
}

#[test]
fn repeated_samples_are_a_gap_too() {
    let mut c = PhyTimingCounters::default();
    let mut rx: RxDsp<i64> = RxDsp::new(false, 4, 0, 0);
    rx.start_block();
    assert_eq!(feed(&mut rx, &mut c, -7, 2), RxStep::Read(1));
    assert_eq!((rx.rx_block_count, rx.rx_skip), (-1, 1));
    assert_eq!(c.rx_sample_gap_samples, 11);
}

#[test]
fn counts_out_of_range_are_found() {
    let mut rx: RxDsp<i64> = RxDsp::new(false, 4, 0, 0);
    rx.rx_block_count = i64::MAX / 2;
    assert!(!rx.can_read(&RxResult { len: 1, count: 0, time_ns: None }));
    rx.rx_block_count = 0;
    assert!(!rx.can_read(&RxResult { len: 1, count: i64::MIN, time_ns: None }));
    assert!(!rx.can_read(&RxResult { len: 1, count: i64::MAX, time_ns: None }));
    assert!(rx.can_read(&RxResult { len: 1, count: 0, time_ns: None }));
    let mut direct: RxDsp<i64> = RxDsp::new(true, 4, 0, 0);
    assert!(!direct.can_direct_read(&RxResult { len: 1, count: i64::MAX, time_ns: None }));
    assert!(direct.can_direct_read(&RxResult { len: 1, count: i64::MIN, time_ns: None }));
    direct.rx_next_sample_count = Some(1);
    assert!(!direct.can_direct_read(&RxResult { len: 1, count: i64::MIN, time_ns: None }));
    assert!(counts_fit(5, 10) && !counts_fit(i64::MAX, 2));
    assert_eq!(sample_count_in_block(-3, 10, 4), -26);
}

#[test]
fn direct_samples_are_passed_on() {
    let mut c = PhyTimingCounters::default();
    let mut rx: RxDsp<i64> = RxDsp::new(true, 6, 0, 0);
    assert!(rx.direct_modem());
    assert_eq!(rx.direct_request(), 6);
    let first = RxResult { len: 4, count: 100, time_ns: None };
    assert_eq!(rx.direct_read(&first, &signal(100, 4), &mut c), RxStep::Read(2));
    let timeout = soapy_error(
        RxTxDirection::Rx,
        "read stream",
        SoapyStreamErrorCode::Timeout,
        String::new(),
    );
    assert_eq!(rx.direct_failed(timeout.clone()), Ok(false));
    assert_eq!(
        rx.direct_failed(RxTxDevError::RxReadError),
        Err(RxTxDevError::RxReadError)
    );
    let none = RxResult { len: 0, count: 104, time_ns: None };
    assert_eq!(rx.direct_read(&none, &[], &mut c), RxStep::Done);
    assert_eq!((rx.rx_buffer_i, rx.rx_block_count), (4, 0));
    let gap = RxResult { len: 2, count: 107, time_ns: Some(5) };
    assert_eq!(rx.direct_read(&gap, &signal(107, 2), &mut c), RxStep::Done);
    assert_eq!((rx.rx_buffer_i, rx.rx_block_count), (0, 1));
    assert_eq!(rx.rx_next_sample_count, Some(109));
    assert_eq!((c.rx_sample_gaps, c.rx_sample_gap_samples), (1, 3));
    assert_eq!(rx.direct_failed(timeout.clone()), Err(timeout));
}

#[test]
fn direct_path_has_its_conditions() {
    assert!(uses_direct_modem(true, 0, true, 1, true));
    assert!(!uses_direct_modem(false, 0, true, 1, true));
    assert!(!uses_direct_modem(true, 1, true, 1, true));
    assert!(!is_direct_single_carrier(false, 1, true));
    assert!(!is_direct_single_carrier(true, 2, true));
    assert!(!is_direct_single_carrier(true, 1, false));
}

#[test]
fn channels_decide_together() {
    assert!(goes_on(&vec![], &vec![]));
    assert!(goes_on(&vec![(false, Some(true)), (true, None)], &vec![true]));
    assert!(!goes_on(&vec![(true, Some(false))], &vec![true]));
    assert!(!goes_on(&vec![(false, None)], &vec![true]));
    assert!(!goes_on(&vec![], &vec![true, false]));
}

#[test]
fn slots_come_in_order() {
    let slots = take_slot_bits(
        vec![(Some(1), None), (None, Some(2))],
        vec![Some(3), None, Some(4)],
    );
    assert_eq!(slots, vec![Some(1), None, None, Some(2), Some(3), None, Some(4)]);
    let none: Vec<Option<u8>> = take_slot_bits(vec![], vec![]);
    assert!(none.is_empty());
}

#[test]
fn transmit_settings_are_read() {
    assert_eq!(read_env_block_count(None, 7, 1), 7);
    assert_eq!(read_env_block_count(Some("12"), 7, 1), 12);
    assert_eq!(read_env_block_count(Some("-3"), 7, 1), 1);
    assert_eq!(read_env_block_count(Some("x"), 7, 1), 7);
    assert_eq!(read_env_block_count(Some(" 12"), 7, 1), 7);
    let defaults = TxTimingConfig::from_env(2, None, None, None);
    assert_eq!(
        defaults,
        TxTimingConfig { min_ahead_blocks: 2, max_ahead_blocks: 60, max_rx_ahead_blocks: 60 }
    );
    let set = TxTimingConfig::from_env(2, Some("100"), Some("5"), None);
    assert_eq!(
        set,
        TxTimingConfig { min_ahead_blocks: 100, max_ahead_blocks: 100, max_rx_ahead_blocks: 60 }
    );
}

fn config() -> TxTimingConfig {
    TxTimingConfig { min_ahead_blocks: 2, max_ahead_blocks: 4, max_rx_ahead_blocks: 10 }
}

#[test]
fn transmit_blocks_are_scheduled() {
    let mut c = PhyTimingCounters::default();
    let mut tx = TxDsp::new(true, config());
    assert!(tx.can_plan(1050, 100, None));
    assert_eq!(
        tx.process_block(1050, 100, None, &mut c),
        TxPlan { align: Some(1200), produce: true }
    );
    assert_eq!(tx.take_block(100), 1200);
    assert_eq!(
        tx.process_block(1050, 100, None, &mut c),
        TxPlan { align: None, produce: true }
    );
    assert_eq!(tx.take_block(100), 1300);
    tx.take_block(100);
    assert_eq!(tx.block_count, 15);
    assert_eq!(tx.process_block(1050, 100, None, &mut c), TxPlan { align: None, produce: false });
    assert_eq!(c.late_tx_events, 0);
    // Too late: blocks are skipped.
    assert_eq!(
        tx.process_block(1600, 100, Some(8), &mut c),
        TxPlan { align: Some(1800), produce: true }
    );
    assert_eq!((tx.block_count, c.late_tx_events, c.late_tx_blocks), (18, 1, 3));
    // Too far ahead of reception.
    assert!(!tx.process_block(1600, 100, Some(7), &mut c).produce);
    assert!(tx.process_block(1600, 100, Some(8), &mut c).produce);
}

#[test]
fn sent_blocks_go_up() {
    let mut c = PhyTimingCounters::default();
    let mut tx = TxDsp::new(false, config());
    let mut sent: Vec<i64> = Vec::new();
    for current in [500, 510, 380, 900, 650, 2000, 2010, 2010, 1999] {
        if tx.process_block(current, 100, None, &mut c).produce {
            let block = tx.take_block(100) / 100;
            let now = current.div_euclid(100);
            assert!(now + 2 <= block && block <= now + 4);
            assert!(sent.iter().all(|earlier| *earlier < block));
            sent.push(block);
        }
    }
    assert_eq!(sent, vec![7, 8, 11, 22, 23, 24]);
}

#[test]
fn channelized_transmission_needs_no_alignment() {
    let mut c = PhyTimingCounters::default();
    let mut tx = TxDsp::new(false, config());
    assert_eq!(
        tx.process_block(-50, 100, None, &mut c),
        TxPlan { align: None, produce: true }
    );
    assert_eq!(tx.block_count, 1);
    // A clock far in the past holds the first block back.
    let mut early = TxDsp::new(false, config());
    assert!(!early.process_block(-1000, 100, None, &mut c).produce);
    assert_eq!(early.block_count, -8);
    assert!(!TxDsp::new(false, config()).can_plan(i64::MIN, 1, None));
}

#[test]
fn sent_blocks_are_accounted_for() {
    let mut c = PhyTimingCounters::default();
    assert_eq!(block_sent(Ok(()), &mut c), Ok(true));
    assert_eq!(c.tx_write_errors, 0);
    assert_eq!(
        block_sent(Err(RxTxDevError::RxEndOfData), &mut c),
        Err(RxTxDevError::RxEndOfData)
    );
    assert_eq!(c.tx_write_errors, 1);
}

#[test]
fn modulated_blocks_are_taken_up_again() {
    let mut ch: ModulatorChannel<u8> = ModulatorChannel::new();
    ch.set_len(3, 0);
    assert_eq!(ch.wanted(5), Some(15));
    ch.put(7);
    assert_eq!(ch.wanted(5), Some(16));
    ch.set_len(3, 0);
    assert_eq!(ch.wanted(5), Some(16));
    ch.put(8);
    ch.put(9);
    assert_eq!(ch.wanted(5), None);
    assert_eq!(ch.buffer, vec![7, 8, 9]);
    ch.start_over();
    assert_eq!(ch.wanted(6), Some(18));
    ch.put(1);
    ch.set_len(2, 0);
    assert_eq!((ch.buffer_i, ch.buffer.clone()), (0, vec![0, 0]));
}

#[test]
fn headroom_warnings_cool_down() {
    let mut w = HeadroomWarnings { warn_cooldown_blocks: 0 };
    assert!(w.reduced());
    assert!(!w.reduced());
    assert_eq!(w.warn_cooldown_blocks, 6000);
    w.recovered();
    assert_eq!(w.warn_cooldown_blocks, 5999);
    w.warn_cooldown_blocks = 0;
    w.recovered();
    assert_eq!(w.warn_cooldown_blocks, 0);
}

#[test]
fn turn_transmits_first() {
    let step = first_step();
    assert_eq!(step, TurnStep::Tx);
    let step = next_step(step, Ok(true)).unwrap();
    assert_eq!(step, TurnStep::Tx);
    let step = next_step(step, Ok(false)).unwrap();
    assert_eq!(step, TurnStep::Rx);
    let step = next_step(step, Ok(true)).unwrap();
    assert_eq!(step, TurnStep::Tx);
    let step = next_step(step, Ok(false)).unwrap();
    let step = next_step(step, Ok(false)).unwrap();
    assert_eq!(step, TurnStep::End);
    assert_eq!(
        next_step(TurnStep::Rx, Err(RxTxDevError::RxReadError)),
        Err(RxTxDevError::RxReadError)
    );
}

#[test]
fn device_ends_its_turns() {
    let rx: RxDsp<u8> = RxDsp::new(false, 4, 0, 0);
    let tx = TxDsp::new(false, config());
    let mut dev = RxTxDevSoapySdr::new(SoapyIo::new(true, true, true), rx, tx);
    assert_eq!(dev.process_tx_block(), (false, Some(0)));
    dev.sdr.initial_time = Some(0);
    assert_eq!(dev.process_tx_block(), (true, Some(0)));
    let timeout = soapy_error(
        RxTxDirection::Rx,
        "read stream",
        SoapyStreamErrorCode::Timeout,
        String::new(),
    );
    assert_eq!(dev.process_rx_block(Err(timeout)), Ok(false));
    assert_eq!(dev.process_rx_block(Ok(true)), Ok(true));
    assert_eq!(
        dev.process_rx_block(Err(RxTxDevError::RxReadError)),
        Err(RxTxDevError::RxReadError)
    );
    dev.end_turn(1, false);
    assert_eq!(dev.timing.rxtx_timeslots, 1);
    let rx: RxDsp<u8> = RxDsp::new(false, 4, 0, 0);
    let off = RxTxDevSoapySdr::new(SoapyIo::new(false, false, true), rx, tx);
    assert!(off.rx_dsp.is_none() && off.tx_dsp.is_none());
    assert_eq!(off.process_rx_block(Err(RxTxDevError::RxReadError)), Ok(false));
    assert_eq!(off.process_tx_block(), (false, None));
}
