use flowstation::umac::circuit_mgr::{
    Circuit, CircuitMgr, Direction, MAX_REALTIME_TX_BLOCKS_PER_SLOT,
};

fn circuit(ts: u8, usage: u8) -> Circuit<&'static str> {
    Circuit { ts, usage, detail: "call" }
}

#[test]
fn new_manager_is_idle() {
    let mgr: CircuitMgr<()> = CircuitMgr::new();
    for ts in 0..=5 {
        assert!(!mgr.is_active(Direction::Dl, ts));
        assert!(!mgr.is_active(Direction::Ul, ts));
        assert_eq!(mgr.get_usage(Direction::Dl, ts), None);
    }
}

#[test]
fn slots_have_places() {
    assert_eq!(CircuitMgr::<()>::slot_index(0), None);
    assert_eq!(CircuitMgr::<()>::slot_index(1), Some(0));
    assert_eq!(CircuitMgr::<()>::slot_index(4), Some(3));
    assert_eq!(CircuitMgr::<()>::slot_index(5), None);
    assert_eq!(CircuitMgr::<()>::traffic_slot_index(1), None);
    assert_eq!(CircuitMgr::<()>::traffic_slot_index(2), Some(1));
    assert_eq!(CircuitMgr::<()>::traffic_slot_index(255), None);
}

#[test]
fn circuit_is_created_and_closed() {
    let mut mgr = CircuitMgr::new();
    mgr.create_circuit(Direction::Ul, circuit(3, 17));
    assert!(mgr.is_active(Direction::Ul, 3));
    assert!(!mgr.is_active(Direction::Dl, 3));
    assert!(!mgr.is_active(Direction::Both, 3));
    assert_eq!(mgr.get_usage(Direction::Ul, 3), Some(17));
    assert_eq!(mgr.get_usage(Direction::Both, 3), None);
    assert_eq!(mgr.close_circuit(Direction::Both, 3), None);
    assert_eq!(mgr.close_circuit(Direction::Ul, 3), Some(circuit(3, 17)));
    assert_eq!(mgr.close_circuit(Direction::Ul, 3), None);
    assert_eq!(mgr.close_circuit(Direction::Ul, 9), None);
}

#[test]
fn signalling_slot_takes_no_circuit() {
    let mut mgr = CircuitMgr::new();
    mgr.create_circuit(Direction::Dl, circuit(1, 5));
    mgr.create_circuit(Direction::Dl, circuit(0, 5));
    mgr.create_circuit(Direction::Dl, circuit(5, 5));
    for ts in 0..=5 {
        assert!(!mgr.is_active(Direction::Dl, ts));
    }
}

#[test]
fn new_circuit_replaces_the_old_one() {
    let mut mgr = CircuitMgr::new();
    mgr.create_circuit(Direction::Dl, circuit(2, 5));
    mgr.put_block(2, vec![1]);
    mgr.create_circuit(Direction::Dl, circuit(2, 6));
    assert_eq!(mgr.get_usage(Direction::Dl, 2), Some(6));
    assert_eq!(mgr.take_block(2), None);
}

#[test]
fn queue_keeps_the_latest_blocks_in_order() {
    let mut mgr = CircuitMgr::new();
    mgr.create_circuit(Direction::Dl, circuit(4, 5));
    for n in 0..9u8 {
        mgr.put_block(4, vec![n]);
    }
    assert_eq!(mgr.tx_data_dropped_oldest, [0, 0, 0, 3]);
    for n in 3..9u8 {
        assert_eq!(mgr.take_block(4), Some(vec![n]));
    }
    assert_eq!(mgr.take_block(4), None);
    assert_eq!(MAX_REALTIME_TX_BLOCKS_PER_SLOT, 6);
}

#[test]
fn blocks_need_a_downlink_circuit() {
    let mut mgr = CircuitMgr::new();
    mgr.create_circuit(Direction::Ul, circuit(2, 5));
    mgr.put_block(2, vec![1]);
    mgr.put_block(0, vec![1]);
    assert!(mgr.tx_data[1].is_empty());
    assert_eq!(mgr.take_block(2), None);
    mgr.create_circuit(Direction::Dl, circuit(2, 5));
    mgr.put_block(2, vec![7]);
    assert_eq!(mgr.close_circuit(Direction::Dl, 2), Some(circuit(2, 5)));
    assert_eq!(mgr.take_block(2), None);
}

#[test]
fn timeslots_do_not_affect_one_another() {
    let mut mgr = CircuitMgr::new();
    mgr.create_circuit(Direction::Dl, circuit(2, 5));
    mgr.create_circuit(Direction::Dl, circuit(3, 6));
    mgr.put_block(2, vec![2]);
    mgr.put_block(3, vec![3]);
    mgr.close_circuit(Direction::Dl, 2);
    assert_eq!(mgr.take_block(3), Some(vec![3]));
    assert_eq!(mgr.get_usage(Direction::Dl, 3), Some(6));
}

#[test]
fn idle_timeslots_are_empty() {
    let mut mgr = CircuitMgr::new();
    mgr.put_block(2, vec![1]);
    assert!(mgr.tx_data[1].is_empty());
    mgr.create_circuit(Direction::Dl, circuit(2, 5));
    mgr.put_block(2, vec![1]);
    assert_eq!(mgr.tx_data[1].len(), 1);
    mgr.close_circuit(Direction::Dl, 2);
    assert!(mgr.tx_data.iter().all(|queue| queue.is_empty()));
}
