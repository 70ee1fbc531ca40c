use flowstation::messagerouter::{
    MessagePrio, MessageQueue, MessageRouter, NormalRound, RunEnd, SapMsg, TetraEntity, TetraEntityTrait,
    MAX_IMMEDIATE_MESSAGES_PER_DRAIN, MAX_NORMAL_MESSAGES_PER_DRAIN, NORMAL_DELIVERY_BUDGET_NS,
};
use flowstation::observer::Observer;
use flowstation::tdma::TdmaTime;
use std::sync::atomic::{AtomicBool, Ordering};
use std::sync::{Arc, Mutex};

type Trace = Arc<Mutex<Vec<String>>>;

struct Node {
    id: TetraEntity,
    trace: Trace,
    /// Messages that are sent when a message with the given number arrives.
    replies: Vec<(u32, MessagePrio, SapMsg<u32>)>,
    /// How many more ticks end before a flag is cleared.
    stop: Option<(u32, Arc<AtomicBool>)>,
}

fn msg(dest: TetraEntity, n: u32) -> SapMsg<u32> {
    SapMsg { src: TetraEntity::Brew, dest, msg: n }
}

impl Node {
    fn new(id: TetraEntity, trace: &Trace) -> Node {
        Node { id, trace: trace.clone(), replies: Vec::new(), stop: None }
    }

    fn note(&self, what: String) {
        self.trace.lock().unwrap().push(format!("{:?} {}", self.id, what));
    }
}

impl TetraEntityTrait<u32> for Node {
    fn identity(&self) -> TetraEntity {
        self.id
    }

    fn entity(&self) -> TetraEntity {
        self.id
    }

    fn rx_prim(&mut self, queue: &mut MessageQueue<u32>, message: SapMsg<u32>) {
        self.note(format!("got {}", message.msg));
        let n = message.msg;
        let mut i = 0;
        while i < self.replies.len() {
            if self.replies[i].0 == n {
                let (_, prio, reply) = self.replies.remove(i);
                queue.push_prio(reply, prio);
            } else {
                i += 1;
            }
        }
    }

    fn tick_start(&mut self, queue: &mut MessageQueue<u32>, ts: TdmaTime) {
        self.note(format!("start {}/{}", ts.f, ts.t));
        if self.id == TetraEntity::Phy {
            queue.push_prio(msg(TetraEntity::Lmac, 100), MessagePrio::Immediate);
        }
    }

    fn tick_end(&mut self, _queue: &mut MessageQueue<u32>, ts: TdmaTime) {
        self.note(format!("end {}/{}", ts.f, ts.t));
        if let Some((left, flag)) = self.stop.as_mut() {
            *left -= 1;
            if *left == 0 {
                flag.store(false, Ordering::Relaxed);
            }
        }
    }
}

fn taken(queue: &mut MessageQueue<u32>) -> Vec<u32> {
    let mut out = Vec::new();
    while let Some(m) = queue.pop_front() {
        out.push(m.msg);
    }
    out
}

#[test]
fn queue_delivers_by_priority() {
    let mut queue: MessageQueue<u32> = MessageQueue::new();
    queue.push_back(msg(TetraEntity::Mm, 1));
    queue.push_prio(msg(TetraEntity::Mm, 2), MessagePrio::Immediate);
    queue.push_prio(msg(TetraEntity::Mm, 3), MessagePrio::default());
    queue.push_prio(msg(TetraEntity::Mm, 4), MessagePrio::Critical);
    queue.push_prio(msg(TetraEntity::Mm, 5), MessagePrio::Immediate);
    queue.push_prio(msg(TetraEntity::Mm, 6), MessagePrio::Critical);
    assert_eq!(queue.len(), 6);
    assert_eq!(taken(&mut queue), vec![6, 4, 2, 5, 1, 3]);
    assert_eq!(queue.len(), 0);
    assert!(queue.pop_front().is_none());
}

#[test]
fn queue_lanes_are_separate() {
    let mut queue: MessageQueue<u32> = MessageQueue::new();
    assert!(!queue.has_immediate() && !queue.has_normal());
    queue.push_back(msg(TetraEntity::Mm, 1));
    assert!(!queue.has_immediate() && queue.has_normal());
    assert!(queue.pop_immediate().is_none());
    queue.push_prio(msg(TetraEntity::Mm, 2), MessagePrio::Immediate);
    assert_eq!(queue.pop_normal().map(|m| m.msg), Some(1));
    assert_eq!(queue.pop_immediate().map(|m| m.msg), Some(2));
    assert!(queue.pop_normal().is_none());
}

#[test]
fn critical_message_is_next() {
    let mut queue: MessageQueue<u32> = MessageQueue::new();
    queue.push_prio(msg(TetraEntity::Mm, 1), MessagePrio::Immediate);
    queue.push_back(msg(TetraEntity::Mm, 2));
    queue.push_prio(msg(TetraEntity::Mm, 3), MessagePrio::Critical);
    assert_eq!(queue.pop_front().map(|m| m.msg), Some(3));
    assert_eq!(taken(&mut queue), vec![1, 2]);
}

#[test]
fn message_accessors() {
    let m = SapMsg { src: TetraEntity::Llc, dest: TetraEntity::Other(3), msg: () };
    assert_eq!(m.get_source(), TetraEntity::Llc);
    assert_eq!(m.get_dest(), TetraEntity::Other(3));
}

#[test]
fn registration_replaces_the_same_identity() {
    let trace: Trace = Default::default();
    let other: Trace = Default::default();
    let mut router: MessageRouter<u32, Node> = MessageRouter::new();
    router.register_entity(Node::new(TetraEntity::Mm, &trace));
    router.register_entity(Node::new(TetraEntity::Cmce, &trace));
    router.register_entity(Node::new(TetraEntity::Mm, &other));
    assert_eq!(router.entities.len(), 2);
    assert!(router.get_entity(TetraEntity::Llc).is_none());
    router.get_entity(TetraEntity::Mm).unwrap().note("seen".to_string());
    assert!(trace.lock().unwrap().is_empty());
    assert_eq!(*other.lock().unwrap(), vec!["Mm seen".to_string()]);
}

#[test]
fn message_for_absent_entity_is_dropped() {
    let trace: Trace = Default::default();
    let mut router: MessageRouter<u32, Node> = MessageRouter::new();
    router.register_entity(Node::new(TetraEntity::Mm, &trace));
    router.submit_message(msg(TetraEntity::Llc, 1));
    router.submit_message(msg(TetraEntity::Mm, 2));
    assert_eq!(router.get_msgqueue_len(), 2);
    router.deliver_message();
    assert_eq!(router.get_msgqueue_len(), 1);
    assert!(trace.lock().unwrap().is_empty());
    router.deliver_message();
    router.deliver_message();
    assert_eq!(*trace.lock().unwrap(), vec!["Mm got 2".to_string()]);
}

#[test]
fn immediate_replies_go_before_waiting_messages() {
    let trace: Trace = Default::default();
    let mut router: MessageRouter<u32, Node> = MessageRouter::new();
    let mut mm = Node::new(TetraEntity::Mm, &trace);
    mm.replies.push((1, MessagePrio::Normal, msg(TetraEntity::Mm, 10)));
    mm.replies.push((1, MessagePrio::Immediate, msg(TetraEntity::Mm, 11)));
    mm.replies.push((1, MessagePrio::Critical, msg(TetraEntity::Mm, 12)));
    router.register_entity(mm);
    router.submit_message(msg(TetraEntity::Mm, 1));
    router.submit_message(msg(TetraEntity::Mm, 2));
    assert_eq!(router.deliver_all_messages(), 5);
    assert_eq!(
        *trace.lock().unwrap(),
        vec!["Mm got 1", "Mm got 12", "Mm got 11", "Mm got 2", "Mm got 10"]
    );
}

#[test]
fn immediate_delivery_leaves_normal_messages() {
    let trace: Trace = Default::default();
    let mut router: MessageRouter<u32, Node> = MessageRouter::new();
    router.register_entity(Node::new(TetraEntity::Mm, &trace));
    router.submit_message(msg(TetraEntity::Mm, 1));
    router.msg_queue.push_prio(msg(TetraEntity::Mm, 2), MessagePrio::Immediate);
    assert_eq!(router.deliver_immediate_messages(), 1);
    assert_eq!(router.get_msgqueue_len(), 1);
    assert_eq!(*trace.lock().unwrap(), vec!["Mm got 2"]);
}

#[test]
fn deliveries_are_bounded() {
    let mut router: MessageRouter<u32, Node> = MessageRouter::new();
    for n in 0..(MAX_IMMEDIATE_MESSAGES_PER_DRAIN as u32 + 3) {
        router.submit_message(msg(TetraEntity::Mm, n));
        router.msg_queue.push_prio(msg(TetraEntity::Mm, n), MessagePrio::Immediate);
    }
    assert_eq!(router.deliver_immediate_messages(), MAX_IMMEDIATE_MESSAGES_PER_DRAIN);
    assert_eq!(router.deliver_all_messages(), MAX_IMMEDIATE_MESSAGES_PER_DRAIN);
    assert_eq!(router.get_msgqueue_len(), 6);
}

#[test]
fn normal_delivery_is_bounded_in_a_tick() {
    let mut router: MessageRouter<u32, Node> = MessageRouter::new();
    for n in 0..200 {
        router.submit_message(msg(TetraEntity::Mm, n));
    }
    let out = router.deliver_normal_messages_for_tick();
    assert!(out.count <= MAX_NORMAL_MESSAGES_PER_DRAIN);
    assert_eq!(out.cut_short, out.count < MAX_NORMAL_MESSAGES_PER_DRAIN);
    assert_eq!(router.get_msgqueue_len(), 200 - out.count);
}

#[test]
fn normal_delivery_ends_with_the_messages() {
    let mut router: MessageRouter<u32, Node> = MessageRouter::new();
    router.submit_message(msg(TetraEntity::Mm, 1));
    let mut count = 0;
    loop {
        let out = router.deliver_normal_messages_for_tick();
        count += out.count;
        if !out.cut_short {
            break;
        }
    }
    assert_eq!((count, router.get_msgqueue_len()), (1, 0));
}

#[test]
fn normal_round_puts_immediate_messages_first() {
    let trace: Trace = Default::default();
    let mut router: MessageRouter<u32, Node> = MessageRouter::new();
    router.register_entity(Node::new(TetraEntity::Mm, &trace));
    router.submit_message(msg(TetraEntity::Mm, 1));
    router.msg_queue.push_prio(msg(TetraEntity::Mm, 2), MessagePrio::Immediate);
    assert_eq!(router.normal_round(0, NORMAL_DELIVERY_BUDGET_NS), NormalRound::Finished);
    assert_eq!(router.normal_round(64, 0), NormalRound::Finished);
    assert_eq!(router.normal_round(63, 1_999_999), NormalRound::Drained);
    assert_eq!(router.normal_round(0, 2_000_000), NormalRound::Finished);
    assert_eq!(router.normal_round(63, 1_999_999), NormalRound::Delivered);
    assert_eq!(router.normal_round(1, 0), NormalRound::Finished);
    assert_eq!(*trace.lock().unwrap(), vec!["Mm got 2", "Mm got 1"]);
}

#[test]
fn tick_follows_the_path_to_the_air_interface() {
    let trace: Trace = Default::default();
    let mut router: MessageRouter<u32, Node> = MessageRouter::new();
    for id in [
        TetraEntity::Mm,
        TetraEntity::Umac,
        TetraEntity::Llc,
        TetraEntity::Lmac,
        TetraEntity::Phy,
    ] {
        router.register_entity(Node::new(id, &trace));
    }
    router.set_dl_time(TdmaTime { h: 0, m: 1, f: 18, t: 4 });
    router.submit_message(msg(TetraEntity::Mm, 7));
    let end = router.run_stack(Some(1), None);
    assert_eq!(end, RunEnd { ticks: 1, stopped: false });
    assert_eq!(
        *trace.lock().unwrap(),
        vec![
            "Phy start 18/4",
            "Lmac got 100",
            "Lmac start 18/4",
            "Umac start 18/4",
            "Mm start 18/4",
            "Llc start 18/4",
            "Mm got 7",
            "Llc end 18/4",
            "Umac end 18/4",
            "Mm end 18/4",
            "Lmac end 18/4",
            "Phy end 18/4",
        ]
    );
    assert_eq!(router.ts, TdmaTime { h: 0, m: 2, f: 1, t: 1 });
    assert_eq!(router.get_msgqueue_len(), 0);
}

#[test]
fn run_counts_ticks_and_time() {
    let mut router: MessageRouter<u32, Node> = MessageRouter::new();
    assert_eq!(router.ts, TdmaTime { h: 0, m: 1, f: 1, t: 1 });
    assert_eq!(router.run_stack(Some(9), None), RunEnd { ticks: 9, stopped: false });
    assert_eq!(router.ts, TdmaTime { h: 0, m: 1, f: 3, t: 2 });
}

#[test]
fn run_of_no_ticks_does_nothing() {
    let trace: Trace = Default::default();
    let mut router: MessageRouter<u32, Node> = MessageRouter::new();
    router.register_entity(Node::new(TetraEntity::Phy, &trace));
    router.submit_message(msg(TetraEntity::Phy, 1));
    assert_eq!(router.run_stack(Some(0), None), RunEnd { ticks: 0, stopped: false });
    assert!(trace.lock().unwrap().is_empty());
    assert_eq!((router.ts, router.get_msgqueue_len()), (TdmaTime::default(), 1));
}

#[test]
fn observer_reads_clock_and_flag() {
    let outside = std::time::Instant::now();
    let mut observer = Observer::new();
    let started = observer.now();
    let mut later = observer.elapsed_ns(&started);
    while later < 3_000_000 {
        later = observer.elapsed_ns(&started);
    }
    assert!(started >= outside && outside.elapsed().as_nanos() >= later);
    let again = observer.now();
    assert!(again > started && observer.elapsed_ns(&again) < outside.elapsed().as_nanos());
    assert!(observer.is_set(&AtomicBool::new(true)));
    assert!(!observer.is_set(&AtomicBool::new(false)));
}

#[test]
fn run_stops_at_a_cleared_flag() {
    let mut router: MessageRouter<u32, Node> = MessageRouter::new();
    let cleared = Arc::new(AtomicBool::new(false));
    assert_eq!(
        router.run_stack(None, Some(cleared)),
        RunEnd { ticks: 0, stopped: true }
    );
    let set = Arc::new(AtomicBool::new(true));
    assert_eq!(
        router.run_stack(Some(2), Some(set)),
        RunEnd { ticks: 2, stopped: false }
    );
}

#[test]
fn run_stops_when_its_flag_is_cleared() {
    for num_ticks in [None, Some(100)] {
        let trace: Trace = Default::default();
        let flag = Arc::new(AtomicBool::new(true));
        let mut router: MessageRouter<u32, Node> = MessageRouter::new();
        let mut node = Node::new(TetraEntity::Mm, &trace);
        node.stop = Some((3, flag.clone()));
        router.register_entity(node);
        assert_eq!(
            router.run_stack(num_ticks, Some(flag)),
            RunEnd { ticks: 3, stopped: true }
        );
        assert_eq!(router.ts, TdmaTime { h: 0, m: 1, f: 1, t: 4 });
        assert_eq!(trace.lock().unwrap().len(), 6);
    }
}

#[test]
fn run_goes_by_its_own_flag() {
    let other = Arc::new(AtomicBool::new(true));
    let own = Arc::new(AtomicBool::new(true));
    let mut router: MessageRouter<u32, Node> = MessageRouter::new();
    let mut node = Node::new(TetraEntity::Mm, &Default::default());
    node.stop = Some((2, other.clone()));
    router.register_entity(node);
    let end = router.run_stack(Some(3), Some(own));
    assert_eq!(end, RunEnd { ticks: 3, stopped: false });
    assert!(!other.load(Ordering::Relaxed));
}

#[test]
fn queue_length_is_pushes_less_pops() {
    let mut queue: MessageQueue<u32> = MessageQueue::new();
    let (mut pushed, mut popped) = (0, 0);
    for n in 0..40 {
        match n % 5 {
            0 => queue.push_back(msg(TetraEntity::Mm, n)),
            1 => queue.push_prio(msg(TetraEntity::Mm, n), MessagePrio::Critical),
            2 => queue.push_prio(msg(TetraEntity::Mm, n), MessagePrio::Immediate),
            _ => popped += queue.pop_front().is_some() as usize,
        }
        pushed += (n % 5 < 3) as usize;
        assert_eq!(queue.len(), pushed - popped);
    }
    while queue.pop_front().is_some() {
        popped += 1;
    }
    assert_eq!((queue.len(), pushed), (0, popped));
}

#[test]
fn time_wraps_around() {
    let last = TdmaTime { h: 65535, m: 60, f: 18, t: 4 };
    assert_eq!(last.add_timeslots(1), TdmaTime { h: 0, m: 1, f: 1, t: 1 });
    assert_eq!(TdmaTime::default().add_timeslots(-1), last);
    assert_eq!(TdmaTime::default().add_timeslots(0), TdmaTime::default());
    let start = TdmaTime { h: 5, m: 60, f: 17, t: 3 };
    assert_eq!(start.add_timeslots(6), TdmaTime { h: 6, m: 1, f: 1, t: 1 });
    assert_eq!(start.add_timeslots(6).add_timeslots(-6), start);
    assert_eq!(start.add_timeslots(2).add_timeslots(3), start.add_timeslots(5));
}

#[test]
fn stopped_tick_changes_nothing() {
    let trace: Trace = Default::default();
    let mut router: MessageRouter<u32, Node> = MessageRouter::new();
    router.register_entity(Node::new(TetraEntity::Mm, &trace));
    router.submit_message(msg(TetraEntity::Mm, 1));
    assert!(!router.run_tick(true, false));
    assert!(trace.lock().unwrap().is_empty());
    assert_eq!((router.ts, router.get_msgqueue_len()), (TdmaTime::default(), 1));
    assert!(router.run_tick(true, true));
    assert_eq!(*trace.lock().unwrap(), vec!["Mm start 1/1", "Mm got 1", "Mm end 1/1"]);
    assert_eq!(router.ts, TdmaTime { h: 0, m: 1, f: 1, t: 2 });
}
