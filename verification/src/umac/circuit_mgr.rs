//! Traffic circuits of the four timeslots, and the blocks queued for them.
use crate::number::saturated_u64;
use std::collections::VecDeque;
use vstd::prelude::*;

verus! {

/// How many blocks may wait on a timeslot. Traffic is realtime, so older blocks are dropped.
pub const MAX_REALTIME_TX_BLOCKS_PER_SLOT: usize = 6;

/// Transmission direction. A circuit runs in one of the first two.
#[derive(Debug, Clone, Copy, PartialEq, Eq, Structural)]
pub enum Direction {
    Dl,
    Ul,
    Both,
}

/// A traffic circuit. `detail` is what call control attaches to it.
#[derive(Debug, PartialEq, Eq)]
pub struct Circuit<D> {
    /// Timeslot, counted from one.
    pub ts: u8,
    /// Usage marker.
    pub usage: u8,
    pub detail: D,
}

pub struct CircuitMgr<D> {
    pub dl: [Option<Circuit<D>>; 4],
    pub ul: [Option<Circuit<D>>; 4],
    /// Data blocks queued to be transmitted, per timeslot.
    pub tx_data: [VecDeque<Vec<u8>>; 4],
    pub tx_data_dropped_oldest: [u64; 4],
}

/// The circuits and queues, one of each per timeslot.
#[verifier::ext_equal]
pub ghost struct Circuits<D> {
    pub dl: Seq<Option<Circuit<D>>>,
    pub ul: Seq<Option<Circuit<D>>>,
    pub queued: Seq<Seq<Vec<u8>>>,
    pub dropped: Seq<u64>,
}

/// Whether `ts` is the number of a timeslot.
pub open spec fn is_slot(ts: u8) -> bool {
    1 <= ts <= 4
}

/// Whether `ts` is the number of a timeslot that can carry traffic. The first one carries
/// signalling.
pub open spec fn is_traffic_slot(ts: u8) -> bool {
    2 <= ts <= 4
}

/// The latest `n` items of a queue.
pub open spec fn latest<A>(queue: Seq<A>, n: int) -> Seq<A> {
    if queue.len() > n {
        queue.skip(queue.len() - n)
    } else {
        queue
    }
}

impl<D> Circuits<D> {
    /// One circuit place, one queue and one drop counter per timeslot.
    pub open spec fn shaped(self) -> bool {
        self.dl.len() == 4 && self.ul.len() == 4 && self.queued.len() == 4 && self.dropped.len()
            == 4
    }

    /// No queue is longer than the bound.
    pub open spec fn bounded(self) -> bool {
        forall|i: int|
            0 <= i < 4 ==> (#[trigger] self.queued[i]).len() <= MAX_REALTIME_TX_BLOCKS_PER_SLOT
    }

    /// No block waits on a timeslot without a downlink circuit.
    pub open spec fn idle_empty(self) -> bool {
        forall|i: int|
            0 <= i < 4 && self.dl[i] is None ==> (#[trigger] self.queued[i]).len() == 0
    }

    pub open spec fn active(self, dir: Direction, ts: u8) -> bool {
        is_slot(ts) && match dir {
            Direction::Dl => self.dl[ts - 1] is Some,
            Direction::Ul => self.ul[ts - 1] is Some,
            Direction::Both => false,
        }
    }

    /// The circuit on a timeslot.
    pub open spec fn circuit(self, dir: Direction, ts: u8) -> Option<Circuit<D>> {
        if !is_slot(ts) {
            None
        } else {
            match dir {
                Direction::Dl => self.dl[ts - 1],
                Direction::Ul => self.ul[ts - 1],
                Direction::Both => None,
            }
        }
    }

    /// After the circuit on a timeslot is closed. Closing a downlink circuit empties its queue.
    pub open spec fn closed(self, dir: Direction, ts: u8) -> Circuits<D> {
        if !is_slot(ts) {
            self
        } else {
            match dir {
                Direction::Dl => Circuits {
                    dl: self.dl.update(ts - 1, None),
                    queued: self.queued.update(ts - 1, Seq::empty()),
                    ..self
                },
                Direction::Ul => Circuits { ul: self.ul.update(ts - 1, None), ..self },
                Direction::Both => self,
            }
        }
    }

    /// After a circuit is created. It takes the place of one that was there.
    pub open spec fn created(self, dir: Direction, circuit: Circuit<D>) -> Circuits<D> {
        if !is_traffic_slot(circuit.ts) {
            self
        } else {
            match dir {
                Direction::Dl => Circuits {
                    dl: self.dl.update(circuit.ts - 1, Some(circuit)),
                    queued: self.queued.update(circuit.ts - 1, Seq::empty()),
                    ..self
                },
                Direction::Ul => Circuits {
                    ul: self.ul.update(circuit.ts - 1, Some(circuit)),
                    ..self
                },
                Direction::Both => self,
            }
        }
    }

    /// After a block is queued. The oldest blocks make room for it. Without an active downlink
    /// circuit it is discarded.
    pub open spec fn put(self, ts: u8, block: Vec<u8>) -> Circuits<D> {
        if !self.active(Direction::Dl, ts) {
            self
        } else {
            let queue = self.queued[ts - 1];
            let kept = latest(queue, MAX_REALTIME_TX_BLOCKS_PER_SLOT - 1);
            Circuits {
                queued: self.queued.update(ts - 1, kept.push(block)),
                dropped: self.dropped.update(
                    ts - 1,
                    saturated_u64(self.dropped[ts - 1] + (queue.len() - kept.len())),
                ),
                ..self
            }
        }
    }

    /// The block that is transmitted next on a timeslot.
    pub open spec fn front(self, ts: u8) -> Option<Vec<u8>> {
        if self.active(Direction::Dl, ts) && self.queued[ts - 1].len() > 0 {
            Some(self.queued[ts - 1][0])
        } else {
            None
        }
    }

    /// After the next block of a timeslot is taken.
    pub open spec fn taken(self, ts: u8) -> Circuits<D> {
        if self.front(ts) is Some {
            Circuits {
                queued: self.queued.update(ts - 1, self.queued[ts - 1].drop_first()),
                ..self
            }
        } else {
            self
        }
    }
}

impl<D> View for CircuitMgr<D> {
    type V = Circuits<D>;

    open spec fn view(&self) -> Circuits<D> {
        Circuits {
            dl: self.dl@,
            ul: self.ul@,
            queued: self.tx_data@.map_values(|q: VecDeque<Vec<u8>>| q@),
            dropped: self.tx_data_dropped_oldest@,
        }
    }
}

impl<D> CircuitMgr<D> {
    pub fn new() -> (out: CircuitMgr<D>)
        ensures
            out@ == (Circuits {
                dl: seq![None::<Circuit<D>>, None, None, None],
                ul: seq![None::<Circuit<D>>, None, None, None],
                queued: seq![Seq::<Vec<u8>>::empty(), Seq::empty(), Seq::empty(), Seq::empty()],
                dropped: seq![0u64, 0, 0, 0],
            }),
            out@.bounded(),
            out@.idle_empty(),
    {
        let out = CircuitMgr {
            dl: [None, None, None, None],
            ul: [None, None, None, None],
            tx_data: [VecDeque::new(), VecDeque::new(), VecDeque::new(), VecDeque::new()],
            tx_data_dropped_oldest: [0, 0, 0, 0],
        };
        proof {
            assert(out@.queued =~= seq![
                Seq::<Vec<u8>>::empty(),
                Seq::empty(),
                Seq::empty(),
                Seq::empty(),
            ]);
            assert(out@.dl =~= seq![None::<Circuit<D>>, None, None, None]);
            assert(out@.ul =~= seq![None::<Circuit<D>>, None, None, None]);
            assert(out@.dropped =~= seq![0u64, 0, 0, 0]);
        }
        out
    }

    /// The place of a timeslot.
    pub fn slot_index(ts: u8) -> (out: Option<usize>)
        ensures
            out == if is_slot(ts) {
                Some((ts - 1) as usize)
            } else {
                None
            },
    {
        if 1 <= ts && ts <= 4 {
            Some(ts as usize - 1)
        } else {
            None
        }
    }

    /// The place of a timeslot that can carry traffic.
    pub fn traffic_slot_index(ts: u8) -> (out: Option<usize>)
        ensures
            out == if is_traffic_slot(ts) {
                Some((ts - 1) as usize)
            } else {
                None
            },
    {
        if 2 <= ts && ts <= 4 {
            Some(ts as usize - 1)
        } else {
            None
        }
    }

    /// Whether there is a circuit on a timeslot.
    pub fn is_active(&self, dir: Direction, ts: u8) -> (r: bool)
        ensures
            r == self@.active(dir, ts),
    {
        match Self::slot_index(ts) {
            None => false,
            Some(slot) => match dir {
                Direction::Dl => self.dl[slot].is_some(),
                Direction::Ul => self.ul[slot].is_some(),
                Direction::Both => false,
            },
        }
    }

    /// The usage marker of the circuit on a timeslot.
    pub fn get_usage(&self, dir: Direction, ts: u8) -> (out: Option<u8>)
        ensures
            out == match self@.circuit(dir, ts) {
                Some(circuit) => Some(circuit.usage),
                None => None,
            },
    {
        match Self::slot_index(ts) {
            None => None,
            Some(slot) => match dir {
                Direction::Dl => match &self.dl[slot] {
                    Some(circuit) => Some(circuit.usage),
                    None => None,
                },
                Direction::Ul => match &self.ul[slot] {
                    Some(circuit) => Some(circuit.usage),
                    None => None,
                },
                Direction::Both => None,
            },
        }
    }

    /// Closes an active circuit, and returns it.
    pub fn close_circuit(&mut self, dir: Direction, ts: u8) -> (out: Option<Circuit<D>>)
        ensures
            out == old(self)@.circuit(dir, ts),
            final(self)@ == old(self)@.closed(dir, ts),
            old(self)@.bounded() ==> final(self)@.bounded(),
            old(self)@.idle_empty() ==> final(self)@.idle_empty(),
    {
        match Self::slot_index(ts) {
            None => None,
            Some(slot) => match dir {
                Direction::Dl => {
                    self.tx_data[slot].clear();
                    let out = self.dl[slot].take();
                    proof {
                        assert(self@.queued =~= old(self)@.queued.update(ts - 1, Seq::empty()));
                        assert(self@.dl =~= old(self)@.dl.update(ts - 1, None));
                    }
                    out
                },
                Direction::Ul => {
                    let out = self.ul[slot].take();
                    assert(self@.ul =~= old(self)@.ul.update(ts - 1, None));
                    out
                },
                Direction::Both => None,
            },
        }
    }

    /// Creates a circuit on its timeslot. The place should be free; if not, the circuit that is
    /// there is closed first.
    pub fn create_circuit(&mut self, dir: Direction, circuit: Circuit<D>)
        ensures
            final(self)@ == old(self)@.created(dir, circuit),
            old(self)@.bounded() ==> final(self)@.bounded(),
            old(self)@.idle_empty() ==> final(self)@.idle_empty(),
    {
        let ts: u8 = circuit.ts;
        let slot: usize = match Self::traffic_slot_index(ts) {
            None => {
                return ;
            },
            Some(slot) => slot,
        };
        if self.is_active(dir, ts) {
            let _ = self.close_circuit(dir, ts);
        }
        match dir {
            Direction::Dl => {
                self.tx_data[slot].clear();
                self.dl[slot] = Some(circuit);
                proof {
                    assert(self@.queued =~= old(self)@.queued.update(ts - 1, Seq::empty()));
                    assert(self@.dl =~= old(self)@.dl.update(ts - 1, Some(circuit)));
                }
            },
            Direction::Ul => {
                self.ul[slot] = Some(circuit);
                assert(self@.ul =~= old(self)@.ul.update(ts - 1, Some(circuit)));
            },
            Direction::Both => {},
        }
    }

    /// Queues a block for transmission.
    pub fn put_block(&mut self, ts: u8, block: Vec<u8>)
        ensures
            final(self)@ == old(self)@.put(ts, block),
            old(self)@.bounded() ==> final(self)@.bounded(),
            old(self)@.idle_empty() ==> final(self)@.idle_empty(),
    {
        let slot: usize = match Self::slot_index(ts) {
            None => {
                return ;
            },
            Some(slot) => slot,
        };
        if !self.is_active(Direction::Dl, ts) {
            return ;
        }
        let ghost before = self@;
        let ghost queue = self@.queued[slot as int];
        assert(queue.skip(0) =~= queue);
        while self.tx_data[slot].len() >= MAX_REALTIME_TX_BLOCKS_PER_SLOT
            invariant
                slot < 4,
                self@.dl == before.dl,
                self@.ul == before.ul,
                before.queued.len() == 4,
                before.dropped.len() == 4,
                queue == before.queued[slot as int],
                self.tx_data@[slot as int]@.len() <= queue.len(),
                self.tx_data@[slot as int]@ == queue.skip(
                    queue.len() - self.tx_data@[slot as int]@.len(),
                ),
                self.tx_data@[slot as int]@.len() < queue.len()
                    ==> self.tx_data@[slot as int]@.len() >= MAX_REALTIME_TX_BLOCKS_PER_SLOT - 1,
                self@.queued == before.queued.update(
                    slot as int,
                    self.tx_data@[slot as int]@,
                ),
                self@.dropped == before.dropped.update(
                    slot as int,
                    saturated_u64(
                        before.dropped[slot as int] + (queue.len()
                            - self.tx_data@[slot as int]@.len()),
                    ),
                ),
            decreases self.tx_data@[slot as int]@.len(),
        {
            let ghost earlier = self@;
            let _ = self.tx_data[slot].pop_front();
            self.tx_data_dropped_oldest[slot] = self.tx_data_dropped_oldest[slot].saturating_add(1);
            proof {
                let now = self.tx_data@[slot as int]@;
                assert(earlier.queued[slot as int].drop_first() =~= queue.skip(
                    queue.len() - now.len(),
                ));
                assert forall|j: int| 0 <= j < 4 implies self@.queued[j]
                    == before.queued.update(slot as int, now)[j] by {
                    assert(j != slot ==> earlier.queued[j] == before.queued[j]);
                }
                assert(self@.queued =~= before.queued.update(slot as int, now));
                assert(self@.dropped =~= before.dropped.update(
                    slot as int,
                    saturated_u64(before.dropped[slot as int] + (queue.len() - now.len())),
                ));
            }
        }
        let ghost kept = self.tx_data@[slot as int]@;
        assert(kept == latest(queue, MAX_REALTIME_TX_BLOCKS_PER_SLOT - 1)) by {
            if queue.len() < MAX_REALTIME_TX_BLOCKS_PER_SLOT {
                assert(kept =~= queue);
            }
        }
        let ghost earlier = self@;
        self.tx_data[slot].push_back(block);
        proof {
            assert forall|j: int| 0 <= j < 4 implies self@.queued[j] == before.queued.update(
                ts - 1,
                kept.push(block),
            )[j] by {
                assert(j != slot ==> earlier.queued[j] == before.queued[j]);
            }
            assert(self@.queued =~= before.queued.update(ts - 1, kept.push(block)));
        }
    }

    /// Takes the next block to transmit.
    pub fn take_block(&mut self, ts: u8) -> (out: Option<Vec<u8>>)
        ensures
            out == old(self)@.front(ts),
            final(self)@ == old(self)@.taken(ts),
            old(self)@.bounded() ==> final(self)@.bounded(),
            old(self)@.idle_empty() ==> final(self)@.idle_empty(),
    {
        let slot: usize = match Self::slot_index(ts) {
            None => {
                return None;
            },
            Some(slot) => slot,
        };
        if !self.is_active(Direction::Dl, ts) {
            return None;
        }
        let out = self.tx_data[slot].pop_front();
        proof {
            let queue = old(self)@.queued[slot as int];
            if queue.len() > 0 {
                assert(self@.queued =~= old(self)@.queued.update(ts - 1, queue.drop_first()));
            } else {
                assert(self@.queued =~= old(self)@.queued);
            }
        }
        out
    }
}

// ---------------------------------------------------------------------------------------------
// Laws
// ---------------------------------------------------------------------------------------------
/// Closing a circuit that was just created gives it back, and leaves the place free.
pub proof fn close_undoes_create<D>(c: Circuits<D>, dir: Direction, circuit: Circuit<D>)
    requires
        c.shaped(),
        is_traffic_slot(circuit.ts),
        dir != Direction::Both,
    ensures
        c.created(dir, circuit).active(dir, circuit.ts),
        c.created(dir, circuit).circuit(dir, circuit.ts) == Some(circuit),
        !c.created(dir, circuit).closed(dir, circuit.ts).active(dir, circuit.ts),
        c.created(dir, circuit).closed(dir, circuit.ts) == c.closed(dir, circuit.ts),
{
    let i = circuit.ts - 1;
    assert(c.created(dir, circuit).closed(dir, circuit.ts) =~= c.closed(dir, circuit.ts)) by {
        assert(c.dl.update(i, Some(circuit)).update(i, None) =~= c.dl.update(i, None));
        assert(c.ul.update(i, Some(circuit)).update(i, None) =~= c.ul.update(i, None));
        assert(c.queued.update(i, Seq::empty()).update(i, Seq::empty()) =~= c.queued.update(
            i,
            Seq::empty(),
        ));
    }
}

/// No operation opens a circuit on the first timeslot, or in no single direction.
pub proof fn signalling_slot_stays_free<D>(c: Circuits<D>, dir: Direction, circuit: Circuit<D>)
    requires
        c.shaped(),
    ensures
        c.created(dir, circuit).dl[0] == c.dl[0],
        c.created(dir, circuit).ul[0] == c.ul[0],
        dir == Direction::Both ==> c.created(dir, circuit) == c,
{
}

/// An operation on one timeslot leaves the others as they are.
pub proof fn timeslots_are_independent<D>(
    c: Circuits<D>,
    dir: Direction,
    circuit: Circuit<D>,
    ts: u8,
    block: Vec<u8>,
    other: u8,
)
    requires
        c.shaped(),
        is_slot(other),
    ensures
        forall|d: Direction| #![trigger c.circuit(d, other)]
            other != circuit.ts ==> c.created(dir, circuit).circuit(d, other) == c.circuit(d, other),
        forall|d: Direction| #![trigger c.circuit(d, other)]
            other != ts ==> c.closed(dir, ts).circuit(d, other) == c.circuit(d, other),
        other != ts ==> c.put(ts, block).front(other) == c.front(other),
        other != ts ==> c.put(ts, block).queued[other - 1] == c.queued[other - 1],
        other != ts ==> c.taken(ts).queued[other - 1] == c.queued[other - 1],
        other != ts ==> c.closed(dir, ts).queued[other - 1] == c.queued[other - 1],
{
}

/// The queue of an active timeslot holds the latest blocks put there: after a block is put, it
/// is the last one, and the ones before it are the latest that fit.
pub proof fn queue_holds_latest<D>(c: Circuits<D>, ts: u8, block: Vec<u8>)
    requires
        c.shaped(),
        c.active(Direction::Dl, ts),
    ensures
        c.put(ts, block).queued[ts - 1] == latest(
            c.queued[ts - 1].push(block),
            MAX_REALTIME_TX_BLOCKS_PER_SLOT as int,
        ),
        c.put(ts, block).queued[ts - 1].last() == block,
        c.put(ts, block).queued[ts - 1].len() <= MAX_REALTIME_TX_BLOCKS_PER_SLOT,
{
    let queue = c.queued[ts - 1];
    assert(c.put(ts, block).queued[ts - 1] =~= latest(
        queue.push(block),
        MAX_REALTIME_TX_BLOCKS_PER_SLOT as int,
    ));
}

/// Blocks come out in the order in which they were put: as long as nothing is dropped, taking
/// a block and putting one can be exchanged.
pub proof fn blocks_come_out_in_order<D>(c: Circuits<D>, ts: u8, block: Vec<u8>)
    requires
        c.shaped(),
        c.active(Direction::Dl, ts),
        0 < c.queued[ts - 1].len() < MAX_REALTIME_TX_BLOCKS_PER_SLOT,
    ensures
        c.put(ts, block).front(ts) == c.front(ts),
        c.put(ts, block).taken(ts) == c.taken(ts).put(ts, block),
{
    let i = ts - 1;
    let queue = c.queued[i];
    let a = c.put(ts, block).taken(ts);
    let b = c.taken(ts).put(ts, block);
    assert(queue.push(block).drop_first() =~= queue.drop_first().push(block));
    assert(a.queued =~= b.queued);
    assert(a.dropped =~= b.dropped);
}

/// A block put on an empty active timeslot is the next one taken, and leaves it empty again.
pub proof fn take_undoes_put<D>(c: Circuits<D>, ts: u8, block: Vec<u8>)
    requires
        c.shaped(),
        c.active(Direction::Dl, ts),
        c.queued[ts - 1].len() == 0,
    ensures
        c.put(ts, block).front(ts) == Some(block),
        c.put(ts, block).taken(ts) == c,
{
    let i = ts - 1;
    let a = c.put(ts, block).taken(ts);
    assert(c.queued[i].push(block).drop_first() =~= c.queued[i]);
    assert(a.queued =~= c.queued);
    assert(a.dropped =~= c.dropped);
}

/// No operation leaves a block waiting on a timeslot without a downlink circuit.
pub proof fn idle_timeslots_stay_empty<D>(
    c: Circuits<D>,
    dir: Direction,
    circuit: Circuit<D>,
    ts: u8,
    block: Vec<u8>,
)
    requires
        c.shaped(),
        c.idle_empty(),
    ensures
        c.created(dir, circuit).idle_empty(),
        c.closed(dir, ts).idle_empty(),
        c.put(ts, block).idle_empty(),
        c.taken(ts).idle_empty(),
{
    assert forall|i: int| 0 <= i < 4 && c.put(ts, block).dl[i] is None implies (
    #[trigger] c.put(ts, block).queued[i]).len() == 0 by {
        assert(c.queued[i].len() == 0);
    }
    assert forall|i: int| 0 <= i < 4 && c.taken(ts).dl[i] is None implies (
    #[trigger] c.taken(ts).queued[i]).len() == 0 by {
        assert(c.queued[i].len() == 0);
    }
}

/// The blocks that wait on the timeslot in a place.
pub open spec fn waiting<D>(mgr: CircuitMgr<D>, i: int) -> Seq<Vec<u8>> {
    mgr.tx_data@[i]@
}

/// Closing a circuit in one direction leaves all circuits of the other direction as they were, on
/// every timeslot, the same one too, and all other circuits of its own direction. Closing an uplink
/// circuit leaves the waiting blocks alone; closing a downlink one leaves none on its timeslot.
pub proof fn closing_leaves_the_other_direction<D>(
    mgr: &mut CircuitMgr<D>,
    dir: Direction,
    ts: u8,
    out: Option<Circuit<D>>,
)
    requires
        call_ensures(CircuitMgr::<D>::close_circuit, (mgr, dir, ts), out),
    ensures
        dir != Direction::Ul ==> final(mgr).ul@ == old(mgr).ul@,
        dir != Direction::Dl ==> final(mgr).dl@ == old(mgr).dl@,
        dir == Direction::Ul && 1 <= ts <= 4 ==> final(mgr).ul@[ts - 1] is None && out == old(
            mgr,
        ).ul@[ts - 1],
        dir == Direction::Dl && 1 <= ts <= 4 ==> final(mgr).dl@[ts - 1] is None && out == old(
            mgr,
        ).dl@[ts - 1],
        dir == Direction::Both || ts == 0 || ts > 4 ==> out is None && final(mgr).ul@ == old(mgr).ul@
            && final(mgr).dl@ == old(mgr).dl@,
        forall|i: int|
            0 <= i < 4 && i != ts - 1 ==> (#[trigger] final(mgr).ul@[i]) == old(mgr).ul@[i],
        forall|i: int|
            0 <= i < 4 && i != ts - 1 ==> (#[trigger] final(mgr).dl@[i]) == old(mgr).dl@[i],
        forall|i: int|
            0 <= i < 4 ==> (#[trigger] waiting(*final(mgr), i)) == if dir == Direction::Dl && i
                == ts - 1 {
                Seq::empty()
            } else {
                waiting(*old(mgr), i)
            },
        final(mgr).tx_data_dropped_oldest@ == old(mgr).tx_data_dropped_oldest@,
{
    assert forall|i: int| 0 <= i < 4 implies (#[trigger] waiting(*final(mgr), i))
        == final(mgr)@.queued[i] && waiting(*old(mgr), i) == old(mgr)@.queued[i] by {}
}

/// Creating a circuit in one direction leaves all circuits of the other direction as they were, on
/// every timeslot, the same one too, and all other circuits of its own direction. It is there
/// afterwards where its timeslot can carry traffic, and else nothing changes. Only on the timeslot
/// of a new downlink circuit are waiting blocks removed.
pub proof fn creating_leaves_the_other_direction<D>(
    mgr: &mut CircuitMgr<D>,
    dir: Direction,
    circuit: Circuit<D>,
    out: (),
)
    requires
        call_ensures(CircuitMgr::<D>::create_circuit, (mgr, dir, circuit), out),
    ensures
        dir != Direction::Ul ==> final(mgr).ul@ == old(mgr).ul@,
        dir != Direction::Dl ==> final(mgr).dl@ == old(mgr).dl@,
        dir == Direction::Ul && 2 <= circuit.ts <= 4 ==> final(mgr).ul@[circuit.ts - 1] == Some(
            circuit,
        ),
        dir == Direction::Dl && 2 <= circuit.ts <= 4 ==> final(mgr).dl@[circuit.ts - 1] == Some(
            circuit,
        ),
        circuit.ts < 2 || circuit.ts > 4 ==> final(mgr).ul@ == old(mgr).ul@ && final(mgr).dl@ == old(
            mgr,
        ).dl@,
        forall|i: int|
            0 <= i < 4 && i != circuit.ts - 1 ==> (#[trigger] final(mgr).ul@[i]) == old(mgr).ul@[i],
        forall|i: int|
            0 <= i < 4 && i != circuit.ts - 1 ==> (#[trigger] final(mgr).dl@[i]) == old(mgr).dl@[i],
        forall|i: int|
            0 <= i < 4 ==> (#[trigger] waiting(*final(mgr), i)) == if dir == Direction::Dl && i
                == circuit.ts - 1 && i > 0 {
                Seq::empty()
            } else {
                waiting(*old(mgr), i)
            },
        final(mgr).tx_data_dropped_oldest@ == old(mgr).tx_data_dropped_oldest@,
{
    assert forall|i: int| 0 <= i < 4 implies (#[trigger] waiting(*final(mgr), i))
        == final(mgr)@.queued[i] && waiting(*old(mgr), i) == old(mgr)@.queued[i] by {}
}

/// Whether there is a circuit, and its usage marker, is told of the direction and timeslot that
/// is asked for, and of nothing else.
pub proof fn circuits_are_told_as_they_are<D>(
    mgr: &CircuitMgr<D>,
    dir: Direction,
    ts: u8,
    active: bool,
    usage: Option<u8>,
)
    requires
        call_ensures(CircuitMgr::<D>::is_active, (mgr, dir, ts), active),
        call_ensures(CircuitMgr::<D>::get_usage, (mgr, dir, ts), usage),
    ensures
        active <==> usage is Some,
        1 <= ts <= 4 && dir == Direction::Dl ==> (active <==> mgr.dl@[ts - 1] is Some),
        1 <= ts <= 4 && dir == Direction::Ul ==> (active <==> mgr.ul@[ts - 1] is Some),
        active && dir == Direction::Dl ==> usage == Some(mgr.dl@[ts - 1]->0.usage),
        active && dir == Direction::Ul ==> usage == Some(mgr.ul@[ts - 1]->0.usage),
        active ==> 1 <= ts <= 4 && dir != Direction::Both,
{
}

/// A block that is queued on a timeslot with a downlink circuit waits behind all that wait there.
/// Where that makes more than six, the oldest are gone, as many as are too many, and counted; else
/// none is. Nothing else changes, and without a downlink circuit nothing at all.
pub proof fn queued_block_waits_last<D>(
    mgr: &mut CircuitMgr<D>,
    ts: u8,
    block: Vec<u8>,
    out: (),
)
    requires
        call_ensures(CircuitMgr::<D>::put_block, (mgr, ts, block), out),
    ensures
        final(mgr).dl@ == old(mgr).dl@,
        final(mgr).ul@ == old(mgr).ul@,
        1 <= ts <= 4 && old(mgr).dl@[ts - 1] is Some ==> {
            let all = waiting(*old(mgr), ts - 1).push(block);
            let gone = if all.len() > 6 {
                all.len() - 6
            } else {
                0
            };
            let counted = old(mgr).tx_data_dropped_oldest@[ts - 1] + gone;
            &&& waiting(*final(mgr), ts - 1) == all.skip(gone)
            &&& final(mgr).tx_data_dropped_oldest@[ts - 1] == if counted > u64::MAX {
                u64::MAX as int
            } else {
                counted
            }
        },
        !(1 <= ts <= 4 && old(mgr).dl@[ts - 1] is Some) ==> final(mgr).tx_data_dropped_oldest@
            == old(mgr).tx_data_dropped_oldest@ && forall|i: int|
            0 <= i < 4 ==> (#[trigger] waiting(*final(mgr), i)) == waiting(*old(mgr), i),
        forall|i: int|
            0 <= i < 4 && i != ts - 1 ==> (#[trigger] waiting(*final(mgr), i)) == waiting(
                *old(mgr),
                i,
            ),
        forall|i: int|
            0 <= i < 4 && i != ts - 1 ==> (#[trigger] final(mgr).tx_data_dropped_oldest@[i]) == old(
                mgr,
            ).tx_data_dropped_oldest@[i],
{
    assert forall|i: int| 0 <= i < 4 implies (#[trigger] waiting(*final(mgr), i))
        == final(mgr)@.queued[i] && waiting(*old(mgr), i) == old(mgr)@.queued[i] by {}
    if 1 <= ts <= 4 && old(mgr).dl@[ts - 1] is Some {
        let queue = waiting(*old(mgr), ts - 1);
        let all = queue.push(block);
        let gone = if all.len() > 6 {
            all.len() - 6
        } else {
            0
        };
        assert(waiting(*final(mgr), ts - 1) =~= all.skip(gone));
    }
}

/// The block that is taken is the oldest that waits on the timeslot; the others go on waiting, and
/// nothing else changes. Without a downlink circuit, or without blocks, there is none.
pub proof fn taken_block_is_the_oldest<D>(
    mgr: &mut CircuitMgr<D>,
    ts: u8,
    out: Option<Vec<u8>>,
)
    requires
        call_ensures(CircuitMgr::<D>::take_block, (mgr, ts), out),
    ensures
        final(mgr).dl@ == old(mgr).dl@,
        final(mgr).ul@ == old(mgr).ul@,
        final(mgr).tx_data_dropped_oldest@ == old(mgr).tx_data_dropped_oldest@,
        out is Some <==> 1 <= ts <= 4 && old(mgr).dl@[ts - 1] is Some && waiting(
            *old(mgr),
            ts - 1,
        ).len() > 0,
        out matches Some(block) ==> waiting(*old(mgr), ts - 1) == seq![block] + waiting(
            *final(mgr),
            ts - 1,
        ),
        forall|i: int|
            0 <= i < 4 && (i != ts - 1 || out is None) ==> (#[trigger] waiting(*final(mgr), i))
                == waiting(*old(mgr), i),
{
    assert forall|i: int| 0 <= i < 4 implies (#[trigger] waiting(*final(mgr), i))
        == final(mgr)@.queued[i] && waiting(*old(mgr), i) == old(mgr)@.queued[i] by {}
    if out is Some {
        let queue = waiting(*old(mgr), ts - 1);
        assert(queue =~= seq![queue[0]] + queue.drop_first());
    }
}

/// In the beginning there are no circuits and no blocks, and none was dropped.
pub proof fn new_manager_is_empty<D>(out: CircuitMgr<D>)
    requires
        call_ensures(CircuitMgr::<D>::new, (), out),
    ensures
        forall|i: int| 0 <= i < 4 ==> (#[trigger] out.dl@[i]) is None,
        forall|i: int| 0 <= i < 4 ==> (#[trigger] out.ul@[i]) is None,
        forall|i: int| 0 <= i < 4 ==> (#[trigger] waiting(out, i)).len() == 0,
        forall|i: int| 0 <= i < 4 ==> (#[trigger] out.tx_data_dropped_oldest@[i]) == 0,
{
    assert(out.dl@ == out@.dl && out.ul@ == out@.ul);
    assert(out.tx_data_dropped_oldest@ == out@.dropped);
    assert forall|i: int| 0 <= i < 4 implies (#[trigger] waiting(out, i)) == out@.queued[i] by {}
}

/// The timeslots are numbered from one to four, and the first one cannot carry traffic.
pub proof fn timeslots_have_their_places(ts: u8, slot: Option<usize>, traffic: Option<usize>)
    requires
        call_ensures(CircuitMgr::<()>::slot_index, (ts,), slot),
        call_ensures(CircuitMgr::<()>::traffic_slot_index, (ts,), traffic),
    ensures
        slot is Some <==> ts == 1 || ts == 2 || ts == 3 || ts == 4,
        slot matches Some(i) ==> i + 1 == ts,
        traffic is Some <==> ts == 2 || ts == 3 || ts == 4,
        traffic matches Some(i) ==> i + 1 == ts,
{
}

} // verus!
