//! Message exchange between the entities of the protocol stack.
use crate::observer::{Observation, Observer};
use crate::tdma::{plus_adds_up, plus_zero, slot_number, slot_numbers_round_trip, TdmaTime};
use std::collections::VecDeque;
use std::sync::atomic::AtomicBool;
use std::sync::Arc;
use std::time::Instant;
use vstd::prelude::*;

verus! {

/// How many messages are delivered before delivery gives way to the timing of the air
/// interface.
pub const MAX_IMMEDIATE_MESSAGES_PER_DRAIN: usize = 4096;

/// How many messages of the normal lane are delivered in a tick.
pub const MAX_NORMAL_MESSAGES_PER_DRAIN: usize = 64;

/// How long messages of the normal lane are delivered in a tick, in nanoseconds.
pub const NORMAL_DELIVERY_BUDGET_NS: u128 = 2_000_000;

/// An entity of the protocol stack. Entities that the router does not tell apart are numbered by
/// the integrator.
#[derive(Debug, Clone, Copy, PartialEq, Eq, Structural)]
pub enum TetraEntity {
    Phy,
    Lmac,
    Umac,
    Llc,
    Mle,
    Mm,
    Cmce,
    Brew,
    Other(u8),
}

/// A message from one entity to another.
#[derive(Debug)]
pub struct SapMsg<P> {
    pub src: TetraEntity,
    pub dest: TetraEntity,
    pub msg: P,
}

impl<P> SapMsg<P> {
    pub fn get_source(&self) -> (out: TetraEntity)
        ensures
            out == self.src,
    {
        self.src
    }

    pub fn get_dest(&self) -> (out: TetraEntity)
        ensures
            out == self.dest,
    {
        self.dest
    }
}

#[derive(Debug, Clone, Copy, PartialEq, Eq, Structural)]
pub enum MessagePrio {
    /// Feedback within a slot, which goes before the immediate messages that already wait.
    Critical,
    Immediate,
    Normal,
}

impl Default for MessagePrio {
    fn default() -> (out: MessagePrio)
        ensures
            out == MessagePrio::Normal,
    {
        MessagePrio::Normal
    }
}

// ---------------------------------------------------------------------------------------------
// Queue
// ---------------------------------------------------------------------------------------------
pub struct MessageQueue<P> {
    pub immediate_messages: VecDeque<SapMsg<P>>,
    pub messages: VecDeque<SapMsg<P>>,
}

/// The waiting messages of both lanes, the next one first.
#[verifier::ext_equal]
pub ghost struct Queued<P> {
    pub immediate: Seq<SapMsg<P>>,
    pub normal: Seq<SapMsg<P>>,
}

impl<P> Queued<P> {
    pub open spec fn len(self) -> nat {
        self.immediate.len() + self.normal.len()
    }

    /// All waiting messages in the order in which they are delivered.
    pub open spec fn in_order(self) -> Seq<SapMsg<P>> {
        self.immediate + self.normal
    }

    pub open spec fn pushed(self, message: SapMsg<P>, prio: MessagePrio) -> Queued<P> {
        match prio {
            MessagePrio::Critical => Queued { immediate: seq![message] + self.immediate, ..self },
            MessagePrio::Immediate => Queued { immediate: self.immediate.push(message), ..self },
            MessagePrio::Normal => Queued { normal: self.normal.push(message), ..self },
        }
    }

    pub open spec fn without_immediate(self) -> Queued<P> {
        Queued { immediate: self.immediate.drop_first(), ..self }
    }

    pub open spec fn without_normal(self) -> Queued<P> {
        Queued { normal: self.normal.drop_first(), ..self }
    }

    /// The message that is delivered next.
    pub open spec fn front(self) -> SapMsg<P>
        recommends
            self.len() > 0,
    {
        if self.immediate.len() > 0 {
            self.immediate[0]
        } else {
            self.normal[0]
        }
    }

    /// What waits after the next message is taken.
    pub open spec fn without_front(self) -> Queued<P> {
        if self.immediate.len() > 0 {
            self.without_immediate()
        } else {
            self.without_normal()
        }
    }
}

impl<P> View for MessageQueue<P> {
    type V = Queued<P>;

    open spec fn view(&self) -> Queued<P> {
        Queued { immediate: self.immediate_messages@, normal: self.messages@ }
    }
}

impl<P> MessageQueue<P> {
    pub fn new() -> (out: MessageQueue<P>)
        ensures
            out@ == (Queued { immediate: Seq::<SapMsg<P>>::empty(), normal: Seq::empty() }),
    {
        MessageQueue { immediate_messages: VecDeque::new(), messages: VecDeque::new() }
    }

    pub fn push_back(&mut self, message: SapMsg<P>)
        ensures
            final(self)@ == old(self)@.pushed(message, MessagePrio::Normal),
    {
        self.messages.push_back(message);
    }

    pub fn push_prio(&mut self, message: SapMsg<P>, prio: MessagePrio)
        ensures
            final(self)@ == old(self)@.pushed(message, prio),
    {
        match prio {
            MessagePrio::Critical => {
                self.immediate_messages.push_front(message);
            },
            MessagePrio::Immediate => {
                self.immediate_messages.push_back(message);
            },
            MessagePrio::Normal => {
                self.messages.push_back(message);
            },
        }
    }

    /// Takes the next message: an immediate one, or where there is none, a normal one.
    pub fn pop_front(&mut self) -> (out: Option<SapMsg<P>>)
        ensures
            old(self)@.len() == 0 ==> out is None && final(self)@ == old(self)@,
            old(self)@.len() > 0 ==> out == Some(old(self)@.front()) && final(self)@ == old(
                self,
            )@.without_front(),
    {
        match self.immediate_messages.pop_front() {
            Some(message) => {
                assert(self@ =~= old(self)@.without_front());
                Some(message)
            },
            None => {
                let out = self.messages.pop_front();
                proof {
                    if old(self)@.len() > 0 {
                        assert(self@ =~= old(self)@.without_front());
                    } else {
                        assert(self@ =~= old(self)@);
                    }
                }
                out
            },
        }
    }

    pub fn pop_immediate(&mut self) -> (out: Option<SapMsg<P>>)
        ensures
            old(self)@.immediate.len() == 0 ==> out is None && final(self)@ == old(self)@,
            old(self)@.immediate.len() > 0 ==> out == Some(old(self)@.immediate[0]) && final(self)@
                == old(self)@.without_immediate(),
    {
        let out = self.immediate_messages.pop_front();
        proof {
            if old(self)@.immediate.len() > 0 {
                assert(self@ =~= old(self)@.without_immediate());
            } else {
                assert(self@ =~= old(self)@);
            }
        }
        out
    }

    pub fn pop_normal(&mut self) -> (out: Option<SapMsg<P>>)
        ensures
            old(self)@.normal.len() == 0 ==> out is None && final(self)@ == old(self)@,
            old(self)@.normal.len() > 0 ==> out == Some(old(self)@.normal[0]) && final(self)@
                == old(self)@.without_normal(),
    {
        let out = self.messages.pop_front();
        proof {
            if old(self)@.normal.len() > 0 {
                assert(self@ =~= old(self)@.without_normal());
            } else {
                assert(self@ =~= old(self)@);
            }
        }
        out
    }

    /// The number of waiting messages.
    pub fn len(&self) -> (out: usize)
        requires
            self@.len() <= usize::MAX,
        ensures
            out == self@.len(),
    {
        self.immediate_messages.len() + self.messages.len()
    }

    pub fn has_immediate(&self) -> (r: bool)
        ensures
            r == (self@.immediate.len() > 0),
    {
        self.immediate_messages.len() > 0
    }

    pub fn has_normal(&self) -> (r: bool)
        ensures
            r == (self@.normal.len() > 0),
    {
        self.messages.len() > 0
    }
}

// ---------------------------------------------------------------------------------------------
// Entities
// ---------------------------------------------------------------------------------------------
/// An entity of the protocol stack, as the router sees it.
///
/// What an entity does when it is called is its own affair. Each of its three reactions is
/// described by a relation between what it is given and what it leaves behind. An entity that
/// leaves its reactions open takes these relations as they are given here, which hold of
/// everything; one that is verified may narrow them. Which entity it is, each says for itself.
pub trait TetraEntityTrait<P>: Sized {
    /// Which entity this is.
    spec fn identity(&self) -> TetraEntity;

    /// Whether the entity may react to a message in this way.
    open spec fn may_receive(
        before: Self,
        queue: Queued<P>,
        message: SapMsg<P>,
        after: Self,
        queue_after: Queued<P>,
    ) -> bool {
        true
    }

    /// Whether the entity may react to the start of a tick in this way.
    open spec fn may_start(
        before: Self,
        queue: Queued<P>,
        ts: TdmaTime,
        after: Self,
        queue_after: Queued<P>,
    ) -> bool {
        true
    }

    /// Whether the entity may react to the end of a tick in this way.
    open spec fn may_end(
        before: Self,
        queue: Queued<P>,
        ts: TdmaTime,
        after: Self,
        queue_after: Queued<P>,
    ) -> bool {
        true
    }

    fn entity(&self) -> (out: TetraEntity)
        ensures
            out == self.identity(),
    ;

    fn rx_prim(&mut self, queue: &mut MessageQueue<P>, message: SapMsg<P>)
        ensures
            Self::may_receive(*old(self), old(queue)@, message, *final(self), final(queue)@),
    ;

    fn tick_start(&mut self, queue: &mut MessageQueue<P>, ts: TdmaTime)
        ensures
            Self::may_start(*old(self), old(queue)@, ts, *final(self), final(queue)@),
    ;

    fn tick_end(&mut self, queue: &mut MessageQueue<P>, ts: TdmaTime)
        ensures
            Self::may_end(*old(self), old(queue)@, ts, *final(self), final(queue)@),
    ;
}

/// An entity, with the identity under which it is registered.
pub struct Registered<E> {
    pub id: TetraEntity,
    pub entity: E,
}

/// The place of the entity that is registered as `id`, or the number of entities where there is
/// none.
pub open spec fn place_of<E>(entities: Seq<Registered<E>>, id: TetraEntity) -> int
    decreases entities.len(),
{
    if entities.len() == 0 || entities[0].id == id {
        0
    } else {
        1 + place_of(entities.drop_first(), id)
    }
}

/// Whether an entity is registered as `id`.
pub open spec fn is_registered<E>(entities: Seq<Registered<E>>, id: TetraEntity) -> bool {
    place_of(entities, id) < entities.len()
}

/// The identities under which entities are registered, in the order of registration.
pub open spec fn ids_of<E>(entities: Seq<Registered<E>>) -> Seq<TetraEntity> {
    entities.map_values(|r: Registered<E>| r.id)
}

/// Whether no identity is registered twice.
pub open spec fn all_distinct<E>(entities: Seq<Registered<E>>) -> bool {
    forall|i: int, j: int|
        0 <= i < j < entities.len() ==> (#[trigger] entities[i]).id != (#[trigger] entities[j]).id
}

/// The entities after the registration of one. It takes the place of one that was registered
/// under the same identity.
pub open spec fn with_registered<E>(
    entities: Seq<Registered<E>>,
    id: TetraEntity,
    entity: E,
) -> Seq<Registered<E>> {
    let i = place_of(entities, id);
    if i < entities.len() {
        entities.update(i, Registered { id, entity })
    } else {
        entities.push(Registered { id, entity })
    }
}

proof fn lemma_place_of<E>(entities: Seq<Registered<E>>, id: TetraEntity)
    ensures
        0 <= place_of(entities, id) <= entities.len(),
        place_of(entities, id) < entities.len() ==> entities[place_of(entities, id)].id == id,
        forall|k: int| 0 <= k < place_of(entities, id) ==> entities[k].id != id,
    decreases entities.len(),
{
    if entities.len() > 0 && entities[0].id != id {
        let rest = entities.drop_first();
        lemma_place_of(rest, id);
        assert forall|k: int| 0 <= k < place_of(entities, id) implies entities[k].id != id by {
            if k > 0 {
                assert(rest[k - 1] == entities[k]);
            }
        }
    }
}

proof fn lemma_place_is<E>(entities: Seq<Registered<E>>, id: TetraEntity, i: int)
    requires
        0 <= i <= entities.len(),
        forall|k: int| 0 <= k < i ==> entities[k].id != id,
        i < entities.len() ==> entities[i].id == id,
    ensures
        place_of(entities, id) == i,
{
    lemma_place_of(entities, id);
    let j = place_of(entities, id);
    if j < i {
        assert(entities[j].id == id);
    } else if i < j {
        assert(entities[i].id != id);
    }
}

// ---------------------------------------------------------------------------------------------
// Router
// ---------------------------------------------------------------------------------------------
pub struct MessageRouter<P, E: TetraEntityTrait<P>> {
    pub entities: Vec<Registered<E>>,
    pub msg_queue: MessageQueue<P>,
    /// The current TDMA time.
    pub ts: TdmaTime,
    /// The clock, and the flag by which a run is stopped.
    pub observer: Observer,
}

/// The entities, the waiting messages, the time, and all that was learned from outside.
#[verifier::ext_equal]
pub ghost struct Stack<P, E> {
    pub entities: Seq<Registered<E>>,
    pub queue: Queued<P>,
    pub ts: TdmaTime,
    pub seen: Seq<Observation>,
}

impl<P, E: TetraEntityTrait<P>> View for MessageRouter<P, E> {
    type V = Stack<P, E>;

    open spec fn view(&self) -> Stack<P, E> {
        Stack {
            entities: self.entities@,
            queue: self.msg_queue@,
            ts: self.ts,
            seen: self.observer@,
        }
    }
}

/// The stack when something was learned from outside.
pub open spec fn saw<P, E>(a: Stack<P, E>, what: Observation) -> Stack<P, E> {
    Stack { seen: a.seen.push(what), ..a }
}

/// The stack when the clock showed that `ns` nanoseconds had passed since an instant.
pub open spec fn timed<P, E>(a: Stack<P, E>, since: Instant, ns: u128) -> Stack<P, E> {
    saw(a, Observation::Elapsed(since, ns))
}

/// Whether `b` is `a` with another entity in place `i` and other messages waiting.
pub open spec fn only_at<P, E>(a: Stack<P, E>, b: Stack<P, E>, i: int) -> bool {
    &&& b.ts == a.ts
    &&& b.seen == a.seen
    &&& b.entities.len() == a.entities.len()
    &&& b.entities[i].id == a.entities[i].id
    &&& forall|j: int| 0 <= j < a.entities.len() && j != i ==> b.entities[j] == a.entities[j]
}

/// Whether `b` can follow `a` by the delivery of `message`, with `rest` waiting meanwhile. A
/// message for an entity that is not registered is dropped.
pub open spec fn delivered<P, E: TetraEntityTrait<P>>(
    a: Stack<P, E>,
    message: SapMsg<P>,
    rest: Queued<P>,
    b: Stack<P, E>,
) -> bool {
    let i = place_of(a.entities, message.dest);
    if i < a.entities.len() {
        &&& only_at(a, b, i)
        &&& E::may_receive(a.entities[i].entity, rest, message, b.entities[i].entity, b.queue)
    } else {
        b == (Stack { queue: rest, ..a })
    }
}

/// Whether `b` can follow `a` by the delivery of the next message.
pub open spec fn front_delivered<P, E: TetraEntityTrait<P>>(a: Stack<P, E>, b: Stack<P, E>) -> bool {
    a.queue.len() > 0 && delivered(a, a.queue.front(), a.queue.without_front(), b)
}

/// Whether `b` can follow `a` by the delivery of the next immediate message.
pub open spec fn immediate_delivered<P, E: TetraEntityTrait<P>>(
    a: Stack<P, E>,
    b: Stack<P, E>,
) -> bool {
    a.queue.immediate.len() > 0 && delivered(
        a,
        a.queue.immediate[0],
        a.queue.without_immediate(),
        b,
    )
}

/// Whether `b` can follow `a` by the delivery of the next normal message while no immediate one
/// waits.
pub open spec fn normal_delivered<P, E: TetraEntityTrait<P>>(
    a: Stack<P, E>,
    b: Stack<P, E>,
) -> bool {
    a.queue.immediate.len() == 0 && a.queue.normal.len() > 0 && delivered(
        a,
        a.queue.normal[0],
        a.queue.without_normal(),
        b,
    )
}

/// Whether `b` can follow `a` by `n` deliveries, each of the message that is next at its time.
pub open spec fn front_run<P, E: TetraEntityTrait<P>>(a: Stack<P, E>, b: Stack<P, E>, n: nat) -> bool
    decreases n,
{
    if n == 0 {
        a == b
    } else {
        exists|m: Stack<P, E>| front_run(a, m, (n - 1) as nat) && #[trigger] front_delivered(m, b)
    }
}

/// Whether `b` can follow `a` by `n` deliveries of immediate messages.
pub open spec fn immediate_run<P, E: TetraEntityTrait<P>>(
    a: Stack<P, E>,
    b: Stack<P, E>,
    n: nat,
) -> bool
    decreases n,
{
    if n == 0 {
        a == b
    } else {
        exists|m: Stack<P, E>|
            immediate_run(a, m, (n - 1) as nat) && #[trigger] immediate_delivered(m, b)
    }
}

/// Whether `b` can follow `a` when the immediate lane is drained in `n` deliveries: until it is
/// empty, or the bound is reached.
pub open spec fn drained_in<P, E: TetraEntityTrait<P>>(
    a: Stack<P, E>,
    b: Stack<P, E>,
    n: nat,
) -> bool {
    &&& immediate_run(a, b, n)
    &&& n <= MAX_IMMEDIATE_MESSAGES_PER_DRAIN
    &&& n < MAX_IMMEDIATE_MESSAGES_PER_DRAIN ==> b.queue.immediate.len() == 0
}

/// Whether `b` can follow `a` when the immediate lane is drained.
pub open spec fn drained<P, E: TetraEntityTrait<P>>(a: Stack<P, E>, b: Stack<P, E>) -> bool {
    exists|n: nat| drained_in(a, b, n)
}

/// Whether `b` can follow `a` when both lanes are drained in `n` deliveries: until they are
/// empty, or the bound is reached.
pub open spec fn emptied_in<P, E: TetraEntityTrait<P>>(
    a: Stack<P, E>,
    b: Stack<P, E>,
    n: nat,
) -> bool {
    &&& front_run(a, b, n)
    &&& n <= MAX_IMMEDIATE_MESSAGES_PER_DRAIN
    &&& n < MAX_IMMEDIATE_MESSAGES_PER_DRAIN ==> b.queue.len() == 0
}

/// Whether `b` can follow `a` when both lanes are drained.
pub open spec fn emptied<P, E: TetraEntityTrait<P>>(a: Stack<P, E>, b: Stack<P, E>) -> bool {
    exists|n: nat| emptied_in(a, b, n)
}

/// Whether `b` can follow `a` in `rounds` rounds with `n` deliveries of normal messages. Time is
/// measured from `since`, at which the clock stood in the beginning, and is read before each round.
/// A round takes place while there is time and the bound is not reached; it drains the immediate lane where anything waits
/// there, and else delivers a normal message.
pub open spec fn normal_run<P, E: TetraEntityTrait<P>>(
    a: Stack<P, E>,
    since: Instant,
    b: Stack<P, E>,
    rounds: nat,
    n: nat,
) -> bool
    decreases rounds,
{
    if rounds == 0 {
        b == saw(a, Observation::Now(since)) && n == 0
    } else {
        ||| n < MAX_NORMAL_MESSAGES_PER_DRAIN && exists|m: Stack<P, E>, ns: u128|
            normal_run(a, since, m, (rounds - 1) as nat, n) && ns < NORMAL_DELIVERY_BUDGET_NS
                && m.queue.immediate.len() > 0 && #[trigger] drained(timed(m, since, ns), b)
        ||| 0 < n <= MAX_NORMAL_MESSAGES_PER_DRAIN && exists|m: Stack<P, E>, ns: u128|
            normal_run(a, since, m, (rounds - 1) as nat, (n - 1) as nat) && ns < NORMAL_DELIVERY_BUDGET_NS
                && #[trigger] normal_delivered(timed(m, since, ns), b)
    }
}

/// Whether the delivery of normal messages can end in `b`, with `n` of them delivered: at a
/// reading of the clock, where the bound is reached, the time is up or no message waits, or where
/// the rounds can no longer be counted. It was cut short where the bound was not reached and the
/// time was up, or the rounds could no longer be counted.
pub open spec fn lane_finished<P, E: TetraEntityTrait<P>>(
    a: Stack<P, E>,
    b: Stack<P, E>,
    n: nat,
    cut_short: bool,
) -> bool {
    ||| exists|since: Instant| #[trigger] finished_at_reading(a, since, b, n, cut_short)
    ||| cut_short == (n < MAX_NORMAL_MESSAGES_PER_DRAIN) && exists|since: Instant| #[trigger]
        normal_run(a, since, b, u64::MAX as nat, n)
}

/// Whether the delivery of normal messages, measured from `since`, can end in `b` at a reading of
/// the clock.
pub open spec fn finished_at_reading<P, E: TetraEntityTrait<P>>(
    a: Stack<P, E>,
    since: Instant,
    b: Stack<P, E>,
    n: nat,
    cut_short: bool,
) -> bool {
    exists|m: Stack<P, E>, rounds: nat, ns: u128|
        {
            &&& #[trigger] normal_run(a, since, m, rounds, n)
            &&& b == #[trigger] timed(m, since, ns)
            &&& n == MAX_NORMAL_MESSAGES_PER_DRAIN || ns >= NORMAL_DELIVERY_BUDGET_NS
                || b.queue.len() == 0
            &&& cut_short == (n < MAX_NORMAL_MESSAGES_PER_DRAIN && ns >= NORMAL_DELIVERY_BUDGET_NS)
        }
}

/// Whether `b` can follow `a` when the entity that is registered as `id` starts its tick.
pub open spec fn started<P, E: TetraEntityTrait<P>>(
    a: Stack<P, E>,
    id: TetraEntity,
    b: Stack<P, E>,
) -> bool {
    let i = place_of(a.entities, id);
    if i < a.entities.len() {
        &&& only_at(a, b, i)
        &&& E::may_start(a.entities[i].entity, a.queue, a.ts, b.entities[i].entity, b.queue)
    } else {
        b == a
    }
}

/// Whether `b` can follow `a` when the entity in place `i` ends its tick.
pub open spec fn ended_at<P, E: TetraEntityTrait<P>>(
    a: Stack<P, E>,
    i: int,
    b: Stack<P, E>,
) -> bool {
    &&& only_at(a, b, i)
    &&& E::may_end(a.entities[i].entity, a.queue, a.ts, b.entities[i].entity, b.queue)
}

/// Whether `b` can follow `a` when the entity that is registered as `id` ends its tick.
pub open spec fn ended<P, E: TetraEntityTrait<P>>(
    a: Stack<P, E>,
    id: TetraEntity,
    b: Stack<P, E>,
) -> bool {
    let i = place_of(a.entities, id);
    if i < a.entities.len() {
        ended_at(a, i, b)
    } else {
        b == a
    }
}

/// Whether `b` can follow `a` when an entity starts its tick and the immediate lane is drained.
pub open spec fn started_and_drained<P, E: TetraEntityTrait<P>>(
    a: Stack<P, E>,
    id: TetraEntity,
    b: Stack<P, E>,
) -> bool {
    exists|m: Stack<P, E>| started(a, id, m) && #[trigger] drained(m, b)
}

/// Whether `b` can follow `a` when an entity ends its tick and the immediate lane is drained.
pub open spec fn ended_and_drained<P, E: TetraEntityTrait<P>>(
    a: Stack<P, E>,
    id: TetraEntity,
    b: Stack<P, E>,
) -> bool {
    exists|m: Stack<P, E>| ended(a, id, m) && #[trigger] drained(m, b)
}

/// The entities on the path to the air interface.
pub open spec fn is_radio(id: TetraEntity) -> bool {
    id == TetraEntity::Phy || id == TetraEntity::Lmac || id == TetraEntity::Umac
}

/// The identities that are not on the path to the air interface.
pub open spec fn not_radio(ids: Seq<TetraEntity>) -> Seq<TetraEntity>
    decreases ids.len(),
{
    if ids.len() == 0 {
        Seq::empty()
    } else if is_radio(ids.last()) {
        not_radio(ids.drop_last())
    } else {
        not_radio(ids.drop_last()).push(ids.last())
    }
}

/// The order in which entities start a tick: first those on the path to the air interface.
pub open spec fn start_order<E>(entities: Seq<Registered<E>>) -> Seq<TetraEntity> {
    seq![TetraEntity::Phy, TetraEntity::Lmac, TetraEntity::Umac] + not_radio(ids_of(entities))
}

/// Whether `b` can follow `a` when the given entities start their ticks in turn, and the
/// immediate lane is drained after each.
pub open spec fn started_in_turn<P, E: TetraEntityTrait<P>>(
    a: Stack<P, E>,
    order: Seq<TetraEntity>,
    b: Stack<P, E>,
) -> bool
    decreases order.len(),
{
    if order.len() == 0 {
        a == b
    } else {
        exists|m: Stack<P, E>|
            started_in_turn(a, order.drop_last(), m) && #[trigger] started_and_drained(
                m,
                order.last(),
                b,
            )
    }
}

/// Whether `b` can follow `a` at the start of a tick.
pub open spec fn tick_started<P, E: TetraEntityTrait<P>>(a: Stack<P, E>, b: Stack<P, E>) -> bool {
    started_in_turn(a, start_order(a.entities), b)
}

/// Whether `b` can follow `a` when the entity in place `i` ends its tick with the others. Link
/// control and the upper MAC have ended theirs before.
pub open spec fn ended_with_others<P, E: TetraEntityTrait<P>>(
    a: Stack<P, E>,
    i: int,
    b: Stack<P, E>,
) -> bool {
    let id = a.entities[i].entity.identity();
    if id == TetraEntity::Llc || id == TetraEntity::Umac {
        b == a
    } else {
        ended_at(a, i, b)
    }
}

/// Whether `b` can follow `a` when the first `n` entities end their ticks with the others.
pub open spec fn others_ended<P, E: TetraEntityTrait<P>>(
    a: Stack<P, E>,
    b: Stack<P, E>,
    n: nat,
) -> bool
    decreases n,
{
    if n == 0 {
        a == b
    } else {
        exists|m: Stack<P, E>|
            others_ended(a, m, (n - 1) as nat) && #[trigger] ended_with_others(m, n - 1, b)
    }
}

/// The stack one timeslot later.
pub open spec fn later<P, E>(a: Stack<P, E>) -> Stack<P, E> {
    Stack { ts: a.ts.plus(1), ..a }
}

/// Whether `b` can follow `a` at the end of a tick: link control ends its tick, then the upper
/// MAC, then all others, the immediate lane is drained after each of the three steps, and the
/// time moves on.
pub open spec fn tick_ended<P, E: TetraEntityTrait<P>>(a: Stack<P, E>, b: Stack<P, E>) -> bool {
    exists|llc: Stack<P, E>, umac: Stack<P, E>, others: Stack<P, E>, end: Stack<P, E>| {
        &&& #[trigger] ended_and_drained(a, TetraEntity::Llc, llc)
        &&& #[trigger] ended_and_drained(llc, TetraEntity::Umac, umac)
        &&& #[trigger] others_ended(umac, others, umac.entities.len())
        &&& #[trigger] drained(others, end)
        &&& b == later(end)
    }
}

/// Whether `b` can follow `a` when normal messages are delivered within a tick.
pub open spec fn normal_lane_served<P, E: TetraEntityTrait<P>>(
    a: Stack<P, E>,
    b: Stack<P, E>,
) -> bool {
    exists|n: nat, cut_short: bool| lane_finished(a, b, n, cut_short)
}

/// Whether `b` can follow `a` in one tick of the stack. A tick of a run with a given number of
/// ticks delivers all messages before and after its end, which makes such runs predictable; else
/// normal messages are delivered as far as time allows.
pub open spec fn ticked<P, E: TetraEntityTrait<P>>(
    a: Stack<P, E>,
    b: Stack<P, E>,
    counted: bool,
) -> bool {
    exists|s: Stack<P, E>, d: Stack<P, E>, e: Stack<P, E>| {
        &&& #[trigger] tick_started(a, s)
        &&& if counted {
            emptied(s, d)
        } else {
            s == d
        }
        &&& #[trigger] tick_ended(d, e)
        &&& if counted {
            emptied(e, b)
        } else {
            normal_lane_served(e, b)
        }
    }
}

/// The stack when a run goes on: where it is watched, its flag was found set.
pub open spec fn going_on<P, E>(a: Stack<P, E>, watched: Option<Arc<AtomicBool>>) -> Stack<P, E> {
    match watched {
        Some(flag) => saw(a, Observation::Flag(*flag, true)),
        None => a,
    }
}

/// Whether `b` can follow `a` in `n` ticks. Where the run is watched, its flag is found set before
/// each tick.
pub open spec fn ticked_times<P, E: TetraEntityTrait<P>>(
    a: Stack<P, E>,
    b: Stack<P, E>,
    counted: bool,
    watched: Option<Arc<AtomicBool>>,
    n: nat,
) -> bool
    decreases n,
{
    if n == 0 {
        a == b
    } else {
        exists|m: Stack<P, E>|
            ticked_times(a, m, counted, watched, (n - 1) as nat) && #[trigger] ticked(
                going_on(m, watched),
                b,
                counted,
            )
    }
}

/// Whether `b` can follow `a` in `n` ticks of a run that then stops, because its flag is found
/// cleared.
pub open spec fn stopped_after<P, E: TetraEntityTrait<P>>(
    a: Stack<P, E>,
    b: Stack<P, E>,
    counted: bool,
    flag: Arc<AtomicBool>,
    n: nat,
) -> bool {
    exists|m: Stack<P, E>|
        b == saw(m, Observation::Flag(*flag, false)) && #[trigger] ticked_times(
            a,
            m,
            counted,
            Some(flag),
            n,
        )
}

/// How many ticks a run of the stack has: as many as are asked for, and where no number is
/// given, as many as can be counted.
pub open spec fn tick_limit(num_ticks: Option<usize>) -> nat {
    match num_ticks {
        Some(n) => n as nat,
        None => usize::MAX as nat,
    }
}

proof fn lemma_front_step<P, E: TetraEntityTrait<P>>(
    a: Stack<P, E>,
    m: Stack<P, E>,
    b: Stack<P, E>,
    n: nat,
)
    requires
        front_run(a, m, n),
        front_delivered(m, b),
    ensures
        front_run(a, b, n + 1),
{
}

proof fn lemma_immediate_step<P, E: TetraEntityTrait<P>>(
    a: Stack<P, E>,
    m: Stack<P, E>,
    b: Stack<P, E>,
    n: nat,
)
    requires
        immediate_run(a, m, n),
        immediate_delivered(m, b),
    ensures
        immediate_run(a, b, n + 1),
{
}

proof fn lemma_normal_step<P, E: TetraEntityTrait<P>>(
    a: Stack<P, E>,
    since: Instant,
    m: Stack<P, E>,
    ns: u128,
    b: Stack<P, E>,
    rounds: nat,
    n: nat,
)
    requires
        normal_run(a, since, m, rounds, n),
        n < MAX_NORMAL_MESSAGES_PER_DRAIN,
        ns < NORMAL_DELIVERY_BUDGET_NS,
    ensures
        m.queue.immediate.len() > 0 && drained(timed(m, since, ns), b) ==> normal_run(
            a,
            since,
            b,
            rounds + 1,
            n,
        ),
        normal_delivered(timed(m, since, ns), b) ==> normal_run(a, since, b, rounds + 1, n + 1),
{
}

proof fn lemma_others_step<P, E: TetraEntityTrait<P>>(
    a: Stack<P, E>,
    m: Stack<P, E>,
    b: Stack<P, E>,
    n: nat,
)
    requires
        others_ended(a, m, n),
        ended_with_others(m, n as int, b),
    ensures
        others_ended(a, b, n + 1),
{
    assert(ended_with_others(m, (n + 1) - 1, b));
}

proof fn lemma_tick_step<P, E: TetraEntityTrait<P>>(
    a: Stack<P, E>,
    m: Stack<P, E>,
    b: Stack<P, E>,
    counted: bool,
    watched: Option<Arc<AtomicBool>>,
    n: nat,
)
    requires
        ticked_times(a, m, counted, watched, n),
        ticked(going_on(m, watched), b, counted),
    ensures
        ticked_times(a, b, counted, watched, n + 1),
{
}

impl<P, E: TetraEntityTrait<P>> MessageRouter<P, E> {
    pub fn new() -> (out: MessageRouter<P, E>)
        ensures
            out@.entities == Seq::<Registered<E>>::empty(),
            all_distinct(out@.entities),
            out@.queue.len() == 0,
            out@.ts == (TdmaTime { h: 0, m: 1, f: 1, t: 1 }),
            out@.seen.len() == 0,
    {
        MessageRouter {
            entities: Vec::new(),
            msg_queue: MessageQueue::new(),
            ts: TdmaTime::default(),
            observer: Observer::new(),
        }
    }

    /// Sets the TDMA time, which is passed to the entities and advanced at the end of each tick.
    pub fn set_dl_time(&mut self, ts: TdmaTime)
        ensures
            final(self)@ == (Stack { ts, ..old(self)@ }),
    {
        self.ts = ts;
    }

    fn find(&self, id: TetraEntity) -> (i: usize)
        ensures
            i == place_of(self@.entities, id),
            i <= self@.entities.len(),
    {
        let mut i: usize = 0;
        while i < self.entities.len() && self.entities[i].id != id
            invariant
                i <= self.entities@.len(),
                forall|k: int| 0 <= k < i ==> self.entities@[k].id != id,
            decreases self.entities@.len() - i,
        {
            i = i + 1;
        }
        proof {
            lemma_place_is(self.entities@, id, i as int);
        }
        i
    }

    /// Registers an entity under its identity.
    pub fn register_entity(&mut self, entity: E)
        ensures
            final(self)@ == (Stack {
                entities: with_registered(old(self)@.entities, entity.identity(), entity),
                ..old(self)@
            }),
            all_distinct(old(self)@.entities) ==> all_distinct(final(self)@.entities),
    {
        proof {
            registration_is_found(
                self@.entities,
                entity.identity(),
                entity,
                entity.identity(),
            );
        }
        let id = entity.entity();
        let i = self.find(id);
        if i < self.entities.len() {
            self.entities[i] = Registered { id, entity };
        } else {
            self.entities.push(Registered { id, entity });
        }
    }

    /// The entity that is registered as `id`.
    pub fn get_entity(&mut self, id: TetraEntity) -> (out: Option<&mut E>)
        ensures
            ({
                let i = place_of(old(self)@.entities, id);
                match out {
                    Some(e) => {
                        &&& i < old(self)@.entities.len()
                        &&& *e == old(self)@.entities[i].entity
                        &&& final(self)@ == (Stack {
                            entities: old(self)@.entities.update(
                                i,
                                Registered {
                                    id: old(self)@.entities[i].id,
                                    entity: *final(e),
                                },
                            ),
                            ..old(self)@
                        })
                    },
                    None => i == old(self)@.entities.len() && final(self)@ == old(self)@,
                }
            }),
    {
        let i = self.find(id);
        if i < self.entities.len() {
            Some(&mut self.entities[i].entity)
        } else {
            None
        }
    }

    /// Queues a message in the normal lane.
    pub fn submit_message(&mut self, message: SapMsg<P>)
        ensures
            final(self)@ == (Stack {
                queue: old(self)@.queue.pushed(message, MessagePrio::Normal),
                ..old(self)@
            }),
    {
        self.msg_queue.push_back(message);
    }

    /// Delivers the next message, where one waits.
    pub fn deliver_message(&mut self)
        ensures
            old(self)@.queue.len() == 0 ==> final(self)@ == old(self)@,
            old(self)@.queue.len() > 0 ==> front_delivered(old(self)@, final(self)@),
    {
        if let Some(message) = self.msg_queue.pop_front() {
            self.deliver_popped_message(message);
        }
    }

    fn deliver_popped_message(&mut self, message: SapMsg<P>)
        ensures
            delivered(old(self)@, message, old(self)@.queue, final(self)@),
    {
        let i = self.find(message.get_dest());
        if i < self.entities.len() {
            self.entities[i].entity.rx_prim(&mut self.msg_queue, message);
        }
    }

    /// Delivers messages until none waits, or the bound is reached. Returns how many were
    /// delivered.
    pub fn deliver_all_messages(&mut self) -> (count: usize)
        ensures
            emptied_in(old(self)@, final(self)@, count as nat),
    {
        let mut count: usize = 0;
        while count < MAX_IMMEDIATE_MESSAGES_PER_DRAIN && (self.msg_queue.has_immediate()
            || self.msg_queue.has_normal())
            invariant
                count <= MAX_IMMEDIATE_MESSAGES_PER_DRAIN,
                front_run(old(self)@, self@, count as nat),
            decreases MAX_IMMEDIATE_MESSAGES_PER_DRAIN - count,
        {
            let ghost before = self@;
            self.deliver_message();
            count = count + 1;
            proof {
                lemma_front_step(old(self)@, before, self@, (count - 1) as nat);
            }
        }
        count
    }

    /// Delivers immediate messages until none waits, or the bound is reached. Returns how many
    /// were delivered.
    pub fn deliver_immediate_messages(&mut self) -> (count: usize)
        ensures
            drained_in(old(self)@, final(self)@, count as nat),
            drained(old(self)@, final(self)@),
    {
        let mut count: usize = 0;
        while count < MAX_IMMEDIATE_MESSAGES_PER_DRAIN
            invariant
                count <= MAX_IMMEDIATE_MESSAGES_PER_DRAIN,
                immediate_run(old(self)@, self@, count as nat),
            ensures
                drained_in(old(self)@, self@, count as nat),
            decreases MAX_IMMEDIATE_MESSAGES_PER_DRAIN - count,
        {
            let ghost before = self@;
            match self.msg_queue.pop_immediate() {
                None => {
                    break ;
                },
                Some(message) => {
                    self.deliver_popped_message(message);
                },
            }
            count = count + 1;
            proof {
                lemma_immediate_step(old(self)@, before, self@, (count - 1) as nat);
            }
        }
        count
    }

    /// One round of the delivery of normal messages, of which `count` were delivered in this
    /// tick, `elapsed_ns` nanoseconds after it began: immediate messages go first. Nothing is
    /// delivered once the bound is reached, the time is up, or no message waits.
    pub fn normal_round(&mut self, count: usize, elapsed_ns: u128) -> (out: NormalRound)
        ensures
            ({
                let open = count < MAX_NORMAL_MESSAGES_PER_DRAIN && elapsed_ns
                    < NORMAL_DELIVERY_BUDGET_NS;
                let a = old(self)@;
                if open && a.queue.immediate.len() > 0 {
                    out == NormalRound::Drained && drained(a, final(self)@)
                } else if open && a.queue.normal.len() > 0 {
                    out == NormalRound::Delivered && normal_delivered(a, final(self)@)
                } else {
                    out == NormalRound::Finished && final(self)@ == a
                }
            }),
    {
        if count >= MAX_NORMAL_MESSAGES_PER_DRAIN || elapsed_ns >= NORMAL_DELIVERY_BUDGET_NS {
            return NormalRound::Finished;
        }
        if self.msg_queue.has_immediate() {
            let _ = self.deliver_immediate_messages();
            return NormalRound::Drained;
        }
        match self.msg_queue.pop_normal() {
            None => NormalRound::Finished,
            Some(message) => {
                self.deliver_popped_message(message);
                NormalRound::Delivered
            },
        }
    }

    /// Delivers normal messages for a limited number and a limited time, immediate ones always
    /// first. The clock is read before each round.
    pub fn deliver_normal_messages_for_tick(&mut self) -> (out: NormalDelivery)
        ensures
            lane_finished(old(self)@, final(self)@, out.count as nat, out.cut_short),
            out.count <= MAX_NORMAL_MESSAGES_PER_DRAIN,
    {
        let started = self.observer.now();
        let mut count: usize = 0;
        let mut rounds: u64 = 0;
        assert(normal_run(old(self)@, started, self@, 0, 0));
        while rounds < u64::MAX
            invariant
                count <= MAX_NORMAL_MESSAGES_PER_DRAIN,
                normal_run(old(self)@, started, self@, rounds as nat, count as nat),
            decreases u64::MAX - rounds,
        {
            let ghost before = self@;
            let ghost earlier = count;
            let elapsed_ns = self.observer.elapsed_ns(&started);
            assert(self@ == timed(before, started, elapsed_ns));
            match self.normal_round(count, elapsed_ns) {
                NormalRound::Finished => {
                    let cut_short = count < MAX_NORMAL_MESSAGES_PER_DRAIN && elapsed_ns
                        >= NORMAL_DELIVERY_BUDGET_NS;
                    assert(normal_run(old(self)@, started, before, rounds as nat, count as nat));
                    assert(finished_at_reading(
                        old(self)@,
                        started,
                        self@,
                        count as nat,
                        cut_short,
                    ));
                    return NormalDelivery { count, cut_short };
                },
                NormalRound::Drained => {},
                NormalRound::Delivered => {
                    count = count + 1;
                },
            }
            proof {
                lemma_normal_step(
                    old(self)@,
                    started,
                    before,
                    elapsed_ns,
                    self@,
                    rounds as nat,
                    earlier as nat,
                );
            }
            rounds = rounds + 1;
        }
        NormalDelivery { count, cut_short: count < MAX_NORMAL_MESSAGES_PER_DRAIN }
    }

    /// The number of waiting messages.
    pub fn get_msgqueue_len(&self) -> (out: usize)
        requires
            self@.queue.len() <= usize::MAX,
        ensures
            out == self@.queue.len(),
    {
        self.msg_queue.len()
    }

    fn start_one(&mut self, id: TetraEntity)
        ensures
            started(old(self)@, id, final(self)@),
    {
        let i = self.find(id);
        if i < self.entities.len() {
            let ts = self.ts;
            self.entities[i].entity.tick_start(&mut self.msg_queue, ts);
        }
    }

    fn end_at(&mut self, i: usize)
        requires
            i < old(self)@.entities.len(),
        ensures
            ended_at(old(self)@, i as int, final(self)@),
    {
        let ts = self.ts;
        self.entities[i].entity.tick_end(&mut self.msg_queue, ts);
    }

    fn end_one(&mut self, id: TetraEntity)
        ensures
            ended(old(self)@, id, final(self)@),
    {
        let i = self.find(id);
        if i < self.entities.len() {
            self.end_at(i);
        }
    }

    /// The order in which the entities start a tick.
    fn starting_order(&self) -> (out: Vec<TetraEntity>)
        ensures
            out@ == start_order(self@.entities),
    {
        let mut out: Vec<TetraEntity> = Vec::new();
        out.push(TetraEntity::Phy);
        out.push(TetraEntity::Lmac);
        out.push(TetraEntity::Umac);
        let ghost ids = ids_of(self@.entities);
        let ghost radio = seq![TetraEntity::Phy, TetraEntity::Lmac, TetraEntity::Umac];
        let mut i: usize = 0;
        proof {
            assert(out@ =~= radio + not_radio(ids.take(0)));
        }
        while i < self.entities.len()
            invariant
                i <= self.entities@.len(),
                ids == ids_of(self@.entities),
                out@ == radio + not_radio(ids.take(i as int)),
            decreases self.entities@.len() - i,
        {
            let id = self.entities[i].id;
            assert(ids.take(i + 1).drop_last() =~= ids.take(i as int));
            assert(ids.take(i + 1).last() == id);
            if id != TetraEntity::Phy && id != TetraEntity::Lmac && id != TetraEntity::Umac {
                out.push(id);
            }
            i = i + 1;
            assert(out@ =~= radio + not_radio(ids.take(i as int)));
        }
        assert(ids.take(i as int) =~= ids);
        out
    }

    /// Starts a tick. The entities on the path to the air interface go first, and immediate
    /// messages are delivered after each entity, which keeps this path ahead of all else.
    pub fn tick_start(&mut self)
        ensures
            tick_started(old(self)@, final(self)@),
    {
        let order = self.starting_order();
        let mut i: usize = 0;
        assert(order@.take(0) =~= Seq::<TetraEntity>::empty());
        while i < order.len()
            invariant
                i <= order@.len(),
                started_in_turn(old(self)@, order@.take(i as int), self@),
            decreases order@.len() - i,
        {
            let ghost before = self@;
            self.start_one(order[i]);
            let _ = self.deliver_immediate_messages();
            proof {
                let turn = order@.take(i + 1);
                assert(turn.drop_last() =~= order@.take(i as int));
                assert(turn.last() == order@[i as int]);
                assert(started_and_drained(before, turn.last(), self@));
            }
            i = i + 1;
        }
        assert(order@.take(i as int) =~= order@);
    }

    /// Ends a tick: link control sends its outstanding acknowledgements, the upper MAC completes
    /// its resources, then all other entities end their ticks, and the time moves on by one
    /// timeslot.
    pub fn tick_end(&mut self)
        ensures
            tick_ended(old(self)@, final(self)@),
    {
        self.end_one(TetraEntity::Llc);
        let _ = self.deliver_immediate_messages();
        let ghost llc = self@;
        self.end_one(TetraEntity::Umac);
        let _ = self.deliver_immediate_messages();
        let ghost umac = self@;
        let mut i: usize = 0;
        while i < self.entities.len()
            invariant
                i <= self.entities@.len(),
                self.entities@.len() == umac.entities.len(),
                others_ended(umac, self@, i as nat),
            decreases self.entities@.len() - i,
        {
            let ghost before = self@;
            let id = self.entities[i].entity.entity();
            if id != TetraEntity::Llc && id != TetraEntity::Umac {
                self.end_at(i);
            }
            assert(ended_with_others(before, i as int, self@));
            i = i + 1;
            proof {
                lemma_others_step(umac, before, self@, (i - 1) as nat);
            }
        }
        let ghost others = self@;
        let _ = self.deliver_immediate_messages();
        let ghost end = self@;
        self.ts = self.ts.add_timeslots(1);
        proof {
            assert(ended_and_drained(old(self)@, TetraEntity::Llc, llc));
            assert(ended_and_drained(llc, TetraEntity::Umac, umac));
            assert(others_ended(umac, others, umac.entities.len()));
            assert(drained(others, end));
            assert(self@ == later(end));
        }
    }

    /// Runs one tick of the stack, unless it has been stopped. Returns whether it was run.
    pub fn run_tick(&mut self, counted: bool, running: bool) -> (ran: bool)
        ensures
            ran == running,
            running ==> ticked(old(self)@, final(self)@, counted),
            !running ==> final(self)@ == old(self)@,
    {
        if !running {
            return false;
        }
        self.tick_start();
        let ghost s = self@;
        if counted {
            let n = self.deliver_all_messages();
            assert(emptied_in(s, self@, n as nat));
        }
        let ghost d = self@;
        self.tick_end();
        let ghost e = self@;
        if counted {
            let n = self.deliver_all_messages();
            assert(emptied_in(e, self@, n as nat));
        } else {
            let out = self.deliver_normal_messages_for_tick();
            assert(lane_finished(e, self@, out.count as nat, out.cut_short));
        }
        assert(tick_started(old(self)@, s));
        assert(tick_ended(d, e));
        true
    }

    /// Runs the stack for a given number of ticks, which may be none, or for as long as ticks can
    /// be counted. Where a flag is given, the run stops before the first tick for which the flag
    /// is found cleared.
    pub fn run_stack(&mut self, num_ticks: Option<usize>, running: Option<Arc<AtomicBool>>) -> (end:
        RunEnd)
        ensures
            !end.stopped ==> end.ticks == tick_limit(num_ticks) && ticked_times(
                old(self)@,
                final(self)@,
                num_ticks is Some,
                running,
                end.ticks as nat,
            ),
            end.stopped ==> running is Some && end.ticks < tick_limit(num_ticks) && stopped_after(
                old(self)@,
                final(self)@,
                num_ticks is Some,
                running->0,
                end.ticks as nat,
            ),
    {
        let counted = num_ticks.is_some();
        let limit: usize = match num_ticks {
            Some(n) => n,
            None => usize::MAX,
        };
        let mut ticks: usize = 0;
        while ticks < limit
            invariant
                ticks <= limit,
                counted == (num_ticks is Some),
                limit == tick_limit(num_ticks),
                ticked_times(old(self)@, self@, counted, running, ticks as nat),
            decreases limit - ticks,
        {
            let ghost before = self@;
            let go_on = match &running {
                Some(flag) => self.observer.is_set(flag),
                None => true,
            };
            assert(go_on ==> self@ == going_on(before, running));
            assert(!go_on ==> self@ == saw(before, Observation::Flag(*running->0, false)));
            if !self.run_tick(counted, go_on) {
                return RunEnd { ticks, stopped: true };
            }
            ticks = ticks + 1;
            proof {
                lemma_tick_step(
                    old(self)@,
                    before,
                    self@,
                    counted,
                    running,
                    (ticks - 1) as nat,
                );
            }
        }
        RunEnd { ticks, stopped: false }
    }
}

/// How a run of the stack ended.
#[derive(Debug, Clone, Copy, PartialEq, Eq, Structural)]
pub struct RunEnd {
    /// The number of ticks that were run.
    pub ticks: usize,
    /// Whether the run was stopped by its flag.
    pub stopped: bool,
}

/// How the delivery of normal messages in a tick ended.
#[derive(Debug, Clone, Copy, PartialEq, Eq, Structural)]
pub struct NormalDelivery {
    /// The number of normal messages that were delivered.
    pub count: usize,
    /// Whether the time of the tick was up, or the rounds could no longer be counted, before the
    /// bound was reached.
    pub cut_short: bool,
}

/// What a round of the delivery of normal messages did.
#[derive(Debug, Clone, Copy, PartialEq, Eq, Structural)]
pub enum NormalRound {
    /// Immediate messages were delivered.
    Drained,
    /// A normal message was delivered.
    Delivered,
    /// Nothing was delivered, and nothing more is to be.
    Finished,
}

// ---------------------------------------------------------------------------------------------
// Laws
// ---------------------------------------------------------------------------------------------
/// Messages come out of the queue in the order of delivery, one after the other.
pub proof fn front_is_first_in_order<P>(queue: Queued<P>)
    requires
        queue.len() > 0,
    ensures
        queue.front() == queue.in_order()[0],
        queue.without_front().in_order() == queue.in_order().drop_first(),
        queue.without_front().len() == queue.len() - 1,
{
    assert(queue.without_front().in_order() =~= queue.in_order().drop_first());
}

/// A critical message goes before all others, an immediate one behind the immediate ones and
/// before the normal ones, and a normal one behind all others; the others keep their order.
pub proof fn priorities_order_the_queue<P>(queue: Queued<P>, message: SapMsg<P>)
    ensures
        queue.pushed(message, MessagePrio::Critical).in_order() == seq![message]
            + queue.in_order(),
        queue.pushed(message, MessagePrio::Immediate).in_order() == queue.immediate
            + seq![message] + queue.normal,
        queue.pushed(message, MessagePrio::Normal).in_order() == queue.in_order().push(message),
        forall|prio: MessagePrio| #[trigger]
            queue.pushed(message, prio).len() == queue.len() + 1,
{
    assert(queue.pushed(message, MessagePrio::Critical).in_order() =~= seq![message]
        + queue.in_order());
    assert(queue.pushed(message, MessagePrio::Immediate).in_order() =~= queue.immediate
        + seq![message] + queue.normal);
    assert(queue.pushed(message, MessagePrio::Normal).in_order() =~= queue.in_order().push(
        message,
    ));
}

/// A use of a queue.
pub ghost enum QueueUse<P> {
    Push(SapMsg<P>, MessagePrio),
    Pop,
    PopImmediate,
    PopNormal,
}

impl<P> Queued<P> {
    /// Whether a use takes a message out.
    pub open spec fn gives(self, step: QueueUse<P>) -> bool {
        match step {
            QueueUse::Push(_, _) => false,
            QueueUse::Pop => self.len() > 0,
            QueueUse::PopImmediate => self.immediate.len() > 0,
            QueueUse::PopNormal => self.normal.len() > 0,
        }
    }

    /// The queue after a use.
    pub open spec fn used(self, step: QueueUse<P>) -> Queued<P> {
        match step {
            QueueUse::Push(message, prio) => self.pushed(message, prio),
            QueueUse::Pop => if self.len() > 0 {
                self.without_front()
            } else {
                self
            },
            QueueUse::PopImmediate => if self.immediate.len() > 0 {
                self.without_immediate()
            } else {
                self
            },
            QueueUse::PopNormal => if self.normal.len() > 0 {
                self.without_normal()
            } else {
                self
            },
        }
    }

    /// The queue after a number of uses.
    pub open spec fn after_uses(self, steps: Seq<QueueUse<P>>) -> Queued<P>
        decreases steps.len(),
    {
        if steps.len() == 0 {
            self
        } else {
            self.after_uses(steps.drop_last()).used(steps.last())
        }
    }

    /// How many of a number of uses take a message out.
    pub open spec fn given(self, steps: Seq<QueueUse<P>>) -> nat
        decreases steps.len(),
    {
        if steps.len() == 0 {
            0
        } else if self.after_uses(steps.drop_last()).gives(steps.last()) {
            self.given(steps.drop_last()) + 1
        } else {
            self.given(steps.drop_last())
        }
    }
}

/// How many of a number of uses put a message in.
pub open spec fn pushes<P>(steps: Seq<QueueUse<P>>) -> nat
    decreases steps.len(),
{
    if steps.len() == 0 {
        0
    } else if steps.last() is Push {
        pushes(steps.drop_last()) + 1
    } else {
        pushes(steps.drop_last())
    }
}

/// However a queue is used, its length is what it was, and the messages that were put in, of
/// whatever priority, less those that were taken out.
pub proof fn length_is_pushes_less_pops<P>(queue: Queued<P>, steps: Seq<QueueUse<P>>)
    ensures
        queue.after_uses(steps).len() == queue.len() + pushes(steps) - queue.given(steps),
    decreases steps.len(),
{
    if steps.len() > 0 {
        length_is_pushes_less_pops(queue, steps.drop_last());
        if let QueueUse::Push(message, _) = steps.last() {
            priorities_order_the_queue(queue.after_uses(steps.drop_last()), message);
        }
    }
}

/// A critical message that is taken at once leaves the queue as it was.
pub proof fn critical_message_comes_out_next<P>(queue: Queued<P>, message: SapMsg<P>)
    ensures
        queue.pushed(message, MessagePrio::Critical).front() == message,
        queue.pushed(message, MessagePrio::Critical).without_front() == queue,
{
    assert((seq![message] + queue.immediate).drop_first() =~= queue.immediate);
}

/// An entity is found under its identity after its registration, and no other identity is
/// affected. No identity is registered twice.
pub proof fn registration_is_found<E>(
    entities: Seq<Registered<E>>,
    id: TetraEntity,
    entity: E,
    other: TetraEntity,
)
    ensures
        ({
            let after = with_registered(entities, id, entity);
            let i = place_of(after, id);
            let j = place_of(entities, other);
            &&& i < after.len()
            &&& after[i].entity == entity
            &&& other != id ==> (is_registered(after, other) == is_registered(entities, other))
            &&& other != id && j < entities.len() ==> place_of(after, other) == j && after[j]
                == entities[j]
            &&& all_distinct(entities) ==> all_distinct(after)
        }),
{
    let after = with_registered(entities, id, entity);
    lemma_place_of(entities, id);
    lemma_place_of(entities, other);
    let i = place_of(entities, id);
    lemma_place_is(after, id, i);
    if other != id {
        let j = place_of(entities, other);
        if j < entities.len() {
            lemma_place_is(after, other, j);
        } else {
            lemma_place_is(after, other, after.len() as int);
        }
    }
}

/// Where no identity is registered twice, that stays so as long as the registrations do.
pub proof fn registrations_stay_distinct<P, E>(a: Stack<P, E>, b: Stack<P, E>)
    requires
        all_distinct(a.entities),
        same_registrations(a, b),
    ensures
        all_distinct(b.entities),
{
    assert(ids_of(a.entities).len() == a.entities.len());
    assert(ids_of(b.entities).len() == b.entities.len());
    assert forall|i: int, j: int| 0 <= i < j < b.entities.len() implies (
    #[trigger] b.entities[i]).id != (#[trigger] b.entities[j]).id by {
        assert(ids_of(b.entities)[i] == ids_of(a.entities)[i]);
        assert(ids_of(b.entities)[j] == ids_of(a.entities)[j]);
        assert(a.entities[i].id != a.entities[j].id);
    }
}

/// Whether the same identities are registered, in the same places.
pub open spec fn same_registrations<P, E>(a: Stack<P, E>, b: Stack<P, E>) -> bool {
    ids_of(a.entities) == ids_of(b.entities)
}

proof fn lemma_only_at_keeps<P, E>(a: Stack<P, E>, b: Stack<P, E>, i: int)
    requires
        only_at(a, b, i),
        0 <= i < a.entities.len(),
    ensures
        same_registrations(a, b),
        b.ts == a.ts,
        b.seen == a.seen,
{
    assert(ids_of(a.entities) =~= ids_of(b.entities));
}

proof fn lemma_delivered_keeps<P, E: TetraEntityTrait<P>>(
    a: Stack<P, E>,
    message: SapMsg<P>,
    rest: Queued<P>,
    b: Stack<P, E>,
)
    requires
        delivered(a, message, rest, b),
    ensures
        same_registrations(a, b),
        b.ts == a.ts,
        b.seen == a.seen,
{
    lemma_place_of(a.entities, message.dest);
    let i = place_of(a.entities, message.dest);
    if i < a.entities.len() {
        lemma_only_at_keeps(a, b, i);
    }
}

/// The delivery of any number of messages leaves the registrations and the time as they are, and
/// learns nothing from outside.
pub proof fn deliveries_keep_registrations_and_time<P, E: TetraEntityTrait<P>>(
    a: Stack<P, E>,
    b: Stack<P, E>,
    n: nat,
)
    requires
        front_run(a, b, n) || immediate_run(a, b, n),
    ensures
        same_registrations(a, b),
        b.ts == a.ts,
        b.seen == a.seen,
    decreases n,
{
    if n > 0 {
        if front_run(a, b, n) {
            let m = choose|m: Stack<P, E>|
                front_run(a, m, (n - 1) as nat) && #[trigger] front_delivered(m, b);
            deliveries_keep_registrations_and_time(a, m, (n - 1) as nat);
            lemma_delivered_keeps(m, m.queue.front(), m.queue.without_front(), b);
        } else {
            let m = choose|m: Stack<P, E>|
                immediate_run(a, m, (n - 1) as nat) && #[trigger] immediate_delivered(m, b);
            deliveries_keep_registrations_and_time(a, m, (n - 1) as nat);
            lemma_delivered_keeps(m, m.queue.immediate[0], m.queue.without_immediate(), b);
        }
    }
}

proof fn lemma_drained_keeps<P, E: TetraEntityTrait<P>>(a: Stack<P, E>, b: Stack<P, E>)
    requires
        drained(a, b),
    ensures
        same_registrations(a, b),
        b.ts == a.ts,
        b.seen == a.seen,
{
    let n = choose|n: nat| drained_in(a, b, n);
    deliveries_keep_registrations_and_time(a, b, n);
}

/// The delivery of normal messages leaves the registrations and the time as they are.
pub proof fn normal_run_keeps_registrations_and_time<P, E: TetraEntityTrait<P>>(
    a: Stack<P, E>,
    since: Instant,
    b: Stack<P, E>,
    rounds: nat,
    n: nat,
)
    requires
        normal_run(a, since, b, rounds, n),
    ensures
        same_registrations(a, b),
        b.ts == a.ts,
    decreases rounds,
{
    if rounds > 0 {
        let r = (rounds - 1) as nat;
        if exists|m: Stack<P, E>, ns: u128|
            normal_run(a, since, m, r, n) && #[trigger] drained(timed(m, since, ns), b) {
            let (m, ns) = choose|m: Stack<P, E>, ns: u128|
                normal_run(a, since, m, r, n) && #[trigger] drained(timed(m, since, ns), b);
            normal_run_keeps_registrations_and_time(a, since, m, r, n);
            lemma_drained_keeps(timed(m, since, ns), b);
        } else {
            let (m, ns) = choose|m: Stack<P, E>, ns: u128|
                normal_run(a, since, m, r, (n - 1) as nat) && #[trigger] normal_delivered(
                    timed(m, since, ns),
                    b,
                );
            normal_run_keeps_registrations_and_time(a, since, m, r, (n - 1) as nat);
            lemma_delivered_keeps(timed(m, since, ns), m.queue.normal[0], m.queue.without_normal(), b);
        }
    }
}

/// The delivery of normal messages measures time from its beginning, and reads the clock once for
/// each round; each of these readings is within the time. No round delivers more than one normal
/// message.
pub proof fn clock_is_read_for_each_round<P, E: TetraEntityTrait<P>>(
    a: Stack<P, E>,
    since: Instant,
    b: Stack<P, E>,
    rounds: nat,
    n: nat,
)
    requires
        normal_run(a, since, b, rounds, n),
    ensures
        n <= rounds,
        b.seen.len() == a.seen.len() + 1 + rounds,
        b.seen.take(a.seen.len() as int) == a.seen,
        b.seen[a.seen.len() as int] == Observation::Now(since),
        forall|k: int|
            a.seen.len() < k < b.seen.len() ==> (#[trigger] b.seen[k] matches Observation::Elapsed(
                from,
                ns,
            ) && from == since && ns < NORMAL_DELIVERY_BUDGET_NS),
    decreases rounds,
{
    let from = a.seen.len() as int;
    if rounds == 0 {
        assert(b.seen.take(from) =~= a.seen);
    } else {
        let r = (rounds - 1) as nat;
        if n < MAX_NORMAL_MESSAGES_PER_DRAIN && exists|m: Stack<P, E>, ns: u128|
            normal_run(a, since, m, r, n) && ns < NORMAL_DELIVERY_BUDGET_NS && #[trigger] drained(
                timed(m, since, ns),
                b,
            ) {
            let (m, ns) = choose|m: Stack<P, E>, ns: u128|
                normal_run(a, since, m, r, n) && ns < NORMAL_DELIVERY_BUDGET_NS && #[trigger] drained(
                    timed(m, since, ns),
                    b,
                );
            clock_is_read_for_each_round(a, since, m, r, n);
            lemma_drained_keeps(timed(m, since, ns), b);
            assert(b.seen.take(from) =~= m.seen.take(from));
        } else {
            let (m, ns) = choose|m: Stack<P, E>, ns: u128|
                normal_run(a, since, m, r, (n - 1) as nat) && ns < NORMAL_DELIVERY_BUDGET_NS
                    && #[trigger] normal_delivered(timed(m, since, ns), b);
            clock_is_read_for_each_round(a, since, m, r, (n - 1) as nat);
            lemma_delivered_keeps(timed(m, since, ns), m.queue.normal[0], m.queue.without_normal(), b);
            assert(b.seen.take(from) =~= m.seen.take(from));
        }
    }
}

proof fn lemma_lane_served_keeps<P, E: TetraEntityTrait<P>>(a: Stack<P, E>, b: Stack<P, E>)
    requires
        normal_lane_served(a, b),
    ensures
        same_registrations(a, b),
        b.ts == a.ts,
{
    let (n, cut_short) = choose|n: nat, cut_short: bool| lane_finished(a, b, n, cut_short);
    if exists|since: Instant| #[trigger] finished_at_reading(a, since, b, n, cut_short) {
        let since = choose|since: Instant| #[trigger]
            finished_at_reading(a, since, b, n, cut_short);
        let (m, rounds, ns) = choose|m: Stack<P, E>, rounds: nat, ns: u128| #[trigger]
            normal_run(a, since, m, rounds, n) && b == #[trigger] timed(m, since, ns);
        normal_run_keeps_registrations_and_time(a, since, m, rounds, n);
    } else {
        let since = choose|since: Instant| #[trigger]
            normal_run(a, since, b, u64::MAX as nat, n);
        normal_run_keeps_registrations_and_time(a, since, b, u64::MAX as nat, n);
    }
}

/// Whether the last thing learned on the way from `a` to `b` is that the time since the first
/// reading of the clock is up.
pub open spec fn time_was_up<P, E>(a: Stack<P, E>, b: Stack<P, E>) -> bool {
    match (b.seen[a.seen.len() as int], b.seen.last()) {
        (Observation::Now(since), Observation::Elapsed(from, ns)) => from == since && ns
            >= NORMAL_DELIVERY_BUDGET_NS,
        _ => false,
    }
}

/// Messages are left waiting by the delivery of normal messages only where as many were delivered
/// as may be in a tick, where the last reading of the clock shows that the time since the beginning
/// is up, or where the rounds can no longer be counted.
pub proof fn messages_wait_for_bound_or_time<P, E: TetraEntityTrait<P>>(
    a: Stack<P, E>,
    b: Stack<P, E>,
    n: nat,
    cut_short: bool,
)
    requires
        lane_finished(a, b, n, cut_short),
    ensures
        n <= MAX_NORMAL_MESSAGES_PER_DRAIN,
        b.queue.len() > 0 ==> {
            ||| n == MAX_NORMAL_MESSAGES_PER_DRAIN
            ||| time_was_up(a, b)
            ||| exists|since: Instant| #[trigger] normal_run(a, since, b, u64::MAX as nat, n)
        },
        b.queue.len() > 0 ==> cut_short == (n < MAX_NORMAL_MESSAGES_PER_DRAIN),
{
    if exists|since: Instant| #[trigger] finished_at_reading(a, since, b, n, cut_short) {
        let since = choose|since: Instant| #[trigger]
            finished_at_reading(a, since, b, n, cut_short);
        let (m, rounds, ns) = choose|m: Stack<P, E>, rounds: nat, ns: u128|
            {
                &&& #[trigger] normal_run(a, since, m, rounds, n)
                &&& b == #[trigger] timed(m, since, ns)
                &&& n == MAX_NORMAL_MESSAGES_PER_DRAIN || ns >= NORMAL_DELIVERY_BUDGET_NS
                    || b.queue.len() == 0
                &&& cut_short == (n < MAX_NORMAL_MESSAGES_PER_DRAIN && ns
                    >= NORMAL_DELIVERY_BUDGET_NS)
            };
        clock_is_read_for_each_round(a, since, m, rounds, n);
        assert(b.seen[a.seen.len() as int] == Observation::Now(since));
        assert(b.seen.last() == Observation::Elapsed(since, ns));
    }
}

/// The start of a tick leaves the registrations and the time as they are.
pub proof fn starts_keep_registrations_and_time<P, E: TetraEntityTrait<P>>(
    a: Stack<P, E>,
    order: Seq<TetraEntity>,
    b: Stack<P, E>,
)
    requires
        started_in_turn(a, order, b),
    ensures
        same_registrations(a, b),
        b.ts == a.ts,
    decreases order.len(),
{
    if order.len() > 0 {
        let m = choose|m: Stack<P, E>|
            started_in_turn(a, order.drop_last(), m) && #[trigger] started_and_drained(
                m,
                order.last(),
                b,
            );
        starts_keep_registrations_and_time(a, order.drop_last(), m);
        let k = choose|k: Stack<P, E>| started(m, order.last(), k) && #[trigger] drained(k, b);
        lemma_place_of(m.entities, order.last());
        let i = place_of(m.entities, order.last());
        if i < m.entities.len() {
            lemma_only_at_keeps(m, k, i);
        }
        lemma_drained_keeps(k, b);
    }
}

proof fn lemma_ended_and_drained_keeps<P, E: TetraEntityTrait<P>>(
    a: Stack<P, E>,
    id: TetraEntity,
    b: Stack<P, E>,
)
    requires
        ended_and_drained(a, id, b),
    ensures
        same_registrations(a, b),
        b.ts == a.ts,
{
    let m = choose|m: Stack<P, E>| ended(a, id, m) && #[trigger] drained(m, b);
    lemma_place_of(a.entities, id);
    let i = place_of(a.entities, id);
    if i < a.entities.len() {
        lemma_only_at_keeps(a, m, i);
    }
    lemma_drained_keeps(m, b);
}

proof fn lemma_others_ended_keeps<P, E: TetraEntityTrait<P>>(
    a: Stack<P, E>,
    b: Stack<P, E>,
    n: nat,
)
    requires
        others_ended(a, b, n),
        n <= a.entities.len(),
    ensures
        same_registrations(a, b),
        b.entities.len() == a.entities.len(),
        b.ts == a.ts,
    decreases n,
{
    if n > 0 {
        let m = choose|m: Stack<P, E>|
            others_ended(a, m, (n - 1) as nat) && #[trigger] ended_with_others(m, n - 1, b);
        lemma_others_ended_keeps(a, m, (n - 1) as nat);
        if m != b {
            lemma_only_at_keeps(m, b, n - 1);
        }
    }
}

/// The end of a tick leaves the registrations as they are and moves the time on by one timeslot.
pub proof fn tick_end_moves_one_timeslot<P, E: TetraEntityTrait<P>>(a: Stack<P, E>, b: Stack<P, E>)
    requires
        tick_ended(a, b),
    ensures
        same_registrations(a, b),
        b.ts == a.ts.plus(1),
{
    let (llc, umac, others, end) = choose|
        llc: Stack<P, E>,
        umac: Stack<P, E>,
        others: Stack<P, E>,
        end: Stack<P, E>,
    |
        {
            &&& #[trigger] ended_and_drained(a, TetraEntity::Llc, llc)
            &&& #[trigger] ended_and_drained(llc, TetraEntity::Umac, umac)
            &&& #[trigger] others_ended(umac, others, umac.entities.len())
            &&& #[trigger] drained(others, end)
            &&& b == later(end)
        };
    lemma_ended_and_drained_keeps(a, TetraEntity::Llc, llc);
    lemma_ended_and_drained_keeps(llc, TetraEntity::Umac, umac);
    lemma_others_ended_keeps(umac, others, umac.entities.len());
    lemma_drained_keeps(others, end);
}

/// A tick leaves the registrations as they are and moves the time on by one timeslot.
pub proof fn tick_moves_one_timeslot<P, E: TetraEntityTrait<P>>(
    a: Stack<P, E>,
    b: Stack<P, E>,
    counted: bool,
)
    requires
        ticked(a, b, counted),
    ensures
        same_registrations(a, b),
        b.ts == a.ts.plus(1),
{
    let (s, d, e) = choose|s: Stack<P, E>, d: Stack<P, E>, e: Stack<P, E>|
        {
            &&& #[trigger] tick_started(a, s)
            &&& if counted {
                emptied(s, d)
            } else {
                s == d
            }
            &&& #[trigger] tick_ended(d, e)
            &&& if counted {
                emptied(e, b)
            } else {
                normal_lane_served(e, b)
            }
        };
    starts_keep_registrations_and_time(a, start_order(a.entities), s);
    tick_end_moves_one_timeslot(d, e);
    if counted {
        deliveries_keep_registrations_and_time(s, d, choose|n: nat| emptied_in(s, d, n));
        deliveries_keep_registrations_and_time(e, b, choose|n: nat| emptied_in(e, b, n));
    } else {
        lemma_lane_served_keeps(e, b);
    }
}

/// A run of `n` ticks leaves the registrations as they are and moves the time on by `n`
/// timeslots.
pub proof fn ticks_move_as_many_timeslots<P, E: TetraEntityTrait<P>>(
    a: Stack<P, E>,
    b: Stack<P, E>,
    counted: bool,
    watched: Option<Arc<AtomicBool>>,
    n: nat,
)
    requires
        ticked_times(a, b, counted, watched, n),
        n == 0 ==> a.ts.valid(),
    ensures
        same_registrations(a, b),
        b.ts == a.ts.plus(n as int),
    decreases n,
{
    if n == 0 {
        plus_zero(a.ts);
    } else {
        let m = choose|m: Stack<P, E>|
            ticked_times(a, m, counted, watched, (n - 1) as nat) && #[trigger] ticked(
                going_on(m, watched),
                b,
                counted,
            );
        tick_moves_one_timeslot(going_on(m, watched), b, counted);
        if n > 1 {
            ticks_move_as_many_timeslots(a, m, counted, watched, (n - 1) as nat);
            plus_adds_up(a.ts, n - 1, 1);
        }
    }
}

/// A run of `n` ticks that then stops leaves the registrations as they are and moves the time on
/// by `n` timeslots. One that stops at once has changed nothing.
pub proof fn stopped_run_moves_as_many_timeslots<P, E: TetraEntityTrait<P>>(
    a: Stack<P, E>,
    b: Stack<P, E>,
    counted: bool,
    flag: Arc<AtomicBool>,
    n: nat,
)
    requires
        stopped_after(a, b, counted, flag, n),
        n == 0 ==> a.ts.valid(),
    ensures
        same_registrations(a, b),
        b.ts == a.ts.plus(n as int),
        b.seen.last() == Observation::Flag(*flag, false),
        n == 0 ==> b == saw(a, Observation::Flag(*flag, false)),
{
    let m = choose|m: Stack<P, E>|
        b == saw(m, Observation::Flag(*flag, false)) && #[trigger] ticked_times(
            a,
            m,
            counted,
            Some(flag),
            n,
        );
    ticks_move_as_many_timeslots(a, m, counted, Some(flag), n);
}

/// After a tick of a run with a given number of ticks no message waits, unless the last delivery
/// was stopped by its bound.
pub proof fn counted_tick_leaves_no_message<P, E: TetraEntityTrait<P>>(
    a: Stack<P, E>,
    b: Stack<P, E>,
)
    requires
        ticked(a, b, true),
    ensures
        b.queue.len() == 0 || exists|e: Stack<P, E>| #[trigger]
            front_run(e, b, MAX_IMMEDIATE_MESSAGES_PER_DRAIN as nat),
{
    let (s, d, e) = choose|s: Stack<P, E>, d: Stack<P, E>, e: Stack<P, E>|
        {
            &&& #[trigger] tick_started(a, s)
            &&& emptied(s, d)
            &&& #[trigger] tick_ended(d, e)
            &&& emptied(e, b)
        };
    let n = choose|n: nat| emptied_in(e, b, n);
    assert(front_run(e, b, n));
}

/// The delivery of a message to an entity that is not registered takes it out of the queue and
/// changes nothing else.
pub proof fn message_for_absent_entity_is_dropped<P, E: TetraEntityTrait<P>>(
    a: Stack<P, E>,
    b: Stack<P, E>,
)
    requires
        front_delivered(a, b),
        !is_registered(a.entities, a.queue.front().dest),
    ensures
        b == (Stack { queue: a.queue.without_front(), ..a }),
{
}

/// While immediate messages are delivered, the normal lane waits: where the entities take
/// nothing from it, all that waited there still waits, in the same order and in front.
pub proof fn normal_lane_waits_for_immediate<P, E: TetraEntityTrait<P>>(
    a: Stack<P, E>,
    b: Stack<P, E>,
    n: nat,
)
    requires
        immediate_run(a, b, n),
        forall|before: E, queue: Queued<P>, message: SapMsg<P>, after: E, queue_after: Queued<P>|
            #[trigger] E::may_receive(before, queue, message, after, queue_after)
                ==> queue.normal.is_prefix_of(queue_after.normal),
    ensures
        a.queue.normal.is_prefix_of(b.queue.normal),
    decreases n,
{
    if n > 0 {
        let m = choose|m: Stack<P, E>|
            immediate_run(a, m, (n - 1) as nat) && #[trigger] immediate_delivered(m, b);
        normal_lane_waits_for_immediate(a, m, (n - 1) as nat);
    }
}

// ---------------------------------------------------------------------------------------------
// Laws of the operations
// ---------------------------------------------------------------------------------------------
/// A message that is queued waits behind all of its lane, but a critical one before all others.
/// The other lane stays as it is.
pub proof fn pushed_message_waits_in_its_lane<P>(
    queue: &mut MessageQueue<P>,
    message: SapMsg<P>,
    prio: MessagePrio,
    out: (),
)
    requires
        call_ensures(MessageQueue::<P>::push_prio, (queue, message, prio), out),
    ensures
        prio == MessagePrio::Normal ==> {
            &&& final(queue).messages@ == old(queue).messages@.push(message)
            &&& final(queue).immediate_messages@ == old(queue).immediate_messages@
        },
        prio == MessagePrio::Immediate ==> {
            &&& final(queue).immediate_messages@ == old(queue).immediate_messages@.push(message)
            &&& final(queue).messages@ == old(queue).messages@
        },
        prio == MessagePrio::Critical ==> {
            &&& final(queue).immediate_messages@.len() == old(queue).immediate_messages@.len() + 1
            &&& final(queue).immediate_messages@[0] == message
            &&& final(queue).immediate_messages@.skip(1) == old(queue).immediate_messages@
            &&& final(queue).messages@ == old(queue).messages@
        },
{
    assert((seq![message] + old(queue).immediate_messages@).skip(1)
        =~= old(queue).immediate_messages@);
}

/// A message that is queued without priority waits behind all others.
pub proof fn message_without_priority_waits_last<P>(
    queue: &mut MessageQueue<P>,
    message: SapMsg<P>,
    out: (),
)
    requires
        call_ensures(MessageQueue::<P>::push_back, (queue, message), out),
    ensures
        final(queue).messages@ == old(queue).messages@.push(message),
        final(queue).immediate_messages@ == old(queue).immediate_messages@,
{
}

/// The message that is taken is the oldest one of the immediate lane, and of the normal lane only
/// where the immediate one is empty. All others go on waiting, in their order. Nothing comes out of
/// an empty queue only.
pub proof fn oldest_message_of_first_lane_is_taken<P>(
    queue: &mut MessageQueue<P>,
    out: Option<SapMsg<P>>,
)
    requires
        call_ensures(MessageQueue::<P>::pop_front, (queue,), out),
    ensures
        ({
            let first = old(queue).immediate_messages@;
            let second = old(queue).messages@;
            if first.len() > 0 {
                &&& out == Some(first[0])
                &&& final(queue).immediate_messages@ == first.skip(1)
                &&& final(queue).messages@ == second
            } else if second.len() > 0 {
                &&& out == Some(second[0])
                &&& final(queue).immediate_messages@ == first
                &&& final(queue).messages@ == second.skip(1)
            } else {
                &&& out is None
                &&& final(queue).immediate_messages@ == first
                &&& final(queue).messages@ == second
            }
        }),
{
    let first = old(queue).immediate_messages@;
    let second = old(queue).messages@;
    assert(first.len() > 0 ==> first.skip(1) =~= first.drop_first());
    assert(second.len() > 0 ==> second.skip(1) =~= second.drop_first());
    assert(old(queue)@.immediate == first && old(queue)@.normal == second);
    assert(final(queue)@.immediate == final(queue).immediate_messages@);
    assert(final(queue)@.normal == final(queue).messages@);
}

/// Each lane gives its oldest message, and leaves the other lane alone.
pub proof fn lanes_give_their_oldest<P>(
    a: &mut MessageQueue<P>,
    first: Option<SapMsg<P>>,
    b: &mut MessageQueue<P>,
    second: Option<SapMsg<P>>,
)
    requires
        call_ensures(MessageQueue::<P>::pop_immediate, (a,), first),
        call_ensures(MessageQueue::<P>::pop_normal, (b,), second),
    ensures
        final(a).messages@ == old(a).messages@,
        old(a).immediate_messages@.len() == 0 <==> first is None,
        first matches Some(m) ==> old(a).immediate_messages@ == seq![m]
            + final(a).immediate_messages@,
        first is None ==> final(a).immediate_messages@ == old(a).immediate_messages@,
        final(b).immediate_messages@ == old(b).immediate_messages@,
        old(b).messages@.len() == 0 <==> second is None,
        second matches Some(m) ==> old(b).messages@ == seq![m] + final(b).messages@,
        second is None ==> final(b).messages@ == old(b).messages@,
{
    assert(final(a)@.immediate == final(a).immediate_messages@);
    assert(final(a)@.normal == final(a).messages@);
    assert(final(b)@.immediate == final(b).immediate_messages@);
    assert(final(b)@.normal == final(b).messages@);
    if first is Some {
        assert(old(a).immediate_messages@ =~= seq![first->0]
            + old(a).immediate_messages@.drop_first());
    }
    if second is Some {
        assert(old(b).messages@ =~= seq![second->0] + old(b).messages@.drop_first());
    }
}

/// What is said of a queue is what is in it.
pub proof fn queue_tells_what_waits<P>(
    queue: &MessageQueue<P>,
    len: usize,
    immediate: bool,
    normal: bool,
)
    requires
        call_ensures(MessageQueue::<P>::len, (queue,), len),
        call_ensures(MessageQueue::<P>::has_immediate, (queue,), immediate),
        call_ensures(MessageQueue::<P>::has_normal, (queue,), normal),
    ensures
        len == queue.immediate_messages@.len() + queue.messages@.len(),
        immediate <==> queue.immediate_messages@.len() > 0,
        normal <==> queue.messages@.len() > 0,
{
}

/// A message that is submitted waits last in the normal lane, and nothing else changes.
pub proof fn submitted_message_waits_last<P, E: TetraEntityTrait<P>>(
    router: &mut MessageRouter<P, E>,
    message: SapMsg<P>,
    out: (),
)
    requires
        call_ensures(MessageRouter::<P, E>::submit_message, (router, message), out),
    ensures
        final(router).msg_queue.messages@ == old(router).msg_queue.messages@.push(message),
        final(router).msg_queue.immediate_messages@ == old(router).msg_queue.immediate_messages@,
        final(router).entities@ == old(router).entities@,
        final(router).ts == old(router).ts,
{
    assert(final(router)@.queue.normal == final(router).msg_queue.messages@);
    assert(final(router)@.queue.immediate == final(router).msg_queue.immediate_messages@);
}

/// A new router has no entities and no messages, and stands at the first timeslot of the cycle.
pub proof fn new_router_is_empty<P, E: TetraEntityTrait<P>>(out: MessageRouter<P, E>)
    requires
        call_ensures(MessageRouter::<P, E>::new, (), out),
    ensures
        out.entities@.len() == 0,
        out.msg_queue.immediate_messages@.len() == 0,
        out.msg_queue.messages@.len() == 0,
        out.ts.h == 0 && out.ts.m == 1 && out.ts.f == 1 && out.ts.t == 1,
{
    assert(out@.queue.immediate == out.msg_queue.immediate_messages@);
}

/// The time that is set is the time, and nothing else changes.
pub proof fn set_time_is_the_time<P, E: TetraEntityTrait<P>>(
    router: &mut MessageRouter<P, E>,
    ts: TdmaTime,
    out: (),
)
    requires
        call_ensures(MessageRouter::<P, E>::set_dl_time, (router, ts), out),
    ensures
        final(router).ts == ts,
        final(router).entities@ == old(router).entities@,
        final(router).msg_queue@ == old(router).msg_queue@,
{
}

/// An entity that is registered has its identity, and the place of the one that had it before, or
/// else the last place. All others stay as they are, and so do messages and time.
pub proof fn registered_entity_has_its_identity<P, E: TetraEntityTrait<P>>(
    router: &mut MessageRouter<P, E>,
    entity: E,
    out: (),
)
    requires
        call_ensures(MessageRouter::<P, E>::register_entity, (router, entity), out),
    ensures
        ({
            let a = old(router).entities@;
            let b = final(router).entities@;
            let id = entity.identity();
            let known = exists|k: int| 0 <= k < a.len() && (#[trigger] a[k]).id == id;
            &&& b.len() == if known {
                a.len()
            } else {
                a.len() + 1
            }
            &&& exists|k: int|
                0 <= k < b.len() && (#[trigger] b[k]).id == id && b[k].entity == entity && (known
                    ==> k < a.len() && a[k].id == id)
            &&& forall|k: int|
                0 <= k < a.len() && a[k].id != id ==> (#[trigger] b[k]) == a[k]
        }),
        final(router).msg_queue@ == old(router).msg_queue@,
        final(router).ts == old(router).ts,
{
    let a = old(router).entities@;
    let id = entity.identity();
    lemma_place_of(a, id);
    let i = place_of(a, id);
    let b = final(router).entities@;
    assert(b == with_registered(a, id, entity));
    if i < a.len() {
        assert(a[i].id == id);
        assert(b[i].id == id && b[i].entity == entity);
    } else {
        assert(b[a.len() as int].id == id);
        assert forall|k: int| 0 <= k < a.len() implies (#[trigger] a[k]).id != id by {}
    }
}

/// The entity that is asked for is the first one with that identity; there is none just where
/// nothing has it. What becomes of it in the caller's hands becomes of it in its place, and nothing
/// else changes.
pub proof fn entity_is_found_by_identity<P, E: TetraEntityTrait<P>>(
    router: &mut MessageRouter<P, E>,
    id: TetraEntity,
    out: Option<&mut E>,
)
    requires
        call_ensures(MessageRouter::<P, E>::get_entity, (router, id), out),
    ensures
        out is None <==> forall|k: int|
            0 <= k < old(router).entities@.len() ==> (#[trigger] old(router).entities@[k]).id != id,
        out matches Some(e) ==> exists|k: int|
            0 <= k < old(router).entities@.len() && (#[trigger] old(router).entities@[k]).id == id
                && *e == old(router).entities@[k].entity && (forall|j: int|
                0 <= j < k ==> (#[trigger] old(router).entities@[j]).id != id)
                && final(router).entities@ == old(router).entities@.update(
                k,
                Registered { id, entity: *final(e) },
            ),
        out is None ==> final(router).entities@ == old(router).entities@,
        final(router).msg_queue@ == old(router).msg_queue@,
        final(router).ts == old(router).ts,
{
    let a = old(router).entities@;
    lemma_place_of(a, id);
    let i = place_of(a, id);
    if out is Some {
        assert(a[i].id == id);
    }
}

/// The next message is handed to the first entity with the identity that it is for, with the other
/// messages waiting; without such an entity it is gone and nothing else changes. An immediate
/// message is next before any normal one. Without a message nothing happens.
pub proof fn next_message_is_handed_over<P, E: TetraEntityTrait<P>>(
    router: &mut MessageRouter<P, E>,
    out: (),
)
    requires
        call_ensures(MessageRouter::<P, E>::deliver_message, (router,), out),
    ensures
        ({
            let first = old(router).msg_queue.immediate_messages@;
            let second = old(router).msg_queue.messages@;
            let a = old(router).entities@;
            let b = final(router).entities@;
            let message = if first.len() > 0 {
                first[0]
            } else {
                second[0]
            };
            let rest = if first.len() > 0 {
                Queued { immediate: first.drop_first(), normal: second }
            } else {
                Queued { immediate: first, normal: second.drop_first() }
            };
            let waits = first.len() + second.len() > 0;
            let known = exists|k: int| 0 <= k < a.len() && (#[trigger] a[k]).id == message.dest;
            &&& final(router).ts == old(router).ts
            &&& b.len() == a.len()
            &&& waits && known ==> exists|k: int|
                {
                    &&& 0 <= k < a.len()
                    &&& (#[trigger] a[k]).id == message.dest
                    &&& forall|j: int| 0 <= j < k ==> (#[trigger] a[j]).id != message.dest
                    &&& forall|j: int| 0 <= j < a.len() && j != k ==> (#[trigger] b[j]) == a[j]
                    &&& b[k].id == message.dest
                    &&& E::may_receive(
                        a[k].entity,
                        rest,
                        message,
                        b[k].entity,
                        final(router).msg_queue@,
                    )
                }
            &&& waits && !known ==> b == a && final(router).msg_queue@ == rest
            &&& !waits ==> b == a && final(router).msg_queue@ == old(router).msg_queue@
        }),
{
    let a = old(router)@;
    let b = final(router)@;
    if a.queue.len() > 0 {
        let message = a.queue.front();
        lemma_place_of(a.entities, message.dest);
        let i = place_of(a.entities, message.dest);
        if i < a.entities.len() {
            assert(a.entities[i].id == message.dest);
        }
    }
}

/// A round of the delivery of normal messages does nothing where 64 were delivered or two
/// milliseconds have passed, or where no message waits. Otherwise it drains the immediate lane
/// where a message waits there, and else hands over the oldest normal message.
pub proof fn round_serves_the_first_lane<P, E: TetraEntityTrait<P>>(
    router: &mut MessageRouter<P, E>,
    count: usize,
    elapsed_ns: u128,
    out: NormalRound,
)
    requires
        call_ensures(MessageRouter::<P, E>::normal_round, (router, count, elapsed_ns), out),
    ensures
        ({
            let first = old(router).msg_queue.immediate_messages@;
            let second = old(router).msg_queue.messages@;
            let a = old(router).entities@;
            let b = final(router).entities@;
            let open = count < 64 && elapsed_ns < 2_000_000;
            &&& out == NormalRound::Finished <==> !open || first.len() + second.len() == 0
            &&& out == NormalRound::Drained <==> open && first.len() > 0
            &&& out == NormalRound::Finished ==> final(router)@ == old(router)@
            &&& out == NormalRound::Drained ==> drained(old(router)@, final(router)@)
            &&& out == NormalRound::Delivered ==> {
                let message = second[0];
                let rest = Queued { immediate: first, normal: second.drop_first() };
                if exists|k: int| 0 <= k < a.len() && (#[trigger] a[k]).id == message.dest {
                    exists|k: int|
                        {
                            &&& 0 <= k < a.len()
                            &&& (#[trigger] a[k]).id == message.dest
                            &&& forall|j: int|
                                0 <= j < a.len() && j != k ==> (#[trigger] b[j]) == a[j]
                            &&& E::may_receive(
                                a[k].entity,
                                rest,
                                message,
                                b[k].entity,
                                final(router).msg_queue@,
                            )
                        }
                } else {
                    b == a && final(router).msg_queue@ == rest
                }
            }
        }),
{
    let a = old(router)@;
    if out == NormalRound::Delivered {
        let message = a.queue.normal[0];
        lemma_place_of(a.entities, message.dest);
        let i = place_of(a.entities, message.dest);
        if i < a.entities.len() {
            assert(a.entities[i].id == message.dest);
        }
    }
}

/// Whether entities neither queue messages nor take any when they get one.
pub open spec fn quiet<P, E: TetraEntityTrait<P>>() -> bool {
    forall|before: E, queue: Queued<P>, message: SapMsg<P>, after: E, queue_after: Queued<P>|
        #[trigger] E::may_receive(before, queue, message, after, queue_after) ==> queue_after
            == queue
}

proof fn lemma_quiet_immediate<P, E: TetraEntityTrait<P>>(a: Stack<P, E>, b: Stack<P, E>, n: nat)
    requires
        quiet::<P, E>(),
        immediate_run(a, b, n),
    ensures
        n <= a.queue.immediate.len(),
        b.queue.immediate == a.queue.immediate.skip(n as int),
        b.queue.normal == a.queue.normal,
    decreases n,
{
    if n == 0 {
        assert(a.queue.immediate.skip(0) =~= a.queue.immediate);
    } else {
        let m = choose|m: Stack<P, E>|
            immediate_run(a, m, (n - 1) as nat) && #[trigger] immediate_delivered(m, b);
        lemma_quiet_immediate(a, m, (n - 1) as nat);
        assert(m.queue.immediate.drop_first() =~= a.queue.immediate.skip(n as int));
        assert(b.queue == m.queue.without_immediate());
    }
}

proof fn lemma_quiet_front<P, E: TetraEntityTrait<P>>(a: Stack<P, E>, b: Stack<P, E>, n: nat)
    requires
        quiet::<P, E>(),
        front_run(a, b, n),
    ensures
        n <= a.queue.immediate.len() + a.queue.normal.len(),
        b.queue.immediate + b.queue.normal == (a.queue.immediate + a.queue.normal).skip(n as int),
    decreases n,
{
    let all = a.queue.immediate + a.queue.normal;
    if n == 0 {
        assert(all.skip(0) =~= all);
    } else {
        let m = choose|m: Stack<P, E>|
            front_run(a, m, (n - 1) as nat) && #[trigger] front_delivered(m, b);
        lemma_quiet_front(a, m, (n - 1) as nat);
        assert(b.queue == m.queue.without_front());
        assert(b.queue.immediate + b.queue.normal =~= (m.queue.immediate
            + m.queue.normal).drop_first());
        assert(all.skip(n - 1).drop_first() =~= all.skip(n as int));
        assert((m.queue.immediate + m.queue.normal).len() > 0);
    }
}

/// Where the entities queue nothing, as many immediate messages are delivered as wait, up to 4096,
/// the oldest first, and the normal ones go on waiting. In any case immediate messages are left
/// waiting only where 4096 were delivered, and where none waits, nothing happens.
pub proof fn immediate_lane_is_drained<P, E: TetraEntityTrait<P>>(
    router: &mut MessageRouter<P, E>,
    count: usize,
)
    requires
        call_ensures(MessageRouter::<P, E>::deliver_immediate_messages, (router,), count),
    ensures
        count <= 4096,
        final(router).msg_queue.immediate_messages@.len() > 0 ==> count == 4096,
        old(router).msg_queue.immediate_messages@.len() == 0 ==> count == 0 && final(router)@
            == old(router)@,
        final(router).ts == old(router).ts,
        ids_of(final(router).entities@) == ids_of(old(router).entities@),
        quiet::<P, E>() ==> {
            let waiting = old(router).msg_queue.immediate_messages@;
            &&& count == if waiting.len() < 4096 {
                waiting.len() as int
            } else {
                4096
            }
            &&& final(router).msg_queue.immediate_messages@ == waiting.skip(count as int)
            &&& final(router).msg_queue.messages@ == old(router).msg_queue.messages@
        },
{
    let a = old(router)@;
    let b = final(router)@;
    assert(drained_in(a, b, count as nat));
    deliveries_keep_registrations_and_time(a, b, count as nat);
    if a.queue.immediate.len() == 0 {
        lemma_run_from_empty(a, b, count as nat);
    }
    if quiet::<P, E>() {
        lemma_quiet_immediate(a, b, count as nat);
    }
}

proof fn lemma_run_from_empty<P, E: TetraEntityTrait<P>>(a: Stack<P, E>, b: Stack<P, E>, n: nat)
    requires
        immediate_run(a, b, n),
        a.queue.immediate.len() == 0,
    ensures
        n == 0,
        a == b,
    decreases n,
{
    if n > 0 {
        let m = choose|m: Stack<P, E>|
            immediate_run(a, m, (n - 1) as nat) && #[trigger] immediate_delivered(m, b);
        lemma_run_from_empty(a, m, (n - 1) as nat);
    }
}

/// Where the entities queue nothing, as many messages are delivered as wait, up to 4096, all
/// immediate ones before the normal ones, the oldest of each first. In any case messages are left
/// waiting only where 4096 were delivered.
pub proof fn both_lanes_are_drained<P, E: TetraEntityTrait<P>>(
    router: &mut MessageRouter<P, E>,
    count: usize,
)
    requires
        call_ensures(MessageRouter::<P, E>::deliver_all_messages, (router,), count),
    ensures
        count <= 4096,
        final(router).msg_queue.immediate_messages@.len()
            + final(router).msg_queue.messages@.len() > 0 ==> count == 4096,
        final(router).ts == old(router).ts,
        ids_of(final(router).entities@) == ids_of(old(router).entities@),
        quiet::<P, E>() ==> {
            let waiting = old(router).msg_queue.immediate_messages@
                + old(router).msg_queue.messages@;
            &&& count == if waiting.len() < 4096 {
                waiting.len() as int
            } else {
                4096
            }
            &&& final(router).msg_queue.immediate_messages@ + final(router).msg_queue.messages@
                == waiting.skip(count as int)
        },
{
    let a = old(router)@;
    let b = final(router)@;
    assert(emptied_in(a, b, count as nat));
    deliveries_keep_registrations_and_time(a, b, count as nat);
    if quiet::<P, E>() {
        lemma_quiet_front(a, b, count as nat);
    }
}

proof fn lemma_quiet_normal<P, E: TetraEntityTrait<P>>(
    a: Stack<P, E>,
    since: Instant,
    b: Stack<P, E>,
    rounds: nat,
    n: nat,
)
    requires
        quiet::<P, E>(),
        normal_run(a, since, b, rounds, n),
    ensures
        n <= a.queue.normal.len(),
        b.queue.normal == a.queue.normal.skip(n as int),
        n > 0 ==> b.queue.immediate.len() == 0,
    decreases rounds,
{
    if rounds == 0 {
        assert(a.queue.normal.skip(0) =~= a.queue.normal);
    } else {
        let r = (rounds - 1) as nat;
        if exists|m: Stack<P, E>, ns: u128|
            normal_run(a, since, m, r, n) && m.queue.immediate.len() > 0 && #[trigger] drained(
                timed(m, since, ns),
                b,
            ) {
            let (m, ns) = choose|m: Stack<P, E>, ns: u128|
                normal_run(a, since, m, r, n) && m.queue.immediate.len() > 0
                    && #[trigger] drained(timed(m, since, ns), b);
            lemma_quiet_normal(a, since, m, r, n);
            let k = choose|k: nat| drained_in(timed(m, since, ns), b, k);
            lemma_quiet_immediate(timed(m, since, ns), b, k);
        } else {
            let (m, ns) = choose|m: Stack<P, E>, ns: u128|
                normal_run(a, since, m, r, (n - 1) as nat) && #[trigger] normal_delivered(
                    timed(m, since, ns),
                    b,
                );
            lemma_quiet_normal(a, since, m, r, (n - 1) as nat);
            assert(b.queue == m.queue.without_normal());
            assert(m.queue.normal.drop_first() =~= a.queue.normal.skip(n as int));
        }
    }
}

/// Whether as many normal messages were delivered on the way to `b` as may be in a tick, or the
/// last reading of the clock showed that the time of the tick is up; or as many rounds were gone
/// through as can be counted.
pub open spec fn lane_is_excused<P, E: TetraEntityTrait<P>>(a: Stack<P, E>, b: Stack<P, E>) -> bool {
    ||| exists|since: Instant, m: Stack<P, E>, rounds: nat, ns: u128| #[trigger]
        normal_run(a, since, m, rounds, 64) && b == #[trigger] timed(m, since, ns)
    ||| b.seen.last() matches Observation::Elapsed(_, ns) && ns >= 2_000_000
    ||| exists|since: Instant, n: nat| #[trigger] normal_run(a, since, b, u64::MAX as nat, n)
}

/// In a tick, messages are left waiting only where 64 normal ones were delivered, or where the last
/// reading of the clock shows that two milliseconds have passed; delivery is cut short in the latter
/// case alone. Time is measured from one reading in the beginning, and all readings but the last
/// are within the two milliseconds. Where the entities queue nothing, the normal messages that are
/// gone are the oldest, and as many as were counted.
pub proof fn normal_lane_is_served<P, E: TetraEntityTrait<P>>(
    router: &mut MessageRouter<P, E>,
    out: NormalDelivery,
)
    requires
        call_ensures(MessageRouter::<P, E>::deliver_normal_messages_for_tick, (router,), out),
    ensures
        out.count <= 64,
        final(router).msg_queue.immediate_messages@.len()
            + final(router).msg_queue.messages@.len() > 0 ==> lane_is_excused(
            old(router)@,
            final(router)@,
        ) && out.cut_short == (out.count < 64),
        out.cut_short ==> out.count < 64 && {
            ||| final(router).observer@.last() matches Observation::Elapsed(_, ns) && ns
                >= 2_000_000
            ||| exists|since: Instant| #[trigger]
                normal_run(old(router)@, since, final(router)@, u64::MAX as nat, out.count as nat)
        },
        final(router).observer@.len() > old(router).observer@.len(),
        match final(router).observer@[old(router).observer@.len() as int] {
            Observation::Now(since) => forall|k: int|
                old(router).observer@.len() < k < final(router).observer@.len() ==> (
                #[trigger] final(router).observer@[k] matches Observation::Elapsed(from, ns) && from
                    == since && (k + 1 < final(router).observer@.len() ==> ns < 2_000_000)),
            _ => false,
        },
        final(router).ts == old(router).ts,
        ids_of(final(router).entities@) == ids_of(old(router).entities@),
        quiet::<P, E>() ==> final(router).msg_queue.messages@
            == old(router).msg_queue.messages@.skip(out.count as int),
{
    let a = old(router)@;
    let b = final(router)@;
    let n = out.count as nat;
    messages_wait_for_bound_or_time(a, b, n, out.cut_short);
    assert(normal_lane_served(a, b));
    lemma_lane_served_keeps(a, b);
    if exists|since: Instant| #[trigger] finished_at_reading(a, since, b, n, out.cut_short) {
        let since = choose|since: Instant| #[trigger]
            finished_at_reading(a, since, b, n, out.cut_short);
        let (m, rounds, ns) = choose|m: Stack<P, E>, rounds: nat, ns: u128|
            {
                &&& #[trigger] normal_run(a, since, m, rounds, n)
                &&& b == #[trigger] timed(m, since, ns)
                &&& n == MAX_NORMAL_MESSAGES_PER_DRAIN || ns >= NORMAL_DELIVERY_BUDGET_NS
                    || b.queue.len() == 0
                &&& out.cut_short == (n < MAX_NORMAL_MESSAGES_PER_DRAIN && ns
                    >= NORMAL_DELIVERY_BUDGET_NS)
            };
        clock_is_read_for_each_round(a, since, m, rounds, n);
        assert(b.seen.last() == Observation::Elapsed(since, ns));
        if quiet::<P, E>() {
            lemma_quiet_normal(a, since, m, rounds, n);
        }
    } else {
        let since = choose|since: Instant| #[trigger]
            normal_run(a, since, b, u64::MAX as nat, n);
        clock_is_read_for_each_round(a, since, b, u64::MAX as nat, n);
        if quiet::<P, E>() {
            lemma_quiet_normal(a, since, b, u64::MAX as nat, n);
        }
    }
}

/// In a tick of a run without a given number of ticks, normal messages are delivered after all
/// entities have ended theirs: messages are left waiting only where 64 normal ones were delivered
/// since, or where the last reading of the clock shows that two milliseconds have passed.
pub proof fn live_tick_serves_the_normal_lane<P, E: TetraEntityTrait<P>>(
    router: &mut MessageRouter<P, E>,
    out: bool,
)
    requires
        call_ensures(MessageRouter::<P, E>::run_tick, (router, false, true), out),
    ensures
        out,
        final(router).observer@.len() > old(router).observer@.len(),
        exists|s: Stack<P, E>, e: Stack<P, E>|
            {
                &&& #[trigger] tick_started(old(router)@, s)
                &&& #[trigger] tick_ended(s, e)
                &&& final(router).msg_queue.immediate_messages@.len()
                    + final(router).msg_queue.messages@.len() > 0 ==> lane_is_excused(
                    e,
                    final(router)@,
                )
            },
{
    let a = old(router)@;
    let b = final(router)@;
    let (s, d, e) = choose|s: Stack<P, E>, d: Stack<P, E>, e: Stack<P, E>|
        {
            &&& #[trigger] tick_started(a, s)
            &&& s == d
            &&& #[trigger] tick_ended(d, e)
            &&& normal_lane_served(e, b)
        };
    assert(tick_ended(s, e));
    lemma_lane_served_reads(e, b);
    starts_learn_nothing(a, start_order(a.entities), s);
    tick_end_learns_nothing(s, e);
}

proof fn lemma_lane_served_reads<P, E: TetraEntityTrait<P>>(a: Stack<P, E>, b: Stack<P, E>)
    requires
        normal_lane_served(a, b),
    ensures
        b.seen.len() > a.seen.len(),
        b.queue.len() > 0 ==> lane_is_excused(a, b),
{
    let (n, cut_short) = choose|n: nat, cut_short: bool| lane_finished(a, b, n, cut_short);
    messages_wait_for_bound_or_time(a, b, n, cut_short);
    if exists|since: Instant| #[trigger] finished_at_reading(a, since, b, n, cut_short) {
        let since = choose|since: Instant| #[trigger]
            finished_at_reading(a, since, b, n, cut_short);
        let (m, rounds, ns) = choose|m: Stack<P, E>, rounds: nat, ns: u128|
            {
                &&& #[trigger] normal_run(a, since, m, rounds, n)
                &&& b == #[trigger] timed(m, since, ns)
                &&& n == MAX_NORMAL_MESSAGES_PER_DRAIN || ns >= NORMAL_DELIVERY_BUDGET_NS
                    || b.queue.len() == 0
            };
        clock_is_read_for_each_round(a, since, m, rounds, n);
        assert(b.seen.last() == Observation::Elapsed(since, ns));
    } else {
        let since = choose|since: Instant| #[trigger]
            normal_run(a, since, b, u64::MAX as nat, n);
        clock_is_read_for_each_round(a, since, b, u64::MAX as nat, n);
    }
}

/// The start of a tick learns nothing from outside.
pub proof fn starts_learn_nothing<P, E: TetraEntityTrait<P>>(
    a: Stack<P, E>,
    order: Seq<TetraEntity>,
    b: Stack<P, E>,
)
    requires
        started_in_turn(a, order, b),
    ensures
        b.seen == a.seen,
    decreases order.len(),
{
    if order.len() > 0 {
        let m = choose|m: Stack<P, E>|
            started_in_turn(a, order.drop_last(), m) && #[trigger] started_and_drained(
                m,
                order.last(),
                b,
            );
        starts_learn_nothing(a, order.drop_last(), m);
        let k = choose|k: Stack<P, E>| started(m, order.last(), k) && #[trigger] drained(k, b);
        lemma_drained_keeps(k, b);
    }
}

proof fn lemma_others_learn_nothing<P, E: TetraEntityTrait<P>>(
    a: Stack<P, E>,
    b: Stack<P, E>,
    n: nat,
)
    requires
        others_ended(a, b, n),
    ensures
        b.seen == a.seen,
    decreases n,
{
    if n > 0 {
        let m = choose|m: Stack<P, E>|
            others_ended(a, m, (n - 1) as nat) && #[trigger] ended_with_others(m, n - 1, b);
        lemma_others_learn_nothing(a, m, (n - 1) as nat);
    }
}

/// The end of a tick learns nothing from outside.
pub proof fn tick_end_learns_nothing<P, E: TetraEntityTrait<P>>(a: Stack<P, E>, b: Stack<P, E>)
    requires
        tick_ended(a, b),
    ensures
        b.seen == a.seen,
{
    let (llc, umac, others, end) = choose|
        llc: Stack<P, E>,
        umac: Stack<P, E>,
        others: Stack<P, E>,
        end: Stack<P, E>,
    |
        {
            &&& #[trigger] ended_and_drained(a, TetraEntity::Llc, llc)
            &&& #[trigger] ended_and_drained(llc, TetraEntity::Umac, umac)
            &&& #[trigger] others_ended(umac, others, umac.entities.len())
            &&& #[trigger] drained(others, end)
            &&& b == later(end)
        };
    let m = choose|m: Stack<P, E>|
        ended(a, TetraEntity::Llc, m) && #[trigger] drained(m, llc);
    lemma_drained_keeps(m, llc);
    let k = choose|k: Stack<P, E>|
        ended(llc, TetraEntity::Umac, k) && #[trigger] drained(k, umac);
    lemma_drained_keeps(k, umac);
    lemma_others_learn_nothing(umac, others, umac.entities.len());
    lemma_drained_keeps(others, end);
}

/// In a tick of a run without a given number of ticks, normal messages are delivered after the end
/// of the tick: a message is left waiting only where 64 normal ones were delivered since, or where
/// the last reading of the clock shows that two milliseconds have passed, and the clock is read in
/// any case.
pub proof fn tick_without_number_serves_the_normal_lane<P, E: TetraEntityTrait<P>>(
    a: Stack<P, E>,
    b: Stack<P, E>,
)
    requires
        ticked(a, b, false),
    ensures
        b.seen.len() > a.seen.len(),
        exists|s: Stack<P, E>, e: Stack<P, E>|
            {
                &&& #[trigger] tick_started(a, s)
                &&& #[trigger] tick_ended(s, e)
                &&& b.queue.immediate.len() + b.queue.normal.len() > 0 ==> lane_is_excused(e, b)
            },
{
    let (s, d, e) = choose|s: Stack<P, E>, d: Stack<P, E>, e: Stack<P, E>|
        {
            &&& #[trigger] tick_started(a, s)
            &&& s == d
            &&& #[trigger] tick_ended(d, e)
            &&& normal_lane_served(e, b)
        };
    assert(tick_ended(s, e));
    lemma_lane_served_reads(e, b);
    starts_learn_nothing(a, start_order(a.entities), s);
    tick_end_learns_nothing(s, e);
}

/// A tick of a run with a given number of ticks delivers all messages before the end of the tick
/// and after it, in each case as far as 4096 deliveries go, and reads no clock.
pub proof fn counted_tick_delivers_twice<P, E: TetraEntityTrait<P>>(
    router: &mut MessageRouter<P, E>,
    out: bool,
)
    requires
        call_ensures(MessageRouter::<P, E>::run_tick, (router, true, true), out),
    ensures
        out,
        final(router).observer@ == old(router).observer@,
        exists|s: Stack<P, E>, d: Stack<P, E>, e: Stack<P, E>, n: nat, k: nat|
            {
                &&& #[trigger] tick_started(old(router)@, s)
                &&& #[trigger] front_run(s, d, n)
                &&& d.queue.immediate.len() + d.queue.normal.len() > 0 ==> n == 4096
                &&& #[trigger] tick_ended(d, e)
                &&& #[trigger] front_run(e, final(router)@, k)
                &&& final(router).msg_queue.immediate_messages@.len()
                    + final(router).msg_queue.messages@.len() > 0 ==> k == 4096
            },
{
    let a = old(router)@;
    let b = final(router)@;
    let (s, d, e) = choose|s: Stack<P, E>, d: Stack<P, E>, e: Stack<P, E>|
        {
            &&& #[trigger] tick_started(a, s)
            &&& emptied(s, d)
            &&& #[trigger] tick_ended(d, e)
            &&& emptied(e, b)
        };
    let n = choose|n: nat| emptied_in(s, d, n);
    let k = choose|k: nat| emptied_in(e, b, k);
    assert(front_run(s, d, n) && front_run(e, b, k));
    starts_learn_nothing(a, start_order(a.entities), s);
    tick_end_learns_nothing(d, e);
    deliveries_keep_registrations_and_time(s, d, n);
    deliveries_keep_registrations_and_time(e, b, k);
}

/// A tick that is not to run changes nothing, and says that it was not run.
pub proof fn stopped_tick_changes_nothing<P, E: TetraEntityTrait<P>>(
    router: &mut MessageRouter<P, E>,
    counted: bool,
    out: bool,
)
    requires
        call_ensures(MessageRouter::<P, E>::run_tick, (router, counted, false), out),
    ensures
        !out,
        final(router).entities@ == old(router).entities@,
        final(router).msg_queue@ == old(router).msg_queue@,
        final(router).ts == old(router).ts,
        final(router).observer@ == old(router).observer@,
{
}

/// A tick starts with the physical layer, then lower MAC and upper MAC, then all others in the
/// order of their registration. After each, the immediate lane is drained.
pub proof fn tick_starts_on_the_radio_path<P, E: TetraEntityTrait<P>>(
    router: &mut MessageRouter<P, E>,
    out: (),
)
    requires
        call_ensures(MessageRouter::<P, E>::tick_start, (router,), out),
    ensures
        final(router).ts == old(router).ts,
        exists|phy: Stack<P, E>, lmac: Stack<P, E>, umac: Stack<P, E>|
            {
                &&& #[trigger] started_and_drained(old(router)@, TetraEntity::Phy, phy)
                &&& #[trigger] started_and_drained(phy, TetraEntity::Lmac, lmac)
                &&& #[trigger] started_and_drained(lmac, TetraEntity::Umac, umac)
                &&& started_in_turn(
                    umac,
                    ids_of(old(router).entities@).filter(
                        |id: TetraEntity|
                            id != TetraEntity::Phy && id != TetraEntity::Lmac && id
                                != TetraEntity::Umac,
                    ),
                    final(router)@,
                )
            },
{
    let a = old(router)@;
    let b = final(router)@;
    starts_keep_registrations_and_time(a, start_order(a.entities), b);
    let others = not_radio(ids_of(a.entities));
    let radio = seq![TetraEntity::Phy, TetraEntity::Lmac, TetraEntity::Umac];
    let umac = lemma_started_split(a, radio, others, b);
    assert(radio.drop_last() =~= seq![TetraEntity::Phy, TetraEntity::Lmac]);
    assert(radio.drop_last().drop_last() =~= seq![TetraEntity::Phy]);
    assert(radio.drop_last().drop_last().drop_last() =~= Seq::empty());
    reveal_with_fuel(started_in_turn, 5);
    lemma_not_radio_is_filter(ids_of(a.entities));
}

proof fn lemma_not_radio_is_filter(ids: Seq<TetraEntity>)
    ensures
        not_radio(ids) == ids.filter(
            |id: TetraEntity|
                id != TetraEntity::Phy && id != TetraEntity::Lmac && id != TetraEntity::Umac,
        ),
    decreases ids.len(),
{
    let other = |id: TetraEntity|
        id != TetraEntity::Phy && id != TetraEntity::Lmac && id != TetraEntity::Umac;
    reveal(Seq::filter);
    if ids.len() > 0 {
        lemma_not_radio_is_filter(ids.drop_last());
    }
}

proof fn lemma_started_split<P, E: TetraEntityTrait<P>>(
    a: Stack<P, E>,
    first: Seq<TetraEntity>,
    second: Seq<TetraEntity>,
    b: Stack<P, E>,
) -> (m: Stack<P, E>)
    requires
        started_in_turn(a, first + second, b),
    ensures
        started_in_turn(a, first, m),
        started_in_turn(m, second, b),
    decreases second.len(),
{
    if second.len() == 0 {
        assert(first + second =~= first);
        b
    } else {
        let order = first + second;
        assert(order.drop_last() =~= first + second.drop_last());
        let k = choose|k: Stack<P, E>|
            started_in_turn(a, order.drop_last(), k) && #[trigger] started_and_drained(
                k,
                order.last(),
                b,
            );
        let m = lemma_started_split(a, first, second.drop_last(), k);
        assert(order.last() == second.last());
        m
    }
}

/// When entities start in turn, each of them starts with the messages that the one before left, at
/// the current time, all others stay as they are, and then the immediate lane is drained. One that
/// is not registered does nothing.
pub proof fn entities_start_one_by_one<P, E: TetraEntityTrait<P>>(
    a: Stack<P, E>,
    order: Seq<TetraEntity>,
    b: Stack<P, E>,
)
    requires
        started_in_turn(a, order, b),
        order.len() > 0,
    ensures
        exists|m: Stack<P, E>, k: Stack<P, E>|
            {
                &&& #[trigger] started_in_turn(a, order.drop_last(), m)
                &&& #[trigger] drained(k, b)
                &&& k.ts == m.ts && k.seen == m.seen && k.entities.len() == m.entities.len()
                &&& forall|j: int|
                    0 <= j < m.entities.len() && m.entities[j].id != order.last() ==> (
                    #[trigger] k.entities[j]) == m.entities[j]
                &&& (exists|j: int|
                    {
                        &&& 0 <= j < m.entities.len()
                        &&& (#[trigger] m.entities[j]).id == order.last()
                        &&& E::may_start(
                            m.entities[j].entity,
                            m.queue,
                            m.ts,
                            k.entities[j].entity,
                            k.queue,
                        )
                    }) || (k == m && forall|j: int|
                    0 <= j < m.entities.len() ==> (#[trigger] m.entities[j]).id != order.last())
            },
{
    let m = choose|m: Stack<P, E>|
        started_in_turn(a, order.drop_last(), m) && #[trigger] started_and_drained(
            m,
            order.last(),
            b,
        );
    let k = choose|k: Stack<P, E>| started(m, order.last(), k) && #[trigger] drained(k, b);
    lemma_place_of(m.entities, order.last());
    let i = place_of(m.entities, order.last());
    assert(started_in_turn(a, order.drop_last(), m) && drained(k, b));
    if i < m.entities.len() {
        assert(m.entities[i].id == order.last());
    }
}

/// The end of a tick moves the time by one timeslot: link control ends first, then the upper MAC,
/// then all others, and the immediate lane is drained after each of these.
pub proof fn tick_ends_with_link_control_first<P, E: TetraEntityTrait<P>>(
    router: &mut MessageRouter<P, E>,
    later_ts: TdmaTime,
    out: (),
)
    requires
        call_ensures(MessageRouter::<P, E>::tick_end, (router,), out),
        call_ensures(TdmaTime::add_timeslots, (router.ts, 1i32), later_ts),
    ensures
        final(router).ts == later_ts,
        final(router).observer@ == old(router).observer@,
        ids_of(final(router).entities@) == ids_of(old(router).entities@),
        exists|
            llc: Stack<P, E>,
            llc_end: Stack<P, E>,
            umac: Stack<P, E>,
            umac_end: Stack<P, E>,
            others: Stack<P, E>,
            end: Stack<P, E>,
        |
            {
                &&& #[trigger] ended(old(router)@, TetraEntity::Llc, llc)
                &&& #[trigger] drained(llc, llc_end)
                &&& #[trigger] ended(llc_end, TetraEntity::Umac, umac)
                &&& #[trigger] drained(umac, umac_end)
                &&& #[trigger] others_ended(umac_end, others, umac_end.entities.len())
                &&& #[trigger] drained(others, end)
                &&& end.entities == final(router).entities@
                &&& end.queue == final(router).msg_queue@
            },
{
    let a = old(router)@;
    let b = final(router)@;
    tick_end_moves_one_timeslot(a, b);
    tick_end_learns_nothing(a, b);
    let (llc_end, umac_end, others, end) = choose|
        llc_end: Stack<P, E>,
        umac_end: Stack<P, E>,
        others: Stack<P, E>,
        end: Stack<P, E>,
    |
        {
            &&& #[trigger] ended_and_drained(a, TetraEntity::Llc, llc_end)
            &&& #[trigger] ended_and_drained(llc_end, TetraEntity::Umac, umac_end)
            &&& #[trigger] others_ended(umac_end, others, umac_end.entities.len())
            &&& #[trigger] drained(others, end)
            &&& b == later(end)
        };
    let llc = choose|m: Stack<P, E>|
        ended(a, TetraEntity::Llc, m) && #[trigger] drained(m, llc_end);
    let umac = choose|m: Stack<P, E>|
        ended(llc_end, TetraEntity::Umac, m) && #[trigger] drained(m, umac_end);
    assert(ended(a, TetraEntity::Llc, llc) && drained(llc, llc_end));
    assert(ended(llc_end, TetraEntity::Umac, umac) && drained(umac, umac_end));
    assert(others_ended(umac_end, others, umac_end.entities.len()) && drained(others, end));
}

// How often entities start and end
/// Whether a number that entities carry goes up by `starts` when one starts a tick, by `ends` when
/// one ends a tick, and stays when one gets a message, and whether entities stay what they are.
pub open spec fn counts<P, E: TetraEntityTrait<P>>(
    f: spec_fn(E) -> int,
    starts: int,
    ends: int,
) -> bool {
    &&& forall|before: E, queue: Queued<P>, message: SapMsg<P>, after: E, queue_after: Queued<P>|
        #[trigger] E::may_receive(before, queue, message, after, queue_after) ==> f(after) == f(
            before,
        ) && after.identity() == before.identity()
    &&& forall|before: E, queue: Queued<P>, ts: TdmaTime, after: E, queue_after: Queued<P>|
        #[trigger] E::may_start(before, queue, ts, after, queue_after) ==> f(after) == f(before)
            + starts && after.identity() == before.identity()
    &&& forall|before: E, queue: Queued<P>, ts: TdmaTime, after: E, queue_after: Queued<P>|
        #[trigger] E::may_end(before, queue, ts, after, queue_after) ==> f(after) == f(before)
            + ends && after.identity() == before.identity()
}

/// Whether every entity is registered as what it is, and none twice.
pub open spec fn registered_as_they_are<P, E: TetraEntityTrait<P>>(
    entities: Seq<Registered<E>>,
) -> bool {
    &&& all_distinct(entities)
    &&& forall|i: int|
        0 <= i < entities.len() ==> (#[trigger] entities[i]).entity.identity() == entities[i].id
}

/// Whether the number of each entity went up by what is given for its identity, and nothing else
/// was registered.
pub open spec fn went_up<P, E: TetraEntityTrait<P>>(
    f: spec_fn(E) -> int,
    a: Stack<P, E>,
    b: Stack<P, E>,
    rise: spec_fn(TetraEntity) -> int,
) -> bool {
    &&& b.entities.len() == a.entities.len()
    &&& forall|i: int|
        0 <= i < a.entities.len() ==> {
            &&& (#[trigger] b.entities[i]).id == a.entities[i].id
            &&& b.entities[i].entity.identity() == a.entities[i].entity.identity()
            &&& f(b.entities[i].entity) == f(a.entities[i].entity) + rise(a.entities[i].id)
        }
}

proof fn lemma_delivered_counts<P, E: TetraEntityTrait<P>>(
    f: spec_fn(E) -> int,
    starts: int,
    ends: int,
    a: Stack<P, E>,
    message: SapMsg<P>,
    rest: Queued<P>,
    b: Stack<P, E>,
)
    requires
        counts::<P, E>(f, starts, ends),
        delivered(a, message, rest, b),
    ensures
        went_up(f, a, b, |id: TetraEntity| 0),
{
    lemma_place_of(a.entities, message.dest);
}

proof fn lemma_runs_count<P, E: TetraEntityTrait<P>>(
    f: spec_fn(E) -> int,
    starts: int,
    ends: int,
    a: Stack<P, E>,
    b: Stack<P, E>,
    n: nat,
)
    requires
        counts::<P, E>(f, starts, ends),
        front_run(a, b, n) || immediate_run(a, b, n),
    ensures
        went_up(f, a, b, |id: TetraEntity| 0),
    decreases n,
{
    if n > 0 {
        if front_run(a, b, n) {
            let m = choose|m: Stack<P, E>|
                front_run(a, m, (n - 1) as nat) && #[trigger] front_delivered(m, b);
            lemma_runs_count(f, starts, ends, a, m, (n - 1) as nat);
            lemma_delivered_counts(
                f,
                starts,
                ends,
                m,
                m.queue.front(),
                m.queue.without_front(),
                b,
            );
        } else {
            let m = choose|m: Stack<P, E>|
                immediate_run(a, m, (n - 1) as nat) && #[trigger] immediate_delivered(m, b);
            lemma_runs_count(f, starts, ends, a, m, (n - 1) as nat);
            lemma_delivered_counts(
                f,
                starts,
                ends,
                m,
                m.queue.immediate[0],
                m.queue.without_immediate(),
                b,
            );
        }
    }
}

proof fn lemma_drained_counts<P, E: TetraEntityTrait<P>>(
    f: spec_fn(E) -> int,
    starts: int,
    ends: int,
    a: Stack<P, E>,
    b: Stack<P, E>,
)
    requires
        counts::<P, E>(f, starts, ends),
        drained(a, b),
    ensures
        went_up(f, a, b, |id: TetraEntity| 0),
{
    let n = choose|n: nat| drained_in(a, b, n);
    lemma_runs_count(f, starts, ends, a, b, n);
}

proof fn lemma_normal_run_counts<P, E: TetraEntityTrait<P>>(
    f: spec_fn(E) -> int,
    starts: int,
    ends: int,
    a: Stack<P, E>,
    since: Instant,
    b: Stack<P, E>,
    rounds: nat,
    n: nat,
)
    requires
        counts::<P, E>(f, starts, ends),
        normal_run(a, since, b, rounds, n),
    ensures
        went_up(f, a, b, |id: TetraEntity| 0),
    decreases rounds,
{
    if rounds > 0 {
        let r = (rounds - 1) as nat;
        if exists|m: Stack<P, E>, ns: u128|
            normal_run(a, since, m, r, n) && #[trigger] drained(timed(m, since, ns), b) {
            let (m, ns) = choose|m: Stack<P, E>, ns: u128|
                normal_run(a, since, m, r, n) && #[trigger] drained(timed(m, since, ns), b);
            lemma_normal_run_counts(f, starts, ends, a, since, m, r, n);
            lemma_drained_counts(f, starts, ends, timed(m, since, ns), b);
        } else {
            let (m, ns) = choose|m: Stack<P, E>, ns: u128|
                normal_run(a, since, m, r, (n - 1) as nat) && #[trigger] normal_delivered(
                    timed(m, since, ns),
                    b,
                );
            lemma_normal_run_counts(f, starts, ends, a, since, m, r, (n - 1) as nat);
            lemma_delivered_counts(
                f,
                starts,
                ends,
                timed(m, since, ns),
                m.queue.normal[0],
                m.queue.without_normal(),
                b,
            );
        }
    }
}

proof fn lemma_lane_counts<P, E: TetraEntityTrait<P>>(
    f: spec_fn(E) -> int,
    starts: int,
    ends: int,
    a: Stack<P, E>,
    b: Stack<P, E>,
)
    requires
        counts::<P, E>(f, starts, ends),
        normal_lane_served(a, b),
    ensures
        went_up(f, a, b, |id: TetraEntity| 0),
{
    let (n, cut_short) = choose|n: nat, cut_short: bool| lane_finished(a, b, n, cut_short);
    if exists|since: Instant| #[trigger] finished_at_reading(a, since, b, n, cut_short) {
        let since = choose|since: Instant| #[trigger]
            finished_at_reading(a, since, b, n, cut_short);
        let (m, rounds, ns) = choose|m: Stack<P, E>, rounds: nat, ns: u128| #[trigger]
            normal_run(a, since, m, rounds, n) && b == #[trigger] timed(m, since, ns);
        lemma_normal_run_counts(f, starts, ends, a, since, m, rounds, n);
    } else {
        let since = choose|since: Instant| #[trigger]
            normal_run(a, since, b, u64::MAX as nat, n);
        lemma_normal_run_counts(f, starts, ends, a, since, b, u64::MAX as nat, n);
    }
}

proof fn lemma_starts_count<P, E: TetraEntityTrait<P>>(
    f: spec_fn(E) -> int,
    starts: int,
    ends: int,
    a: Stack<P, E>,
    order: Seq<TetraEntity>,
    b: Stack<P, E>,
)
    requires
        counts::<P, E>(f, starts, ends),
        started_in_turn(a, order, b),
        registered_as_they_are(a.entities),
        order.no_duplicates(),
    ensures
        went_up(
            f,
            a,
            b,
            |id: TetraEntity|
                if order.contains(id) {
                    starts
                } else {
                    0
                },
        ),
    decreases order.len(),
{
    if order.len() > 0 {
        let before = order.drop_last();
        let last = order.last();
        let m = choose|m: Stack<P, E>|
            started_in_turn(a, before, m) && #[trigger] started_and_drained(m, last, b);
        lemma_starts_count(f, starts, ends, a, before, m);
        let k = choose|k: Stack<P, E>| started(m, last, k) && #[trigger] drained(k, b);
        lemma_drained_counts(f, starts, ends, k, b);
        lemma_place_of(m.entities, last);
        assert(!before.contains(last));
        assert forall|i: int| 0 <= i < a.entities.len() implies {
            &&& (#[trigger] b.entities[i]).id == a.entities[i].id
            &&& b.entities[i].entity.identity() == a.entities[i].entity.identity()
            &&& f(b.entities[i].entity) == f(a.entities[i].entity) + if order.contains(
                a.entities[i].id,
            ) {
                starts
            } else {
                0
            }
        } by {
            let id = a.entities[i].id;
            assert(m.entities[i].id == id);
            assert(k.entities[i].id == id);
            if id == last {
                assert(order[order.len() - 1] == id);
                assert(m.entities[place_of(m.entities, last)].id
                    == a.entities[place_of(m.entities, last)].id);
            } else {
                if order.contains(id) {
                    let j = choose|j: int| 0 <= j < order.len() && order[j] == id;
                    assert(before[j] == id);
                }
                if before.contains(id) {
                    let j = choose|j: int| 0 <= j < before.len() && before[j] == id;
                    assert(order[j] == id);
                }
            }
        }
    }
}

proof fn lemma_not_radio(ids: Seq<TetraEntity>)
    ensures
        forall|id: TetraEntity| #[trigger]
            not_radio(ids).contains(id) <==> ids.contains(id) && !is_radio(id),
        ids.no_duplicates() ==> not_radio(ids).no_duplicates(),
    decreases ids.len(),
{
    if ids.len() > 0 {
        let before = ids.drop_last();
        lemma_not_radio(before);
        let rest = not_radio(before);
        assert forall|id: TetraEntity| #[trigger]
            not_radio(ids).contains(id) <==> ids.contains(id) && !is_radio(id) by {
            assert(ids =~= before.push(ids.last()));
            broadcast use vstd::seq_lib::group_seq_properties;

        }
        if ids.no_duplicates() {
            assert(before.no_duplicates());
            assert(!before.contains(ids.last()));
            assert(!rest.contains(ids.last()));
        }
    }
}

proof fn lemma_start_order<P, E: TetraEntityTrait<P>>(entities: Seq<Registered<E>>)
    requires
        all_distinct(entities),
    ensures
        start_order(entities).no_duplicates(),
        forall|i: int|
            0 <= i < entities.len() ==> start_order(entities).contains(
                (#[trigger] entities[i]).id,
            ),
{
    let ids = ids_of(entities);
    let others = not_radio(ids);
    let radio = seq![TetraEntity::Phy, TetraEntity::Lmac, TetraEntity::Umac];
    lemma_not_radio(ids);
    let order = start_order(entities);
    assert(ids.no_duplicates());
    assert forall|i: int, j: int| 0 <= i < order.len() && 0 <= j < order.len() && i
        != j implies order[i] != order[j] by {
        if i >= 3 {
            assert(others[i - 3] == order[i]);
            assert(others.contains(order[i]));
        }
        if j >= 3 {
            assert(others[j - 3] == order[j]);
            assert(others.contains(order[j]));
        }
    }
    assert forall|i: int| 0 <= i < entities.len() implies order.contains(
        (#[trigger] entities[i]).id,
    ) by {
        let id = entities[i].id;
        assert(ids[i] == id);
        if is_radio(id) {
            assert(order[0] == TetraEntity::Phy && order[1] == TetraEntity::Lmac && order[2]
                == TetraEntity::Umac);
        } else {
            assert(others.contains(id));
            let j = choose|j: int| 0 <= j < others.len() && others[j] == id;
            assert(order[j + 3] == id);
        }
    }
}

proof fn lemma_ended_counts<P, E: TetraEntityTrait<P>>(
    f: spec_fn(E) -> int,
    starts: int,
    ends: int,
    a: Stack<P, E>,
    id: TetraEntity,
    b: Stack<P, E>,
)
    requires
        counts::<P, E>(f, starts, ends),
        ended_and_drained(a, id, b),
        registered_as_they_are(a.entities),
    ensures
        went_up(
            f,
            a,
            b,
            |other: TetraEntity|
                if other == id {
                    ends
                } else {
                    0
                },
        ),
{
    let m = choose|m: Stack<P, E>| ended(a, id, m) && #[trigger] drained(m, b);
    lemma_drained_counts(f, starts, ends, m, b);
    lemma_place_of(a.entities, id);
    let p = place_of(a.entities, id);
    assert forall|i: int| 0 <= i < a.entities.len() implies {
        &&& (#[trigger] b.entities[i]).id == a.entities[i].id
        &&& b.entities[i].entity.identity() == a.entities[i].entity.identity()
        &&& f(b.entities[i].entity) == f(a.entities[i].entity) + if a.entities[i].id == id {
            ends
        } else {
            0
        }
    } by {
        assert(m.entities[i].id == a.entities[i].id);
    }
}

proof fn lemma_others_count<P, E: TetraEntityTrait<P>>(
    f: spec_fn(E) -> int,
    starts: int,
    ends: int,
    a: Stack<P, E>,
    b: Stack<P, E>,
    n: nat,
)
    requires
        counts::<P, E>(f, starts, ends),
        others_ended(a, b, n),
        registered_as_they_are(a.entities),
        n <= a.entities.len(),
    ensures
        b.entities.len() == a.entities.len(),
        forall|i: int|
            0 <= i < a.entities.len() ==> {
                &&& (#[trigger] b.entities[i]).id == a.entities[i].id
                &&& b.entities[i].entity.identity() == a.entities[i].entity.identity()
                &&& f(b.entities[i].entity) == f(a.entities[i].entity) + if i < n
                    && a.entities[i].id != TetraEntity::Llc && a.entities[i].id
                    != TetraEntity::Umac {
                    ends
                } else {
                    0
                }
            },
    decreases n,
{
    if n > 0 {
        let m = choose|m: Stack<P, E>|
            others_ended(a, m, (n - 1) as nat) && #[trigger] ended_with_others(m, n - 1, b);
        lemma_others_count(f, starts, ends, a, m, (n - 1) as nat);
        assert(m.entities[n - 1].id == a.entities[n - 1].id);
        assert forall|i: int| 0 <= i < a.entities.len() implies {
            &&& (#[trigger] b.entities[i]).id == a.entities[i].id
            &&& b.entities[i].entity.identity() == a.entities[i].entity.identity()
            &&& f(b.entities[i].entity) == f(a.entities[i].entity) + if i < n && a.entities[i].id
                != TetraEntity::Llc && a.entities[i].id != TetraEntity::Umac {
                ends
            } else {
                0
            }
        } by {
            assert(m.entities[i].id == a.entities[i].id);
        }
    }
}

proof fn lemma_tick_start_counts<P, E: TetraEntityTrait<P>>(
    f: spec_fn(E) -> int,
    starts: int,
    ends: int,
    a: Stack<P, E>,
    b: Stack<P, E>,
)
    requires
        counts::<P, E>(f, starts, ends),
        tick_started(a, b),
        registered_as_they_are(a.entities),
    ensures
        went_up(f, a, b, |id: TetraEntity| starts),
{
    lemma_start_order::<P, E>(a.entities);
    lemma_starts_count(f, starts, ends, a, start_order(a.entities), b);
}

proof fn lemma_tick_end_counts<P, E: TetraEntityTrait<P>>(
    f: spec_fn(E) -> int,
    starts: int,
    ends: int,
    a: Stack<P, E>,
    b: Stack<P, E>,
)
    requires
        counts::<P, E>(f, starts, ends),
        tick_ended(a, b),
        registered_as_they_are(a.entities),
    ensures
        went_up(f, a, b, |id: TetraEntity| ends),
{
    let (llc, umac, others, end) = choose|
        llc: Stack<P, E>,
        umac: Stack<P, E>,
        others: Stack<P, E>,
        end: Stack<P, E>,
    |
        {
            &&& #[trigger] ended_and_drained(a, TetraEntity::Llc, llc)
            &&& #[trigger] ended_and_drained(llc, TetraEntity::Umac, umac)
            &&& #[trigger] others_ended(umac, others, umac.entities.len())
            &&& #[trigger] drained(others, end)
            &&& b == later(end)
        };
    lemma_ended_counts(f, starts, ends, a, TetraEntity::Llc, llc);
    assert forall|i: int, j: int| 0 <= i < j < llc.entities.len() implies (
    #[trigger] llc.entities[i]).id != (#[trigger] llc.entities[j]).id by {
        assert(a.entities[i].id != a.entities[j].id);
    }
    lemma_ended_counts(f, starts, ends, llc, TetraEntity::Umac, umac);
    assert forall|i: int, j: int| 0 <= i < j < umac.entities.len() implies (
    #[trigger] umac.entities[i]).id != (#[trigger] umac.entities[j]).id by {
        assert(llc.entities[i].id != llc.entities[j].id);
    }
    assert forall|i: int| 0 <= i < umac.entities.len() implies (
    #[trigger] umac.entities[i]).entity.identity() == umac.entities[i].id by {
        assert(llc.entities[i].id == a.entities[i].id);
    }
    lemma_others_count(f, starts, ends, umac, others, umac.entities.len());
    lemma_drained_counts(f, starts, ends, others, end);
    assert forall|i: int| 0 <= i < a.entities.len() implies {
        &&& (#[trigger] b.entities[i]).id == a.entities[i].id
        &&& b.entities[i].entity.identity() == a.entities[i].entity.identity()
        &&& f(b.entities[i].entity) == f(a.entities[i].entity) + ends
    } by {
        assert(llc.entities[i].id == a.entities[i].id);
        assert(umac.entities[i].id == a.entities[i].id);
        assert(others.entities[i].id == a.entities[i].id);
        assert(end.entities[i].id == a.entities[i].id);
    }
}

proof fn lemma_tick_counts<P, E: TetraEntityTrait<P>>(
    f: spec_fn(E) -> int,
    starts: int,
    ends: int,
    a: Stack<P, E>,
    b: Stack<P, E>,
    counted: bool,
)
    requires
        counts::<P, E>(f, starts, ends),
        ticked(a, b, counted),
        registered_as_they_are(a.entities),
    ensures
        went_up(f, a, b, |id: TetraEntity| starts + ends),
        registered_as_they_are(b.entities),
{
    let (s, d, e) = choose|s: Stack<P, E>, d: Stack<P, E>, e: Stack<P, E>|
        {
            &&& #[trigger] tick_started(a, s)
            &&& if counted {
                emptied(s, d)
            } else {
                s == d
            }
            &&& #[trigger] tick_ended(d, e)
            &&& if counted {
                emptied(e, b)
            } else {
                normal_lane_served(e, b)
            }
        };
    lemma_tick_start_counts(f, starts, ends, a, s);
    if counted {
        lemma_runs_count(f, starts, ends, s, d, choose|n: nat| emptied_in(s, d, n));
    }
    assert forall|i: int, j: int| 0 <= i < j < d.entities.len() implies (
    #[trigger] d.entities[i]).id != (#[trigger] d.entities[j]).id by {
        assert(s.entities[i].id == a.entities[i].id && s.entities[j].id == a.entities[j].id);
        assert(a.entities[i].id != a.entities[j].id);
    }
    assert forall|i: int| 0 <= i < d.entities.len() implies (
    #[trigger] d.entities[i]).entity.identity() == d.entities[i].id by {
        assert(s.entities[i].id == a.entities[i].id);
    }
    lemma_tick_end_counts(f, starts, ends, d, e);
    if counted {
        lemma_runs_count(f, starts, ends, e, b, choose|n: nat| emptied_in(e, b, n));
    } else {
        lemma_lane_counts(f, starts, ends, e, b);
    }
    assert forall|i: int| 0 <= i < a.entities.len() implies {
        &&& (#[trigger] b.entities[i]).id == a.entities[i].id
        &&& b.entities[i].entity.identity() == a.entities[i].entity.identity()
        &&& f(b.entities[i].entity) == f(a.entities[i].entity) + (starts + ends)
    } by {
        assert(s.entities[i].id == a.entities[i].id);
        assert(d.entities[i].id == a.entities[i].id);
        assert(e.entities[i].id == a.entities[i].id);
    }
}

/// The start of a tick starts every entity just once, and ends none.
pub proof fn every_entity_starts_once<P, E: TetraEntityTrait<P>>(
    router: &mut MessageRouter<P, E>,
    out: (),
    f: spec_fn(E) -> int,
    starts: int,
    ends: int,
)
    requires
        call_ensures(MessageRouter::<P, E>::tick_start, (router,), out),
        registered_as_they_are(router.entities@),
        counts::<P, E>(f, starts, ends),
    ensures
        went_up(f, old(router)@, final(router)@, |id: TetraEntity| starts),
{
    lemma_tick_start_counts(f, starts, ends, old(router)@, final(router)@);
}

/// The end of a tick ends the tick of every entity just once, and starts none.
pub proof fn every_entity_ends_once<P, E: TetraEntityTrait<P>>(
    router: &mut MessageRouter<P, E>,
    out: (),
    f: spec_fn(E) -> int,
    starts: int,
    ends: int,
)
    requires
        call_ensures(MessageRouter::<P, E>::tick_end, (router,), out),
        registered_as_they_are(router.entities@),
        counts::<P, E>(f, starts, ends),
    ensures
        went_up(f, old(router)@, final(router)@, |id: TetraEntity| ends),
{
    lemma_tick_end_counts(f, starts, ends, old(router)@, final(router)@);
}

/// A tick starts and ends every entity just once, whether the ticks of the run are counted or not.
pub proof fn every_entity_ticks_once<P, E: TetraEntityTrait<P>>(
    router: &mut MessageRouter<P, E>,
    counted: bool,
    out: bool,
    f: spec_fn(E) -> int,
    starts: int,
    ends: int,
)
    requires
        call_ensures(MessageRouter::<P, E>::run_tick, (router, counted, true), out),
        registered_as_they_are(router.entities@),
        counts::<P, E>(f, starts, ends),
    ensures
        out,
        went_up(f, old(router)@, final(router)@, |id: TetraEntity| starts + ends),
{
    lemma_tick_counts(f, starts, ends, old(router)@, final(router)@, counted);
}

proof fn lemma_ticks_count<P, E: TetraEntityTrait<P>>(
    f: spec_fn(E) -> int,
    starts: int,
    ends: int,
    a: Stack<P, E>,
    b: Stack<P, E>,
    counted: bool,
    watched: Option<Arc<AtomicBool>>,
    n: nat,
)
    requires
        counts::<P, E>(f, starts, ends),
        ticked_times(a, b, counted, watched, n),
        registered_as_they_are(a.entities),
    ensures
        went_up(f, a, b, |id: TetraEntity| n * (starts + ends)),
        registered_as_they_are(b.entities),
    decreases n,
{
    if n > 0 {
        let m = choose|m: Stack<P, E>|
            ticked_times(a, m, counted, watched, (n - 1) as nat) && #[trigger] ticked(
                going_on(m, watched),
                b,
                counted,
            );
        lemma_ticks_count(f, starts, ends, a, m, counted, watched, (n - 1) as nat);
        lemma_tick_counts(f, starts, ends, going_on(m, watched), b, counted);
        assert((n - 1) * (starts + ends) + (starts + ends) == n * (starts + ends))
            by (nonlinear_arith);
        assert forall|i: int| 0 <= i < a.entities.len() implies {
            &&& (#[trigger] b.entities[i]).id == a.entities[i].id
            &&& b.entities[i].entity.identity() == a.entities[i].entity.identity()
            &&& f(b.entities[i].entity) == f(a.entities[i].entity) + n * (starts + ends)
        } by {
            assert(m.entities[i].id == a.entities[i].id);
        }
    } else {
        assert(0 * (starts + ends) == 0);
    }
}

/// A run starts and ends every entity as often as there are ticks in it. It has as many ticks as
/// are asked for, unless its flag was found cleared before the next one; the time moves on by as
/// many timeslots, and without ticks nothing happens.
pub proof fn run_has_as_many_ticks_as_asked<P, E: TetraEntityTrait<P>>(
    router: &mut MessageRouter<P, E>,
    num_ticks: Option<usize>,
    running: Option<Arc<AtomicBool>>,
    end: RunEnd,
    f: spec_fn(E) -> int,
    starts: int,
    ends: int,
)
    requires
        call_ensures(MessageRouter::<P, E>::run_stack, (router, num_ticks, running), end),
        registered_as_they_are(router.entities@),
        router.ts.valid(),
        counts::<P, E>(f, starts, ends),
    ensures
        went_up(f, old(router)@, final(router)@, |id: TetraEntity| end.ticks * (starts + ends)),
        slot_number(final(router).ts) == (slot_number(old(router).ts) + end.ticks) % 283_115_520,
        num_ticks matches Some(n) ==> end.ticks <= n,
        end.stopped ==> (running matches Some(flag) && final(router).observer@.len() > 0
            && final(router).observer@.last() == Observation::Flag(*flag, false)),
        !end.stopped ==> end.ticks == match num_ticks {
            Some(n) => n,
            None => usize::MAX,
        },
        end.ticks == 0 ==> final(router).entities@ == old(router).entities@
            && final(router).msg_queue@ == old(router).msg_queue@,
{
    let a = old(router)@;
    let b = final(router)@;
    let counted = num_ticks is Some;
    let n = end.ticks as nat;
    if end.stopped {
        let flag = running->0;
        stopped_run_moves_as_many_timeslots(a, b, counted, flag, n);
        let m = choose|m: Stack<P, E>|
            b == saw(m, Observation::Flag(*flag, false)) && #[trigger] ticked_times(
                a,
                m,
                counted,
                Some(flag),
                n,
            );
        lemma_ticks_count(f, starts, ends, a, m, counted, running, n);
    } else {
        ticks_move_as_many_timeslots(a, b, counted, running, n);
        lemma_ticks_count(f, starts, ends, a, b, counted, running, n);
    }
    slot_numbers_round_trip(slot_number(a.ts) + n);
}

/// A message comes from where it says and is for whom it says. Without a priority it is a normal
/// one.
pub proof fn messages_have_source_and_destination<P>(
    message: &SapMsg<P>,
    source: TetraEntity,
    dest: TetraEntity,
    prio: MessagePrio,
    queue: MessageQueue<P>,
)
    requires
        call_ensures(SapMsg::<P>::get_source, (message,), source),
        call_ensures(SapMsg::<P>::get_dest, (message,), dest),
        call_ensures(MessagePrio::default, (), prio),
        call_ensures(MessageQueue::<P>::new, (), queue),
    ensures
        source == message.src,
        dest == message.dest,
        prio == MessagePrio::Normal,
        queue.messages@.len() == 0 && queue.immediate_messages@.len() == 0,
{
    assert(queue@.normal == queue.messages@ && queue@.immediate == queue.immediate_messages@);
}

/// The length that is told of the router's queue is the number of its waiting messages.
pub proof fn router_tells_how_many_messages_wait<P, E: TetraEntityTrait<P>>(
    router: &MessageRouter<P, E>,
    out: usize,
)
    requires
        call_ensures(MessageRouter::<P, E>::get_msgqueue_len, (router,), out),
    ensures
        out == router.msg_queue.immediate_messages@.len() + router.msg_queue.messages@.len(),
{
}

/// An entity that ends its tick by its identity does so with the messages that wait, at the current
/// time, and all others stay as they are. One that is not registered does nothing.
pub proof fn registered_entity_ends_its_tick<P, E: TetraEntityTrait<P>>(
    a: Stack<P, E>,
    id: TetraEntity,
    b: Stack<P, E>,
)
    requires
        ended(a, id, b),
    ensures
        b.ts == a.ts && b.seen == a.seen && b.entities.len() == a.entities.len(),
        (exists|j: int|
            {
                &&& 0 <= j < a.entities.len()
                &&& (#[trigger] a.entities[j]).id == id
                &&& E::may_end(a.entities[j].entity, a.queue, a.ts, b.entities[j].entity, b.queue)
                &&& b.entities[j].id == id
                &&& forall|k: int|
                    0 <= k < a.entities.len() && k != j ==> (#[trigger] b.entities[k])
                        == a.entities[k]
            }) || (b == a && forall|j: int|
            0 <= j < a.entities.len() ==> (#[trigger] a.entities[j]).id != id),
{
    lemma_place_of(a.entities, id);
    let i = place_of(a.entities, id);
    if i < a.entities.len() {
        assert(a.entities[i].id == id);
    }
}

/// The others end their ticks in the order of their registration, each with the messages that the
/// one before left, at the current time. Link control and the upper MAC, which ended theirs before,
/// do nothing then.
pub proof fn others_end_one_by_one<P, E: TetraEntityTrait<P>>(
    a: Stack<P, E>,
    b: Stack<P, E>,
    n: nat,
)
    requires
        others_ended(a, b, n),
        n > 0,
    ensures
        exists|m: Stack<P, E>|
            {
                let before = m.entities[n - 1].entity;
                &&& #[trigger] others_ended(a, m, (n - 1) as nat)
                &&& b.ts == m.ts && b.seen == m.seen && b.entities.len() == m.entities.len()
                &&& forall|j: int|
                    0 <= j < m.entities.len() && j != n - 1 ==> (#[trigger] b.entities[j])
                        == m.entities[j]
                &&& before.identity() == TetraEntity::Llc || before.identity() == TetraEntity::Umac
                    ==> b == m
                &&& before.identity() != TetraEntity::Llc && before.identity() != TetraEntity::Umac
                    ==> E::may_end(before, m.queue, m.ts, b.entities[n - 1].entity, b.queue)
            },
{
    let m = choose|m: Stack<P, E>|
        others_ended(a, m, (n - 1) as nat) && #[trigger] ended_with_others(m, n - 1, b);
    assert(others_ended(a, m, (n - 1) as nat));
}

/// The readings of flags that are on record.
pub open spec fn flag_readings(seen: Seq<Observation>) -> nat
    decreases seen.len(),
{
    if seen.len() == 0 {
        0
    } else if seen.last() is Flag {
        flag_readings(seen.drop_last()) + 1
    } else {
        flag_readings(seen.drop_last())
    }
}

/// Whether nothing but clocks was read on the way from `a` to `b`.
pub open spec fn reads_clocks_alone(a: Seq<Observation>, b: Seq<Observation>) -> bool {
    &&& a.len() <= b.len()
    &&& b.take(a.len() as int) == a
    &&& forall|k: int| a.len() <= k < b.len() ==> !((#[trigger] b[k]) is Flag)
}

proof fn lemma_clocks_are_no_flags(a: Seq<Observation>, b: Seq<Observation>)
    requires
        reads_clocks_alone(a, b),
    ensures
        flag_readings(b) == flag_readings(a),
    decreases b.len(),
{
    if b.len() == a.len() {
        assert(b.take(a.len() as int) =~= b);
    } else {
        let c = b.drop_last();
        assert(c.take(a.len() as int) =~= b.take(a.len() as int));
        assert forall|k: int| a.len() <= k < c.len() implies !((#[trigger] c[k]) is Flag) by {
            assert(c[k] == b[k]);
        }
        lemma_clocks_are_no_flags(a, c);
    }
}

proof fn lemma_lane_reads_clocks<P, E: TetraEntityTrait<P>>(a: Stack<P, E>, b: Stack<P, E>)
    requires
        normal_lane_served(a, b),
    ensures
        reads_clocks_alone(a.seen, b.seen),
{
    let (n, cut_short) = choose|n: nat, cut_short: bool| lane_finished(a, b, n, cut_short);
    if exists|since: Instant| #[trigger] finished_at_reading(a, since, b, n, cut_short) {
        let since = choose|since: Instant| #[trigger]
            finished_at_reading(a, since, b, n, cut_short);
        let (m, rounds, ns) = choose|m: Stack<P, E>, rounds: nat, ns: u128| #[trigger]
            normal_run(a, since, m, rounds, n) && b == #[trigger] timed(m, since, ns);
        clock_is_read_for_each_round(a, since, m, rounds, n);
        assert(b.seen.take(a.seen.len() as int) =~= m.seen.take(a.seen.len() as int));
        assert forall|k: int| a.seen.len() <= k < b.seen.len() implies !((
        #[trigger] b.seen[k]) is Flag) by {
            if k < m.seen.len() {
                assert(b.seen[k] == m.seen[k]);
            }
        }
    } else {
        let since = choose|since: Instant| #[trigger]
            normal_run(a, since, b, u64::MAX as nat, n);
        clock_is_read_for_each_round(a, since, b, u64::MAX as nat, n);
    }
}

proof fn lemma_tick_reads_clocks<P, E: TetraEntityTrait<P>>(
    a: Stack<P, E>,
    b: Stack<P, E>,
    counted: bool,
)
    requires
        ticked(a, b, counted),
    ensures
        reads_clocks_alone(a.seen, b.seen),
{
    let (s, d, e) = choose|s: Stack<P, E>, d: Stack<P, E>, e: Stack<P, E>|
        {
            &&& #[trigger] tick_started(a, s)
            &&& if counted {
                emptied(s, d)
            } else {
                s == d
            }
            &&& #[trigger] tick_ended(d, e)
            &&& if counted {
                emptied(e, b)
            } else {
                normal_lane_served(e, b)
            }
        };
    starts_learn_nothing(a, start_order(a.entities), s);
    tick_end_learns_nothing(d, e);
    if counted {
        deliveries_keep_registrations_and_time(s, d, choose|n: nat| emptied_in(s, d, n));
        deliveries_keep_registrations_and_time(e, b, choose|n: nat| emptied_in(e, b, n));
        assert(b.seen.take(a.seen.len() as int) =~= a.seen);
    } else {
        lemma_lane_reads_clocks(e, b);
    }
}

/// Whether every flag that was read behind `from` readings is this one, and was found set.
pub open spec fn finds_it_set(seen: Seq<Observation>, from: nat, flag: AtomicBool) -> bool {
    forall|k: int|
        from <= k < seen.len() && (#[trigger] seen[k]) is Flag ==> seen[k] == Observation::Flag(
            flag,
            true,
        )
}

proof fn lemma_ticks_read_the_flag<P, E: TetraEntityTrait<P>>(
    a: Stack<P, E>,
    b: Stack<P, E>,
    counted: bool,
    watched: Option<Arc<AtomicBool>>,
    n: nat,
)
    requires
        ticked_times(a, b, counted, watched, n),
    ensures
        a.seen.len() <= b.seen.len(),
        b.seen.take(a.seen.len() as int) == a.seen,
        flag_readings(b.seen) == flag_readings(a.seen) + if watched is Some {
            n
        } else {
            0
        },
        watched matches Some(flag) ==> finds_it_set(b.seen, a.seen.len(), *flag),
    decreases n,
{
    if n == 0 {
        assert(b.seen.take(a.seen.len() as int) =~= a.seen);
    } else {
        let m = choose|m: Stack<P, E>|
            ticked_times(a, m, counted, watched, (n - 1) as nat) && #[trigger] ticked(
                going_on(m, watched),
                b,
                counted,
            );
        let g = going_on(m, watched);
        lemma_ticks_read_the_flag(a, m, counted, watched, (n - 1) as nat);
        lemma_tick_reads_clocks(g, b, counted);
        lemma_clocks_are_no_flags(g.seen, b.seen);
        if watched is Some {
            assert(g.seen.drop_last() =~= m.seen);
        }
        let from = a.seen.len() as int;
        assert(b.seen.take(from) =~= a.seen) by {
            assert forall|k: int| 0 <= k < from implies b.seen[k] == a.seen[k] by {
                assert(b.seen.take(g.seen.len() as int)[k] == g.seen[k]);
                assert(m.seen.take(from)[k] == a.seen[k]);
            }
        }
        if let Some(flag) = watched {
            assert forall|k: int|
                from <= k < b.seen.len() && (#[trigger] b.seen[k]) is Flag implies b.seen[k]
                == Observation::Flag(*flag, true) by {
                if k < g.seen.len() {
                    assert(b.seen.take(g.seen.len() as int)[k] == g.seen[k]);
                    if k < m.seen.len() {
                        assert(g.seen[k] == m.seen[k]);
                    }
                }
            }
        }
    }
}

/// A run has as many ticks as are asked for, and fewer just where it is stopped. One that is watched
/// reads its flag once before each tick, and finds it set; where it is stopped, it reads it once
/// more and finds it cleared. It reads no other flag, and one that is not watched reads none.
pub proof fn run_reads_its_flag_before_each_tick<P, E: TetraEntityTrait<P>>(
    router: &mut MessageRouter<P, E>,
    num_ticks: Option<usize>,
    running: Option<Arc<AtomicBool>>,
    end: RunEnd,
)
    requires
        call_ensures(MessageRouter::<P, E>::run_stack, (router, num_ticks, running), end),
    ensures
        num_ticks matches Some(n) ==> end.ticks <= n && (end.ticks == n <==> !end.stopped),
        num_ticks is None ==> (end.ticks == usize::MAX <==> !end.stopped),
        running is None ==> !end.stopped && flag_readings(final(router).observer@)
            == flag_readings(old(router).observer@),
        running is Some && !end.stopped ==> flag_readings(final(router).observer@)
            == flag_readings(old(router).observer@) + end.ticks,
        running is Some && end.stopped ==> flag_readings(final(router).observer@)
            == flag_readings(old(router).observer@) + end.ticks + 1,
        running matches Some(flag) ==> !end.stopped ==> finds_it_set(
            final(router).observer@,
            old(router).observer@.len(),
            *flag,
        ),
        running matches Some(flag) ==> end.stopped ==> finds_it_set(
            final(router).observer@.drop_last(),
            old(router).observer@.len(),
            *flag,
        ) && final(router).observer@.last() == Observation::Flag(*flag, false),
{
    let a = old(router)@;
    let b = final(router)@;
    let counted = num_ticks is Some;
    let n = end.ticks as nat;
    if end.stopped {
        let flag = running->0;
        let m = choose|m: Stack<P, E>|
            b == saw(m, Observation::Flag(*flag, false)) && #[trigger] ticked_times(
                a,
                m,
                counted,
                Some(flag),
                n,
            );
        lemma_ticks_read_the_flag(a, m, counted, Some(flag), n);
        assert(b.seen.drop_last() =~= m.seen);
    } else {
        lemma_ticks_read_the_flag(a, b, counted, running, n);
    }
}

/// Routers that look the same have the same entities in the same places, the same messages waiting
/// in the same lanes, and the same time, and have learned the same.
pub proof fn router_is_known_by_its_view<P, E: TetraEntityTrait<P>>(
    a: MessageRouter<P, E>,
    b: MessageRouter<P, E>,
)
    requires
        a@ == b@,
    ensures
        a.entities@ == b.entities@,
        a.msg_queue.immediate_messages@ == b.msg_queue.immediate_messages@,
        a.msg_queue.messages@ == b.msg_queue.messages@,
        a.ts == b.ts,
        a.observer@ == b.observer@,
{
    assert(a@.queue.immediate == a.msg_queue.immediate_messages@ && a@.queue.normal
        == a.msg_queue.messages@);
    assert(b@.queue.immediate == b.msg_queue.immediate_messages@ && b@.queue.normal
        == b.msg_queue.messages@);
}

/// Messages are delivered one by one. The last one of a number of deliveries was the oldest of its
/// lane, immediate ones before normal ones where both lanes are delivered; the first entity with
/// the identity that it is for got it, with the other messages waiting, and no other entity changed.
/// A message for an entity that is not registered is gone.
pub proof fn deliveries_go_one_by_one<P, E: TetraEntityTrait<P>>(
    a: Stack<P, E>,
    b: Stack<P, E>,
    n: nat,
    immediate: bool,
)
    requires
        n > 0,
        if immediate {
            immediate_run(a, b, n)
        } else {
            front_run(a, b, n)
        },
    ensures
        exists|m: Stack<P, E>, j: int|
            {
                let first = m.queue.immediate.len() > 0;
                let message = if first {
                    m.queue.immediate[0]
                } else {
                    m.queue.normal[0]
                };
                let rest = if first {
                    Queued { immediate: m.queue.immediate.drop_first(), normal: m.queue.normal }
                } else {
                    Queued { immediate: m.queue.immediate, normal: m.queue.normal.drop_first() }
                };
                &&& if immediate {
                    immediate_run(a, m, (n - 1) as nat) && first
                } else {
                    front_run(a, m, (n - 1) as nat) && m.queue.immediate.len()
                        + m.queue.normal.len() > 0
                }
                &&& b.ts == m.ts && b.seen == m.seen && b.entities.len() == m.entities.len()
                &&& 0 <= j <= m.entities.len()
                &&& forall|k: int|
                    0 <= k < j ==> (#[trigger] m.entities[k]).id != message.dest
                &&& forall|k: int|
                    0 <= k < m.entities.len() && k != j ==> (#[trigger] b.entities[k])
                        == m.entities[k]
                &&& j < m.entities.len() ==> (#[trigger] m.entities[j]).id == message.dest
                    && b.entities[j].id == message.dest && E::may_receive(
                    m.entities[j].entity,
                    rest,
                    message,
                    b.entities[j].entity,
                    b.queue,
                )
                &&& j == m.entities.len() ==> b.queue == rest
            },
{
    let m = if immediate {
        choose|m: Stack<P, E>|
            immediate_run(a, m, (n - 1) as nat) && #[trigger] immediate_delivered(m, b)
    } else {
        choose|m: Stack<P, E>| front_run(a, m, (n - 1) as nat) && #[trigger] front_delivered(m, b)
    };
    let message = if m.queue.immediate.len() > 0 {
        m.queue.immediate[0]
    } else {
        m.queue.normal[0]
    };
    lemma_place_of(m.entities, message.dest);
    let j = place_of(m.entities, message.dest);
    let at_j = m.entities[j];
}

} // verus!
