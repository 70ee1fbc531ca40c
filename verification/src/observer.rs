//! What a run of the stack learns from outside: how much time has passed, and whether it is to
//! go on.
use std::sync::atomic::{AtomicBool, Ordering};
use vstd::prelude::*;

verus! {

/// `std::time::Instant`, a reading of the monotonic clock.
#[verifier::external_type_specification]
#[verifier::external_body]
pub struct ExInstant(std::time::Instant);

/// `std::time::Instant::now`. What the clock shows is left open.
#[verifier::external_body]
fn clock_now() -> (out: std::time::Instant) {
    std::time::Instant::now()
}

/// `std::time::Instant::elapsed`, in nanoseconds. What the clock shows is left open.
#[verifier::external_body]
fn clock_elapsed_ns(since: &std::time::Instant) -> (out: u128) {
    since.elapsed().as_nanos()
}

/// Whether the clock can have shown this instant.
pub closed spec fn is_now(now: std::time::Instant) -> bool {
    call_ensures(clock_now, (), now)
}

/// Whether the clock can have shown that so many nanoseconds had passed since an instant.
pub closed spec fn is_elapsed(since: std::time::Instant, ns: u128) -> bool {
    call_ensures(clock_elapsed_ns, (&since,), ns)
}

/// Whether a flag can have been found set, or cleared.
pub open spec fn is_reading(flag: AtomicBool, set: bool) -> bool {
    call_ensures(AtomicBool::load, (&flag, Ordering::Relaxed), set)
}

/// Something that was learned from outside.
pub ghost enum Observation {
    /// The time at which the clock stood.
    Now(std::time::Instant),
    /// So many nanoseconds had passed since an instant.
    Elapsed(std::time::Instant, u128),
    /// A flag was found set, or cleared.
    Flag(AtomicBool, bool),
}

/// The place where all that is learned from outside comes in. What comes in is left open; all of
/// it is on record, together with what it was asked of, so that contracts can say what follows
/// from it.
pub struct Observer {
    seen: Ghost<Seq<Observation>>,
}

impl View for Observer {
    type V = Seq<Observation>;

    /// All that was learned, in order.
    closed spec fn view(&self) -> Seq<Observation> {
        self.seen@
    }
}

impl Observer {
    pub fn new() -> (out: Observer)
        ensures
            out@ == Seq::<Observation>::empty(),
    {
        Observer { seen: Ghost(Seq::empty()) }
    }

    /// The time.
    pub fn now(&mut self) -> (out: std::time::Instant)
        ensures
            is_now(out),
            final(self)@ == old(self)@.push(Observation::Now(out)),
    {
        let out = clock_now();
        self.seen = Ghost(self.seen@.push(Observation::Now(out)));
        out
    }

    /// How many nanoseconds have passed since an instant.
    pub fn elapsed_ns(&mut self, since: &std::time::Instant) -> (out: u128)
        ensures
            is_elapsed(*since, out),
            final(self)@ == old(self)@.push(Observation::Elapsed(*since, out)),
    {
        let out = clock_elapsed_ns(since);
        self.seen = Ghost(self.seen@.push(Observation::Elapsed(*since, out)));
        out
    }

    /// Whether a flag is set at this moment. Other threads may set and clear it at any time.
    pub fn is_set(&mut self, flag: &AtomicBool) -> (out: bool)
        ensures
            is_reading(*flag, out),
            final(self)@ == old(self)@.push(Observation::Flag(*flag, out)),
    {
        let out = flag.load(Ordering::Relaxed);
        self.seen = Ghost(self.seen@.push(Observation::Flag(*flag, out)));
        out
    }
}

// ---------------------------------------------------------------------------------------------
// Laws
// ---------------------------------------------------------------------------------------------
/// Everything that is learned is as clock and flag show it, and goes on record once, behind all that
/// was learned before, together with what it was asked of. In the beginning nothing is on record.
pub proof fn all_that_is_learned_is_on_record(
    fresh: Observer,
    a: &mut Observer,
    now: std::time::Instant,
    b: &mut Observer,
    since: &std::time::Instant,
    ns: u128,
    c: &mut Observer,
    flag: &AtomicBool,
    set: bool,
)
    requires
        call_ensures(Observer::new, (), fresh),
        call_ensures(Observer::now, (a,), now),
        call_ensures(Observer::elapsed_ns, (b, since), ns),
        call_ensures(Observer::is_set, (c, flag), set),
    ensures
        fresh@.len() == 0,
        final(a)@ == old(a)@.push(Observation::Now(now)),
        final(b)@ == old(b)@.push(Observation::Elapsed(*since, ns)),
        final(c)@ == old(c)@.push(Observation::Flag(*flag, set)),
        is_now(now),
        is_elapsed(*since, ns),
        call_ensures(AtomicBool::load, (flag, Ordering::Relaxed), set),
{
}

} // verus!
