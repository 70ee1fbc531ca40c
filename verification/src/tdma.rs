//! TDMA time of the air interface.
use crate::number::floor_div;
use vstd::prelude::*;

verus! {

/// Timeslots of a frame.
pub const SLOTS_PER_FRAME: i64 = 4;

/// Frames of a multiframe.
pub const FRAMES_PER_MULTIFRAME: i64 = 18;

/// Multiframes of a hyperframe.
pub const MULTIFRAMES_PER_HYPERFRAME: i64 = 60;

/// Timeslots after which the time starts over: those of all hyperframes.
pub const SLOTS_PER_CYCLE: i64 = 283_115_520;

/// A point in TDMA time. Timeslots, frames and multiframes are counted from one, hyperframes
/// from zero.
#[derive(Debug, Clone, Copy, PartialEq, Eq, Structural)]
pub struct TdmaTime {
    pub h: u16,
    pub m: u8,
    pub f: u8,
    pub t: u8,
}

/// The timeslots since the beginning of the cycle.
pub open spec fn slot_number(time: TdmaTime) -> int {
    (time.t - 1) + SLOTS_PER_FRAME * ((time.f - 1) + FRAMES_PER_MULTIFRAME * ((time.m - 1)
        + MULTIFRAMES_PER_HYPERFRAME * time.h))
}

/// The time a number of timeslots after the beginning of a cycle.
pub open spec fn time_of_slot(n: int) -> TdmaTime {
    let slot = n % (SLOTS_PER_CYCLE as int);
    let frame = slot / 4;
    let multiframe = frame / 18;
    TdmaTime {
        t: (slot % 4 + 1) as u8,
        f: (frame % 18 + 1) as u8,
        m: (multiframe % 60 + 1) as u8,
        h: (multiframe / 60) as u16,
    }
}

impl TdmaTime {
    /// Whether every part is in its range.
    pub open spec fn valid(self) -> bool {
        1 <= self.t <= 4 && 1 <= self.f <= 18 && 1 <= self.m <= 60
    }

    /// The time `n` timeslots later, or earlier where `n` is negative.
    pub open spec fn plus(self, n: int) -> TdmaTime {
        time_of_slot(slot_number(self) + n)
    }

    /// The time `n` timeslots later, or earlier where `n` is negative.
    pub fn add_timeslots(self, n: i32) -> (out: TdmaTime)
        ensures
            out == self.plus(n as int),
            out.valid(),
    {
        let multiframes: i64 = (self.m as i64 - 1) + MULTIFRAMES_PER_HYPERFRAME * (self.h as i64);
        let frames: i64 = (self.f as i64 - 1) + FRAMES_PER_MULTIFRAME * multiframes;
        let number: i64 = (self.t as i64 - 1) + SLOTS_PER_FRAME * frames + n as i64;
        let cycles: i64 = floor_div(number, SLOTS_PER_CYCLE);
        let slot: i64 = number - cycles * SLOTS_PER_CYCLE;
        let frame: i64 = slot / SLOTS_PER_FRAME;
        let multiframe: i64 = frame / FRAMES_PER_MULTIFRAME;
        TdmaTime {
            t: (slot % SLOTS_PER_FRAME + 1) as u8,
            f: (frame % FRAMES_PER_MULTIFRAME + 1) as u8,
            m: (multiframe % MULTIFRAMES_PER_HYPERFRAME + 1) as u8,
            h: (multiframe / MULTIFRAMES_PER_HYPERFRAME) as u16,
        }
    }
}

impl Default for TdmaTime {
    /// The first timeslot of the cycle.
    fn default() -> (out: TdmaTime)
        ensures
            out == (TdmaTime { h: 0, m: 1, f: 1, t: 1 }),
            out.valid(),
    {
        TdmaTime { h: 0, m: 1, f: 1, t: 1 }
    }
}

// ---------------------------------------------------------------------------------------------
// Laws
// ---------------------------------------------------------------------------------------------
/// Every number of a timeslot in the cycle is the number of the time it stands for.
pub proof fn slot_numbers_round_trip(n: int)
    ensures
        time_of_slot(n).valid(),
        slot_number(time_of_slot(n)) == n % (SLOTS_PER_CYCLE as int),
{
    let slot = n % (SLOTS_PER_CYCLE as int);
    let frame = slot / 4;
    let multiframe = frame / 18;
    assert(0 <= slot < SLOTS_PER_CYCLE);
    assert(0 <= multiframe / 60 < 65536);
    assert(multiframe == 60 * (multiframe / 60) + multiframe % 60);
    assert(frame == 18 * multiframe + frame % 18);
    assert(slot == 4 * frame + slot % 4);
}

/// Adding no timeslots changes nothing.
pub proof fn plus_zero(time: TdmaTime)
    requires
        time.valid(),
    ensures
        time.plus(0) == time,
{
    let n = slot_number(time);
    let frame = (time.f - 1) + 18 * ((time.m - 1) + 60 * time.h);
    let multiframe = (time.m - 1) + 60 * time.h;
    assert(0 <= n < SLOTS_PER_CYCLE);
    assert(n % (SLOTS_PER_CYCLE as int) == n);
    assert(n / 4 == frame && n % 4 == time.t - 1);
    assert(frame / 18 == multiframe && frame % 18 == time.f - 1);
    assert(multiframe / 60 == time.h && multiframe % 60 == time.m - 1);
}

/// Adding timeslots twice adds their sum.
pub proof fn plus_adds_up(time: TdmaTime, a: int, b: int)
    ensures
        time.plus(a).plus(b) == time.plus(a + b),
{
    let n = slot_number(time) + a;
    slot_numbers_round_trip(n);
    let c = SLOTS_PER_CYCLE as int;
    vstd::arithmetic::div_mod::lemma_add_mod_noop(n, b, c);
    vstd::arithmetic::div_mod::lemma_add_mod_noop(n % c, b, c);
    vstd::arithmetic::div_mod::lemma_mod_twice(n, c);
    assert((n % c + b) % c == (n + b) % c);
}

/// The next timeslot is the next of its frame, and after the last one of a frame the first of the
/// next frame; so it is with frames, multiframes and hyperframes. After the last hyperframe the
/// first one follows.
pub proof fn next_timeslot_carries(time: TdmaTime, out: TdmaTime)
    requires
        time.valid(),
        call_ensures(TdmaTime::add_timeslots, (time, 1i32), out),
    ensures
        out.t == if time.t < 4 {
            time.t + 1
        } else {
            1
        },
        out.f == if time.t < 4 {
            time.f as int
        } else if time.f < 18 {
            time.f + 1
        } else {
            1
        },
        out.m == if time.t < 4 || time.f < 18 {
            time.m as int
        } else if time.m < 60 {
            time.m + 1
        } else {
            1
        },
        out.h == if time.t < 4 || time.f < 18 || time.m < 60 {
            time.h as int
        } else if time.h < 65535 {
            time.h + 1
        } else {
            0
        },
{
    let next = if time.t < 4 {
        TdmaTime { t: (time.t + 1) as u8, ..time }
    } else if time.f < 18 {
        TdmaTime { t: 1, f: (time.f + 1) as u8, ..time }
    } else if time.m < 60 {
        TdmaTime { t: 1, f: 1, m: (time.m + 1) as u8, ..time }
    } else if time.h < 65535 {
        TdmaTime { t: 1, f: 1, m: 1, h: (time.h + 1) as u16 }
    } else {
        TdmaTime { t: 1, f: 1, m: 1, h: 0 }
    };
    let n = slot_number(time);
    assert(0 <= n < SLOTS_PER_CYCLE);
    assert(0 <= slot_number(next) < SLOTS_PER_CYCLE);
    assert(slot_number(next) == n + 1 || (slot_number(next) == 0 && n + 1 == SLOTS_PER_CYCLE));
    assert((n + 1) % (SLOTS_PER_CYCLE as int) == slot_number(next) % (SLOTS_PER_CYCLE as int));
    plus_zero(next);
}

/// Going a number of timeslots and then another is going their sum, and going back undoes it.
pub proof fn timeslots_add_up(
    time: TdmaTime,
    a: i32,
    first: TdmaTime,
    b: i32,
    second: TdmaTime,
    sum: i32,
    out: TdmaTime,
)
    requires
        time.valid(),
        sum == a + b,
        call_ensures(TdmaTime::add_timeslots, (time, a), first),
        call_ensures(TdmaTime::add_timeslots, (first, b), second),
        call_ensures(TdmaTime::add_timeslots, (time, sum), out),
    ensures
        second == out,
        sum == 0 ==> second == time,
        1 <= out.t <= 4 && 1 <= out.f <= 18 && 1 <= out.m <= 60,
{
    plus_adds_up(time, a as int, b as int);
    plus_zero(time);
}

/// The time begins with the first timeslot of the first frame, multiframe and hyperframe.
pub proof fn time_begins_with_the_first_timeslot(time: TdmaTime)
    requires
        call_ensures(TdmaTime::default, (), time),
    ensures
        time.h == 0 && time.m == 1 && time.f == 1 && time.t == 1,
{
}

/// Timeslots are counted through, four to a frame, eighteen frames to a multiframe, sixty
/// multiframes to a hyperframe and 65536 hyperframes to a cycle: the number of a time goes up by
/// as many timeslots as are added, and starts over with the cycle.
pub proof fn timeslots_are_counted_through(time: TdmaTime, n: i32, out: TdmaTime)
    requires
        call_ensures(TdmaTime::add_timeslots, (time, n), out),
    ensures
        1 <= out.t <= 4 && 1 <= out.f <= 18 && 1 <= out.m <= 60,
        (out.t - 1) + 4 * ((out.f - 1) + 18 * ((out.m - 1) + 60 * out.h)) == ((time.t - 1) + 4 * ((
        time.f - 1) + 18 * ((time.m - 1) + 60 * time.h)) + n) % 283_115_520,
{
    slot_numbers_round_trip(slot_number(time) + n);
}

} // verus!
