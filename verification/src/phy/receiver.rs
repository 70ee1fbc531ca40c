//! Assembly of received samples into processing blocks.
//!
//! Samples arrive in reads of any length, each with the sample count at which it starts. A block
//! takes a fixed number of new samples, which follow the last samples of the block before. Where
//! samples are lost, assembly goes on at the beginning of a later block.
use super::counters::{at_most, PhyTimingCounters};
use super::rxtx_dev::{
    dev_result, is_rx_timeout, rx_timeout, BlockCount, RxTiming, RxTxDevError, SampleCount,
};
use super::soapyio::RxResult;
use crate::number::{fits_i64, floor_div, saturated_u64};
use vstd::prelude::*;

verus! {

/// The samples of a block.
pub struct RxDsp<S> {
    /// Whether samples go to the demodulators as they are, without channelization.
    pub direct_modem: bool,
    /// How many samples of a block are new.
    pub block_new: usize,
    /// How many samples a block has in common with the one before.
    pub block_overlap: usize,
    pub rx_buffer: Vec<S>,
    /// How much of the buffer has been filled.
    pub rx_buffer_i: usize,
    pub rx_block_count: BlockCount,
    /// The count that the next sample is expected to have, where samples go to the demodulators
    /// as they are.
    pub rx_next_sample_count: Option<SampleCount>,
    pub current_rx_timing: RxTiming,
    /// How many samples are still to be skipped before the next block begins.
    pub rx_skip: usize,
}

/// A block under assembly.
#[verifier::ext_equal]
pub ghost struct RxBlock<S> {
    pub direct_modem: bool,
    pub fresh: int,
    pub overlap: int,
    pub buffer: Seq<S>,
    pub filled: int,
    pub block: int,
    pub next_sample: Option<i64>,
    pub timing: RxTiming,
    pub skip: int,
}

/// What is to be read next.
#[derive(Debug, Clone, Copy, PartialEq, Eq, Structural)]
pub enum RxStep {
    /// At most this many samples.
    Read(usize),
    /// Nothing: the block is complete.
    Done,
}

/// `buffer` with `samples` written to it from place `from` on.
pub open spec fn written<S>(buffer: Seq<S>, from: int, samples: Seq<S>) -> Seq<S> {
    Seq::new(
        buffer.len(),
        |i: int|
            if from <= i < from + samples.len() {
                samples[i - from]
            } else {
                buffer[i]
            },
    )
}

impl<S> RxBlock<S> {
    pub open spec fn wf(self) -> bool {
        &&& self.fresh > 0
        &&& self.overlap >= 0
        &&& self.buffer.len() == self.fresh + self.overlap <= i64::MAX
        &&& 0 <= self.filled <= self.buffer.len()
        &&& 0 <= self.skip <= self.fresh
        &&& self.skip > 0 ==> self.filled == 0
        &&& self.direct_modem ==> self.overlap == 0 && self.filled < self.fresh && self.skip == 0
    }

    /// Whether all samples of the block are there.
    pub open spec fn complete(self) -> bool {
        self.skip == 0 && self.filled == self.buffer.len()
    }

    /// What is to be read next.
    pub open spec fn request(self) -> RxStep {
        if self.skip > 0 {
            RxStep::Read(self.skip as usize)
        } else if self.filled < self.buffer.len() {
            RxStep::Read((self.buffer.len() - self.filled) as usize)
        } else {
            RxStep::Done
        }
    }

    /// The next block, which begins with the last samples of this one.
    pub open spec fn next_block(self) -> RxBlock<S> {
        RxBlock {
            buffer: written(
                self.buffer,
                0,
                self.buffer.subrange(self.fresh, self.fresh + self.overlap),
            ),
            filled: self.overlap,
            block: self.block + 1,
            skip: 0,
            ..self
        }
    }

    /// The count of the sample in place `i` of the buffer.
    pub open spec fn count_at(self, i: int) -> int {
        self.block * self.fresh + i
    }

    /// How many samples are missing before a read that starts at `count`; negative where samples
    /// come again.
    pub open spec fn lost(self, count: int) -> int {
        count - self.count_at(self.filled)
    }

    /// The number of the first block that begins after count `next`.
    pub open spec fn block_after(self, next: int) -> int {
        next / self.fresh + 1
    }

    /// The block after a read.
    pub open spec fn after_read(self, count: int, timing: RxTiming, samples: Seq<S>) -> RxBlock<
        S,
    > {
        if self.skip > 0 {
            RxBlock {
                buffer: written(self.buffer, 0, samples),
                skip: self.skip - samples.len(),
                ..self
            }
        } else {
            let read = RxBlock {
                buffer: written(self.buffer, self.filled, samples),
                timing,
                ..self
            };
            if self.lost(count) == 0 {
                RxBlock { filled: self.filled + samples.len(), ..read }
            } else {
                let next = count + samples.len();
                RxBlock {
                    filled: 0,
                    block: self.block_after(next),
                    skip: self.block_after(next) * self.fresh - next,
                    ..read
                }
            }
        }
    }

    /// Whether a read at `count` finds that samples are missing, or come again.
    pub open spec fn finds_gap(self, count: int) -> bool {
        self.skip == 0 && self.lost(count) != 0
    }

    /// The counters after a read at `count`.
    pub open spec fn counted(self, timing: PhyTimingCounters, count: int) -> PhyTimingCounters {
        if self.finds_gap(count) {
            timing.after_rx_sample_gap(self.lost(count))
        } else {
            timing
        }
    }

    /// Whether the counts of a read of `len` samples at `count` can be reckoned with.
    pub open spec fn in_range(self, count: int, len: int) -> bool {
        self.skip == 0 ==> {
            let next = count + len;
            let block = self.block_after(next);
            &&& fits_i64(self.block * self.fresh)
            &&& fits_i64(self.count_at(self.filled))
            &&& fits_i64(self.lost(count)) && self.lost(count) > i64::MIN
            &&& self.lost(count) != 0 ==> fits_i64(next) && fits_i64(block) && fits_i64(
                block * self.fresh,
            ) && fits_i64(block - self.block)
        }
    }

    /// The block after samples went to the demodulators as they are.
    pub open spec fn after_direct_read(
        self,
        count: int,
        timing: RxTiming,
        samples: Seq<S>,
    ) -> RxBlock<S> {
        let end = self.filled + samples.len();
        let full = samples.len() > 0 && end == self.fresh;
        RxBlock {
            buffer: written(self.buffer, self.filled, samples),
            filled: if full {
                0
            } else {
                end
            },
            block: if full {
                self.block + 1
            } else {
                self.block
            },
            next_sample: Some((count + samples.len()) as i64),
            timing,
            ..self
        }
    }

    /// Whether the counts of a read of `len` samples at `count` can be reckoned with, where
    /// samples go to the demodulators as they are.
    pub open spec fn direct_in_range(self, count: int, len: int) -> bool {
        &&& fits_i64(count + len)
        &&& fits_i64(self.direct_lost(count)) && self.direct_lost(count) > i64::MIN
        &&& self.block < i64::MAX
    }

    /// How many samples are missing before a read at `count`, where samples go to the
    /// demodulators as they are.
    pub open spec fn direct_lost(self, count: int) -> int {
        match self.next_sample {
            Some(expected) => count - expected,
            None => 0,
        }
    }
}

impl<S> View for RxDsp<S> {
    type V = RxBlock<S>;

    open spec fn view(&self) -> RxBlock<S> {
        RxBlock {
            direct_modem: self.direct_modem,
            fresh: self.block_new as int,
            overlap: self.block_overlap as int,
            buffer: self.rx_buffer@,
            filled: self.rx_buffer_i as int,
            block: self.rx_block_count as int,
            next_sample: self.rx_next_sample_count,
            timing: self.current_rx_timing,
            skip: self.rx_skip as int,
        }
    }
}

proof fn lemma_block_after<S>(b: RxBlock<S>, next: int)
    requires
        b.fresh > 0,
    ensures
        0 < b.block_after(next) * b.fresh - next <= b.fresh,
{
    let q = next / b.fresh;
    vstd::arithmetic::div_mod::lemma_fundamental_div_mod(next, b.fresh);
    vstd::arithmetic::div_mod::lemma_mod_bound(next, b.fresh);
    assert((q + 1) * b.fresh == b.fresh * q + b.fresh) by (nonlinear_arith);
}

impl<S: Copy> RxDsp<S> {
    /// No block yet, in a buffer of silence.
    pub fn new(direct_modem: bool, block_new: usize, block_overlap: usize, silence: S) -> (out:
        RxDsp<S>)
        requires
            block_new > 0,
            block_new + block_overlap <= i64::MAX,
            block_new + block_overlap <= usize::MAX,
            direct_modem ==> block_overlap == 0,
        ensures
            out@.wf(),
            out@ == (RxBlock {
                direct_modem,
                fresh: block_new as int,
                overlap: block_overlap as int,
                buffer: Seq::new((block_new + block_overlap) as nat, |i: int| silence),
                filled: 0,
                block: 0,
                next_sample: None,
                timing: RxTiming { time_ns: None, sample_count: None },
                skip: 0,
            }),
    {
        let len: usize = block_new + block_overlap;
        let mut rx_buffer: Vec<S> = Vec::new();
        while rx_buffer.len() < len
            invariant
                rx_buffer@ == Seq::new(rx_buffer@.len(), |i: int| silence),
                rx_buffer@.len() <= len,
            decreases len - rx_buffer@.len(),
        {
            rx_buffer.push(silence);
        }
        RxDsp {
            direct_modem,
            block_new,
            block_overlap,
            rx_buffer,
            rx_buffer_i: 0,
            rx_block_count: 0,
            rx_next_sample_count: None,
            current_rx_timing: RxTiming::default(),
            rx_skip: 0,
        }
    }

    pub fn direct_modem(&self) -> (r: bool)
        ensures
            r == self@.direct_modem,
    {
        self.direct_modem
    }

    /// Writes samples to the buffer.
    fn write(&mut self, from: usize, samples: &[S])
        requires
            from + samples@.len() <= old(self)@.buffer.len(),
        ensures
            final(self)@ == (RxBlock {
                buffer: written(old(self)@.buffer, from as int, samples@),
                ..old(self)@
            }),
    {
        let room: usize = self.rx_buffer.len();
        let mut i: usize = 0;
        assert(self@.buffer =~= written(self@.buffer, from as int, samples@.take(0)));
        while i < samples.len()
            invariant
                i <= samples@.len(),
                from + samples@.len() <= room,
                room == old(self)@.buffer.len(),
                self@ == (RxBlock {
                    buffer: written(old(self)@.buffer, from as int, samples@.take(i as int)),
                    ..old(self)@
                }),
            decreases samples@.len() - i,
        {
            self.rx_buffer[from + i] = samples[i];
            assert(self@.buffer =~= written(
                old(self)@.buffer,
                from as int,
                samples@.take(i + 1),
            ));
            i = i + 1;
        }
        assert(samples@.take(i as int) =~= samples@);
    }

    /// Begins the next block: its first samples are the last ones of the block before.
    pub fn start_block(&mut self)
        requires
            old(self)@.wf(),
            !old(self)@.direct_modem,
            old(self)@.block < i64::MAX,
        ensures
            final(self)@.wf(),
            final(self)@ == old(self)@.next_block(),
    {
        let ghost before = self@;
        let ghost tail = before.buffer.subrange(before.fresh, before.fresh + before.overlap);
        let _room: usize = self.rx_buffer.len();
        let mut i: usize = 0;
        assert(self@.buffer =~= written(before.buffer, 0, tail.take(0)));
        while i < self.block_overlap
            invariant
                before.wf(),
                _room == before.buffer.len(),
                before == old(self)@,
                tail == before.buffer.subrange(before.fresh, before.fresh + before.overlap),
                i <= before.overlap,
                self@ == (RxBlock {
                    buffer: written(before.buffer, 0, tail.take(i as int)),
                    ..before
                }),
            decreases before.overlap - i,
        {
            let sample: S = self.rx_buffer[self.block_new + i];
            self.rx_buffer[i] = sample;
            assert(self@.buffer =~= written(before.buffer, 0, tail.take(i + 1)));
            i = i + 1;
        }
        assert(tail.take(i as int) =~= tail);
        self.rx_block_count = self.rx_block_count + 1;
        self.rx_buffer_i = self.block_overlap;
        self.rx_skip = 0;
    }

    /// What is to be read next.
    pub fn request(&self) -> (out: RxStep)
        requires
            self@.wf(),
        ensures
            out == self@.request(),
    {
        if self.rx_skip > 0 {
            RxStep::Read(self.rx_skip)
        } else if self.rx_buffer_i < self.rx_buffer.len() {
            RxStep::Read(self.rx_buffer.len() - self.rx_buffer_i)
        } else {
            RxStep::Done
        }
    }

    /// Whether the counts of a read can be reckoned with.
    pub fn can_read(&self, result: &RxResult) -> (r: bool)
        requires
            self@.wf(),
            result.len <= self@.buffer.len(),
        ensures
            r == self@.in_range(result.count as int, result.len as int),
    {
        if self.rx_skip > 0 {
            return true;
        }
        let fresh: i128 = self.block_new as i128;
        let block: i128 = self.rx_block_count as i128;
        let count: i128 = result.count as i128;
        let len: i128 = result.len as i128;
        assert(i64::MIN * i64::MAX <= block * fresh <= i64::MAX * i64::MAX) by (nonlinear_arith)
            requires
                i64::MIN <= block <= i64::MAX,
                0 <= fresh <= i64::MAX,
        ;
        let first: i128 = block * fresh;
        let expected: i128 = first + self.rx_buffer_i as i128;
        let lost: i128 = count - expected;
        if !wide_fits(first) || !wide_fits(expected) || !wide_fits(lost) || lost
            == i64::MIN as i128 {
            return false;
        }
        if lost == 0 {
            return true;
        }
        let next: i128 = count + len;
        if !wide_fits(next) {
            return false;
        }
        let quotient: i64 = floor_div(next as i64, self.block_new as i64);
        let after: i128 = quotient as i128 + 1;
        assert(i64::MIN * i64::MAX <= after * fresh <= (i64::MAX + 1) * i64::MAX)
            by (nonlinear_arith)
            requires
                i64::MIN <= after <= i64::MAX + 1,
                0 <= fresh <= i64::MAX,
        ;
        wide_fits(after) && wide_fits(after * fresh) && wide_fits(after - block)
    }

    /// Takes a read: `samples` are what was read, `result` says where they belong.
    ///
    /// Where samples have been lost, what was gathered of the block is dropped, and samples are
    /// skipped up to the beginning of the next full block. Returns what is to be read next.
    pub fn block_read(
        &mut self,
        result: &RxResult,
        samples: &[S],
        timing: &mut PhyTimingCounters,
    ) -> (out: RxStep)
        requires
            old(self)@.wf(),
            !old(self)@.direct_modem,
            result.len == samples@.len(),
            old(self)@.request() matches RxStep::Read(most) && result.len <= most,
            old(self)@.in_range(result.count as int, result.len as int),
        ensures
            final(self)@.wf(),
            final(self)@ == old(self)@.after_read(
                result.count as int,
                RxTiming { time_ns: result.time_ns, sample_count: Some(result.count) },
                samples@,
            ),
            out == final(self)@.request(),
            *final(timing) == old(self)@.counted(*old(timing), result.count as int),
    {
        let ghost before = self@;
        if self.rx_skip > 0 {
            self.write(0, samples);
            self.rx_skip = self.rx_skip - samples.len();
            return self.request();
        }
        let _room: usize = self.rx_buffer.len();
        let from: usize = self.rx_buffer_i;
        assert(from + samples@.len() <= _room);
        self.write(from, samples);
        let fresh: i64 = self.block_new as i64;
        let expected: i64 = self.rx_block_count * fresh + from as i64;
        let lost: i64 = result.count - expected;
        self.current_rx_timing = RxTiming {
            time_ns: result.time_ns,
            sample_count: Some(result.count),
        };
        if lost != 0 {
            let next: i64 = result.count + samples.len() as i64;
            proof {
                lemma_block_after(before, next as int);
            }
            let block: i64 = floor_div(next, fresh) + 1;
            let skip: i64 = block * fresh - next;
            let _ = timing.record_rx_sample_gap(lost);
            self.rx_block_count = block;
            self.rx_buffer_i = 0;
            self.rx_skip = skip as usize;
        } else {
            self.rx_buffer_i = from + samples.len();
        }
        self.request()
    }

    /// Takes a read, or gives back the error by which it failed; then nothing changes.
    pub fn receive_block(
        &mut self,
        read: Result<RxResult, RxTxDevError>,
        samples: &[S],
        timing: &mut PhyTimingCounters,
    ) -> (out: Result<RxStep, RxTxDevError>)
        requires
            old(self)@.wf(),
            !old(self)@.direct_modem,
            read matches Ok(result) ==> {
                &&& result.len == samples@.len()
                &&& old(self)@.request() matches RxStep::Read(most) && result.len <= most
                &&& old(self)@.in_range(result.count as int, result.len as int)
            },
        ensures
            final(self)@.wf(),
            dev_result(out) == match dev_result(read) {
                Ok(_) => Ok(final(self)@.request()),
                Err(e) => Err(e),
            },
            match read {
                Ok(result) => {
                    &&& final(self)@ == old(self)@.after_read(
                        result.count as int,
                        RxTiming { time_ns: result.time_ns, sample_count: Some(result.count) },
                        samples@,
                    )
                    &&& *final(timing) == old(self)@.counted(*old(timing), result.count as int)
                },
                Err(_) => final(self)@ == old(self)@ && *final(timing) == *old(timing),
            },
    {
        match read {
            Ok(result) => Ok(self.block_read(&result, samples, timing)),
            Err(err) => Err(err),
        }
    }

    /// What is to be read next, where samples go to the demodulators as they are.
    pub fn direct_request(&self) -> (out: usize)
        requires
            self@.wf(),
            self@.direct_modem,
        ensures
            out == self@.fresh - self@.filled,
    {
        self.block_new - self.rx_buffer_i
    }

    /// Whether the counts of a read can be reckoned with, where samples go to the demodulators
    /// as they are.
    pub fn can_direct_read(&self, result: &RxResult) -> (r: bool)
        requires
            self@.wf(),
            result.len <= self@.fresh,
        ensures
            r == self@.direct_in_range(result.count as int, result.len as int),
    {
        let next: i128 = result.count as i128 + result.len as i128;
        let lost: i128 = match self.rx_next_sample_count {
            Some(expected) => result.count as i128 - expected as i128,
            None => 0,
        };
        wide_fits(next) && wide_fits(lost) && lost != i64::MIN as i128 && self.rx_block_count
            < i64::MAX
    }

    /// Takes a read whose samples go to the demodulators as they are. Lost samples are counted
    /// and otherwise passed over. Returns what is to be read next: nothing once the block is
    /// complete, or when the read brought nothing.
    pub fn direct_read(
        &mut self,
        result: &RxResult,
        samples: &[S],
        timing: &mut PhyTimingCounters,
    ) -> (out: RxStep)
        requires
            old(self)@.wf(),
            old(self)@.direct_modem,
            result.len == samples@.len(),
            result.len <= old(self)@.fresh - old(self)@.filled,
            old(self)@.direct_in_range(result.count as int, result.len as int),
        ensures
            final(self)@.wf(),
            final(self)@ == old(self)@.after_direct_read(
                result.count as int,
                RxTiming { time_ns: result.time_ns, sample_count: Some(result.count) },
                samples@,
            ),
            out == (if result.len == 0 || final(self)@.filled == 0 {
                RxStep::Done
            } else {
                RxStep::Read((final(self)@.fresh - final(self)@.filled) as usize)
            }),
            old(self)@.direct_lost(result.count as int) != 0 ==> *final(timing) == old(
                timing,
            ).after_rx_sample_gap(old(self)@.direct_lost(result.count as int)),
            old(self)@.direct_lost(result.count as int) == 0 ==> *final(timing) == *old(timing),
    {
        let _room: usize = self.rx_buffer.len();
        let from: usize = self.rx_buffer_i;
        assert(from + samples@.len() <= _room);
        self.write(from, samples);
        self.current_rx_timing = RxTiming {
            time_ns: result.time_ns,
            sample_count: Some(result.count),
        };
        if let Some(expected) = self.rx_next_sample_count {
            let lost: i64 = result.count - expected;
            if lost != 0 {
                let _ = timing.record_rx_sample_gap(lost);
            }
        }
        self.rx_next_sample_count = Some(result.count + samples.len() as i64);
        let end: usize = from + samples.len();
        if samples.len() == 0 {
            return RxStep::Done;
        }
        if end < self.block_new {
            self.rx_buffer_i = end;
            return RxStep::Read(self.block_new - end);
        }
        self.rx_buffer_i = 0;
        self.rx_block_count = self.rx_block_count + 1;
        RxStep::Done
    }

    /// What a failed read means, where samples go to the demodulators as they are: a timeout
    /// within a block keeps the samples that are there and ends the turn.
    pub fn direct_failed(&self, err: RxTxDevError) -> (out: Result<bool, RxTxDevError>)
        ensures
            dev_result(out) == if is_rx_timeout(err@) && self@.filled > 0 {
                Ok(false)
            } else {
                Err(err@)
            },
    {
        if self.rx_buffer_i > 0 && rx_timeout(&err) {
            Ok(false)
        } else {
            Err(err)
        }
    }
}

/// Whether samples go between the device and the modem as they are, without channelization: the
/// device has the sample rate of the modem, nothing is monitored, and the only carrier lies in
/// the center, which is known.
pub fn uses_direct_modem(
    rate_matches: bool,
    monitored: usize,
    center_known: bool,
    carriers: usize,
    carrier_in_center: bool,
) -> (r: bool)
    ensures
        r == (rate_matches && monitored == 0 && center_known && carriers == 1 && carrier_in_center),
{
    rate_matches && monitored == 0 && is_direct_single_carrier(
        center_known,
        carriers,
        carrier_in_center,
    )
}

/// Whether there is one carrier, and it lies in the center, which is known.
pub fn is_direct_single_carrier(center_known: bool, carriers: usize, carrier_in_center: bool) -> (r:
    bool)
    ensures
        r == (center_known && carriers == 1 && carrier_in_center),
{
    center_known && carriers == 1 && carrier_in_center
}

/// Whether the counts of all samples of a block that has `len` samples can be reckoned with.
pub fn counts_fit(block: BlockCount, len: usize) -> (r: bool)
    ensures
        r == (len <= i64::MAX && fits_i64(block * len) && fits_i64(block * len + len)),
{
    if len as u128 > i64::MAX as u128 {
        return false;
    }
    let n: i128 = len as i128;
    let b: i128 = block as i128;
    assert(i64::MIN * i64::MAX <= b * n <= i64::MAX * i64::MAX) by (nonlinear_arith)
        requires
            i64::MIN <= b <= i64::MAX,
            0 <= n <= i64::MAX,
    ;
    wide_fits(b * n) && wide_fits(b * n + n)
}

/// The count of sample `i` of a block that has `len` samples at the rate of the modem.
pub fn sample_count_in_block(block: BlockCount, len: usize, i: usize) -> (out: SampleCount)
    requires
        len <= i64::MAX,
        i <= i64::MAX,
        fits_i64(block * len),
        fits_i64(block * len + i),
    ensures
        out == block * len + i,
{
    block * (len as i64) + i as i64
}

/// Whether a monitored channel pair lets processing go on: the uplink decides where there is
/// one.
pub open spec fn pair_goes_on(pair: (bool, Option<bool>)) -> bool {
    match pair.1 {
        Some(ul) => ul,
        None => pair.0,
    }
}

/// Whether processing goes on after a block. Each channel says whether it wants more; those of a
/// monitored pair are given downlink first.
pub fn goes_on(pairs: &Vec<(bool, Option<bool>)>, demodulators: &Vec<bool>) -> (r: bool)
    ensures
        r == ((forall|i: int| 0 <= i < pairs@.len() ==> pair_goes_on(#[trigger] pairs@[i])) && (
        forall|i: int| 0 <= i < demodulators@.len() ==> #[trigger] demodulators@[i])),
        r ==> !demodulators@.contains(false),
{
    let mut i: usize = 0;
    while i < pairs.len()
        invariant
            i <= pairs@.len(),
            forall|k: int| 0 <= k < i ==> pair_goes_on(#[trigger] pairs@[k]),
        decreases pairs@.len() - i,
    {
        let wants = match pairs[i].1 {
            Some(ul) => ul,
            None => pairs[i].0,
        };
        if !wants {
            assert(!pair_goes_on(pairs@[i as int]));
            return false;
        }
        i = i + 1;
    }
    let mut i: usize = 0;
    while i < demodulators.len()
        invariant
            i <= demodulators@.len(),
            forall|k: int| 0 <= k < i ==> #[trigger] demodulators@[k],
        decreases demodulators@.len() - i,
    {
        if !demodulators[i] {
            return false;
        }
        i = i + 1;
    }
    true
}

/// The slots of all channels in order: downlink and uplink of each monitored pair, then the
/// demodulators.
pub open spec fn slots_in_order<T>(pairs: Seq<(Option<T>, Option<T>)>, demodulators: Seq<Option<T>>) -> Seq<
    Option<T>,
>
    decreases pairs.len(),
{
    if pairs.len() == 0 {
        demodulators
    } else {
        seq![pairs[0].0, pairs[0].1] + slots_in_order(pairs.drop_first(), demodulators)
    }
}

/// The slots of all channels in order. A monitored pair without uplink has no slot in its place.
pub fn take_slot_bits<T>(
    pairs: Vec<(Option<T>, Option<T>)>,
    demodulators: Vec<Option<T>>,
) -> (out: Vec<Option<T>>)
    ensures
        out@ == slots_in_order(pairs@, demodulators@),
{
    let mut pairs = pairs;
    let mut demodulators = demodulators;
    let ghost all = pairs@;
    let ghost rest = demodulators@;
    let mut reversed: Vec<Option<T>> = Vec::new();
    let mut out: Vec<Option<T>> = Vec::new();
    proof {
        lemma_slots_split(all, rest);
    }
    while pairs.len() > 0
        invariant
            pairs@ == all.take(pairs@.len() as int),
            pairs@.len() <= all.len(),
            reversed@.reverse() == slots_in_order(
                all.skip(pairs@.len() as int),
                Seq::<Option<T>>::empty(),
            ),
        decreases pairs@.len(),
    {
        let ghost n = pairs@.len() as int;
        if let Some(pair) = pairs.pop() {
            reversed.push(pair.1);
            reversed.push(pair.0);
            proof {
                let tail = all.skip(n - 1);
                assert(tail.drop_first() =~= all.skip(n));
                assert(tail[0] == pair);
                assert(reversed@.reverse() =~= seq![pair.0, pair.1] + slots_in_order(
                    all.skip(n),
                    Seq::<Option<T>>::empty(),
                ));
            }
        }
    }
    assert(all.skip(0) =~= all);
    let ghost order = reversed@.reverse();
    while reversed.len() > 0
        invariant
            out@ + reversed@.reverse() == order,
        decreases reversed@.len(),
    {
        let ghost before = reversed@;
        if let Some(slot) = reversed.pop() {
            out.push(slot);
            assert(before.reverse() =~= seq![slot] + reversed@.reverse());
            assert(out@ + reversed@.reverse() =~= out@.drop_last() + before.reverse());
        }
    }
    assert(out@ =~= order);
    out.append(&mut demodulators);
    assert(out@ =~= order + rest);
    out
}

proof fn lemma_slots_split<T>(pairs: Seq<(Option<T>, Option<T>)>, demodulators: Seq<Option<T>>)
    ensures
        slots_in_order(pairs, demodulators) == slots_in_order(pairs, Seq::empty()) + demodulators,
    decreases pairs.len(),
{
    if pairs.len() > 0 {
        lemma_slots_split(pairs.drop_first(), demodulators);
        assert(slots_in_order(pairs, demodulators) =~= slots_in_order(pairs, Seq::empty())
            + demodulators);
    } else {
        assert(Seq::<Option<T>>::empty() + demodulators =~= demodulators);
    }
}

pub(crate) fn wide_fits(n: i128) -> (r: bool)
    ensures
        r == fits_i64(n as int),
{
    i64::MIN as i128 <= n && n <= i64::MAX as i128
}

// ---------------------------------------------------------------------------------------------
// Laws
// ---------------------------------------------------------------------------------------------
impl<S> RxBlock<S> {
    /// The count that the next sample has where none is lost.
    pub open spec fn expected(self) -> int {
        if self.skip > 0 {
            self.count_at(0) - self.skip
        } else {
            self.count_at(self.filled)
        }
    }

    /// Whether the samples gathered so far are those of `signal`, each in the place of its
    /// count.
    pub open spec fn holds(self, signal: spec_fn(int) -> S) -> bool {
        forall|i: int| 0 <= i < self.filled ==> #[trigger] self.buffer[i] == signal(
            self.count_at(i),
        )
    }
}

impl<S> RxBlock<S> {
    /// Whether the first `quiet` samples of the block are silence, and those gathered after them
    /// are those of `signal`, each in the place of its count.
    pub open spec fn holds_after_silence(
        self,
        quiet: int,
        silence: S,
        signal: spec_fn(int) -> S,
    ) -> bool {
        &&& 0 <= quiet <= self.filled
        &&& self.skip == 0
        &&& forall|i: int|
            0 <= i < self.filled ==> #[trigger] self.buffer[i] == if i < quiet {
                silence
            } else {
                signal(self.count_at(i))
            }
    }

    /// Whether none of a number of reads finds samples missing before it.
    pub open spec fn gapless(self, reads: Seq<Read<S>>) -> bool
        decreases reads.len(),
    {
        reads.len() > 0 ==> self.gapless(reads.drop_last()) && self.after_reads(
            reads.drop_last(),
        ).lost(reads.last().count) == 0
    }
}

/// A read of a signal keeps the samples of a block in the places of their counts, whether
/// samples have been lost or not.
pub proof fn reads_keep_samples_in_place<S>(
    block: RxBlock<S>,
    count: int,
    timing: RxTiming,
    samples: Seq<S>,
    signal: spec_fn(int) -> S,
)
    requires
        block.wf(),
        block.request() matches RxStep::Read(most) && samples.len() <= most,
        block.holds(signal),
        forall|k: int| 0 <= k < samples.len() ==> #[trigger] samples[k] == signal(count + k),
    ensures
        block.after_read(count, timing, samples).holds(signal),
{
    let after = block.after_read(count, timing, samples);
    assert forall|i: int| 0 <= i < after.filled implies #[trigger] after.buffer[i] == signal(
        after.count_at(i),
    ) by {
        if i < block.filled {
            assert(after.buffer[i] == block.buffer[i]);
        } else {
            let k = i - block.filled;
            assert(after.buffer[i] == samples[k]);
            assert(samples[k] == signal(count + k));
        }
    }
}

/// A read: the count at which it starts, its timing, and its samples.
pub ghost struct Read<S> {
    pub count: int,
    pub timing: RxTiming,
    pub samples: Seq<S>,
}

impl<S> RxBlock<S> {
    /// The block after a number of reads.
    pub open spec fn after_reads(self, reads: Seq<Read<S>>) -> RxBlock<S>
        decreases reads.len(),
    {
        if reads.len() == 0 {
            self
        } else {
            let last = reads.last();
            self.after_reads(reads.drop_last()).after_read(last.count, last.timing, last.samples)
        }
    }

    /// Whether each of a number of reads brings no more than was asked for, and samples of
    /// `signal`. Samples may get lost between reads.
    pub open spec fn takes(self, reads: Seq<Read<S>>, signal: spec_fn(int) -> S) -> bool
        decreases reads.len(),
    {
        reads.len() > 0 ==> {
            let last = reads.last();
            &&& self.takes(reads.drop_last(), signal)
            &&& self.after_reads(reads.drop_last()).request() matches RxStep::Read(most)
                && last.samples.len() <= most
            &&& forall|k: int| 0 <= k < last.samples.len() ==> #[trigger] last.samples[k]
                == signal(last.count + k)
        }
    }
}

/// However a signal is cut into reads, and whatever is lost of it in between, the samples of a
/// block are in the places of their counts.
pub proof fn all_reads_keep_samples_in_place<S>(
    block: RxBlock<S>,
    reads: Seq<Read<S>>,
    signal: spec_fn(int) -> S,
)
    requires
        block.wf(),
        !block.direct_modem,
        block.holds(signal),
        block.takes(reads, signal),
    ensures
        block.after_reads(reads).wf(),
        block.after_reads(reads).holds(signal),
        !block.after_reads(reads).direct_modem,
    decreases reads.len(),
{
    if reads.len() > 0 {
        let before = block.after_reads(reads.drop_last());
        let last = reads.last();
        all_reads_keep_samples_in_place(block, reads.drop_last(), signal);
        reads_keep_samples_in_place(before, last.count, last.timing, last.samples, signal);
        lemma_block_after(before, last.count + last.samples.len());
    }
}

/// The block that follows a complete one begins with samples in the places of their counts.
pub proof fn next_block_keeps_samples_in_place<S>(block: RxBlock<S>, signal: spec_fn(int) -> S)
    requires
        block.wf(),
        block.complete(),
        block.holds(signal),
    ensures
        block.next_block().holds(signal),
{
    let next = block.next_block();
    assert forall|i: int| 0 <= i < next.filled implies #[trigger] next.buffer[i] == signal(
        next.count_at(i),
    ) by {
        assert(next.buffer[i] == block.buffer[block.fresh + i]);
        assert((block.block + 1) * block.fresh + i == block.block * block.fresh + (block.fresh + i))
            by (nonlinear_arith);
    }
}

/// The first block of a receiver begins with silence, as long as the overlap.
pub proof fn first_block_begins_with_silence<S>(
    block: RxBlock<S>,
    silence: S,
    signal: spec_fn(int) -> S,
)
    requires
        block.wf(),
        forall|i: int| 0 <= i < block.buffer.len() ==> #[trigger] block.buffer[i] == silence,
    ensures
        block.next_block().holds_after_silence(block.overlap, silence, signal),
{
}

/// However a signal is cut into reads, a block that begins with silence keeps it, and has each
/// sample that is read in the place of its count. Where samples get lost, the silence goes with
/// them.
pub proof fn reads_follow_the_silence<S>(
    block: RxBlock<S>,
    quiet: int,
    silence: S,
    reads: Seq<Read<S>>,
    signal: spec_fn(int) -> S,
)
    requires
        block.wf(),
        !block.direct_modem,
        block.holds_after_silence(quiet, silence, signal),
        block.takes(reads, signal),
    ensures
        block.after_reads(reads).wf(),
        !block.after_reads(reads).direct_modem,
        block.gapless(reads) ==> block.after_reads(reads).block == block.block
            && block.after_reads(reads).holds_after_silence(quiet, silence, signal),
        !block.gapless(reads) ==> block.after_reads(reads).holds(signal),
    decreases reads.len(),
{
    if reads.len() > 0 {
        let before = block.after_reads(reads.drop_last());
        let last = reads.last();
        let after = before.after_read(last.count, last.timing, last.samples);
        reads_follow_the_silence(block, quiet, silence, reads.drop_last(), signal);
        lemma_block_after(before, last.count + last.samples.len());
        if !block.gapless(reads.drop_last()) {
            reads_keep_samples_in_place(before, last.count, last.timing, last.samples, signal);
        } else if before.lost(last.count) == 0 {
            assert forall|i: int| 0 <= i < after.filled implies #[trigger] after.buffer[i]
                == if i < quiet {
                silence
            } else {
                signal(after.count_at(i))
            } by {
                if i < before.filled {
                    assert(after.buffer[i] == before.buffer[i]);
                } else {
                    let k = i - before.filled;
                    assert(after.buffer[i] == last.samples[k]);
                    assert(last.samples[k] == signal(last.count + k));
                }
            }
        }
    }
}

/// With each block the silence moves on by its new samples, until nothing is left of it and all
/// samples are in the places of their counts.
pub proof fn silence_moves_on<S>(
    block: RxBlock<S>,
    quiet: int,
    silence: S,
    signal: spec_fn(int) -> S,
)
    requires
        block.wf(),
        block.complete(),
        block.holds_after_silence(quiet, silence, signal),
    ensures
        quiet <= block.fresh ==> block.next_block().holds(signal),
        quiet > block.fresh ==> block.next_block().holds_after_silence(
            quiet - block.fresh,
            silence,
            signal,
        ),
{
    let next = block.next_block();
    assert forall|i: int| 0 <= i < next.filled implies #[trigger] next.buffer[i] == if i < quiet
        - block.fresh {
        silence
    } else {
        signal(next.count_at(i))
    } by {
        assert(next.buffer[i] == block.buffer[block.fresh + i]);
        assert((block.block + 1) * block.fresh + i == block.block * block.fresh + (block.fresh + i))
            by (nonlinear_arith);
    }
}

/// A complete block of a signal is the part of that signal that the number of the block stands
/// for.
pub proof fn complete_block_is_part_of_signal<S>(block: RxBlock<S>, signal: spec_fn(int) -> S)
    requires
        block.wf(),
        block.complete(),
        block.holds(signal),
    ensures
        block.buffer == Seq::new(
            (block.fresh + block.overlap) as nat,
            |i: int| signal(block.block * block.fresh + i),
        ),
{
    assert(block.buffer =~= Seq::new(
        (block.fresh + block.overlap) as nat,
        |i: int| signal(block.block * block.fresh + i),
    ));
}

impl<S> RxBlock<S> {
    /// How many of a number of reads find that samples are missing, or come again.
    pub open spec fn gaps(self, reads: Seq<Read<S>>) -> nat
        decreases reads.len(),
    {
        if reads.len() == 0 {
            0
        } else if self.after_reads(reads.drop_last()).finds_gap(reads.last().count) {
            self.gaps(reads.drop_last()) + 1
        } else {
            self.gaps(reads.drop_last())
        }
    }

    /// The counters after a number of reads.
    pub open spec fn counted_all(
        self,
        timing: PhyTimingCounters,
        reads: Seq<Read<S>>,
    ) -> PhyTimingCounters
        decreases reads.len(),
    {
        if reads.len() == 0 {
            timing
        } else {
            self.after_reads(reads.drop_last()).counted(
                self.counted_all(timing, reads.drop_last()),
                reads.last().count,
            )
        }
    }
}

/// Each time assembly starts over, one gap is counted, and the other counters stay as they are. No
/// gap is counted just where no read finds samples missing.
pub proof fn each_gap_is_counted_once<S>(
    block: RxBlock<S>,
    timing: PhyTimingCounters,
    reads: Seq<Read<S>>,
)
    requires
        block.skip == 0,
    ensures
        block.counted_all(timing, reads) == (PhyTimingCounters {
            rx_sample_gaps: saturated_u64(timing.rx_sample_gaps + block.gaps(reads)),
            rx_sample_gap_samples: block.counted_all(timing, reads).rx_sample_gap_samples,
            ..timing
        }),
        block.gaps(reads) == 0 <==> block.gapless(reads),
        block.gapless(reads) ==> block.after_reads(reads).skip == 0,
    decreases reads.len(),
{
    if reads.len() > 0 {
        each_gap_is_counted_once(block, timing, reads.drop_last());
    }
}

/// After a complete block, the next one that is received is the part of the signal that its number
/// stands for, however the signal is cut into reads and whatever is lost of it on the way. Where
/// nothing is lost, its number is the next one.
pub proof fn received_block_is_part_of_signal<S>(
    block: RxBlock<S>,
    reads: Seq<Read<S>>,
    signal: spec_fn(int) -> S,
)
    requires
        block.wf(),
        !block.direct_modem,
        block.complete(),
        block.holds(signal),
        block.next_block().takes(reads, signal),
        block.next_block().after_reads(reads).complete(),
    ensures
        ({
            let after = block.next_block().after_reads(reads);
            &&& after.fresh == block.fresh && after.overlap == block.overlap
            &&& after.buffer == Seq::new(
                (block.fresh + block.overlap) as nat,
                |i: int| signal(after.block * block.fresh + i),
            )
            &&& block.next_block().gapless(reads) ==> after.block == block.block + 1
        }),
{
    let next = block.next_block();
    next_block_keeps_samples_in_place(block, signal);
    all_reads_keep_samples_in_place(next, reads, signal);
    complete_block_is_part_of_signal(next.after_reads(reads), signal);
    lemma_reads_keep_sizes(next, reads);
    reads_follow_the_silence(next, 0, block.buffer[0], reads, signal);
}

proof fn lemma_reads_keep_sizes<S>(block: RxBlock<S>, reads: Seq<Read<S>>)
    ensures
        block.after_reads(reads).fresh == block.fresh,
        block.after_reads(reads).overlap == block.overlap,
    decreases reads.len(),
{
    if reads.len() > 0 {
        lemma_reads_keep_sizes(block, reads.drop_last());
    }
}

/// Reads that follow on one another line up with the blocks, also after samples have been lost:
/// after any read, the expected count is the one after its last sample. So a gap is found once.
pub proof fn reads_line_up<S>(block: RxBlock<S>, count: int, timing: RxTiming, samples: Seq<S>)
    requires
        block.wf(),
        block.request() matches RxStep::Read(most) && samples.len() <= most,
        block.skip > 0 ==> count == block.expected(),
    ensures
        block.after_read(count, timing, samples).expected() == count + samples.len(),
        block.skip == 0 ==> (block.lost(count) == 0 <==> count == block.expected()),
{
    if block.skip == 0 && block.lost(count) != 0 {
        lemma_block_after(block, count + samples.len());
    }
}

/// Where samples are missing, assembly goes on with a later block.
pub proof fn lost_samples_move_forward<S>(
    block: RxBlock<S>,
    count: int,
    timing: RxTiming,
    samples: Seq<S>,
)
    requires
        block.wf(),
        block.skip == 0,
        block.lost(count) > 0,
    ensures
        block.after_read(count, timing, samples).block > block.block,
{
    let next = count + samples.len();
    lemma_block_after(block, next);
    let after = block.block_after(next);
    assert(after > block.block) by (nonlinear_arith)
        requires
            after * block.fresh > block.block * block.fresh,
            block.fresh > 0,
    ;
}

// ---------------------------------------------------------------------------------------------
// Laws of the operations
// ---------------------------------------------------------------------------------------------
/// A new receive side has no samples yet, in a buffer of silence, and expects none.
pub proof fn new_receiver_is_silent<S: Copy>(
    direct_modem: bool,
    block_new: usize,
    block_overlap: usize,
    silence: S,
    out: RxDsp<S>,
)
    requires
        call_ensures(RxDsp::<S>::new, (direct_modem, block_new, block_overlap, silence), out),
    ensures
        out.direct_modem == direct_modem,
        out.block_new == block_new,
        out.block_overlap == block_overlap,
        out.rx_buffer@.len() == block_new + block_overlap,
        forall|i: int| 0 <= i < out.rx_buffer@.len() ==> (#[trigger] out.rx_buffer@[i]) == silence,
        out.rx_buffer_i == 0,
        out.rx_block_count == 0,
        out.rx_next_sample_count is None,
        out.current_rx_timing.time_ns is None && out.current_rx_timing.sample_count is None,
        out.rx_skip == 0,
{
    assert(out.rx_buffer@ == out@.buffer);
}

/// The next block begins with the last samples of the block before, as many as they have in common,
/// and is filled up to there. Its number is the next one. Nothing else changes.
pub proof fn next_block_begins_with_the_last_samples<S: Copy>(rx: &mut RxDsp<S>, out: ())
    requires
        rx@.wf(),
        call_ensures(RxDsp::<S>::start_block, (rx,), out),
    ensures
        final(rx).rx_block_count == old(rx).rx_block_count + 1,
        final(rx).rx_buffer_i == old(rx).block_overlap,
        final(rx).rx_skip == 0,
        final(rx).rx_buffer@.len() == old(rx).rx_buffer@.len(),
        forall|i: int|
            0 <= i < old(rx).block_overlap ==> (#[trigger] final(rx).rx_buffer@[i]) == old(
                rx,
            ).rx_buffer@[i + old(rx).block_new],
        forall|i: int|
            old(rx).block_overlap <= i < old(rx).rx_buffer@.len() ==> (
            #[trigger] final(rx).rx_buffer@[i]) == old(rx).rx_buffer@[i],
        final(rx).direct_modem == old(rx).direct_modem,
        final(rx).block_new == old(rx).block_new,
        final(rx).block_overlap == old(rx).block_overlap,
        final(rx).rx_next_sample_count == old(rx).rx_next_sample_count,
        final(rx).current_rx_timing == old(rx).current_rx_timing,
{
    let a = old(rx)@;
    let b = final(rx)@;
    assert(b == a.next_block());
    assert(b.buffer == final(rx).rx_buffer@ && a.buffer == old(rx).rx_buffer@);
    assert(b.direct_modem == final(rx).direct_modem && b.fresh == final(rx).block_new && b.overlap
        == final(rx).block_overlap);
    assert(b.filled == final(rx).rx_buffer_i && b.block == final(rx).rx_block_count);
    assert(b.next_sample == final(rx).rx_next_sample_count && b.timing
        == final(rx).current_rx_timing && b.skip == final(rx).rx_skip);
}

/// As many samples are asked for as are still to be skipped; then as many as are missing in the
/// block; and none for a complete block.
pub proof fn missing_samples_are_asked_for<S: Copy>(rx: &RxDsp<S>, out: RxStep)
    requires
        rx@.wf(),
        call_ensures(RxDsp::<S>::request, (rx,), out),
    ensures
        rx.rx_skip > 0 ==> out == RxStep::Read(rx.rx_skip),
        rx.rx_skip == 0 && rx.rx_buffer_i < rx.rx_buffer@.len() ==> (out matches RxStep::Read(n)
            && n + rx.rx_buffer_i == rx.rx_buffer@.len()),
        rx.rx_skip == 0 && rx.rx_buffer_i == rx.rx_buffer@.len() ==> out == RxStep::Done,
{
    assert(rx.block_new + rx.block_overlap == rx.rx_buffer@.len());
    assert(rx@.skip == rx.rx_skip && rx@.filled == rx.rx_buffer_i);
    assert(rx@.buffer.len() == rx.rx_buffer.len());
    assert(rx@.fresh == rx.block_new);
}

/// A read that starts where the block stands puts its samples into the block, from there on, and
/// leaves those before. Its count and time are kept. Nothing is counted.
pub proof fn samples_in_sequence_are_taken<S: Copy>(
    rx: &mut RxDsp<S>,
    result: &RxResult,
    samples: &[S],
    timing: &mut PhyTimingCounters,
    out: RxStep,
)
    requires
        rx@.wf(),
        rx.rx_skip == 0,
        rx.rx_buffer_i + samples@.len() <= rx.rx_buffer@.len(),
        result.count == rx.rx_block_count * rx.block_new + rx.rx_buffer_i,
        call_ensures(RxDsp::<S>::block_read, (rx, result, samples, timing), out),
    ensures
        final(rx).rx_buffer_i == old(rx).rx_buffer_i + samples@.len(),
        final(rx).rx_buffer@.len() == old(rx).rx_buffer@.len(),
        forall|i: int|
            0 <= i < samples@.len() ==> final(rx).rx_buffer@[i + old(rx).rx_buffer_i]
                == #[trigger] samples@[i],
        forall|i: int|
            0 <= i < old(rx).rx_buffer_i ==> (#[trigger] final(rx).rx_buffer@[i]) == old(
                rx,
            ).rx_buffer@[i],
        final(rx).rx_block_count == old(rx).rx_block_count,
        final(rx).rx_skip == 0,
        final(rx).current_rx_timing.time_ns == result.time_ns,
        final(rx).current_rx_timing.sample_count == Some(result.count),
        final(rx).direct_modem == old(rx).direct_modem,
        final(rx).block_new == old(rx).block_new,
        final(rx).block_overlap == old(rx).block_overlap,
        final(rx).rx_next_sample_count == old(rx).rx_next_sample_count,
        *final(timing) == *old(timing),
        out == RxStep::Done <==> final(rx).rx_buffer_i == final(rx).rx_buffer@.len(),
        out matches RxStep::Read(n) ==> n + final(rx).rx_buffer_i == final(rx).rx_buffer@.len(),
{
    lemma_viewed(*old(rx));
    lemma_viewed(*final(rx));
    assert(old(rx)@.lost(result.count as int) == 0);
    assert(final(rx)@.buffer.len() == final(rx).rx_buffer.len());
    assert forall|i: int| 0 <= i < samples@.len() implies final(rx).rx_buffer@[i + old(
        rx,
    ).rx_buffer_i] == #[trigger] samples@[i] by {
        assert(final(rx)@.buffer[i + old(rx)@.filled] == samples@[i]);
    }
}

proof fn lemma_viewed<S>(rx: RxDsp<S>)
    ensures
        rx@.direct_modem == rx.direct_modem,
        rx@.fresh == rx.block_new,
        rx@.overlap == rx.block_overlap,
        rx@.buffer == rx.rx_buffer@,
        rx@.filled == rx.rx_buffer_i,
        rx@.block == rx.rx_block_count,
        rx@.next_sample == rx.rx_next_sample_count,
        rx@.timing == rx.current_rx_timing,
        rx@.skip == rx.rx_skip,
{
}

/// A read that starts elsewhere is a gap: what was gathered of the block is dropped, and assembly
/// goes on with the first block that begins after the end of the read, up to which samples are
/// skipped; that is never more than one block away. The gap is counted once, with as many samples
/// as are missing or come again.
pub proof fn gap_leads_to_the_next_full_block<S: Copy>(
    rx: &mut RxDsp<S>,
    result: &RxResult,
    samples: &[S],
    timing: &mut PhyTimingCounters,
    out: RxStep,
)
    requires
        rx@.wf(),
        rx.rx_skip == 0,
        result.count != rx.rx_block_count * rx.block_new + rx.rx_buffer_i,
        call_ensures(RxDsp::<S>::block_read, (rx, result, samples, timing), out),
    ensures
        final(rx).rx_buffer_i == 0,
        final(rx).rx_block_count * old(rx).block_new - final(rx).rx_skip == result.count
            + samples@.len(),
        0 < final(rx).rx_skip <= old(rx).block_new,
        out == RxStep::Read(final(rx).rx_skip),
        final(rx).current_rx_timing.time_ns == result.time_ns,
        final(rx).current_rx_timing.sample_count == Some(result.count),
        final(rx).direct_modem == old(rx).direct_modem,
        final(rx).block_new == old(rx).block_new,
        final(rx).block_overlap == old(rx).block_overlap,
        final(rx).rx_buffer@.len() == old(rx).rx_buffer@.len(),
        final(rx).rx_next_sample_count == old(rx).rx_next_sample_count,
        final(timing).rx_sample_gaps == at_most(old(timing).rx_sample_gaps + 1, u64::MAX as int),
        ({
            let lost = result.count - (old(rx).rx_block_count * old(rx).block_new + old(
                rx,
            ).rx_buffer_i);
            let number = if lost < 0 {
                -lost
            } else {
                lost
            };
            i64::MIN < lost <= i64::MAX ==> final(timing).rx_sample_gap_samples == at_most(
                old(timing).rx_sample_gap_samples + number,
                i64::MAX as int,
            )
        }),
        final(timing).late_tx_events == old(timing).late_tx_events,
        final(timing).late_tx_blocks == old(timing).late_tx_blocks,
        final(timing).tx_write_errors == old(timing).tx_write_errors,
        final(timing).rxtx_timeslots == old(timing).rxtx_timeslots,
{
    lemma_viewed(*old(rx));
    lemma_viewed(*final(rx));
    lemma_block_after(old(rx)@, result.count + samples@.len());
    assert(final(rx)@.block * old(rx)@.fresh - final(rx)@.skip == result.count + samples@.len());
}

/// While samples are skipped, a read brings the next block nearer by as many samples as it has,
/// wherever it starts. Nothing else is noted of it, and nothing is counted.
pub proof fn skipped_samples_leave_no_trace<S: Copy>(
    rx: &mut RxDsp<S>,
    result: &RxResult,
    samples: &[S],
    timing: &mut PhyTimingCounters,
    out: RxStep,
)
    requires
        rx@.wf(),
        rx.rx_skip > 0,
        call_ensures(RxDsp::<S>::block_read, (rx, result, samples, timing), out),
    ensures
        final(rx).rx_skip == old(rx).rx_skip - samples@.len(),
        final(rx).rx_buffer_i == 0,
        final(rx).rx_block_count == old(rx).rx_block_count,
        final(rx).current_rx_timing == old(rx).current_rx_timing,
        final(rx).direct_modem == old(rx).direct_modem,
        final(rx).block_new == old(rx).block_new,
        final(rx).block_overlap == old(rx).block_overlap,
        final(rx).rx_buffer@.len() == old(rx).rx_buffer@.len(),
        final(rx).rx_next_sample_count == old(rx).rx_next_sample_count,
        *final(timing) == *old(timing),
        final(rx).rx_skip > 0 ==> out == RxStep::Read(final(rx).rx_skip),
        final(rx).rx_skip == 0 ==> out == RxStep::Read(final(rx).rx_buffer.len()),
{
    lemma_viewed(*old(rx));
    lemma_viewed(*final(rx));
    assert(final(rx)@.buffer.len() == final(rx).rx_buffer.len());
}

/// A read that failed changes nothing, and its error is given back. One that did not is taken as by
/// itself.
pub proof fn failed_read_changes_nothing<S: Copy>(
    rx: &mut RxDsp<S>,
    read: Result<RxResult, RxTxDevError>,
    samples: &[S],
    timing: &mut PhyTimingCounters,
    out: Result<RxStep, RxTxDevError>,
    same_rx: &mut RxDsp<S>,
    same_timing: &mut PhyTimingCounters,
    step: RxStep,
)
    requires
        call_ensures(RxDsp::<S>::receive_block, (rx, read, samples, timing), out),
        *same_rx == *rx,
        *same_timing == *timing,
        read matches Ok(result) ==> call_ensures(
            RxDsp::<S>::block_read,
            (same_rx, &result, samples, same_timing),
            step,
        ),
    ensures
        read matches Err(e) ==> final(rx)@ == old(rx)@ && *final(timing) == *old(timing) && (
        out matches Err(given) && given@ == e@),
        read is Ok ==> final(rx)@ == final(same_rx)@ && *final(timing) == *final(same_timing) && out
            == Ok::<RxStep, RxTxDevError>(step),
{
}

/// Where samples go to the demodulators as they are, as many are asked for as are missing in the
/// block. Those that come are put in their places, whether any are missing before them or not; the
/// next read is expected right behind them. A complete block is counted, and the next one begins.
pub proof fn direct_samples_are_taken_as_they_come<S: Copy>(
    rx: &mut RxDsp<S>,
    result: &RxResult,
    samples: &[S],
    timing: &mut PhyTimingCounters,
    out: RxStep,
    asked: usize,
)
    requires
        rx@.wf(),
        rx.direct_modem,
        samples@.len() + rx.rx_buffer_i <= rx.block_new,
        result.len == samples@.len(),
        i64::MIN <= result.count + samples@.len() <= i64::MAX,
        call_ensures(RxDsp::<S>::direct_request, (&*rx,), asked),
        call_ensures(RxDsp::<S>::direct_read, (rx, result, samples, timing), out),
    ensures
        asked + old(rx).rx_buffer_i == old(rx).block_new,
        forall|i: int|
            0 <= i < samples@.len() ==> final(rx).rx_buffer@[i + old(rx).rx_buffer_i]
                == #[trigger] samples@[i],
        forall|i: int|
            0 <= i < old(rx).rx_buffer_i ==> (#[trigger] final(rx).rx_buffer@[i]) == old(
                rx,
            ).rx_buffer@[i],
        final(rx).rx_next_sample_count matches Some(next) && next == result.count + samples@.len(),
        final(rx).current_rx_timing.time_ns == result.time_ns,
        final(rx).current_rx_timing.sample_count == Some(result.count),
        final(rx).direct_modem && final(rx).block_new == old(rx).block_new
            && final(rx).block_overlap == old(rx).block_overlap && final(rx).rx_skip == old(
            rx,
        ).rx_skip,
        samples@.len() > 0 && samples@.len() + old(rx).rx_buffer_i == old(rx).block_new
            ==> final(rx).rx_buffer_i == 0 && final(rx).rx_block_count == old(rx).rx_block_count + 1
            && out == RxStep::Done,
        samples@.len() > 0 && samples@.len() + old(rx).rx_buffer_i < old(rx).block_new
            ==> final(rx).rx_buffer_i == samples@.len() + old(rx).rx_buffer_i
            && final(rx).rx_block_count == old(rx).rx_block_count && (out matches RxStep::Read(n)
            && n + final(rx).rx_buffer_i == old(rx).block_new),
        samples@.len() == 0 ==> final(rx).rx_buffer_i == old(rx).rx_buffer_i
            && final(rx).rx_block_count == old(rx).rx_block_count && out == RxStep::Done,
{
    lemma_viewed(*old(rx));
    lemma_viewed(*final(rx));
    assert forall|i: int| 0 <= i < samples@.len() implies final(rx).rx_buffer@[i + old(
        rx,
    ).rx_buffer_i] == #[trigger] samples@[i] by {
        assert(final(rx)@.buffer[i + old(rx)@.filled] == samples@[i]);
    }
}

/// Where samples go to the demodulators as they are, a gap is counted just where a read does not
/// start at the count that was expected. Before the first read none is expected.
pub proof fn direct_gaps_are_counted<S: Copy>(
    rx: &mut RxDsp<S>,
    result: &RxResult,
    samples: &[S],
    timing: &mut PhyTimingCounters,
    out: RxStep,
)
    requires
        call_ensures(RxDsp::<S>::direct_read, (rx, result, samples, timing), out),
    ensures
        (old(rx).rx_next_sample_count matches Some(expected) ==> expected == result.count)
            ==> *final(timing) == *old(timing),
        old(rx).rx_next_sample_count matches Some(expected) ==> expected != result.count ==> {
            let lost = result.count - expected;
            let number = if lost < 0 {
                -lost
            } else {
                lost
            };
            &&& final(timing).rx_sample_gaps == at_most(
                old(timing).rx_sample_gaps + 1,
                u64::MAX as int,
            )
            &&& i64::MIN < lost <= i64::MAX ==> final(timing).rx_sample_gap_samples == at_most(
                old(timing).rx_sample_gap_samples + number,
                i64::MAX as int,
            )
            &&& final(timing).late_tx_events == old(timing).late_tx_events
            &&& final(timing).late_tx_blocks == old(timing).late_tx_blocks
            &&& final(timing).tx_write_errors == old(timing).tx_write_errors
            &&& final(timing).rxtx_timeslots == old(timing).rxtx_timeslots
        },
{
    lemma_viewed(*old(rx));
}

/// Where samples go to the demodulators as they are, a timeout ends the turn without error just
/// where some samples of the block are there. Every other error is given back.
pub proof fn timeout_within_a_block_is_no_error<S: Copy>(
    rx: &RxDsp<S>,
    err: RxTxDevError,
    out: Result<bool, RxTxDevError>,
    timeout: bool,
)
    requires
        call_ensures(RxDsp::<S>::direct_failed, (rx, err), out),
        call_ensures(rx_timeout, (&err,), timeout),
    ensures
        timeout && rx.rx_buffer_i > 0 ==> out == Ok::<bool, RxTxDevError>(false),
        !timeout || rx.rx_buffer_i == 0 ==> (out matches Err(given) && given@ == err@),
{
    lemma_viewed(*rx);
}

/// The counts of a read can be reckoned with while samples are skipped; and else just where the
/// counts of the block, the number of missing samples, and where there are any the place at which
/// assembly goes on can be held.
pub proof fn reads_are_refused_where_counts_run_over<S: Copy>(
    rx: &RxDsp<S>,
    result: &RxResult,
    r: bool,
    direct: bool,
)
    requires
        call_ensures(RxDsp::<S>::can_read, (rx, result), r),
        call_ensures(RxDsp::<S>::can_direct_read, (rx, result), direct),
    ensures
        rx.rx_skip > 0 ==> r,
        rx.rx_skip == 0 ==> {
            let first = rx.rx_block_count * rx.block_new;
            let lost = result.count - (first + rx.rx_buffer_i);
            let next = result.count + result.len;
            let block = next / (rx.block_new as int) + 1;
            let begin = block * rx.block_new;
            r <==> {
                &&& i64::MIN <= first <= i64::MAX
                &&& i64::MIN <= first + rx.rx_buffer_i <= i64::MAX
                &&& i64::MIN < lost <= i64::MAX
                &&& lost != 0 ==> i64::MIN <= next <= i64::MAX && i64::MIN <= block <= i64::MAX
                    && i64::MIN <= begin <= i64::MAX && i64::MIN <= block - rx.rx_block_count
                    <= i64::MAX
            }
        },
        direct <==> i64::MIN <= result.count + result.len <= i64::MAX && rx.rx_block_count
            < i64::MAX && (rx.rx_next_sample_count matches Some(expected) ==> i64::MIN < result.count
            - expected <= i64::MAX),
{
    lemma_viewed(*rx);
}

/// Samples go between device and modem as they are just where the rate is right, nothing is
/// monitored, and the one carrier there is lies in the known center.
pub proof fn channelization_is_left_out_for_one_carrier(
    rate_matches: bool,
    monitored: usize,
    center_known: bool,
    carriers: usize,
    carrier_in_center: bool,
    r: bool,
    single: bool,
)
    requires
        call_ensures(
            uses_direct_modem,
            (rate_matches, monitored, center_known, carriers, carrier_in_center),
            r,
        ),
        call_ensures(
            is_direct_single_carrier,
            (center_known, carriers, carrier_in_center),
            single,
        ),
    ensures
        !rate_matches || monitored > 0 ==> !r,
        rate_matches && monitored == 0 ==> r == single,
        single ==> center_known && carriers == 1 && carrier_in_center,
        center_known && carriers == 1 && carrier_in_center ==> single,
{
}

/// Samples are counted through: the first sample of a block follows the last one of the block
/// before, and within a block each follows the one before.
pub proof fn samples_are_counted_through(
    block: BlockCount,
    len: usize,
    i: usize,
    out: SampleCount,
    first: SampleCount,
    next: SampleCount,
    fits: bool,
)
    requires
        block < i64::MAX,
        call_ensures(sample_count_in_block, (block, len, i), out),
        call_ensures(sample_count_in_block, (block, len, 0usize), first),
        call_ensures(sample_count_in_block, ((block + 1) as i64, len, 0usize), next),
        call_ensures(counts_fit, (block, len), fits),
    ensures
        out == first + i,
        next == first + len,
        block == 0 ==> first == 0,
        fits <==> len <= i64::MAX && i64::MIN <= block * len <= i64::MAX && i64::MIN <= block * len
            + len <= i64::MAX,
{
    assert((block + 1) * len == block * len + len) by (nonlinear_arith);
    assert(block == 0 ==> block * len == 0) by (nonlinear_arith);
}

/// Processing goes on just where every channel wants more: of a monitored pair the uplink decides,
/// and the downlink where there is no uplink.
pub proof fn every_channel_can_stop_processing(
    pairs: &Vec<(bool, Option<bool>)>,
    demodulators: &Vec<bool>,
    r: bool,
)
    requires
        call_ensures(goes_on, (pairs, demodulators), r),
    ensures
        r ==> forall|i: int|
            0 <= i < pairs@.len() ==> ((#[trigger] pairs@[i]).1 == Some(true) || (pairs@[i].1 is None
                && pairs@[i].0)),
        r ==> !demodulators@.contains(false),
        !r ==> (exists|i: int|
            0 <= i < pairs@.len() && ((#[trigger] pairs@[i]).1 == Some(false) || (
            pairs@[i].1 is None && !pairs@[i].0))) || demodulators@.contains(false),
{
}

proof fn lemma_slots_at<T>(pairs: Seq<(Option<T>, Option<T>)>, demodulators: Seq<Option<T>>)
    ensures
        slots_in_order(pairs, demodulators).len() == 2 * pairs.len() + demodulators.len(),
        forall|i: int|
            0 <= i < pairs.len() ==> slots_in_order(pairs, demodulators)[2 * i] == (
            #[trigger] pairs[i]).0 && slots_in_order(pairs, demodulators)[2 * i + 1] == pairs[i].1,
        forall|j: int|
            0 <= j < demodulators.len() ==> slots_in_order(pairs, demodulators)[2 * pairs.len() + j]
                == #[trigger] demodulators[j],
    decreases pairs.len(),
{
    if pairs.len() > 0 {
        let rest = pairs.drop_first();
        lemma_slots_at(rest, demodulators);
        let tail = slots_in_order(rest, demodulators);
        let all = slots_in_order(pairs, demodulators);
        assert(all == seq![pairs[0].0, pairs[0].1] + tail);
        assert forall|i: int| 0 <= i < pairs.len() implies all[2 * i] == (#[trigger] pairs[i]).0
            && all[2 * i + 1] == pairs[i].1 by {
            if i > 0 {
                assert(rest[i - 1] == pairs[i]);
                assert(all[2 * i] == tail[2 * (i - 1)]);
                assert(all[2 * i + 1] == tail[2 * (i - 1) + 1]);
            }
        }
        assert forall|j: int| 0 <= j < demodulators.len() implies all[2 * pairs.len() + j]
            == #[trigger] demodulators[j] by {
            assert(all[2 * pairs.len() + j] == tail[2 * rest.len() + j]);
        }
    }
}

/// The slots of all channels come in order: of each monitored pair downlink and uplink, then those
/// of the demodulators. None is left out and none comes twice.
pub proof fn slots_come_in_order<T>(
    pairs: Vec<(Option<T>, Option<T>)>,
    demodulators: Vec<Option<T>>,
    out: Vec<Option<T>>,
)
    requires
        call_ensures(take_slot_bits::<T>, (pairs, demodulators), out),
    ensures
        out@.len() == 2 * pairs@.len() + demodulators@.len(),
        forall|i: int|
            0 <= i < pairs@.len() ==> out@[2 * i] == (#[trigger] pairs@[i]).0 && out@[2 * i + 1]
                == pairs@[i].1,
        forall|j: int|
            0 <= j < demodulators@.len() ==> out@[2 * pairs@.len() + j]
                == #[trigger] demodulators@[j],
{
    lemma_slots_at(pairs@, demodulators@);
}

/// Whether samples go to the demodulators as they are is told as it is.
pub proof fn receiver_tells_what_it_is<S: Copy>(rx: &RxDsp<S>, direct: bool)
    requires
        call_ensures(RxDsp::<S>::direct_modem, (rx,), direct),
    ensures
        direct == rx.direct_modem,
{
}

} // verus!
