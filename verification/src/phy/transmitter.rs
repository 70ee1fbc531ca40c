//! Scheduling of transmit blocks.
//!
//! Blocks are produced a number of blocks ahead of the time at which they are sent: not so late
//! that they miss it, and not so early that reception gets no turn.
use super::counters::{at_most, PhyTimingCounters};
use super::receiver::{sample_count_in_block, wide_fits};
use super::rxtx_dev::{dev_result, BlockCount, RxTxDevError, SampleCount};
use crate::number::{fits_i64, floor_div, max_int, parse_signed, signed_number};
use crate::text::opt_str;
use vstd::prelude::*;

verus! {

/// For how many blocks a warning of the headroom limiter is not repeated.
pub const HEADROOM_WARN_COOLDOWN_BLOCKS: usize = 6000;

// ---------------------------------------------------------------------------------------------
// Configuration
// ---------------------------------------------------------------------------------------------
#[derive(Clone, Copy, Debug, PartialEq, Eq, Structural)]
pub struct TxTimingConfig {
    /// How many blocks ahead of the current time a block is produced at least.
    pub min_ahead_blocks: BlockCount,
    /// How many blocks ahead of the current time a block is produced at most.
    pub max_ahead_blocks: BlockCount,
    /// How many blocks ahead of reception a block is produced at most.
    pub max_rx_ahead_blocks: BlockCount,
}

/// The number of blocks that a setting stands for. One that is no number is ignored.
pub open spec fn block_count_setting(value: Option<Seq<char>>, default: int, min: int) -> int {
    match value {
        Some(text) => match signed_number(text) {
            Some(n) => if fits_i64(n) {
                max_int(n, min)
            } else {
                default
            },
            None => default,
        },
        None => default,
    }
}

/// The number of blocks that a setting stands for. One that is no number is ignored.
pub fn read_env_block_count(value: Option<&str>, default: BlockCount, min: BlockCount) -> (out:
    BlockCount)
    ensures
        out == block_count_setting(opt_str(value), default as int, min as int),
{
    match value {
        Some(text) => match parse_signed(text) {
            Some(n) => if n < min {
                min
            } else {
                n
            },
            None => default,
        },
        None => default,
    }
}

impl TxTimingConfig {
    /// The configuration from three settings: how far ahead of the current time blocks are
    /// produced at least and at most, and how far ahead of reception.
    pub fn from_env(
        default_min_ahead_blocks: BlockCount,
        min_ahead: Option<&str>,
        max_ahead: Option<&str>,
        max_rx_ahead: Option<&str>,
    ) -> (out: TxTimingConfig)
        ensures
            out.min_ahead_blocks == block_count_setting(
                opt_str(min_ahead),
                default_min_ahead_blocks as int,
                1,
            ),
            out.max_ahead_blocks == block_count_setting(
                opt_str(max_ahead),
                60,
                out.min_ahead_blocks as int,
            ),
            out.max_rx_ahead_blocks == block_count_setting(
                opt_str(max_rx_ahead),
                60,
                out.min_ahead_blocks as int,
            ),
    {
        let min_ahead_blocks: BlockCount = read_env_block_count(
            min_ahead,
            default_min_ahead_blocks,
            1,
        );
        TxTimingConfig {
            min_ahead_blocks,
            max_ahead_blocks: read_env_block_count(max_ahead, 60, min_ahead_blocks),
            max_rx_ahead_blocks: read_env_block_count(max_rx_ahead, 60, min_ahead_blocks),
        }
    }
}

// ---------------------------------------------------------------------------------------------
// Schedule
// ---------------------------------------------------------------------------------------------
#[derive(Clone, Copy, Debug, PartialEq, Eq, Structural)]
pub struct TxDsp {
    /// Whether the samples of the modulators are sent as they are, without channelization.
    pub direct_modem: bool,
    /// The number of the next block.
    pub block_count: BlockCount,
    pub schedule_initialized: bool,
    pub timing_config: TxTimingConfig,
}

/// What to do about the next block.
#[derive(Clone, Copy, Debug, PartialEq, Eq, Structural)]
pub struct TxPlan {
    /// The sample at which the modulators have to take up the current slot, where the schedule
    /// has moved.
    pub align: Option<SampleCount>,
    /// Whether the block is to be produced now.
    pub produce: bool,
}

impl TxDsp {
    /// How many blocks the next block is ahead of the current time.
    pub open spec fn ahead(self, current_sample: int, block_samples: int) -> int {
        self.block_count - current_sample / block_samples
    }

    /// Whether the schedule moves: at the beginning, and when the next block would be late.
    pub open spec fn moves(self, current_sample: int, block_samples: int) -> bool {
        !self.schedule_initialized || self.ahead(current_sample, block_samples)
            < self.timing_config.min_ahead_blocks
    }

    /// The number of the next block in the schedule.
    pub open spec fn scheduled_block(self, current_sample: int, block_samples: int) -> int {
        if self.moves(current_sample, block_samples) {
            current_sample / block_samples + self.timing_config.min_ahead_blocks
        } else {
            self.block_count as int
        }
    }

    /// The schedule at the current time.
    pub open spec fn scheduled(self, current_sample: int, block_samples: int) -> TxDsp {
        TxDsp {
            block_count: self.scheduled_block(current_sample, block_samples) as i64,
            schedule_initialized: true,
            ..self
        }
    }

    /// What to do about the next block.
    pub open spec fn plan(
        self,
        current_sample: int,
        block_samples: int,
        latest_rx_block: Option<BlockCount>,
    ) -> TxPlan {
        let block = self.scheduled_block(current_sample, block_samples);
        TxPlan {
            align: if self.direct_modem && self.moves(current_sample, block_samples) {
                Some((block * block_samples) as i64)
            } else {
                None
            },
            produce: self.ahead(current_sample, block_samples)
                <= self.timing_config.max_ahead_blocks && match latest_rx_block {
                Some(rx) => block - rx <= self.timing_config.max_rx_ahead_blocks,
                None => true,
            },
        }
    }

    /// Whether the counts can be reckoned with.
    pub open spec fn in_range(
        self,
        current_sample: int,
        block_samples: int,
        latest_rx_block: Option<BlockCount>,
    ) -> bool {
        let block = self.scheduled_block(current_sample, block_samples);
        let moves = self.moves(current_sample, block_samples);
        let ahead = self.ahead(current_sample, block_samples);
        &&& fits_i64(ahead)
        &&& fits_i64(block)
        &&& moves && self.schedule_initialized ==> fits_i64(block - self.block_count)
        &&& moves && self.direct_modem ==> fits_i64(block * block_samples)
        &&& ahead <= self.timing_config.max_ahead_blocks ==> match latest_rx_block {
            Some(rx) => fits_i64(block - rx),
            None => true,
        }
    }

    pub fn new(direct_modem: bool, timing_config: TxTimingConfig) -> (out: TxDsp)
        ensures
            out == (TxDsp {
                direct_modem,
                block_count: 0,
                schedule_initialized: false,
                timing_config,
            }),
    {
        TxDsp { direct_modem, block_count: 0, schedule_initialized: false, timing_config }
    }

    /// Whether the counts can be reckoned with.
    pub fn can_plan(
        &self,
        current_sample: SampleCount,
        block_samples: usize,
        latest_rx_block: Option<BlockCount>,
    ) -> (r: bool)
        requires
            0 < block_samples <= i64::MAX,
        ensures
            r == self.in_range(current_sample as int, block_samples as int, latest_rx_block),
    {
        let samples: i128 = block_samples as i128;
        let current: i128 = floor_div(current_sample, block_samples as i64) as i128;
        let ahead: i128 = self.block_count as i128 - current;
        let moves = !self.schedule_initialized || ahead
            < self.timing_config.min_ahead_blocks as i128;
        let block: i128 = if moves {
            current + self.timing_config.min_ahead_blocks as i128
        } else {
            self.block_count as i128
        };
        if !wide_fits(ahead) || !wide_fits(block) {
            return false;
        }
        if moves && self.schedule_initialized && !wide_fits(block - self.block_count as i128) {
            return false;
        }
        assert(i64::MIN * i64::MAX <= block * samples <= i64::MAX * i64::MAX) by (nonlinear_arith)
            requires
                i64::MIN <= block <= i64::MAX,
                0 <= samples <= i64::MAX,
        ;
        if moves && self.direct_modem && !wide_fits(block * samples) {
            return false;
        }
        match latest_rx_block {
            Some(rx) => ahead > self.timing_config.max_ahead_blocks as i128 || wide_fits(
                block - rx as i128,
            ),
            None => true,
        }
    }

    /// Schedules the next block. `current_sample` is the current time, and a block has
    /// `block_samples` samples.
    ///
    /// Blocks in the past, or in the too near future, are skipped. No block is produced too far
    /// in the future, nor too far from the latest received block, which leaves reception its
    /// turn.
    pub fn process_block(
        &mut self,
        current_sample: SampleCount,
        block_samples: usize,
        latest_rx_block: Option<BlockCount>,
        timing: &mut PhyTimingCounters,
    ) -> (out: TxPlan)
        requires
            0 < block_samples <= i64::MAX,
            old(self).in_range(current_sample as int, block_samples as int, latest_rx_block),
        ensures
            *final(self) == old(self).scheduled(current_sample as int, block_samples as int),
            out == old(self).plan(current_sample as int, block_samples as int, latest_rx_block),
            old(self).schedule_initialized && old(self).moves(
                current_sample as int,
                block_samples as int,
            ) ==> *final(timing) == old(timing).after_late_tx(
                final(self).block_count - old(self).block_count,
            ),
            !old(self).schedule_initialized || !old(self).moves(
                current_sample as int,
                block_samples as int,
            ) ==> *final(timing) == *old(timing),
    {
        let current: BlockCount = floor_div(current_sample, block_samples as i64);
        let ahead: BlockCount = self.block_count - current;
        let min: BlockCount = self.timing_config.min_ahead_blocks;
        let mut align: Option<SampleCount> = None;
        if !self.schedule_initialized || ahead < min {
            let block: BlockCount = current + min;
            if self.schedule_initialized {
                let _ = timing.record_late_tx(block - self.block_count);
            }
            self.block_count = block;
            self.schedule_initialized = true;
            if self.direct_modem {
                align = Some(block * (block_samples as i64));
            }
        }
        let mut produce = ahead <= self.timing_config.max_ahead_blocks;
        if produce {
            if let Some(rx) = latest_rx_block {
                produce = self.block_count - rx <= self.timing_config.max_rx_ahead_blocks;
            }
        }
        TxPlan { align, produce }
    }

    /// Takes the next block, which has `len` samples. Returns the count of its first sample.
    ///
    /// The schedule goes on with the block after it, so that no block is produced twice even
    /// where it cannot be sent.
    pub fn take_block(&mut self, len: usize) -> (out: SampleCount)
        requires
            len <= i64::MAX,
            fits_i64(old(self).block_count * len),
            old(self).block_count < i64::MAX,
        ensures
            out == old(self).block_count * len,
            *final(self) == (TxDsp {
                block_count: (old(self).block_count + 1) as i64,
                ..*old(self)
            }),
    {
        let count: SampleCount = sample_count_in_block(self.block_count, len, 0);
        self.block_count = self.block_count + 1;
        count
    }
}

/// Whether a further block can be produced after one was sent with this result.
pub fn block_sent(sent: Result<(), RxTxDevError>, timing: &mut PhyTimingCounters) -> (out: Result<
    bool,
    RxTxDevError,
>)
    ensures
        dev_result(out) == match dev_result(sent) {
            Ok(_) => Ok(true),
            Err(e) => Err(e),
        },
        *final(timing) == if sent is Ok {
            *old(timing)
        } else {
            old(timing).after_tx_write_error()
        },
{
    match sent {
        Ok(_) => Ok(true),
        Err(err) => {
            let _ = timing.record_tx_write_error();
            Err(err)
        },
    }
}

// ---------------------------------------------------------------------------------------------
// Modulated samples of a block
// ---------------------------------------------------------------------------------------------
/// The samples of a block as a modulator produces them. A block that the modulator cannot
/// complete for want of data is taken up again where it was left.
pub struct ModulatorChannel<S> {
    pub buffer: Vec<S>,
    /// How much of the buffer is filled.
    pub buffer_i: usize,
}

impl<S> ModulatorChannel<S> {
    pub open spec fn wf(self) -> bool {
        self.buffer_i <= self.buffer@.len() <= i64::MAX
    }
}

impl<S: Copy> ModulatorChannel<S> {
    pub fn new() -> (out: ModulatorChannel<S>)
        ensures
            out.wf(),
            out.buffer@.len() == 0,
            out.buffer_i == 0,
    {
        ModulatorChannel { buffer: Vec::new(), buffer_i: 0 }
    }

    /// Makes room for blocks of `len` samples. What is there of a block of another length is
    /// dropped.
    pub fn set_len(&mut self, len: usize, silence: S)
        requires
            old(self).wf(),
            len <= i64::MAX,
        ensures
            final(self).wf(),
            final(self).buffer@.len() == len,
            old(self).buffer@.len() == len ==> *final(self) == *old(self),
            old(self).buffer@.len() != len ==> final(self).buffer_i == 0 && final(self).buffer@
                == Seq::new(len as nat, |i: int| silence),
    {
        if self.buffer.len() != len {
            let mut buffer: Vec<S> = Vec::new();
            while buffer.len() < len
                invariant
                    buffer@ == Seq::new(buffer@.len(), |i: int| silence),
                    buffer@.len() <= len,
                decreases len - buffer@.len(),
            {
                buffer.push(silence);
            }
            self.buffer = buffer;
            self.buffer_i = 0;
        }
    }

    /// The count of the sample that is wanted next for a block, or none where the block is
    /// complete.
    pub fn wanted(&self, block: BlockCount) -> (out: Option<SampleCount>)
        requires
            self.wf(),
            fits_i64(block * self.buffer@.len()),
            fits_i64(block * self.buffer@.len() + self.buffer_i),
        ensures
            out == if self.buffer_i < self.buffer@.len() {
                Some((block * self.buffer@.len() + self.buffer_i) as i64)
            } else {
                None
            },
    {
        if self.buffer_i < self.buffer.len() {
            Some(sample_count_in_block(block, self.buffer.len(), self.buffer_i))
        } else {
            None
        }
    }

    /// Takes the next sample of a block.
    pub fn put(&mut self, sample: S)
        requires
            old(self).wf(),
            old(self).buffer_i < old(self).buffer@.len(),
        ensures
            final(self).wf(),
            final(self).buffer@ == old(self).buffer@.update(old(self).buffer_i as int, sample),
            final(self).buffer_i == old(self).buffer_i + 1,
    {
        let i: usize = self.buffer_i;
        let _len: usize = self.buffer.len();
        self.buffer[i] = sample;
        self.buffer_i = i + 1;
    }

    /// Begins the next block: after a complete one, or when the schedule has moved.
    pub fn start_over(&mut self)
        ensures
            final(self).buffer@ == old(self).buffer@,
            final(self).buffer_i == 0,
    {
        self.buffer_i = 0;
    }
}

/// When a warning of the headroom limiter is given.
#[derive(Clone, Copy, Debug, PartialEq, Eq, Structural)]
pub struct HeadroomWarnings {
    pub warn_cooldown_blocks: usize,
}

impl HeadroomWarnings {
    /// A block for which the digital drive was reduced. Returns whether to warn of it.
    pub fn reduced(&mut self) -> (warn: bool)
        ensures
            warn == (old(self).warn_cooldown_blocks == 0),
            final(self).warn_cooldown_blocks == if warn {
                HEADROOM_WARN_COOLDOWN_BLOCKS
            } else {
                old(self).warn_cooldown_blocks
            },
    {
        if self.warn_cooldown_blocks == 0 {
            self.warn_cooldown_blocks = HEADROOM_WARN_COOLDOWN_BLOCKS;
            true
        } else {
            false
        }
    }

    /// A block for which the digital drive was not reduced.
    pub fn recovered(&mut self)
        ensures
            final(self).warn_cooldown_blocks == max_int(old(self).warn_cooldown_blocks - 1, 0),
    {
        if self.warn_cooldown_blocks > 0 {
            self.warn_cooldown_blocks = self.warn_cooldown_blocks - 1;
        }
    }
}

// ---------------------------------------------------------------------------------------------
// Laws
// ---------------------------------------------------------------------------------------------
/// A block is scheduled no nearer to the current time than configured.
pub proof fn blocks_keep_minimum_distance(tx: TxDsp, current_sample: int, block_samples: int)
    ensures
        tx.scheduled_block(current_sample, block_samples) - current_sample / block_samples
            >= tx.timing_config.min_ahead_blocks,
{
}

/// A block that is produced is no farther ahead of the current time than configured, or as near
/// to it as allowed; nor is it farther ahead of the latest received block than configured.
pub proof fn produced_blocks_keep_maximum_distance(
    tx: TxDsp,
    current_sample: int,
    block_samples: int,
    latest_rx_block: Option<BlockCount>,
)
    requires
        tx.plan(current_sample, block_samples, latest_rx_block).produce,
    ensures
        ({
            let block = tx.scheduled_block(current_sample, block_samples);
            let ahead = block - current_sample / block_samples;
            &&& ahead <= tx.timing_config.max_ahead_blocks || ahead
                == tx.timing_config.min_ahead_blocks
            &&& latest_rx_block matches Some(rx) ==> block - rx
                <= tx.timing_config.max_rx_ahead_blocks
        }),
{
}

/// Once the schedule stands it moves forward only, so no block is produced twice.
pub proof fn schedule_moves_forward(
    tx: TxDsp,
    current_sample: int,
    block_samples: int,
    latest_rx_block: Option<BlockCount>,
)
    requires
        tx.schedule_initialized,
        tx.in_range(current_sample, block_samples, latest_rx_block),
    ensures
        tx.scheduled(current_sample, block_samples).block_count >= tx.block_count,
        tx.moves(current_sample, block_samples) ==> tx.scheduled(
            current_sample,
            block_samples,
        ).block_count > tx.block_count,
{
}

/// Blocks that are sent never overlap. `taken` is what is left of the schedule when a block is
/// taken from `tx`: the next block begins after the last sample of the one taken, and right there
/// while the schedule does not move.
pub proof fn blocks_never_overlap(
    tx: TxDsp,
    taken: TxDsp,
    len: int,
    current_sample: int,
    block_samples: int,
    latest_rx_block: Option<BlockCount>,
)
    requires
        len > 0,
        tx.schedule_initialized,
        tx.block_count < i64::MAX,
        taken == (TxDsp { block_count: (tx.block_count + 1) as i64, ..tx }),
        taken.in_range(current_sample, block_samples, latest_rx_block),
    ensures
        ({
            let next = taken.scheduled(current_sample, block_samples);
            &&& next.block_count * len >= tx.block_count * len + len
            &&& !taken.moves(current_sample, block_samples) ==> next.block_count * len
                == tx.block_count * len + len
        }),
{
    schedule_moves_forward(taken, current_sample, block_samples, latest_rx_block);
    let block = tx.block_count as int;
    let next = taken.scheduled(current_sample, block_samples).block_count as int;
    assert(next * len >= (block + 1) * len) by (nonlinear_arith)
        requires
            next >= block + 1,
            len > 0,
    ;
    assert((block + 1) * len == block * len + len) by (nonlinear_arith);
}

/// A block that is produced lies between the least distance from the current time and the greatest
/// one, and no farther ahead of the latest received block than configured.
pub proof fn produced_blocks_keep_their_distances(
    tx: TxDsp,
    current_sample: int,
    block_samples: int,
    latest_rx_block: Option<BlockCount>,
)
    requires
        tx.in_range(current_sample, block_samples, latest_rx_block),
        tx.plan(current_sample, block_samples, latest_rx_block).produce,
    ensures
        ({
            let block = tx.scheduled(current_sample, block_samples).block_count;
            let current = current_sample / block_samples;
            let config = tx.timing_config;
            &&& current + config.min_ahead_blocks <= block <= current + max_int(
                config.min_ahead_blocks as int,
                config.max_ahead_blocks as int,
            )
            &&& latest_rx_block matches Some(rx) ==> block - rx <= config.max_rx_ahead_blocks
        }),
{
    blocks_keep_minimum_distance(tx, current_sample, block_samples);
    produced_blocks_keep_maximum_distance(tx, current_sample, block_samples, latest_rx_block);
}

/// A turn of transmission: the current time, the samples of a block, the latest received block, and
/// whether a block is taken.
pub ghost struct TxTurn {
    pub current_sample: int,
    pub block_samples: int,
    pub latest_rx_block: Option<BlockCount>,
    pub taken: bool,
}

impl TxDsp {
    /// The schedule after a turn.
    pub open spec fn after_turn(self, turn: TxTurn) -> TxDsp {
        let next = self.scheduled(turn.current_sample, turn.block_samples);
        if turn.taken {
            TxDsp { block_count: (next.block_count + 1) as i64, ..next }
        } else {
            next
        }
    }

    /// Whether the counts of a turn can be reckoned with.
    pub open spec fn turn_in_range(self, turn: TxTurn) -> bool {
        &&& self.in_range(turn.current_sample, turn.block_samples, turn.latest_rx_block)
        &&& self.scheduled(turn.current_sample, turn.block_samples).block_count < i64::MAX
    }

    /// The schedule after a number of turns.
    pub open spec fn after_turns(self, turns: Seq<TxTurn>) -> TxDsp
        decreases turns.len(),
    {
        if turns.len() == 0 {
            self
        } else {
            self.after_turns(turns.drop_last()).after_turn(turns.last())
        }
    }

    /// Whether the counts of a number of turns can be reckoned with.
    pub open spec fn turns_in_range(self, turns: Seq<TxTurn>) -> bool
        decreases turns.len(),
    {
        turns.len() > 0 ==> self.turns_in_range(turns.drop_last()) && self.after_turns(
            turns.drop_last(),
        ).turn_in_range(turns.last())
    }

    /// The blocks that are taken in a number of turns.
    pub open spec fn blocks_taken(self, turns: Seq<TxTurn>) -> Seq<i64>
        decreases turns.len(),
    {
        if turns.len() == 0 {
            Seq::empty()
        } else {
            let last = turns.last();
            let before = self.after_turns(turns.drop_last());
            let taken = self.blocks_taken(turns.drop_last());
            if last.taken {
                taken.push(before.scheduled(last.current_sample, last.block_samples).block_count)
            } else {
                taken
            }
        }
    }
}

/// However the time goes and whatever is received, the blocks that are taken go up, and the
/// schedule stays ahead of them: no block is sent twice, or after a later one.
pub proof fn taken_blocks_go_up(tx: TxDsp, turns: Seq<TxTurn>)
    requires
        tx.turns_in_range(turns),
    ensures
        ({
            let taken = tx.blocks_taken(turns);
            let after = tx.after_turns(turns);
            &&& forall|i: int, j: int| 0 <= i < j < taken.len() ==> taken[i] < taken[j]
            &&& forall|i: int| 0 <= i < taken.len() ==> #[trigger] taken[i] < after.block_count
            &&& turns.len() > 0 ==> after.schedule_initialized
        }),
    decreases turns.len(),
{
    if turns.len() > 0 {
        let last = turns.last();
        let before = tx.after_turns(turns.drop_last());
        let earlier = tx.blocks_taken(turns.drop_last());
        let taken = tx.blocks_taken(turns);
        let next = before.scheduled(last.current_sample, last.block_samples);
        taken_blocks_go_up(tx, turns.drop_last());
        if turns.drop_last().len() > 0 {
            schedule_moves_forward(
                before,
                last.current_sample,
                last.block_samples,
                last.latest_rx_block,
            );
        } else {
            assert(earlier.len() == 0);
        }
        assert forall|i: int| 0 <= i < earlier.len() implies earlier[i] < next.block_count by {
            assert(earlier[i] < before.block_count);
        }
        assert(taken == if last.taken {
            earlier.push(next.block_count)
        } else {
            earlier
        });
    }
}

// ---------------------------------------------------------------------------------------------
// Laws of the operations
// ---------------------------------------------------------------------------------------------
/// A block is produced just where the next block was no more than the maximum ahead of the current
/// one, and the scheduled block is no more than the maximum ahead of the latest received one, where
/// there is one. That holds with channelization and without it.
pub proof fn block_is_produced_just_where_its_distances_allow(
    tx: &mut TxDsp,
    current_sample: SampleCount,
    block_samples: usize,
    latest_rx_block: Option<BlockCount>,
    timing: &mut PhyTimingCounters,
    out: TxPlan,
)
    requires
        block_samples > 0,
        tx.in_range(current_sample as int, block_samples as int, latest_rx_block),
        call_ensures(
            TxDsp::process_block,
            (tx, current_sample, block_samples, latest_rx_block, timing),
            out,
        ),
    ensures
        ({
            let current = current_sample as int / block_samples as int;
            let ahead = old(tx).block_count - current;
            out.produce <==> ahead <= old(tx).timing_config.max_ahead_blocks && (
            latest_rx_block matches Some(rx) ==> final(tx).block_count - rx <= old(
                tx,
            ).timing_config.max_rx_ahead_blocks)
        }),
{
}

/// The schedule moves at the beginning, and when the next block would be nearer to the current time
/// than the minimum: then the next block is at that minimum, and else it stays. Where it moves and
/// there is no channelization, the modulators take up the slot at the first sample of the next
/// block. Late blocks are counted, but not the beginning; nothing else changes.
pub proof fn schedule_moves_to_the_minimum_distance(
    tx: &mut TxDsp,
    current_sample: SampleCount,
    block_samples: usize,
    latest_rx_block: Option<BlockCount>,
    timing: &mut PhyTimingCounters,
    out: TxPlan,
)
    requires
        block_samples > 0,
        tx.in_range(current_sample as int, block_samples as int, latest_rx_block),
        call_ensures(
            TxDsp::process_block,
            (tx, current_sample, block_samples, latest_rx_block, timing),
            out,
        ),
    ensures
        ({
            let current = current_sample as int / block_samples as int;
            let min = old(tx).timing_config.min_ahead_blocks;
            let late = old(tx).block_count - current < min;
            let moved = !old(tx).schedule_initialized || late;
            let skipped = final(tx).block_count - old(tx).block_count;
            &&& moved ==> final(tx).block_count == current + min
            &&& !moved ==> final(tx).block_count == old(tx).block_count
            &&& final(tx).schedule_initialized
            &&& final(tx).direct_modem == old(tx).direct_modem
            &&& final(tx).timing_config == old(tx).timing_config
            &&& out.align is Some <==> old(tx).direct_modem && moved
            &&& out.align matches Some(sample) ==> sample == final(tx).block_count * block_samples
            &&& old(tx).schedule_initialized && late ==> {
                &&& skipped > 0
                &&& final(timing).late_tx_events == at_most(
                    old(timing).late_tx_events + 1,
                    u64::MAX as int,
                )
                &&& final(timing).late_tx_blocks == at_most(
                    old(timing).late_tx_blocks + skipped,
                    u64::MAX as int,
                )
            }
            &&& !(old(tx).schedule_initialized && late) ==> *final(timing) == *old(timing)
            &&& final(timing).tx_write_errors == old(timing).tx_write_errors
            &&& final(timing).rx_sample_gaps == old(timing).rx_sample_gaps
            &&& final(timing).rx_sample_gap_samples == old(timing).rx_sample_gap_samples
            &&& final(timing).rxtx_timeslots == old(timing).rxtx_timeslots
        }),
{
}

/// The counts can be reckoned with just where the distance of the next block, the scheduled block,
/// what is left out, the sample at which the modulators take up the slot and the distance to the
/// received block can each be held where they are needed.
pub proof fn schedule_is_refused_where_counts_run_over(
    tx: &TxDsp,
    current_sample: SampleCount,
    block_samples: usize,
    latest_rx_block: Option<BlockCount>,
    r: bool,
)
    requires
        0 < block_samples <= i64::MAX,
        call_ensures(
            TxDsp::can_plan,
            (tx, current_sample, block_samples, latest_rx_block),
            r,
        ),
    ensures
        ({
            let current = current_sample as int / block_samples as int;
            let ahead = tx.block_count - current;
            let moved = !tx.schedule_initialized || ahead < tx.timing_config.min_ahead_blocks;
            let block = if moved {
                current + tx.timing_config.min_ahead_blocks
            } else {
                tx.block_count as int
            };
            let first = block * block_samples;
            r <==> {
                &&& i64::MIN <= ahead <= i64::MAX
                &&& i64::MIN <= block <= i64::MAX
                &&& moved && tx.schedule_initialized ==> i64::MIN <= block - tx.block_count
                    <= i64::MAX
                &&& moved && tx.direct_modem ==> i64::MIN <= first <= i64::MAX
                &&& ahead <= tx.timing_config.max_ahead_blocks ==> (latest_rx_block matches Some(rx)
                    ==> i64::MIN <= block - rx <= i64::MAX)
            }
        }),
{
}

/// A new schedule has not begun: its first block, whatever the time, is at the minimum distance.
pub proof fn new_schedule_has_not_begun(
    direct_modem: bool,
    timing_config: TxTimingConfig,
    out: TxDsp,
)
    requires
        call_ensures(TxDsp::new, (direct_modem, timing_config), out),
    ensures
        !out.schedule_initialized,
        out.block_count == 0,
        out.direct_modem == direct_modem,
        out.timing_config == timing_config,
{
}

/// A block that is taken begins where its number says, and the next one is the one after it.
/// Nothing else of the schedule changes.
pub proof fn taken_block_begins_at_its_place(tx: &mut TxDsp, len: usize, out: SampleCount)
    requires
        tx.block_count < i64::MAX,
        call_ensures(TxDsp::take_block, (tx, len), out),
    ensures
        out == old(tx).block_count * len,
        final(tx).block_count == old(tx).block_count + 1,
        final(tx).direct_modem == old(tx).direct_modem,
        final(tx).schedule_initialized == old(tx).schedule_initialized,
        final(tx).timing_config == old(tx).timing_config,
{
}

/// After a block that was sent, a further one can be produced. An error is counted once, and given
/// back as it is.
pub proof fn failed_sending_is_counted(
    sent: Result<(), RxTxDevError>,
    timing: &mut PhyTimingCounters,
    out: Result<bool, RxTxDevError>,
)
    requires
        call_ensures(block_sent, (sent, timing), out),
    ensures
        sent is Ok ==> out == Ok::<bool, RxTxDevError>(true) && *final(timing) == *old(timing),
        sent matches Err(e) ==> (out matches Err(given) && given@ == e@),
        sent is Err ==> final(timing).tx_write_errors == at_most(
            old(timing).tx_write_errors + 1,
            u64::MAX as int,
        ),
        final(timing).late_tx_events == old(timing).late_tx_events,
        final(timing).late_tx_blocks == old(timing).late_tx_blocks,
        final(timing).rx_sample_gaps == old(timing).rx_sample_gaps,
        final(timing).rx_sample_gap_samples == old(timing).rx_sample_gap_samples,
        final(timing).rxtx_timeslots == old(timing).rxtx_timeslots,
{
}

/// A setting that is a number stands for that number, but for no less than the minimum; without
/// setting, or where it is no number, the default holds.
pub proof fn settings_are_held_to_the_minimum(
    text: &str,
    default: BlockCount,
    min: BlockCount,
    out: BlockCount,
    without: BlockCount,
    number: Option<i64>,
)
    requires
        call_ensures(read_env_block_count, (Some(text), default, min), out),
        call_ensures(read_env_block_count, (None::<&str>, default, min), without),
        call_ensures(parse_signed, (text,), number),
    ensures
        without == default,
        number is None ==> out == default,
        number matches Some(n) ==> out == if n >= min {
            n
        } else {
            min
        },
{
}

/// Each of the three settings stands in its place. Without settings, the distances are the default
/// minimum and sixty blocks; those that are set are at least one block, and no maximum that is set
/// is less than the minimum.
pub proof fn each_setting_stands_in_its_place(
    default_min: BlockCount,
    min_ahead: Option<&str>,
    max_ahead: Option<&str>,
    max_rx_ahead: Option<&str>,
    out: TxTimingConfig,
    min: BlockCount,
    max: BlockCount,
    max_rx: BlockCount,
)
    requires
        call_ensures(
            TxTimingConfig::from_env,
            (default_min, min_ahead, max_ahead, max_rx_ahead),
            out,
        ),
        call_ensures(read_env_block_count, (min_ahead, default_min, 1i64), min),
        call_ensures(read_env_block_count, (max_ahead, 60i64, min), max),
        call_ensures(read_env_block_count, (max_rx_ahead, 60i64, min), max_rx),
    ensures
        out.min_ahead_blocks == min,
        out.max_ahead_blocks == max,
        out.max_rx_ahead_blocks == max_rx,
        min_ahead is None ==> out.min_ahead_blocks == default_min,
        max_ahead is None ==> out.max_ahead_blocks == 60,
        max_rx_ahead is None ==> out.max_rx_ahead_blocks == 60,
{
}

/// The samples of a block are wanted one after the other, from its first to its last; each that is
/// put stands in its place, and those before it stay.
pub proof fn samples_fill_a_block_in_order<S: Copy>(
    channel: &mut ModulatorChannel<S>,
    sample: S,
    out: (),
    block: BlockCount,
    wanted: Option<SampleCount>,
)
    requires
        channel.buffer_i < channel.buffer@.len(),
        i64::MIN <= block * channel.buffer@.len() + channel.buffer_i <= i64::MAX,
        call_ensures(ModulatorChannel::<S>::wanted, (&*channel, block), wanted),
        call_ensures(ModulatorChannel::<S>::put, (channel, sample), out),
    ensures
        wanted matches Some(count) && count == block * old(channel).buffer@.len() + old(
            channel,
        ).buffer_i,
        final(channel).buffer_i == old(channel).buffer_i + 1,
        final(channel).buffer@.len() == old(channel).buffer@.len(),
        final(channel).buffer@[old(channel).buffer_i as int] == sample,
        forall|i: int|
            0 <= i < old(channel).buffer@.len() && i != old(channel).buffer_i ==> (
            #[trigger] final(channel).buffer@[i]) == old(channel).buffer@[i],
{
}

/// Nothing is wanted for a complete block. Beginning the next one wants its first sample and leaves
/// the samples; room for blocks of another length begins with silence, and room for the same length
/// changes nothing.
pub proof fn blocks_begin_at_their_first_sample<S: Copy>(
    channel: &mut ModulatorChannel<S>,
    out: (),
    sized: &mut ModulatorChannel<S>,
    len: usize,
    silence: S,
    done: (),
    fresh: ModulatorChannel<S>,
    full: &ModulatorChannel<S>,
    block: BlockCount,
    wanted: Option<SampleCount>,
)
    requires
        call_ensures(ModulatorChannel::<S>::start_over, (channel,), out),
        call_ensures(ModulatorChannel::<S>::set_len, (sized, len, silence), done),
        call_ensures(ModulatorChannel::<S>::new, (), fresh),
        full.buffer_i >= full.buffer@.len(),
        call_ensures(ModulatorChannel::<S>::wanted, (full, block), wanted),
    ensures
        final(channel).buffer_i == 0,
        final(channel).buffer@ == old(channel).buffer@,
        final(sized).buffer@.len() == len,
        old(sized).buffer@.len() == len ==> final(sized).buffer@ == old(sized).buffer@
            && final(sized).buffer_i == old(sized).buffer_i,
        old(sized).buffer@.len() != len ==> final(sized).buffer_i == 0 && forall|i: int|
            0 <= i < len ==> (#[trigger] final(sized).buffer@[i]) == silence,
        fresh.buffer@.len() == 0 && fresh.buffer_i == 0,
        wanted is None,
{
}

/// A reduction of the drive is warned of where none was warned of for 6000 blocks without one. A
/// block without reduction brings the next warning nearer by one.
pub proof fn warnings_are_spaced(
    w: &mut HeadroomWarnings,
    warn: bool,
    v: &mut HeadroomWarnings,
    out: (),
)
    requires
        call_ensures(HeadroomWarnings::reduced, (w,), warn),
        call_ensures(HeadroomWarnings::recovered, (v,), out),
    ensures
        warn <==> old(w).warn_cooldown_blocks == 0,
        warn ==> final(w).warn_cooldown_blocks == 6000,
        !warn ==> final(w).warn_cooldown_blocks == old(w).warn_cooldown_blocks,
        old(v).warn_cooldown_blocks > 0 ==> final(v).warn_cooldown_blocks == old(
            v,
        ).warn_cooldown_blocks - 1,
        old(v).warn_cooldown_blocks == 0 ==> final(v).warn_cooldown_blocks == 0,
{
}

} // verus!
