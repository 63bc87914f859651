//! One receive channel: how its samples are read and what is played when some are missing.

use vstd::prelude::*;
use crate::common::{clock_distance, wrapped_diff, Clock, Sample};
use crate::ring_buffer::{
    law_found_samples_have_the_timestamp, law_samples_are_found_by_timestamp,
    law_useful_part_is_window_part, RBOutput, ReadResult,
};

verus! {

/// A callback reader that is further behind than this skips to the newest block.
pub const SANE_CLOCK_DIFF: usize = 192000;

/// After how many blocks of silence in a row there is a warning; ten times as many lie between the
/// later ones.
pub const ZERO_FILL_WARN_PERIODS: usize = 1000;

/// A receive channel that is connected to a sample source.
#[derive(Debug, Clone)]
pub struct Channel {
    pub id: usize,
    pub source: RBOutput,
    pub prev_holes_count: usize,
    pub latency_samples: Clock,
    pub was_connected: bool,
    pub callback_cursor: Option<Clock>,
    pub callback_zero_fills: usize,
}

/// What the next callback block of a channel is made of.
#[derive(Debug, Clone, Copy, PartialEq, Eq, Structural)]
pub enum CallbackPlan {
    /// Silence, and reading begins at the newest sample from now on.
    Bootstrap,
    /// Silence: nothing has arrived, or only part of a block.
    Silence { partial: bool },
    /// The samples from `start` on.
    Read { start: Clock },
}

/// Why samples were lost.
#[derive(Debug, Clone, Copy, PartialEq, Eq, Structural)]
pub enum LossReason {
    /// The writing side has given up waiting for packets.
    ReorderTimeout,
    /// The beginning of a block is not there any more, or was never there.
    UnderrunOrOverwritten,
    /// The end of a block is not there yet.
    Underrun,
}

/// A number of samples that were lost from a timestamp on.
#[derive(Debug, Clone, Copy, PartialEq, Eq, Structural)]
pub struct LossReport {
    pub timestamp: Clock,
    pub num_samples: usize,
    pub reason: LossReason,
}

/// `report` if there is something to report, and nothing otherwise.
pub open spec fn report_if(lost: bool, report: LossReport) -> Seq<LossReport> {
    if lost {
        seq![report]
    } else {
        Seq::empty()
    }
}

/// Whether there is a warning after `zero_fills` blocks of silence in a row.
pub open spec fn silence_is_warned_of(zero_fills: int) -> bool {
    zero_fills > 0 && (zero_fills == ZERO_FILL_WARN_PERIODS || zero_fills % (
    ZERO_FILL_WARN_PERIODS * 10) == 0)
}

impl Channel {
    /// The channel after its ring reported `holes` gaps and a read found samples at
    /// `useful_start..useful_end`.
    pub open spec fn after_result(self, holes: usize, useful_start: int, useful_end: int) -> Channel {
        Channel {
            prev_holes_count: holes,
            was_connected: self.was_connected || useful_start < useful_end,
            ..self
        }
    }

    /// Whether a read of `n` samples lost nothing: there was no new gap, and a channel that has
    /// ever delivered samples filled the block from its beginning to its end.
    pub open spec fn result_is_good(
        self,
        holes: usize,
        useful_start: int,
        useful_end: int,
        n: int,
    ) -> bool {
        &&& holes == self.prev_holes_count
        &&& useful_start != 0 ==> !self.was_connected
        &&& useful_end != n ==> !self.was_connected && useful_start >= useful_end
    }

    /// What is lost by a read of `n` samples from `start`, given what its ring reported and which
    /// part of the block it found.
    pub open spec fn losses(self, start: Clock, holes: usize, r: ReadResult, n: usize) -> Seq<
        LossReport,
    > {
        report_if(
            holes != self.prev_holes_count,
            LossReport { timestamp: start, num_samples: n, reason: LossReason::ReorderTimeout },
        ) + report_if(
            r.useful_start_index != 0 && self.was_connected,
            LossReport {
                timestamp: start,
                num_samples: r.useful_start_index,
                reason: LossReason::UnderrunOrOverwritten,
            },
        ) + report_if(
            r.useful_end_index != n && (self.was_connected || r.useful_start_index
                < r.useful_end_index),
            LossReport {
                timestamp: start.wrapping_add(r.useful_end_index),
                num_samples: (n - r.useful_end_index) as usize,
                reason: LossReason::Underrun,
            },
        )
    }

    /// The channel after a read of `n` samples from `start`.
    pub open spec fn after_read(self, start: Clock, n: int) -> Channel {
        self.after_result(
            self.source.holes_count,
            self.source.useful_start(start, n),
            self.source.useful_end(start, n),
        )
    }

    /// Whether a read of `n` samples from `start` loses nothing.
    pub open spec fn read_is_good(self, start: Clock, n: int) -> bool {
        self.result_is_good(
            self.source.holes_count,
            self.source.useful_start(start, n),
            self.source.useful_end(start, n),
            n,
        )
    }

    /// Item `j` of a block that is read from `start`: the sample, or silence where there is none.
    pub open spec fn heard(self, start: Clock, j: int) -> Sample {
        if self.source.has(start, j) {
            self.source.sample(start, j)
        } else {
            0
        }
    }

    /// The channel after one more block of silence.
    pub open spec fn after_silence(self) -> Channel {
        Channel { callback_zero_fills: self.callback_zero_fills.saturating_add(1), ..self }
    }

    /// What the next callback block of `block_size` samples is made of.
    pub open spec fn plan(self, block_size: usize) -> CallbackPlan {
        match self.callback_cursor {
            None => CallbackPlan::Bootstrap,
            Some(cursor) => {
                let available = clock_distance(self.source.readable_until, cursor);
                if available <= 0 {
                    CallbackPlan::Silence { partial: false }
                } else if available > SANE_CLOCK_DIFF {
                    CallbackPlan::Read { start: self.source.readable_until.wrapping_sub(block_size) }
                } else if available < block_size {
                    CallbackPlan::Silence { partial: true }
                } else {
                    CallbackPlan::Read { start: cursor }
                }
            },
        }
    }

    /// The channel after its next callback block of `block_size` samples.
    pub open spec fn after_callback_block(self, block_size: usize) -> Channel {
        match self.plan(block_size) {
            CallbackPlan::Bootstrap => Channel {
                callback_cursor: Some(self.source.readable_until),
                ..self.after_silence()
            },
            CallbackPlan::Silence { .. } => self.after_silence(),
            CallbackPlan::Read { start } => Channel {
                callback_cursor: Some(start.wrapping_add(block_size)),
                callback_zero_fills: 0,
                ..self.after_read(start, block_size as int)
            },
        }
    }

    /// Item `j` of the next callback block of `block_size` samples.
    pub open spec fn callback_sample(self, block_size: usize, j: int) -> Sample {
        match self.plan(block_size) {
            CallbackPlan::Read { start } => self.heard(start, j),
            _ => 0,
        }
    }

    /// Whether a callback block of `block_size` samples has arrived, or so much that the reader
    /// has to skip ahead.
    pub open spec fn block_ready(self, block_size: usize) -> bool {
        match self.callback_cursor {
            None => false,
            Some(cursor) => {
                let available = clock_distance(self.source.readable_until, cursor);
                (available > 0 && available >= block_size) || available > SANE_CLOCK_DIFF
            },
        }
    }

    /// The channel with reading begun at its newest sample, unless it had begun already.
    pub open spec fn bootstrapped(self) -> Channel {
        Channel {
            callback_cursor: Some(
                match self.callback_cursor {
                    Some(cursor) => cursor,
                    None => self.source.readable_until,
                },
            ),
            ..self
        }
    }

    /// A newly connected channel at position `channel_index`: its number counts from 1, and it
    /// has delivered nothing yet.
    pub open spec fn connected_spec(
        channel_index: usize,
        source: RBOutput,
        latency_samples: usize,
    ) -> Channel {
        Channel {
            id: (channel_index + 1) as usize,
            source,
            prev_holes_count: 0,
            latency_samples,
            was_connected: false,
            callback_cursor: None,
            callback_zero_fills: 0,
        }
    }

    /// A newly connected channel at position `channel_index`.
    pub fn connected(channel_index: usize, source: RBOutput, latency_samples: usize) -> (ch: Self)
        requires
            channel_index < usize::MAX,
        ensures
            ch == Channel::connected_spec(channel_index, source, latency_samples),
    {
        Channel {
            id: channel_index + 1,
            source,
            prev_holes_count: 0,
            latency_samples,
            was_connected: false,
            callback_cursor: None,
            callback_zero_fills: 0,
        }
    }

    /// Takes in the outcome of a read into `buffer`: `holes_count` is what the ring reports, and
    /// `r` says which part of `buffer` holds samples. Silences the rest of `buffer` and says
    /// whether nothing was lost.
    pub fn absorb_read(
        &mut self,
        holes_count: usize,
        r: ReadResult,
        buffer: &mut [Sample],
    ) -> (good: bool)
        requires
            r.useful_start_index <= old(buffer)@.len(),
            r.useful_end_index <= old(buffer)@.len(),
        ensures
            *final(self) == old(self).after_result(
                holes_count,
                r.useful_start_index as int,
                r.useful_end_index as int,
            ),
            good == old(self).result_is_good(
                holes_count,
                r.useful_start_index as int,
                r.useful_end_index as int,
                old(buffer)@.len() as int,
            ),
            final(buffer)@.len() == old(buffer)@.len(),
            forall|j: int|
                0 <= j < final(buffer)@.len() ==> #[trigger] final(buffer)@[j]
                    == if r.useful_start_index <= j < r.useful_end_index {
                    old(buffer)@[j]
                } else {
                    0
                },
    {
        let mut good: bool = true;
        if holes_count != self.prev_holes_count {
            self.prev_holes_count = holes_count;
            good = false;
        }
        if r.useful_start_index != 0 {
            if self.was_connected {
                good = false;
            }
            fill_zeros(buffer, 0, r.useful_start_index);
        }
        if r.useful_start_index < r.useful_end_index {
            self.was_connected = true;
        }
        let n: usize = buffer.len();
        if r.useful_end_index != n {
            if self.was_connected {
                good = false;
            }
            fill_zeros(buffer, r.useful_end_index, n);
        }
        good
    }

    /// Finds what is lost by a read of `n` samples from `start_timestamp`, before `absorb_read` takes
    /// its outcome in.
    pub fn lost_samples(
        &self,
        start_timestamp: Clock,
        holes_count: usize,
        r: ReadResult,
        n: usize,
    ) -> (reports: Vec<LossReport>)
        requires
            r.useful_end_index <= n,
        ensures
            reports@ == self.losses(start_timestamp, holes_count, r, n),
    {
        let mut reports: Vec<LossReport> = Vec::new();
        if holes_count != self.prev_holes_count {
            reports.push(
                LossReport {
                    timestamp: start_timestamp,
                    num_samples: n,
                    reason: LossReason::ReorderTimeout,
                },
            );
        }
        if r.useful_start_index != 0 && self.was_connected {
            reports.push(
                LossReport {
                    timestamp: start_timestamp,
                    num_samples: r.useful_start_index,
                    reason: LossReason::UnderrunOrOverwritten,
                },
            );
        }
        if r.useful_end_index != n && (self.was_connected || r.useful_start_index
            < r.useful_end_index) {
            reports.push(
                LossReport {
                    timestamp: start_timestamp.wrapping_add(r.useful_end_index),
                    num_samples: n - r.useful_end_index,
                    reason: LossReason::Underrun,
                },
            );
        }
        assert(reports@ =~= self.losses(start_timestamp, holes_count, r, n));
        reports
    }

    /// Finds what `read_samples_from_ringbuffer` will lose.
    pub fn read_losses(&self, start_timestamp: Clock, n: usize) -> (reports: Vec<LossReport>)
        ensures
            reports@ == self.losses(
                start_timestamp,
                self.source.holes_count,
                self.source.useful(start_timestamp, n),
                n,
            ),
    {
        let r: ReadResult = self.source.useful_part(start_timestamp, n);
        self.lost_samples(start_timestamp, self.source.holes_count(), r, n)
    }

    /// Says whether the silence that the channel has been filled with is to be warned of.
    pub fn silence_warning_due(&self) -> (due: bool)
        ensures
            due == silence_is_warned_of(self.callback_zero_fills as int),
    {
        self.callback_zero_fills > 0 && (self.callback_zero_fills == ZERO_FILL_WARN_PERIODS
            || self.callback_zero_fills % (ZERO_FILL_WARN_PERIODS * 10) == 0)
    }

    /// Where in its source the channel is read for a block of `n` samples that ends at `timestamp`:
    /// the latency and the block itself lie between.
    pub open spec fn due_at(self, timestamp: Clock, n: usize) -> Clock {
        timestamp.wrapping_sub(self.latency_samples).wrapping_sub(n)
    }

    /// Where in its source to read a block of `n` samples that ends at `timestamp`.
    pub fn read_position(&self, timestamp: Clock, n: usize) -> (start: Clock)
        ensures
            start == self.due_at(timestamp, n),
    {
        timestamp.wrapping_sub(self.latency_samples).wrapping_sub(n)
    }

    /// Fills `buffer` with the samples from `start_timestamp` on, with silence where there are
    /// none, and says whether nothing was lost.
    pub fn read_samples_from_ringbuffer(
        &mut self,
        start_timestamp: Clock,
        buffer: &mut [Sample],
    ) -> (good: bool)
        ensures
            *final(self) == old(self).after_read(start_timestamp, old(buffer)@.len() as int),
            good == old(self).read_is_good(start_timestamp, old(buffer)@.len() as int),
            final(buffer)@.len() == old(buffer)@.len(),
            forall|j: int|
                0 <= j < final(buffer)@.len() ==> #[trigger] final(buffer)@[j] == old(self).heard(
                    start_timestamp,
                    j,
                ),
    {
        let holes_count: usize = self.source.holes_count();
        let r: ReadResult = self.source.read_at(start_timestamp, buffer);
        self.absorb_read(holes_count, r, buffer)
    }

    /// Decides what the next callback block of `block_size` samples is made of.
    pub fn plan_callback_block(&self, block_size: usize) -> (plan: CallbackPlan)
        ensures
            plan == self.plan(block_size),
    {
        let readable_until: Clock = self.source.readable_until();
        match self.callback_cursor {
            None => CallbackPlan::Bootstrap,
            Some(cursor) => {
                let available: isize = wrapped_diff(readable_until, cursor);
                if available <= 0 {
                    CallbackPlan::Silence { partial: false }
                } else if available as usize > SANE_CLOCK_DIFF {
                    CallbackPlan::Read { start: readable_until.wrapping_sub(block_size) }
                } else if (available as usize) < block_size {
                    CallbackPlan::Silence { partial: true }
                } else {
                    CallbackPlan::Read { start: cursor }
                }
            },
        }
    }

    /// Puts the next `block_size` samples of the channel at the beginning of `buffer`: the block
    /// at the cursor, the newest block if the cursor is too far behind, or silence if too little
    /// has arrived.
    pub fn read_callback_block(&mut self, block_size: usize, buffer: &mut [Sample])
        requires
            block_size <= old(buffer)@.len(),
        ensures
            *final(self) == old(self).after_callback_block(block_size),
            final(buffer)@.len() == old(buffer)@.len(),
            forall|j: int|
                0 <= j < final(buffer)@.len() ==> #[trigger] final(buffer)@[j] == if j
                    < block_size {
                    old(self).callback_sample(block_size, j)
                } else {
                    old(buffer)@[j]
                },
    {
        let (block, _rest) = buffer.split_at_mut(block_size);
        match self.plan_callback_block(block_size) {
            CallbackPlan::Bootstrap => {
                self.callback_cursor = Some(self.source.readable_until());
                self.fill_callback_zeros(block);
            },
            CallbackPlan::Silence { .. } => {
                self.fill_callback_zeros(block);
            },
            CallbackPlan::Read { start } => {
                self.read_samples_from_ringbuffer(start, block);
                self.callback_cursor = Some(start.wrapping_add(block_size));
                self.callback_zero_fills = 0;
            },
        }
    }

    /// Silences `buffer` and counts the block.
    pub fn fill_callback_zeros(&mut self, buffer: &mut [Sample])
        ensures
            *final(self) == old(self).after_silence(),
            final(buffer)@.len() == old(buffer)@.len(),
            forall|j: int| 0 <= j < final(buffer)@.len() ==> #[trigger] final(buffer)@[j] == 0,
    {
        let n: usize = buffer.len();
        fill_zeros(buffer, 0, n);
        self.callback_zero_fills = self.callback_zero_fills.saturating_add(1);
    }

    /// Says whether a callback block has arrived; a channel that has not begun to read begins at
    /// its newest sample.
    pub fn check_block_ready(&mut self, block_size: usize) -> (ready: bool)
        ensures
            *final(self) == old(self).bootstrapped(),
            ready == old(self).block_ready(block_size),
    {
        let readable_until: Clock = self.source.readable_until();
        match self.callback_cursor {
            None => {
                self.callback_cursor = Some(readable_until);
                false
            },
            Some(cursor) => {
                let available: isize = wrapped_diff(readable_until, cursor);
                if available > 0 && available as usize >= block_size {
                    true
                } else {
                    available > SANE_CLOCK_DIFF as isize
                }
            },
        }
    }
}

/// Silences the items `from..to` of `buffer`.
pub fn fill_zeros(buffer: &mut [Sample], from: usize, to: usize)
    requires
        from <= to <= old(buffer)@.len(),
    ensures
        final(buffer)@.len() == old(buffer)@.len(),
        forall|j: int|
            0 <= j < final(buffer)@.len() ==> #[trigger] final(buffer)@[j] == if from <= j < to {
                0
            } else {
                old(buffer)@[j]
            },
{
    let mut i: usize = from;
    while i < to
        invariant
            from <= i <= to,
            to <= buffer@.len(),
            buffer@.len() == old(buffer)@.len(),
            forall|j: int|
                0 <= j < buffer@.len() ==> #[trigger] buffer@[j] == if from <= j < i {
                    0
                } else {
                    old(buffer)@[j]
                },
        decreases to - i,
    {
        buffer[i] = 0;
        i += 1;
    }
}

/// A channel delivers samples exactly when a block is ready, and silence otherwise.
pub proof fn law_ready_means_samples(ch: Channel, block_size: usize)
    ensures
        ch.block_ready(block_size) <==> ch.plan(block_size) is Read,
{
}

/// A block of silence is counted and a block of samples ends the count, so the count is zero
/// after a block exactly when the block held samples.
pub proof fn law_silence_is_counted(ch: Channel, block_size: usize)
    ensures
        ch.after_callback_block(block_size).callback_zero_fills == 0 <==> ch.plan(
            block_size,
        ) is Read,
{
}

/// After every callback block the channel knows where to read on, and that place is neither
/// beyond what has arrived nor before the place where it stood, as long as the channel delivers.
pub proof fn law_cursor_moves_with_the_samples(ch: Channel, block_size: usize)
    requires
        block_size <= isize::MAX,
    ensures
        ch.after_callback_block(block_size).callback_cursor is Some,
        ch.plan(block_size) !is Silence ==> clock_distance(
            ch.source.readable_until,
            ch.after_callback_block(block_size).callback_cursor->0,
        ) >= 0,
        ch.plan(block_size) is Silence ==> ch.after_callback_block(block_size).callback_cursor
            == ch.callback_cursor,
        ch.callback_cursor is Some ==> clock_distance(
            ch.after_callback_block(block_size).callback_cursor->0,
            ch.callback_cursor->0,
        ) >= 0,
{
}

/// A reader that does not lag too far plays on where it stopped, whatever has arrived since: a
/// block that follows a block of samples begins right behind it, and one that follows silence
/// begins where the reader stood.
pub proof fn law_blocks_are_contiguous(ch: Channel, later: RBOutput, block_size: usize, j: int)
    requires
        ch.callback_cursor is Some,
        clock_distance(ch.source.readable_until, ch.callback_cursor->0) <= SANE_CLOCK_DIFF,
        clock_distance(
            later.readable_until,
            ch.after_callback_block(block_size).callback_cursor->0,
        ) <= SANE_CLOCK_DIFF,
    ensures
        ({
            let next = Channel { source: later, ..ch.after_callback_block(block_size) };
            let cursor = ch.callback_cursor->0;
            let start = if ch.plan(block_size) is Read {
                cursor.wrapping_add(block_size)
            } else {
                cursor
            };
            &&& ch.plan(block_size) is Read ==> ch.plan(block_size) == CallbackPlan::Read {
                start: cursor,
            }
            &&& next.plan(block_size) is Read ==> {
                &&& next.plan(block_size) == CallbackPlan::Read { start }
                &&& next.callback_sample(block_size, j) == next.heard(start, j)
            }
        }),
{
}

/// A reader that has fallen too far behind plays the newest block next and then stands at the
/// newest sample.
pub proof fn law_resync_plays_newest_block(ch: Channel, block_size: usize, j: int)
    requires
        0 <= ch.source.offset_of(ch.source.readable_until.wrapping_sub(block_size)),
        ch.source.offset_of(ch.source.readable_until.wrapping_sub(block_size)) + block_size
            <= ch.source.samples@.len(),
        ch.callback_cursor is Some,
        clock_distance(ch.source.readable_until, ch.callback_cursor->0) > SANE_CLOCK_DIFF,
        0 <= j < block_size,
    ensures
        ch.callback_sample(block_size, j) == ch.source.samples@[ch.source.offset_of(
            ch.source.readable_until.wrapping_sub(block_size),
        ) + j],
        ch.after_callback_block(block_size).callback_cursor == Some(ch.source.readable_until),
{
}

/// A block that has arrived whole is played as it is, whatever the epoch of the timestamps.
pub proof fn law_arrived_block_is_played(ch: Channel, block_size: usize, j: int)
    requires
        ch.callback_cursor is Some,
        0 <= ch.source.offset_of(ch.callback_cursor->0),
        ch.source.offset_of(ch.callback_cursor->0) + block_size <= ch.source.samples@.len(),
        block_size <= clock_distance(ch.source.readable_until, ch.callback_cursor->0)
            <= SANE_CLOCK_DIFF,
        0 <= j < block_size,
    ensures
        ch.callback_sample(block_size, j) == ch.source.samples@[ch.source.offset_of(
            ch.callback_cursor->0,
        ) + j],
        ch.after_callback_block(block_size).callback_cursor == Some(
            (ch.callback_cursor->0).wrapping_add(block_size),
        ),
{
}

/// Reading never changes which channel it is, its latency or its source, and a channel that has
/// delivered samples once counts as connected from then on.
pub proof fn law_reading_keeps_the_channel(ch: Channel, start: Clock, n: int, block_size: usize)
    ensures
        ch.after_read(start, n).id == ch.id,
        ch.after_read(start, n).latency_samples == ch.latency_samples,
        ch.after_read(start, n).source == ch.source,
        ch.was_connected ==> ch.after_read(start, n).was_connected,
        ch.after_callback_block(block_size).id == ch.id,
        ch.after_callback_block(block_size).latency_samples == ch.latency_samples,
        ch.after_callback_block(block_size).source == ch.source,
        ch.was_connected ==> ch.after_callback_block(block_size).was_connected,
{
}

/// A gap is reported once: after a read with any outcome, a read of any whole block from a source
/// that reports no further gap loses nothing.
pub proof fn law_gap_is_reported_once(
    ch: Channel,
    first: ReadResult,
    later: RBOutput,
    start: Clock,
    n: int,
)
    requires
        later.useful_start(start, n) == 0,
        later.useful_end(start, n) == n,
    ensures
        ({
            let next = Channel {
                source: later,
                ..ch.after_result(
                    later.holes_count,
                    first.useful_start_index as int,
                    first.useful_end_index as int,
                )
            };
            next.read_is_good(start, n)
        }),
{
}

/// A read loses nothing exactly when there is nothing to report of it.
pub proof fn law_every_loss_is_reported(
    ch: Channel,
    start: Clock,
    holes: usize,
    r: ReadResult,
    n: usize,
)
    ensures
        ch.result_is_good(
            holes,
            r.useful_start_index as int,
            r.useful_end_index as int,
            n as int,
        ) <==> ch.losses(start, holes, r, n).len() == 0,
{
}

/// A channel that stays silent is warned of after the first thousand blocks, not before, and then
/// once in every ten thousand.
pub proof fn law_silence_warnings_are_rare(zero_fills: int)
    ensures
        0 <= zero_fills < 10000 ==> (silence_is_warned_of(zero_fills) <==> zero_fills == 1000),
        zero_fills >= 10000 ==> (silence_is_warned_of(zero_fills) <==> zero_fills % 10000 == 0),
{
}

/// A block that is due at a timestamp ends the latency of the channel before it, however long it
/// is. Requests that follow each other at the distance of their length read blocks that adjoin.
pub proof fn law_due_block_ends_at_the_latency(ch: Channel, timestamp: Clock, n: usize, m: usize)
    ensures
        ch.due_at(timestamp, n).wrapping_add(n).wrapping_add(ch.latency_samples) == timestamp,
        ch.due_at(timestamp.wrapping_add(m), m) == ch.due_at(timestamp, n).wrapping_add(n),
{
}

/// A read hears each sample at the item of the block that has its timestamp, and silence where no
/// sample of the window has the timestamp.
pub proof fn law_heard_by_timestamp(ch: Channel, start: Clock, j: usize, k: usize)
    requires
        ch.source.samples@.len() <= isize::MAX,
        j <= isize::MAX,
    ensures
        k < ch.source.samples@.len() && ch.source.window_start.wrapping_add(k)
            == start.wrapping_add(j) ==> ch.heard(start, j as int)
            == ch.source.samples@[k as int],
        (forall|i: usize|
            i < ch.source.samples@.len() ==> #[trigger] ch.source.window_start.wrapping_add(i)
                != start.wrapping_add(j)) ==> ch.heard(start, j as int) == 0,
{
    if k < ch.source.samples@.len() && ch.source.window_start.wrapping_add(k)
        == start.wrapping_add(j) {
        law_samples_are_found_by_timestamp(ch.source, k, start, j);
    }
    if ch.source.has(start, j as int) {
        let i = law_found_samples_have_the_timestamp(ch.source, start, j);
    }
}

/// A sample is heard in the block that is due when its latency has passed: `latency_samples` and
/// the length of the block after it, counted from the item at which it stands.
pub proof fn law_samples_are_heard_after_the_latency(
    ch: Channel,
    timestamp: Clock,
    n: usize,
    j: usize,
    k: usize,
)
    requires
        ch.source.samples@.len() <= isize::MAX,
        j < n,
        j <= isize::MAX,
        k < ch.source.samples@.len(),
        ch.source.window_start.wrapping_add(k).wrapping_add(ch.latency_samples).wrapping_add(n)
            == timestamp.wrapping_add(j),
    ensures
        ch.heard(ch.due_at(timestamp, n), j as int) == ch.source.samples@[k as int],
{
    law_heard_by_timestamp(ch, ch.due_at(timestamp, n), j, k);
}

/// What a channel does next is decided by how many samples have arrived beyond the place where it
/// stands, and by nothing else: none or fewer, part of a block, a block, or so many that it skips to
/// the block that ends with the newest sample.
pub proof fn law_plan_follows_what_has_arrived(ch: Channel, block_size: usize, ahead: usize)
    requires
        ahead <= isize::MAX + 1,
    ensures
        ch.callback_cursor is None <==> ch.plan(block_size) is Bootstrap,
        ch.callback_cursor matches Some(cursor) ==> {
            let until = ch.source.readable_until;
            &&& until == cursor.wrapping_sub(ahead) ==> ch.plan(block_size)
                == CallbackPlan::Silence { partial: false }
            &&& until == cursor.wrapping_add(ahead) && 0 < ahead < block_size && ahead <= 192000
                ==> ch.plan(block_size) == CallbackPlan::Silence { partial: true }
            &&& until == cursor.wrapping_add(ahead) && 0 < ahead && block_size <= ahead <= 192000
                ==> ch.plan(block_size) == CallbackPlan::Read { start: cursor }
            &&& until == cursor.wrapping_add(ahead) && 192000 < ahead <= isize::MAX ==> (
            ch.plan(block_size) matches CallbackPlan::Read { start } && start.wrapping_add(
                block_size,
            ) == until)
        },
{
}

/// Two channels that stand at the same place of sources that have arrived equally far do the same
/// next and are ready at the same time, whatever their number, latency, gaps and history.
pub proof fn law_plan_depends_on_cursor_and_end_only(a: Channel, b: Channel, block_size: usize)
    requires
        a.callback_cursor == b.callback_cursor,
        a.source.readable_until == b.source.readable_until,
    ensures
        a.plan(block_size) == b.plan(block_size),
        a.block_ready(block_size) == b.block_ready(block_size),
{
}

/// A callback block plays the samples by their timestamps: at item `j`, the sample `j` places after
/// the place where the channel stands, or after the start of the newest block if it skips.
pub proof fn law_callback_plays_by_timestamp(
    ch: Channel,
    block_size: usize,
    ahead: usize,
    j: usize,
    k: usize,
)
    requires
        ch.source.samples@.len() <= isize::MAX,
        ch.callback_cursor is Some,
        0 < ahead <= isize::MAX,
        ch.source.readable_until == (ch.callback_cursor->0).wrapping_add(ahead),
        j < block_size,
        j <= isize::MAX,
        k < ch.source.samples@.len(),
    ensures
        block_size <= ahead <= 192000 && ch.source.window_start.wrapping_add(k) == (
        ch.callback_cursor->0).wrapping_add(j) ==> ch.callback_sample(block_size, j as int)
            == ch.source.samples@[k as int],
        ahead > 192000 && ch.source.window_start.wrapping_add(k).wrapping_add(block_size)
            == ch.source.readable_until.wrapping_add(j) ==> ch.callback_sample(
            block_size,
            j as int,
        ) == ch.source.samples@[k as int],
        ahead <= 192000 && ahead < block_size ==> ch.callback_sample(block_size, j as int) == 0,
{
    law_plan_follows_what_has_arrived(ch, block_size, ahead);
    if ch.plan(block_size) is Read {
        law_heard_by_timestamp(ch, ch.plan(block_size)->start, j, k);
    }
}

/// Until a channel has begun to read, and while nothing new has arrived, it plays silence.
pub proof fn law_waiting_channel_is_silent(ch: Channel, block_size: usize, behind: usize, j: int)
    requires
        behind <= isize::MAX + 1,
        ch.callback_cursor matches Some(cursor) ==> ch.source.readable_until
            == cursor.wrapping_sub(behind),
    ensures
        ch.callback_sample(block_size, j) == 0,
        ch.after_callback_block(block_size).callback_cursor == Some(
            match ch.callback_cursor {
                Some(cursor) => cursor,
                None => ch.source.readable_until,
            },
        ),
{
}

/// How a channel stands after a callback block: a block of samples moves it on by the block from
/// where the block began, ends the silence and takes in the gaps; silence is counted up to the
/// largest number and changes nothing else, but that the first block sets the place to read from.
pub proof fn law_callback_block_outcome(ch: Channel, block_size: usize)
    ensures
        ({
            let next = ch.after_callback_block(block_size);
            &&& ch.plan(block_size) matches CallbackPlan::Read { start } ==> {
                &&& next.callback_cursor == Some(start.wrapping_add(block_size))
                &&& next.callback_zero_fills == 0
                &&& next.prev_holes_count == ch.source.holes_count
                &&& next.was_connected <==> ch.was_connected || exists|j: int|
                    0 <= j < block_size && #[trigger] ch.source.has(start, j)
            }
            &&& ch.plan(block_size) !is Read ==> {
                &&& next.callback_zero_fills == if ch.callback_zero_fills == usize::MAX {
                    usize::MAX as int
                } else {
                    ch.callback_zero_fills + 1
                }
                &&& next.prev_holes_count == ch.prev_holes_count
                &&& next.was_connected == ch.was_connected
                &&& next.callback_cursor == if ch.callback_cursor is Some {
                    ch.callback_cursor
                } else {
                    Some(ch.source.readable_until)
                }
            }
            &&& next.id == ch.id
            &&& next.latency_samples == ch.latency_samples
            &&& next.source == ch.source
        }),
{
    if ch.plan(block_size) is Read {
        lemma_connected_by_any_sample(ch, ch.plan(block_size)->start, block_size as int);
    }
}

/// A read counts as a connection exactly if it finds a sample.
proof fn lemma_connected_by_any_sample(ch: Channel, start: Clock, n: int)
    requires
        n >= 0,
    ensures
        ch.after_read(start, n).was_connected <==> ch.was_connected || exists|j: int|
            0 <= j < n && #[trigger] ch.source.has(start, j),
{
    let first = ch.source.useful_start(start, n);
    if first < ch.source.useful_end(start, n) {
        assert(ch.source.has(start, first));
    }
    if exists|j: int| 0 <= j < n && #[trigger] ch.source.has(start, j) {
        let j = choose|j: int| 0 <= j < n && #[trigger] ch.source.has(start, j);
        law_useful_part_is_window_part(ch.source, start, n, j);
    }
}

/// How a channel stands after a read: it remembers the gaps that its source has told of, counts as
/// connected if a sample was found now or earlier, and is otherwise the same.
pub proof fn law_read_outcome(ch: Channel, start: Clock, n: int)
    requires
        n >= 0,
    ensures
        ({
            let next = ch.after_read(start, n);
            &&& next.prev_holes_count == ch.source.holes_count
            &&& next.was_connected <==> ch.was_connected || exists|j: int|
                0 <= j < n && #[trigger] ch.source.has(start, j)
            &&& next.id == ch.id
            &&& next.latency_samples == ch.latency_samples
            &&& next.source == ch.source
            &&& next.callback_cursor == ch.callback_cursor
            &&& next.callback_zero_fills == ch.callback_zero_fills
        }),
{
    lemma_connected_by_any_sample(ch, start, n);
}

/// A read from a connected channel loses nothing exactly if there is no new gap and every sample of
/// the block is there. A channel that was never connected loses nothing by a block of which nothing
/// is there, and by one of which only the beginning is missing.
pub proof fn law_good_read_misses_nothing(ch: Channel, start: Clock, n: int)
    requires
        n > 0,
    ensures
        ch.source.holes_count != ch.prev_holes_count ==> !ch.read_is_good(start, n),
        ch.source.holes_count == ch.prev_holes_count && ch.was_connected ==> (ch.read_is_good(
            start,
            n,
        ) <==> forall|j: int| 0 <= j < n ==> #[trigger] ch.source.has(start, j)),
        ch.source.holes_count == ch.prev_holes_count && !ch.was_connected ==> (ch.read_is_good(
            start,
            n,
        ) <==> ch.source.has(start, n - 1) || forall|j: int|
            0 <= j < n ==> !(#[trigger] ch.source.has(start, j))),
{
    let first = ch.source.useful_start(start, n);
    let end = ch.source.useful_end(start, n);
    assert forall|j: int| 0 <= j < n implies #[trigger] ch.source.has(start, j) == (first <= j
        < end) by {
        law_useful_part_is_window_part(ch.source, start, n, j);
    }
    law_useful_part_is_window_part(ch.source, start, n, 0);
    assert(ch.source.has(start, 0) == (first <= 0 < end));
    assert(ch.source.has(start, n - 1) == (first <= n - 1 < end));
    if first < end {
        assert(ch.source.has(start, first));
    }
}

/// Any outcome of a read is taken in the same way: the gaps are remembered, samples connect the
/// channel, and nothing is lost exactly if there is no new gap and, for a channel that has
/// samples now or had them earlier, the block reaches its end, and, for one that had them earlier,
/// its beginning.
pub proof fn law_outcome_of_any_read(ch: Channel, holes: usize, first: int, end: int, n: int)
    ensures
        ({
            let next = ch.after_result(holes, first, end);
            let good = ch.result_is_good(holes, first, end, n);
            &&& next.prev_holes_count == holes
            &&& next.was_connected <==> ch.was_connected || first < end
            &&& next.id == ch.id
            &&& next.latency_samples == ch.latency_samples
            &&& next.source == ch.source
            &&& next.callback_cursor == ch.callback_cursor
            &&& next.callback_zero_fills == ch.callback_zero_fills
            &&& holes != ch.prev_holes_count ==> !good
            &&& holes == ch.prev_holes_count && first == 0 && end == n ==> good
            &&& first != 0 && ch.was_connected ==> !good
            &&& end != n && next.was_connected ==> !good
            &&& holes == ch.prev_holes_count && !next.was_connected ==> good
            &&& holes == ch.prev_holes_count && !ch.was_connected && end == n ==> good
        }),
{
}

/// The reports of a read: a new gap for the whole block, the missing beginning, and the missing end,
/// which reaches to the end of the block; each once and in this order, and nothing else.
pub proof fn law_reports_of_a_read(ch: Channel, start: Clock, holes: usize, r: ReadResult, n: usize)
    requires
        r.useful_end_index <= n,
    ensures
        ({
            let reports = ch.losses(start, holes, r, n);
            let gap = holes != ch.prev_holes_count;
            let beginning = ch.was_connected && r.useful_start_index > 0;
            let end = r.useful_end_index < n && (ch.was_connected || r.useful_start_index
                < r.useful_end_index);
            let behind_gap = if gap {
                1int
            } else {
                0
            };
            let behind_beginning = behind_gap + if beginning {
                1int
            } else {
                0
            };
            &&& reports.len() == behind_beginning + if end {
                1int
            } else {
                0
            }
            &&& gap ==> {
                &&& reports[0].reason is ReorderTimeout
                &&& reports[0].timestamp == start
                &&& reports[0].num_samples == n
            }
            &&& beginning ==> {
                &&& reports[behind_gap].reason is UnderrunOrOverwritten
                &&& reports[behind_gap].timestamp == start
                &&& reports[behind_gap].num_samples == r.useful_start_index
            }
            &&& end ==> {
                &&& reports[behind_beginning].reason is Underrun
                &&& reports[behind_beginning].num_samples + r.useful_end_index == n
                &&& reports[behind_beginning].timestamp.wrapping_add(
                    reports[behind_beginning].num_samples,
                ) == start.wrapping_add(n)
            }
        }),
{
}

/// A channel begins to read at its newest sample, once: one that has begun is not moved, and nothing
/// else of it changes.
pub proof fn law_reading_begins_once(ch: Channel)
    ensures
        ch.bootstrapped().callback_cursor is Some,
        ch.callback_cursor is Some ==> ch.bootstrapped() == ch,
        ch.callback_cursor is None ==> ch.bootstrapped().callback_cursor == Some(
            ch.source.readable_until,
        ),
        ch.bootstrapped().id == ch.id,
        ch.bootstrapped().source == ch.source,
        ch.bootstrapped().prev_holes_count == ch.prev_holes_count,
        ch.bootstrapped().latency_samples == ch.latency_samples,
        ch.bootstrapped().was_connected == ch.was_connected,
        ch.bootstrapped().callback_zero_fills == ch.callback_zero_fills,
{
}

/// A new channel has the number of its position, counted from 1, reads from the given source with
/// the given latency, and has no past.
pub proof fn law_new_channel_has_no_past(
    channel_index: usize,
    source: RBOutput,
    latency_samples: usize,
)
    requires
        channel_index < usize::MAX,
    ensures
        ({
            let ch = Channel::connected_spec(channel_index, source, latency_samples);
            &&& ch.id == channel_index + 1
            &&& ch.source == source
            &&& ch.latency_samples == latency_samples
            &&& ch.prev_holes_count == 0
            &&& !ch.was_connected
            &&& ch.callback_cursor is None
            &&& ch.callback_zero_fills == 0
        }),
{
}

} // verus!
