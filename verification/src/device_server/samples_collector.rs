//! Handing received samples to their consumer: block by block to a callback, or on demand to a
//! real-time reader.

use vstd::prelude::*;
use crate::common::{clock_distance, wrapped_diff, Clock, Sample};
use crate::device_server::channel::{
    fill_zeros, law_callback_block_outcome, law_callback_plays_by_timestamp,
    law_plan_follows_what_has_arrived, law_ready_means_samples, Channel,
};
use crate::media_clock::MediaClock;
use crate::real_time_box_channel::{channel, RealTimeBoxReceiver, RealTimeBoxSender};
use crate::ring_buffer::RBOutput;

verus! {

/// How many samples of each channel one callback delivers.
pub const CALLBACK_BLOCK_SIZE: usize = 32;

/// How many callbacks there are at most before the collector looks for commands again.
pub const MAX_CALLBACK_BLOCKS_PER_WAKE: usize = 8;

/// The size in samples of the buffers that the callback gets.
pub const BUFFER_SIZE: usize = 65536;

/// The timestamps up to which the connected ones of `channels` can be read, in their order.
pub open spec fn readable_ends(channels: Seq<Option<Channel>>) -> Seq<Clock>
    decreases channels.len(),
{
    if channels.len() == 0 {
        Seq::empty()
    } else {
        let before = readable_ends(channels.drop_last());
        match channels.last() {
            Some(ch) => before.push(ch.source.readable_until),
            None => before,
        }
    }
}

/// The timestamp that remains if, going through `clocks`, each one that is behind the one kept
/// so far replaces it.
pub open spec fn earliest(clocks: Seq<Clock>) -> Clock
    recommends
        clocks.len() > 0,
    decreases clocks.len(),
{
    if clocks.len() <= 1 {
        clocks[0]
    } else {
        let kept = earliest(clocks.drop_last());
        if clock_distance(kept, clocks.last()) > 0 {
            clocks.last()
        } else {
            kept
        }
    }
}

/// The timestamp that remains if, going through `clocks`, each one that is not behind the one
/// kept so far replaces it.
pub open spec fn latest(clocks: Seq<Clock>) -> Clock
    recommends
        clocks.len() > 0,
    decreases clocks.len(),
{
    if clocks.len() <= 1 {
        clocks[0]
    } else {
        let kept = latest(clocks.drop_last());
        if clock_distance(kept, clocks.last()) > 0 {
            kept
        } else {
            clocks.last()
        }
    }
}

/// The earliest and the latest of `clocks`, if there are any.
pub open spec fn min_max(clocks: Seq<Clock>) -> Option<(Clock, Clock)> {
    if clocks.len() == 0 {
        None
    } else {
        Some((earliest(clocks), latest(clocks)))
    }
}

/// Finds the earliest and the latest of `clocks`.
pub fn get_min_max_end_timestamps(clocks: &Vec<Clock>) -> (r: Option<(Clock, Clock)>)
    ensures
        r == min_max(clocks@),
{
    if clocks.len() == 0 {
        return None;
    }
    let mut min: Clock = clocks[0];
    let mut max: Clock = clocks[0];
    let mut i: usize = 1;
    while i < clocks.len()
        invariant
            1 <= i <= clocks@.len(),
            min == earliest(clocks@.take(i as int)),
            max == latest(clocks@.take(i as int)),
        decreases clocks@.len() - i,
    {
        let clock: Clock = clocks[i];
        assert(clocks@.take(i + 1).drop_last() =~= clocks@.take(i as int));
        if wrapped_diff(min, clock) > 0 {
            min = clock;
        }
        if wrapped_diff(max, clock) <= 0 {
            max = clock;
        }
        i += 1;
    }
    assert(clocks@.take(i as int) =~= clocks@);
    Some((min, max))
}

/// What a real-time reader sees: its channels, and the media clock.
#[derive(Debug)]
pub struct RealTimeSamplesReceiver<O: Copy> {
    pub channels: Vec<RealTimeBoxReceiver<Option<Channel>>>,
    pub clock: MediaClock<O>,
    pub clock_recv: RealTimeBoxReceiver<Option<O>>,
}

/// The receivers after each has picked up its newest value.
pub open spec fn all_updated(
    receivers: Seq<RealTimeBoxReceiver<Option<Channel>>>,
) -> Seq<RealTimeBoxReceiver<Option<Channel>>> {
    receivers.map_values(|r: RealTimeBoxReceiver<Option<Channel>>| r.updated())
}

/// The channels that are in use.
pub open spec fn channels_in_use(
    receivers: Seq<RealTimeBoxReceiver<Option<Channel>>>,
) -> Seq<Option<Channel>> {
    receivers.map_values(|r: RealTimeBoxReceiver<Option<Channel>>| r.current)
}

impl<O: Copy> RealTimeSamplesReceiver<O> {
    /// The earliest and the latest timestamp up to which the channels that come into use at the
    /// next update can be read.
    pub open spec fn end_timestamps(self) -> Option<(Clock, Clock)> {
        min_max(readable_ends(channels_in_use(all_updated(self.channels@))))
    }

    /// Picks up the newest channels and finds the earliest and the latest timestamp up to which
    /// they can be read.
    pub fn get_min_max_end_timestamps(&mut self) -> (r: Option<(Clock, Clock)>)
        ensures
            r == old(self).end_timestamps(),
            final(self).channels@ == all_updated(old(self).channels@),
            final(self).clock == old(self).clock,
            final(self).clock_recv == old(self).clock_recv,
    {
        let mut clocks: Vec<Clock> = Vec::new();
        let mut i: usize = 0;
        let ghost all = channels_in_use(all_updated(self.channels@));
        while i < self.channels.len()
            invariant
                i <= self.channels@.len(),
                self.channels@.len() == old(self).channels@.len(),
                self.clock == old(self).clock,
                self.clock_recv == old(self).clock_recv,
                all == channels_in_use(all_updated(old(self).channels@)),
                clocks@ == readable_ends(all.take(i as int)),
                forall|k: int|
                    0 <= k < self.channels@.len() ==> #[trigger] self.channels@[k] == if k < i {
                        old(self).channels@[k].updated()
                    } else {
                        old(self).channels@[k]
                    },
            decreases self.channels@.len() - i,
        {
            self.channels[i].update();
            assert(all.take(i + 1).drop_last() =~= all.take(i as int));
            assert(all.take(i + 1).last() == self.channels@[i as int].current);
            match self.channels[i].get() {
                Some(ch) => {
                    clocks.push(ch.source.readable_until());
                },
                None => {},
            }
            i += 1;
        }
        assert(all.take(i as int) =~= all);
        assert(self.channels@ =~= all_updated(old(self).channels@));
        get_min_max_end_timestamps(&clocks)
    }

    /// How many samples from `start_timestamp` on every connected channel has.
    pub fn get_available_num_samples(&mut self, start_timestamp: Clock) -> (n: usize)
        ensures
            n == match old(self).end_timestamps() {
                Some((end, _)) => if clock_distance(end, start_timestamp) > 0 {
                    clock_distance(end, start_timestamp)
                } else {
                    0
                },
                None => 0,
            },
            n > 0 ==> (old(self).end_timestamps() matches Some((end, _))
                && start_timestamp.wrapping_add(n) == end),
            final(self).channels@ == all_updated(old(self).channels@),
            final(self).clock == old(self).clock,
            final(self).clock_recv == old(self).clock_recv,
    {
        match self.get_min_max_end_timestamps() {
            Some((end, _)) => {
                let diff: isize = wrapped_diff(end, start_timestamp);
                if diff > 0 {
                    diff as usize
                } else {
                    0
                }
            },
            None => 0,
        }
    }

    /// Fills `buffer` with the samples of one channel that are due at `start_timestamp`, with
    /// silence where there are none, and says whether nothing was lost. A channel that is not
    /// connected is silent and loses nothing.
    pub fn get_samples(
        &mut self,
        start_timestamp: Clock,
        channel_index: usize,
        buffer: &mut [Sample],
    ) -> (good: bool)
        requires
            channel_index < old(self).channels@.len(),
        ensures
            final(buffer)@.len() == old(buffer)@.len(),
            match old(self).channels@[channel_index as int].updated().current {
                Some(ch) => {
                    let n = old(buffer)@.len();
                    let start = ch.due_at(start_timestamp, n as usize);
                    &&& good == ch.read_is_good(start, n as int)
                    &&& forall|j: int|
                        0 <= j < n ==> #[trigger] final(buffer)@[j] == ch.heard(start, j)
                    &&& final(self).channels@ == old(self).channels@.update(
                        channel_index as int,
                        RealTimeBoxReceiver {
                            current: Some(ch.after_read(start, n as int)),
                            pending: None,
                        },
                    )
                },
                None => {
                    &&& good
                    &&& forall|j: int|
                        0 <= j < final(buffer)@.len() ==> #[trigger] final(buffer)@[j] == 0
                    &&& final(self).channels@ == old(self).channels@.update(
                        channel_index as int,
                        old(self).channels@[channel_index as int].updated(),
                    )
                },
            },
            final(self).clock == old(self).clock,
            final(self).clock_recv == old(self).clock_recv,
    {
        self.channels[channel_index].update();
        let len: usize = buffer.len();
        match self.channels[channel_index].get_mut() {
            Some(ch) => {
                let start: Clock = ch.read_position(start_timestamp, len);
                ch.read_samples_from_ringbuffer(start, buffer)
            },
            None => {
                fill_zeros(buffer, 0, len);
                true
            },
        }
    }

    /// The media clock, with the newest overlay if one has been published.
    pub fn clock(&mut self) -> (clock: &MediaClock<O>)
        ensures
            *clock == final(self).clock,
            final(self).clock.overlay == match old(self).clock_recv.pending {
                Some(Some(overlay)) => Some(overlay),
                _ => old(self).clock.overlay,
            },
            final(self).clock_recv == old(self).clock_recv.updated(),
            final(self).channels == old(self).channels,
    {
        if self.clock_recv.update() {
            match self.clock_recv.get() {
                Some(overlay) => {
                    self.clock.update_overlay(*overlay);
                },
                None => {},
            }
        }
        &self.clock
    }
}

/// What a collector is told to do.
#[derive(Debug)]
pub enum Command {
    NoOp,
    Shutdown,
    ConnectChannel { channel_index: usize, source: RBOutput, latency_samples: usize },
    DisconnectChannel { channel_index: usize },
}

impl Command {
    /// Whether the command speaks of a channel that a collector of `channels_count` channels has.
    pub open spec fn fits(self, channels_count: nat) -> bool {
        match self {
            Command::ConnectChannel { channel_index, .. } => channel_index < channels_count,
            Command::DisconnectChannel { channel_index } => channel_index < channels_count,
            _ => true,
        }
    }

    /// The position that the command changes and what stands there afterwards.
    pub open spec fn effect(self) -> Option<(int, Option<Channel>)> {
        match self {
            Command::ConnectChannel { channel_index, source, latency_samples } => Some(
                (
                    channel_index as int,
                    Some(Channel::connected_spec(channel_index, source, latency_samples)),
                ),
            ),
            Command::DisconnectChannel { channel_index } => Some((channel_index as int, None)),
            _ => None,
        }
    }
}

/// The control side of a real-time reader: it puts out the channels as commands change them.
#[derive(Debug)]
pub struct ToRealTime {
    pub senders: Vec<RealTimeBoxSender<Option<Channel>>>,
}

impl ToRealTime {
    /// Carries out a command and says whether to go on. That no command can come any more counts
    /// as a shutdown.
    pub fn handle_command(&mut self, command_opt: Option<Command>) -> (go_on: bool)
        requires
            command_opt matches Some(command) ==> command.fits(old(self).senders@.len()),
        ensures
            go_on == !(command_opt is None || command_opt == Some(Command::Shutdown)),
            final(self).senders@ == match command_opt {
                Some(command) => match command.effect() {
                    Some((index, channel)) => old(self).senders@.update(
                        index,
                        RealTimeBoxSender { outgoing: Some(channel) },
                    ),
                    None => old(self).senders@,
                },
                None => old(self).senders@,
            },
    {
        match command_opt {
            Some(Command::ConnectChannel { channel_index, source, latency_samples }) => {
                assert(channel_index < self.senders.len());
                self.senders[channel_index].send(
                    Some(Channel::connected(channel_index, source, latency_samples)),
                );
                true
            },
            Some(Command::DisconnectChannel { channel_index }) => {
                self.senders[channel_index].send(None);
                true
            },
            Some(Command::NoOp) => true,
            Some(Command::Shutdown) => false,
            None => false,
        }
    }
}

/// The two sides of a real-time reader of `channels_count` channels, none of them connected.
pub fn new_realtime<O: Copy>(
    channels_count: usize,
    clock_recv: RealTimeBoxReceiver<Option<O>>,
) -> (sides: (ToRealTime, RealTimeSamplesReceiver<O>))
    ensures
        sides.0.senders@.len() == channels_count,
        sides.1.channels@.len() == channels_count,
        forall|i: int|
            0 <= i < channels_count ==> (#[trigger] sides.0.senders@[i]).outgoing is None,
        forall|i: int|
            0 <= i < channels_count ==> (#[trigger] sides.1.channels@[i]).current is None
                && sides.1.channels@[i].pending is None,
        sides.1.clock.overlay is None,
        sides.1.clock_recv == clock_recv,
{
    let mut senders: Vec<RealTimeBoxSender<Option<Channel>>> = Vec::new();
    let mut receivers: Vec<RealTimeBoxReceiver<Option<Channel>>> = Vec::new();
    while senders.len() < channels_count
        invariant
            senders@.len() <= channels_count,
            receivers@.len() == senders@.len(),
            forall|i: int| 0 <= i < senders@.len() ==> (#[trigger] senders@[i]).outgoing is None,
            forall|i: int|
                0 <= i < receivers@.len() ==> (#[trigger] receivers@[i]).current is None
                    && receivers@[i].pending is None,
        decreases channels_count - senders@.len(),
    {
        let (sender, receiver) = channel(None);
        senders.push(sender);
        receivers.push(receiver);
    }
    (
        ToRealTime { senders },
        RealTimeSamplesReceiver { channels: receivers, clock: MediaClock::new(), clock_recv },
    )
}

/// Delivers the samples of its channels block by block.
#[derive(Debug)]
pub struct PeriodicSamplesCollector {
    pub channels: Vec<Option<Channel>>,
}

/// Whether channel `i` is connected and has a block of `block_size` samples ready.
pub open spec fn ready_at(channels: Seq<Option<Channel>>, block_size: usize, i: int) -> bool {
    channels[i] matches Some(ch) && ch.block_ready(block_size)
}

/// Whether any channel has a block ready.
pub open spec fn any_ready(channels: Seq<Option<Channel>>, block_size: usize) -> bool {
    exists|i: int| 0 <= i < channels.len() && ready_at(channels, block_size, i)
}

/// Whether no channel before channel `i` has a block ready, so that a search for one comes to it.
pub open spec fn search_reaches(channels: Seq<Option<Channel>>, block_size: usize, i: int) -> bool {
    forall|k: int| 0 <= k < i ==> !ready_at(channels, block_size, k)
}

/// The channels after a search for a block that is ready. The search stops at the first one. Each
/// connected channel on the way has then begun to read.
pub open spec fn after_search(channels: Seq<Option<Channel>>, block_size: usize) -> Seq<
    Option<Channel>,
> {
    Seq::new(
        channels.len(),
        |i: int|
            match channels[i] {
                Some(ch) => if search_reaches(channels, block_size, i) {
                    Some(ch.bootstrapped())
                } else {
                    Some(ch)
                },
                None => None,
            },
    )
}

/// A channel after a callback block has been taken from it and its source has been told.
pub open spec fn after_delivery(ch: Channel, block_size: usize) -> Channel {
    let next = ch.after_callback_block(block_size);
    Channel { source: RBOutput { done_until: next.callback_cursor, ..next.source }, ..next }
}

/// The channels after one block of each has been delivered.
pub open spec fn all_delivered(channels: Seq<Option<Channel>>, block_size: usize) -> Seq<
    Option<Channel>,
> {
    channels.map_values(
        |opt: Option<Channel>|
            match opt {
                Some(ch) => Some(after_delivery(ch, block_size)),
                None => None,
            },
    )
}

/// Item `j` of the block that channel `opt` contributes to a delivery.
pub open spec fn delivered_sample(opt: Option<Channel>, block_size: usize, j: int) -> Sample {
    match opt {
        Some(ch) => ch.callback_sample(block_size, j),
        None => 0,
    }
}

impl PeriodicSamplesCollector {
    /// A collector with `channels_count` channels that are not connected.
    pub fn new(channels_count: usize) -> (r: Self)
        ensures
            r.channels@.len() == channels_count,
            forall|i: int| 0 <= i < channels_count ==> (#[trigger] r.channels@[i]) is None,
    {
        let mut channels: Vec<Option<Channel>> = Vec::new();
        while channels.len() < channels_count
            invariant
                channels@.len() <= channels_count,
                forall|i: int| 0 <= i < channels@.len() ==> (#[trigger] channels@[i]) is None,
            decreases channels_count - channels@.len(),
        {
            channels.push(None);
        }
        PeriodicSamplesCollector { channels }
    }

    /// Silent buffers for the callback, one for each channel.
    pub fn new_buffers(&self) -> (buffers: Vec<Vec<Sample>>)
        ensures
            buffers@.len() == self.channels@.len(),
            forall|i: int|
                0 <= i < buffers@.len() ==> (#[trigger] buffers@[i])@ == Seq::new(
                    BUFFER_SIZE as nat,
                    |j: int| 0 as Sample,
                ) && buffers@[i]@.len() == 65536,
    {
        let mut buffers: Vec<Vec<Sample>> = Vec::new();
        while buffers.len() < self.channels.len()
            invariant
                buffers@.len() <= self.channels@.len(),
                forall|i: int|
                    0 <= i < buffers@.len() ==> (#[trigger] buffers@[i])@ == Seq::new(
                        BUFFER_SIZE as nat,
                        |j: int| 0 as Sample,
                    ),
            decreases self.channels@.len() - buffers@.len(),
        {
            let buffer: Vec<Sample> = vec![0; BUFFER_SIZE];
            assert(buffer@ =~= Seq::new(BUFFER_SIZE as nat, |j: int| 0 as Sample));
            buffers.push(buffer);
        }
        buffers
    }

    /// Finds the earliest and the latest timestamp up to which the channels can be read.
    pub fn get_min_max_end_timestamps(&self) -> (r: Option<(Clock, Clock)>)
        ensures
            r == min_max(readable_ends(self.channels@)),
    {
        let mut clocks: Vec<Clock> = Vec::new();
        let mut i: usize = 0;
        while i < self.channels.len()
            invariant
                i <= self.channels@.len(),
                clocks@ == readable_ends(self.channels@.take(i as int)),
            decreases self.channels@.len() - i,
        {
            assert(self.channels@.take(i + 1).drop_last() =~= self.channels@.take(i as int));
            match &self.channels[i] {
                Some(ch) => {
                    clocks.push(ch.source.readable_until());
                },
                None => {},
            }
            i += 1;
        }
        assert(self.channels@.take(i as int) =~= self.channels@);
        get_min_max_end_timestamps(&clocks)
    }

    /// Says whether some channel has a block ready. Connected channels that have not begun to
    /// read begin at their newest sample, as far as the search comes.
    pub fn has_callback_block_ready(&mut self, block_size: usize) -> (ready: bool)
        ensures
            ready == any_ready(old(self).channels@, block_size),
            final(self).channels@ == after_search(old(self).channels@, block_size),
    {
        let mut i: usize = 0;
        while i < self.channels.len()
            invariant
                i <= self.channels@.len(),
                self.channels@.len() == old(self).channels@.len(),
                search_reaches(old(self).channels@, block_size, i as int),
                forall|k: int|
                    0 <= k < i ==> #[trigger] self.channels@[k] == after_search(
                        old(self).channels@,
                        block_size,
                    )[k],
                forall|k: int|
                    i <= k < self.channels@.len() ==> #[trigger] self.channels@[k] == old(
                        self,
                    ).channels@[k],
            decreases self.channels@.len() - i,
        {
            let ready: bool = match &mut self.channels[i] {
                Some(ch) => ch.check_block_ready(block_size),
                None => false,
            };
            if ready {
                assert(ready_at(old(self).channels@, block_size, i as int));
                assert(self.channels@ =~= after_search(old(self).channels@, block_size));
                return true;
            }
            i += 1;
        }
        assert(self.channels@ =~= after_search(old(self).channels@, block_size));
        false
    }

    /// Prepares the next callback, the one after `delivered` others since the collector woke up.
    /// If there is one, the first `block_size` items of each buffer hold its samples.
    pub fn next_callback_block(
        &mut self,
        delivered: usize,
        block_size: usize,
        buffers: &mut Vec<Vec<Sample>>,
    ) -> (more: bool)
        requires
            old(buffers)@.len() == old(self).channels@.len(),
            forall|i: int|
                0 <= i < old(buffers)@.len() ==> block_size <= (#[trigger] old(
                    buffers,
                )@[i])@.len(),
        ensures
            more == (delivered < MAX_CALLBACK_BLOCKS_PER_WAKE && any_ready(
                old(self).channels@,
                block_size,
            )),
            final(self).channels@ == if more {
                all_delivered(after_search(old(self).channels@, block_size), block_size)
            } else if delivered < MAX_CALLBACK_BLOCKS_PER_WAKE {
                after_search(old(self).channels@, block_size)
            } else {
                old(self).channels@
            },
            final(buffers)@.len() == old(buffers)@.len(),
            !more ==> final(buffers)@ == old(buffers)@,
            more ==> forall|i: int, j: int|
                0 <= i < final(buffers)@.len() && 0 <= j < old(buffers)@[i]@.len()
                    ==> #[trigger] final(buffers)@[i]@[j] == if j < block_size {
                    delivered_sample(
                        after_search(old(self).channels@, block_size)[i],
                        block_size,
                        j,
                    )
                } else {
                    old(buffers)@[i]@[j]
                },
            forall|i: int|
                0 <= i < final(buffers)@.len() ==> (#[trigger] final(buffers)@[i])@.len() == old(
                    buffers,
                )@[i]@.len(),
    {
        if delivered >= MAX_CALLBACK_BLOCKS_PER_WAKE {
            return false;
        }
        if !self.has_callback_block_ready(block_size) {
            return false;
        }
        let ghost searched = self.channels@;
        let mut i: usize = 0;
        while i < self.channels.len()
            invariant
                i <= self.channels@.len(),
                self.channels@.len() == searched.len(),
                searched == after_search(old(self).channels@, block_size),
                buffers@.len() == searched.len(),
                buffers@.len() == old(buffers)@.len(),
                forall|k: int|
                    0 <= k < buffers@.len() ==> (#[trigger] buffers@[k])@.len() == old(
                        buffers,
                    )@[k]@.len(),
                forall|k: int|
                    0 <= k < buffers@.len() ==> block_size <= (#[trigger] old(
                        buffers,
                    )@[k])@.len(),
                forall|k: int|
                    0 <= k < i ==> #[trigger] self.channels@[k] == all_delivered(
                        searched,
                        block_size,
                    )[k],
                forall|k: int|
                    i <= k < searched.len() ==> #[trigger] self.channels@[k] == searched[k],
                forall|k: int, j: int|
                    0 <= k < i && 0 <= j < old(buffers)@[k]@.len()
                        ==> #[trigger] buffers@[k]@[j] == if j < block_size {
                        delivered_sample(searched[k], block_size, j)
                    } else {
                        old(buffers)@[k]@[j]
                    },
                forall|k: int|
                    i <= k < buffers@.len() ==> #[trigger] buffers@[k] == old(buffers)@[k],
            decreases self.channels@.len() - i,
        {
            let buffer: &mut [Sample] = buffers[i].as_mut_slice();
            match &mut self.channels[i] {
                Some(ch) => {
                    ch.read_callback_block(block_size, buffer);
                    match ch.callback_cursor {
                        Some(cursor) => {
                            ch.source.read_done(cursor);
                        },
                        None => {},
                    }
                },
                None => {
                    fill_zeros(buffer, 0, block_size);
                },
            }
            i += 1;
        }
        assert(self.channels@ =~= all_delivered(searched, block_size));
        true
    }

    /// Carries out a command and says whether to go on. That no command can come any more counts
    /// as a shutdown.
    pub fn handle_command(&mut self, command_opt: Option<Command>) -> (go_on: bool)
        requires
            command_opt matches Some(command) ==> command.fits(old(self).channels@.len()),
        ensures
            go_on == !(command_opt is None || command_opt == Some(Command::Shutdown)),
            final(self).channels@ == match command_opt {
                Some(command) => match command.effect() {
                    Some((index, channel)) => old(self).channels@.update(index, channel),
                    None => old(self).channels@,
                },
                None => old(self).channels@,
            },
    {
        match command_opt {
            Some(Command::ConnectChannel { channel_index, source, latency_samples }) => {
                assert(channel_index < self.channels.len());
                self.channels[channel_index] = Some(
                    Channel::connected(channel_index, source, latency_samples),
                );
                true
            },
            Some(Command::DisconnectChannel { channel_index }) => {
                self.channels[channel_index] = None;
                true
            },
            Some(Command::NoOp) => true,
            Some(Command::Shutdown) => false,
            None => false,
        }
    }
}

/// Two timestamps that lie within half a turn after `base` are as far apart as their distances
/// from `base` are.
proof fn lemma_distances_subtract(a: Clock, b: Clock, base: Clock)
    requires
        clock_distance(a, base) >= 0,
        clock_distance(b, base) >= 0,
    ensures
        clock_distance(a, b) == clock_distance(a, base) - clock_distance(b, base),
{
}

/// If all of `clocks` lie within half a turn after `base`, the timestamp found as the earliest is
/// one of them and none is behind it, and the one found as the latest is one of them and none is
/// ahead of it.
pub proof fn law_min_max_bound_all(clocks: Seq<Clock>, base: Clock)
    requires
        clocks.len() > 0,
        forall|i: int| 0 <= i < clocks.len() ==> clock_distance(#[trigger] clocks[i], base) >= 0,
    ensures
        clocks.contains(earliest(clocks)),
        clocks.contains(latest(clocks)),
        forall|i: int|
            0 <= i < clocks.len() ==> clock_distance(#[trigger] clocks[i], earliest(clocks)) >= 0
                && clock_distance(latest(clocks), clocks[i]) >= 0,
    decreases clocks.len(),
{
    if clocks.len() > 1 {
        let before = clocks.drop_last();
        assert forall|i: int| 0 <= i < before.len() implies clock_distance(
            #[trigger] before[i],
            base,
        ) >= 0 by {
            assert(before[i] == clocks[i]);
        }
        law_min_max_bound_all(before, base);
        let e = choose|i: int| 0 <= i < before.len() && before[i] == earliest(before);
        let l = choose|i: int| 0 <= i < before.len() && before[i] == latest(before);
        let new = clocks.len() - 1;
        assert(clocks[e] == earliest(before) && clocks[l] == latest(before));
        assert(earliest(clocks) == clocks[e] || earliest(clocks) == clocks[new]);
        assert(latest(clocks) == clocks[l] || latest(clocks) == clocks[new]);
        lemma_distances_subtract(clocks[e], clocks[new], base);
        lemma_distances_subtract(clocks[new], clocks[e], base);
        lemma_distances_subtract(clocks[l], clocks[new], base);
        lemma_distances_subtract(clocks[new], clocks[l], base);
        assert forall|i: int| 0 <= i < clocks.len() implies clock_distance(
            #[trigger] clocks[i],
            earliest(clocks),
        ) >= 0 && clock_distance(latest(clocks), clocks[i]) >= 0 by {
            lemma_distances_subtract(clocks[i], clocks[e], base);
            lemma_distances_subtract(clocks[i], clocks[new], base);
            lemma_distances_subtract(clocks[l], clocks[i], base);
            lemma_distances_subtract(clocks[new], clocks[i], base);
            if i < before.len() {
                assert(before[i] == clocks[i]);
            }
        }
    }
}

/// Looking for a ready block a second time finds the same and changes nothing.
pub proof fn law_search_repeats(channels: Seq<Option<Channel>>, block_size: usize)
    ensures
        any_ready(after_search(channels, block_size), block_size) == any_ready(
            channels,
            block_size,
        ),
        after_search(after_search(channels, block_size), block_size) == after_search(
            channels,
            block_size,
        ),
{
    let once = after_search(channels, block_size);
    assert forall|i: int| 0 <= i < channels.len() implies ready_at(once, block_size, i)
        == #[trigger] ready_at(channels, block_size, i) by {}
    assert forall|i: int| 0 <= i < channels.len() implies search_reaches(once, block_size, i)
        == #[trigger] search_reaches(channels, block_size, i) by {
        if search_reaches(once, block_size, i) {
            assert forall|k: int| 0 <= k < i implies !ready_at(channels, block_size, k) by {
                assert(!ready_at(once, block_size, k));
            }
        }
        if search_reaches(channels, block_size, i) {
            assert forall|k: int| 0 <= k < i implies !ready_at(once, block_size, k) by {
                assert(!ready_at(channels, block_size, k));
            }
        }
    }
    if any_ready(channels, block_size) {
        let i = choose|i: int| 0 <= i < channels.len() && ready_at(channels, block_size, i);
        assert(ready_at(once, block_size, i));
    }
    if any_ready(once, block_size) {
        let i = choose|i: int| 0 <= i < once.len() && ready_at(once, block_size, i);
        assert(ready_at(channels, block_size, i));
    }
    assert(after_search(once, block_size) =~= once);
}

/// Every connected channel's end is among the readable ends.
proof fn lemma_end_is_listed(channels: Seq<Option<Channel>>, i: int)
    requires
        0 <= i < channels.len(),
        channels[i] is Some,
    ensures
        readable_ends(channels).contains(channels[i]->0.source.readable_until),
    decreases channels.len(),
{
    let ends = readable_ends(channels);
    let before = readable_ends(channels.drop_last());
    if i == channels.len() - 1 {
        assert(ends[before.len() as int] == channels[i]->0.source.readable_until);
    } else {
        lemma_end_is_listed(channels.drop_last(), i);
        let end = channels[i]->0.source.readable_until;
        let k = choose|k: int| 0 <= k < before.len() && before[k] == end;
        assert(ends[k] == end);
    }
}

/// The number of samples that are available from `start` on is available in every connected
/// channel, if `start` and all the ends lie within half a turn after `base`.
pub proof fn law_available_in_every_channel(
    channels: Seq<Option<Channel>>,
    start: Clock,
    base: Clock,
    i: int,
)
    requires
        0 <= i < channels.len(),
        channels[i] is Some,
        clock_distance(start, base) >= 0,
        forall|k: int|
            0 <= k < readable_ends(channels).len() ==> clock_distance(
                #[trigger] readable_ends(channels)[k],
                base,
            ) >= 0,
    ensures
        min_max(readable_ends(channels)) matches Some((end, _)) && clock_distance(
            channels[i]->0.source.readable_until,
            start,
        ) >= clock_distance(end, start),
{
    let ends = readable_ends(channels);
    lemma_end_is_listed(channels, i);
    law_min_max_bound_all(ends, base);
    let k = choose|k: int|
        0 <= k < ends.len() && ends[k] == channels[i]->0.source.readable_until;
    let e = choose|e: int| 0 <= e < ends.len() && ends[e] == earliest(ends);
    assert(clock_distance(ends[k], earliest(ends)) >= 0);
    lemma_distances_subtract(ends[k], ends[e], base);
    lemma_distances_subtract(ends[k], start, base);
    lemma_distances_subtract(ends[e], start, base);
}

/// What a channel contributes to a delivery, and how it stands afterwards, does not depend on the
/// other channels, although the search before the delivery may stop before it comes to the channel.
pub proof fn law_channels_are_independent(
    a: Seq<Option<Channel>>,
    b: Seq<Option<Channel>>,
    block_size: usize,
    i: int,
    j: int,
)
    requires
        0 <= i < a.len(),
        i < b.len(),
        a[i] == b[i],
    ensures
        all_delivered(after_search(a, block_size), block_size)[i] == all_delivered(
            after_search(b, block_size),
            block_size,
        )[i],
        delivered_sample(after_search(a, block_size)[i], block_size, j) == delivered_sample(
            after_search(b, block_size)[i],
            block_size,
            j,
        ),
{
}

/// A newly connected channel has no block ready. Its first block is silent, and from then on it
/// reads what arrives after the newest sample that its source had.
pub proof fn law_new_channel_starts_at_newest_sample(
    channel_index: usize,
    source: RBOutput,
    latency_samples: usize,
    block_size: usize,
    j: int,
)
    ensures
        Channel::connected_spec(channel_index, source, latency_samples).callback_sample(
            block_size,
            j,
        ) == 0,
        Channel::connected_spec(channel_index, source, latency_samples).after_callback_block(
            block_size,
        ).callback_cursor == Some(source.readable_until),
        !Channel::connected_spec(channel_index, source, latency_samples).block_ready(block_size),
{
}

/// A command changes at most the channel that it names.
pub proof fn law_command_touches_one_channel(
    channels: Seq<Option<Channel>>,
    command: Command,
    index: int,
    channel: Option<Channel>,
    other: int,
)
    requires
        command.fits(channels.len()),
        command.effect() == Some((index, channel)),
        0 <= other < channels.len(),
        other != index,
    ensures
        channels.update(index, channel)[other] == channels[other],
{
}

/// Connecting a channel and then disconnecting it leaves the same as disconnecting it alone.
pub proof fn law_disconnect_undoes_connect(
    channels: Seq<Option<Channel>>,
    channel_index: usize,
    source: RBOutput,
    latency_samples: usize,
)
    requires
        channel_index < channels.len(),
    ensures
        ({
            let connect = Command::ConnectChannel { channel_index, source, latency_samples };
            let disconnect = Command::DisconnectChannel { channel_index };
            let (i, connected) = connect.effect()->0;
            let (k, disconnected) = disconnect.effect()->0;
            channels.update(i, connected).update(k, disconnected) == channels.update(
                k,
                disconnected,
            )
        }),
{
    let connect = Command::ConnectChannel { channel_index, source, latency_samples };
    let disconnect = Command::DisconnectChannel { channel_index };
    let (i, connected) = connect.effect()->0;
    let (k, disconnected) = disconnect.effect()->0;
    assert(channels.update(i, connected).update(k, disconnected) =~= channels.update(
        k,
        disconnected,
    ));
}

/// A callback is due exactly if some connected channel would read samples for its next block. Only
/// the place where the channels stand and the end of what has arrived count for it.
pub proof fn law_callback_is_due_when_a_channel_reads(
    channels: Seq<Option<Channel>>,
    block_size: usize,
)
    ensures
        any_ready(channels, block_size) <==> exists|i: int|
            0 <= i < channels.len() && (#[trigger] channels[i]) is Some && channels[i]->0.plan(
                block_size,
            ) is Read,
{
    assert forall|i: int| 0 <= i < channels.len() implies ready_at(channels, block_size, i) == (
    (#[trigger] channels[i]) is Some && channels[i]->0.plan(block_size) is Read) by {
        if channels[i] is Some {
            law_ready_means_samples(channels[i]->0, block_size);
        }
    }
    if any_ready(channels, block_size) {
        let i = choose|i: int| 0 <= i < channels.len() && ready_at(channels, block_size, i);
        assert(channels[i] is Some);
    }
    if exists|i: int|
        0 <= i < channels.len() && (#[trigger] channels[i]) is Some && channels[i]->0.plan(
            block_size,
        ) is Read {
        let i = choose|i: int|
            0 <= i < channels.len() && (#[trigger] channels[i]) is Some && channels[i]->0.plan(
                block_size,
            ) is Read;
        assert(ready_at(channels, block_size, i));
    }
}

/// A connected channel with a whole block beyond the place where it stands makes a callback due, at
/// any latency and whatever the other channels do.
pub proof fn law_arrived_block_makes_a_callback_due(
    channels: Seq<Option<Channel>>,
    block_size: usize,
    i: int,
    ahead: usize,
)
    requires
        0 <= i < channels.len(),
        channels[i] is Some,
        channels[i]->0.callback_cursor is Some,
        0 < ahead <= isize::MAX,
        block_size <= ahead || ahead > 192000,
        channels[i]->0.source.readable_until == (channels[i]->0.callback_cursor->0).wrapping_add(
            ahead,
        ),
    ensures
        any_ready(channels, block_size),
{
    law_plan_follows_what_has_arrived(channels[i]->0, block_size, ahead);
    law_callback_is_due_when_a_channel_reads(channels, block_size);
}

/// A search leaves the channels at their places and changes nothing of those that have begun to
/// read. One that has not begins at its newest sample, unless a channel before it had samples to
/// read.
pub proof fn law_search_only_begins_to_read(
    channels: Seq<Option<Channel>>,
    block_size: usize,
    i: int,
)
    requires
        0 <= i < channels.len(),
    ensures
        ({
            let found = after_search(channels, block_size);
            let stopped_before = exists|k: int|
                0 <= k < i && (#[trigger] channels[k]) is Some && channels[k]->0.plan(
                    block_size,
                ) is Read;
            &&& found.len() == channels.len()
            &&& found[i] is Some <==> channels[i] is Some
            &&& channels[i] matches Some(ch) ==> {
                &&& ch.callback_cursor is Some || stopped_before ==> found[i] == Some(ch)
                &&& ch.callback_cursor is None && !stopped_before ==> found[i] == Some(
                    Channel { callback_cursor: Some(ch.source.readable_until), ..ch },
                )
            }
        }),
{
    assert forall|k: int| 0 <= k < channels.len() implies ready_at(channels, block_size, k) == (
    (#[trigger] channels[k]) is Some && channels[k]->0.plan(block_size) is Read) by {
        if channels[k] is Some {
            law_ready_means_samples(channels[k]->0, block_size);
        }
    }
    if exists|k: int|
        0 <= k < i && (#[trigger] channels[k]) is Some && channels[k]->0.plan(
            block_size,
        ) is Read {
        let k = choose|k: int|
            0 <= k < i && (#[trigger] channels[k]) is Some && channels[k]->0.plan(
                block_size,
            ) is Read;
        assert(ready_at(channels, block_size, k));
        assert(!search_reaches(channels, block_size, i));
    } else {
        assert forall|k: int| 0 <= k < i implies !ready_at(channels, block_size, k) by {
            assert(channels[k] is None || channels[k]->0.plan(block_size) !is Read);
        }
        assert(search_reaches(channels, block_size, i));
    }
}

/// A delivery plays each connected channel on from the place where it stands, by the timestamps of
/// its samples, moves it on by the block and tells its source so. Neither the latency nor the other
/// channels play a part.
pub proof fn law_delivery_plays_each_channel_on(
    channels: Seq<Option<Channel>>,
    block_size: usize,
    i: int,
    ahead: usize,
    j: usize,
    k: usize,
)
    requires
        0 <= i < channels.len(),
        channels[i] is Some,
        channels[i]->0.callback_cursor is Some,
        channels[i]->0.source.samples@.len() <= isize::MAX,
        0 < ahead <= isize::MAX,
        channels[i]->0.source.readable_until == (channels[i]->0.callback_cursor->0).wrapping_add(
            ahead,
        ),
        block_size <= ahead <= 192000,
        j < block_size,
        k < channels[i]->0.source.samples@.len(),
    ensures
        ({
            let ch = channels[i]->0;
            let cursor = ch.callback_cursor->0;
            let found = after_search(channels, block_size);
            let next = all_delivered(found, block_size)[i];
            &&& ch.source.window_start.wrapping_add(k) == cursor.wrapping_add(j)
                ==> delivered_sample(found[i], block_size, j as int)
                == ch.source.samples@[k as int]
            &&& next is Some
            &&& next->0.callback_cursor == Some(cursor.wrapping_add(block_size))
            &&& next->0.source.done_until == Some(cursor.wrapping_add(block_size))
            &&& next->0.callback_zero_fills == 0
        }),
{
    law_search_only_begins_to_read(channels, block_size, i);
    law_plan_follows_what_has_arrived(channels[i]->0, block_size, ahead);
    law_callback_plays_by_timestamp(channels[i]->0, block_size, ahead, j, k);
}

/// A delivery plays the newest block of a channel that lags too far, and the channel then stands at
/// its newest sample.
pub proof fn law_delivery_resyncs_a_lagging_channel(
    channels: Seq<Option<Channel>>,
    block_size: usize,
    i: int,
    ahead: usize,
    j: usize,
    k: usize,
)
    requires
        0 <= i < channels.len(),
        channels[i] is Some,
        channels[i]->0.callback_cursor is Some,
        channels[i]->0.source.samples@.len() <= isize::MAX,
        192000 < ahead <= isize::MAX,
        channels[i]->0.source.readable_until == (channels[i]->0.callback_cursor->0).wrapping_add(
            ahead,
        ),
        j < block_size,
        j <= isize::MAX,
        k < channels[i]->0.source.samples@.len(),
    ensures
        ({
            let ch = channels[i]->0;
            let found = after_search(channels, block_size);
            let next = all_delivered(found, block_size)[i];
            &&& ch.source.window_start.wrapping_add(k).wrapping_add(block_size)
                == ch.source.readable_until.wrapping_add(j) ==> delivered_sample(
                found[i],
                block_size,
                j as int,
            ) == ch.source.samples@[k as int]
            &&& next is Some
            &&& next->0.callback_cursor == Some(ch.source.readable_until)
            &&& next->0.source.done_until == Some(ch.source.readable_until)
            &&& next->0.callback_zero_fills == 0
        }),
{
    law_search_only_begins_to_read(channels, block_size, i);
    law_plan_follows_what_has_arrived(channels[i]->0, block_size, ahead);
    law_callback_plays_by_timestamp(channels[i]->0, block_size, ahead, j, k);
}

/// A channel that is not connected, or has no block, contributes silence to a delivery. A connected
/// one then stands where it stood, or at its newest sample if it had not begun to read.
pub proof fn law_delivery_is_silent_without_a_block(
    channels: Seq<Option<Channel>>,
    block_size: usize,
    i: int,
    j: int,
)
    requires
        0 <= i < channels.len(),
        !(channels[i] is Some && channels[i]->0.plan(block_size) is Read),
    ensures
        ({
            let found = after_search(channels, block_size);
            let next = all_delivered(found, block_size)[i];
            &&& delivered_sample(found[i], block_size, j) == 0
            &&& next is Some <==> channels[i] is Some
            &&& channels[i] matches Some(ch) ==> {
                let place = match ch.callback_cursor {
                    Some(cursor) => cursor,
                    None => ch.source.readable_until,
                };
                &&& next->0.callback_cursor == Some(place)
                &&& next->0.source.done_until == Some(place)
            }
        }),
{
    law_search_only_begins_to_read(channels, block_size, i);
}

/// A delivery keeps the number and the latency of each channel and everything of its source but up
/// to where it is read.
pub proof fn law_delivery_keeps_the_channels(
    channels: Seq<Option<Channel>>,
    block_size: usize,
    i: int,
)
    requires
        0 <= i < channels.len(),
    ensures
        all_delivered(channels, block_size).len() == channels.len(),
        all_delivered(channels, block_size)[i] is Some <==> channels[i] is Some,
        channels[i] matches Some(ch) ==> {
            let next = all_delivered(channels, block_size)[i]->0;
            let read = ch.after_callback_block(block_size);
            &&& next.id == ch.id
            &&& next.latency_samples == ch.latency_samples
            &&& next.source.readable_until == ch.source.readable_until
            &&& next.source.window_start == ch.source.window_start
            &&& next.source.samples == ch.source.samples
            &&& next.source.holes_count == ch.source.holes_count
            &&& next.source.done_until == next.callback_cursor
            &&& next.callback_cursor == read.callback_cursor
            &&& next.callback_zero_fills == read.callback_zero_fills
            &&& next.prev_holes_count == read.prev_holes_count
            &&& next.was_connected == read.was_connected
        },
{
    if channels[i] is Some {
        law_callback_block_outcome(channels[i]->0, block_size);
    }
}

/// The ends that are compared are those of the connected channels, of all of them and of no others.
pub proof fn law_ends_are_those_of_connected_channels(
    channels: Seq<Option<Channel>>,
    end: Clock,
)
    ensures
        readable_ends(channels).contains(end) <==> exists|i: int|
            0 <= i < channels.len() && (#[trigger] channels[i]) is Some
                && channels[i]->0.source.readable_until == end,
    decreases channels.len(),
{
    if exists|i: int|
        0 <= i < channels.len() && (#[trigger] channels[i]) is Some
            && channels[i]->0.source.readable_until == end {
        let i = choose|i: int|
            0 <= i < channels.len() && (#[trigger] channels[i]) is Some
                && channels[i]->0.source.readable_until == end;
        lemma_end_is_listed(channels, i);
    }
    if readable_ends(channels).contains(end) {
        let before = channels.drop_last();
        let ends = readable_ends(channels);
        let k = choose|k: int| 0 <= k < ends.len() && ends[k] == end;
        let last = channels.len() - 1;
        if k < readable_ends(before).len() {
            assert(readable_ends(before)[k] == end);
            law_ends_are_those_of_connected_channels(before, end);
            let i = choose|i: int|
                0 <= i < before.len() && (#[trigger] before[i]) is Some
                    && before[i]->0.source.readable_until == end;
            assert(channels[i] == before[i]);
        } else {
            assert(channels[last] is Some);
        }
    }
}

/// Whatever the timestamps, those that are found are among them, and one more timestamp replaces
/// what was found exactly if it is behind the earliest, or not behind the latest, by at most half a
/// turn. Of none, nothing is found.
pub proof fn law_one_more_end(clocks: Seq<Clock>, clock: Clock)
    ensures
        min_max(Seq::empty()) is None,
        min_max(seq![clock]) == Some((clock, clock)),
        clocks.len() > 0 ==> {
            &&& min_max(clocks) is Some
            &&& min_max(clocks.push(clock)) is Some
            &&& ({
                let (lo, hi) = min_max(clocks)->0;
                let (new_lo, new_hi) = min_max(clocks.push(clock))->0;
                &&& clocks.contains(lo)
                &&& clocks.contains(hi)
                &&& new_lo == if clock_distance(clock, lo) < 0 && clock_distance(lo, clock) > 0 {
                    clock
                } else {
                    lo
                }
                &&& new_hi == if clock_distance(hi, clock) > 0 {
                    hi
                } else {
                    clock
                }
            })
        },
    decreases clocks.len(),
{
    assert(clocks.push(clock).drop_last() =~= clocks);
    if clocks.len() == 1 {
        assert(clocks.contains(clocks[0]));
    } else if clocks.len() > 1 {
        let before = clocks.drop_last();
        law_one_more_end(before, clock);
        let (lo, hi) = min_max(before)->0;
        let a = choose|a: int| 0 <= a < before.len() && before[a] == lo;
        let b = choose|b: int| 0 <= b < before.len() && before[b] == hi;
        assert(clocks[a] == lo && clocks[b] == hi);
        assert(clocks[clocks.len() - 1] == clocks.last());
        assert(clocks.contains(earliest(clocks)) && clocks.contains(latest(clocks)));
    }
}

/// A reader compares the ends of the channels that have been delivered to it last: if they lie
/// within half a turn after `base`, none of them is behind the first timestamp found or ahead of the
/// second, and both are ends of its channels.
pub proof fn law_reader_sees_the_newest_channels<O: Copy>(
    reader: RealTimeSamplesReceiver<O>,
    base: Clock,
    i: int,
)
    requires
        0 <= i < reader.channels@.len(),
        forall|k: int|
            0 <= k < reader.channels@.len() && newest(#[trigger] reader.channels@[k]) is Some
                ==> clock_distance(newest(reader.channels@[k])->0.source.readable_until, base) >= 0,
        newest(reader.channels@[i]) is Some,
    ensures
        reader.end_timestamps() is Some,
        ({
            let (lo, hi) = reader.end_timestamps()->0;
            let end = newest(reader.channels@[i])->0.source.readable_until;
            &&& clock_distance(end, lo) >= 0
            &&& clock_distance(hi, end) >= 0
            &&& exists|k: int|
                0 <= k < reader.channels@.len() && newest(#[trigger] reader.channels@[k]) is Some
                    && newest(reader.channels@[k])->0.source.readable_until == lo
            &&& exists|k: int|
                0 <= k < reader.channels@.len() && newest(#[trigger] reader.channels@[k]) is Some
                    && newest(reader.channels@[k])->0.source.readable_until == hi
        }),
{
    let channels = channels_in_use(all_updated(reader.channels@));
    let ends = readable_ends(channels);
    assert forall|k: int| 0 <= k < channels.len() implies #[trigger] channels[k] == newest(
        reader.channels@[k],
    ) by {}
    lemma_end_is_listed(channels, i);
    assert forall|k: int| 0 <= k < ends.len() implies clock_distance(#[trigger] ends[k], base)
        >= 0 by {
        assert(ends.contains(ends[k]));
        law_ends_are_those_of_connected_channels(channels, ends[k]);
        let c = choose|c: int|
            0 <= c < channels.len() && (#[trigger] channels[c]) is Some
                && channels[c]->0.source.readable_until == ends[k];
        assert(newest(reader.channels@[c]) is Some);
    }
    law_min_max_bound_all(ends, base);
    let (lo, hi) = reader.end_timestamps()->0;
    law_ends_are_those_of_connected_channels(channels, lo);
    law_ends_are_those_of_connected_channels(channels, hi);
    let a = choose|a: int|
        0 <= a < channels.len() && (#[trigger] channels[a]) is Some
            && channels[a]->0.source.readable_until == lo;
    let b = choose|b: int|
        0 <= b < channels.len() && (#[trigger] channels[b]) is Some
            && channels[b]->0.source.readable_until == hi;
    assert(newest(reader.channels@[a]) is Some);
    assert(newest(reader.channels@[b]) is Some);
}

/// The channel that was delivered last, or the one in use if none was.
pub open spec fn newest(receiver: RealTimeBoxReceiver<Option<Channel>>) -> Option<Channel> {
    match receiver.pending {
        Some(channel) => channel,
        None => receiver.current,
    }
}

/// An update of all receivers brings the channel that was delivered last into use at each place, and
/// leaves nothing waiting.
pub proof fn law_update_reaches_every_receiver(
    receivers: Seq<RealTimeBoxReceiver<Option<Channel>>>,
    i: int,
)
    requires
        0 <= i < receivers.len(),
    ensures
        all_updated(receivers).len() == receivers.len(),
        channels_in_use(receivers).len() == receivers.len(),
        all_updated(receivers)[i].current == newest(receivers[i]),
        all_updated(receivers)[i].pending is None,
        channels_in_use(receivers)[i] == receivers[i].current,
        receivers[i].updated().current == newest(receivers[i]),
{
}

/// A reader with no connected channel finds no timestamps.
pub proof fn law_no_channel_no_timestamps<O: Copy>(reader: RealTimeSamplesReceiver<O>)
    requires
        forall|k: int|
            0 <= k < reader.channels@.len() ==> newest(#[trigger] reader.channels@[k]) is None,
    ensures
        reader.end_timestamps() is None,
{
    let channels = channels_in_use(all_updated(reader.channels@));
    let ends = readable_ends(channels);
    assert forall|k: int| 0 <= k < channels.len() implies (#[trigger] channels[k]) is None by {
        assert(newest(reader.channels@[k]) is None);
    }
    if ends.len() > 0 {
        assert(ends.contains(ends[0]));
        law_ends_are_those_of_connected_channels(channels, ends[0]);
    }
}

/// A command to connect puts a channel without a past at its position, reading from the given source
/// with the given latency; one to disconnect leaves none there; the others change nothing. A command
/// fits exactly if its position is one of the channels.
pub proof fn law_effect_of_commands(
    channel_index: usize,
    source: RBOutput,
    latency_samples: usize,
    channels_count: nat,
)
    requires
        channel_index < usize::MAX,
    ensures
        ({
            let connect = Command::ConnectChannel { channel_index, source, latency_samples };
            let disconnect = Command::DisconnectChannel { channel_index };
            &&& connect.fits(channels_count) <==> channel_index < channels_count
            &&& disconnect.fits(channels_count) <==> channel_index < channels_count
            &&& Command::NoOp.fits(channels_count)
            &&& Command::Shutdown.fits(channels_count)
            &&& Command::NoOp.effect() is None
            &&& Command::Shutdown.effect() is None
            &&& disconnect.effect() == Some((channel_index as int, None::<Channel>))
            &&& connect.effect() is Some
            &&& ({
                let (index, connected) = connect.effect()->0;
                &&& index == channel_index
                &&& connected is Some
                &&& connected->0.id == channel_index + 1
                &&& connected->0.source == source
                &&& connected->0.latency_samples == latency_samples
                &&& connected->0.prev_holes_count == 0
                &&& !connected->0.was_connected
                &&& connected->0.callback_cursor is None
                &&& connected->0.callback_zero_fills == 0
            })
        }),
{
}

} // verus!
