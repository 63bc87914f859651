use inferno_aoip::common::{wrapped_diff, Clock, Sample};
use inferno_aoip::device_server::channel::{
    CallbackPlan, Channel, LossReason, LossReport, SANE_CLOCK_DIFF,
};
use inferno_aoip::device_server::samples_collector::{
    get_min_max_end_timestamps, new_realtime, Command, PeriodicSamplesCollector,
    RealTimeSamplesReceiver, ToRealTime, BUFFER_SIZE, CALLBACK_BLOCK_SIZE,
    MAX_CALLBACK_BLOCKS_PER_WAKE,
};
use inferno_aoip::real_time_box_channel::{channel, RealTimeBoxReceiver};
use inferno_aoip::ring_buffer::{RBOutput, ReadResult};

fn source(readable_until: Clock, samples: Vec<Sample>) -> RBOutput {
    RBOutput::new(readable_until, samples, 0)
}

fn channel_at(start_time: Clock) -> Channel {
    Channel {
        id: 1,
        source: source(start_time, Vec::new()),
        prev_holes_count: 0,
        latency_samples: 0,
        was_connected: false,
        callback_cursor: None,
        callback_zero_fills: 0,
    }
}

fn write_from_at(ch: &mut Channel, timestamp: Clock, values: impl Iterator<Item = Sample>) {
    let samples: Vec<Sample> = values.collect();
    ch.source = source(timestamp.wrapping_add(samples.len()), samples);
}

fn block(from: Sample) -> Vec<Sample> {
    (0..CALLBACK_BLOCK_SIZE).map(|i| from + i as Sample).collect()
}

#[test]
fn callback_channels_read_independent_timestamp_epochs() {
    let mut channel_a = channel_at(1_000);
    let mut channel_b = channel_at(1_000_000);
    let mut out_a = vec![0; CALLBACK_BLOCK_SIZE];
    let mut out_b = vec![0; CALLBACK_BLOCK_SIZE];

    write_from_at(&mut channel_a, 1_000, (0..CALLBACK_BLOCK_SIZE).map(|i| 100 + i as Sample));
    write_from_at(&mut channel_b, 1_000_000, (0..CALLBACK_BLOCK_SIZE).map(|i| 200 + i as Sample));

    channel_a.callback_cursor = Some(1_000);
    channel_b.callback_cursor = Some(1_000_000);

    channel_a.read_callback_block(CALLBACK_BLOCK_SIZE, &mut out_a);
    channel_b.read_callback_block(CALLBACK_BLOCK_SIZE, &mut out_b);

    assert_eq!(out_a, (0..CALLBACK_BLOCK_SIZE).map(|i| 100 + i as Sample).collect::<Vec<_>>());
    assert_eq!(out_b, (0..CALLBACK_BLOCK_SIZE).map(|i| 200 + i as Sample).collect::<Vec<_>>());
    assert_eq!(channel_a.callback_cursor, Some(1_000 + CALLBACK_BLOCK_SIZE as Clock));
    assert_eq!(channel_b.callback_cursor, Some(1_000_000 + CALLBACK_BLOCK_SIZE as Clock));
}

#[test]
fn callback_channel_resyncs_when_cursor_falls_too_far_behind() {
    let start_time = 1_000;
    let mut values = vec![0; CALLBACK_BLOCK_SIZE];
    let mut channel = channel_at(start_time);
    let latest_block_start = start_time + SANE_CLOCK_DIFF as Clock + 64;

    write_from_at(
        &mut channel,
        latest_block_start,
        (0..CALLBACK_BLOCK_SIZE).map(|i| 300 + i as Sample),
    );
    channel.callback_cursor = Some(start_time);

    channel.read_callback_block(CALLBACK_BLOCK_SIZE, &mut values);

    assert_eq!(values, (0..CALLBACK_BLOCK_SIZE).map(|i| 300 + i as Sample).collect::<Vec<_>>());
    assert_eq!(channel.callback_cursor, Some(latest_block_start + CALLBACK_BLOCK_SIZE as Clock));
}

#[test]
fn distances_go_the_short_way_round() {
    assert_eq!(wrapped_diff(5, 3), 2);
    assert_eq!(wrapped_diff(3, 5), -2);
    assert_eq!(wrapped_diff(1, usize::MAX), 2);
    assert_eq!(wrapped_diff(usize::MAX, 1), -2);
    assert_eq!(wrapped_diff(isize::MAX as usize + 1, 0), isize::MIN);
    assert_eq!(wrapped_diff(isize::MAX as usize, 0), isize::MAX);
}

#[test]
fn window_reads_what_it_holds() {
    let window = source(10, vec![6, 7, 8, 9]);
    let mut buffer = vec![-1; 6];
    let r = window.read_at(5, &mut buffer);
    assert_eq!(r, ReadResult { useful_start_index: 1, useful_end_index: 5 });
    assert_eq!(buffer, vec![-1, 6, 7, 8, 9, -1]);

    let mut buffer = vec![-1; 2];
    assert_eq!(
        window.read_at(7, &mut buffer),
        ReadResult { useful_start_index: 0, useful_end_index: 2 }
    );
    assert_eq!(buffer, vec![7, 8]);
    assert_eq!(
        window.read_at(10, &mut buffer),
        ReadResult { useful_start_index: 0, useful_end_index: 0 }
    );
    assert_eq!(
        window.read_at(3, &mut buffer),
        ReadResult { useful_start_index: 0, useful_end_index: 0 }
    );
    assert_eq!(buffer, vec![7, 8]);
}

#[test]
fn window_may_lie_across_the_wrap() {
    let window = source(2, vec![1, 2, 3, 4]);
    let mut buffer = vec![0; 4];
    let r = window.read_at(usize::MAX - 1, &mut buffer);
    assert_eq!(r, ReadResult { useful_start_index: 0, useful_end_index: 4 });
    assert_eq!(buffer, vec![1, 2, 3, 4]);
}

#[test]
fn missing_samples_are_silent_and_reported_once_connected() {
    let mut ch = channel_at(0);
    ch.source = source(104, vec![1, 2, 3, 4]);

    // Never connected: a block that is not there is silent, and nothing is lost.
    let mut buffer = vec![9; 4];
    assert!(ch.read_samples_from_ringbuffer(200, &mut buffer));
    assert_eq!(buffer, vec![0; 4]);
    assert!(!ch.was_connected);

    // A whole block.
    assert!(ch.read_samples_from_ringbuffer(100, &mut buffer));
    assert_eq!(buffer, vec![1, 2, 3, 4]);
    assert!(ch.was_connected);

    // Now a missing beginning, a missing end and a missing block all count.
    assert!(!ch.read_samples_from_ringbuffer(98, &mut buffer));
    assert_eq!(buffer, vec![0, 0, 1, 2]);
    assert!(!ch.read_samples_from_ringbuffer(102, &mut buffer));
    assert_eq!(buffer, vec![3, 4, 0, 0]);
    assert!(!ch.read_samples_from_ringbuffer(200, &mut buffer));
    assert_eq!(buffer, vec![0; 4]);
}

#[test]
fn first_partial_block_counts_as_a_loss_at_its_end_only() {
    let mut at_start = channel_at(0);
    at_start.source = source(104, vec![1, 2, 3, 4]);
    let mut buffer = vec![9; 4];
    assert!(at_start.read_samples_from_ringbuffer(98, &mut buffer));

    let mut at_end = channel_at(0);
    at_end.source = source(104, vec![1, 2, 3, 4]);
    assert!(!at_end.read_samples_from_ringbuffer(102, &mut buffer));
}

#[test]
fn new_gap_is_reported_once() {
    let mut ch = channel_at(0);
    ch.source = RBOutput::new(104, vec![1, 2, 3, 4], 3);
    let mut buffer = vec![9; 4];
    assert!(!ch.read_samples_from_ringbuffer(100, &mut buffer));
    assert_eq!(ch.prev_holes_count, 3);
    assert!(ch.read_samples_from_ringbuffer(100, &mut buffer));
    assert_eq!(buffer, vec![1, 2, 3, 4]);
}

#[test]
fn outcome_of_a_read_elsewhere_is_taken_in() {
    let mut ch = channel_at(0);
    ch.was_connected = true;
    let mut buffer = vec![1, 2, 3, 4];
    let r = ReadResult { useful_start_index: 3, useful_end_index: 1 };
    assert!(!ch.absorb_read(0, r, &mut buffer));
    assert_eq!(buffer, vec![0; 4]);

    let mut buffer = vec![1, 2, 3, 4];
    let r = ReadResult { useful_start_index: 1, useful_end_index: 4 };
    assert!(!ch.absorb_read(0, r, &mut buffer));
    assert_eq!(buffer, vec![0, 2, 3, 4]);
}

#[test]
fn channel_is_silent_until_a_block_has_arrived() {
    let mut ch = channel_at(1_000);
    let mut out = vec![7; CALLBACK_BLOCK_SIZE + 1];

    assert_eq!(ch.plan_callback_block(CALLBACK_BLOCK_SIZE), CallbackPlan::Bootstrap);
    ch.read_callback_block(CALLBACK_BLOCK_SIZE, &mut out);
    assert_eq!(ch.callback_cursor, Some(1_000));
    assert_eq!(ch.callback_zero_fills, 1);
    assert_eq!(out[..CALLBACK_BLOCK_SIZE], vec![0; CALLBACK_BLOCK_SIZE]);
    assert_eq!(out[CALLBACK_BLOCK_SIZE], 7);

    ch.read_callback_block(CALLBACK_BLOCK_SIZE, &mut out);
    assert_eq!(ch.callback_cursor, Some(1_000));
    assert_eq!(ch.callback_zero_fills, 2);

    // One sample short of a block.
    write_from_at(&mut ch, 1_000, (0..CALLBACK_BLOCK_SIZE - 1).map(|i| i as Sample));
    assert!(!ch.check_block_ready(CALLBACK_BLOCK_SIZE));
    ch.read_callback_block(CALLBACK_BLOCK_SIZE, &mut out);
    assert_eq!(ch.callback_zero_fills, 3);

    write_from_at(&mut ch, 1_000, (0..CALLBACK_BLOCK_SIZE).map(|i| 10 + i as Sample));
    assert!(ch.check_block_ready(CALLBACK_BLOCK_SIZE));
    ch.read_callback_block(CALLBACK_BLOCK_SIZE, &mut out);
    assert_eq!(out[..CALLBACK_BLOCK_SIZE], block(10));
    assert_eq!(ch.callback_cursor, Some(1_000 + CALLBACK_BLOCK_SIZE));
    assert_eq!(ch.callback_zero_fills, 0);
}

#[test]
fn silence_counter_stops_at_the_top() {
    let mut ch = channel_at(0);
    ch.callback_zero_fills = usize::MAX;
    let mut out = vec![1; 2];
    ch.fill_callback_zeros(&mut out);
    assert_eq!(ch.callback_zero_fills, usize::MAX);
    assert_eq!(out, vec![0, 0]);
}

#[test]
fn lag_at_the_limit_is_not_skipped() {
    let mut ch = channel_at(0);
    ch.source = source(SANE_CLOCK_DIFF, vec![1; 64]);
    ch.callback_cursor = Some(0);
    assert_eq!(ch.plan_callback_block(CALLBACK_BLOCK_SIZE), CallbackPlan::Read { start: 0 });
    ch.source = source(SANE_CLOCK_DIFF + 1, vec![1; 64]);
    assert_eq!(
        ch.plan_callback_block(CALLBACK_BLOCK_SIZE),
        CallbackPlan::Read { start: SANE_CLOCK_DIFF + 1 - CALLBACK_BLOCK_SIZE }
    );
}

#[test]
fn min_and_max_are_found_across_the_wrap() {
    assert_eq!(get_min_max_end_timestamps(&vec![]), None);
    assert_eq!(get_min_max_end_timestamps(&vec![5]), Some((5, 5)));
    assert_eq!(get_min_max_end_timestamps(&vec![5, 3, 9, 3]), Some((3, 9)));
    assert_eq!(
        get_min_max_end_timestamps(&vec![2, usize::MAX, 1]),
        Some((usize::MAX, 2))
    );
}

fn realtime(n: usize) -> (ToRealTime, RealTimeSamplesReceiver<u32>) {
    let (_, clock_recv) = channel(None);
    new_realtime(n, clock_recv)
}

fn carry(control: &mut ToRealTime, reader: &mut RealTimeSamplesReceiver<u32>) {
    for (sender, receiver) in control.senders.iter_mut().zip(reader.channels.iter_mut()) {
        if let Some(value) = sender.take() {
            receiver.deliver(value);
        }
    }
}

#[test]
fn realtime_reader_sees_connected_channels() {
    let (mut control, mut reader) = realtime(2);
    assert_eq!(reader.get_available_num_samples(0), 0);
    let mut buffer = vec![5; 2];
    assert!(reader.get_samples(0, 1, &mut buffer));
    assert_eq!(buffer, vec![0, 0]);

    assert!(control.handle_command(Some(Command::ConnectChannel {
        channel_index: 1,
        source: source(104, vec![1, 2, 3, 4]),
        latency_samples: 1,
    })));
    carry(&mut control, &mut reader);
    assert_eq!(reader.get_available_num_samples(100), 4);
    assert_eq!(reader.get_available_num_samples(104), 0);
    assert_eq!(reader.get_available_num_samples(110), 0);
    // The block of two samples ends one sample of latency before 104.
    assert!(reader.get_samples(104, 1, &mut buffer));
    assert_eq!(buffer, vec![2, 3]);
    assert_eq!(reader.channels[1].get().as_ref().unwrap().id, 2);

    assert!(control.handle_command(Some(Command::ConnectChannel {
        channel_index: 0,
        source: source(102, vec![1, 2]),
        latency_samples: 0,
    })));
    carry(&mut control, &mut reader);
    assert_eq!(reader.get_available_num_samples(100), 2);
    assert_eq!(reader.get_min_max_end_timestamps(), Some((102, 104)));

    assert!(control.handle_command(Some(Command::DisconnectChannel { channel_index: 1 })));
    carry(&mut control, &mut reader);
    assert!(reader.get_samples(104, 1, &mut buffer));
    assert_eq!(buffer, vec![0, 0]);
}

#[test]
fn commands_end_with_shutdown() {
    let (mut control, _) = realtime(1);
    assert!(control.handle_command(Some(Command::NoOp)));
    assert!(control.senders[0].outgoing.is_none());
    assert!(!control.handle_command(Some(Command::Shutdown)));
    assert!(!control.handle_command(None));

    let mut collector = PeriodicSamplesCollector::new(1);
    assert!(collector.handle_command(Some(Command::NoOp)));
    assert!(!collector.handle_command(Some(Command::Shutdown)));
    assert!(!collector.handle_command(None));
}

#[test]
fn clock_takes_over_the_newest_overlay() {
    let (_, mut reader) = realtime(0);
    assert_eq!(*reader.clock().get_overlay(), None);
    reader.clock_recv.deliver(Some(7));
    assert_eq!(*reader.clock().get_overlay(), Some(7));
    // An overlay that is withdrawn leaves the last one.
    reader.clock_recv.deliver(None);
    assert_eq!(*reader.clock().get_overlay(), Some(7));
    reader.clock_recv.deliver(Some(8));
    reader.clock_recv.deliver(Some(9));
    assert_eq!(*reader.clock().get_overlay(), Some(9));
}

#[test]
fn mailbox_keeps_the_newest_value() {
    let (mut sender, mut receiver): (_, RealTimeBoxReceiver<u8>) = channel(0);
    sender.send(1);
    sender.send(2);
    assert_eq!(*receiver.get(), 0);
    receiver.deliver(sender.take().unwrap());
    assert_eq!(sender.take(), None);
    assert_eq!(*receiver.get(), 0);
    assert!(receiver.update());
    assert!(!receiver.update());
    assert_eq!(*receiver.get(), 2);
    *receiver.get_mut() = 3;
    assert_eq!(*receiver.get(), 3);
}

#[test]
fn collector_delivers_blocks_of_all_channels() {
    let mut collector = PeriodicSamplesCollector::new(3);
    let mut buffers = collector.new_buffers();
    assert_eq!(buffers.len(), 3);
    assert_eq!(buffers[0], vec![0; BUFFER_SIZE]);
    assert!(!collector.next_callback_block(0, CALLBACK_BLOCK_SIZE, &mut buffers));

    for index in [0, 2] {
        assert!(collector.handle_command(Some(Command::ConnectChannel {
            channel_index: index,
            source: source(1_000, Vec::new()),
            latency_samples: 0,
        })));
    }
    assert_eq!(collector.get_min_max_end_timestamps(), Some((1_000, 1_000)));
    assert!(!collector.has_callback_block_ready(CALLBACK_BLOCK_SIZE));
    assert_eq!(collector.channels[0].as_ref().unwrap().callback_cursor, Some(1_000));
    assert_eq!(collector.channels[2].as_ref().unwrap().id, 3);

    // Two blocks for channel 2, nothing for channel 0.
    let two: Vec<Sample> = (0..2 * CALLBACK_BLOCK_SIZE).map(|i| 1 + i as Sample).collect();
    collector.channels[2].as_mut().unwrap().source = source(1_000 + two.len(), two.clone());
    buffers[1][0] = 77;
    buffers[1][CALLBACK_BLOCK_SIZE] = 78;
    assert!(collector.next_callback_block(0, CALLBACK_BLOCK_SIZE, &mut buffers));
    assert_eq!(buffers[0][..CALLBACK_BLOCK_SIZE], vec![0; CALLBACK_BLOCK_SIZE]);
    assert_eq!(buffers[1][0], 0);
    assert_eq!(buffers[1][CALLBACK_BLOCK_SIZE], 78);
    assert_eq!(buffers[2][..CALLBACK_BLOCK_SIZE], two[..CALLBACK_BLOCK_SIZE]);
    assert_eq!(
        collector.channels[2].as_ref().unwrap().source.done_until,
        Some(1_000 + CALLBACK_BLOCK_SIZE)
    );
    assert!(collector.next_callback_block(1, CALLBACK_BLOCK_SIZE, &mut buffers));
    assert_eq!(buffers[2][..CALLBACK_BLOCK_SIZE], two[CALLBACK_BLOCK_SIZE..]);
    assert!(!collector.next_callback_block(2, CALLBACK_BLOCK_SIZE, &mut buffers));

    assert!(collector.handle_command(Some(Command::DisconnectChannel { channel_index: 2 })));
    assert!(collector.channels[2].is_none());
    assert!(collector.channels[0].is_some());
}

#[test]
fn collector_stops_after_a_number_of_blocks() {
    let mut collector = PeriodicSamplesCollector::new(1);
    let mut buffers = collector.new_buffers();
    let mut ch = channel_at(0);
    let count = (MAX_CALLBACK_BLOCKS_PER_WAKE + 2) * CALLBACK_BLOCK_SIZE;
    ch.source = source(count, vec![1; count]);
    ch.callback_cursor = Some(0);
    collector.channels[0] = Some(ch);
    let mut delivered = 0;
    while collector.next_callback_block(delivered, CALLBACK_BLOCK_SIZE, &mut buffers) {
        delivered += 1;
    }
    assert_eq!(delivered, 8);
    assert!(collector.has_callback_block_ready(CALLBACK_BLOCK_SIZE));
}

#[test]
fn search_stops_at_the_first_ready_channel() {
    let mut collector = PeriodicSamplesCollector::new(3);
    collector.channels[0] = Some(channel_at(5));
    let mut ready = channel_at(0);
    ready.source = source(CALLBACK_BLOCK_SIZE, block(1));
    ready.callback_cursor = Some(0);
    collector.channels[1] = Some(ready);
    collector.channels[2] = Some(channel_at(6));
    assert!(collector.has_callback_block_ready(CALLBACK_BLOCK_SIZE));
    assert_eq!(collector.channels[0].as_ref().unwrap().callback_cursor, Some(5));
    assert_eq!(collector.channels[1].as_ref().unwrap().callback_cursor, Some(0));
    assert_eq!(collector.channels[2].as_ref().unwrap().callback_cursor, None);
    assert!(collector.has_callback_block_ready(CALLBACK_BLOCK_SIZE));
    assert_eq!(collector.channels[2].as_ref().unwrap().callback_cursor, None);
}

#[test]
fn other_channels_do_not_change_what_a_channel_delivers() {
    let mut ready = channel_at(0);
    ready.source = source(CALLBACK_BLOCK_SIZE, block(1));
    ready.callback_cursor = Some(0);

    // The search comes to the new channel only in the second collector.
    let mut first = PeriodicSamplesCollector::new(2);
    first.channels[0] = Some(ready.clone());
    first.channels[1] = Some(channel_at(700));
    let mut second = PeriodicSamplesCollector::new(3);
    second.channels[1] = Some(channel_at(700));
    second.channels[2] = Some(ready);

    let mut a = first.new_buffers();
    let mut b = second.new_buffers();
    assert!(first.next_callback_block(0, CALLBACK_BLOCK_SIZE, &mut a));
    assert!(second.next_callback_block(0, CALLBACK_BLOCK_SIZE, &mut b));
    assert_eq!(a[1], b[1]);
    let (x, y) = (first.channels[1].as_ref().unwrap(), second.channels[1].as_ref().unwrap());
    assert_eq!(x.callback_cursor, Some(700));
    assert_eq!(x.callback_cursor, y.callback_cursor);
    assert_eq!(x.callback_zero_fills, 1);
    assert_eq!(x.callback_zero_fills, y.callback_zero_fills);
}

#[test]
fn read_position_lies_before_latency_and_block() {
    let mut ch = channel_at(0);
    ch.latency_samples = 100;
    assert_eq!(ch.read_position(1_000, 32), 868);
    assert_eq!(ch.read_position(100, 32), usize::MAX - 31);
}

#[test]
fn losses_are_reported_with_place_and_reason() {
    let mut ch = channel_at(0);
    ch.source = RBOutput::new(104, vec![1, 2, 3, 4], 1);
    // Never connected: only the gap, and the end of a block whose beginning was there.
    assert_eq!(
        ch.read_losses(102, 4),
        vec![
            LossReport { timestamp: 102, num_samples: 4, reason: LossReason::ReorderTimeout },
            LossReport { timestamp: 104, num_samples: 2, reason: LossReason::Underrun },
        ]
    );
    ch.prev_holes_count = 1;
    assert_eq!(ch.read_losses(200, 4), vec![]);
    assert_eq!(ch.read_losses(100, 4), vec![]);
    ch.was_connected = true;
    assert_eq!(
        ch.read_losses(98, 10),
        vec![
            LossReport {
                timestamp: 98,
                num_samples: 2,
                reason: LossReason::UnderrunOrOverwritten
            },
            LossReport { timestamp: 104, num_samples: 4, reason: LossReason::Underrun },
        ]
    );
    let r = ReadResult { useful_start_index: 0, useful_end_index: 1 };
    assert_eq!(
        ch.lost_samples(usize::MAX, 1, r, 3),
        vec![LossReport { timestamp: 0, num_samples: 2, reason: LossReason::Underrun }]
    );
}

#[test]
fn long_silence_is_warned_of() {
    let mut ch = channel_at(0);
    let mut due = vec![];
    for _ in 0..20_001 {
        ch.fill_callback_zeros(&mut []);
        if ch.silence_warning_due() {
            due.push(ch.callback_zero_fills);
        }
    }
    assert_eq!(due, vec![1_000, 10_000, 20_000]);
    assert!(!channel_at(0).silence_warning_due());
}

#[test]
fn silence_tells_whether_part_of_a_block_is_there() {
    let mut ch = channel_at(0);
    ch.callback_cursor = Some(0);
    assert_eq!(
        ch.plan_callback_block(CALLBACK_BLOCK_SIZE),
        CallbackPlan::Silence { partial: false }
    );
    ch.source = source(31, vec![1; 31]);
    assert_eq!(
        ch.plan_callback_block(CALLBACK_BLOCK_SIZE),
        CallbackPlan::Silence { partial: true }
    );
}

#[test]
fn window_need_not_reach_the_readable_end() {
    let window = RBOutput::with_window(110, 100, vec![1, 2, 3], 0);
    assert_eq!(window.readable_until(), 110);
    let mut buffer = vec![-1; 6];
    assert_eq!(
        window.read_at(99, &mut buffer),
        ReadResult { useful_start_index: 1, useful_end_index: 4 }
    );
    assert_eq!(buffer, vec![-1, 1, 2, 3, -1, -1]);

    // What is there is played, and the rest is silent.
    let mut ch = channel_at(0);
    ch.source = window;
    ch.callback_cursor = Some(101);
    let mut out = vec![9; 4];
    ch.read_callback_block(4, &mut out);
    assert_eq!(out, vec![2, 3, 0, 0]);
    assert_eq!(ch.callback_cursor, Some(105));
}

#[test]
fn reading_goes_on_where_it_stopped_in_a_newer_window() {
    let mut ch = channel_at(1_000);
    ch.callback_cursor = Some(1_000);
    let mut out = vec![0; CALLBACK_BLOCK_SIZE];
    ch.source = source(1_032, block(1));
    ch.read_callback_block(CALLBACK_BLOCK_SIZE, &mut out);
    // Nothing new: silence, and the reader stays.
    ch.read_callback_block(CALLBACK_BLOCK_SIZE, &mut out);
    assert_eq!(ch.callback_cursor, Some(1_032));
    ch.source = source(1_072, (100..140).collect());
    ch.read_callback_block(CALLBACK_BLOCK_SIZE, &mut out);
    assert_eq!(out, block(100));
    assert_eq!(ch.callback_cursor, Some(1_064));
}

#[test]
fn gap_is_reported_once_whatever_the_first_read_found() {
    let mut ch = channel_at(0);
    ch.source = RBOutput::new(104, vec![1, 2, 3, 4], 2);
    let mut buffer = vec![0; 4];
    assert!(!ch.read_samples_from_ringbuffer(102, &mut buffer));
    ch.source = RBOutput::new(108, vec![5, 6, 7, 8], 2);
    assert!(ch.read_samples_from_ringbuffer(104, &mut buffer));
}
