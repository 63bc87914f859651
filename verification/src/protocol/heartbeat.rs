//! The contents of the heartbeat packets: typed blocks, one behind the other.

use bytebuffer::ByteBuffer;
use vstd::prelude::*;
use vstd::slice::slice_to_vec;
use crate::byte_utils::{
    appends_big_endian, be16, be32, be32_signed, buffer_bytes, law_be32_signed_reads_back,
    lemma_bytes_are_the_number, lemma_words_of_a_part, smaller, u16_at, u32_at, zeros,
};

verus! {

/// What is measured of one received flow between two heartbeats.
#[derive(Debug, Clone, Copy)]
pub struct FlowInfo {
    /// The largest latency of a packet, in samples.
    pub actual_latency_samples: i32,
    /// How many packets came too late.
    pub missed_packets: u32,
}

/// What is counted between two heartbeats.
#[derive(Debug)]
pub struct Telemetry {
    pub tx_bytes: u64,
    pub rx_bytes: u64,
    pub tx_errors: u32,
    pub rx_errors: u32,
    /// The flows by their local number, once there is something that subscribes to flows.
    pub flows: Option<Vec<Option<FlowInfo>>>,
}

/// The beginning of a block of `length` bytes in all.
pub open spec fn block_header(length: int, kind: int, content_length: int, ctr: u16) -> Seq<u8> {
    be16(length) + be16(kind) + be16(4) + be16(content_length) + be16(ctr as int) + be16(0)
}

/// The network utilization since the last heartbeat. Byte counts that do not fit are cut to the
/// largest number that does.
pub open spec fn utilization_block(
    ctr: u16,
    tx_bytes: u64,
    rx_bytes: u64,
    tx_errors: u32,
    rx_errors: u32,
) -> Seq<u8> {
    block_header(36, 0x8000, 4, ctr) + be16(0x0010) + be16(0x0000) + be16(0x0001) + be16(0x0010)
        + be32(smaller(tx_bytes as int, u32::MAX as int)) + be32(
        smaller(rx_bytes as int, u32::MAX as int),
    ) + be32(tx_errors as int) + be32(rx_errors as int)
}

/// The frequency offset of the clock in parts per billion.
pub open spec fn clock_block(ctr: u16, freq_offset: i32) -> Seq<u8> {
    block_header(16, 0x8001, 4, ctr) + be32_signed(freq_offset as int)
}

/// How many bytes the peaks take, rounded up to a multiple of four.
pub open spec fn padded_peaks_length(tx_peaks: Seq<u8>, rx_peaks: Seq<u8>) -> int {
    ((tx_peaks.len() + rx_peaks.len() + 3) / 4 * 4) as int
}

/// The peak level of each transmit and then of each receive channel, behind how many of each there
/// are.
pub open spec fn peaks_block(
    ctr: u16,
    tx_peaks: Seq<u8>,
    rx_peaks: Seq<u8>,
    bits_per_sample: u8,
) -> Seq<u8> {
    let padded = padded_peaks_length(tx_peaks, rx_peaks);
    block_header(24 + padded, 0x8002, 12 + padded, ctr) + be16(tx_peaks.len() as int) + be16(0)
        + be16(rx_peaks.len() as int) + be16(0) + be16(bits_per_sample as int) + be16(0) + tx_peaks
        + rx_peaks + zeros((padded - tx_peaks.len() - rx_peaks.len()) as nat)
}

/// The latency that is reported of a flow: none of a flow that is not there, and no negative one.
pub open spec fn reported_latency(flow: Option<FlowInfo>) -> int {
    match flow {
        Some(info) => if info.actual_latency_samples < 0 {
            0
        } else {
            info.actual_latency_samples as int
        },
        None => 0,
    }
}

/// The number of late packets that is reported of a flow.
pub open spec fn reported_missed(flow: Option<FlowInfo>) -> int {
    match flow {
        Some(info) => info.missed_packets as int,
        None => 0,
    }
}

/// The bytes of the latencies of all flows.
pub open spec fn latency_words(flows: Seq<Option<FlowInfo>>) -> Seq<u8>
    decreases flows.len(),
{
    if flows.len() == 0 {
        Seq::empty()
    } else {
        latency_words(flows.drop_last()) + be32(reported_latency(flows.last()))
    }
}

/// The bytes of the late packet counts of all flows.
pub open spec fn missed_words(flows: Seq<Option<FlowInfo>>) -> Seq<u8>
    decreases flows.len(),
{
    if flows.len() == 0 {
        Seq::empty()
    } else {
        missed_words(flows.drop_last()) + be32(reported_missed(flows.last()))
    }
}

/// The latency of each flow since the last heartbeat.
pub open spec fn latency_block(ctr: u16, sample_rate: u32, flows: Seq<Option<FlowInfo>>) -> Seq<
    u8,
> {
    let n = flows.len() as int;
    block_header(24 + 4 * n, 0x8003, 12 + 4 * n, ctr) + be16(n) + be16(0) + be16(24) + be16(0)
        + be32(sample_rate as int) + latency_words(flows)
}

/// The number of late packets of each flow since the last heartbeat.
pub open spec fn missed_block(ctr: u16, flows: Seq<Option<FlowInfo>>) -> Seq<u8> {
    let n = flows.len() as int;
    block_header(20 + 4 * n, 0x8004, 8 + 4 * n, ctr) + be16(n) + be16(0) + be16(20) + be16(0)
        + missed_words(flows)
}

/// The content of the first heartbeat packet: utilization, clock and peaks.
pub open spec fn utilization_content(
    ctr: u16,
    freq_offset: i32,
    tx_peaks: Seq<u8>,
    rx_peaks: Seq<u8>,
    bits_per_sample: u8,
    counted: Telemetry,
) -> Seq<u8> {
    utilization_block(
        ctr,
        counted.tx_bytes,
        counted.rx_bytes,
        counted.tx_errors,
        counted.rx_errors,
    ) + clock_block(ctr, freq_offset) + peaks_block(ctr, tx_peaks, rx_peaks, bits_per_sample)
}

/// The content of the second heartbeat packet: latencies and late packets.
pub open spec fn latency_content(ctr: u16, sample_rate: u32, flows: Seq<Option<FlowInfo>>) -> Seq<
    u8,
> {
    latency_block(ctr, sample_rate, flows) + missed_block(ctr, flows)
}

/// Appends the beginning of a block.
fn write_block_header(
    bytes: &mut ByteBuffer,
    length: u16,
    kind: u16,
    content_length: u16,
    ctr: u16,
)
    requires
        appends_big_endian(*old(bytes)),
    ensures
        appends_big_endian(*final(bytes)),
        buffer_bytes(*final(bytes)) == buffer_bytes(*old(bytes)) + block_header(
            length as int,
            kind as int,
            content_length as int,
            ctr,
        ),
{
    bytes.write_u16(length);
    bytes.write_u16(kind);
    bytes.write_u16(4);
    bytes.write_u16(content_length);
    bytes.write_u16(ctr);
    bytes.write_u16(0);
    assert(buffer_bytes(*bytes) =~= buffer_bytes(*old(bytes)) + block_header(
        length as int,
        kind as int,
        content_length as int,
        ctr,
    ));
}

/// A byte count as far as 32 bits hold it.
fn clamp_to_u32(n: u64) -> (r: u32)
    ensures
        r == smaller(n as int, u32::MAX as int),
{
    if n < u32::MAX as u64 {
        n as u32
    } else {
        u32::MAX
    }
}

/// Appends the utilization block.
fn write_utilization_block(bytes: &mut ByteBuffer, ctr: u16, counted: &Telemetry)
    requires
        appends_big_endian(*old(bytes)),
    ensures
        appends_big_endian(*final(bytes)),
        buffer_bytes(*final(bytes)) == buffer_bytes(*old(bytes)) + utilization_block(
            ctr,
            counted.tx_bytes,
            counted.rx_bytes,
            counted.tx_errors,
            counted.rx_errors,
        ),
{
    write_block_header(bytes, 36, 0x8000, 4, ctr);
    bytes.write_u16(0x0010);
    bytes.write_u16(0x0000);
    bytes.write_u16(0x0001);
    bytes.write_u16(0x0010);
    bytes.write_u32(clamp_to_u32(counted.tx_bytes));
    bytes.write_u32(clamp_to_u32(counted.rx_bytes));
    bytes.write_u32(counted.tx_errors);
    bytes.write_u32(counted.rx_errors);
    assert(buffer_bytes(*bytes) =~= buffer_bytes(*old(bytes)) + utilization_block(
        ctr,
        counted.tx_bytes,
        counted.rx_bytes,
        counted.tx_errors,
        counted.rx_errors,
    ));
}

/// Appends the clock block.
fn write_clock_block(bytes: &mut ByteBuffer, ctr: u16, freq_offset: i32)
    requires
        appends_big_endian(*old(bytes)),
    ensures
        appends_big_endian(*final(bytes)),
        buffer_bytes(*final(bytes)) == buffer_bytes(*old(bytes)) + clock_block(ctr, freq_offset),
{
    write_block_header(bytes, 16, 0x8001, 4, ctr);
    bytes.write_i32(freq_offset);
    assert(buffer_bytes(*bytes) =~= buffer_bytes(*old(bytes)) + clock_block(ctr, freq_offset));
}

/// Appends `n` zero bytes.
fn write_zeros(bytes: &mut ByteBuffer, n: usize)
    requires
        appends_big_endian(*old(bytes)),
    ensures
        appends_big_endian(*final(bytes)),
        buffer_bytes(*final(bytes)) == buffer_bytes(*old(bytes)) + zeros(n as nat),
{
    let mut i: usize = 0;
    assert(buffer_bytes(*bytes) =~= buffer_bytes(*old(bytes)) + zeros(0));
    while i < n
        invariant
            i <= n,
            appends_big_endian(*bytes),
            buffer_bytes(*bytes) == buffer_bytes(*old(bytes)) + zeros(i as nat),
        decreases n - i,
    {
        bytes.write_u8(0);
        i += 1;
        assert(buffer_bytes(*bytes) =~= buffer_bytes(*old(bytes)) + zeros(i as nat));
    }
}

/// Appends the peaks block.
#[verifier::rlimit(40)]
fn write_peaks_block(
    bytes: &mut ByteBuffer,
    ctr: u16,
    tx_peaks: &[u8],
    rx_peaks: &[u8],
    bits_per_sample: u8,
)
    requires
        appends_big_endian(*old(bytes)),
        24 + padded_peaks_length(tx_peaks@, rx_peaks@) <= u16::MAX,
    ensures
        appends_big_endian(*final(bytes)),
        buffer_bytes(*final(bytes)) == buffer_bytes(*old(bytes)) + peaks_block(
            ctr,
            tx_peaks@,
            rx_peaks@,
            bits_per_sample,
        ),
{
    let peak_bytes: usize = tx_peaks.len() + rx_peaks.len();
    let padded: usize = (peak_bytes + 3) / 4 * 4;
    let data_len: u16 = (12 + padded) as u16;
    write_block_header(bytes, 12 + data_len, 0x8002, data_len, ctr);
    bytes.write_u16(tx_peaks.len() as u16);
    bytes.write_u16(0);
    bytes.write_u16(rx_peaks.len() as u16);
    bytes.write_u16(0);
    bytes.write_u16(bits_per_sample as u16);
    bytes.write_u16(0);
    bytes.write_bytes(tx_peaks);
    bytes.write_bytes(rx_peaks);
    write_zeros(bytes, padded - peak_bytes);
    assert(buffer_bytes(*bytes) =~= buffer_bytes(*old(bytes)) + peaks_block(
        ctr,
        tx_peaks@,
        rx_peaks@,
        bits_per_sample,
    ));
}

/// Writes the content of the first heartbeat packet.
pub fn write_utilization_content(
    ctr: u16,
    freq_offset: i32,
    tx_peaks: &[u8],
    rx_peaks: &[u8],
    bits_per_sample: u8,
    counted: &Telemetry,
) -> (content: Vec<u8>)
    requires
        24 + padded_peaks_length(tx_peaks@, rx_peaks@) <= u16::MAX,
    ensures
        content@ == utilization_content(
            ctr,
            freq_offset,
            tx_peaks@,
            rx_peaks@,
            bits_per_sample,
            *counted,
        ),
        content@.len() == 76 + padded_peaks_length(tx_peaks@, rx_peaks@),
{
    proof {
        law_first_packet_blocks(ctr, freq_offset, tx_peaks@, rx_peaks@, bits_per_sample, *counted);
    }
    let mut bytes = ByteBuffer::new();
    write_utilization_block(&mut bytes, ctr, counted);
    write_clock_block(&mut bytes, ctr, freq_offset);
    write_peaks_block(&mut bytes, ctr, tx_peaks, rx_peaks, bits_per_sample);
    assert(buffer_bytes(bytes) =~= utilization_content(
        ctr,
        freq_offset,
        tx_peaks@,
        rx_peaks@,
        bits_per_sample,
        *counted,
    ));
    slice_to_vec(bytes.as_bytes())
}

/// Appends the latency block.
fn write_latency_block(
    bytes: &mut ByteBuffer,
    ctr: u16,
    sample_rate: u32,
    flows: &Vec<Option<FlowInfo>>,
)
    requires
        appends_big_endian(*old(bytes)),
        24 + 4 * flows@.len() <= u16::MAX,
    ensures
        appends_big_endian(*final(bytes)),
        buffer_bytes(*final(bytes)) == buffer_bytes(*old(bytes)) + latency_block(
            ctr,
            sample_rate,
            flows@,
        ),
{
    let flows_count: u16 = flows.len() as u16;
    write_block_header(bytes, 24 + flows_count * 4, 0x8003, 12 + flows_count * 4, ctr);
    bytes.write_u16(flows_count);
    bytes.write_u16(0);
    bytes.write_u16(24);
    bytes.write_u16(0);
    bytes.write_u32(sample_rate);
    let ghost before = buffer_bytes(*bytes);
    let mut i: usize = 0;
    while i < flows.len()
        invariant
            i <= flows@.len(),
            appends_big_endian(*bytes),
            buffer_bytes(*bytes) == before + latency_words(flows@.take(i as int)),
        decreases flows@.len() - i,
    {
        let latency: u32 = match flows[i] {
            Some(info) => if info.actual_latency_samples < 0 {
                0
            } else {
                info.actual_latency_samples as u32
            },
            None => 0,
        };
        bytes.write_u32(latency);
        assert(flows@.take(i + 1).drop_last() =~= flows@.take(i as int));
        i += 1;
        assert(buffer_bytes(*bytes) =~= before + latency_words(flows@.take(i as int)));
    }
    assert(flows@.take(i as int) =~= flows@);
    assert(buffer_bytes(*bytes) =~= buffer_bytes(*old(bytes)) + latency_block(
        ctr,
        sample_rate,
        flows@,
    ));
}

/// Appends the late packets block.
fn write_missed_block(bytes: &mut ByteBuffer, ctr: u16, flows: &Vec<Option<FlowInfo>>)
    requires
        appends_big_endian(*old(bytes)),
        20 + 4 * flows@.len() <= u16::MAX,
    ensures
        appends_big_endian(*final(bytes)),
        buffer_bytes(*final(bytes)) == buffer_bytes(*old(bytes)) + missed_block(ctr, flows@),
{
    let flows_count: u16 = flows.len() as u16;
    write_block_header(bytes, 20 + flows_count * 4, 0x8004, 8 + flows_count * 4, ctr);
    bytes.write_u16(flows_count);
    bytes.write_u16(0);
    bytes.write_u16(20);
    bytes.write_u16(0);
    let ghost before = buffer_bytes(*bytes);
    let mut i: usize = 0;
    while i < flows.len()
        invariant
            i <= flows@.len(),
            appends_big_endian(*bytes),
            buffer_bytes(*bytes) == before + missed_words(flows@.take(i as int)),
        decreases flows@.len() - i,
    {
        let missed: u32 = match flows[i] {
            Some(info) => info.missed_packets,
            None => 0,
        };
        bytes.write_u32(missed);
        assert(flows@.take(i + 1).drop_last() =~= flows@.take(i as int));
        i += 1;
        assert(buffer_bytes(*bytes) =~= before + missed_words(flows@.take(i as int)));
    }
    assert(flows@.take(i as int) =~= flows@);
    assert(buffer_bytes(*bytes) =~= buffer_bytes(*old(bytes)) + missed_block(ctr, flows@));
}

/// Writes the content of the second heartbeat packet.
pub fn write_latency_content(
    ctr: u16,
    sample_rate: u32,
    flows: &Vec<Option<FlowInfo>>,
) -> (content: Vec<u8>)
    requires
        24 + 4 * flows@.len() <= u16::MAX,
    ensures
        content@ == latency_content(ctr, sample_rate, flows@),
        content@.len() == 44 + 8 * flows@.len(),
{
    proof {
        law_second_packet_blocks(ctr, sample_rate, flows@);
    }
    let mut bytes = ByteBuffer::new();
    write_latency_block(&mut bytes, ctr, sample_rate, flows);
    write_missed_block(&mut bytes, ctr, flows);
    assert(buffer_bytes(bytes) =~= latency_content(ctr, sample_rate, flows@));
    slice_to_vec(bytes.as_bytes())
}

/// Whether a block begins with its own length and its kind, and carries the number `ctr`.
pub open spec fn is_block(block: Seq<u8>, kind: int, ctr: u16) -> bool {
    &&& block.len() >= 12
    &&& block.subrange(0, 2) == be16(block.len() as int)
    &&& block.subrange(2, 4) == be16(kind)
    &&& block.subrange(8, 10) == be16(ctr as int)
}

/// The words of `flows` are four bytes for each flow, those of flow `i` at `4 * i`.
pub proof fn law_flow_words(flows: Seq<Option<FlowInfo>>)
    ensures
        latency_words(flows).len() == 4 * flows.len(),
        missed_words(flows).len() == 4 * flows.len(),
        forall|i: int|
            0 <= i < flows.len() ==> {
                &&& #[trigger] latency_words(flows).subrange(4 * i, 4 * i + 4) == be32(
                    reported_latency(flows[i]),
                )
                &&& missed_words(flows).subrange(4 * i, 4 * i + 4) == be32(
                    reported_missed(flows[i]),
                )
            },
    decreases flows.len(),
{
    if flows.len() > 0 {
        let before = flows.drop_last();
        law_flow_words(before);
        assert forall|i: int| 0 <= i < flows.len() implies {
            &&& #[trigger] latency_words(flows).subrange(4 * i, 4 * i + 4) == be32(
                reported_latency(flows[i]),
            )
            &&& missed_words(flows).subrange(4 * i, 4 * i + 4) == be32(reported_missed(flows[i]))
        } by {
            if i < before.len() {
                assert(latency_words(before).subrange(4 * i, 4 * i + 4) == be32(
                    reported_latency(before[i]),
                ));
                assert(latency_words(flows).subrange(4 * i, 4 * i + 4) =~= latency_words(
                    before,
                ).subrange(4 * i, 4 * i + 4));
                assert(missed_words(flows).subrange(4 * i, 4 * i + 4) =~= missed_words(
                    before,
                ).subrange(4 * i, 4 * i + 4));
            } else {
                assert(latency_words(flows).subrange(4 * i, 4 * i + 4) =~= be32(
                    reported_latency(flows[i]),
                ));
                assert(missed_words(flows).subrange(4 * i, 4 * i + 4) =~= be32(
                    reported_missed(flows[i]),
                ));
            }
        }
    }
}

/// The first heartbeat packet holds the utilization, clock and peaks blocks, in this order and
/// nothing else. Each states its length, and all carry the number of their group.
#[verifier::rlimit(40)]
pub proof fn law_first_packet_blocks(
    ctr: u16,
    freq_offset: i32,
    tx_peaks: Seq<u8>,
    rx_peaks: Seq<u8>,
    bits_per_sample: u8,
    counted: Telemetry,
)
    ensures
        ({
            let content = utilization_content(
                ctr,
                freq_offset,
                tx_peaks,
                rx_peaks,
                bits_per_sample,
                counted,
            );
            let len = 76 + padded_peaks_length(tx_peaks, rx_peaks);
            &&& content.len() == len
            &&& is_block(content.subrange(0, 36), 0x8000, ctr)
            &&& is_block(content.subrange(36, 52), 0x8001, ctr)
            &&& is_block(content.subrange(52, len), 0x8002, ctr)
        }),
{
    let content = utilization_content(
        ctr,
        freq_offset,
        tx_peaks,
        rx_peaks,
        bits_per_sample,
        counted,
    );
    let len = 76 + padded_peaks_length(tx_peaks, rx_peaks);
    let a = utilization_block(
        ctr,
        counted.tx_bytes,
        counted.rx_bytes,
        counted.tx_errors,
        counted.rx_errors,
    );
    let b = clock_block(ctr, freq_offset);
    let c = peaks_block(ctr, tx_peaks, rx_peaks, bits_per_sample);
    assert(a.len() == 36);
    assert(b.len() == 16);
    assert(c.len() == 24 + padded_peaks_length(tx_peaks, rx_peaks));
    assert(is_block(a, 0x8000, ctr)) by {
        assert(a.subrange(0, 2) =~= be16(36));
        assert(a.subrange(2, 4) =~= be16(0x8000));
        assert(a.subrange(8, 10) =~= be16(ctr as int));
    }
    assert(is_block(b, 0x8001, ctr)) by {
        assert(b.subrange(0, 2) =~= be16(16));
        assert(b.subrange(2, 4) =~= be16(0x8001));
        assert(b.subrange(8, 10) =~= be16(ctr as int));
    }
    assert(is_block(c, 0x8002, ctr)) by {
        assert(c.subrange(0, 2) =~= be16(c.len() as int));
        assert(c.subrange(2, 4) =~= be16(0x8002));
        assert(c.subrange(8, 10) =~= be16(ctr as int));
    }
    lemma_three_parts(a, b, c);
}

/// The parts of what was put together are found again.
proof fn lemma_three_parts(a: Seq<u8>, b: Seq<u8>, c: Seq<u8>)
    ensures
        ({
            let whole = a + b + c;
            let n = a.len() as int;
            let m = n + b.len();
            &&& whole.subrange(0, n) == a
            &&& whole.subrange(n, m) == b
            &&& whole.subrange(m, whole.len() as int) == c
        }),
{
    let whole = a + b + c;
    let n = a.len() as int;
    let m = n + b.len();
    assert(whole.subrange(0, n) =~= a);
    assert(whole.subrange(n, m) =~= b);
    assert(whole.subrange(m, whole.len() as int) =~= c);
}

/// The second heartbeat packet holds the latency and late packets blocks, in this order and
/// nothing else. Each states its length, and both carry the number of their group.
#[verifier::rlimit(40)]
pub proof fn law_second_packet_blocks(ctr: u16, sample_rate: u32, flows: Seq<Option<FlowInfo>>)
    ensures
        ({
            let content = latency_content(ctr, sample_rate, flows);
            let n = flows.len() as int;
            &&& content.len() == 44 + 8 * n
            &&& is_block(content.subrange(0, 24 + 4 * n), 0x8003, ctr)
            &&& is_block(content.subrange(24 + 4 * n, 44 + 8 * n), 0x8004, ctr)
        }),
{
    law_flow_words(flows);
    let content = latency_content(ctr, sample_rate, flows);
    let n = flows.len() as int;
    let latency = content.subrange(0, 24 + 4 * n);
    let missed = content.subrange(24 + 4 * n, 44 + 8 * n);
    assert(latency.subrange(0, 2) =~= be16(24 + 4 * n));
    assert(latency.subrange(2, 4) =~= be16(0x8003));
    assert(latency.subrange(8, 10) =~= be16(ctr as int));
    assert(missed.subrange(0, 2) =~= be16(20 + 4 * n));
    assert(missed.subrange(2, 4) =~= be16(0x8004));
    assert(missed.subrange(8, 10) =~= be16(ctr as int));
}

/// The first block of the first packet tells the bytes and the errors that were counted, sent before
/// received. A byte count that does not fit into 32 bits is told as the largest that does.
pub proof fn law_utilization_is_told(
    ctr: u16,
    freq_offset: i32,
    tx_peaks: Seq<u8>,
    rx_peaks: Seq<u8>,
    bits_per_sample: u8,
    counted: Telemetry,
)
    ensures
        ({
            let content = utilization_content(
                ctr,
                freq_offset,
                tx_peaks,
                rx_peaks,
                bits_per_sample,
                counted,
            );
            &&& u16_at(content, 0) == 36
            &&& u16_at(content, 2) == 0x8000
            &&& u16_at(content, 4) == 4
            &&& u16_at(content, 6) == 4
            &&& u16_at(content, 8) == ctr
            &&& u16_at(content, 10) == 0
            &&& u32_at(content, 12) == 0x0010_0000
            &&& u32_at(content, 16) == 0x0001_0010
            &&& counted.tx_bytes <= u32::MAX ==> u32_at(content, 20) == counted.tx_bytes
            &&& counted.tx_bytes > u32::MAX ==> u32_at(content, 20) == 0xffff_ffff
            &&& counted.rx_bytes <= u32::MAX ==> u32_at(content, 24) == counted.rx_bytes
            &&& counted.rx_bytes > u32::MAX ==> u32_at(content, 24) == 0xffff_ffff
            &&& u32_at(content, 28) == counted.tx_errors
            &&& u32_at(content, 32) == counted.rx_errors
        }),
{
    let a = utilization_block(
        ctr,
        counted.tx_bytes,
        counted.rx_bytes,
        counted.tx_errors,
        counted.rx_errors,
    );
    let b = clock_block(ctr, freq_offset);
    let c = peaks_block(ctr, tx_peaks, rx_peaks, bits_per_sample);
    lemma_utilization_block(
        ctr,
        counted.tx_bytes,
        counted.rx_bytes,
        counted.tx_errors,
        counted.rx_errors,
    );
    lemma_clock_block(ctr, freq_offset);
    lemma_words_of_a_part(Seq::empty(), a, b + c);
    assert(Seq::<u8>::empty() + a + (b + c) =~= a + b + c);
}

/// The second block of the first packet tells the frequency offset with its sign: read without a
/// sign, it is the offset, or the offset and a whole turn of 32 bits if the clock runs slow.
pub proof fn law_frequency_offset_is_told(
    ctr: u16,
    freq_offset: i32,
    tx_peaks: Seq<u8>,
    rx_peaks: Seq<u8>,
    bits_per_sample: u8,
    counted: Telemetry,
)
    ensures
        ({
            let content = utilization_content(
                ctr,
                freq_offset,
                tx_peaks,
                rx_peaks,
                bits_per_sample,
                counted,
            );
            &&& u16_at(content, 36) == 16
            &&& u16_at(content, 38) == 0x8001
            &&& u16_at(content, 40) == 4
            &&& u16_at(content, 42) == 4
            &&& u16_at(content, 44) == ctr
            &&& u16_at(content, 46) == 0
            &&& freq_offset >= 0 ==> u32_at(content, 48) == freq_offset
            &&& freq_offset < 0 ==> u32_at(content, 48) == freq_offset + 0x1_0000_0000
        }),
{
    let a = utilization_block(
        ctr,
        counted.tx_bytes,
        counted.rx_bytes,
        counted.tx_errors,
        counted.rx_errors,
    );
    let b = clock_block(ctr, freq_offset);
    let c = peaks_block(ctr, tx_peaks, rx_peaks, bits_per_sample);
    lemma_utilization_block(
        ctr,
        counted.tx_bytes,
        counted.rx_bytes,
        counted.tx_errors,
        counted.rx_errors,
    );
    lemma_clock_block(ctr, freq_offset);
    lemma_words_of_a_part(a, b, c);
}

/// The third block of the first packet tells how many peaks of sent and of received channels there
/// are, and then the peaks, the sent ones first, each in its own byte. Zeros fill the block up to
/// the next multiple of four.
pub proof fn law_peaks_are_told(
    ctr: u16,
    freq_offset: i32,
    tx_peaks: Seq<u8>,
    rx_peaks: Seq<u8>,
    bits_per_sample: u8,
    counted: Telemetry,
)
    requires
        tx_peaks.len() + rx_peaks.len() <= 0xff00,
    ensures
        ({
            let content = utilization_content(
                ctr,
                freq_offset,
                tx_peaks,
                rx_peaks,
                bits_per_sample,
                counted,
            );
            let n = tx_peaks.len() + rx_peaks.len();
            &&& content.len() % 4 == 0
            &&& 76 + n <= content.len() < 80 + n
            &&& u16_at(content, 52) == content.len() - 52
            &&& u16_at(content, 54) == 0x8002
            &&& u16_at(content, 56) == 4
            &&& u16_at(content, 58) == content.len() - 64
            &&& u16_at(content, 60) == ctr
            &&& u16_at(content, 62) == 0
            &&& u16_at(content, 64) == tx_peaks.len()
            &&& u16_at(content, 66) == 0
            &&& u16_at(content, 68) == rx_peaks.len()
            &&& u16_at(content, 70) == 0
            &&& u16_at(content, 72) == bits_per_sample
            &&& u16_at(content, 74) == 0
            &&& content.subrange(76, 76 + tx_peaks.len() as int) == tx_peaks
            &&& content.subrange(76 + tx_peaks.len() as int, 76 + n as int) == rx_peaks
            &&& forall|i: int| 76 + n <= i < content.len() ==> #[trigger] content[i] == 0
        }),
{
    let a = utilization_block(
        ctr,
        counted.tx_bytes,
        counted.rx_bytes,
        counted.tx_errors,
        counted.rx_errors,
    );
    let b = clock_block(ctr, freq_offset);
    let c = peaks_block(ctr, tx_peaks, rx_peaks, bits_per_sample);
    lemma_utilization_block(
        ctr,
        counted.tx_bytes,
        counted.rx_bytes,
        counted.tx_errors,
        counted.rx_errors,
    );
    lemma_clock_block(ctr, freq_offset);
    lemma_peaks_block(ctr, tx_peaks, rx_peaks, bits_per_sample);
    lemma_peaks_at_the_end(a, b, c, ctr, tx_peaks, rx_peaks, bits_per_sample);
}

/// Whether `block` is a block that tells these peaks.
spec fn holds_peaks(
    block: Seq<u8>,
    ctr: u16,
    tx_peaks: Seq<u8>,
    rx_peaks: Seq<u8>,
    bits_per_sample: u8,
) -> bool {
    let t = tx_peaks.len() as int;
    let n = t + rx_peaks.len();
    &&& block.len() % 4 == 0
    &&& 24 + n <= block.len() < 28 + n
    &&& u16_at(block, 0) == block.len()
    &&& u16_at(block, 2) == 0x8002
    &&& u16_at(block, 4) == 4
    &&& u16_at(block, 6) == block.len() - 12
    &&& u16_at(block, 8) == ctr
    &&& u16_at(block, 10) == 0
    &&& u16_at(block, 12) == t
    &&& u16_at(block, 14) == 0
    &&& u16_at(block, 16) == rx_peaks.len()
    &&& u16_at(block, 18) == 0
    &&& u16_at(block, 20) == bits_per_sample
    &&& u16_at(block, 22) == 0
    &&& block.subrange(24, 24 + t) == tx_peaks
    &&& block.subrange(24 + t, 24 + n) == rx_peaks
    &&& forall|i: int| 24 + n <= i < block.len() ==> #[trigger] block[i] == 0
}

/// The fields of a block of peaks, seen from the beginning of the packet.
proof fn lemma_peaks_at_the_end(
    a: Seq<u8>,
    b: Seq<u8>,
    c: Seq<u8>,
    ctr: u16,
    tx_peaks: Seq<u8>,
    rx_peaks: Seq<u8>,
    bits_per_sample: u8,
)
    requires
        a.len() == 36,
        b.len() == 16,
        holds_peaks(c, ctr, tx_peaks, rx_peaks, bits_per_sample),
    ensures
        ({
            let content = a + b + c;
            let n = tx_peaks.len() + rx_peaks.len();
            &&& content.len() % 4 == 0
            &&& 76 + n <= content.len() < 80 + n
            &&& u16_at(content, 52) == content.len() - 52
            &&& u16_at(content, 54) == 0x8002
            &&& u16_at(content, 56) == 4
            &&& u16_at(content, 58) == content.len() - 64
            &&& u16_at(content, 60) == ctr
            &&& u16_at(content, 62) == 0
            &&& u16_at(content, 64) == tx_peaks.len()
            &&& u16_at(content, 66) == 0
            &&& u16_at(content, 68) == rx_peaks.len()
            &&& u16_at(content, 70) == 0
            &&& u16_at(content, 72) == bits_per_sample
            &&& u16_at(content, 74) == 0
            &&& content.subrange(76, 76 + tx_peaks.len() as int) == tx_peaks
            &&& content.subrange(76 + tx_peaks.len() as int, 76 + n as int) == rx_peaks
            &&& forall|i: int| 76 + n <= i < content.len() ==> #[trigger] content[i] == 0
        }),
{
    lemma_words_of_a_part(a + b, c, Seq::empty());
    assert(a + b + c + Seq::<u8>::empty() =~= a + b + c);
    lemma_end_of_whole(a + b, c, tx_peaks, rx_peaks);
    let whole = a + b + c;
    assert(u16_at(c, 0) == u16_at(whole, 52));
    assert(u16_at(c, 2) == u16_at(whole, 54));
    assert(u16_at(c, 4) == u16_at(whole, 56));
    assert(u16_at(c, 6) == u16_at(whole, 58));
    assert(u16_at(c, 8) == u16_at(whole, 60));
    assert(u16_at(c, 10) == u16_at(whole, 62));
    assert(u16_at(c, 12) == u16_at(whole, 64));
    assert(u16_at(c, 14) == u16_at(whole, 66));
    assert(u16_at(c, 16) == u16_at(whole, 68));
    assert(u16_at(c, 18) == u16_at(whole, 70));
    assert(u16_at(c, 20) == u16_at(whole, 72));
    assert(u16_at(c, 22) == u16_at(whole, 74));
}

/// The peaks and what follows them are found at their place in the whole.
proof fn lemma_end_of_whole(before: Seq<u8>, block: Seq<u8>, first: Seq<u8>, second: Seq<u8>)
    requires
        before.len() == 52,
        24 + first.len() + second.len() <= block.len(),
        block.subrange(24, 24 + first.len() as int) == first,
        block.subrange(24 + first.len() as int, 24 + (first.len() + second.len()) as int)
            == second,
        forall|i: int|
            24 + first.len() + second.len() <= i < block.len() ==> #[trigger] block[i] == 0,
    ensures
        ({
            let whole = before + block;
            let n = first.len() + second.len();
            &&& whole.subrange(76, 76 + first.len() as int) == first
            &&& whole.subrange(76 + first.len() as int, 76 + n as int) == second
            &&& forall|i: int| 76 + n <= i < whole.len() ==> #[trigger] whole[i] == 0
        }),
{
    let whole = before + block;
    let t = first.len() as int;
    let n = t + second.len();
    assert(whole.subrange(76, 76 + t) =~= block.subrange(24, 24 + t));
    assert(whole.subrange(76 + t, 76 + n) =~= block.subrange(24 + t, 24 + n));
    assert forall|i: int| 76 + n <= i < whole.len() implies #[trigger] whole[i] == 0 by {
        assert(whole[i] == block[i - 52]);
    }
}

/// The numbers at the beginning of a block.
proof fn lemma_block_header(length: int, kind: int, content_length: int, ctr: u16, rest: Seq<u8>)
    requires
        0 <= length <= 0xffff,
        0 <= kind <= 0xffff,
        0 <= content_length <= 0xffff,
    ensures
        ({
            let header = block_header(length, kind, content_length, ctr);
            let block = header + rest;
            &&& header.len() == 12
            &&& u16_at(block, 0) == length
            &&& u16_at(block, 2) == kind
            &&& u16_at(block, 4) == 4
            &&& u16_at(block, 6) == content_length
            &&& u16_at(block, 8) == ctr
            &&& u16_at(block, 10) == 0
        }),
{
    reveal(u16_at);
}

/// Two numbers of 16 bits in a row.
proof fn lemma_two_words(before: Seq<u8>, a: int, b: int, behind: Seq<u8>)
    requires
        0 <= a <= 0xffff,
        0 <= b <= 0xffff,
    ensures
        ({
            let whole = before + (be16(a) + be16(b)) + behind;
            &&& u16_at(whole, before.len() as int) == a
            &&& u16_at(whole, before.len() as int + 2) == b
            &&& u32_at(whole, before.len() as int) == a * 0x1_0000 + b
        }),
{
    reveal(u16_at);
    reveal(u32_at);
    let whole = before + (be16(a) + be16(b)) + behind;
    let n = before.len() as int;
    assert(whole[n] == be16(a)[0] && whole[n + 1] == be16(a)[1] && whole[n + 2] == be16(b)[0]
        && whole[n + 3] == be16(b)[1]);
}

/// A number of 32 bits.
proof fn lemma_long_word(before: Seq<u8>, a: int, behind: Seq<u8>)
    requires
        0 <= a <= 0xffff_ffff,
    ensures
        u32_at(before + be32(a) + behind, before.len() as int) == a,
{
    lemma_bytes_are_the_number(a);
    lemma_words_of_a_part(before, be32(a), behind);
    assert(u32_at(be32(a), 0) == a);
}

/// The fields of the utilization block.
proof fn lemma_utilization_block(
    ctr: u16,
    tx_bytes: u64,
    rx_bytes: u64,
    tx_errors: u32,
    rx_errors: u32,
)
    ensures
        ({
            let block = utilization_block(ctr, tx_bytes, rx_bytes, tx_errors, rx_errors);
            &&& block.len() == 36
            &&& u16_at(block, 0) == 36
            &&& u16_at(block, 2) == 0x8000
            &&& u16_at(block, 4) == 4
            &&& u16_at(block, 6) == 4
            &&& u16_at(block, 8) == ctr
            &&& u16_at(block, 10) == 0
            &&& u32_at(block, 12) == 0x0010_0000
            &&& u32_at(block, 16) == 0x0001_0010
            &&& u32_at(block, 20) == smaller(tx_bytes as int, u32::MAX as int)
            &&& u32_at(block, 24) == smaller(rx_bytes as int, u32::MAX as int)
            &&& u32_at(block, 28) == tx_errors
            &&& u32_at(block, 32) == rx_errors
        }),
{
    let header = block_header(36, 0x8000, 4, ctr);
    let w1 = be16(0x0010) + be16(0x0000);
    let w2 = be16(0x0001) + be16(0x0010);
    let sent = be32(smaller(tx_bytes as int, u32::MAX as int));
    let received = be32(smaller(rx_bytes as int, u32::MAX as int));
    let sent_errors = be32(tx_errors as int);
    let received_errors = be32(rx_errors as int);
    let none = Seq::<u8>::empty();
    let block = utilization_block(ctr, tx_bytes, rx_bytes, tx_errors, rx_errors);
    let rest = w1 + w2 + sent + received + sent_errors + received_errors;
    assert(block =~= header + rest);
    lemma_block_header(36, 0x8000, 4, ctr, rest);
    assert(block =~= header + w1 + (w2 + sent + received + sent_errors + received_errors));
    lemma_two_words(header, 0x0010, 0, w2 + sent + received + sent_errors + received_errors);
    assert(block =~= header + w1 + w2 + (sent + received + sent_errors + received_errors));
    lemma_two_words(header + w1, 1, 0x0010, sent + received + sent_errors + received_errors);
    let fixed = header + w1 + w2;
    assert(fixed.len() == 20);
    assert(block =~= fixed + sent + (received + sent_errors + received_errors));
    lemma_long_word(
        fixed,
        smaller(tx_bytes as int, u32::MAX as int),
        received + sent_errors + received_errors,
    );
    assert(block =~= fixed + sent + received + (sent_errors + received_errors));
    lemma_long_word(
        fixed + sent,
        smaller(rx_bytes as int, u32::MAX as int),
        sent_errors + received_errors,
    );
    assert(block =~= fixed + sent + received + sent_errors + received_errors);
    lemma_long_word(fixed + sent + received, tx_errors as int, received_errors);
    assert(block =~= fixed + sent + received + sent_errors + received_errors + none);
    lemma_long_word(fixed + sent + received + sent_errors, rx_errors as int, none);
}

/// The fields of the clock block.
proof fn lemma_clock_block(ctr: u16, freq_offset: i32)
    ensures
        ({
            let block = clock_block(ctr, freq_offset);
            &&& block.len() == 16
            &&& u16_at(block, 0) == 16
            &&& u16_at(block, 2) == 0x8001
            &&& u16_at(block, 4) == 4
            &&& u16_at(block, 6) == 4
            &&& u16_at(block, 8) == ctr
            &&& u16_at(block, 10) == 0
            &&& freq_offset >= 0 ==> u32_at(block, 12) == freq_offset
            &&& freq_offset < 0 ==> u32_at(block, 12) == freq_offset + 0x1_0000_0000
        }),
{
    let header = block_header(16, 0x8001, 4, ctr);
    let offset = be32_signed(freq_offset as int);
    let none = Seq::<u8>::empty();
    lemma_block_header(16, 0x8001, 4, ctr, offset);
    law_be32_signed_reads_back(freq_offset);
    assert(clock_block(ctr, freq_offset) =~= header + offset + none);
    lemma_words_of_a_part(header, offset, none);
    assert(u32_at(offset, 0) == u32_at(header + offset + none, 12));
}

/// The peaks block tells its peaks.
proof fn lemma_peaks_block(ctr: u16, tx_peaks: Seq<u8>, rx_peaks: Seq<u8>, bits_per_sample: u8)
    requires
        tx_peaks.len() + rx_peaks.len() <= 0xff00,
    ensures
        holds_peaks(
            peaks_block(ctr, tx_peaks, rx_peaks, bits_per_sample),
            ctr,
            tx_peaks,
            rx_peaks,
            bits_per_sample,
        ),
{
    let padded = padded_peaks_length(tx_peaks, rx_peaks);
    let header = block_header(24 + padded, 0x8002, 12 + padded, ctr);
    let pad = zeros((padded - tx_peaks.len() - rx_peaks.len()) as nat);
    let w1 = be16(tx_peaks.len() as int) + be16(0);
    let w2 = be16(rx_peaks.len() as int) + be16(0);
    let w3 = be16(bits_per_sample as int) + be16(0);
    lemma_block_header(24 + padded, 0x8002, 12 + padded, ctr, Seq::empty());
    lemma_peaks_put_together(header, padded, ctr, tx_peaks, rx_peaks, bits_per_sample, pad);
    assert(peaks_block(ctr, tx_peaks, rx_peaks, bits_per_sample) =~= header + w1 + w2 + w3
        + tx_peaks + rx_peaks + pad);
}

/// A header, the counts and the peaks make a block that tells these peaks.
proof fn lemma_peaks_put_together(
    header: Seq<u8>,
    padded: int,
    ctr: u16,
    tx_peaks: Seq<u8>,
    rx_peaks: Seq<u8>,
    bits_per_sample: u8,
    pad: Seq<u8>,
)
    requires
        tx_peaks.len() + rx_peaks.len() <= 0xff00,
        padded % 4 == 0,
        tx_peaks.len() + rx_peaks.len() <= padded < tx_peaks.len() + rx_peaks.len() + 4,
        pad == zeros((padded - tx_peaks.len() - rx_peaks.len()) as nat),
        header.len() == 12,
        header == block_header(24 + padded, 0x8002, 12 + padded, ctr),
    ensures
        holds_peaks(
            header + (be16(tx_peaks.len() as int) + be16(0)) + (be16(rx_peaks.len() as int) + be16(
                0,
            )) + (be16(bits_per_sample as int) + be16(0)) + tx_peaks + rx_peaks + pad,
            ctr,
            tx_peaks,
            rx_peaks,
            bits_per_sample,
        ),
{
    let t = tx_peaks.len() as int;
    let r = rx_peaks.len() as int;
    let w1 = be16(t) + be16(0);
    let w2 = be16(r) + be16(0);
    let w3 = be16(bits_per_sample as int) + be16(0);
    let peaks = tx_peaks + rx_peaks + pad;
    let block = header + w1 + w2 + w3 + tx_peaks + rx_peaks + pad;
    assert(w1.len() == 4 && w2.len() == 4 && w3.len() == 4);
    lemma_regroup(header, w1, w2, w3, tx_peaks, rx_peaks, pad);
    lemma_block_header(24 + padded, 0x8002, 12 + padded, ctr, w1 + w2 + w3 + peaks);
    lemma_two_words(header, t, 0, w2 + w3 + peaks);
    lemma_two_words(header + w1, r, 0, w3 + peaks);
    lemma_two_words(header + w1 + w2, bits_per_sample as int, 0, peaks);
    lemma_peaks_stand_behind(header + w1 + w2 + w3, tx_peaks, rx_peaks, pad);
}

/// The peaks and the padding behind a head of 24 bytes.
proof fn lemma_peaks_stand_behind(head: Seq<u8>, tx_peaks: Seq<u8>, rx_peaks: Seq<u8>, pad: Seq<u8>)
    requires
        head.len() == 24,
        pad == zeros(pad.len()),
    ensures
        ({
            let block = head + tx_peaks + rx_peaks + pad;
            let t = tx_peaks.len() as int;
            let n = t + rx_peaks.len();
            &&& block.len() == 24 + n + pad.len()
            &&& block.subrange(24, 24 + t) == tx_peaks
            &&& block.subrange(24 + t, 24 + n) == rx_peaks
            &&& forall|i: int| 24 + n <= i < block.len() ==> #[trigger] block[i] == 0
        }),
{
    let block = head + tx_peaks + rx_peaks + pad;
    let t = tx_peaks.len() as int;
    let n = t + rx_peaks.len();
    assert(block.subrange(24, 24 + t) =~= tx_peaks);
    assert(block.subrange(24 + t, 24 + n) =~= rx_peaks);
    assert forall|i: int| 24 + n <= i < block.len() implies #[trigger] block[i] == 0 by {
        assert(block[i] == pad[i - 24 - n]);
    }
}

/// Parts can be put together in any grouping.
proof fn lemma_regroup(
    a: Seq<u8>,
    b: Seq<u8>,
    c: Seq<u8>,
    d: Seq<u8>,
    e: Seq<u8>,
    f: Seq<u8>,
    g: Seq<u8>,
)
    ensures
        a + b + c + d + e + f + g == a + (b + c + d + (e + f + g)),
        a + b + c + d + e + f + g == a + b + (c + d + (e + f + g)),
        a + b + c + d + e + f + g == a + b + c + (d + (e + f + g)),
        a + b + c + d + e + f + g == a + b + c + d + (e + f + g),
{
    let whole = a + b + c + d + e + f + g;
    assert(whole =~= a + (b + c + d + (e + f + g)));
    assert(whole =~= a + b + (c + d + (e + f + g)));
    assert(whole =~= a + b + c + (d + (e + f + g)));
    assert(whole =~= a + b + c + d + (e + f + g));
}

/// The second packet tells of each flow, at its place, the latency and the number of late packets:
/// none for a flow that is not there, and no latency for a negative one. Before them stand how many
/// flows there are, where the numbers begin, and the sample rate.
pub proof fn law_flows_are_told(ctr: u16, sample_rate: u32, flows: Seq<Option<FlowInfo>>, i: int)
    requires
        flows.len() <= 0x3000,
    ensures
        ({
            let content = latency_content(ctr, sample_rate, flows);
            let n = flows.len() as int;
            let second = 24 + 4 * n;
            &&& content.len() == 44 + 8 * n
            &&& u16_at(content, 0) == 24 + 4 * n
            &&& u16_at(content, 2) == 0x8003
            &&& u16_at(content, 4) == 4
            &&& u16_at(content, 6) == 12 + 4 * n
            &&& u16_at(content, 8) == ctr
            &&& u16_at(content, 10) == 0
            &&& u16_at(content, 12) == n
            &&& u16_at(content, 14) == 0
            &&& u16_at(content, 16) == 24
            &&& u16_at(content, 18) == 0
            &&& u32_at(content, 20) == sample_rate
            &&& u16_at(content, second) == 20 + 4 * n
            &&& u16_at(content, second + 2) == 0x8004
            &&& u16_at(content, second + 4) == 4
            &&& u16_at(content, second + 6) == 8 + 4 * n
            &&& u16_at(content, second + 8) == ctr
            &&& u16_at(content, second + 10) == 0
            &&& u16_at(content, second + 12) == n
            &&& u16_at(content, second + 14) == 0
            &&& u16_at(content, second + 16) == 20
            &&& u16_at(content, second + 18) == 0
            &&& 0 <= i < n ==> match flows[i] {
                Some(info) => {
                    &&& info.actual_latency_samples >= 0 ==> u32_at(content, 24 + 4 * i)
                        == info.actual_latency_samples
                    &&& info.actual_latency_samples < 0 ==> u32_at(content, 24 + 4 * i) == 0
                    &&& u32_at(content, second + 20 + 4 * i) == info.missed_packets
                },
                None => {
                    &&& u32_at(content, 24 + 4 * i) == 0
                    &&& u32_at(content, second + 20 + 4 * i) == 0
                },
            }
        }),
{
    let n = flows.len() as int;
    let a = latency_block(ctr, sample_rate, flows);
    let b = missed_block(ctr, flows);
    let none = Seq::<u8>::empty();
    lemma_latency_heads(ctr, sample_rate, flows);
    lemma_words_of_a_part(none, a, b);
    lemma_words_of_a_part(a, b, none);
    assert(none + a + b =~= a + b);
    assert(a + b + none =~= a + b);
    if 0 <= i < n {
        lemma_flow_numbers(ctr, sample_rate, flows, i);
        assert(u32_at(a, 24 + 4 * i) == u32_at(a + b, 24 + 4 * i));
        assert(u32_at(b, 20 + 4 * i) == u32_at(a + b, a.len() + (20 + 4 * i)));
    }
}

/// The numbers of one flow in the latency and late packets blocks.
proof fn lemma_flow_numbers(ctr: u16, sample_rate: u32, flows: Seq<Option<FlowInfo>>, i: int)
    requires
        0 <= i < flows.len() <= 0x3000,
    ensures
        u32_at(latency_block(ctr, sample_rate, flows), 24 + 4 * i) == reported_latency(flows[i]),
        u32_at(missed_block(ctr, flows), 20 + 4 * i) == reported_missed(flows[i]),
{
    let n = flows.len() as int;
    law_flow_words(flows);
    let a_head = block_header(24 + 4 * n, 0x8003, 12 + 4 * n, ctr) + be16(n) + be16(0) + be16(24)
        + be16(0) + be32(sample_rate as int);
    let b_head = block_header(20 + 4 * n, 0x8004, 8 + 4 * n, ctr) + be16(n) + be16(0) + be16(20)
        + be16(0);
    assert(a_head.len() == 24);
    assert(b_head.len() == 20);
    assert(latency_words(flows).subrange(4 * i, 4 * i + 4) == be32(reported_latency(flows[i])));
    lemma_word_behind_head(a_head, latency_words(flows), reported_latency(flows[i]), i);
    lemma_word_behind_head(b_head, missed_words(flows), reported_missed(flows[i]), i);
}

/// A number among others of its size, behind a head.
proof fn lemma_word_behind_head(head: Seq<u8>, words: Seq<u8>, value: int, i: int)
    requires
        0 <= i,
        4 * i + 4 <= words.len(),
        0 <= value <= 0xffff_ffff,
        words.subrange(4 * i, 4 * i + 4) == be32(value),
    ensures
        u32_at(head + words, head.len() + 4 * i) == value,
{
    let none = Seq::<u8>::empty();
    lemma_word_of_words(words, value, i);
    lemma_words_of_a_part(head, words, none);
    assert(head + words + none =~= head + words);
    assert(u32_at(words, 4 * i) == u32_at(head + words, head.len() + 4 * i));
}

/// A number among others of its size.
proof fn lemma_word_of_words(words: Seq<u8>, value: int, i: int)
    requires
        0 <= i,
        4 * i + 4 <= words.len(),
        0 <= value <= 0xffff_ffff,
        words.subrange(4 * i, 4 * i + 4) == be32(value),
    ensures
        u32_at(words, 4 * i) == value,
{
    let before = words.take(4 * i);
    let behind = words.skip(4 * i + 4);
    assert(words =~= before + be32(value) + behind);
    lemma_long_word(before, value, behind);
}

/// The beginnings of the latency and late packets blocks.
proof fn lemma_latency_heads(ctr: u16, sample_rate: u32, flows: Seq<Option<FlowInfo>>)
    requires
        flows.len() <= 0x3000,
    ensures
        ({
            let a = latency_block(ctr, sample_rate, flows);
            let b = missed_block(ctr, flows);
            let n = flows.len() as int;
            &&& a.len() == 24 + 4 * n
            &&& b.len() == 20 + 4 * n
            &&& u16_at(a, 0) == 24 + 4 * n
            &&& u16_at(a, 2) == 0x8003
            &&& u16_at(a, 4) == 4
            &&& u16_at(a, 6) == 12 + 4 * n
            &&& u16_at(a, 8) == ctr
            &&& u16_at(a, 10) == 0
            &&& u16_at(a, 12) == n
            &&& u16_at(a, 14) == 0
            &&& u16_at(a, 16) == 24
            &&& u16_at(a, 18) == 0
            &&& u32_at(a, 20) == sample_rate
            &&& u16_at(b, 0) == 20 + 4 * n
            &&& u16_at(b, 2) == 0x8004
            &&& u16_at(b, 4) == 4
            &&& u16_at(b, 6) == 8 + 4 * n
            &&& u16_at(b, 8) == ctr
            &&& u16_at(b, 10) == 0
            &&& u16_at(b, 12) == n
            &&& u16_at(b, 14) == 0
            &&& u16_at(b, 16) == 20
            &&& u16_at(b, 18) == 0
        }),
{
    let n = flows.len() as int;
    let l = latency_words(flows);
    let m = missed_words(flows);
    law_flow_words(flows);
    let a = latency_block(ctr, sample_rate, flows);
    let b = missed_block(ctr, flows);
    let a_header = block_header(24 + 4 * n, 0x8003, 12 + 4 * n, ctr);
    let b_header = block_header(20 + 4 * n, 0x8004, 8 + 4 * n, ctr);
    let count = be16(n) + be16(0);
    let a_offset = be16(24) + be16(0);
    let b_offset = be16(20) + be16(0);
    let rate = be32(sample_rate as int);
    assert(a =~= a_header + (count + a_offset + rate + l));
    lemma_block_header(24 + 4 * n, 0x8003, 12 + 4 * n, ctr, count + a_offset + rate + l);
    assert(a =~= a_header + count + (a_offset + rate + l));
    lemma_two_words(a_header, n, 0, a_offset + rate + l);
    assert(a =~= a_header + count + a_offset + (rate + l));
    lemma_two_words(a_header + count, 24, 0, rate + l);
    assert(a =~= a_header + count + a_offset + rate + l);
    lemma_long_word(a_header + count + a_offset, sample_rate as int, l);
    assert(b =~= b_header + (count + b_offset + m));
    lemma_block_header(20 + 4 * n, 0x8004, 8 + 4 * n, ctr, count + b_offset + m);
    assert(b =~= b_header + count + (b_offset + m));
    lemma_two_words(b_header, n, 0, b_offset + m);
    assert(b =~= b_header + count + b_offset + m);
    lemma_two_words(b_header + count, 20, 0, m);
}

} // verus!
