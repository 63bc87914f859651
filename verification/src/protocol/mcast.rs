//! Multicast packets.

use bytebuffer::ByteBuffer;
use vstd::prelude::*;
use vstd::slice::slice_to_vec;
use crate::byte_utils::{
    be16, be32, lemma_bytes_are_the_number, lemma_words_of_a_part, u16_at, u32_at,
};
use crate::device_info::DeviceId;

verus! {

/// How many bytes stand before the content of a packet.
pub const HEADER_LENGTH: usize = 32;

/// How large a packet can be.
pub const SEND_BUFFER_SIZE: usize = 1500;

/// How large the content of a packet can be.
pub const MAX_CONTENT_LENGTH: usize = 1468;

/// Where a packet goes.
#[derive(Debug, Clone, Copy, PartialEq, Eq)]
pub struct Endpoint {
    pub address: [u8; 4],
    pub port: u16,
}

/// A packet and where it goes.
#[derive(Debug)]
pub struct Datagram {
    pub destination: Endpoint,
    pub payload: Vec<u8>,
}

/// A message that another part of the device wants multicast.
#[derive(Debug)]
pub struct MulticastMessage {
    pub start_code: u16,
    pub opcode: [u8; 8],
    pub content: Vec<u8>,
}

/// The bytes of a packet: start code, sequence number, process number, device identity, vendor,
/// opcode, content.
pub open spec fn packet_bytes(
    start_code: u16,
    seqnum: u16,
    process_id: u16,
    factory_device_id: Seq<u8>,
    vendor: Seq<u8>,
    opcode: Seq<u8>,
    content: Seq<u8>,
) -> Seq<u8> {
    be16(start_code as int) + be16(seqnum as int) + be32(process_id as int) + factory_device_id
        + vendor + opcode + content
}

/// Puts a packet together.
pub fn make_packet(
    start_code: u16,
    seqnum: u16,
    process_id: u16,
    factory_device_id: DeviceId,
    vendor: [u8; 8],
    opcode: [u8; 8],
    content: &[u8],
) -> (packet: Vec<u8>)
    requires
        content@.len() <= MAX_CONTENT_LENGTH,
    ensures
        packet@ == packet_bytes(
            start_code,
            seqnum,
            process_id,
            factory_device_id@,
            vendor@,
            opcode@,
            content@,
        ),
        packet@.len() <= SEND_BUFFER_SIZE,
{
    let mut bytes = ByteBuffer::new();
    bytes.write_u16(start_code);
    bytes.write_u16(seqnum);
    bytes.write_u32(process_id as u32);
    bytes.write_bytes(factory_device_id.as_slice());
    bytes.write_bytes(vendor.as_slice());
    bytes.write_bytes(opcode.as_slice());
    bytes.write_bytes(content);
    let packet: Vec<u8> = slice_to_vec(bytes.as_bytes());
    assert(packet@ =~= packet_bytes(
        start_code,
        seqnum,
        process_id,
        factory_device_id@,
        vendor@,
        opcode@,
        content@,
    ));
    packet
}

/// Every field of a packet stands at a fixed place: the opcode at 24, the content from 32 on.
pub proof fn law_packet_layout(
    start_code: u16,
    seqnum: u16,
    process_id: u16,
    factory_device_id: DeviceId,
    vendor: [u8; 8],
    opcode: [u8; 8],
    content: Seq<u8>,
)
    ensures
        ({
            let packet = packet_bytes(
                start_code,
                seqnum,
                process_id,
                factory_device_id@,
                vendor@,
                opcode@,
                content,
            );
            &&& packet.len() == HEADER_LENGTH + content.len()
            &&& packet.subrange(0, 2) == be16(start_code as int)
            &&& packet.subrange(2, 4) == be16(seqnum as int)
            &&& packet.subrange(4, 8) == be32(process_id as int)
            &&& packet.subrange(8, 16) == factory_device_id@
            &&& packet.subrange(16, 24) == vendor@
            &&& packet.subrange(24, 32) == opcode@
            &&& packet.subrange(32, packet.len() as int) == content
        }),
{
    let packet = packet_bytes(
        start_code,
        seqnum,
        process_id,
        factory_device_id@,
        vendor@,
        opcode@,
        content,
    );
    assert(packet.subrange(0, 2) =~= be16(start_code as int));
    assert(packet.subrange(2, 4) =~= be16(seqnum as int));
    assert(packet.subrange(4, 8) =~= be32(process_id as int));
    assert(packet.subrange(8, 16) =~= factory_device_id@);
    assert(packet.subrange(16, 24) =~= vendor@);
    assert(packet.subrange(24, 32) =~= opcode@);
    assert(packet.subrange(32, packet.len() as int) =~= content);
}

/// The numbers in the header of a packet are those that it was made with, and the packet fits the
/// send buffer if its content is not too large.
pub proof fn law_packet_numbers(
    start_code: u16,
    seqnum: u16,
    process_id: u16,
    factory_device_id: DeviceId,
    vendor: [u8; 8],
    opcode: [u8; 8],
    content: Seq<u8>,
)
    ensures
        ({
            let packet = packet_bytes(
                start_code,
                seqnum,
                process_id,
                factory_device_id@,
                vendor@,
                opcode@,
                content,
            );
            &&& packet.len() == 32 + content.len()
            &&& u16_at(packet, 0) == start_code
            &&& u16_at(packet, 2) == seqnum
            &&& u32_at(packet, 4) == process_id
            &&& packet.len() <= 1500 <==> content.len() <= MAX_CONTENT_LENGTH
        }),
{
    let packet = packet_bytes(
        start_code,
        seqnum,
        process_id,
        factory_device_id@,
        vendor@,
        opcode@,
        content,
    );
    let none = Seq::<u8>::empty();
    let code = be16(start_code as int);
    let number = be16(seqnum as int);
    let process = be32(process_id as int);
    let rest = factory_device_id@ + vendor@ + opcode@ + content;
    lemma_bytes_are_the_number(start_code as int);
    lemma_bytes_are_the_number(seqnum as int);
    lemma_bytes_are_the_number(process_id as int);
    assert(packet =~= none + code + (number + process + rest));
    lemma_words_of_a_part(none, code, number + process + rest);
    assert(u16_at(code, 0) == u16_at(none + code + (number + process + rest), 0));
    assert(packet =~= code + number + (process + rest));
    lemma_words_of_a_part(code, number, process + rest);
    assert(u16_at(number, 0) == u16_at(code + number + (process + rest), 2));
    assert(packet =~= code + number + process + rest);
    lemma_words_of_a_part(code + number, process, rest);
    assert(u32_at(process, 0) == u32_at(code + number + process + rest, 4));
}

} // verus!
