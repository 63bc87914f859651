//! The contents of the packets in which the device describes itself.

use bytebuffer::ByteBuffer;
use vstd::prelude::*;
use vstd::slice::slice_to_vec;
use crate::byte_utils::{
    be16, be32, be32_signed, buffer_bytes, law_be32_signed_reads_back, lemma_bytes_are_the_number,
    lemma_words_of_a_part, text_field, u16_at, u32_at, write_bytes_to_buffer, write_str_to_buffer,
    zeros,
};
use crate::device_info::DeviceInfo;

verus! {

/// Byte `k` of a field in which `bytes` stand, followed by zeros.
pub open spec fn padded(bytes: Seq<u8>, k: int) -> u8 {
    if k < bytes.len() {
        bytes[k]
    } else {
        0
    }
}

/// The board description: versions, the board name in two lengths, what the device supports, and
/// how often it wants to be asked.
pub open spec fn board_info_content(firmware_version: Seq<u8>, board_name: Seq<char>) -> Seq<u8> {
    Seq::new(
        200,
        |i: int|
            if i < 4 {
                firmware_version[i]
            } else if i < 8 {
                seq![4u8, 1, 0, 3][i - 4]
            } else if 12 <= i < 20 {
                padded(text_field(board_name, 8), i - 12)
            } else if i == 0x15 {
                0x7c
            } else if i == 0x16 {
                0x10
            } else if i == 0x17 {
                0x4b
            } else if i == 0x23 {
                2
            } else if i == 0x27 {
                1
            } else if i == 0x28 {
                1
            } else if 0x38 <= i < 0x48 {
                padded(text_field(board_name, 16), i - 0x38)
            } else if i == 0xbb {
                0x1f
            } else if i == 0xbf {
                5
            } else if i == 0xc3 {
                3
            } else if i == 0xc7 {
                3
            } else {
                0u8
            },
    )
}

/// Writes the board description.
pub fn write_board_info(firmware_version: [u8; 4], board_name: &str) -> (content: Vec<u8>)
    ensures
        content@ == board_info_content(firmware_version@, board_name@),
{
    let mut content: Vec<u8> = vec![0u8; 200];
    // Firmware version.
    write_bytes_to_buffer(content.as_mut_slice(), 0, firmware_version.as_slice());
    content[0x23] = 2;
    // Hardware version.
    content[4] = 4;
    content[5] = 1;
    content[6] = 0;
    content[7] = 3;
    content[0x27] = 1;
    // Boot version.
    content[0x28] = 1;
    content[0x29] = 0;
    content[0x2a] = 0;
    content[0x2b] = 0;

    // Feature flags. 0x14: no AES67, not lockable.
    content[0x14] = 0;
    // 0x15: keeps a controller from offering to clear the configuration.
    content[0x15] = 0x7c;
    // 0x16: has a manufacturer name (0x10); the network is not configurable (0x40 is not set).
    content[0x16] = 0x10;
    // 0x17: can identify itself (0x08) and reboot (0x40, which needs 0x01 and 0x02 beside it); the
    // sample rate cannot be changed (0x10 is not set), and there is no factory reset (0x80).
    content[0x17] = 0x4b;

    // How often a controller asks again. Without the first it asks about once a second.
    content[0xbb] = 0x1f;
    content[0xbf] = 5;
    content[0xc3] = 3;
    content[0xc7] = 3;
    write_str_to_buffer(content.as_mut_slice(), 12, 8, board_name);
    write_str_to_buffer(content.as_mut_slice(), 0x38, 16, board_name);
    assert(content@ =~= board_info_content(firmware_version@, board_name@));
    content
}

/// The product description: manufacturer, board and model names, and the product version twice.
pub open spec fn product_info_content(
    manufacturer: Seq<char>,
    board_name: Seq<char>,
    model_name: Seq<char>,
    product_version: Seq<u8>,
) -> Seq<u8> {
    Seq::new(
        336,
        |i: int|
            if i < 8 {
                padded(text_field(manufacturer, 8), i)
            } else if i < 16 {
                padded(text_field(board_name, 8), i - 8)
            } else if 0x1c <= i < 0x20 {
                product_version[i - 0x1c]
            } else if 0x2c <= i < 0x3c {
                padded(text_field(manufacturer, 16), i - 0x2c)
            } else if 0xac <= i < 0xbc {
                padded(text_field(model_name, 16), i - 0xac)
            } else if 0x12c <= i < 0x130 {
                product_version[i - 0x12c]
            } else {
                0u8
            },
    )
}

/// Writes the product description.
pub fn write_product_info(
    manufacturer: &str,
    board_name: &str,
    model_name: &str,
    product_version: [u8; 4],
) -> (content: Vec<u8>)
    ensures
        content@ == product_info_content(
            manufacturer@,
            board_name@,
            model_name@,
            product_version@,
        ),
{
    let mut content: Vec<u8> = vec![0u8; 336];
    write_str_to_buffer(content.as_mut_slice(), 0, 8, manufacturer);
    write_str_to_buffer(content.as_mut_slice(), 8, 8, board_name);
    write_str_to_buffer(content.as_mut_slice(), 0x2c, 16, manufacturer);
    write_str_to_buffer(content.as_mut_slice(), 0xac, 16, model_name);
    // Product version.
    write_bytes_to_buffer(content.as_mut_slice(), 0x12c, product_version.as_slice());
    // Firmware version.
    write_bytes_to_buffer(content.as_mut_slice(), 0x1c, product_version.as_slice());
    assert(content@ =~= product_info_content(
        manufacturer@,
        board_name@,
        model_name@,
        product_version@,
    ));
    content
}

/// The clock description: the frequency offset, the device's own address, and the identity of the
/// master clock twice.
pub open spec fn clock_stats_content(
    freq_offset: i32,
    mac_address: Seq<u8>,
    master_clock: Seq<u8>,
) -> Seq<u8> {
    seq![0u8, 0x03, 0, 0x03, 0, 0, 0, 0x9f] + be32_signed(freq_offset as int) + mac_address + be16(
        0,
    ) + master_clock + master_clock + zeros(76)
}

/// Writes the clock description.
pub fn write_clock_stats(
    freq_offset: i32,
    mac_address: [u8; 6],
    master_clock: &[u8],
) -> (content: Vec<u8>)
    ensures
        content@ == clock_stats_content(freq_offset, mac_address@, master_clock@),
{
    let mut bytes = ByteBuffer::new();
    let head: [u8; 8] = [0x00, 0x03, 0x00, 0x03, 0x00, 0x00, 0x00, 0x9f];
    bytes.write_bytes(head.as_slice());
    bytes.write_i32(freq_offset);
    bytes.write_bytes(mac_address.as_slice());
    bytes.write_u16(0);
    bytes.write_bytes(master_clock);
    bytes.write_bytes(master_clock);
    let tail: [u8; 76] = [0u8; 76];
    bytes.write_bytes(tail.as_slice());
    assert(tail@ =~= zeros(76));
    assert(head@ =~= seq![0u8, 0x03, 0, 0x03, 0, 0, 0, 0x9f]);
    assert(buffer_bytes(bytes) =~= clock_stats_content(
        freq_offset,
        mac_address@,
        master_clock@,
    ));
    slice_to_vec(bytes.as_bytes())
}

/// The network description: link speed and addresses.
pub open spec fn network_info_content(info: DeviceInfo) -> Seq<u8> {
    seq![0u8, 1, 0, 0, 0, 0] + be16(info.link_speed as int) + be16(1) + info.mac_address@
        + info.ip_address@ + info.netmask@ + info.gateway@ + info.gateway@ + seq![
        0u8,
        0x18,
        0,
        0x30,
    ] + zeros(28)
}

/// Writes the network description.
pub fn write_network_info(info: &DeviceInfo) -> (content: Vec<u8>)
    ensures
        content@ == network_info_content(*info),
{
    let mut bytes = ByteBuffer::new();
    let head: [u8; 6] = [0x00, 0x01, 0x00, 0x00, 0x00, 0x00];
    bytes.write_bytes(head.as_slice());
    bytes.write_u16(info.link_speed);
    bytes.write_u16(1);
    bytes.write_bytes(info.mac_address.as_slice());
    bytes.write_bytes(info.ip_address.as_slice());
    bytes.write_bytes(info.netmask.as_slice());
    bytes.write_bytes(info.gateway.as_slice());
    // The name server. The gateway will do.
    bytes.write_bytes(info.gateway.as_slice());
    let mark: [u8; 4] = [0x00, 0x18, 0x00, 0x30];
    bytes.write_bytes(mark.as_slice());
    let tail: [u8; 28] = [0u8; 28];
    bytes.write_bytes(tail.as_slice());
    assert(head@ =~= seq![0u8, 1, 0, 0, 0, 0]);
    assert(mark@ =~= seq![0u8, 0x18, 0, 0x30]);
    assert(tail@ =~= zeros(28));
    assert(buffer_bytes(bytes) =~= network_info_content(*info));
    slice_to_vec(bytes.as_bytes())
}

/// A setting with a single choice, which a controller shows but does not offer to change: its
/// kind, the present value, the default, and the list of one possible value.
pub open spec fn fixed_choice_content(kind: int, value: int) -> Seq<u8> {
    be16(0x18) + be16(kind) + be32(value) + be32(value) + be16(1) + be16(0) + be32(value)
}

/// The kind of the sample rate setting.
pub const SAMPLE_RATE_SETTING: u16 = 1;

/// The kind of the encoding setting.
pub const ENCODING_SETTING: u16 = 3;

/// Writes a setting with a single choice.
pub fn write_fixed_choice(kind: u16, value: u32) -> (content: Vec<u8>)
    ensures
        content@ == fixed_choice_content(kind as int, value as int),
{
    let mut bytes = ByteBuffer::new();
    bytes.write_u16(0x18);
    bytes.write_u16(kind);
    bytes.write_u32(value);
    bytes.write_u32(value);
    bytes.write_u16(1);
    bytes.write_u16(0);
    bytes.write_u32(value);
    assert(buffer_bytes(bytes) =~= fixed_choice_content(kind as int, value as int));
    slice_to_vec(bytes.as_bytes())
}

/// Whatever the device is called, its board description does not let a controller change the
/// sample rate, offers identification and reboot with the two flags that reboot needs, no factory
/// reset and no network configuration, and limits how often controllers ask.
pub proof fn law_board_flags(firmware_version: Seq<u8>, board_name: Seq<char>)
    ensures
        ({
            let content = board_info_content(firmware_version, board_name);
            &&& content.len() == 200
            &&& content[0x17] & 0x10 == 0
            &&& content[0x17] & 0x4b == 0x4b
            &&& content[0x17] & 0x80 == 0
            &&& content[0x16] & 0x10 == 0x10
            &&& content[0x16] & 0x40 == 0
            &&& content[0xbb] != 0
        }),
{
    assert(0x4bu8 & 0x10 == 0 && 0x4bu8 & 0x4b == 0x4b && 0x4bu8 & 0x80 == 0 && 0x10u8 & 0x10
        == 0x10 && 0x10u8 & 0x40 == 0) by (bit_vector);
}

/// A setting with a single choice begins with the mark that keeps a controller from offering to
/// change it, and gives the same value as present, default and only possible one.
pub proof fn law_fixed_choice_is_read_only(kind: u16, value: u32)
    ensures
        ({
            let content = fixed_choice_content(kind as int, value as int);
            &&& content.len() == 20
            &&& content.subrange(0, 4) == be16(0x18) + be16(kind as int)
            &&& content.subrange(4, 8) == be32(value as int)
            &&& content.subrange(8, 12) == be32(value as int)
            &&& content.subrange(12, 14) == be16(1)
            &&& content.subrange(16, 20) == be32(value as int)
        }),
{
    let content = fixed_choice_content(kind as int, value as int);
    assert(content.subrange(0, 4) =~= be16(0x18) + be16(kind as int));
    assert(content.subrange(4, 8) =~= be32(value as int));
    assert(content.subrange(8, 12) =~= be32(value as int));
    assert(content.subrange(12, 14) =~= be16(1));
    assert(content.subrange(16, 20) =~= be32(value as int));
}

/// Whether the field of `room` bytes from `at` on holds the beginning of the UTF-8 bytes of `text`,
/// followed by zeros.
pub open spec fn field_holds(content: Seq<u8>, at: int, room: int, text: Seq<char>) -> bool {
    let bytes = vstd::utf8::encode_utf8(text);
    forall|k: int|
        0 <= k < room ==> #[trigger] content[at + k] == if k < bytes.len() {
            bytes[k]
        } else {
            0
        }
}

/// The board description begins with the firmware version of the device, whatever it is, and holds
/// its board name twice, with room for 8 and for 16 bytes. The hardware and boot versions, the flags
/// and the intervals are fixed, and everything else is zero.
pub proof fn law_board_info_describes_the_board(firmware_version: Seq<u8>, board_name: Seq<char>)
    requires
        firmware_version.len() == 4,
    ensures
        ({
            let content = board_info_content(firmware_version, board_name);
            &&& content.len() == 200
            &&& content.subrange(0, 4) == firmware_version
            &&& content.subrange(4, 8) == seq![4u8, 1, 0, 3]
            &&& field_holds(content, 12, 8, board_name)
            &&& content[0x15] == 0x7c
            &&& content[0x16] == 0x10
            &&& content[0x17] == 0x4b
            &&& content[0x23] == 2
            &&& content[0x27] == 1
            &&& content.subrange(0x28, 0x2c) == seq![1u8, 0, 0, 0]
            &&& field_holds(content, 0x38, 16, board_name)
            &&& content[0xbb] == 0x1f
            &&& content[0xbf] == 5
            &&& content[0xc3] == 3
            &&& content[0xc7] == 3
            &&& forall|i: int|
                #![trigger content[i]]
                8 <= i < 12 || i == 0x14 || 0x18 <= i < 0x23 || 0x24 <= i < 0x27 || 0x2c <= i < 0x38
                    || 0x48 <= i < 0xbb || 0xbc <= i < 0xbf || 0xc0 <= i < 0xc3 || 0xc4 <= i < 0xc7
                    ==> content[i] == 0
        }),
{
    let content = board_info_content(firmware_version, board_name);
    assert(content.subrange(0, 4) =~= firmware_version);
    assert(content.subrange(4, 8) =~= seq![4u8, 1, 0, 3]);
    assert(content.subrange(0x28, 0x2c) =~= seq![1u8, 0, 0, 0]);
}

/// The product description holds the manufacturer with room for 8 and for 16 bytes, the board name,
/// the model name, and the version of the product at two places. Everything else is zero.
pub proof fn law_product_info_describes_the_product(
    manufacturer: Seq<char>,
    board_name: Seq<char>,
    model_name: Seq<char>,
    product_version: Seq<u8>,
)
    requires
        product_version.len() == 4,
    ensures
        ({
            let content = product_info_content(
                manufacturer,
                board_name,
                model_name,
                product_version,
            );
            &&& content.len() == 336
            &&& field_holds(content, 0, 8, manufacturer)
            &&& field_holds(content, 8, 8, board_name)
            &&& content.subrange(0x1c, 0x20) == product_version
            &&& field_holds(content, 0x2c, 16, manufacturer)
            &&& field_holds(content, 0xac, 16, model_name)
            &&& content.subrange(0x12c, 0x130) == product_version
            &&& forall|i: int|
                #![trigger content[i]]
                16 <= i < 0x1c || 0x20 <= i < 0x2c || 0x3c <= i < 0xac || 0xbc <= i < 0x12c || 0x130
                    <= i < 336 ==> content[i] == 0
        }),
{
    let content = product_info_content(manufacturer, board_name, model_name, product_version);
    assert(content.subrange(0x1c, 0x20) =~= product_version);
    assert(content.subrange(0x12c, 0x130) =~= product_version);
}

/// The clock description tells the frequency offset with its sign, the address of the device, and
/// the identity of the master clock at two places. Everything else is fixed.
pub proof fn law_clock_stats_tell_the_clock(
    freq_offset: i32,
    mac_address: Seq<u8>,
    master_clock: Seq<u8>,
)
    requires
        mac_address.len() == 6,
        master_clock.len() == 8,
    ensures
        ({
            let content = clock_stats_content(freq_offset, mac_address, master_clock);
            &&& content.len() == 112
            &&& content.subrange(0, 8) == seq![0x00u8, 0x03, 0x00, 0x03, 0x00, 0x00, 0x00, 0x9f]
            &&& freq_offset >= 0 ==> u32_at(content, 8) == freq_offset
            &&& freq_offset < 0 ==> u32_at(content, 8) == freq_offset + 0x1_0000_0000
            &&& content.subrange(12, 18) == mac_address
            &&& content[18] == 0
            &&& content[19] == 0
            &&& content.subrange(20, 28) == master_clock
            &&& content.subrange(28, 36) == master_clock
            &&& forall|i: int| 36 <= i < 112 ==> #[trigger] content[i] == 0
        }),
{
    let content = clock_stats_content(freq_offset, mac_address, master_clock);
    let head = seq![0x00u8, 0x03, 0x00, 0x03, 0x00, 0x00, 0x00, 0x9f];
    let offset = be32_signed(freq_offset as int);
    law_be32_signed_reads_back(freq_offset);
    let rest = mac_address + be16(0) + master_clock + master_clock + zeros(76);
    assert(content =~= head + offset + rest);
    lemma_words_of_a_part(head, offset, rest);
    assert(u32_at(offset, 0) == u32_at(head + offset + rest, 8));
    assert(content.subrange(0, 8) =~= head);
    assert(content.subrange(12, 18) =~= mac_address);
    assert(content.subrange(20, 28) =~= master_clock);
    assert(content.subrange(28, 36) =~= master_clock);
}

/// The network description tells the link speed and the addresses of the device itself: its own, the
/// mask, and the gateway, which also stands for the name server. Everything else is fixed.
pub proof fn law_network_info_tells_the_addresses(info: DeviceInfo)
    ensures
        ({
            let content = network_info_content(info);
            &&& content.len() == 64
            &&& content.subrange(0, 6) == seq![0u8, 1, 0, 0, 0, 0]
            &&& u16_at(content, 6) == info.link_speed
            &&& u16_at(content, 8) == 1
            &&& content.subrange(10, 16) == info.mac_address@
            &&& content.subrange(16, 20) == info.ip_address@
            &&& content.subrange(20, 24) == info.netmask@
            &&& content.subrange(24, 28) == info.gateway@
            &&& content.subrange(28, 32) == info.gateway@
            &&& content.subrange(32, 36) == seq![0x00u8, 0x18, 0x00, 0x30]
            &&& forall|i: int| 36 <= i < 64 ==> #[trigger] content[i] == 0
        }),
{
    let content = network_info_content(info);
    let head = seq![0u8, 1, 0, 0, 0, 0];
    let speed = be16(info.link_speed as int);
    let one = be16(1);
    let rest = info.mac_address@ + info.ip_address@ + info.netmask@ + info.gateway@ + info.gateway@
        + seq![0u8, 0x18, 0, 0x30] + zeros(28);
    lemma_bytes_are_the_number(info.link_speed as int);
    lemma_bytes_are_the_number(1);
    assert(content =~= head + speed + (one + rest));
    lemma_words_of_a_part(head, speed, one + rest);
    assert(u16_at(speed, 0) == u16_at(head + speed + (one + rest), 6));
    assert(content =~= head + speed + one + rest);
    lemma_words_of_a_part(head + speed, one, rest);
    assert(u16_at(one, 0) == u16_at(head + speed + one + rest, 8));
    assert(content.subrange(0, 6) =~= head);
    assert(content.subrange(10, 16) =~= info.mac_address@);
    assert(content.subrange(16, 20) =~= info.ip_address@);
    assert(content.subrange(20, 24) =~= info.netmask@);
    assert(content.subrange(24, 28) =~= info.gateway@);
    assert(content.subrange(28, 32) =~= info.gateway@);
    assert(content.subrange(32, 36) =~= seq![0x00u8, 0x18, 0x00, 0x30]);
}

/// A setting with a single choice tells its kind and three times the whole value, as the present
/// one, the default and the only one of a list of one.
pub proof fn law_fixed_choice_tells_the_value(kind: u16, value: u32)
    ensures
        ({
            let content = fixed_choice_content(kind as int, value as int);
            &&& content.len() == 20
            &&& u16_at(content, 0) == 0x18
            &&& u16_at(content, 2) == kind
            &&& u32_at(content, 4) == value
            &&& u32_at(content, 8) == value
            &&& u16_at(content, 12) == 1
            &&& u16_at(content, 14) == 0
            &&& u32_at(content, 16) == value
        }),
{
    let content = fixed_choice_content(kind as int, value as int);
    let mark = be16(0x18);
    let k = be16(kind as int);
    let v = be32(value as int);
    let one = be16(1);
    let zero = be16(0);
    lemma_bytes_are_the_number(0x18);
    lemma_bytes_are_the_number(kind as int);
    lemma_bytes_are_the_number(value as int);
    lemma_bytes_are_the_number(1);
    lemma_bytes_are_the_number(0);
    let none = Seq::<u8>::empty();
    assert(content =~= none + mark + (k + v + v + one + zero + v));
    lemma_words_of_a_part(none, mark, k + v + v + one + zero + v);
    assert(u16_at(mark, 0) == u16_at(none + mark + (k + v + v + one + zero + v), 0));
    assert(content =~= mark + k + (v + v + one + zero + v));
    lemma_words_of_a_part(mark, k, v + v + one + zero + v);
    assert(u16_at(k, 0) == u16_at(mark + k + (v + v + one + zero + v), 2));
    assert(content =~= mark + k + v + (v + one + zero + v));
    lemma_words_of_a_part(mark + k, v, v + one + zero + v);
    assert(u32_at(v, 0) == u32_at(mark + k + v + (v + one + zero + v), 4));
    assert(content =~= mark + k + v + v + (one + zero + v));
    lemma_words_of_a_part(mark + k + v, v, one + zero + v);
    assert(u32_at(v, 0) == u32_at(mark + k + v + v + (one + zero + v), 8));
    assert(content =~= mark + k + v + v + one + (zero + v));
    lemma_words_of_a_part(mark + k + v + v, one, zero + v);
    assert(u16_at(one, 0) == u16_at(mark + k + v + v + one + (zero + v), 12));
    assert(content =~= mark + k + v + v + one + zero + v);
    lemma_words_of_a_part(mark + k + v + v + one, zero, v);
    assert(u16_at(zero, 0) == u16_at(mark + k + v + v + one + zero + v, 14));
    assert(content =~= mark + k + v + v + one + zero + v + none);
    lemma_words_of_a_part(mark + k + v + v + one + zero, v, none);
    assert(u32_at(v, 0) == u32_at(mark + k + v + v + one + zero + v + none, 16));
}

/// The kinds of the two settings, which make a controller show them without offering a change.
pub proof fn law_kinds_of_settings(kind: u16)
    ensures
        kind == SAMPLE_RATE_SETTING <==> kind == 0x0001,
        kind == ENCODING_SETTING <==> kind == 0x0003,
{
}

} // verus!
