//! Numbers, text and raw bytes in packets.

use bytebuffer::ByteBuffer;
use vstd::prelude::*;

verus! {

/// The bytes of a 16-bit number, most significant first.
pub open spec fn be16(n: int) -> Seq<u8> {
    seq![(n / 0x100 % 0x100) as u8, (n % 0x100) as u8]
}

/// The bytes of a 32-bit number, most significant first.
pub open spec fn be32(n: int) -> Seq<u8> {
    seq![
        (n / 0x100_0000 % 0x100) as u8,
        (n / 0x1_0000 % 0x100) as u8,
        (n / 0x100 % 0x100) as u8,
        (n % 0x100) as u8,
    ]
}

/// The bytes of a signed 32-bit number in two's complement, most significant first.
pub open spec fn be32_signed(n: int) -> Seq<u8> {
    if n < 0 {
        be32(n + 0x1_0000_0000)
    } else {
        be32(n)
    }
}

/// The bytes of a 16-bit number give the number back.
pub proof fn law_be16_reads_back(n: u16)
    ensures
        be16(n as int)[0] * 0x100 + be16(n as int)[1] == n,
{
}

/// The bytes of a 32-bit number give the number back.
pub proof fn law_be32_reads_back(n: u32)
    ensures
        be32(n as int)[0] * 0x100_0000 + be32(n as int)[1] * 0x1_0000 + be32(n as int)[2] * 0x100
            + be32(n as int)[3] == n,
{
}

/// `n` zero bytes.
pub open spec fn zeros(n: nat) -> Seq<u8> {
    Seq::new(n, |i: int| 0u8)
}

/// A buffer of bytes that numbers are appended to.
#[verifier::external_type_specification]
#[verifier::external_body]
pub struct ExByteBuffer(ByteBuffer);

/// The bytes that a buffer holds.
pub uninterp spec fn buffer_bytes(buffer: ByteBuffer) -> Seq<u8>;

/// Whether a buffer writes numbers with their most significant byte first, and what is written
/// next goes behind the bytes that it holds.
pub uninterp spec fn appends_big_endian(buffer: ByteBuffer) -> bool;

/// `ByteBuffer::new` gives an empty buffer, which is big-endian and writes at its end.
pub assume_specification[ ByteBuffer::new ]() -> (buffer: ByteBuffer)
    ensures
        buffer_bytes(buffer) == Seq::<u8>::empty(),
        appends_big_endian(buffer),
;

/// `ByteBuffer::write_bytes` on a buffer that writes at its end appends `bytes` as they are.
pub assume_specification[ ByteBuffer::write_bytes ](buffer: &mut ByteBuffer, bytes: &[u8])
    requires
        appends_big_endian(*old(buffer)),
    ensures
        buffer_bytes(*final(buffer)) == buffer_bytes(*old(buffer)) + bytes@,
        appends_big_endian(*final(buffer)),
;

/// `ByteBuffer::write_u8` on a buffer that writes at its end appends the byte.
pub assume_specification[ ByteBuffer::write_u8 ](buffer: &mut ByteBuffer, val: u8)
    requires
        appends_big_endian(*old(buffer)),
    ensures
        buffer_bytes(*final(buffer)) == buffer_bytes(*old(buffer)).push(val),
        appends_big_endian(*final(buffer)),
;

/// `ByteBuffer::write_u16` on a big-endian buffer that writes at its end appends the two bytes of
/// the number, most significant first.
pub assume_specification[ ByteBuffer::write_u16 ](buffer: &mut ByteBuffer, val: u16)
    requires
        appends_big_endian(*old(buffer)),
    ensures
        buffer_bytes(*final(buffer)) == buffer_bytes(*old(buffer)) + be16(val as int),
        appends_big_endian(*final(buffer)),
;

/// `ByteBuffer::write_u32` on a big-endian buffer that writes at its end appends the four bytes of
/// the number, most significant first.
pub assume_specification[ ByteBuffer::write_u32 ](buffer: &mut ByteBuffer, val: u32)
    requires
        appends_big_endian(*old(buffer)),
    ensures
        buffer_bytes(*final(buffer)) == buffer_bytes(*old(buffer)) + be32(val as int),
        appends_big_endian(*final(buffer)),
;

/// `ByteBuffer::write_i32` on a big-endian buffer that writes at its end appends the four bytes of
/// the number in two's complement, most significant first.
pub assume_specification[ ByteBuffer::write_i32 ](buffer: &mut ByteBuffer, val: i32)
    requires
        appends_big_endian(*old(buffer)),
    ensures
        buffer_bytes(*final(buffer)) == buffer_bytes(*old(buffer)) + be32_signed(val as int),
        appends_big_endian(*final(buffer)),
;

/// `ByteBuffer::as_bytes` shows the bytes that the buffer holds.
pub assume_specification[ ByteBuffer::as_bytes ](buffer: &ByteBuffer) -> (bytes: &[u8])
    ensures
        bytes@ == buffer_bytes(*buffer),
;

/// The smaller of two numbers.
pub open spec fn smaller(a: int, b: int) -> int {
    if a < b {
        a
    } else {
        b
    }
}

/// `buffer` with `bytes` in place of what stood from `start` on.
pub open spec fn overwritten(buffer: Seq<u8>, start: int, bytes: Seq<u8>) -> Seq<u8> {
    Seq::new(
        buffer.len(),
        |i: int|
            if start <= i < start + bytes.len() {
                bytes[i - start]
            } else {
                buffer[i]
            },
    )
}

/// The UTF-8 bytes of `s`, cut off after `max_len`.
pub open spec fn text_field(s: Seq<char>, max_len: int) -> Seq<u8> {
    let bytes = vstd::utf8::encode_utf8(s);
    bytes.take(smaller(bytes.len() as int, max_len))
}

/// Puts `bytes` into `buffer` from `start` on.
pub fn write_bytes_to_buffer(buffer: &mut [u8], start: usize, bytes: &[u8])
    requires
        start + bytes@.len() <= old(buffer)@.len(),
    ensures
        final(buffer)@ == overwritten(old(buffer)@, start as int, bytes@),
{
    let total: usize = buffer.len();
    let mut i: usize = 0;
    while i < bytes.len()
        invariant
            i <= bytes@.len(),
            start + bytes@.len() <= total,
            buffer@.len() == total,
            buffer@ == overwritten(old(buffer)@, start as int, bytes@.take(i as int)),
        decreases bytes@.len() - i,
    {
        buffer[start + i] = bytes[i];
        i += 1;
        assert(buffer@ =~= overwritten(old(buffer)@, start as int, bytes@.take(i as int)));
    }
    assert(bytes@.take(i as int) =~= bytes@);
}

/// Puts the text `s` into `buffer` from `start` on, cut off after `max_len` bytes. A shorter text
/// leaves the rest of its place as it was.
pub fn write_str_to_buffer(buffer: &mut [u8], start: usize, max_len: usize, s: &str)
    requires
        start + max_len <= old(buffer)@.len(),
    ensures
        final(buffer)@ == overwritten(
            old(buffer)@,
            start as int,
            text_field(s@, max_len as int),
        ),
{
    let bytes: &[u8] = s.as_bytes();
    let len: usize = if bytes.len() < max_len {
        bytes.len()
    } else {
        max_len
    };
    let cut: &[u8] = vstd::slice::slice_subrange(bytes, 0, len);
    assert(cut@ =~= text_field(s@, max_len as int));
    write_bytes_to_buffer(buffer, start, cut);
}

/// The number in the two bytes from `i` on, most significant first.
#[verifier::opaque]
pub open spec fn u16_at(bytes: Seq<u8>, i: int) -> int {
    bytes[i] * 0x100 + bytes[i + 1]
}

/// The number in the four bytes from `i` on, most significant first.
#[verifier::opaque]
pub open spec fn u32_at(bytes: Seq<u8>, i: int) -> int {
    bytes[i] * 0x100_0000 + bytes[i + 1] * 0x1_0000 + bytes[i + 2] * 0x100 + bytes[i + 3]
}

/// The numbers of a part are found at its place in the whole.
pub proof fn lemma_words_of_a_part(before: Seq<u8>, part: Seq<u8>, behind: Seq<u8>)
    ensures
        forall|i: int|
            0 <= i && i + 2 <= part.len() ==> #[trigger] u16_at(part, i) == u16_at(
                before + part + behind,
                before.len() + i,
            ),
        forall|i: int|
            0 <= i && i + 4 <= part.len() ==> #[trigger] u32_at(part, i) == u32_at(
                before + part + behind,
                before.len() + i,
            ),
{
    reveal(u16_at);
    reveal(u32_at);
    let whole = before + part + behind;
    let n = before.len() as int;
    assert forall|i: int| 0 <= i && i + 2 <= part.len() implies #[trigger] u16_at(part, i)
        == u16_at(whole, n + i) by {
        assert(whole[n + i] == part[i] && whole[n + i + 1] == part[i + 1]);
    }
    assert forall|i: int| 0 <= i && i + 4 <= part.len() implies #[trigger] u32_at(part, i)
        == u32_at(whole, n + i) by {
        assert(whole[n + i] == part[i] && whole[n + i + 1] == part[i + 1] && whole[n + i + 2]
            == part[i + 2] && whole[n + i + 3] == part[i + 3]);
    }
}

/// The bytes of a number are this number.
pub proof fn lemma_bytes_are_the_number(n: int)
    ensures
        be16(n).len() == 2,
        be32(n).len() == 4,
        0 <= n <= 0xffff ==> u16_at(be16(n), 0) == n,
        0 <= n <= 0xffff_ffff ==> u32_at(be32(n), 0) == n,
{
    reveal(u16_at);
    reveal(u32_at);
    if 0 <= n <= 0xffff_ffff {
        law_be32_reads_back(n as u32);
    }
}

/// The bytes of a signed number give, without a sign, the number itself or, if it is negative, the
/// number and a whole turn of 32 bits.
pub proof fn law_be32_signed_reads_back(n: i32)
    ensures
        n >= 0 ==> u32_at(be32_signed(n as int), 0) == n,
        n < 0 ==> u32_at(be32_signed(n as int), 0) == n + 0x1_0000_0000,
        be32_signed(n as int).len() == 4,
{
    if n >= 0 {
        lemma_bytes_are_the_number(n as int);
    } else {
        lemma_bytes_are_the_number(n + 0x1_0000_0000);
    }
}

/// Text in a field is the beginning of its UTF-8 bytes: all of them, or as many as there is room
/// for.
pub proof fn law_text_field_is_the_beginning(s: Seq<char>, room: int)
    requires
        room >= 0,
    ensures
        text_field(s, room).len() <= room,
        text_field(s, room).is_prefix_of(vstd::utf8::encode_utf8(s)),
        vstd::utf8::encode_utf8(s).len() <= room ==> text_field(s, room)
            == vstd::utf8::encode_utf8(s),
        vstd::utf8::encode_utf8(s).len() >= room ==> text_field(s, room).len() == room,
{
}

/// After bytes have been put into a buffer they stand there, and everything before and behind them
/// is as it was.
pub proof fn law_overwritten_part_stands_there(buffer: Seq<u8>, start: int, bytes: Seq<u8>)
    requires
        0 <= start,
        start + bytes.len() <= buffer.len(),
    ensures
        overwritten(buffer, start, bytes) == buffer.take(start) + bytes + buffer.skip(
            start + bytes.len(),
        ),
{
    assert(overwritten(buffer, start, bytes) =~= buffer.take(start) + bytes + buffer.skip(
        start + bytes.len(),
    ));
}

} // verus!
