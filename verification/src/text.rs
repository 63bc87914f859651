//! Trimming and comparing text.

use vstd::prelude::*;
use vstd::string::StrSliceExecFns;

verus! {

/// `s` without the items at its beginning for which `blank` holds.
pub open spec fn without_leading<T>(s: Seq<T>, blank: spec_fn(T) -> bool) -> Seq<T>
    decreases s.len(),
{
    if s.len() > 0 && blank(s.first()) {
        without_leading(s.drop_first(), blank)
    } else {
        s
    }
}

/// `s` without the items at its end for which `blank` holds.
pub open spec fn without_trailing<T>(s: Seq<T>, blank: spec_fn(T) -> bool) -> Seq<T>
    decreases s.len(),
{
    if s.len() > 0 && blank(s.last()) {
        without_trailing(s.drop_last(), blank)
    } else {
        s
    }
}

/// `s` without the items at its two ends for which `blank` holds.
pub open spec fn trimmed<T>(s: Seq<T>, blank: spec_fn(T) -> bool) -> Seq<T> {
    without_trailing(without_leading(s, blank), blank)
}

/// Whether a byte is white space in ASCII.
pub open spec fn is_ascii_blank(b: u8) -> bool {
    b == 0x20 || b == 0x09 || b == 0x0a || b == 0x0c || b == 0x0d
}

/// Whether a character has the Unicode property `White_Space`.
pub open spec fn is_blank(c: char) -> bool {
    let n = c as int;
    ||| 0x09 <= n <= 0x0d
    ||| n == 0x20
    ||| n == 0x85
    ||| n == 0xa0
    ||| n == 0x1680
    ||| 0x2000 <= n <= 0x200a
    ||| n == 0x2028
    ||| n == 0x2029
    ||| n == 0x202f
    ||| n == 0x205f
    ||| n == 0x3000
}

/// `bytes` without ASCII white space at its ends.
pub open spec fn trimmed_ascii(bytes: Seq<u8>) -> Seq<u8> {
    trimmed(bytes, |b: u8| is_ascii_blank(b))
}

/// `text` without white space at its ends.
pub open spec fn trimmed_text(text: Seq<char>) -> Seq<char> {
    trimmed(text, |c: char| is_blank(c))
}

fn ascii_blank(b: u8) -> (r: bool)
    ensures
        r == is_ascii_blank(b),
{
    b == 0x20 || b == 0x09 || b == 0x0a || b == 0x0c || b == 0x0d
}

fn blank(c: char) -> (r: bool)
    ensures
        r == is_blank(c),
{
    let n: u32 = c as u32;
    (0x09 <= n && n <= 0x0d) || n == 0x20 || n == 0x85 || n == 0xa0 || n == 0x1680 || (0x2000 <= n
        && n <= 0x200a) || n == 0x2028 || n == 0x2029 || n == 0x202f || n == 0x205f || n == 0x3000
}

/// Cuts ASCII white space off both ends of `bytes`.
pub fn trim_ascii(bytes: &[u8]) -> (r: &[u8])
    ensures
        r@ == trimmed_ascii(bytes@),
{
    let ghost blank = |b: u8| is_ascii_blank(b);
    let len: usize = bytes.len();
    let mut start: usize = 0;
    assert(bytes@.skip(0) =~= bytes@);
    while start < len && ascii_blank(bytes[start])
        invariant
            start <= len,
            len == bytes@.len(),
            blank == |b: u8| is_ascii_blank(b),
            without_leading(bytes@, blank) == without_leading(bytes@.skip(start as int), blank),
        decreases len - start,
    {
        assert(bytes@.skip(start as int).drop_first() =~= bytes@.skip(start + 1));
        start += 1;
    }
    let ghost rest = bytes@.skip(start as int);
    let mut end: usize = len;
    assert(bytes@.subrange(start as int, end as int) =~= rest);
    while end > start && ascii_blank(bytes[end - 1])
        invariant
            start <= end <= len,
            len == bytes@.len(),
            blank == |b: u8| is_ascii_blank(b),
            without_trailing(rest, blank) == without_trailing(
                bytes@.subrange(start as int, end as int),
                blank,
            ),
        decreases end,
    {
        assert(bytes@.subrange(start as int, end as int).drop_last() =~= bytes@.subrange(
            start as int,
            end - 1,
        ));
        end -= 1;
    }
    vstd::slice::slice_subrange(bytes, start, end)
}

/// Cuts white space off both ends of `text`.
pub fn trim(text: &str) -> (r: &str)
    ensures
        r@ == trimmed_text(text@),
{
    let ghost is_blank_fn = |c: char| is_blank(c);
    let len: usize = text.unicode_len();
    let mut start: usize = 0;
    assert(text@.skip(0) =~= text@);
    while start < len && blank(text.get_char(start))
        invariant
            start <= len,
            len == text@.len(),
            is_blank_fn == |c: char| is_blank(c),
            without_leading(text@, is_blank_fn) == without_leading(
                text@.skip(start as int),
                is_blank_fn,
            ),
        decreases len - start,
    {
        assert(text@.skip(start as int).drop_first() =~= text@.skip(start + 1));
        start += 1;
    }
    let ghost rest = text@.skip(start as int);
    let mut end: usize = len;
    assert(text@.subrange(start as int, end as int) =~= rest);
    while end > start && blank(text.get_char(end - 1))
        invariant
            start <= end <= len,
            len == text@.len(),
            is_blank_fn == |c: char| is_blank(c),
            without_trailing(rest, is_blank_fn) == without_trailing(
                text@.subrange(start as int, end as int),
                is_blank_fn,
            ),
        decreases end,
    {
        assert(text@.subrange(start as int, end as int).drop_last() =~= text@.subrange(
            start as int,
            end - 1,
        ));
        end -= 1;
    }
    text.substring_char(start, end)
}

/// Says whether two texts are the same.
pub fn same_text(a: &str, b: &str) -> (r: bool)
    ensures
        r == (a@ == b@),
{
    a.to_owned() == b.to_owned()
}

/// Says whether `text` begins with `prefix`.
pub fn starts_with(text: &str, prefix: &str) -> (r: bool)
    ensures
        r == (prefix@.len() <= text@.len() && text@.take(prefix@.len() as int) == prefix@),
{
    let len: usize = prefix.unicode_len();
    if len > text.unicode_len() {
        return false;
    }
    let head: &str = text.substring_char(0, len);
    assert(head@ =~= text@.take(prefix@.len() as int));
    same_text(head, prefix)
}

/// Cutting items off the beginning leaves everything behind the first item that stays.
proof fn lemma_leading<T>(s: Seq<T>, blank: spec_fn(T) -> bool) -> (a: int)
    ensures
        0 <= a <= s.len(),
        without_leading(s, blank) == s.skip(a),
        forall|i: int| 0 <= i < a ==> blank(#[trigger] s[i]),
        a < s.len() ==> !blank(s[a]),
    decreases s.len(),
{
    if s.len() > 0 && blank(s.first()) {
        let rest = s.drop_first();
        let b = lemma_leading(rest, blank);
        assert(rest.skip(b) =~= s.skip(b + 1));
        assert forall|i: int| 0 <= i < b + 1 implies blank(#[trigger] s[i]) by {
            if i > 0 {
                assert(rest[i - 1] == s[i]);
            }
        }
        b + 1
    } else {
        assert(s.skip(0) =~= s);
        0
    }
}

/// Cutting items off the end leaves everything up to the last item that stays.
proof fn lemma_trailing<T>(s: Seq<T>, blank: spec_fn(T) -> bool) -> (b: int)
    ensures
        0 <= b <= s.len(),
        without_trailing(s, blank) == s.take(b),
        forall|i: int| b <= i < s.len() ==> blank(#[trigger] s[i]),
        b > 0 ==> !blank(s[b - 1]),
    decreases s.len(),
{
    if s.len() > 0 && blank(s.last()) {
        let rest = s.drop_last();
        let b = lemma_trailing(rest, blank);
        assert(rest.take(b) =~= s.take(b));
        assert forall|i: int| b <= i < s.len() implies blank(#[trigger] s[i]) by {
            if i < rest.len() {
                assert(rest[i] == s[i]);
            }
        }
        b
    } else {
        assert(s.take(s.len() as int) =~= s);
        s.len() as int
    }
}

/// What is left after trimming neither begins nor ends with a blank item, and only blank items were
/// cut off on its two sides.
pub proof fn law_trimming_cuts_blanks_only<T>(s: Seq<T>, blank: spec_fn(T) -> bool) -> (parts: (
    Seq<T>,
    Seq<T>,
))
    ensures
        s == parts.0 + trimmed(s, blank) + parts.1,
        forall|i: int| 0 <= i < parts.0.len() ==> blank(#[trigger] parts.0[i]),
        forall|i: int| 0 <= i < parts.1.len() ==> blank(#[trigger] parts.1[i]),
        trimmed(s, blank).len() > 0 ==> !blank(trimmed(s, blank).first()) && !blank(
            trimmed(s, blank).last(),
        ),
{
    let a = lemma_leading(s, blank);
    let rest = s.skip(a);
    let b = lemma_trailing(rest, blank);
    let before = s.take(a);
    let behind = rest.skip(b);
    assert(s =~= before + trimmed(s, blank) + behind);
    assert forall|i: int| 0 <= i < behind.len() implies blank(#[trigger] behind[i]) by {
        assert(behind[i] == rest[b + i]);
    }
    if b > 0 {
        assert(trimmed(s, blank).first() == s[a]);
        assert(trimmed(s, blank).last() == rest[b - 1]);
    }
    (before, behind)
}

/// Blank items around a text that neither begins nor ends with one make no difference.
pub proof fn law_blanks_around_do_not_count<T>(
    before: Seq<T>,
    core: Seq<T>,
    behind: Seq<T>,
    blank: spec_fn(T) -> bool,
)
    requires
        forall|i: int| 0 <= i < before.len() ==> blank(#[trigger] before[i]),
        forall|i: int| 0 <= i < behind.len() ==> blank(#[trigger] behind[i]),
        core.len() > 0,
        !blank(core.first()),
        !blank(core.last()),
    ensures
        trimmed(before + core + behind, blank) == core,
{
    let s = before + core + behind;
    let n = before.len() as int;
    let a = lemma_leading(s, blank);
    assert(s[n] == core.first());
    if a > n {
        assert(blank(s[n]));
    }
    if a < n {
        assert(s[a] == before[a]);
    }
    let rest = s.skip(n);
    let b = lemma_trailing(rest, blank);
    let m = core.len() as int;
    assert(rest[m - 1] == core.last());
    if b < m {
        assert(blank(rest[m - 1]));
    }
    if b > m {
        assert(rest[b - 1] == behind[b - 1 - m]);
    }
    assert(rest.take(m) =~= core);
}

/// The blank bytes are space, tab, line feed, form feed and carriage return.
pub proof fn law_ascii_blanks(b: u8)
    ensures
        is_ascii_blank(b) <==> seq![' ', '\t', '\n', '\x0c', '\r'].contains(b as char),
{
    let all = seq![' ', '\t', '\n', '\x0c', '\r'];
    assert(all[0] == ' ' && all[1] == '\t' && all[2] == '\n' && all[3] == '\x0c' && all[4] == '\r');
}

/// Among the characters of ASCII, those are blank that are blank bytes, and the vertical tab. No
/// letter, figure or punctuation mark of ASCII is blank, nor any character from the ideographs on.
pub proof fn law_blank_characters(c: char)
    ensures
        c as int <= 0x7f ==> (is_blank(c) <==> is_ascii_blank(c as u8) || c as int == 0x0b),
        0x21 <= c as int <= 0x7e ==> !is_blank(c),
        c as int > 0x3000 ==> !is_blank(c),
{
}

} // verus!
