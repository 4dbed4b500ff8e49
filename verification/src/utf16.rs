//! UTF-16 code units of a text.

use vstd::prelude::*;
use vstd::utf8::is_scalar;

use crate::text::utf16_len;

verus! {

broadcast use vstd::string::group_string_axioms;

/// `char::from_u32` converts a scalar value to the character with that value,
/// and gives `None` for a number that is not a scalar value.
pub assume_specification[ char::from_u32 ](i: u32) -> (r: Option<char>)
    ensures
        r == if is_scalar(i) {
            Some(i as char)
        } else {
            None
        },
;

/// `String::push` appends one character to the end of a string.
pub assume_specification[ String::push ](s: &mut String, c: char)
    ensures
        final(s)@ == old(s)@.push(c),
;

pub open spec fn is_high_surrogate(u: u16) -> bool {
    0xD800 <= u < 0xDC00
}

pub open spec fn is_low_surrogate(u: u16) -> bool {
    0xDC00 <= u < 0xE000
}

pub open spec fn is_surrogate(u: u16) -> bool {
    0xD800 <= u < 0xE000
}

/// Code units of one character.
pub open spec fn encode_char(c: char) -> Seq<u16> {
    let v = c as u32 as int;
    if v < 0x10000 {
        seq![v as u16]
    } else {
        seq![
            (0xD800 + (v - 0x10000) / 0x400) as u16,
            (0xDC00 + (v - 0x10000) % 0x400) as u16,
        ]
    }
}

/// Code units of a text.
pub open spec fn encode(s: Seq<char>) -> Seq<u16>
    decreases s.len(),
{
    if s.len() == 0 {
        Seq::empty()
    } else {
        encode(s.drop_last()) + encode_char(s.last())
    }
}

/// The character that a surrogate pair stands for.
pub open spec fn pair_char(hi: u16, lo: u16) -> char {
    (0x10000 + (hi - 0xD800) * 0x400 + (lo - 0xDC00)) as char
}

/// Text of a sequence of code units; a surrogate without its partner becomes
/// the replacement character.
pub open spec fn decode_lossy(u: Seq<u16>) -> Seq<char>
    decreases u.len(),
{
    if u.len() == 0 {
        Seq::empty()
    } else if !is_surrogate(u[0]) {
        seq![u[0] as char] + decode_lossy(u.skip(1))
    } else if is_high_surrogate(u[0]) && u.len() >= 2 && is_low_surrogate(u[1]) {
        seq![pair_char(u[0], u[1])] + decode_lossy(u.skip(2))
    } else {
        seq!['\u{FFFD}'] + decode_lossy(u.skip(1))
    }
}

/// The number of code units is the UTF-16 length of the text.
pub proof fn lemma_encode_len(s: Seq<char>)
    ensures
        encode(s).len() == utf16_len(s),
    decreases s.len(),
{
    if s.len() > 0 {
        lemma_encode_len(s.drop_last());
    }
}

/// Encoding distributes over concatenation.
pub proof fn lemma_encode_concat(a: Seq<char>, b: Seq<char>)
    ensures
        encode(a + b) == encode(a) + encode(b),
    decreases b.len(),
{
    if b.len() == 0 {
        assert(a + b =~= a);
        assert(encode(a) + encode(b) =~= encode(a));
    } else {
        lemma_encode_concat(a, b.drop_last());
        assert((a + b).drop_last() =~= a + b.drop_last());
        assert(encode(a + b) =~= encode(a) + encode(b));
    }
}

/// The units of one character say which character it is.
proof fn lemma_encode_char(c: char)
    ensures
        (c as u32) < 0x10000 ==> encode_char(c).len() == 1 && !is_surrogate(encode_char(c)[0])
            && encode_char(c)[0] as char == c,
        (c as u32) >= 0x10000 ==> encode_char(c).len() == 2 && is_high_surrogate(encode_char(c)[0])
            && is_low_surrogate(encode_char(c)[1]) && pair_char(
            encode_char(c)[0],
            encode_char(c)[1],
        ) == c,
{
}

/// Decoding the code units of a text gives the text back, whatever units follow.
proof fn lemma_decode_encode_then(s: Seq<char>, rest: Seq<u16>)
    ensures
        decode_lossy(encode(s) + rest) == s + decode_lossy(rest),
    decreases s.len(),
{
    if s.len() == 0 {
        assert(encode(s) + rest =~= rest);
        assert(s + decode_lossy(rest) =~= decode_lossy(rest));
    } else {
        let c = s.last();
        let front = s.drop_last();
        let tail = encode_char(c) + rest;
        assert(encode(s) + rest =~= encode(front) + tail);
        lemma_decode_encode_then(front, tail);
        lemma_encode_char(c);
        if (c as u32) < 0x10000 {
            assert(tail.skip(1) =~= rest);
            assert(tail[0] == encode_char(c)[0]);
        } else {
            assert(tail.skip(2) =~= rest);
            assert(tail[0] == encode_char(c)[0] && tail[1] == encode_char(c)[1]);
        }
        assert(decode_lossy(tail) =~= seq![c] + decode_lossy(rest));
        assert(front + (seq![c] + decode_lossy(rest)) =~= s + decode_lossy(rest));
    }
}

/// No text is lost by going to code units and back.
pub proof fn lemma_decode_encode(s: Seq<char>)
    ensures
        decode_lossy(encode(s)) == s,
{
    lemma_decode_encode_then(s, Seq::empty());
    assert(encode(s) + Seq::<u16>::empty() =~= encode(s));
    assert(s + decode_lossy(Seq::<u16>::empty()) =~= s);
}

/// The UTF-16 code units of a text.
pub fn encode_utf16(s: &str) -> (u: Vec<u16>)
    ensures
        u@ == encode(s@),
{
    let mut u: Vec<u16> = Vec::new();
    for c in it: s.chars()
        invariant
            it.seq() == s@,
            u@ == encode(s@.take(it.index() as int)),
    {
        let ghost k = it.index() as int;
        assert(s@.take(k + 1).drop_last() =~= s@.take(k));
        let v: u32 = c as u32;
        if v < 0x10000 {
            u.push(v as u16);
        } else {
            let w: u32 = v - 0x10000;
            u.push((0xD800 + w / 0x400) as u16);
            u.push((0xDC00 + w % 0x400) as u16);
        }
        assert(u@ =~= encode(s@.take(k)) + encode_char(c));
    }
    assert(s@.take(s@.len() as int) =~= s@);
    u
}

/// The text of the code units `units[start..end]`.
pub fn from_utf16_lossy(units: &Vec<u16>, start: usize, end: usize) -> (r: String)
    requires
        start <= end <= units.len(),
    ensures
        r@ == decode_lossy(units@.subrange(start as int, end as int)),
{
    let mut out = String::new();
    let mut i: usize = start;
    let ghost span = units@.subrange(start as int, end as int);
    proof {
        assert(span.skip(0) =~= span);
        assert(out@ + decode_lossy(span) =~= decode_lossy(span));
    }
    while i < end
        invariant
            start <= i <= end <= units.len(),
            span == units@.subrange(start as int, end as int),
            out@ + decode_lossy(span.skip(i - start)) == decode_lossy(span),
        decreases end - i,
    {
        let u: u16 = units[i];
        let ghost rest = span.skip(i - start);
        assert(rest[0] == u);
        let ghost before = out@;
        if u < 0xD800 || u >= 0xE000 {
            match char::from_u32(u as u32) {
                Some(c) => {
                    out.push(c);
                },
                None => {},
            }
            assert(rest.skip(1) =~= span.skip(i + 1 - start));
            assert(out@ =~= before + seq![u as char]);
            i = i + 1;
        } else if u < 0xDC00 && i + 1 < end && 0xDC00 <= units[i + 1] && units[i + 1] < 0xE000 {
            let lo: u16 = units[i + 1];
            assert(rest[1] == lo);
            let v: u32 = 0x10000 + (u as u32 - 0xD800) * 0x400 + (lo as u32 - 0xDC00);
            match char::from_u32(v) {
                Some(c) => {
                    out.push(c);
                },
                None => {},
            }
            assert(rest.skip(2) =~= span.skip(i + 2 - start));
            assert(out@ =~= before + seq![pair_char(u, lo)]);
            i = i + 2;
        } else {
            out.push('\u{FFFD}');
            assert(rest.len() >= 2 ==> rest[1] == units[i + 1]);
            assert(rest.skip(1) =~= span.skip(i + 1 - start));
            assert(out@ =~= before + seq!['\u{FFFD}']);
            i = i + 1;
        }
        assert(out@ + decode_lossy(span.skip(i - start)) =~= before + decode_lossy(rest));
    }
    assert(span.skip(end - start) =~= Seq::<u16>::empty());
    assert(out@ + Seq::<char>::empty() =~= out@);
    out
}


/// Code units in front of the first zero, all of them where there is none.
pub open spec fn until_zero(units: Seq<u16>) -> Seq<u16>
    decreases units.len(),
{
    if units.len() == 0 || units[0] == 0 {
        Seq::empty()
    } else {
        seq![units[0]] + until_zero(units.skip(1))
    }
}

proof fn lemma_until_zero(units: Seq<u16>, i: int)
    requires
        0 <= i <= units.len(),
        i < units.len() ==> units[i] == 0,
        forall|k: int| 0 <= k < i ==> units[k] != 0,
    ensures
        until_zero(units) == units.take(i),
    decreases i,
{
    if i > 0 {
        lemma_until_zero(units.skip(1), i - 1);
        assert(seq![units[0]] + units.skip(1).take(i - 1) =~= units.take(i));
    } else {
        assert(units.take(0) =~= Seq::empty());
    }
}

/// Text of a buffer that a zero ends.
pub fn wide_to_string(buf: &Vec<u16>) -> (r: String)
    ensures
        r@ == decode_lossy(until_zero(buf@)),
{
    let mut i: usize = 0;
    while i < buf.len() && buf[i] != 0
        invariant
            i <= buf@.len(),
            forall|k: int| 0 <= k < i ==> buf@[k] != 0,
        decreases buf@.len() - i,
    {
        i = i + 1;
    }
    proof {
        lemma_until_zero(buf@, i as int);
        assert(buf@.subrange(0, i as int) =~= buf@.take(i as int));
    }
    from_utf16_lossy(buf, 0, i)
}

/// A text without zeros comes back from a buffer that a zero ends.
pub proof fn law_zero_ended_text_comes_back(s: Seq<char>, rest: Seq<u16>)
    requires
        forall|i: int| 0 <= i < s.len() ==> s[i] != '\0',
    ensures
        decode_lossy(until_zero(encode(s).push(0) + rest)) == s,
{
    let units = encode(s).push(0) + rest;
    lemma_no_zero(s);
    assert forall|k: int| 0 <= k < encode(s).len() implies units[k] != 0 by {
        assert(units[k] == encode(s)[k]);
    }
    lemma_until_zero(units, encode(s).len() as int);
    assert(units.take(encode(s).len() as int) =~= encode(s));
    lemma_decode_encode(s);
}

proof fn lemma_no_zero(s: Seq<char>)
    requires
        forall|i: int| 0 <= i < s.len() ==> s[i] != '\0',
    ensures
        forall|k: int| 0 <= k < encode(s).len() ==> encode(s)[k] != 0,
    decreases s.len(),
{
    if s.len() > 0 {
        let t = s.drop_last();
        lemma_no_zero(t);
        lemma_encode_char(s.last());
        assert(s.last() != '\0');
        assert(encode(s) == encode(t) + encode_char(s.last()));
    }
}

/// The units of a text stand for its characters: one unit is the number of its
/// character, and two of them put together are.
pub proof fn law_units_stand_for_characters(
    text: &str,
    before: Seq<char>,
    c: char,
    behind: Seq<char>,
    r: Vec<u16>,
)
    requires
        call_ensures(encode_utf16, (text,), r),
        text@ == before + seq![c] + behind,
    ensures
        ({
            let i = utf16_len(before) as int;
            if (c as u32) < 0x10000 {
                i < r@.len() && r@[i] == c as u32
            } else {
                &&& i + 1 < r@.len()
                &&& 0xD800 <= r@[i] < 0xDC00
                &&& 0xDC00 <= r@[i + 1] < 0xE000
                &&& 0x10000 + (r@[i] - 0xD800) * 0x400 + (r@[i + 1] - 0xDC00) == c as u32
            }
        }),
        r@.len() == utf16_len(before) + encode_char(c).len() + utf16_len(behind),
{
    lemma_encode_concat(before, seq![c]);
    lemma_encode_concat(before + seq![c], behind);
    lemma_encode_len(before);
    lemma_encode_len(behind);
    let one = seq![c];
    assert(one.drop_last() =~= Seq::<char>::empty());
    assert(encode(one.drop_last()) =~= Seq::<u16>::empty());
    assert(encode(one) =~= encode_char(c));
    lemma_encode_char(c);
    let i = utf16_len(before) as int;
    assert(r@[i] == encode_char(c)[0]);
    if (c as u32) >= 0x10000 {
        assert(r@[i + 1] == encode_char(c)[1]);
    }
}

/// A part of a text comes back from its units.
pub proof fn law_text_comes_back_from_its_units(
    text: &str,
    units: Vec<u16>,
    before: Seq<char>,
    part: Seq<char>,
    behind: Seq<char>,
    r: String,
)
    requires
        call_ensures(encode_utf16, (text,), units),
        text@ == before + part + behind,
        utf16_len(before) + utf16_len(part) <= usize::MAX,
        call_ensures(
            from_utf16_lossy,
            (
                &units,
                utf16_len(before) as usize,
                (utf16_len(before) + utf16_len(part)) as usize,
            ),
            r,
        ),
    ensures
        r@ == part,
{
    lemma_encode_concat(before, part);
    lemma_encode_concat(before + part, behind);
    lemma_encode_len(before);
    lemma_encode_len(part);
    let a = utf16_len(before) as int;
    let b = a + utf16_len(part);
    assert(units@.subrange(a, b) =~= encode(part));
    lemma_decode_encode(part);
}

/// The text in front of a zero is read from a buffer, whatever stands behind it.
pub proof fn law_buffers_are_read_up_to_a_zero(buf: &Vec<u16>, s: Seq<char>, rest: Seq<u16>, r: String)
    requires
        call_ensures(wide_to_string, (buf,), r),
        forall|i: int| 0 <= i < s.len() ==> s[i] != '\0',
        buf@ == encode(s).push(0) + rest || buf@ == encode(s),
    ensures
        r@ == s,
{
    law_zero_ended_text_comes_back(s, rest);
    if buf@ == encode(s) {
        lemma_no_zero(s);
        lemma_until_zero(buf@, buf@.len() as int);
        assert(buf@.take(buf@.len() as int) =~= buf@);
        lemma_decode_encode(s);
    }
}

/// A unit that is half of a pair without the other half becomes the replacement
/// character, and the units behind it are read as they would be by themselves.
pub proof fn law_lone_halves_are_replaced(units: &Vec<u16>, start: usize, end: usize, r: String, rest: String)
    requires
        start < end <= units@.len(),
        call_ensures(from_utf16_lossy, (units, start, end), r),
        call_ensures(from_utf16_lossy, (units, (start + 1) as usize, end), rest),
        0xDC00 <= units@[start as int] < 0xE000 || (0xD800 <= units@[start as int] < 0xDC00 && (
        start + 1 == end || !(0xDC00 <= units@[start + 1] < 0xE000))),
    ensures
        r@ == seq!['\u{FFFD}'] + rest@,
{
    let span = units@.subrange(start as int, end as int);
    assert(span.skip(1) =~= units@.subrange(start + 1, end as int));
}

} // verus!
