//! Sizes, and conversion of UTF-8 byte ranges to UTF-16 ranges.

use vstd::prelude::*;
use vstd::utf8::encode_utf8;

use crate::decimal::{human, human_text};
use crate::text::{
    byte_at, char_holding_byte, char_index, len_utf16, len_utf8, lemma_byte_at_step,
    lemma_char_index, lemma_char_index_behind, lemma_offsets_ends, lemma_offsets_monotone, lemma_unit_at_step, unit_at,
    utf16_len, utf8_len,
};
use crate::utf16::{encode, lemma_encode_concat, lemma_encode_len};

verus! {

broadcast use vstd::string::group_string_axioms;

/// Largest unit that sizes are given in: PiB.
pub const TOP_UNIT: u64 = 5;

/// A number of bytes in the unit that fits it, such as `1.50 KiB`.
pub fn human_bytes(n: u64) -> (r: String)
    ensures
        r@ == human_text(n as nat, TOP_UNIT as nat),
{
    human(n, TOP_UNIT)
}

/// Code unit offset of the character that holds a byte.
pub open spec fn unit_of_byte(text: Seq<char>, byte: int) -> nat {
    unit_at(text, char_index(text, byte))
}

/// UTF-16 ranges of UTF-8 byte ranges, in order; those that hold no code unit
/// are left out.
pub open spec fn utf16_ranges(text: Seq<char>, spans: Seq<(usize, usize)>) -> Seq<(nat, nat)>
    decreases spans.len(),
{
    if spans.len() == 0 {
        Seq::empty()
    } else {
        let front = utf16_ranges(text, spans.drop_last());
        let start = unit_of_byte(text, spans.last().0 as int);
        let end = unit_of_byte(text, spans.last().1 as int);
        if end > start {
            front.push((start, end))
        } else {
            front
        }
    }
}

/// Byte offsets at which the characters of a text start.
fn char_starts(text: &str) -> (v: Vec<usize>)
    ensures
        v@.len() == text@.len(),
        forall|k: int| 0 <= k < v@.len() ==> #[trigger] v@[k] == byte_at(text@, k),
{
    let total: usize = text.as_bytes().len();
    let mut v: Vec<usize> = Vec::new();
    let mut byte: usize = 0;
    proof {
        lemma_offsets_ends(text@);
    }
    for c in it: text.chars()
        invariant
            it.seq() == text@,
            total == utf8_len(text@),
            byte == byte_at(text@, it.index() as int),
            v@.len() == it.index(),
            forall|k: int| 0 <= k < v@.len() ==> #[trigger] v@[k] == byte_at(text@, k),
    {
        let ghost k = it.index() as int;
        proof {
            lemma_byte_at_step(text@, k);
            lemma_offsets_monotone(text@, k + 1, text@.len() as int);
        }
        v.push(byte);
        byte = byte + len_utf8(c);
    }
    v
}

/// Index of the character that holds byte `byte` of a text, found among the
/// offsets at which its characters start. A byte inside a character belongs to
/// that character, and one past the text to its end.
fn byte_to_char_index(
    char_starts: &Vec<usize>,
    byte: usize,
    text_len: usize,
    Ghost(text): Ghost<Seq<char>>,
) -> (r: usize)
    requires
        text_len == utf8_len(text),
        char_starts@.len() == text.len(),
        forall|k: int| 0 <= k < text.len() ==> #[trigger] char_starts@[k] == byte_at(text, k),
    ensures
        r == char_index(text, byte as int),
{
    proof {
        lemma_char_index(text, byte as int);
        lemma_offsets_ends(text);
    }
    if byte >= text_len {
        assert(char_holding_byte(text, byte as int, text.len() as int));
        return char_starts.len();
    }
    let mut lo: usize = 0;
    let mut hi: usize = char_starts.len();
    assert(text.len() > 0);
    while hi - lo > 1
        invariant
            byte < utf8_len(text),
            char_starts@.len() == text.len(),
            forall|k: int| 0 <= k < text.len() ==> #[trigger] char_starts@[k] == byte_at(text, k),
            lo < hi <= char_starts@.len(),
            byte_at(text, lo as int) <= byte < byte_at(text, hi as int),
        decreases hi - lo,
    {
        let mid: usize = lo + (hi - lo) / 2;
        if char_starts[mid] <= byte {
            lo = mid;
        } else {
            hi = mid;
        }
    }
    assert(hi == lo + 1);
    assert(char_holding_byte(text, byte as int, lo as int));
    lo
}

/// UTF-16 length of the characters `start_char..end_char` of a text, as far as
/// the text has them.
fn utf16_len_of_chars(text: &str, start_char: usize, end_char: usize) -> (r: usize)
    ensures
        r == if start_char <= end_char && start_char <= text@.len() {
            utf16_len(
                text@.subrange(
                    start_char as int,
                    if end_char <= text@.len() {
                        end_char as int
                    } else {
                        text@.len() as int
                    },
                ),
            )
        } else {
            0
        },
{
    let total: usize = text.as_bytes().len();
    let mut n: usize = 0;
    let mut i: usize = 0;
    proof {
        lemma_offsets_ends(text@);
        lemma_offsets_monotone(text@, 0, text@.len() as int);
    }
    for c in it: text.chars()
        invariant
            it.seq() == text@,
            total == utf8_len(text@),
            text@.len() <= total,
            i == it.index(),
            n <= unit_at(text@, i as int),
            n == if start_char <= end_char && start_char <= i {
                utf16_len(
                    text@.subrange(
                        start_char as int,
                        if end_char <= i {
                            end_char as int
                        } else {
                            i as int
                        },
                    ),
                )
            } else {
                0
            },
    {
        let ghost k = i as int;
        proof {
            lemma_unit_at_step(text@, k);
            lemma_offsets_monotone(text@, k + 1, text@.len() as int);
        }
        if start_char <= i && i < end_char {
            assert(text@.subrange(start_char as int, k + 1).drop_last() =~= text@.subrange(
                start_char as int,
                k,
            ));
            n = n + len_utf16(c);
        }
        i = i + 1;
        assert(start_char == i ==> text@.subrange(i as int, i as int) =~= Seq::<char>::empty());
    }
    assert(start_char == 0 ==> text@.subrange(0, 0) =~= Seq::<char>::empty());
    n
}

/// UTF-16 ranges of the UTF-8 byte ranges `spans` of a line. An offset inside a
/// character counts as that character's start, one past the line as its end.
pub fn byte_ranges_to_utf16(text: &str, spans: &[(usize, usize)]) -> (r: Vec<(usize, usize)>)
    ensures
        r@.len() == utf16_ranges(text@, spans@).len(),
        forall|i: int|
            #![trigger r@[i]]
            0 <= i < r@.len() ==> r@[i].0 == utf16_ranges(text@, spans@)[i].0 && r@[i].1
                == utf16_ranges(text@, spans@)[i].1,
{
    let starts: Vec<usize> = char_starts(text);
    let text_len: usize = text.as_bytes().len();
    let mut out: Vec<(usize, usize)> = Vec::new();
    let mut j: usize = 0;
    proof {
        lemma_offsets_ends(text@);
    }
    while j < spans.len()
        invariant
            j <= spans@.len(),
            text_len == utf8_len(text@),
            starts@.len() == text@.len(),
            forall|k: int| 0 <= k < text@.len() ==> #[trigger] starts@[k] == byte_at(text@, k),
            out@.len() == utf16_ranges(text@, spans@.take(j as int)).len(),
            forall|i: int|
                #![trigger out@[i]]
                0 <= i < out@.len() ==> out@[i].0 == utf16_ranges(
                    text@,
                    spans@.take(j as int),
                )[i].0 && out@[i].1 == utf16_ranges(text@, spans@.take(j as int))[i].1,
        decreases spans@.len() - j,
    {
        let (s, e) = spans[j];
        let sc: usize = byte_to_char_index(&starts, s, text_len, Ghost(text@));
        let ec: usize = byte_to_char_index(&starts, e, text_len, Ghost(text@));
        proof {
            lemma_char_index(text@, s as int);
            lemma_char_index(text@, e as int);
        }
        let u16_start: usize = utf16_len_of_chars(text, 0, sc);
        let u16_end: usize = utf16_len_of_chars(text, 0, ec);
        assert(text@.subrange(0, sc as int) =~= text@.take(sc as int));
        assert(text@.subrange(0, ec as int) =~= text@.take(ec as int));
        assert(spans@.take(j + 1).drop_last() =~= spans@.take(j as int));
        if u16_end > u16_start {
            out.push((u16_start, u16_end));
        }
        j = j + 1;
    }
    assert(spans@.take(spans@.len() as int) =~= spans@);
    out
}

// ---------------------------------------------------------------------------
// Laws
// ---------------------------------------------------------------------------

/// The range of a text that is not empty is that of its units.
pub proof fn law_ranges_cover_the_same_text(
    text: &str,
    spans: &[(usize, usize)],
    before: Seq<char>,
    found: Seq<char>,
    behind: Seq<char>,
    r: Vec<(usize, usize)>,
)
    requires
        call_ensures(byte_ranges_to_utf16, (text, spans), r),
        text@ == before + found + behind,
        spans@ == seq![(
            encode_utf8(before).len() as usize,
            (encode_utf8(before).len() + encode_utf8(found).len()) as usize,
        )],
        encode_utf8(before).len() + encode_utf8(found).len() <= usize::MAX,
    ensures
        found.len() == 0 ==> r@.len() == 0,
        found.len() > 0 ==> {
            &&& r@.len() == 1
            &&& r@[0].0 == encode(before).len()
            &&& r@[0].1 == encode(before).len() + encode(found).len()
        },
{
    let s = text@;
    crate::text::lemma_encode_concat(before, found);
    lemma_char_index_behind(before, found + behind);
    assert(before + (found + behind) =~= s);
    lemma_char_index_behind(before + found, behind);
    lemma_encode_concat(before, found);
    lemma_encode_len(before);
    lemma_encode_len(before + found);
    lemma_encode_len(found);
    lemma_offsets_monotone(s, before.len() as int, (before + found).len() as int);
    assert(spans@.drop_last() =~= Seq::<(usize, usize)>::empty());
    assert(found.len() == 0 ==> before + found =~= before);
    assert(utf16_ranges(s, spans@.drop_last()) =~= Seq::<(nat, nat)>::empty());
}

/// The ranges of several spans are those of each of them, in their order.
pub proof fn law_ranges_are_taken_one_by_one(
    text: &str,
    spans: &[(usize, usize)],
    front: &[(usize, usize)],
    last: &[(usize, usize)],
    r: Vec<(usize, usize)>,
    a: Vec<(usize, usize)>,
    b: Vec<(usize, usize)>,
)
    requires
        call_ensures(byte_ranges_to_utf16, (text, spans), r),
        call_ensures(byte_ranges_to_utf16, (text, front), a),
        call_ensures(byte_ranges_to_utf16, (text, last), b),
        spans@ == front@ + last@,
        last@.len() == 1,
    ensures
        r@ == a@ + b@,
{
    assert(spans@.drop_last() =~= front@);
    assert(last@.drop_last() =~= Seq::<(usize, usize)>::empty());
    assert(utf16_ranges(text@, last@.drop_last()) =~= Seq::<(nat, nat)>::empty());
    assert(utf16_ranges(text@, spans@) =~= utf16_ranges(text@, front@) + utf16_ranges(
        text@,
        last@,
    ));
    assert forall|i: int| 0 <= i < r@.len() implies r@[i] == (a@ + b@)[i] by {
        if i < a@.len() {
            assert(a@[i].0 == utf16_ranges(text@, front@)[i].0);
        } else {
            assert(b@[i - a@.len()].0 == utf16_ranges(text@, last@)[i - a@.len()].0);
        }
    }
    assert(r@ =~= a@ + b@);
}

/// Sizes are given as in the rest of the program, up to PiB.
pub proof fn law_sizes_are_given_alike(n: u64, r: String, same: String)
    requires
        call_ensures(human_bytes, (n,), r),
        call_ensures(crate::decimal::human, (n, 5u64), same),
    ensures
        r@ == same@,
{
}

} // verus!
