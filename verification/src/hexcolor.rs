//! Colours in hexadecimal notation.

use vstd::prelude::*;

verus! {

/// Byte of `#`.
pub const HASH: u8 = 0x23;

/// Byte of `+`.
pub const PLUS: u8 = 0x2B;

/// Value of a hexadecimal digit.
pub open spec fn digit_value(b: u8) -> Option<u8> {
    if 48 <= b <= 57 {
        Some((b - 48) as u8)
    } else if 65 <= b <= 70 {
        Some((b - 55) as u8)
    } else if 97 <= b <= 102 {
        Some((b - 87) as u8)
    } else {
        None
    }
}

/// Value of two characters as a hexadecimal number; the first may be a plus.
pub open spec fn pair_value(hi: u8, lo: u8) -> Option<u8> {
    match (digit_value(hi), digit_value(lo)) {
        (Some(h), Some(l)) => Some((16 * h + l) as u8),
        (None, Some(l)) => if hi == PLUS {
            Some(l)
        } else {
            None
        },
        _ => None,
    }
}

/// Channel written at `i`, or `fallback` where no number is.
pub open spec fn component(digits: Seq<u8>, i: int, fallback: u8) -> u8 {
    if i + 2 <= digits.len() {
        match pair_value(digits[i], digits[i + 1]) {
            Some(v) => v,
            None => fallback,
        }
    } else {
        fallback
    }
}

/// Number of hashes at the start.
pub open spec fn leading_hashes(bytes: Seq<u8>) -> nat
    decreases bytes.len(),
{
    if bytes.len() > 0 && bytes[0] == HASH {
        1 + leading_hashes(bytes.skip(1))
    } else {
        0
    }
}

/// What follows the hashes at the start.
pub open spec fn without_hashes(bytes: Seq<u8>) -> Seq<u8> {
    bytes.skip(leading_hashes(bytes) as int)
}

/// Number of hashes at the start.
pub fn skip_hashes(bytes: &[u8]) -> (r: usize)
    ensures
        r == leading_hashes(bytes@),
        r <= bytes@.len(),
{
    let mut i: usize = 0;
    assert(bytes@.skip(0) =~= bytes@);
    while i < bytes.len() && bytes[i] == HASH
        invariant
            i <= bytes@.len(),
            leading_hashes(bytes@) == i + leading_hashes(bytes@.skip(i as int)),
        decreases bytes@.len() - i,
    {
        assert(bytes@.skip(i as int).skip(1) =~= bytes@.skip(i + 1));
        i = i + 1;
    }
    assert(leading_hashes(bytes@.skip(i as int)) == 0);
    i
}

fn digit(b: u8) -> (r: Option<u8>)
    ensures
        r == digit_value(b),
{
    if 48 <= b && b <= 57 {
        Some(b - 48)
    } else if 65 <= b && b <= 70 {
        Some(b - 55)
    } else if 97 <= b && b <= 102 {
        Some(b - 87)
    } else {
        None
    }
}

/// Channel written at `i` behind the first `skip` bytes.
pub fn component_at(bytes: &[u8], skip: usize, i: usize, fallback: u8) -> (r: u8)
    requires
        skip <= bytes@.len(),
    ensures
        r == component(bytes@.skip(skip as int), i as int, fallback),
{
    let rest: usize = bytes.len() - skip;
    if rest < 2 || i > rest - 2 {
        return fallback;
    }
    let hi: u8 = bytes[skip + i];
    let lo: u8 = bytes[skip + i + 1];
    assert(bytes@.skip(skip as int)[i as int] == hi);
    assert(bytes@.skip(skip as int)[i + 1] == lo);
    match (digit(hi), digit(lo)) {
        (Some(h), Some(l)) => 16 * h + l,
        (None, Some(l)) => if hi == PLUS {
            l
        } else {
            fallback
        },
        _ => fallback,
    }
}

// ---------------------------------------------------------------------------
// Laws
// ---------------------------------------------------------------------------

/// Byte that a hexadecimal digit is written with, as a capital or a small letter.
pub open spec fn hex_digit(d: u8, capital: bool) -> u8 {
    if d < 10 {
        ('0' as u8 + d) as u8
    } else if capital {
        ('A' as u8 + (d - 10)) as u8
    } else {
        ('a' as u8 + (d - 10)) as u8
    }
}

/// A channel that is written with two hexadecimal digits, in capital or small letters, is
/// read again; a missing one takes the fallback.
pub proof fn law_written_channels_are_read(
    v: u8,
    first_capital: bool,
    second_capital: bool,
    bytes: &[u8],
    skip: usize,
    i: usize,
    fallback: u8,
    r: u8,
)
    requires
        call_ensures(component_at, (bytes, skip, i, fallback), r),
        skip <= bytes@.len(),
    ensures
        skip + i + 2 <= bytes@.len() && bytes@[skip + i] == hex_digit((v / 16) as u8, first_capital)
            && bytes@[skip + i + 1] == hex_digit((v % 16) as u8, second_capital) ==> r == v,
        skip + i + 2 > bytes@.len() ==> r == fallback,
        skip + i + 2 <= bytes@.len() && bytes@[skip + i + 1] > 'f' as u8 ==> r == fallback,
{
    if skip + i + 2 <= bytes@.len() {
        let digits = bytes@.skip(skip as int);
        assert(digits[i as int] == bytes@[skip + i]);
        assert(digits[i + 1] == bytes@[skip + i + 1]);
        let hi: u8 = (v / 16) as u8;
        let lo: u8 = (v % 16) as u8;
        assert(hi < 16 && lo < 16 && 16 * hi + lo == v);
        assert(digit_value(hex_digit(hi, first_capital)) == Some(hi));
        assert(digit_value(hex_digit(lo, second_capital)) == Some(lo));
    }
}

/// All hashes in front are passed over, and nothing else.
pub proof fn law_hashes_are_passed_over(bytes: &[u8], r: usize, k: int)
    requires
        call_ensures(skip_hashes, (bytes,), r),
    ensures
        r <= bytes@.len(),
        0 <= k < r ==> bytes@[k] == '#' as u8,
        r < bytes@.len() ==> bytes@[r as int] != '#' as u8,
{
    lemma_hashes_in_front(bytes@);
}

proof fn lemma_hashes_in_front(bytes: Seq<u8>)
    ensures
        leading_hashes(bytes) <= bytes.len(),
        forall|k: int| 0 <= k < leading_hashes(bytes) ==> #[trigger] bytes[k] == HASH,
        leading_hashes(bytes) < bytes.len() ==> bytes[leading_hashes(bytes) as int] != HASH,
    decreases bytes.len(),
{
    if bytes.len() > 0 && bytes[0] == HASH {
        let rest = bytes.skip(1);
        lemma_hashes_in_front(rest);
        assert forall|k: int| 0 <= k < leading_hashes(bytes) implies #[trigger] bytes[k] == HASH by {
            if k > 0 {
                assert(bytes[k] == rest[k - 1]);
            }
        }
    }
}

} // verus!
