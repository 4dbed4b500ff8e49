//! Reading and shortening the texts of input fields and labels.

use vstd::prelude::*;

use crate::decimal::{decimal_string, lemma_decimal_value, value_of};
use crate::text::chars_of;

verus! {

broadcast use vstd::string::group_string_axioms;

/// Characters that Unicode counts as white space.
pub open spec fn is_white(c: char) -> bool {
    let v = c as u32;
    ||| 0x09 <= v <= 0x0D
    ||| v == 0x20
    ||| v == 0x85
    ||| v == 0xA0
    ||| v == 0x1680
    ||| 0x2000 <= v <= 0x200A
    ||| v == 0x2028
    ||| v == 0x2029
    ||| v == 0x202F
    ||| v == 0x205F
    ||| v == 0x3000
}

/// Whether a character is white space.
pub fn is_whitespace(c: char) -> (r: bool)
    ensures
        r == is_white(c),
{
    let v: u32 = c as u32;
    (0x09 <= v && v <= 0x0D) || v == 0x20 || v == 0x85 || v == 0xA0 || v == 0x1680 || (0x2000 <= v
        && v <= 0x200A) || v == 0x2028 || v == 0x2029 || v == 0x202F || v == 0x205F || v == 0x3000
}

/// `[a, b)` is what is left of a text without the white space at its ends.
pub open spec fn is_trimmed(s: Seq<char>, a: int, b: int) -> bool {
    &&& 0 <= a <= b <= s.len()
    &&& forall|i: int| 0 <= i < a ==> is_white(#[trigger] s[i])
    &&& forall|i: int| b <= i < s.len() ==> is_white(#[trigger] s[i])
    &&& a < b ==> !is_white(s[a]) && !is_white(s[b - 1])
    &&& a == b ==> a == s.len()
}

/// A text without the white space at its ends.
pub open spec fn trimmed(s: Seq<char>) -> Seq<char> {
    let (a, b) = choose|a: int, b: int| is_trimmed(s, a, b);
    s.subrange(a, b)
}

/// There is one way to trim a text.
pub proof fn lemma_trimmed(s: Seq<char>, a: int, b: int)
    requires
        is_trimmed(s, a, b),
    ensures
        trimmed(s) == s.subrange(a, b),
{
    let (x, y) = choose|x: int, y: int| is_trimmed(s, x, y);
    assert(is_trimmed(s, x, y));
    if a < x {
        assert(is_white(s[a]));
    }
    if x < a {
        assert(is_white(s[x]));
    }
    if b < y {
        if x < y {
            assert(is_white(s[y - 1]));
        }
    }
    if y < b {
        if a < b {
            assert(is_white(s[b - 1]));
        }
    }
}

/// The characters of a text without the white space at its ends.
pub fn trim_chars(s: &str) -> (r: Vec<char>)
    ensures
        r@ == trimmed(s@),
{
    let chars: Vec<char> = chars_of(s);
    trim(&chars)
}

/// The characters without the white space at their ends.
pub fn trim(chars: &Vec<char>) -> (r: Vec<char>)
    ensures
        r@ == trimmed(chars@),
{
    let mut a: usize = 0;
    while a < chars.len() && is_whitespace(chars[a])
        invariant
            a <= chars@.len(),
            forall|i: int| 0 <= i < a ==> is_white(#[trigger] chars@[i]),
        decreases chars@.len() - a,
    {
        a = a + 1;
    }
    let mut b: usize = chars.len();
    while b > a && is_whitespace(chars[b - 1])
        invariant
            a <= b <= chars@.len(),
            a < chars@.len() ==> !is_white(chars@[a as int]),
            forall|i: int| b <= i < chars@.len() ==> is_white(#[trigger] chars@[i]),
        decreases b,
    {
        b = b - 1;
    }
    proof {
        lemma_trimmed(chars@, a as int, b as int);
    }
    let mut out: Vec<char> = Vec::new();
    let mut i: usize = a;
    while i < b
        invariant
            a <= i <= b <= chars@.len(),
            out@ == chars@.subrange(a as int, i as int),
        decreases b - i,
    {
        assert(chars@.subrange(a as int, i + 1) =~= chars@.subrange(a as int, i as int).push(
            chars@[i as int],
        ));
        out.push(chars[i]);
        i = i + 1;
    }
    out
}

// ---------------------------------------------------------------------------
// Numbers
// ---------------------------------------------------------------------------

pub open spec fn is_digit_char(c: char) -> bool {
    0x30 <= c as u32 <= 0x39
}

/// Number that a sequence of digits stands for.
pub open spec fn decimal_value(s: Seq<char>) -> nat
    decreases s.len(),
{
    if s.len() == 0 {
        0
    } else {
        10 * decimal_value(s.drop_last()) + (s.last() as u32 - 0x30) as nat
    }
}

/// Digits of a number as it is written: a plus may stand in front.
pub open spec fn digits_of(s: Seq<char>) -> Seq<char> {
    if s.len() > 0 && s[0] == '+' {
        s.skip(1)
    } else {
        s
    }
}

/// A text is a number of at least one digit that is at most `max`.
pub open spec fn is_number(s: Seq<char>, max: nat) -> bool {
    &&& digits_of(s).len() > 0
    &&& forall|i: int| 0 <= i < digits_of(s).len() ==> is_digit_char(#[trigger] digits_of(s)[i])
    &&& decimal_value(digits_of(s)) <= max
}

/// The number that a text stands for.
pub open spec fn number_of(s: Seq<char>, max: nat) -> Option<nat> {
    if is_number(s, max) {
        Some(decimal_value(digits_of(s)))
    } else {
        None
    }
}

proof fn lemma_value_grows(s: Seq<char>, n: int)
    requires
        0 <= n <= s.len(),
        forall|i: int| 0 <= i < s.len() ==> is_digit_char(#[trigger] s[i]),
    ensures
        decimal_value(s.take(n)) <= decimal_value(s),
    decreases s.len() - n,
{
    if n < s.len() {
        assert(s.take(n + 1).drop_last() =~= s.take(n));
        lemma_value_grows(s, n + 1);
    } else {
        assert(s.take(n) =~= s);
    }
}

/// The number that some characters stand for, `None` where they are not one.
pub fn parse_u64(chars: &Vec<char>) -> (r: Option<u64>)
    ensures
        match r {
            Some(n) => number_of(chars@, u64::MAX as nat) == Some(n as nat),
            None => number_of(chars@, u64::MAX as nat) is None,
        },
{
    let start: usize = if chars.len() > 0 && chars[0] == '+' {
        1
    } else {
        0
    };
    let ghost digits = digits_of(chars@);
    assert(start == 0 ==> digits =~= chars@.skip(0));
    if start == chars.len() {
        assert(digits.len() == 0);
        return None;
    }
    let mut v: u64 = 0;
    let mut i: usize = start;
    assert(digits.take(0) =~= Seq::<char>::empty());
    while i < chars.len()
        invariant
            start <= i <= chars@.len(),
            start < chars@.len(),
            digits == chars@.skip(start as int),
            digits == digits_of(chars@),
            forall|k: int| 0 <= k < i - start ==> is_digit_char(#[trigger] digits[k]),
            v == decimal_value(digits.take(i - start)),
        decreases chars@.len() - i,
    {
        let c: char = chars[i];
        let u: u32 = c as u32;
        let ghost k = i - start;
        assert(digits[k] == c);
        if u < 0x30 || u > 0x39 {
            assert(!is_digit_char(digits[k]));
            return None;
        }
        assert(digits.take(k + 1).drop_last() =~= digits.take(k));
        let d: u64 = (u - 0x30) as u64;
        let wide: u128 = v as u128 * 10 + d as u128;
        assert(wide == decimal_value(digits.take(k + 1)));
        if wide > 0xFFFF_FFFF_FFFF_FFFF {
            proof {
                if forall|j: int| 0 <= j < digits.len() ==> is_digit_char(#[trigger] digits[j]) {
                    lemma_value_grows(digits, k + 1);
                }
            }
            return None;
        }
        v = wide as u64;
        i = i + 1;
    }
    assert(digits.take(digits.len() as int) =~= digits);
    Some(v)
}

/// Line that a line number field asks for, counted from 0: the number in it,
/// which counts from 1. White space around the number does not matter.
pub open spec fn goto_target(input: Seq<char>) -> Option<nat> {
    match number_of(trimmed(input), u64::MAX as nat) {
        Some(n) => if n > 0 {
            Some((n - 1) as nat)
        } else {
            None
        },
        None => None,
    }
}

/// Line that a line number field asks for.
pub fn parse_goto(input: &str) -> (r: Option<u64>)
    ensures
        match r {
            Some(n) => goto_target(input@) == Some(n as nat),
            None => goto_target(input@) is None,
        },
{
    let chars: Vec<char> = trim_chars(input);
    match parse_u64(&chars) {
        Some(n) => if n > 0 {
            Some(n - 1)
        } else {
            None
        },
        None => None,
    }
}

// ---------------------------------------------------------------------------
// Shortening
// ---------------------------------------------------------------------------

/// A text of at most `max` characters: a longer one is cut at its start, where
/// an ellipsis then stands.
pub open spec fn keep_end(s: Seq<char>, max: nat) -> Seq<char> {
    if s.len() <= max {
        s
    } else {
        seq!['…'] + s.skip(s.len() - (max - 1))
    }
}

/// A text of at most `max` characters: a longer one is cut at its end, where an
/// ellipsis then stands.
pub open spec fn keep_start(s: Seq<char>, max: nat) -> Seq<char> {
    if s.len() <= max {
        s
    } else {
        s.take(max - 1).push('…')
    }
}

/// Shortens a text to its last characters.
pub fn shorten_front(s: &str, max: usize) -> (r: String)
    requires
        max >= 1,
    ensures
        r@ == keep_end(s@, max as nat),
{
    let n: usize = s.unicode_len();
    if n <= max {
        return s.to_owned();
    }
    let mut out = String::new();
    out.push('…');
    out.append(s.substring_char(n - (max - 1), n));
    assert(out@ =~= keep_end(s@, max as nat));
    out
}

/// Shortens a text to its first characters.
pub fn shorten_back(s: &str, max: usize) -> (r: String)
    requires
        max >= 1,
    ensures
        r@ == keep_start(s@, max as nat),
{
    let n: usize = s.unicode_len();
    if n <= max {
        return s.to_owned();
    }
    let mut out: String = s.substring_char(0, max - 1).to_owned();
    out.push('…');
    assert(out@ =~= keep_start(s@, max as nat));
    out
}

/// A shortened text is as long as it may be.
pub proof fn law_shortened_length(s: Seq<char>, max: nat)
    requires
        max >= 1,
    ensures
        keep_end(s, max).len() <= max,
        keep_start(s, max).len() <= max,
        s.len() > max ==> keep_end(s, max).len() == max && keep_start(s, max).len() == max,
{
}

/// White space around a text is cut off, and nothing else.
pub proof fn law_white_space_is_cut_off(
    before: Seq<char>,
    middle: Seq<char>,
    behind: Seq<char>,
    s: &str,
    r: Vec<char>,
    chars: &Vec<char>,
    also: Vec<char>,
)
    requires
        call_ensures(trim_chars, (s,), r),
        call_ensures(trim, (chars,), also),
        s@ == before + middle + behind,
        chars@ == s@,
        forall|i: int|
            0 <= i < before.len() ==> #[trigger] before[i] == ' ' || before[i] == '\t' || before[i]
                == '\n' || before[i] == '\r',
        forall|i: int|
            0 <= i < behind.len() ==> #[trigger] behind[i] == ' ' || behind[i] == '\t' || behind[i]
                == '\n' || behind[i] == '\r',
        middle.len() > 0 ==> '!' as u32 <= middle[0] as u32 <= '~' as u32 && '!' as u32
            <= middle.last() as u32 <= '~' as u32,
    ensures
        r@ == middle,
        also@ == middle,
{
    let a = before.len() as int;
    let b = a + middle.len() as int;
    let t = s@;
    if middle.len() > 0 {
        assert(t[a] == middle[0] && t[b - 1] == middle.last());
        assert forall|i: int| 0 <= i < a implies is_white(#[trigger] t[i]) by {
            assert(t[i] == before[i]);
        }
        assert forall|i: int| b <= i < t.len() implies is_white(#[trigger] t[i]) by {
            assert(t[i] == behind[i - b]);
        }
        assert(is_trimmed(t, a, b));
        lemma_trimmed(t, a, b);
        assert(t.subrange(a, b) =~= middle);
    } else {
        let n = t.len() as int;
        assert forall|i: int| 0 <= i < n implies is_white(#[trigger] t[i]) by {
            if i < a {
                assert(t[i] == before[i]);
            } else {
                assert(t[i] == behind[i - a]);
            }
        }
        assert(is_trimmed(t, n, n));
        lemma_trimmed(t, n, n);
        assert(t.subrange(n, n) =~= middle);
    }
}

/// Both ways to tell the value of a row of digits agree.
proof fn lemma_values_agree(digits: Seq<char>)
    requires
        forall|i: int| 0 <= i < digits.len() ==> is_digit_char(#[trigger] digits[i]),
    ensures
        decimal_value(digits) == value_of(digits),
    decreases digits.len(),
{
    if digits.len() > 0 {
        assert forall|i: int| 0 <= i < digits.drop_last().len() implies is_digit_char(
            #[trigger] digits.drop_last()[i],
        ) by {
            assert(digits.drop_last()[i] == digits[i]);
        }
        lemma_values_agree(digits.drop_last());
        assert(is_digit_char(digits[digits.len() - 1]));
    }
}

/// A number that is written in digits is read again, with and without a plus.
pub proof fn law_written_numbers_are_read(
    n: u64,
    text: String,
    chars: &Vec<char>,
    r: Option<u64>,
    with_plus: &Vec<char>,
    q: Option<u64>,
)
    requires
        call_ensures(decimal_string, (n,), text),
        chars@ == text@,
        call_ensures(parse_u64, (chars,), r),
        with_plus@ == seq!['+'] + text@,
        call_ensures(parse_u64, (with_plus,), q),
    ensures
        r == Some(n),
        q == Some(n),
{
    lemma_decimal_value(n as nat);
    lemma_values_agree(text@);
    assert(digits_of(chars@) =~= text@);
    assert(digits_of(with_plus@) =~= text@);
}

/// A text with anything else than digits behind a plus is no number, nor is one that
/// holds no digit.
pub proof fn law_other_texts_are_no_numbers(chars: &Vec<char>, i: int, r: Option<u64>)
    requires
        call_ensures(parse_u64, (chars,), r),
        chars@.len() == 0 || chars@ == seq!['+'] || (0 <= i < chars@.len() && (chars@[i] as u32
            > '9' as u32 || (chars@[i] as u32) < '0' as u32) && (i > 0 || chars@[i] != '+')),
    ensures
        r is None,
{
    let s = chars@;
    let d = digits_of(s);
    if s.len() > 0 && s != seq!['+'] {
        if s[0] == '+' {
            assert(d[i - 1] == s[i]);
            assert(!is_digit_char(d[i - 1]));
        } else {
            assert(!is_digit_char(d[i]));
        }
    }
}

/// The lines that a user names are counted from one, and white space around the number
/// does not matter.
pub proof fn law_lines_are_counted_from_one(
    n: u64,
    text: String,
    before: Seq<char>,
    behind: Seq<char>,
    input: &str,
    r: Option<u64>,
)
    requires
        call_ensures(decimal_string, (n,), text),
        input@ == before + text@ + behind,
        forall|i: int| 0 <= i < before.len() ==> #[trigger] before[i] == ' ',
        forall|i: int| 0 <= i < behind.len() ==> #[trigger] behind[i] == ' ',
        call_ensures(parse_goto, (input,), r),
    ensures
        n > 0 ==> r == Some((n - 1) as u64),
        n == 0 ==> r is None,
{
    lemma_decimal_value(n as nat);
    lemma_values_agree(text@);
    let a = before.len() as int;
    let b = a + text@.len() as int;
    let t = input@;
    assert(t[a] == text@[0] && t[b - 1] == text@[text@.len() - 1]);
    assert forall|i: int| 0 <= i < a implies is_white(#[trigger] t[i]) by {
        assert(t[i] == before[i]);
    }
    assert forall|i: int| b <= i < t.len() implies is_white(#[trigger] t[i]) by {
        assert(t[i] == behind[i - b]);
    }
    assert(is_trimmed(t, a, b));
    lemma_trimmed(t, a, b);
    assert(t.subrange(a, b) =~= text@);
    assert(digits_of(text@) =~= text@);
}

/// A text that is short enough stays, and a longer one keeps its end or its start and is
/// then as long as it may be.
pub proof fn law_long_texts_are_cut(s: &str, max: usize, front: String, back: String, i: int)
    requires
        call_ensures(shorten_front, (s, max), front),
        call_ensures(shorten_back, (s, max), back),
        max >= 1,
    ensures
        s@.len() <= max ==> front@ == s@ && back@ == s@,
        s@.len() > max ==> {
            &&& front@.len() == max && back@.len() == max
            &&& front@[0] == '…' && back@[max - 1] == '…'
            &&& 0 <= i < max - 1 ==> front@[i + 1] == s@[s@.len() - (max - 1) + i] && back@[i]
                == s@[i]
        },
{
}

} // verus!
