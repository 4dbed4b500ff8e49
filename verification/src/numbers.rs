//! Numbers as they are typed into fields and reported in messages: a sign, digits,
//! a fraction and a power of ten.

use vstd::arithmetic::power::pow;
use vstd::arithmetic::power2::{
    lemma2_to64, lemma_pow2_pos, lemma_pow2_strictly_increases, lemma_pow2_unfold, pow2,
};
use vstd::prelude::*;

use crate::bounds::min_int;
use crate::decimal::value_of;
use crate::fields::{
    decimal_value, is_digit_char, is_trimmed, lemma_trimmed, trim, trim_chars, trimmed,
};
use crate::text::chars_of;

verus! {

broadcast use vstd::string::group_string_axioms;

/// Zeros that can stand between the point and the first other digit of a number:
/// one with more of them is below any number that a machine tells from 0.
pub const MAX_ZEROS: i128 = 400;

/// Powers of ten are told apart up to here, far beyond the length of any text.
const MAX_POWER: u128 = 1_000_000_000_000_000_000_000_000_000_000;

/// A number: its whole part, taken towards zero, and the digits behind the point
/// without zeros at their end. What is not a number (NaN) has neither.
pub struct Number {
    pub whole: i32,
    pub fraction: String,
    pub is_nan: bool,
}

/// What a [`Number`] stands for.
pub struct NumberView {
    pub whole: int,
    pub fraction: Seq<char>,
    pub is_nan: bool,
}

impl View for Number {
    type V = NumberView;

    open spec fn view(&self) -> NumberView {
        NumberView { whole: self.whole as int, fraction: self.fraction@, is_nan: self.is_nan }
    }
}

/// A whole number.
pub open spec fn whole_number(n: int) -> NumberView {
    NumberView { whole: n, fraction: Seq::empty(), is_nan: false }
}

/// What stands for no number.
pub open spec fn not_a_number() -> NumberView {
    NumberView { whole: 0, fraction: Seq::empty(), is_nan: true }
}

impl Number {
    /// The number rounded towards zero; 0 for what is not a number.
    pub open spec fn rounded(self) -> int {
        if self.is_nan {
            0
        } else {
            self.whole as int
        }
    }

    /// The number rounded towards zero.
    pub fn to_whole(&self) -> (r: i32)
        ensures
            r == self.rounded(),
    {
        if self.is_nan {
            0
        } else {
            self.whole
        }
    }

    /// A whole number.
    pub fn of_whole(n: i32) -> (r: Self)
        ensures
            r@ == whole_number(n as int),
    {
        let fraction: String = String::new();
        assert(fraction@ =~= Seq::<char>::empty());
        Number { whole: n, fraction, is_nan: false }
    }
}

// ---------------------------------------------------------------------------
// Parts of a number
// ---------------------------------------------------------------------------

/// Place of the first character that is `a` or `b`; the length where there is none.
pub open spec fn first_of(s: Seq<char>, a: char, b: char) -> int
    decreases s.len(),
{
    if s.len() == 0 || s[0] == a || s[0] == b {
        0
    } else {
        1 + first_of(s.skip(1), a, b)
    }
}

/// All characters are digits.
pub open spec fn all_digits(s: Seq<char>) -> bool {
    forall|i: int| 0 <= i < s.len() ==> is_digit_char(#[trigger] s[i])
}

/// A minus stands in front.
pub open spec fn is_negative(s: Seq<char>) -> bool {
    s.len() > 0 && s[0] == '-'
}

/// A number without the sign in front of it.
pub open spec fn unsigned(s: Seq<char>) -> Seq<char> {
    if s.len() > 0 && (s[0] == '+' || s[0] == '-') {
        s.skip(1)
    } else {
        s
    }
}

/// What stands in front of the first character that is `a` or `b`.
pub open spec fn ahead_of(s: Seq<char>, a: char, b: char) -> Seq<char> {
    s.take(first_of(s, a, b))
}

/// What stands behind that character; nothing where there is none.
pub open spec fn past(s: Seq<char>, a: char, b: char) -> Seq<char> {
    if first_of(s, a, b) < s.len() {
        s.skip(first_of(s, a, b) + 1)
    } else {
        Seq::empty()
    }
}

/// A number without its power of ten.
pub open spec fn mantissa(s: Seq<char>) -> Seq<char> {
    ahead_of(s, 'e', 'E')
}

/// The power of ten of a number as it is written.
pub open spec fn power_text(s: Seq<char>) -> Seq<char> {
    past(s, 'e', 'E')
}

/// Digits in front of the point of a number.
pub open spec fn whole_digits(s: Seq<char>) -> Seq<char> {
    ahead_of(mantissa(s), '.', '.')
}

/// Digits behind the point of a number.
pub open spec fn fraction_digits(s: Seq<char>) -> Seq<char> {
    past(mantissa(s), '.', '.')
}

/// A text without a sign is a number: digits, at least one, with a point among
/// them or not, and a power of ten behind an `e` or not.
pub open spec fn is_decimal(s: Seq<char>) -> bool {
    &&& all_digits(whole_digits(s))
    &&& all_digits(fraction_digits(s))
    &&& whole_digits(s).len() + fraction_digits(s).len() > 0
    &&& first_of(s, 'e', 'E') < s.len() ==> all_digits(unsigned(power_text(s))) && unsigned(
        power_text(s),
    ).len() > 0
}

/// The power of ten of a number, 0 where none is written.
pub open spec fn power(s: Seq<char>) -> int {
    if is_negative(power_text(s)) {
        -decimal_value(unsigned(power_text(s)))
    } else {
        decimal_value(unsigned(power_text(s))) as int
    }
}

/// The digits of a number without the point.
pub open spec fn digits(s: Seq<char>) -> Seq<char> {
    whole_digits(s) + fraction_digits(s)
}

/// Where the point of a number stands among its digits once the power of ten has
/// moved it.
pub open spec fn point(s: Seq<char>) -> int {
    whole_digits(s).len() + power(s)
}

/// So many zeros.
pub open spec fn zeros(n: int) -> Seq<char> {
    Seq::new(n as nat, |i: int| '0')
}

/// Digits in front of a point at place `p`.
pub open spec fn before_point(d: Seq<char>, p: int) -> Seq<char> {
    if p <= 0 {
        Seq::empty()
    } else if p <= d.len() {
        d.take(p)
    } else {
        d + zeros(p - d.len())
    }
}

/// Digits behind a point at place `p`.
pub open spec fn behind_point(d: Seq<char>, p: int) -> Seq<char> {
    if p >= d.len() || p < -MAX_ZEROS {
        Seq::empty()
    } else if p >= 0 {
        d.skip(p)
    } else {
        zeros(-p) + d
    }
}

/// Digits without the zeros at their end.
pub open spec fn stripped(s: Seq<char>) -> Seq<char>
    decreases s.len(),
{
    if s.len() > 0 && s.last() == '0' {
        stripped(s.drop_last())
    } else {
        s
    }
}

/// A letter is the given small one or its capital.
pub open spec fn same_letter(c: char, small: char) -> bool {
    c == small || (0x41 <= c as u32 <= 0x5A && c as u32 + 0x20 == small as u32)
}

/// A text is a word of small letters, whatever their case.
pub open spec fn is_word(s: Seq<char>, word: Seq<char>) -> bool {
    s.len() == word.len() && forall|i: int|
        0 <= i < s.len() ==> same_letter(#[trigger] s[i], word[i])
}

/// A number kept between two bounds.
pub open spec fn kept_between(whole: nat, fraction: Seq<char>, lo: nat, hi: nat) -> NumberView {
    if whole >= hi {
        whole_number(hi as int)
    } else if whole < lo {
        whole_number(lo as int)
    } else {
        NumberView { whole: whole as int, fraction: stripped(fraction), is_nan: false }
    }
}

/// The number that a text stands for, kept between `lo` and `hi`; `None` where the
/// text is none. `inf`, `infinity` and `nan` can be written too.
pub open spec fn bounded(s: Seq<char>, lo: nat, hi: nat) -> Option<NumberView> {
    let t = unsigned(s);
    if is_word(t, "nan"@) {
        Some(not_a_number())
    } else if is_word(t, "inf"@) || is_word(t, "infinity"@) {
        Some(
            whole_number(
                if is_negative(s) {
                    lo as int
                } else {
                    hi as int
                },
            ),
        )
    } else if is_decimal(t) {
        Some(
            if is_negative(s) {
                whole_number(lo as int)
            } else {
                kept_between(
                    decimal_value(before_point(digits(t), point(t))),
                    behind_point(digits(t), point(t)),
                    lo,
                    hi,
                )
            },
        )
    } else {
        None
    }
}

// ---------------------------------------------------------------------------
// Reading
// ---------------------------------------------------------------------------

proof fn lemma_first_of(s: Seq<char>, a: char, b: char, n: int)
    requires
        0 <= n <= s.len(),
        forall|k: int| 0 <= k < n ==> s[k] != a && s[k] != b,
        n < s.len() ==> s[n] == a || s[n] == b,
    ensures
        first_of(s, a, b) == n,
    decreases n,
{
    if n > 0 {
        let rest = s.skip(1);
        assert forall|k: int| 0 <= k < n - 1 implies rest[k] != a && rest[k] != b by {
            assert(rest[k] == s[k + 1]);
        }
        lemma_first_of(rest, a, b, n - 1);
    }
}

/// Place of the first character that is `a` or `b`.
fn find_first(s: &Vec<char>, a: char, b: char) -> (r: usize)
    ensures
        r == first_of(s@, a, b),
        r <= s@.len(),
{
    let mut i: usize = 0;
    while i < s.len() && s[i] != a && s[i] != b
        invariant
            i <= s@.len(),
            forall|k: int| 0 <= k < i ==> s@[k] != a && s@[k] != b,
        decreases s@.len() - i,
    {
        i = i + 1;
    }
    proof {
        lemma_first_of(s@, a, b, i as int);
    }
    i
}

/// The characters from `a` up to `b`.
fn part(s: &Vec<char>, a: usize, b: usize) -> (r: Vec<char>)
    requires
        a <= b <= s@.len(),
    ensures
        r@ == s@.subrange(a as int, b as int),
{
    let mut out: Vec<char> = Vec::new();
    let mut i: usize = a;
    while i < b
        invariant
            a <= i <= b <= s@.len(),
            out@ == s@.subrange(a as int, i as int),
        decreases b - i,
    {
        out.push(s[i]);
        i = i + 1;
        assert(out@ =~= s@.subrange(a as int, i as int));
    }
    out
}

/// What stands in front of the first character that is `a` or `b`, and behind it.
fn split_at_first(s: &Vec<char>, a: char, b: char) -> (r: (Vec<char>, Vec<char>))
    ensures
        r.0@ == ahead_of(s@, a, b),
        r.1@ == past(s@, a, b),
{
    let n: usize = s.len();
    let i: usize = find_first(s, a, b);
    let front: Vec<char> = part(s, 0, i);
    assert(front@ =~= ahead_of(s@, a, b));
    let back: Vec<char> = if i < n {
        part(s, i + 1, n)
    } else {
        Vec::new()
    };
    assert(back@ =~= past(s@, a, b));
    (front, back)
}

/// The characters of a number without the sign.
fn without_sign(s: &Vec<char>) -> (r: Vec<char>)
    ensures
        r@ == unsigned(s@),
{
    let n: usize = s.len();
    let start: usize = if n > 0 && (s[0] == '+' || s[0] == '-') {
        1
    } else {
        0
    };
    let r: Vec<char> = part(s, start, n);
    assert(r@ =~= unsigned(s@));
    r
}

/// Whether all characters are digits.
fn are_digits(s: &Vec<char>) -> (r: bool)
    ensures
        r == all_digits(s@),
{
    let mut i: usize = 0;
    while i < s.len()
        invariant
            i <= s@.len(),
            forall|k: int| 0 <= k < i ==> is_digit_char(#[trigger] s@[k]),
        decreases s@.len() - i,
    {
        let u: u32 = s[i] as u32;
        if u < 0x30 || u > 0x39 {
            assert(!is_digit_char(s@[i as int]));
            return false;
        }
        i = i + 1;
    }
    true
}

/// The number that digits stand for, at most `cap`.
fn capped_value(s: &Vec<char>, cap: u128) -> (r: u128)
    requires
        all_digits(s@),
        cap <= MAX_POWER,
    ensures
        r == min_int(decimal_value(s@) as int, cap as int),
{
    let mut v: u128 = 0;
    let mut i: usize = 0;
    assert(s@.take(0) =~= Seq::<char>::empty());
    while i < s.len()
        invariant
            i <= s@.len(),
            all_digits(s@),
            v <= cap <= MAX_POWER,
            v == min_int(decimal_value(s@.take(i as int)) as int, cap as int),
        decreases s@.len() - i,
    {
        assert(is_digit_char(s@[i as int]));
        assert(s@.take(i + 1).drop_last() =~= s@.take(i as int));
        assert(s@.take(i + 1).last() == s@[i as int]);
        let wide: u128 = v * 10 + (s[i] as u32 - 0x30) as u128;
        v = if wide <= cap {
            wide
        } else {
            cap
        };
        i = i + 1;
    }
    assert(s@.take(s@.len() as int) =~= s@);
    v
}

/// Zeros behind a number other than 0 make it at least as large as their count.
proof fn lemma_zeros_grow(d: Seq<char>, n: int)
    requires
        n >= 0,
    ensures
        decimal_value(d) == 0 ==> decimal_value(d + zeros(n)) == 0,
        decimal_value(d) > 0 ==> decimal_value(d + zeros(n)) > n,
        n > 0 ==> decimal_value(d + zeros(n)) == 10 * decimal_value(d + zeros(n - 1)),
    decreases n,
{
    if n == 0 {
        assert(d + zeros(0) =~= d);
    } else {
        assert((d + zeros(n)).drop_last() =~= d + zeros(n - 1));
        assert((d + zeros(n)).last() == '0');
        lemma_zeros_grow(d, n - 1);
    }
}

/// The whole part of a number whose point stands at `p`, at most `cap`.
fn whole_part(d: &Vec<char>, p: i128, cap: u32) -> (r: u32)
    requires
        all_digits(d@),
    ensures
        r == min_int(decimal_value(before_point(d@, p as int)) as int, cap as int),
{
    if p <= 0 {
        return 0;
    }
    let n: i128 = d.len() as i128;
    if p <= n {
        let front: Vec<char> = part(d, 0, p as usize);
        assert(front@ =~= d@.take(p as int));
        return capped_value(&front, cap as u128) as u32;
    }
    let mut v: u128 = capped_value(d, cap as u128);
    let ghost total = p - n;
    proof {
        lemma_zeros_grow(d@, total);
        assert(d@ + zeros(0) =~= d@);
    }
    if p - n >= cap as i128 {
        if v == 0 && cap > 0 {
            return 0;
        }
        return cap;
    }
    let mut k: i128 = 0;
    while k < p - n
        invariant
            0 <= k <= p - n < cap,
            cap as int <= u32::MAX,
            n == d@.len(),
            v <= cap,
            v == min_int(decimal_value(d@ + zeros(k as int)) as int, cap as int),
        decreases p - n - k,
    {
        if v == 0 || v == cap as u128 {
            proof {
                lemma_same_end(d@, k as int, p - n, cap as nat);
            }
            return v as u32;
        }
        proof {
            lemma_zeros_grow(d@, k + 1);
        }
        let wide: u128 = v * 10;
        v = if wide <= cap as u128 {
            wide
        } else {
            cap as u128
        };
        k = k + 1;
    }
    v as u32
}

/// More zeros leave 0 as it is, and do not bring a number below a bound that it has
/// reached.
proof fn lemma_same_end(d: Seq<char>, k: int, n: int, cap: nat)
    requires
        0 <= k <= n,
    ensures
        decimal_value(d + zeros(k)) == 0 ==> decimal_value(d + zeros(n)) == 0,
        decimal_value(d + zeros(k)) >= cap ==> decimal_value(d + zeros(n)) >= cap,
    decreases n - k,
{
    if k < n {
        lemma_zeros_grow(d, k + 1);
        lemma_same_end(d, k + 1, n, cap);
    }
}

/// The digits behind a point at `p`, without the zeros at their end.
fn fraction_part(d: &Vec<char>, p: i128) -> (r: String)
    ensures
        r@ == stripped(behind_point(d@, p as int)),
{
    let n: i128 = d.len() as i128;
    let mut all: Vec<char> = Vec::new();
    if p < n && p >= -MAX_ZEROS {
        if p >= 0 {
            all = part(d, p as usize, d.len());
            assert(all@ =~= behind_point(d@, p as int));
        } else {
            let mut k: i128 = 0;
            while k < -p
                invariant
                    -MAX_ZEROS <= p < 0,
                    0 <= k <= -p,
                    all@ == zeros(k as int),
                decreases -p - k,
            {
                all.push('0');
                k = k + 1;
                assert(all@ =~= zeros(k as int));
            }
            let mut i: usize = 0;
            while i < d.len()
                invariant
                    i <= d@.len(),
                    all@ == zeros(-p) + d@.take(i as int),
                decreases d@.len() - i,
            {
                all.push(d[i]);
                i = i + 1;
                assert(all@ =~= zeros(-p) + d@.take(i as int));
            }
            assert(all@ =~= behind_point(d@, p as int));
        }
    } else {
        assert(all@ =~= behind_point(d@, p as int));
    }
    let ghost whole = all@;
    let mut end: usize = all.len();
    assert(whole.take(whole.len() as int) =~= whole);
    while end > 0 && all[end - 1] == '0'
        invariant
            end <= all@.len(),
            all@ == whole,
            stripped(whole.take(end as int)) == stripped(whole),
        decreases end,
    {
        assert(whole.take(end as int).drop_last() =~= whole.take(end - 1));
        end = end - 1;
    }
    assert(stripped(whole) == whole.take(end as int));
    let mut out: String = String::new();
    let mut i: usize = 0;
    assert(out@ =~= whole.take(0));
    while i < end
        invariant
            i <= end <= all@.len(),
            all@ == whole,
            out@ == whole.take(i as int),
        decreases end - i,
    {
        out.push(all[i]);
        i = i + 1;
        assert(out@ =~= whole.take(i as int));
    }
    out
}

proof fn lemma_stripped(s: Seq<char>)
    requires
        all_digits(s),
    ensures
        all_digits(stripped(s)),
    decreases s.len(),
{
    if s.len() > 0 && s.last() == '0' {
        let front = s.drop_last();
        assert forall|i: int| 0 <= i < front.len() implies is_digit_char(#[trigger] front[i]) by {
            assert(front[i] == s[i]);
        }
        lemma_stripped(front);
    }
}

/// Whether a text is a word of small letters, whatever their case.
fn equals_word(s: &Vec<char>, word: &str) -> (r: bool)
    ensures
        r == is_word(s@, word@),
{
    let letters: Vec<char> = chars_of(word);
    if s.len() != letters.len() {
        return false;
    }
    let mut i: usize = 0;
    while i < s.len()
        invariant
            i <= s@.len() == letters@.len(),
            letters@ == word@,
            forall|k: int| 0 <= k < i ==> same_letter(#[trigger] s@[k], word@[k]),
        decreases s@.len() - i,
    {
        let u: u32 = s[i] as u32;
        let w: u32 = letters[i] as u32;
        if s[i] != letters[i] && !(0x41 <= u && u <= 0x5A && u + 0x20 == w) {
            assert(!same_letter(s@[i as int], word@[i as int]));
            return false;
        }
        i = i + 1;
    }
    true
}

/// The power of ten as it is written, kept within [`MAX_POWER`].
fn read_power(s: &Vec<char>) -> (r: i128)
    requires
        all_digits(unsigned(s@)),
    ensures
        ({
            let v = decimal_value(unsigned(s@)) as int;
            r == if is_negative(s@) {
                -min_int(v, MAX_POWER as int)
            } else {
                min_int(v, MAX_POWER as int)
            }
        }),
{
    let digits: Vec<char> = without_sign(s);
    let v: u128 = capped_value(&digits, MAX_POWER);
    if s.len() > 0 && s[0] == '-' {
        -(v as i128)
    } else {
        v as i128
    }
}

/// A point beyond any digit is as good as one still farther away.
proof fn lemma_far_point(d: Seq<char>, p: int, q: int, cap: nat)
    requires
        (p == q) || (d.len() + u32::MAX <= p <= q) || (q <= p < -MAX_ZEROS),
        cap <= u32::MAX,
    ensures
        min_int(decimal_value(before_point(d, p)) as int, cap as int) == min_int(
            decimal_value(before_point(d, q)) as int,
            cap as int,
        ),
        behind_point(d, p) == behind_point(d, q),
{
    if p != q && p >= d.len() + u32::MAX {
        lemma_zeros_grow(d, p - d.len());
        lemma_zeros_grow(d, q - d.len());
    }
}

/// The number that some characters stand for, kept between `lo` and `hi`.
pub fn parse_bounded_chars(s: &Vec<char>, lo: u32, hi: u32) -> (r: Option<Number>)
    requires
        lo <= hi <= i32::MAX,
    ensures
        match r {
            Some(n) => bounded(s@, lo as nat, hi as nat) == Some(n@) && all_digits(n@.fraction),
            None => bounded(s@, lo as nat, hi as nat) is None,
        },
{
    let negative: bool = s.len() > 0 && s[0] == '-';
    let t: Vec<char> = without_sign(s);
    if equals_word(&t, "nan") {
        let fraction: String = String::new();
        assert(fraction@ =~= Seq::<char>::empty());
        return Some(Number { whole: 0, fraction, is_nan: true });
    }
    if equals_word(&t, "inf") || equals_word(&t, "infinity") {
        return Some(
            Number::of_whole(
                if negative {
                    lo as i32
                } else {
                    hi as i32
                },
            ),
        );
    }
    let has_power: bool = find_first(&t, 'e', 'E') < t.len();
    let (front, power_chars) = split_at_first(&t, 'e', 'E');
    let (whole, fraction) = split_at_first(&front, '.', '.');
    if !are_digits(&whole) || !are_digits(&fraction) || (whole.len() == 0 && fraction.len() == 0) {
        return None;
    }
    let power_digits: Vec<char> = without_sign(&power_chars);
    if has_power && (power_digits.len() == 0 || !are_digits(&power_digits)) {
        return None;
    }
    if negative {
        return Some(Number::of_whole(lo as i32));
    }
    assert(!has_power ==> power_chars@.len() == 0);
    let shift: i128 = read_power(&power_chars);
    let p: i128 = whole.len() as i128 + shift;
    let mut d: Vec<char> = whole;
    let mut i: usize = 0;
    while i < fraction.len()
        invariant
            i <= fraction@.len(),
            d@ == whole_digits(t@) + fraction@.take(i as int),
        decreases fraction@.len() - i,
    {
        d.push(fraction[i]);
        i = i + 1;
        assert(d@ =~= whole_digits(t@) + fraction@.take(i as int));
    }
    assert(d@ =~= digits(t@));
    proof {
        lemma_far_point(d@, p as int, point(t@), hi as nat);
    }
    let w: u32 = whole_part(&d, p, hi);
    if w >= hi {
        return Some(Number::of_whole(hi as i32));
    }
    if w < lo {
        return Some(Number::of_whole(lo as i32));
    }
    let fraction: String = fraction_part(&d, p);
    proof {
        lemma_stripped(behind_point(d@, p as int));
    }
    Some(Number { whole: w as i32, fraction, is_nan: false })
}

// ---------------------------------------------------------------------------
// Precision
// ---------------------------------------------------------------------------

/// Ten to the power of `n`.
pub open spec fn ten_to(n: nat) -> nat
    decreases n,
{
    if n == 0 {
        1
    } else {
        10 * ten_to((n - 1) as nat)
    }
}

/// Binary digits behind the point of a number with the whole part `whole`, where it
/// has `precision` of them in all, and one more.
pub open spec fn bits_behind(whole: int, precision: int) -> int
    decreases whole,
{
    if whole <= 1 {
        precision
    } else {
        bits_behind(whole / 2, precision - 1)
    }
}

/// A fraction is so close to 1 that it is 1 with `bits` binary digits: what is
/// missing is at most 1 in 2 to the power of `bits`.
pub open spec fn rounds_up(fraction: Seq<char>, bits: int) -> bool {
    (ten_to(fraction.len()) - decimal_value(fraction)) * pow2(bits as nat) <= ten_to(fraction.len())
}

/// A number as it is kept with `precision` binary digits, as far as its whole part
/// goes: one that cannot be told from the next whole number is that number.
pub open spec fn kept_with(n: NumberView, precision: int) -> NumberView {
    if !n.is_nan && rounds_up(n.fraction, bits_behind(n.whole, precision)) {
        whole_number(n.whole + 1)
    } else {
        n
    }
}

/// Number that digits stand for, the last first.
spec fn reverse_value(s: Seq<u8>) -> nat
    decreases s.len(),
{
    if s.len() == 0 {
        0
    } else {
        reverse_value(s.drop_last()) + s.last() as nat * ten_to((s.len() - 1) as nat)
    }
}

spec fn small_digits(s: Seq<u8>) -> bool {
    forall|i: int| 0 <= i < s.len() ==> #[trigger] s[i] <= 9
}

proof fn lemma_reverse_bound(s: Seq<u8>)
    requires
        small_digits(s),
    ensures
        reverse_value(s) < ten_to(s.len()),
    decreases s.len(),
{
    if s.len() > 0 {
        let front = s.drop_last();
        assert forall|i: int| 0 <= i < front.len() implies #[trigger] front[i] <= 9 by {
            assert(front[i] == s[i]);
        }
        lemma_reverse_bound(front);
        let t = ten_to((s.len() - 1) as nat) as int;
        let x = s.last() as int;
        assert(x * t <= 9 * t) by (nonlinear_arith)
            requires
                x <= 9,
                t >= 0,
        ;
    }
}

proof fn lemma_reverse_first(x: u8, s: Seq<u8>)
    ensures
        reverse_value(seq![x] + s) == x + 10 * reverse_value(s),
    decreases s.len(),
{
    let all = seq![x] + s;
    if s.len() == 0 {
        assert(all.drop_last() =~= Seq::<u8>::empty());
        assert(all.last() == x);
        assert(reverse_value(all.drop_last()) == 0);
        assert(x as nat * ten_to(0) == x) by (nonlinear_arith)
            requires
                ten_to(0) == 1,
        ;
    } else {
        assert(all.drop_last() =~= seq![x] + s.drop_last());
        assert(all.last() == s.last());
        lemma_reverse_first(x, s.drop_last());
        let t = ten_to((s.len() - 1) as nat) as int;
        let y = s.last() as int;
        assert(ten_to((all.len() - 1) as nat) == 10 * t);
        assert(y * (10 * t) == 10 * (y * t)) by (nonlinear_arith);
    }
}

/// The digits of a fraction, the last first.
fn reversed_digits(fraction: &str) -> (r: Vec<u8>)
    requires
        all_digits(fraction@),
    ensures
        r@.len() == fraction@.len(),
        small_digits(r@),
        reverse_value(r@) == decimal_value(fraction@),
{
    let chars: Vec<char> = chars_of(fraction);
    let mut out: Vec<u8> = Vec::new();
    let mut i: usize = chars.len();
    let ghost s = fraction@;
    assert(s.skip(s.len() as int) =~= Seq::<char>::empty());
    while i > 0
        invariant
            i <= s.len(),
            chars@ == s,
            all_digits(s),
            out@.len() == s.len() - i,
            small_digits(out@),
            forall|k: int| 0 <= k < out@.len() ==> #[trigger] out@[k] == s[s.len() - 1 - k] as u32
                - 0x30,
        decreases i,
    {
        i = i - 1;
        assert(is_digit_char(s[i as int]));
        out.push((chars[i] as u32 - 0x30) as u8);
    }
    proof {
        lemma_reversed(s, out@);
    }
    out
}

proof fn lemma_reversed(s: Seq<char>, r: Seq<u8>)
    requires
        all_digits(s),
        r.len() == s.len(),
        forall|k: int| 0 <= k < r.len() ==> #[trigger] r[k] == s[s.len() - 1 - k] as u32 - 0x30,
    ensures
        reverse_value(r) == decimal_value(s),
    decreases s.len(),
{
    if s.len() > 0 {
        let front = s.drop_last();
        let rest = r.skip(1);
        assert forall|k: int| 0 <= k < rest.len() implies #[trigger] rest[k] == front[front.len()
            - 1 - k] as u32 - 0x30 by {
            assert(rest[k] == r[k + 1]);
        }
        assert forall|i: int| 0 <= i < front.len() implies is_digit_char(#[trigger] front[i]) by {
            assert(front[i] == s[i]);
        }
        lemma_reversed(front, rest);
        lemma_reverse_first(r[0], rest);
        assert(seq![r[0]] + rest =~= r);
        assert(is_digit_char(s[s.len() - 1]));
    }
}

/// Doubles a fraction whose digits stand the last first. Returns what it passes 1 by.
fn double(d: &mut Vec<u8>) -> (carry: u8)
    requires
        small_digits(old(d)@),
    ensures
        final(d)@.len() == old(d)@.len(),
        small_digits(final(d)@),
        carry <= 1,
        2 * reverse_value(old(d)@) == carry * ten_to(old(d)@.len()) + reverse_value(final(d)@),
{
    let ghost before = d@;
    let n: usize = d.len();
    let mut carry: u8 = 0;
    let mut i: usize = 0;
    assert(before.take(0) =~= d@.take(0));
    while i < n
        invariant
            i <= n,
            n == d@.len(),
            n == before.len(),
            small_digits(before),
            small_digits(d@),
            carry <= 1,
            forall|k: int| i <= k < n ==> d@[k] == before[k],
            2 * reverse_value(before.take(i as int)) == carry * ten_to(i as nat) + reverse_value(
                d@.take(i as int),
            ),
        decreases n - i,
    {
        assert(before[i as int] <= 9);
        let ghost prev = d@;
        let old_carry: u8 = carry;
        let twice: u8 = 2 * d[i] + carry;
        let digit: u8 = if twice >= 10 {
            twice - 10
        } else {
            twice
        };
        carry = if twice >= 10 {
            1
        } else {
            0
        };
        d.set(i, digit);
        proof {
            let t = ten_to(i as nat) as int;
            let b = before[i as int] as int;
            assert(before.take(i + 1).drop_last() =~= before.take(i as int));
            assert(d@.take(i + 1).drop_last() =~= prev.take(i as int));
            assert(ten_to((i + 1) as nat) == 10 * t);
            assert(2 * b + old_carry == 10 * carry + digit);
            assert(2 * (b * t) + old_carry * t == carry * (10 * t) + digit * t) by (nonlinear_arith)
                requires
                    2 * b + old_carry == 10 * carry + digit,
            ;
            assert forall|k: int| 0 <= k < d@.len() implies #[trigger] d@[k] <= 9 by {
                if k != i {
                    assert(d@[k] == prev[k]);
                }
            }
        }
        i = i + 1;
    }
    assert(before.take(n as int) =~= before);
    assert(d@.take(n as int) =~= d@);
    carry
}

/// Whether a fraction is 1 with `bits` binary digits.
fn is_almost_one(fraction: &str, bits: u32) -> (r: bool)
    requires
        all_digits(fraction@),
    ensures
        r == rounds_up(fraction@, bits as int),
{
    let mut d: Vec<u8> = reversed_digits(fraction);
    let ghost one = ten_to(fraction@.len()) as int;
    let ghost gap = one - decimal_value(fraction@);
    proof {
        lemma_reverse_bound(d@);
        lemma2_to64();
        assert(gap * pow2(0) == gap) by (nonlinear_arith)
            requires
                pow2(0) == 1,
        ;
    }
    let mut b: u32 = 0;
    while b < bits
        invariant
            b <= bits,
            small_digits(d@),
            d@.len() == fraction@.len(),
            one == ten_to(fraction@.len()),
            gap == one - decimal_value(fraction@),
            gap > 0,
            one - reverse_value(d@) == gap * pow2(b as nat),
            gap * pow2(b as nat) <= one,
        decreases bits - b,
    {
        let ghost before = d@;
        let carry: u8 = double(&mut d);
        proof {
            lemma_reverse_bound(d@);
            lemma_pow2_unfold((b + 1) as nat);
            let p = pow2(b as nat) as int;
            let q = pow2((b + 1) as nat) as int;
            assert(gap * q == 2 * (gap * p)) by (nonlinear_arith)
                requires
                    q == 2 * p,
            ;
            assert(carry * one == if carry == 1 {
                one
            } else {
                0
            }) by (nonlinear_arith)
                requires
                    carry == 0 || carry == 1,
            ;
            if carry == 0 {
                if b + 1 < bits {
                    lemma_pow2_strictly_increases((b + 1) as nat, bits as nat);
                }
                let all = pow2(bits as nat) as int;
                assert(gap * all >= gap * q) by (nonlinear_arith)
                    requires
                        all >= q,
                        gap > 0,
                ;
            }
        }
        if carry == 0 {
            return false;
        }
        b = b + 1;
    }
    true
}

/// A number as it is kept with `precision` binary digits.
fn keep_with(n: Number, precision: u32) -> (r: Number)
    requires
        all_digits(n@.fraction),
        0 <= n@.whole < i32::MAX,
        n@.whole / 2 <= precision,
    ensures
        r@ == kept_with(n@, precision as int),
{
    if n.is_nan {
        return n;
    }
    let mut w: i32 = n.whole;
    let mut bits: u32 = precision;
    while w > 1
        invariant
            0 <= w,
            n.whole / 2 <= precision,
            bits - w / 2 >= precision - n.whole / 2,
            bits_behind(w as int, bits as int) == bits_behind(n.whole as int, precision as int),
        decreases w,
    {
        w = w / 2;
        bits = bits - 1;
    }
    if is_almost_one(n.fraction.as_str(), bits) {
        Number::of_whole(n.whole + 1)
    } else {
        n
    }
}

// ---------------------------------------------------------------------------
// Fields and messages
// ---------------------------------------------------------------------------

/// The number typed into a field, kept between two bounds; `None` where the field
/// holds no number. White space around it does not matter.
pub open spec fn bounded_number(input: Seq<char>, lo: nat, hi: nat) -> Option<NumberView> {
    bounded(trimmed(input), lo, hi)
}

/// The number typed into a field, kept between two bounds.
pub fn parse_bounded(input: &str, lo: u32, hi: u32) -> (r: Option<Number>)
    requires
        lo <= hi <= i32::MAX,
    ensures
        match r {
            Some(n) => bounded_number(input@, lo as nat, hi as nat) == Some(n@) && all_digits(
                n@.fraction,
            ),
            None => bounded_number(input@, lo as nat, hi as nat) is None,
        },
{
    let chars: Vec<char> = trim_chars(input);
    parse_bounded_chars(&chars, lo, hi)
}

/// The number typed into a field, kept between two bounds and with `precision`
/// binary digits.
pub open spec fn bounded_size(input: Seq<char>, lo: nat, hi: nat, precision: int) -> Option<
    NumberView,
> {
    match bounded_number(input, lo, hi) {
        Some(n) => Some(kept_with(n, precision)),
        None => None,
    }
}

/// The number typed into a field, kept between two bounds and with `precision`
/// binary digits.
pub fn parse_size(input: &str, lo: u32, hi: u32, precision: u32) -> (r: Option<Number>)
    requires
        lo <= hi < i32::MAX,
        hi / 2 <= precision,
    ensures
        match r {
            Some(n) => bounded_size(input@, lo as nat, hi as nat, precision as int) == Some(n@),
            None => bounded_size(input@, lo as nat, hi as nat, precision as int) is None,
        },
{
    match parse_bounded(input, lo, hi) {
        Some(n) => Some(keep_with(n, precision)),
        None => None,
    }
}

/// The word behind the last blank.
pub open spec fn last_word(s: Seq<char>) -> Seq<char>
    decreases s.len(),
{
    if s.len() == 0 || s.last() == ' ' {
        Seq::empty()
    } else {
        last_word(s.drop_last()).push(s.last())
    }
}

proof fn lemma_last_word(s: Seq<char>, i: int)
    requires
        0 <= i <= s.len(),
        i > 0 ==> s[i - 1] == ' ',
        forall|k: int| i <= k < s.len() ==> s[k] != ' ',
    ensures
        last_word(s) == s.skip(i),
    decreases s.len(),
{
    if s.len() == i {
        assert(s.skip(i) =~= Seq::empty());
    } else {
        lemma_last_word(s.drop_last(), i);
        assert(s.drop_last().skip(i).push(s.last()) =~= s.skip(i));
    }
}

/// Percent that a message ends in, such as `indexing... 42%`, from 0 to 100.
pub open spec fn percent_of(msg: Seq<char>) -> Option<NumberView> {
    let word = last_word(trimmed(msg));
    if word.len() > 0 && word.last() == '%' {
        bounded_number(word.drop_last(), 0, 100)
    } else {
        None
    }
}

/// Percent that a message ends in.
pub fn parse_percent(msg: &str) -> (r: Option<Number>)
    ensures
        match r {
            Some(n) => percent_of(msg@) == Some(n@),
            None => percent_of(msg@) is None,
        },
{
    let chars: Vec<char> = trim_chars(msg);
    let n: usize = chars.len();
    let mut i: usize = n;
    while i > 0 && chars[i - 1] != ' '
        invariant
            i <= n,
            n == chars@.len(),
            forall|k: int| i <= k < n ==> chars@[k] != ' ',
        decreases i,
    {
        i = i - 1;
    }
    proof {
        lemma_last_word(chars@, i as int);
    }
    if i == n || chars[n - 1] != '%' {
        return None;
    }
    let word: Vec<char> = part(&chars, i, n - 1);
    assert(word@ =~= chars@.skip(i as int).drop_last());
    let number: Vec<char> = trim(&word);
    parse_bounded_chars(&number, 0, 100)
}

// ---------------------------------------------------------------------------
// Laws
// ---------------------------------------------------------------------------

/// A number that was read lies between the bounds, also as it is kept.
pub proof fn law_numbers_stay_in_their_bounds(s: Seq<char>, lo: nat, hi: nat, precision: int)
    requires
        lo <= hi,
        hi / 2 < precision,
    ensures
        match bounded(s, lo, hi) {
            Some(n) => n.is_nan || (lo <= n.whole <= hi && (n.whole == hi ==> n.fraction.len()
                == 0)),
            None => true,
        },
        match bounded(s, lo, hi) {
            Some(n) => n.is_nan || lo <= kept_with(n, precision).whole <= hi,
            None => true,
        },
{
    if bounded(s, lo, hi) is Some && !bounded(s, lo, hi)->0.is_nan {
        let n = bounded(s, lo, hi)->0;
        if n.fraction.len() == 0 {
            lemma_bits_behind(n.whole, precision);
            let b = bits_behind(n.whole, precision) as nat;
            lemma_pow2_unfold(b);
            lemma_pow2_pos((b - 1) as nat);
            assert(!rounds_up(n.fraction, b as int)) by (nonlinear_arith)
                requires
                    rounds_up(n.fraction, b as int) == (1 * pow2(b) <= 1),
                    pow2(b) >= 2,
            ;
        }
    }
}

proof fn lemma_bits_behind(whole: int, precision: int)
    requires
        0 <= whole / 2 < precision,
    ensures
        bits_behind(whole, precision) > 0,
    decreases whole,
{
    if whole > 1 {
        lemma_bits_behind(whole / 2, precision - 1);
    }
}

/// A plus in front of a number does not matter.
pub proof fn law_a_plus_does_not_matter(s: Seq<char>, lo: nat, hi: nat)
    requires
        s.len() > 0,
        s[0] != '+',
        s[0] != '-',
    ensures
        bounded(seq!['+'] + s, lo, hi) == bounded(s, lo, hi),
{
    let t = seq!['+'] + s;
    assert(unsigned(t) =~= s);
}

proof fn lemma_first_at(s: Seq<char>, a: char, b: char, k: int)
    requires
        0 <= k <= s.len(),
        forall|i: int| 0 <= i < k ==> #[trigger] s[i] != a && s[i] != b,
        k < s.len() ==> s[k] == a || s[k] == b,
    ensures
        first_of(s, a, b) == k,
    decreases k,
{
    if k > 0 {
        assert(s[0] != a && s[0] != b);
        assert forall|i: int| 0 <= i < k - 1 implies #[trigger] s.skip(1)[i] != a && s.skip(1)[i]
            != b by {
            assert(s.skip(1)[i] == s[i + 1]);
        }
        lemma_first_at(s.skip(1), a, b, k - 1);
    }
}

proof fn lemma_digits_value(s: Seq<char>)
    requires
        all_digits(s),
    ensures
        decimal_value(s) == value_of(s),
    decreases s.len(),
{
    if s.len() > 0 {
        assert(is_digit_char(s[s.len() - 1]));
        assert forall|i: int| 0 <= i < s.drop_last().len() implies is_digit_char(
            #[trigger] s.drop_last()[i],
        ) by {
            assert(s.drop_last()[i] == s[i]);
        }
        lemma_digits_value(s.drop_last());
    }
}

/// A text that starts with a digit is no word.
proof fn lemma_no_word(s: Seq<char>)
    requires
        s.len() > 0,
        is_digit_char(s[0]),
    ensures
        unsigned(s) == s,
        !is_negative(s),
        !is_word(s, "nan"@),
        !is_word(s, "inf"@),
        !is_word(s, "infinity"@),
{
    reveal_strlit("nan");
    reveal_strlit("inf");
    reveal_strlit("infinity");
    assert(!same_letter(s[0], 'n'));
    assert(!same_letter(s[0], 'i'));
    if is_word(s, "nan"@) {
        assert(same_letter(s[0], "nan"@[0]));
    }
    if is_word(s, "inf"@) {
        assert(same_letter(s[0], "inf"@[0]));
    }
    if is_word(s, "infinity"@) {
        assert(same_letter(s[0], "infinity"@[0]));
    }
}

/// A number in digits, with a point and more digits or without, is read as it is written,
/// and kept between the bounds.
pub proof fn law_decimals_are_read(
    whole: Seq<char>,
    fraction: Seq<char>,
    s: &Vec<char>,
    lo: u32,
    hi: u32,
    r: Option<Number>,
)
    requires
        call_ensures(parse_bounded_chars, (s, lo, hi), r),
        lo <= hi <= i32::MAX,
        whole.len() > 0,
        forall|i: int|
            0 <= i < whole.len() ==> '0' as u32 <= #[trigger] whole[i] as u32 <= '9' as u32,
        forall|i: int|
            0 <= i < fraction.len() ==> '0' as u32 <= #[trigger] fraction[i] as u32 <= '9' as u32,
        fraction.len() > 0 ==> fraction.last() != '0',
        if fraction.len() > 0 {
            s@ == whole + seq!['.'] + fraction
        } else {
            s@ == whole
        },
    ensures
        r is Some && !r->0.is_nan,
        value_of(whole) >= hi ==> r->0.whole == hi && r->0.fraction@.len() == 0,
        lo > value_of(whole) ==> r->0.whole == lo && r->0.fraction@.len() == 0,
        lo <= value_of(whole) < hi ==> r->0.whole == value_of(whole) && r->0.fraction@ == fraction,
{
    let t = s@;
    let n = whole.len() as int;
    assert(all_digits(whole) && all_digits(fraction));
    assert(t[0] == whole[0]);
    lemma_no_word(t);
    assert forall|i: int| 0 <= i < t.len() implies #[trigger] t[i] != 'e' && t[i] != 'E' by {
        if i < n {
            assert(t[i] == whole[i]);
        } else if i > n {
            assert(t[i] == fraction[i - n - 1]);
        }
    }
    lemma_first_at(t, 'e', 'E', t.len() as int);
    assert(mantissa(t) =~= t);
    assert forall|i: int| 0 <= i < n implies #[trigger] t[i] != '.' by {
        assert(t[i] == whole[i]);
    }
    lemma_first_at(t, '.', '.', n);
    assert(whole_digits(t) =~= whole);
    assert(fraction_digits(t) =~= fraction);
    assert(power_text(t) =~= Seq::<char>::empty());
    assert(decimal_value(unsigned(power_text(t))) == 0);
    assert(power(t) == 0);
    assert(point(t) == n);
    assert(digits(t).take(n) =~= whole);
    assert(digits(t).skip(n) =~= fraction);
    assert(behind_point(digits(t), n) =~= fraction);
    assert(stripped(fraction) == fraction);
    lemma_digits_value(whole);
}

proof fn lemma_zeros_behind(whole: Seq<char>, k: nat)
    ensures
        decimal_value(whole + zeros(k as int)) == decimal_value(whole) * pow(10, k),
    decreases k,
{
    reveal(pow);
    if k == 0 {
        assert(whole + zeros(0) =~= whole);
    } else {
        let s = whole + zeros(k as int);
        lemma_zeros_behind(whole, (k - 1) as nat);
        assert(s.drop_last() =~= whole + zeros(k - 1));
        assert(s.last() == '0');
        let v = decimal_value(whole) as int;
        let p = pow(10, (k - 1) as nat);
        assert(10 * (v * p) == v * (10 * p)) by (nonlinear_arith);
    }
}

/// A power of ten behind a number moves its point: to the right, or with a minus to the
/// left.
pub proof fn law_powers_move_the_point(
    whole: Seq<char>,
    ten: Seq<char>,
    letter: char,
    s: &Vec<char>,
    t: &Vec<char>,
    lo: u32,
    hi: u32,
    r: Option<Number>,
    q: Option<Number>,
)
    requires
        call_ensures(parse_bounded_chars, (s, lo, hi), r),
        call_ensures(parse_bounded_chars, (t, lo, hi), q),
        lo <= hi <= i32::MAX,
        whole.len() > 0 && ten.len() > 0,
        forall|i: int|
            0 <= i < whole.len() ==> '0' as u32 <= #[trigger] whole[i] as u32 <= '9' as u32,
        forall|i: int| 0 <= i < ten.len() ==> '0' as u32 <= #[trigger] ten[i] as u32 <= '9' as u32,
        letter == 'e' || letter == 'E',
        s@ == whole + seq![letter] + ten,
        t@ == whole + seq![letter] + (seq!['-'] + ten),
    ensures
        r is Some && !r->0.is_nan,
        q is Some && !q->0.is_nan,
        ({
            let v = value_of(whole) * pow(10, value_of(ten) as nat);
            &&& lo <= v < hi ==> r->0.whole == v && r->0.fraction@.len() == 0
            &&& v >= hi ==> r->0.whole == hi
            &&& v < lo ==> r->0.whole == lo
        }),
        value_of(ten) <= whole.len() ==> {
            let left = whole.take(whole.len() - value_of(ten));
            let right = whole.skip(whole.len() - value_of(ten));
            lo <= value_of(left) < hi && whole.last() != '0' ==> q->0.whole == value_of(left)
                && q->0.fraction@ == right
        },
{
    assert(all_digits(whole) && all_digits(ten));
    let k = decimal_value(ten);
    lemma_digits_value(whole);
    lemma_digits_value(ten);
    lemma_power_parts(whole, ten, letter, s@);
    lemma_power_parts(whole, seq!['-'] + ten, letter, t@);
    assert(unsigned(ten) == ten) by {
        assert(is_digit_char(ten[0]));
    }
    assert(!is_negative(ten)) by {
        assert(is_digit_char(ten[0]));
    }
    assert(unsigned(seq!['-'] + ten) =~= ten);
    let n = whole.len() as int;
    assert(point(s@) == n + k);
    lemma_zeros_behind(whole, k);
    assert(whole + zeros(0) =~= whole);
    assert(before_point(whole, n + k) =~= whole + zeros(k as int));
    assert(point(t@) == n - k);
    if k <= n {
        let left = whole.take(n - k);
        let right = whole.skip(n - k);
        assert(before_point(whole, n - k) =~= left);
        assert(behind_point(whole, n - k) =~= right);
        assert(all_digits(left)) by {
            assert forall|i: int| 0 <= i < left.len() implies is_digit_char(#[trigger] left[i]) by {
                assert(left[i] == whole[i]);
            }
        }
        lemma_digits_value(left);
        if whole.last() != '0' {
            assert(stripped(right) == right);
        }
    }
}

/// The parts of a whole number with a power behind it.
proof fn lemma_power_parts(whole: Seq<char>, behind: Seq<char>, letter: char, t: Seq<char>)
    requires
        whole.len() > 0,
        all_digits(whole),
        letter == 'e' || letter == 'E',
        t == whole + seq![letter] + behind,
        all_digits(unsigned(behind)),
        unsigned(behind).len() > 0,
    ensures
        unsigned(t) == t,
        !is_negative(t),
        !is_word(t, "nan"@) && !is_word(t, "inf"@) && !is_word(t, "infinity"@),
        is_decimal(t),
        digits(t) == whole,
        whole_digits(t) == whole,
        power_text(t) == behind,
{
    let n = whole.len() as int;
    assert(t[0] == whole[0]);
    assert(is_digit_char(whole[0]));
    lemma_no_word(t);
    assert forall|i: int| 0 <= i < n implies #[trigger] t[i] != 'e' && t[i] != 'E' by {
        assert(t[i] == whole[i]);
        assert(is_digit_char(whole[i]));
    }
    assert(t[n] == letter);
    lemma_first_at(t, 'e', 'E', n);
    assert(mantissa(t) =~= whole);
    assert(power_text(t) =~= behind);
    assert forall|i: int| 0 <= i < n implies #[trigger] whole[i] != '.' by {
        assert(is_digit_char(whole[i]));
    }
    lemma_first_at(whole, '.', '.', n);
    assert(whole_digits(t) =~= whole);
    assert(fraction_digits(t) =~= Seq::<char>::empty());
    assert(digits(t) =~= whole);
}

/// A plus does not matter, and a number with a minus is the least one that may be.
pub proof fn law_signs_are_read(
    text: &Vec<char>,
    plus: &Vec<char>,
    minus: &Vec<char>,
    lo: u32,
    hi: u32,
    r: Option<Number>,
    p: Option<Number>,
    m: Option<Number>,
)
    requires
        call_ensures(parse_bounded_chars, (text, lo, hi), r),
        call_ensures(parse_bounded_chars, (plus, lo, hi), p),
        call_ensures(parse_bounded_chars, (minus, lo, hi), m),
        lo <= hi <= i32::MAX,
        text@.len() > 0,
        text@[0] != '+' && text@[0] != '-',
        plus@ == seq!['+'] + text@,
        minus@ == seq!['-'] + text@,
    ensures
        r is Some == p is Some && r is Some == m is Some,
        r is Some ==> p->0@ == r->0@,
        r is Some && !r->0.is_nan ==> m->0.whole == lo && m->0.fraction@.len() == 0
            && !m->0.is_nan,
        r is Some && r->0.is_nan ==> m->0.is_nan,
{
    assert(unsigned(plus@) =~= text@);
    assert(unsigned(minus@) =~= text@);
    assert(unsigned(text@) == text@);
}

/// White space around a number does not matter.
pub proof fn law_white_space_around_numbers_does_not_matter(
    input: &str,
    inner: Vec<char>,
    lo: u32,
    hi: u32,
    r: Option<Number>,
    q: Option<Number>,
)
    requires
        call_ensures(trim_chars, (input,), inner),
        call_ensures(parse_bounded, (input, lo, hi), r),
        call_ensures(parse_bounded_chars, (&inner, lo, hi), q),
        lo <= hi <= i32::MAX,
    ensures
        r is Some == q is Some,
        r is Some ==> r->0@ == q->0@,
{
}

proof fn lemma_word_at_the_end(before: Seq<char>, word: Seq<char>)
    requires
        before.len() > 0 ==> before.last() == ' ',
        forall|i: int| 0 <= i < word.len() ==> #[trigger] word[i] != ' ',
    ensures
        last_word(before + word) == word,
    decreases word.len(),
{
    if word.len() > 0 {
        let w = word.drop_last();
        assert forall|i: int| 0 <= i < w.len() implies #[trigger] w[i] != ' ' by {
            assert(w[i] == word[i]);
        }
        lemma_word_at_the_end(before, w);
        assert((before + word).drop_last() =~= before + w);
        assert(word[word.len() - 1] != ' ');
        assert(w.push(word.last()) =~= word);
    } else {
        assert(before + word =~= before);
        assert(last_word(before) =~= word);
    }
}

/// The percentage of a message is the number in front of the sign at its end, between 0
/// and 100.
pub proof fn law_percentages_stand_at_the_end(
    before: Seq<char>,
    number: &str,
    msg: &str,
    r: Option<Number>,
    q: Option<Number>,
)
    requires
        call_ensures(parse_percent, (msg,), r),
        call_ensures(parse_bounded, (number, 0, 100), q),
        msg@ == before + number@ + seq!['%'],
        before.len() > 0 ==> before.last() == ' ' && '!' as u32 <= before[0] as u32 <= '~' as u32,
        number@.len() > 0,
        forall|i: int|
            0 <= i < number@.len() ==> '!' as u32 <= #[trigger] number@[i] as u32 <= '~' as u32,
    ensures
        r is Some == q is Some,
        r is Some ==> r->0@ == q->0@,
{
    let t = msg@;
    let word = number@ + seq!['%'];
    assert(last_word(trimmed(t)) == word) by {
        let n = t.len() as int;
        if before.len() > 0 {
            assert(t[0] == before[0]);
        } else {
            assert(t[0] == number@[0]);
        }
        assert(t[n - 1] == '%');
        assert(is_trimmed(t, 0, n));
        lemma_trimmed(t, 0, n);
        assert(t.subrange(0, n) =~= t);
        assert(t =~= before + word);
        assert forall|i: int| 0 <= i < word.len() implies #[trigger] word[i] != ' ' by {
            if i < number@.len() {
                assert(word[i] == number@[i]);
            }
        }
        lemma_word_at_the_end(before, word);
    }
    assert(word.last() == '%');
    assert(word.drop_last() =~= number@);
    assert(percent_of(t) == bounded_number(number@, 0, 100));
}

/// A message that does not end with the sign has no percentage.
pub proof fn law_other_messages_have_no_percentage(msg: &str, r: Option<Number>)
    requires
        call_ensures(parse_percent, (msg,), r),
        msg@.len() > 0,
        '!' as u32 <= msg@[0] as u32 <= '~' as u32,
        '!' as u32 <= msg@.last() as u32 <= '~' as u32,
        msg@.last() != '%',
    ensures
        r is None,
{
    let o = msg@;
    let m = o.len() as int;
    assert(o[m - 1] == o.last());
    assert(is_trimmed(o, 0, m));
    lemma_trimmed(o, 0, m);
    assert(o.subrange(0, m) =~= o);
    assert(last_word(o) == last_word(o.drop_last()).push(o.last()));
    assert(last_word(o).last() == o.last());
    assert(percent_of(o) is None);
}

proof fn lemma_ten_to(n: nat)
    ensures
        ten_to(n) == pow(10, n),
    decreases n,
{
    reveal(pow);
    if n > 0 {
        lemma_ten_to((n - 1) as nat);
    }
}

proof fn lemma_bits_of(whole: int, k: nat, precision: int)
    requires
        whole >= 1,
        pow2(k) <= whole < 2 * pow2(k),
    ensures
        bits_behind(whole, precision) == precision - k,
    decreases k,
{
    if k == 0 {
        lemma2_to64();
    } else {
        lemma_pow2_unfold(k);
        lemma_pow2_pos((k - 1) as nat);
        assert(pow2((k - 1) as nat) <= whole / 2 < 2 * pow2((k - 1) as nat));
        lemma_bits_of(whole / 2, (k - 1) as nat, precision - 1);
    }
}

/// A number keeps its digits, but for one that is nearer to the next whole number than the
/// machine can tell: with `k` binary digits behind the first one before the point, that
/// leaves `precision - k` of them behind it.
pub proof fn law_sizes_are_kept_with_their_precision(
    input: &str,
    lo: u32,
    hi: u32,
    precision: u32,
    exact: Option<Number>,
    r: Option<Number>,
    k: nat,
)
    requires
        call_ensures(parse_bounded, (input, lo, hi), exact),
        call_ensures(parse_size, (input, lo, hi, precision), r),
        lo <= hi < i32::MAX,
        hi / 2 <= precision,
        exact is Some ==> exact->0.whole >= 1 && pow2(k) <= exact->0.whole < 2 * pow2(k),
        k <= precision,
    ensures
        r is Some == exact is Some,
        exact is Some && !exact->0.is_nan ==> {
            let f = exact->0.fraction@;
            let near = (pow(10, f.len()) - value_of(f)) * pow2((precision - k) as nat) <= pow(
                10,
                f.len(),
            );
            &&& near ==> r->0.whole == exact->0.whole + 1 && r->0.fraction@.len() == 0
            &&& !near ==> r->0@ == exact->0@
        },
{
    if exact is Some && !exact->0.is_nan {
        let f = exact->0.fraction@;
        lemma_ten_to(f.len());
        lemma_digits_value(f);
        lemma_bits_of(exact->0.whole as int, k, precision as int);
    }
}

/// What is no number is read as none, and a number that is too large as the largest.
pub proof fn law_words_are_read(s: &Vec<char>, lo: u32, hi: u32, r: Option<Number>, whole_of: i32)
    requires
        call_ensures(parse_bounded_chars, (s, lo, hi), r),
        lo <= hi <= i32::MAX,
        r is Some ==> call_ensures(Number::to_whole, (&r->0,), whole_of),
    ensures
        s@ == "nan"@ || s@ == "NaN"@ ==> r is Some && r->0.is_nan && whole_of == 0,
        s@ == "inf"@ || s@ == "infinity"@ ==> r is Some && r->0.whole == hi && whole_of == hi,
        s@ == "-inf"@ ==> r is Some && r->0.whole == lo && whole_of == lo,
        s@.len() == 0 ==> r is None,
{
    reveal_strlit("nan");
    reveal_strlit("NaN");
    reveal_strlit("inf");
    reveal_strlit("-inf");
    reveal_strlit("infinity");
    let t = unsigned(s@);
    if s@ == "-inf"@ {
        assert(t =~= "inf"@);
        assert(!same_letter(t[0], "nan"@[0]));
        assert(is_word(t, "inf"@));
    }
    if s@.len() == 0 {
        assert(t =~= Seq::<char>::empty());
        assert(mantissa(t) =~= t);
        assert(whole_digits(t) =~= t);
        assert(fraction_digits(t) =~= t);
        assert(!is_decimal(t));
    }
}

} // verus!
