//! Numbers in decimal notation, and byte counts for people.

use vstd::prelude::*;

verus! {

broadcast use vstd::string::group_string_axioms;

/// Character of a decimal digit.
pub open spec fn digit_char(d: nat) -> char {
    (48 + d) as char
}

/// Decimal notation of a number, without leading zeros.
pub open spec fn decimal(n: nat) -> Seq<char>
    decreases n,
{
    if n < 10 {
        seq![digit_char(n)]
    } else {
        decimal(n / 10).push(digit_char(n % 10))
    }
}

/// `width` copies of a blank.
pub open spec fn blanks(width: nat) -> Seq<char> {
    Seq::new(width, |i: int| ' ')
}

/// `text` behind as many blanks as make it `width` characters long.
pub open spec fn pad_left(text: Seq<char>, width: nat) -> Seq<char> {
    if text.len() >= width {
        text
    } else {
        blanks((width - text.len()) as nat) + text
    }
}

/// Appends the decimal notation of `n`.
pub fn push_decimal(out: &mut String, n: u64)
    ensures
        final(out)@ == old(out)@ + decimal(n as nat),
    decreases n,
{
    let ghost before = out@;
    if n >= 10 {
        push_decimal(out, n / 10);
    }
    let d: u8 = (n % 10) as u8;
    out.push((48u8 + d) as char);
    assert(out@ =~= before + decimal(n as nat));
}

/// Decimal notation of `n`.
pub fn decimal_string(n: u64) -> (r: String)
    ensures
        r@ == decimal(n as nat),
{
    let mut out = String::new();
    push_decimal(&mut out, n);
    assert(out@ =~= decimal(n as nat));
    out
}

/// Decimal notation of a number that may be negative.
pub open spec fn signed_decimal(n: int) -> Seq<char> {
    if n < 0 {
        seq!['-'] + decimal((-n) as nat)
    } else {
        decimal(n as nat)
    }
}

/// Decimal notation of a number that may be negative.
pub fn signed_string(n: i32) -> (r: String)
    ensures
        r@ == signed_decimal(n as int),
{
    let wide: i64 = n as i64;
    if wide < 0 {
        let mut out = String::new();
        out.push('-');
        push_decimal(&mut out, (-wide) as u64);
        assert(out@ =~= signed_decimal(n as int));
        out
    } else {
        decimal_string(wide as u64)
    }
}

/// `text`, right aligned in `width` characters.
pub fn align_right(text: &str, width: usize) -> (r: String)
    ensures
        r@ == pad_left(text@, width as nat),
{
    let n: usize = text.unicode_len();
    let mut out = String::new();
    let mut k: usize = n;
    while k < width
        invariant
            n == text@.len(),
            n <= k,
            k <= width || k == n,
            out@ == blanks((k - n) as nat),
        decreases width - k,
    {
        out.push(' ');
        k = k + 1;
        assert(out@ =~= blanks((k - n) as nat));
    }
    out.append(text);
    assert(out@ =~= pad_left(text@, width as nat));
    out
}

/// `text`, filled up with blanks to `width` characters.
pub open spec fn pad_right(text: Seq<char>, width: nat) -> Seq<char> {
    if text.len() >= width {
        text
    } else {
        text + blanks((width - text.len()) as nat)
    }
}

/// `text`, left aligned in `width` characters.
pub fn align_left(text: &str, width: usize) -> (r: String)
    ensures
        r@ == pad_right(text@, width as nat),
{
    let n: usize = text.unicode_len();
    let mut out: String = text.to_owned();
    let mut k: usize = n;
    while k < width
        invariant
            n == text@.len(),
            n <= k,
            k <= width || k == n,
            out@ == text@ + blanks((k - n) as nat),
        decreases width - k,
    {
        out.push(' ');
        k = k + 1;
        assert(out@ =~= text@ + blanks((k - n) as nat));
    }
    assert(out@ =~= pad_right(text@, width as nat));
    out
}

/// A number with zeros in front, up to a width.
pub open spec fn zero_padded(n: nat, width: nat) -> Seq<char> {
    let digits = decimal(n);
    if digits.len() >= width {
        digits
    } else {
        Seq::new((width - digits.len()) as nat, |i: int| '0') + digits
    }
}

/// Appends a number with zeros in front, up to a width.
pub fn push_padded(out: &mut String, n: u64, width: usize)
    ensures
        final(out)@ == old(out)@ + zero_padded(n as nat, width as nat),
{
    let digits: String = decimal_string(n);
    let len: usize = digits.as_str().unicode_len();
    let ghost start = out@;
    let mut have: usize = len;
    while have < width
        invariant
            len <= have,
            len == decimal(n as nat).len(),
            have <= width || have == len,
            out@ == start + Seq::new((have - len) as nat, |i: int| '0'),
        decreases width - have,
    {
        out.push('0');
        have = have + 1;
        assert(out@ =~= start + Seq::new((have - len) as nat, |i: int| '0'));
    }
    out.append(digits.as_str());
    assert(out@ =~= start + zero_padded(n as nat, width as nat));
}

/// Number of decimal digits is at least one.
pub proof fn lemma_decimal_nonempty(n: nat)
    ensures
        decimal(n).len() >= 1,
    decreases n,
{
    if n >= 10 {
        lemma_decimal_nonempty(n / 10);
    }
}

// ---------------------------------------------------------------------------
// Byte counts
// ---------------------------------------------------------------------------

/// `a / d`, rounded to the nearest integer, and to the even one halfway.
pub open spec fn round_half_even(a: nat, d: nat) -> nat {
    let q = a / d;
    let r = a % d;
    if 2 * r < d || (2 * r == d && q % 2 == 0) {
        q
    } else {
        q + 1
    }
}

/// Weight of the last of 53 significant bits of a number below 2^64.
pub open spec fn last_bit(n: nat) -> nat {
    if n < 0x20_0000_0000_0000 {
        1
    } else if n < 0x40_0000_0000_0000 {
        2
    } else if n < 0x80_0000_0000_0000 {
        4
    } else if n < 0x100_0000_0000_0000 {
        8
    } else if n < 0x200_0000_0000_0000 {
        16
    } else if n < 0x400_0000_0000_0000 {
        32
    } else if n < 0x800_0000_0000_0000 {
        64
    } else if n < 0x1000_0000_0000_0000 {
        128
    } else if n < 0x2000_0000_0000_0000 {
        256
    } else if n < 0x4000_0000_0000_0000 {
        512
    } else if n < 0x8000_0000_0000_0000 {
        1024
    } else {
        2048
    }
}

/// `n` kept to 53 significant bits, rounded to the nearest.
pub open spec fn to_53_bits(n: nat) -> nat {
    round_half_even(n, last_bit(n)) * last_bit(n)
}

/// Bytes in a unit: 1, KiB, MiB, and so on.
pub open spec fn unit_bytes(unit: nat) -> nat
    decreases unit,
{
    if unit == 0 {
        1
    } else {
        1024 * unit_bytes((unit - 1) as nat)
    }
}

/// The largest unit that `n` reaches, none beyond `top`.
pub open spec fn unit_for(n: nat, top: nat) -> nat
    decreases top,
{
    if top == 0 || n >= unit_bytes(top) {
        top
    } else {
        unit_for(n, (top - 1) as nat)
    }
}

/// Name of a unit.
pub open spec fn unit_name(unit: nat) -> Seq<char> {
    if unit == 0 {
        "B"@
    } else if unit == 1 {
        "KiB"@
    } else if unit == 2 {
        "MiB"@
    } else if unit == 3 {
        "GiB"@
    } else if unit == 4 {
        "TiB"@
    } else {
        "PiB"@
    }
}

/// A number of hundredths with two decimal places.
pub open spec fn two_places(hundredths: nat) -> Seq<char> {
    decimal(hundredths / 100) + seq![
        '.',
        digit_char((hundredths / 10) % 10),
        digit_char(hundredths % 10),
    ]
}

/// Number part of a byte count: whole bytes, or the count in a larger unit with
/// two decimal places. Counts above 2^53 are taken to 53 significant bits.
pub open spec fn human_number(n: nat, top: nat) -> Seq<char> {
    let m = to_53_bits(n);
    let unit = unit_for(m, top);
    if unit == 0 {
        decimal(n)
    } else {
        two_places(round_half_even(100 * m, unit_bytes(unit)))
    }
}

/// Name of the unit that a byte count is given in.
pub open spec fn human_unit(n: nat, top: nat) -> Seq<char> {
    unit_name(unit_for(to_53_bits(n), top))
}

/// A byte count for people, in units up to `top`.
pub open spec fn human_text(n: nat, top: nat) -> Seq<char> {
    human_number(n, top).push(' ') + human_unit(n, top)
}

fn round_half_even_exec(a: u128, d: u128) -> (r: u128)
    requires
        d > 0,
        2 * d <= u128::MAX,
        a < u128::MAX,
    ensures
        r == round_half_even(a as nat, d as nat),
{
    let q: u128 = a / d;
    let rem: u128 = a % d;
    assert(q <= a) by (nonlinear_arith)
        requires
            q == a / d,
            d > 0,
    ;
    if 2 * rem < d || (2 * rem == d && q % 2 == 0) {
        q
    } else {
        q + 1
    }
}

fn last_bit_exec(n: u64) -> (r: u64)
    ensures
        r == last_bit(n as nat),
        r > 0,
{
    if n < 0x20_0000_0000_0000 {
        1
    } else if n < 0x40_0000_0000_0000 {
        2
    } else if n < 0x80_0000_0000_0000 {
        4
    } else if n < 0x100_0000_0000_0000 {
        8
    } else if n < 0x200_0000_0000_0000 {
        16
    } else if n < 0x400_0000_0000_0000 {
        32
    } else if n < 0x800_0000_0000_0000 {
        64
    } else if n < 0x1000_0000_0000_0000 {
        128
    } else if n < 0x2000_0000_0000_0000 {
        256
    } else if n < 0x4000_0000_0000_0000 {
        512
    } else if n < 0x8000_0000_0000_0000 {
        1024
    } else {
        2048
    }
}

/// The unit and the number of hundredths in which a byte count is given.
fn human_parts(n: u64, top: u64) -> (r: (u64, u64))
    requires
        top <= 5,
    ensures
        r.0 == unit_for(to_53_bits(n as nat), top as nat),
        r.0 <= top,
        r.0 > 0 ==> r.1 == round_half_even(100 * to_53_bits(n as nat), unit_bytes(r.0 as nat)),
        r.0 == 0 ==> r.1 == n,
{
    let bit: u64 = last_bit_exec(n);
    let kept: u128 = round_half_even_exec(n as u128, bit as u128);
    assert(kept * bit <= 0x1_0000_0000_0000_0000 && (bit == 1 ==> kept == n)) by {
        lemma_kept(n as nat);
    }
    let m: u128 = kept * (bit as u128);
    let mut unit: u64 = top;
    let mut size: u128 = 1;
    let mut k: u64 = 0;
    while k < top
        invariant
            k <= top <= 5,
            size == unit_bytes(k as nat),
            size > 0,
            k <= 4 ==> size <= 0x100_0000_0000,
        decreases top - k,
    {
        assert(unit_bytes((k + 1) as nat) == 1024 * unit_bytes(k as nat));
        assert(unit_bytes(5) == 0x4_0000_0000_0000) by {
            reveal_with_fuel(unit_bytes, 7);
        }
        assert(unit_bytes(1) == 1024 && unit_bytes(2) == 0x10_0000 && unit_bytes(3) == 0x4000_0000
            && unit_bytes(4) == 0x100_0000_0000) by {
            reveal_with_fuel(unit_bytes, 6);
        }
        size = size * 1024;
        k = k + 1;
    }
    while unit > 0 && m < size
        invariant
            unit <= top <= 5,
            size == unit_bytes(unit as nat),
            size > 0,
            unit_for(m as nat, top as nat) == unit_for(m as nat, unit as nat),
        decreases unit,
    {
        assert(unit_bytes(unit as nat) == 1024 * unit_bytes((unit - 1) as nat));
        size = size / 1024;
        unit = unit - 1;
    }
    assert(unit_for(m as nat, unit as nat) == unit);
    if unit == 0 {
        (0, n)
    } else {
        assert(unit_bytes(unit as nat) == 1024 * unit_bytes((unit - 1) as nat));
        proof {
            lemma_unit_bounds(unit as nat);
            lemma_hundredths_fit(m as nat, size as nat);
        }
        let h: u128 = round_half_even_exec(100 * m, size);
        (unit, h as u64)
    }
}

proof fn lemma_unit_bounds(unit: nat)
    requires
        1 <= unit <= 5,
    ensures
        1024 <= unit_bytes(unit) <= 0x4_0000_0000_0000,
{
    reveal_with_fuel(unit_bytes, 7);
}

proof fn lemma_hundredths_fit(m: nat, size: nat)
    requires
        m <= 0x1_0000_0000_0000_0000,
        size >= 1024,
    ensures
        round_half_even(100 * m, size) <= u64::MAX,
{
    assert((100 * m) / size <= (100 * m) / 1024) by (nonlinear_arith)
        requires
            size >= 1024,
    ;
}

/// Keeping 53 bits does not go beyond 2^64.
proof fn lemma_kept(n: nat)
    requires
        n <= u64::MAX,
    ensures
        round_half_even(n, last_bit(n)) * last_bit(n) <= 0x1_0000_0000_0000_0000,
        last_bit(n) == 1 ==> round_half_even(n, last_bit(n)) == n,
{
    let bit = last_bit(n);
    let kept = round_half_even(n, bit);
    if bit == 1 {
    } else if bit == 2 {
    } else if bit == 4 {
    } else if bit == 8 {
    } else if bit == 16 {
    } else if bit == 32 {
    } else if bit == 64 {
    } else if bit == 128 {
    } else if bit == 256 {
    } else if bit == 512 {
    } else if bit == 1024 {
    } else {
        assert(bit == 2048);
    }
}

fn push_unit(out: &mut String, unit: u64)
    ensures
        final(out)@ == old(out)@ + unit_name(unit as nat),
{
    if unit == 0 {
        out.append("B");
    } else if unit == 1 {
        out.append("KiB");
    } else if unit == 2 {
        out.append("MiB");
    } else if unit == 3 {
        out.append("GiB");
    } else if unit == 4 {
        out.append("TiB");
    } else {
        out.append("PiB");
    }
}

/// The number part of a byte count, and its unit: 0 for bytes, 1 for KiB, and
/// so on up to `top`.
fn human_number_exec(n: u64, top: u64) -> (r: (String, u64))
    requires
        top <= 5,
    ensures
        r.0@ == human_number(n as nat, top as nat),
        r.1 == unit_for(to_53_bits(n as nat), top as nat),
{
    let (unit, hundredths) = human_parts(n, top);
    let mut out: String = String::new();
    if unit == 0 {
        push_decimal(&mut out, n);
        assert(out@ =~= decimal(n as nat));
    } else {
        push_decimal(&mut out, hundredths / 100);
        out.push('.');
        out.push((48u8 + ((hundredths / 10) % 10) as u8) as char);
        out.push((48u8 + (hundredths % 10) as u8) as char);
        assert(out@ =~= two_places(hundredths as nat));
    }
    (out, unit)
}

/// A byte count for people: whole bytes below 1024, then two decimal places in
/// binary units up to the unit `top` (1 for KiB, 2 for MiB, ...).
pub fn human(n: u64, top: u64) -> (r: String)
    requires
        top <= 5,
    ensures
        r@ == human_text(n as nat, top as nat),
{
    let (mut out, unit) = human_number_exec(n, top);
    out.push(' ');
    push_unit(&mut out, unit);
    out
}

/// Like [`human`], with the number right aligned in `width` characters.
pub fn human_aligned(n: u64, top: u64, width: usize) -> (r: String)
    requires
        top <= 5,
    ensures
        r@ == pad_left(human_number(n as nat, top as nat), width as nat).push(' ') + human_unit(
            n as nat,
            top as nat,
        ),
{
    let (number, unit) = human_number_exec(n, top);
    let mut out: String = align_right(number.as_str(), width);
    out.push(' ');
    push_unit(&mut out, unit);
    out
}

// ---------------------------------------------------------------------------
// Laws
// ---------------------------------------------------------------------------

/// The digits of a number stand for it, and the first is no zero unless it is the only one.
pub proof fn law_digits_stand_for_the_number(n: u64, r: String)
    requires
        call_ensures(decimal_string, (n,), r),
    ensures
        value_of(r@) == n,
        r@.len() > 0,
        r@.len() > 1 ==> r@[0] != '0',
        forall|i: int| 0 <= i < r@.len() ==> '0' as u32 <= #[trigger] r@[i] as u32 <= '9' as u32,
{
    lemma_decimal_value(n as nat);
}

/// Number that a row of digits stands for.
pub open spec fn value_of(digits: Seq<char>) -> int
    decreases digits.len(),
{
    if digits.len() == 0 {
        0
    } else {
        10 * value_of(digits.drop_last()) + (digits.last() as u32 - '0' as u32)
    }
}

pub proof fn lemma_decimal_value(n: nat)
    ensures
        value_of(decimal(n)) == n,
        decimal(n).len() > 0,
        decimal(n).len() > 1 ==> decimal(n)[0] != '0',
        n > 0 ==> decimal(n)[0] != '0',
        forall|i: int|
            0 <= i < decimal(n).len() ==> '0' as u32 <= #[trigger] decimal(n)[i] as u32
                <= '9' as u32,
    decreases n,
{
    if n >= 10 {
        lemma_decimal_value(n / 10);
        assert(decimal(n).drop_last() =~= decimal(n / 10));
        assert(decimal(n).last() == digit_char(n % 10));
    } else {
        assert(decimal(n).drop_last() =~= Seq::<char>::empty());
        assert(value_of(decimal(n).drop_last()) == 0);
        assert(decimal(n).last() == digit_char(n));
    }
}

/// A number is put behind what is there, and a negative one gets a minus.
pub proof fn law_numbers_are_written(
    out: &mut String,
    n: u64,
    done: (),
    m: i32,
    signed: String,
    plain: String,
)
    requires
        call_ensures(push_decimal, (out, n), done),
        call_ensures(decimal_string, (n,), plain),
        call_ensures(signed_string, (m,), signed),
        m == n || m == -n,
    ensures
        final(out)@ == old(out)@ + plain@,
        m == n ==> signed@ == plain@,
        m == -n && n > 0 ==> signed@ == seq!['-'] + plain@,
{
}

/// A text that is aligned keeps its characters at one end, with blanks at the other.
pub proof fn law_aligned_texts_keep_their_characters(
    text: &str,
    width: usize,
    right: String,
    left: String,
)
    requires
        call_ensures(align_right, (text, width), right),
        call_ensures(align_left, (text, width), left),
    ensures
        right@.len() == if text@.len() >= width {
            text@.len() as int
        } else {
            width as int
        },
        left@.len() == right@.len(),
        right@.skip(right@.len() - text@.len()) == text@,
        left@.take(text@.len() as int) == text@,
        forall|i: int| 0 <= i < right@.len() - text@.len() ==> #[trigger] right@[i] == ' ',
        forall|i: int| text@.len() <= i < left@.len() ==> #[trigger] left@[i] == ' ',
{
    assert(right@.skip(right@.len() - text@.len()) =~= text@);
    assert(left@.take(text@.len() as int) =~= text@);
}

/// A padded number is as long as it was asked to be, unless the number is longer, and
/// stands for the number.
pub proof fn law_padded_numbers_stand_for_the_number(
    out: &mut String,
    n: u64,
    width: usize,
    done: (),
)
    requires
        call_ensures(push_padded, (out, n, width), done),
    ensures
        ({
            let digits = final(out)@.skip(old(out)@.len() as int);
            &&& final(out)@.take(old(out)@.len() as int) == old(out)@
            &&& digits.len() >= width
            &&& value_of(digits) == n
            &&& digits.len() > width ==> digits[0] != '0' || digits.len() == 1
        }),
{
    let digits = zero_padded(n as nat, width as nat);
    assert(final(out)@.skip(old(out)@.len() as int) =~= digits);
    assert(final(out)@.take(old(out)@.len() as int) =~= old(out)@);
    lemma_decimal_value(n as nat);
    if decimal(n as nat).len() < width {
        lemma_leading_zeros(width - decimal(n as nat).len(), decimal(n as nat));
    }
}

proof fn lemma_leading_zeros(k: int, digits: Seq<char>)
    requires
        k >= 0,
    ensures
        value_of(Seq::new(k as nat, |i: int| '0') + digits) == value_of(digits),
    decreases digits.len(), k,
{
    let all = Seq::new(k as nat, |i: int| '0') + digits;
    if digits.len() > 0 {
        lemma_leading_zeros(k, digits.drop_last());
        assert(all.drop_last() =~= Seq::new(k as nat, |i: int| '0') + digits.drop_last());
        assert(all.last() == digits.last());
    } else if k > 0 {
        lemma_leading_zeros(k - 1, digits);
        assert(all.drop_last() =~= Seq::new((k - 1) as nat, |i: int| '0') + digits);
        assert(all.last() == '0');
    } else {
        assert(all =~= digits);
    }
}

/// A size below a KiB is given in bytes; any other in the largest unit that it reaches,
/// in hundredths of the unit that are off by at most half of one. Sizes of up to 2 to the
/// power of 53 are those that a floating point number holds.
pub proof fn law_sizes_are_given_in_their_unit(n: u64, r: String, unit: nat) -> (hundredths: nat)
    requires
        call_ensures(human, (n, 5u64), r),
        n < 0x20_0000_0000_0000,
        1 <= unit <= 5,
        unit_size(unit) <= n,
        unit < 5 ==> n < unit_size(unit + 1),
    ensures
        r@ == decimal(hundredths / 100) + seq![
            '.',
            ('0' as u32 + (hundredths / 10) % 10) as char,
            ('0' as u32 + hundredths % 10) as char,
            ' ',
        ] + unit_text(unit),
        2 * 100 * n <= (2 * hundredths + 1) * unit_size(unit),
        (2 * hundredths - 1) * unit_size(unit) <= 2 * 100 * n,
{
    let m = to_53_bits(n as nat);
    assert(m == n) by {
        assert(last_bit(n as nat) == 1);
        assert((n as nat) / 1 == n && (n as nat) % 1 == 0);
        assert(round_half_even(n as nat, 1) == n);
        assert((n as nat) * 1 == n) by (nonlinear_arith);
    }
    reveal_with_fuel(unit_bytes, 7);
    reveal_with_fuel(unit_for, 7);
    assert(unit_for(m, 5) == unit);
    assert(unit_bytes(unit) == unit_size(unit));
    let d = unit_size(unit);
    let h = round_half_even(100 * m, d);
    let a = 100 * n as int;
    let q = a / (d as int);
    let e = a % (d as int);
    assert(q * d + e == a && 0 <= e < d) by (nonlinear_arith)
        requires
            q == a / (d as int),
            e == a % (d as int),
            d > 0,
    ;
    assert(2 * 100 * n <= (2 * h + 1) * d && (2 * h - 1) * d <= 2 * 100 * n) by (nonlinear_arith)
        requires
            q * d + e == a,
            a == 100 * n,
            0 <= e < d,
            h == q && 2 * e <= d || h == q + 1 && 2 * e >= d,
    ;
    let text = decimal(h / 100) + seq![
        '.',
        ('0' as u32 + (h / 10) % 10) as char,
        ('0' as u32 + h % 10) as char,
        ' ',
    ] + unit_text(unit);
    assert(r@ =~= text);
    h
}

/// Bytes of a unit.
pub open spec fn unit_size(unit: nat) -> nat {
    if unit == 0 {
        1
    } else if unit == 1 {
        0x400
    } else if unit == 2 {
        0x10_0000
    } else if unit == 3 {
        0x4000_0000
    } else if unit == 4 {
        0x100_0000_0000
    } else {
        0x4_0000_0000_0000
    }
}

/// Name of a unit from a KiB on.
pub open spec fn unit_text(unit: nat) -> Seq<char> {
    if unit == 1 {
        "KiB"@
    } else if unit == 2 {
        "MiB"@
    } else if unit == 3 {
        "GiB"@
    } else if unit == 4 {
        "TiB"@
    } else {
        "PiB"@
    }
}

/// A size below a KiB is its number of bytes, whichever units may be used.
pub proof fn law_small_sizes_are_bytes(n: u64, top: u64, r: String, digits: String)
    requires
        call_ensures(human, (n, top), r),
        call_ensures(decimal_string, (n,), digits),
        n < 1024,
        top <= 5,
    ensures
        r@ == digits@ + " B"@,
{
    assert(to_53_bits(n as nat) == n) by {
        assert(last_bit(n as nat) == 1);
        assert((n as nat) / 1 == n && (n as nat) % 1 == 0);
        assert((n as nat) * 1 == n) by (nonlinear_arith);
    }
    reveal_with_fuel(unit_bytes, 7);
    reveal_with_fuel(unit_for, 7);
    reveal_strlit("B");
    reveal_strlit(" B");
    assert(r@ =~= digits@ + " B"@);
}

/// An aligned size is the size, with blanks in front.
pub proof fn law_aligned_sizes_are_sizes(n: u64, top: u64, width: usize, r: String, plain: String)
    requires
        call_ensures(human_aligned, (n, top, width), r),
        call_ensures(human, (n, top), plain),
    ensures
        r@.len() >= plain@.len(),
        r@.skip(r@.len() - plain@.len()) == plain@,
        forall|i: int| 0 <= i < r@.len() - plain@.len() ==> #[trigger] r@[i] == ' ',
{
    assert(r@.skip(r@.len() - plain@.len()) =~= plain@);
}

/// A number that has no more digits than the width takes just the width.
pub proof fn lemma_padded(n: nat, width: nat)
    requires
        (width == 2 && n < 100) || (width == 3 && n < 1000) || (width == 4 && n < 10000),
    ensures
        zero_padded(n, width).len() == width,
        value_of(zero_padded(n, width)) == n,
{
    reveal_with_fuel(decimal, 4);
    lemma_decimal_value(n);
    if decimal(n).len() < width {
        lemma_leading_zeros(width - decimal(n).len(), decimal(n));
    }
}

} // verus!
