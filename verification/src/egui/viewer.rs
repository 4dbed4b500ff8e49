//! Lines of the viewer: level colours, filters, search matches, and the cache
//! of very long lines with its table from characters to bytes.

use vstd::prelude::*;
use vstd::utf8::encode_utf8;

use crate::decimal::{human, human_text};
use crate::levels::{
    ascii_uppercase, has_level_bytes, level_of, level_of_line, marks_level, to_ascii_uppercase,
    uppercase, Level,
};
use crate::occurrences::{contains, literal_ranges, match_ranges, occurs};
use crate::text::{
    byte_at, len_utf8, lemma_boundary_of_char, lemma_byte_at_step, lemma_encode_injective,
    lemma_offsets_ends, lemma_offsets_monotone, utf8_len,
};

verus! {

broadcast use vstd::string::group_string_axioms;

/// Most matches that are highlighted in a line or a window. A very long line
/// with a common pattern has millions of them.
pub const MAX_MATCH_RANGES: usize = 10_000;

/// Characters between two samples of the table from characters to bytes.
pub const BYTE_INDEX_STRIDE: usize = 1024;

/// Bytes of text that the cache of very long lines keeps.
pub const HUGE_CACHE_BYTES: u64 = 67_108_864;

/// A byte count for people, in units up to TiB.
pub fn human_bytes(n: u64) -> (r: String)
    ensures
        r@ == human_text(n as nat, 4),
{
    human(n, 4)
}

// ---------------------------------------------------------------------------
// Level colours
// ---------------------------------------------------------------------------

/// Colour with an alpha channel.
#[derive(Clone, Copy, Debug, PartialEq, Eq, Structural)]
pub struct Color {
    pub r: u8,
    pub g: u8,
    pub b: u8,
    pub a: u8,
}

/// Colours of a theme for the log levels.
#[derive(Clone, Copy, Debug)]
pub struct LevelColors {
    pub level_error: Color,
    pub level_warn: Color,
    pub level_info: Color,
    pub level_debug: Color,
    pub level_trace: Color,
}

impl LevelColors {
    /// Colour of a level.
    pub open spec fn of(self, level: Level) -> Color {
        match level {
            Level::Error => self.level_error,
            Level::Warn => self.level_warn,
            Level::Info => self.level_info,
            Level::Debug => self.level_debug,
            Level::Trace => self.level_trace,
        }
    }
}

/// Colour of a line that carries a level marker.
pub open spec fn colour_of(level: Option<Level>, theme: LevelColors) -> Option<Color> {
    match level {
        Some(l) => Some(theme.of(l)),
        None => None,
    }
}

/// Colour of a level, where there is one.
pub fn color_for_level(level: Option<Level>, theme: &LevelColors) -> (r: Option<Color>)
    ensures
        r == colour_of(level, *theme),
{
    match level {
        Some(Level::Error) => Some(theme.level_error),
        Some(Level::Warn) => Some(theme.level_warn),
        Some(Level::Info) => Some(theme.level_info),
        Some(Level::Debug) => Some(theme.level_debug),
        Some(Level::Trace) => Some(theme.level_trace),
        None => None,
    }
}

/// Colour of a line that carries a recognised level marker.
pub fn level_color(text: &str, theme: &LevelColors) -> (r: Option<Color>)
    ensures
        r == colour_of(level_of(encode_utf8(uppercase(text@))), *theme),
{
    color_for_level(level_of_line(text), theme)
}

/// Whether an upper case text carries a level word as a marker.
pub fn has_level(upper: &str, level: &str) -> (r: bool)
    ensures
        r == marks_level(encode_utf8(upper@), encode_utf8(level@)),
{
    has_level_bytes(upper.as_bytes(), level.as_bytes())
}

// ---------------------------------------------------------------------------
// Matches and filters
// ---------------------------------------------------------------------------

/// A parsed search query.
pub enum Query {
    /// Bytes to be found as they are.
    Literal(Vec<u8>),
    /// A pattern whose matches its own engine finds.
    Regex,
}

/// The first `limit` items, or all where there are fewer.
pub open spec fn first_of<T>(items: Seq<T>, limit: nat) -> Seq<T> {
    if items.len() <= limit {
        items
    } else {
        items.take(limit as int)
    }
}

/// Byte ranges of the first `limit` matches of a query in `hay`. `regex_ranges`
/// hands out the matches of a pattern.
pub fn query_ranges_in<F: Fn(&[u8]) -> Vec<(usize, usize)>>(
    q: &Query,
    hay: &[u8],
    regex_ranges: F,
    limit: usize,
) -> (r: Vec<(usize, usize)>)
    requires
        q is Regex ==> call_requires(regex_ranges, (hay,)),
    ensures
        match q {
            Query::Literal(p) => {
                &&& r@.len() == match_ranges(hay@, p@, limit as nat).len()
                &&& forall|k: int|
                    0 <= k < r@.len() ==> (#[trigger] r@[k]).0 == match_ranges(
                        hay@,
                        p@,
                        limit as nat,
                    )[k].0 && r@[k].1 == match_ranges(hay@, p@, limit as nat)[k].1
            },
            Query::Regex => exists|all: Vec<(usize, usize)>| #[trigger]
                call_ensures(regex_ranges, (hay,), all) && r@ == first_of(all@, limit as nat),
        },
{
    match q {
        Query::Literal(p) => literal_ranges(hay, p.as_slice(), limit),
        Query::Regex => {
            let all: Vec<(usize, usize)> = regex_ranges(hay);
            let mut r: Vec<(usize, usize)> = Vec::new();
            let mut i: usize = 0;
            while i < all.len() && i < limit
                invariant
                    i <= all@.len(),
                    i <= limit,
                    r@ == all@.take(i as int),
                decreases all@.len() - i,
            {
                assert(all@.take(i + 1) =~= all@.take(i as int).push(all@[i as int]));
                r.push(all[i]);
                i = i + 1;
            }
            assert(r@ =~= first_of(all@, limit as nat));
            assert(call_ensures(regex_ranges, (hay,), all));
            r
        },
    }
}

/// A filter on lines.
pub enum FilterSpec {
    /// Lines that hold a text, in its case or in any case of ASCII letters.
    Literal { pattern: String, case_sensitive: bool },
    /// Lines that hold a text.
    Contains { needle: String },
    /// Lines that hold a number in a range.
    ErrorLevel { min: u16, max: u16 },
}

pub open spec fn is_digit(b: u8) -> bool {
    48 <= b <= 57
}

/// `[i, j)` is a run of digits that cannot be made longer.
pub open spec fn is_digit_run(bytes: Seq<u8>, i: int, j: int) -> bool {
    &&& 0 <= i < j <= bytes.len()
    &&& forall|k: int| i <= k < j ==> is_digit(#[trigger] bytes[k])
    &&& i > 0 ==> !is_digit(bytes[i - 1])
    &&& j < bytes.len() ==> !is_digit(bytes[j])
}

/// Number that the digits `[i, j)` stand for.
pub open spec fn digits_value(bytes: Seq<u8>, i: int, j: int) -> nat
    decreases j - i,
{
    if j <= i {
        0
    } else {
        digits_value(bytes, i, j - 1) * 10 + (bytes[j - 1] - 48) as nat
    }
}

/// Some run of digits stands for a number in `[min, max]`.
pub open spec fn has_number_in(bytes: Seq<u8>, min: u16, max: u16) -> bool {
    exists|i: int, j: int| #[trigger]
        is_digit_run(bytes, i, j) && min <= digits_value(bytes, i, j) <= max
}

/// A line passes a filter.
pub open spec fn passes(f: FilterSpec, text: Seq<char>) -> bool {
    match f {
        FilterSpec::Literal { pattern, case_sensitive } => if case_sensitive {
            occurs(encode_utf8(text), encode_utf8(pattern@))
        } else {
            occurs(
                ascii_uppercase(encode_utf8(text)),
                ascii_uppercase(encode_utf8(pattern@)),
            )
        },
        FilterSpec::Contains { needle } => occurs(encode_utf8(text), encode_utf8(needle@)),
        FilterSpec::ErrorLevel { min, max } => has_number_in(encode_utf8(text), min, max),
    }
}

/// Whether a line holds a number in `[min, max]`.
fn number_in_range(bytes: &[u8], min: u16, max: u16) -> (r: bool)
    ensures
        r == has_number_in(bytes@, min, max),
{
    let mut i: usize = 0;
    while i < bytes.len()
        invariant
            i <= bytes@.len(),
            0 < i < bytes@.len() && is_digit(bytes@[i as int]) ==> !is_digit(bytes@[i - 1]),
            forall|a: int, b: int| #[trigger]
                is_digit_run(bytes@, a, b) && a < i ==> !(min <= digits_value(bytes@, a, b) <= max),
        decreases bytes@.len() - i,
    {
        if bytes[i] >= 48 && bytes[i] <= 57 {
            let start: usize = i;
            let mut v: u32 = 0;
            while i < bytes.len() && bytes[i] >= 48 && bytes[i] <= 57
                invariant
                    start <= i <= bytes@.len(),
                    forall|k: int| start <= k < i ==> is_digit(#[trigger] bytes@[k]),
                    v <= 655_369,
                    v <= 65_535 ==> v == digits_value(bytes@, start as int, i as int),
                    v > 65_535 ==> digits_value(bytes@, start as int, i as int) > 65_535,
                decreases bytes@.len() - i,
            {
                if v <= 65_535 {
                    v = v * 10 + (bytes[i] - 48) as u32;
                }
                i = i + 1;
            }
            assert(is_digit(bytes@[start as int]));
            assert(is_digit_run(bytes@, start as int, i as int));
            if v >= min as u32 && v <= max as u32 {
                return true;
            }
            assert forall|a: int, b: int| #[trigger] is_digit_run(bytes@, a, b) && a < i implies !(
            min <= digits_value(bytes@, a, b) <= max) by {
                if a >= start {
                    if a > start {
                        assert(is_digit(bytes@[a - 1]));
                    }
                    if b < i {
                        assert(is_digit(bytes@[b]));
                    } else if b > i {
                        assert(is_digit(bytes@[i as int]));
                    }
                }
            }
        } else {
            i = i + 1;
        }
    }
    assert forall|a: int, b: int| #[trigger] is_digit_run(bytes@, a, b) implies !(min
        <= digits_value(bytes@, a, b) <= max) by {}
    false
}

/// Whether a line passes a filter.
pub fn filter_matches_line(f: &FilterSpec, text: &str) -> (r: bool)
    ensures
        r == passes(*f, text@),
{
    match f {
        FilterSpec::Literal { pattern, case_sensitive } => {
            if *case_sensitive {
                contains(text.as_bytes(), pattern.as_str().as_bytes())
            } else {
                let hay: Vec<u8> = to_ascii_uppercase(text.as_bytes());
                let needle: Vec<u8> = to_ascii_uppercase(pattern.as_str().as_bytes());
                contains(hay.as_slice(), needle.as_slice())
            }
        },
        FilterSpec::Contains { needle } => contains(text.as_bytes(), needle.as_str().as_bytes()),
        FilterSpec::ErrorLevel { min, max } => number_in_range(text.as_bytes(), *min, *max),
    }
}

// ---------------------------------------------------------------------------
// Table from characters to bytes
// ---------------------------------------------------------------------------

/// A table of samples (character index, byte offset) of a text, from its start
/// on, in ascending order.
pub open spec fn is_sample_table(table: Seq<(usize, usize)>, text: Seq<char>) -> bool {
    &&& text.len() > 0 ==> table.len() > 0 && table[0].0 == 0
    &&& forall|k: int|
        0 <= k < table.len() ==> (#[trigger] table[k]).0 <= text.len() && table[k].1 == byte_at(
            text,
            table[k].0 as int,
        )
    &&& forall|j: int, k: int|
        #![trigger table[j], table[k]]
        0 <= j < k < table.len() ==> table[j].0 < table[k].0
}

/// The table with a sample at every 1024th character.
pub open spec fn is_byte_index(table: Seq<(usize, usize)>, text: Seq<char>) -> bool {
    &&& table.len() == (text.len() + BYTE_INDEX_STRIDE - 1) / BYTE_INDEX_STRIDE as int
    &&& forall|k: int|
        0 <= k < table.len() ==> (#[trigger] table[k]).0 == k * BYTE_INDEX_STRIDE && table[k].1
            == byte_at(text, k * BYTE_INDEX_STRIDE)
}

/// The table of every 1024th character is a table of samples.
pub proof fn lemma_byte_index_samples(table: Seq<(usize, usize)>, text: Seq<char>)
    requires
        is_byte_index(table, text),
    ensures
        is_sample_table(table, text),
{
}

/// Byte offset of character `char_pos`, by the nearest sample before it and a
/// short walk; the length of the text where it has no such character.
pub fn char_pos_to_byte_pos(byte_index: &[(usize, usize)], text: &str, char_pos: usize) -> (r:
    usize)
    requires
        is_sample_table(byte_index@, text@),
        char_pos == 0 || text@.len() > 0,
    ensures
        char_pos <= text@.len() ==> r == byte_at(text@, char_pos as int),
        char_pos >= text@.len() ==> r == utf8_len(text@),
{
    let total: usize = text.as_bytes().len();
    proof {
        lemma_offsets_ends(text@);
        lemma_offsets_monotone(text@, 0, text@.len() as int);
    }
    if char_pos == 0 {
        return 0;
    }
    let mut lo: usize = 0;
    let mut hi: usize = byte_index.len() - 1;
    assert(byte_index@[0].0 == 0);
    while lo < hi
        invariant
            is_sample_table(byte_index@, text@),
            lo <= hi < byte_index@.len(),
            byte_index@[lo as int].0 <= char_pos,
        decreases hi - lo,
    {
        let mid: usize = hi - (hi - lo) / 2;
        if byte_index[mid].0 <= char_pos {
            lo = mid;
        } else {
            hi = mid - 1;
        }
    }
    let (anchor_char, anchor_byte) = byte_index[lo];
    if anchor_char == char_pos {
        return anchor_byte;
    }
    proof {
        lemma_boundary_of_char(text@, anchor_char as int);
        lemma_offsets_monotone(text@, anchor_char as int, text@.len() as int);
    }
    let (_head, tail) = text.split_at(anchor_byte);
    proof {
        lemma_encode_injective(tail@, text@.skip(anchor_char as int));
    }
    let mut count: usize = anchor_char;
    let mut byte: usize = anchor_byte;
    for c in it: tail.chars()
        invariant
            it.seq() == tail@,
            tail@ == text@.skip(anchor_char as int),
            anchor_char < char_pos,
            anchor_char <= text@.len(),
            total == utf8_len(text@),
            text@.len() <= total,
            count == anchor_char + it.index(),
            count <= char_pos,
            byte == byte_at(text@, count as int),
    {
        if count == char_pos {
            return byte;
        }
        proof {
            assert(c == text@[count as int]);
            lemma_byte_at_step(text@, count as int);
            lemma_offsets_monotone(text@, count + 1, text@.len() as int);
        }
        byte = byte + len_utf8(c);
        count = count + 1;
    }
    total
}

/// Builds the table from characters to bytes: the byte offset of every 1024th
/// character.
pub fn build_byte_index(text: &str) -> (r: Vec<(usize, usize)>)
    ensures
        is_byte_index(r@, text@),
{
    let total: usize = text.as_bytes().len();
    let mut out: Vec<(usize, usize)> = Vec::new();
    let mut char_count: usize = 0;
    let mut byte: usize = 0;
    proof {
        lemma_offsets_ends(text@);
        lemma_offsets_monotone(text@, 0, text@.len() as int);
    }
    for c in it: text.chars()
        invariant
            it.seq() == text@,
            total == utf8_len(text@),
            text@.len() <= total,
            char_count == it.index(),
            byte == byte_at(text@, char_count as int),
            out@.len() == (char_count + BYTE_INDEX_STRIDE - 1) / BYTE_INDEX_STRIDE as int,
            forall|k: int|
                0 <= k < out@.len() ==> (#[trigger] out@[k]).0 == k * BYTE_INDEX_STRIDE
                    && out@[k].1 == byte_at(text@, k * BYTE_INDEX_STRIDE),
    {
        proof {
            lemma_byte_at_step(text@, char_count as int);
            lemma_offsets_monotone(text@, char_count + 1, text@.len() as int);
        }
        if char_count % BYTE_INDEX_STRIDE == 0 {
            assert(char_count == (char_count / BYTE_INDEX_STRIDE) * BYTE_INDEX_STRIDE);
            assert(out@.len() == char_count / BYTE_INDEX_STRIDE);
            out.push((char_count, byte));
        }
        byte = byte + len_utf8(c);
        char_count = char_count + 1;
    }
    out
}

// ---------------------------------------------------------------------------
// Laws
// ---------------------------------------------------------------------------

/// Sizes are given as in the rest of the program, up to TiB.
pub proof fn law_sizes_are_given_alike(n: u64, r: String, same: String)
    requires
        call_ensures(human_bytes, (n,), r),
        call_ensures(crate::decimal::human, (n, 4u64), same),
    ensures
        r@ == same@,
{
}

/// A line has the colour of its level, and one without a level has none.
pub proof fn law_lines_have_the_colour_of_their_level(
    text: &str,
    theme: &LevelColors,
    level: Option<Level>,
    r: Option<Color>,
    direct: Option<Color>,
)
    requires
        call_ensures(level_of_line, (text,), level),
        call_ensures(level_color, (text, theme), r),
        call_ensures(color_for_level, (level, theme), direct),
    ensures
        r == direct,
        level == Some(Level::Error) ==> r == Some(theme.level_error),
        level == Some(Level::Warn) ==> r == Some(theme.level_warn),
        level == Some(Level::Info) ==> r == Some(theme.level_info),
        level == Some(Level::Debug) ==> r == Some(theme.level_debug),
        level == Some(Level::Trace) ==> r == Some(theme.level_trace),
        level is None ==> r is None,
{
}

/// A level word is found in a text as it is in its bytes.
pub proof fn law_words_are_found_in_texts(
    upper: &str,
    level: &str,
    u: &[u8],
    w: &[u8],
    r: bool,
    direct: bool,
)
    requires
        call_ensures(has_level, (upper, level), r),
        call_ensures(has_level_bytes, (u, w), direct),
        u@ == encode_utf8(upper@),
        w@ == encode_utf8(level@),
    ensures
        r == direct,
{
}

/// The ranges of a query that is no pattern are those of its bytes.
pub proof fn law_literal_queries_find_their_bytes<F: Fn(&[u8]) -> Vec<(usize, usize)>>(
    q: &Query,
    p: Vec<u8>,
    needle: &[u8],
    hay: &[u8],
    regex: F,
    limit: usize,
    r: Vec<(usize, usize)>,
    direct: Vec<(usize, usize)>,
)
    requires
        *q == Query::Literal(p),
        needle@ == p@,
        call_ensures(query_ranges_in::<F>, (q, hay, regex, limit), r),
        call_ensures(literal_ranges, (hay, needle, limit), direct),
    ensures
        r@ == direct@,
{
    assert forall|k: int| 0 <= k < r@.len() implies r@[k] == direct@[k] by {
        assert(r@[k].0 == match_ranges(hay@, p@, limit as nat)[k].0);
        assert(direct@[k].0 == match_ranges(hay@, needle@, limit as nat)[k].0);
    }
    assert(r@ =~= direct@);
}

/// A line that is put together from something, the text of a filter and something else
/// passes the filter, and a line passes only where the text stands in it.
pub proof fn law_lines_with_the_text_pass(
    f: &FilterSpec,
    text: &str,
    needle: String,
    before: Seq<char>,
    behind: Seq<char>,
    r: bool,
)
    requires
        call_ensures(filter_matches_line, (f, text), r),
        *f == (FilterSpec::Contains { needle }) || *f == (FilterSpec::Literal {
            pattern: needle,
            case_sensitive: true,
        }),
    ensures
        text@ == before + needle@ + behind ==> r,
        r ==> exists|i: int|
            0 <= i && i + encode_utf8(needle@).len() <= encode_utf8(text@).len()
                && #[trigger] encode_utf8(text@).subrange(i, i + encode_utf8(needle@).len())
                == encode_utf8(needle@),
{
    let hay = encode_utf8(text@);
    let n = encode_utf8(needle@);
    if text@ == before + needle@ + behind {
        crate::text::lemma_encode_concat(before, needle@);
        crate::text::lemma_encode_concat(before + needle@, behind);
        let i = encode_utf8(before).len() as int;
        assert(hay.subrange(i, i + n.len()) =~= n);
        assert(crate::occurrences::occurs_at(hay, n, i));
    }
    if r {
        let i = choose|i: int| crate::occurrences::occurs_at(hay, n, i);
        assert(hay.subrange(i, i + n.len()) == n);
    }
}

/// Without regard to case, texts that differ only in the case of ASCII letters pass alike.
pub proof fn law_case_can_be_disregarded(
    f: &FilterSpec,
    g: &FilterSpec,
    a: &str,
    b: &str,
    p: String,
    q: String,
    ra: bool,
    rb: bool,
)
    requires
        *f == (FilterSpec::Literal { pattern: p, case_sensitive: false }),
        *g == (FilterSpec::Literal { pattern: q, case_sensitive: false }),
        call_ensures(filter_matches_line, (f, a), ra),
        call_ensures(filter_matches_line, (g, b), rb),
        differ_in_case(encode_utf8(a@), encode_utf8(b@)),
        differ_in_case(encode_utf8(p@), encode_utf8(q@)),
    ensures
        ra == rb,
{
    assert(ascii_uppercase(encode_utf8(a@)) =~= ascii_uppercase(encode_utf8(b@)));
    assert(ascii_uppercase(encode_utf8(p@)) =~= ascii_uppercase(encode_utf8(q@)));
}

/// Two byte strings differ at most in the case of ASCII letters.
pub open spec fn differ_in_case(a: Seq<u8>, b: Seq<u8>) -> bool {
    &&& a.len() == b.len()
    &&& forall|i: int|
        0 <= i < a.len() ==> {
            let x = #[trigger] a[i] as int;
            let y = b[i] as int;
            x == y || (65 <= x <= 90 && y == x + 32) || (65 <= y <= 90 && x == y + 32)
        }
}

/// A text with a number in it that stands by itself passes a filter on numbers where the
/// number lies in its range; a text without digits never does.
pub proof fn law_numbers_in_range_pass(
    f: &FilterSpec,
    min: u16,
    max: u16,
    text: &str,
    before: Seq<u8>,
    digits: Seq<u8>,
    behind: Seq<u8>,
    r: bool,
)
    requires
        *f == (FilterSpec::ErrorLevel { min, max }),
        call_ensures(filter_matches_line, (f, text), r),
        encode_utf8(text@) == before + digits + behind,
        digits.len() > 0,
        forall|i: int| 0 <= i < digits.len() ==> '0' as u32 <= #[trigger] digits[i] <= '9' as u32,
        before.len() == 0 || !('0' as u32 <= before.last() <= '9' as u32),
        behind.len() == 0 || !('0' as u32 <= behind[0] <= '9' as u32),
    ensures
        min <= number_of_digits(digits) <= max ==> r,
        (forall|i: int| 0 <= i < before.len() ==> !('0' as u32 <= #[trigger] before[i] <= '9' as u32))
            && (forall|i: int|
            0 <= i < behind.len() ==> !('0' as u32 <= #[trigger] behind[i] <= '9' as u32)) ==> r == (
        min <= number_of_digits(digits) <= max),
{
    let all = encode_utf8(text@);
    let i = before.len() as int;
    let j = i + digits.len();
    assert forall|k: int| i <= k < j implies is_digit(#[trigger] all[k]) by {
        assert(all[k] == digits[k - i]);
    }
    if i > 0 {
        assert(all[i - 1] == before.last());
    }
    if j < all.len() {
        assert(all[j] == behind[0]);
    }
    assert(is_digit_run(all, i, j));
    lemma_digits(all, i, digits, digits.len() as int);
    assert(digits.take(digits.len() as int) =~= digits);
    if (forall|k: int| 0 <= k < before.len() ==> !('0' as u32 <= #[trigger] before[k] <= '9' as u32))
        && (forall|k: int|
        0 <= k < behind.len() ==> !('0' as u32 <= #[trigger] behind[k] <= '9' as u32)) && r {
        let (a, b) = choose|a: int, b: int| #[trigger]
            is_digit_run(all, a, b) && min <= digits_value(all, a, b) <= max;
        assert(is_digit(all[a]));
        if a < i {
            assert(all[a] == before[a]);
        } else if a >= j {
            assert(all[a] == behind[a - j]);
        } else if a > i {
            assert(is_digit(all[a - 1]));
        }
        if b < j {
            assert(is_digit(all[b]));
        } else if b > j {
            assert(is_digit(all[j]));
        }
    }
}

/// Number that a row of digits stands for.
pub open spec fn number_of_digits(digits: Seq<u8>) -> int
    decreases digits.len(),
{
    if digits.len() == 0 {
        0
    } else {
        10 * number_of_digits(digits.drop_last()) + (digits.last() - '0' as u32)
    }
}

proof fn lemma_digits(all: Seq<u8>, i: int, digits: Seq<u8>, n: int)
    requires
        0 <= i,
        0 <= n <= digits.len(),
        i + digits.len() <= all.len(),
        forall|k: int| 0 <= k < digits.len() ==> all[i + k] == #[trigger] digits[k],
        forall|k: int| 0 <= k < digits.len() ==> 48 <= #[trigger] digits[k] <= 57,
    ensures
        digits_value(all, i, i + n) == number_of_digits(digits.take(n)),
    decreases n,
{
    if n > 0 {
        lemma_digits(all, i, digits, n - 1);
        assert(digits.take(n).drop_last() =~= digits.take(n - 1));
        assert(all[i + (n - 1)] == digits[n - 1]);
    }
}

/// The place of a character is found through the table of its text: the bytes of the
/// characters in front of it.
pub proof fn law_characters_are_found_through_the_table(
    text: &str,
    table: Vec<(usize, usize)>,
    slice: &[(usize, usize)],
    before: Seq<char>,
    behind: Seq<char>,
    r: usize,
)
    requires
        call_ensures(build_byte_index, (text,), table),
        slice@ == table@,
        text@ == before + behind,
        before.len() <= usize::MAX,
        call_ensures(char_pos_to_byte_pos, (slice, text, before.len() as usize), r),
    ensures
        r == encode_utf8(before).len(),
{
    assert(text@.take(before.len() as int) =~= before);
}

/// The table has an entry for every 1024th character of its text, from the first on.
pub proof fn law_the_table_has_an_entry_for_every_stride(text: &str, r: Vec<(usize, usize)>, k: int)
    requires
        call_ensures(build_byte_index, (text,), r),
        0 <= k < r@.len(),
    ensures
        r@[k].0 == 1024 * k,
        1024 * k < text@.len(),
        1024 * r@.len() >= text@.len(),
        r@[k].1 == encode_utf8(text@.take(1024 * k)).len(),
{
}

} // verus!
