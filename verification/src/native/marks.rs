//! What is painted over and under the text of a row: search matches, the
//! selection, indent guides, marks for white space, line numbers.

use vstd::prelude::*;
use vstd::utf8::encode_utf8;

use crate::bounds::{max_int, min_int};
use crate::decimal::{align_right, decimal, decimal_string, pad_left};
use crate::egui::highlight::hit_in;
use crate::levels::{
    ascii_uppercase, has_level_bytes, level_of, level_of_ascii_line, marks_level, Level,
};
use crate::native::layout::{fits_i32, prefix_width, width_sum, VisualRow};
use crate::native::selection::Selection;
use crate::native::theme::{Rgb, ThemeColors};
use crate::text::{
    byte_at, char_holding_byte, char_index, len_utf16, len_utf8, lemma_byte_at_step,
    lemma_char_index, lemma_char_index_behind, lemma_encode_one, lemma_offsets_ends,
    lemma_offsets_monotone, lemma_unit_at_step, unit_at, utf8_len,
};
use crate::utf16::{encode, lemma_encode_concat, lemma_encode_len};

verus! {

broadcast use vstd::string::group_string_axioms;

/// Columns that a tab indents by, and between two indent guides.
pub const TAB_COLS: usize = 4;

/// Code unit of a blank.
pub const BLANK_UNIT: u16 = 0x20;

/// Code unit of a tab.
pub const TAB_UNIT: u16 = 0x09;

// ---------------------------------------------------------------------------
// Level colours
// ---------------------------------------------------------------------------

/// Colour of a level in a theme.
pub open spec fn color_of_level(level: Option<Level>, theme: ThemeColors) -> Option<Rgb> {
    match level {
        Some(Level::Error) => Some(theme.level_error),
        Some(Level::Warn) => Some(theme.level_warn),
        Some(Level::Info) => Some(theme.level_info),
        Some(Level::Debug) => Some(theme.level_debug),
        Some(Level::Trace) => Some(theme.level_trace),
        None => None,
    }
}

/// Colour of a line that carries a level marker; only ASCII letters are taken
/// to upper case.
pub fn level_color(text: &str, theme: &ThemeColors) -> (r: Option<Rgb>)
    ensures
        r == color_of_level(level_of(ascii_uppercase(encode_utf8(text@))), *theme),
{
    match level_of_ascii_line(text) {
        Some(Level::Error) => Some(theme.level_error),
        Some(Level::Warn) => Some(theme.level_warn),
        Some(Level::Info) => Some(theme.level_info),
        Some(Level::Debug) => Some(theme.level_debug),
        Some(Level::Trace) => Some(theme.level_trace),
        None => None,
    }
}

/// Whether the bytes `u` carry the level word `l` as a marker; none carries the
/// empty word.
pub fn has_level(u: &[u8], l: &[u8]) -> (r: bool)
    ensures
        r == (l@.len() > 0 && marks_level(u@, l@)),
{
    if l.len() == 0 {
        return false;
    }
    has_level_bytes(u, l)
}

// ---------------------------------------------------------------------------
// Matches
// ---------------------------------------------------------------------------

/// Fills `out` with the code unit offset of every byte of a text: that of the
/// character that holds it, and for the end the length of the text.
pub fn build_byte_to_unit(text: &str, out: &mut Vec<usize>)
    ensures
        final(out)@.len() == utf8_len(text@) + 1,
        forall|b: int|
            0 <= b <= utf8_len(text@) ==> #[trigger] final(out)@[b] == unit_at(
                text@,
                char_index(text@, b),
            ),
{
    let total: usize = text.as_bytes().len();
    out.clear();
    let mut u: usize = 0;
    proof {
        lemma_offsets_ends(text@);
        lemma_offsets_monotone(text@, 0, text@.len() as int);
    }
    for ch in it: text.chars()
        invariant
            it.seq() == text@,
            total == utf8_len(text@),
            u == unit_at(text@, it.index() as int),
            out@.len() == byte_at(text@, it.index() as int),
            forall|b: int|
                0 <= b < out@.len() ==> #[trigger] out@[b] == unit_at(text@, char_index(text@, b)),
    {
        let ghost k = it.index() as int;
        let blen: usize = len_utf8(ch);
        proof {
            lemma_byte_at_step(text@, k);
            lemma_unit_at_step(text@, k);
            lemma_offsets_monotone(text@, k + 1, text@.len() as int);
        }
        let mut j: usize = 0;
        while j < blen
            invariant
                0 <= k < text@.len(),
                j <= blen,
                u == unit_at(text@, k),
                blen == byte_at(text@, k + 1) - byte_at(text@, k),
                byte_at(text@, k + 1) <= utf8_len(text@),
                out@.len() == byte_at(text@, k) + j,
                forall|b: int|
                    0 <= b < out@.len() ==> #[trigger] out@[b] == unit_at(
                        text@,
                        char_index(text@, b),
                    ),
            decreases blen - j,
        {
            proof {
                let b = out@.len() as int;
                lemma_char_index(text@, b);
                assert(char_holding_byte(text@, b, k));
            }
            out.push(u);
            j = j + 1;
        }
        u = u + len_utf16(ch);
    }
    proof {
        let b = utf8_len(text@) as int;
        lemma_char_index(text@, b);
        assert(char_holding_byte(text@, b, text@.len() as int));
    }
    out.push(u);
}

/// A match in a line: code units `[start, end)`, and whether the search stands
/// on it.
#[derive(Clone, Copy, Debug, PartialEq, Eq, Structural)]
pub struct UnitMatch {
    pub start: usize,
    pub end: usize,
    pub current: bool,
}

/// The match at a byte range of a line.
pub open spec fn unit_match(
    text: Seq<char>,
    range: (usize, usize),
    line_start: u64,
    hit: Option<u64>,
) -> UnitMatch {
    let start = unit_at(text, char_index(text, range.0 as int)) as usize;
    UnitMatch {
        start,
        end: if range.1 <= utf8_len(text) {
            unit_at(text, char_index(text, range.1 as int)) as usize
        } else {
            start
        },
        current: hit_in(hit, line_start + range.0, line_start + range.1),
    }
}

/// Matches of a line, from the byte ranges of a search. The one that holds the
/// byte on which the search stands is the current one.
pub fn line_matches(
    text: &str,
    ranges: &Vec<(usize, usize)>,
    line_start: u64,
    hit: Option<u64>,
) -> (r: Vec<UnitMatch>)
    requires
        forall|i: int|
            0 <= i < ranges@.len() ==> (#[trigger] ranges@[i]).0 <= utf8_len(text@) && line_start
                + ranges@[i].1 <= u64::MAX && ranges@[i].0 <= ranges@[i].1,
    ensures
        r@ == Seq::new(
            ranges@.len(),
            |i: int| unit_match(text@, ranges@[i], line_start, hit),
        ),
{
    let mut b2u: Vec<usize> = Vec::new();
    build_byte_to_unit(text, &mut b2u);
    let mut out: Vec<UnitMatch> = Vec::new();
    let mut i: usize = 0;
    while i < ranges.len()
        invariant
            i <= ranges@.len(),
            forall|k: int|
                0 <= k < ranges@.len() ==> (#[trigger] ranges@[k]).0 <= utf8_len(text@)
                    && line_start + ranges@[k].1 <= u64::MAX && ranges@[k].0 <= ranges@[k].1,
            b2u@.len() == utf8_len(text@) + 1,
            forall|b: int|
                0 <= b <= utf8_len(text@) ==> #[trigger] b2u@[b] == unit_at(
                    text@,
                    char_index(text@, b),
                ),
            out@.len() == i,
            forall|k: int|
                0 <= k < i ==> #[trigger] out@[k] == unit_match(text@, ranges@[k], line_start, hit),
        decreases ranges@.len() - i,
    {
        let (a, b) = ranges[i];
        let start: usize = b2u[a];
        let end: usize = if b < b2u.len() {
            b2u[b]
        } else {
            start
        };
        let current: bool = match hit {
            Some(h) => h >= line_start + a as u64 && h < line_start + b as u64,
            None => false,
        };
        out.push(UnitMatch { start, end, current });
        i = i + 1;
    }
    assert(out@ =~= Seq::new(
        ranges@.len(),
        |k: int| unit_match(text@, ranges@[k], line_start, hit),
    ));
    out
}

/// Code units that a range has in common with a row.
pub open spec fn in_row(start: usize, end: usize, row: VisualRow) -> Option<(int, int)> {
    if end <= row.start || start >= row.end {
        None
    } else {
        Some((max_int(start as int, row.start as int), min_int(end as int, row.end as int)))
    }
}

/// Code units of a match that stand in a row.
pub fn match_in_row(m: &UnitMatch, row: &VisualRow) -> (r: Option<(usize, usize)>)
    ensures
        match r {
            Some(s) => in_row(m.start, m.end, *row) == Some((s.0 as int, s.1 as int)),
            None => in_row(m.start, m.end, *row) is None,
        },
{
    clip_to_row(m.start, m.end, row)
}

fn clip_to_row(start: usize, end: usize, row: &VisualRow) -> (r: Option<(usize, usize)>)
    ensures
        match r {
            Some(s) => in_row(start, end, *row) == Some((s.0 as int, s.1 as int)),
            None => in_row(start, end, *row) is None,
        },
{
    if end <= row.start || start >= row.end {
        return None;
    }
    let a: usize = if start >= row.start {
        start
    } else {
        row.start
    };
    let b: usize = if end <= row.end {
        end
    } else {
        row.end
    };
    Some((a, b))
}

/// Columns of a line of `cols` code units that a selection takes.
pub open spec fn selected_cols(sel: Selection, line: u64, cols: int) -> Option<(int, int)> {
    let (sl, sc, el, ec) = sel.ends();
    let a = min_int(
        if line == sl {
            sc as int
        } else {
            0
        },
        cols,
    );
    let b = min_int(
        max_int(
            if line == el {
                ec as int
            } else {
                cols
            },
            a,
        ),
        cols,
    );
    if sl <= line <= el {
        Some((a, b))
    } else {
        None
    }
}

/// Code units of a row that a selection takes.
pub fn selection_in_row(sel: &Selection, line: u64, cols: usize, row: &VisualRow) -> (r: Option<
    (usize, usize),
>)
    ensures
        match selected_cols(*sel, line, cols as int) {
            Some(c) => match r {
                Some(s) => in_row(c.0 as usize, c.1 as usize, *row) == Some(
                    (s.0 as int, s.1 as int),
                ),
                None => in_row(c.0 as usize, c.1 as usize, *row) is None,
            },
            None => r is None,
        },
{
    let (sl, sc, el, ec) = sel.normalized();
    if line < sl || line > el {
        return None;
    }
    let from: usize = if line == sl {
        sc
    } else {
        0
    };
    let a: usize = if from <= cols {
        from
    } else {
        cols
    };
    let to: usize = if line == el {
        ec
    } else {
        cols
    };
    let b: usize = if to < a {
        a
    } else if to <= cols {
        to
    } else {
        cols
    };
    clip_to_row(a, b, row)
}

/// Left and right edge of a mark over the code units `[a, b)`: at least one
/// pixel wide.
pub fn mark_edges(content_x: i32, char_w: &Vec<i32>, a: usize, b: usize) -> (r: (i32, i32))
    requires
        a <= char_w@.len(),
        b <= char_w@.len(),
        forall|j: int|
            0 <= j <= char_w@.len() ==> fits_i32(#[trigger] width_sum(char_w@, 0, j)) && fits_i32(
                content_x + width_sum(char_w@, 0, j) + 1,
            ) && fits_i32(content_x + width_sum(char_w@, 0, j)),
    ensures
        r.0 == content_x + width_sum(char_w@, 0, a as int),
        r.1 == max_int(content_x + width_sum(char_w@, 0, b as int), r.0 + 1),
{
    let x0: i32 = content_x + prefix_width(char_w.as_slice(), 0, a);
    let x1: i32 = content_x + prefix_width(char_w.as_slice(), 0, b);
    if x1 >= x0 + 1 {
        (x0, x1)
    } else {
        (x0, x0 + 1)
    }
}

// ---------------------------------------------------------------------------
// Indent guides and white space
// ---------------------------------------------------------------------------

/// Columns of a character of the indent; `None` for one that ends it.
pub open spec fn indent_cols(c: char) -> Option<nat> {
    if c == ' ' {
        Some(1)
    } else if c == '\t' {
        Some(TAB_COLS as nat)
    } else {
        None
    }
}

/// Columns by which a text is indented.
pub open spec fn indent_of(s: Seq<char>) -> nat
    decreases s.len(),
{
    if s.len() == 0 {
        0
    } else {
        match indent_cols(s[0]) {
            Some(n) => n + indent_of(s.skip(1)),
            None => 0,
        }
    }
}

/// Columns by which a line is indented: one for a blank, four for a tab.
pub fn leading_cols(text: &str) -> (r: usize)
    requires
        4 * text@.len() <= usize::MAX,
    ensures
        r == indent_of(text@),
{
    let mut cols: usize = 0;
    assert(text@.skip(0) =~= text@);
    for c in it: text.chars()
        invariant
            it.seq() == text@,
            4 * text@.len() <= usize::MAX,
            cols <= 4 * it.index(),
            indent_of(text@) == cols + indent_of(text@.skip(it.index() as int)),
    {
        let ghost k = it.index() as int;
        assert(text@.skip(k)[0] == c);
        assert(text@.skip(k).skip(1) =~= text@.skip(k + 1));
        if c == ' ' {
            cols = cols + 1;
        } else if c == '\t' {
            cols = cols + TAB_COLS;
        } else {
            return cols;
        }
    }
    assert(text@.skip(text@.len() as int) =~= Seq::<char>::empty());
    cols
}

/// Pixel of indent guide `i` (from 0): one at every fourth column.
pub open spec fn guide_x(content_x: int, avg_char_w: int, i: int) -> int {
    content_x + (TAB_COLS * (i + 1)) * avg_char_w
}

/// Guides of a line, from left to right: those within its indent and left of
/// the edge of the text. `n` is their largest possible number.
pub open spec fn guides(content_x: int, avg_char_w: int, text_right: int, n: int) -> Seq<int>
    decreases n,
{
    if n <= 0 {
        Seq::empty()
    } else {
        let front = guides(content_x, avg_char_w, text_right, n - 1);
        let x = guide_x(content_x, avg_char_w, n - 1);
        if x < text_right {
            front.push(x)
        } else {
            front
        }
    }
}

/// Pixels at which the indent guides of a line stand.
pub fn indent_guides(cols: usize, content_x: i32, avg_char_w: i32, text_right: i32) -> (r: Vec<i32>)
    requires
        cols <= i32::MAX,
        0 <= avg_char_w,
    ensures
        r@.len() == guides(
            content_x as int,
            avg_char_w as int,
            text_right as int,
            cols as int / 4,
        ).len(),
        forall|i: int|
            0 <= i < r@.len() ==> #[trigger] r@[i] == guides(
                content_x as int,
                avg_char_w as int,
                text_right as int,
                cols as int / 4,
            )[i],
{
    let mut out: Vec<i32> = Vec::new();
    let n: usize = cols / 4;
    let mut i: usize = 0;
    while i < n
        invariant
            i <= n,
            n == cols / 4,
            cols <= i32::MAX,
            0 <= avg_char_w,
            out@.len() == guides(
                content_x as int,
                avg_char_w as int,
                text_right as int,
                i as int,
            ).len(),
            forall|k: int|
                0 <= k < out@.len() ==> #[trigger] out@[k] == guides(
                    content_x as int,
                    avg_char_w as int,
                    text_right as int,
                    i as int,
                )[k],
        decreases n - i,
    {
        let col: i64 = 4 * (i as i64 + 1);
        assert(0 <= col * avg_char_w <= 0x8000_0000 * 0x8000_0000) by (nonlinear_arith)
            requires
                0 <= col <= 0x8000_0000,
                0 <= avg_char_w <= 0x8000_0000,
        ;
        let x: i64 = content_x as i64 + col * avg_char_w as i64;
        assert(x == guide_x(content_x as int, avg_char_w as int, i as int));
        if x < text_right as i64 {
            assert(x >= content_x);
            out.push(x as i32);
        }
        i = i + 1;
    }
    out
}

/// How a code unit of white space is marked.
#[derive(Clone, Copy, Debug, PartialEq, Eq, Structural)]
pub enum SpaceMark {
    /// A dot in the middle of a blank.
    Dot,
    /// An arrow for a tab.
    Arrow,
}

/// Mark of a code unit.
pub open spec fn mark_of(u: u16) -> Option<SpaceMark> {
    if u == BLANK_UNIT {
        Some(SpaceMark::Dot)
    } else if u == TAB_UNIT {
        Some(SpaceMark::Arrow)
    } else {
        None
    }
}

/// Marks of the first `n` code units of a row, with their places.
pub open spec fn marks(units: Seq<u16>, start: int, n: int) -> Seq<(int, SpaceMark)>
    decreases n,
{
    if n <= 0 {
        Seq::empty()
    } else {
        let front = marks(units, start, n - 1);
        match mark_of(units[start + n - 1]) {
            Some(m) => front.push((start + n - 1, m)),
            None => front,
        }
    }
}

/// White space to mark in a row.
pub fn whitespace_marks(units: &Vec<u16>, row: &VisualRow) -> (r: Vec<(usize, SpaceMark)>)
    requires
        row.start <= row.end <= units@.len(),
    ensures
        r@.len() == marks(units@, row.start as int, row.end - row.start).len(),
        forall|i: int|
            0 <= i < r@.len() ==> (#[trigger] r@[i]).0 == marks(
                units@,
                row.start as int,
                row.end - row.start,
            )[i].0 && r@[i].1 == marks(units@, row.start as int, row.end - row.start)[i].1,
{
    let mut out: Vec<(usize, SpaceMark)> = Vec::new();
    let mut k: usize = row.start;
    while k < row.end
        invariant
            row.start <= k <= row.end <= units@.len(),
            out@.len() == marks(units@, row.start as int, k - row.start).len(),
            forall|i: int|
                0 <= i < out@.len() ==> (#[trigger] out@[i]).0 == marks(
                    units@,
                    row.start as int,
                    k - row.start,
                )[i].0 && out@[i].1 == marks(units@, row.start as int, k - row.start)[i].1,
        decreases row.end - k,
    {
        let u: u16 = units[k];
        if u == BLANK_UNIT {
            out.push((k, SpaceMark::Dot));
        } else if u == TAB_UNIT {
            out.push((k, SpaceMark::Arrow));
        }
        k = k + 1;
    }
    out
}

// ---------------------------------------------------------------------------
// Rows
// ---------------------------------------------------------------------------

/// Whether a row at `row_y` can be seen in a view of height `h` at `top`.
pub fn row_visible(row_y: i32, row_h: i32, top: i32, h: i32) -> (r: bool)
    ensures
        r == (row_y + row_h > top && row_y < top + h),
{
    row_y as i64 + row_h as i64 > top as i64 && (row_y as i64) < top as i64 + h as i64
}

/// Whether a line has the alternate background: every second one.
pub fn is_alternate(line: u64) -> (r: bool)
    ensures
        r == (line % 2 == 1),
{
    line % 2 == 1
}

/// Line number as it stands in the gutter, counted from 1.
pub fn gutter_label(line: u64) -> (r: String)
    requires
        line < u64::MAX,
    ensures
        r@ == pad_left(decimal((line + 1) as nat), 6) + " │"@,
{
    let number: String = decimal_string(line + 1);
    let mut out: String = align_right(number.as_str(), 6);
    out.append(" │");
    out
}

// ---------------------------------------------------------------------------
// Laws
// ---------------------------------------------------------------------------

/// What is marked in a row lies in it.
pub proof fn law_marks_stay_in_their_row(start: usize, end: usize, row: VisualRow)
    ensures
        match in_row(start, end, row) {
            Some(s) => row.start <= s.0 && s.1 <= row.end,
            None => true,
        },
{
}

/// A range over the break between two rows is marked in both, without a gap.
pub proof fn law_marks_continue_over_rows(start: usize, end: usize, a: VisualRow, b: VisualRow)
    requires
        a.end == b.start,
        a.start <= start < a.end,
        b.start < end <= b.end,
    ensures
        in_row(start, end, a) == Some((start as int, a.end as int)),
        in_row(start, end, b) == Some((b.start as int, end as int)),
{
}

/// The offsets of a byte map never decrease.
pub proof fn law_byte_map_ascends(text: Seq<char>, a: int, b: int)
    requires
        0 <= a <= b <= utf8_len(text),
    ensures
        unit_at(text, char_index(text, a)) <= unit_at(text, char_index(text, b)),
{
    lemma_char_index(text, a);
    lemma_char_index(text, b);
    lemma_offsets_ends(text);
    let i = char_index(text, a);
    let j = char_index(text, b);
    if i > j {
        lemma_offsets_monotone(text, j + 1, i);
        lemma_offsets_monotone(text, i, text.len() as int);
    }
    lemma_offsets_monotone(text, i, j);
}

/// A match covers the units of the text that was found, also at the end of a line, and
/// it is the current one where the search stands in it.
pub proof fn law_matches_cover_what_was_found(
    text: &str,
    ranges: &Vec<(usize, usize)>,
    line_start: u64,
    hit: Option<u64>,
    r: Vec<UnitMatch>,
    i: int,
    before: Seq<char>,
    found: Seq<char>,
    behind: Seq<char>,
)
    requires
        call_ensures(line_matches, (text, ranges, line_start, hit), r),
        0 <= i < ranges@.len(),
        text@ == before + found + behind,
        ranges@[i].0 == encode_utf8(before).len(),
        ranges@[i].1 == encode_utf8(before).len() + encode_utf8(found).len(),
        encode_utf8(text@).len() <= usize::MAX,
    ensures
        r@.len() == ranges@.len(),
        r@[i].start == encode(before).len(),
        r@[i].end == encode(before).len() + encode(found).len(),
        encode(text@).subrange(r@[i].start as int, r@[i].end as int) == encode(found),
        found.len() > 0 ==> r@[i].start < r@[i].end,
        r@[i].current == (hit is Some && line_start + ranges@[i].0 <= hit->0 < line_start
            + ranges@[i].1),
{
    let s = text@;
    crate::text::lemma_encode_concat(before, found);
    crate::text::lemma_encode_concat(before + found, behind);
    lemma_char_index_behind(before, found + behind);
    assert(before + (found + behind) =~= s);
    lemma_char_index_behind(before + found, behind);
    lemma_encode_concat(before, found);
    lemma_encode_concat(before + found, behind);
    lemma_encode_len(before);
    lemma_encode_len(before + found);
    lemma_encode_len(found);
    lemma_offsets_ends(s);
    lemma_offsets_monotone(s, before.len() as int, (before + found).len() as int);
    lemma_offsets_monotone(s, (before + found).len() as int, s.len() as int);
    let a = encode(before).len() as int;
    let b = a + encode(found).len();
    assert(encode(s).subrange(a, b) =~= encode(found));
    assert(r@[i] == unit_match(s, ranges@[i], line_start, hit));
}

/// Every byte between two characters has the unit of the character that starts there,
/// and the bytes within a character that of the character.
pub proof fn law_bytes_have_the_unit_of_their_character(
    text: &str,
    out: &mut Vec<usize>,
    r: (),
    before: Seq<char>,
    c: char,
    behind: Seq<char>,
    j: int,
)
    requires
        call_ensures(build_byte_to_unit, (text, out), r),
        text@ == before + seq![c] + behind,
        0 <= j < encode_utf8(seq![c]).len(),
    ensures
        final(out)@.len() == encode_utf8(text@).len() + 1,
        final(out)@[encode_utf8(before).len() + j] == encode(before).len(),
        final(out)@.last() == encode(text@).len(),
{
    let s = text@;
    let k = before.len() as int;
    crate::text::lemma_encode_concat(before, seq![c]);
    crate::text::lemma_encode_concat(before + seq![c], behind);
    lemma_encode_len(before);
    lemma_encode_len(s);
    assert(s.take(k) =~= before);
    assert(s[k] == c);
    lemma_encode_one(c);
    lemma_byte_at_step(s, k);
    lemma_offsets_ends(s);
    let b = encode_utf8(before).len() + j;
    lemma_char_index(s, b);
    assert(char_holding_byte(s, b, k));
    lemma_char_index(s, utf8_len(s) as int);
    assert(char_holding_byte(s, utf8_len(s) as int, s.len() as int));
    assert(final(out)@[b] == unit_at(s, char_index(s, b)));
    assert(final(out)@[utf8_len(s) as int] == unit_at(s, char_index(s, utf8_len(s) as int)));
}

/// What is marked of a match in a row is what they have in common.
pub proof fn law_a_match_is_marked_where_it_stands(
    m: &UnitMatch,
    row: &VisualRow,
    r: Option<(usize, usize)>,
    k: int,
)
    requires
        call_ensures(match_in_row, (m, row), r),
    ensures
        (m.start <= k < m.end && row.start <= k < row.end) == match r {
            Some(s) => s.0 <= k < s.1,
            None => false,
        },
{
}

/// What is marked as selected in a row is what the selection takes of the line: a unit
/// of it is marked where it stands behind the earlier end and in front of the later.
pub proof fn law_selected_units_are_marked(
    sel: &Selection,
    line: u64,
    cols: usize,
    row: &VisualRow,
    r: Option<(usize, usize)>,
    k: int,
)
    requires
        call_ensures(selection_in_row, (sel, line, cols, row), r),
        sel.start_line < sel.end_line || (sel.start_line == sel.end_line && sel.start_col
            <= sel.end_col),
        0 <= k < cols,
        row.start <= k < row.end,
    ensures
        (match r {
            Some(s) => s.0 <= k < s.1,
            None => false,
        }) == ({
            &&& sel.start_line < line || (sel.start_line == line && sel.start_col <= k)
            &&& line < sel.end_line || (line == sel.end_line && k < sel.end_col)
        }),
{
}

/// Marks that follow each other touch: the right edge of one is the left edge of the
/// next, and both lie where the text is drawn.
pub proof fn law_marks_touch(
    content_x: i32,
    char_w: &Vec<i32>,
    a: usize,
    b: usize,
    c: usize,
    first: (i32, i32),
    second: (i32, i32),
)
    requires
        call_ensures(mark_edges, (content_x, char_w, a, b), first),
        call_ensures(mark_edges, (content_x, char_w, b, c), second),
        a < b <= char_w@.len(),
        forall|k: int| 0 <= k < char_w@.len() ==> #[trigger] char_w@[k] > 0,
    ensures
        first.1 == second.0,
        a == 0 ==> first.0 == content_x,
        b == a + 1 ==> first.1 - first.0 == char_w@[a as int],
        first.0 < first.1,
{
    lemma_widths_add(char_w@, a as int, b as int);
}

proof fn lemma_widths_add(w: Seq<i32>, a: int, b: int)
    requires
        0 <= a < b <= w.len(),
        forall|k: int| 0 <= k < w.len() ==> #[trigger] w[k] > 0,
    ensures
        width_sum(w, 0, a) < width_sum(w, 0, b),
        b == a + 1 ==> width_sum(w, 0, b) == width_sum(w, 0, a) + w[a],
    decreases b,
{
    assert(w[b - 1] > 0);
    if a + 1 < b {
        lemma_widths_add(w, a, b - 1);
    }
}

/// The colour of a line is that of its level, and a line without one has none.
pub proof fn law_lines_have_the_colour_of_their_level(
    text: &str,
    theme: &ThemeColors,
    level: Option<Level>,
    r: Option<Rgb>,
)
    requires
        call_ensures(level_of_ascii_line, (text,), level),
        call_ensures(level_color, (text, theme), r),
    ensures
        level == Some(Level::Error) ==> r == Some(theme.level_error),
        level == Some(Level::Warn) ==> r == Some(theme.level_warn),
        level == Some(Level::Info) ==> r == Some(theme.level_info),
        level == Some(Level::Debug) ==> r == Some(theme.level_debug),
        level == Some(Level::Trace) ==> r == Some(theme.level_trace),
        level is None ==> r is None,
{
}

/// A word that is found by its bytes is found here too, unless it is empty.
pub proof fn law_words_are_found(u: &[u8], l: &[u8], r: bool, direct: bool)
    requires
        call_ensures(has_level, (u, l), r),
        call_ensures(has_level_bytes, (u, l), direct),
    ensures
        l@.len() > 0 ==> r == direct,
        l@.len() == 0 ==> !r,
{
}

/// Each blank of the indent counts one column and each tab four, and what follows the
/// indent does not count.
pub proof fn law_indent_is_counted(text: &str, blanks: int, tabs: int, rest: Seq<char>, r: usize)
    requires
        call_ensures(leading_cols, (text,), r),
        0 <= blanks,
        0 <= tabs,
        text@ == Seq::new(blanks as nat, |i: int| ' ') + Seq::new(tabs as nat, |i: int| '\t') + rest,
        rest.len() == 0 || (rest[0] != ' ' && rest[0] != '\t'),
    ensures
        r == blanks + 4 * tabs,
{
    lemma_indent(blanks, tabs, rest);
}

proof fn lemma_indent(blanks: int, tabs: int, rest: Seq<char>)
    requires
        0 <= blanks,
        0 <= tabs,
        rest.len() == 0 || (rest[0] != ' ' && rest[0] != '\t'),
    ensures
        indent_of(
            Seq::new(blanks as nat, |i: int| ' ') + Seq::new(tabs as nat, |i: int| '\t') + rest,
        ) == blanks + 4 * tabs,
    decreases blanks + tabs,
{
    let s = Seq::new(blanks as nat, |i: int| ' ') + Seq::new(tabs as nat, |i: int| '\t') + rest;
    if blanks > 0 {
        lemma_indent(blanks - 1, tabs, rest);
        assert(s[0] == ' ');
        assert(s.skip(1) =~= Seq::new((blanks - 1) as nat, |i: int| ' ') + Seq::new(
            tabs as nat,
            |i: int| '\t',
        ) + rest);
    } else if tabs > 0 {
        lemma_indent(0, tabs - 1, rest);
        assert(s[0] == '\t');
        assert(s.skip(1) =~= Seq::new(0, |i: int| ' ') + Seq::new(
            (tabs - 1) as nat,
            |i: int| '\t',
        ) + rest);
    } else {
        assert(s =~= rest);
    }
}

/// Guides stand four columns apart, from four columns behind the start of the text on,
/// within the indent and left of the edge of the text, and none of those is left out.
pub proof fn law_guides_stand_four_columns_apart(
    cols: usize,
    content_x: i32,
    avg_char_w: i32,
    text_right: i32,
    r: Vec<i32>,
)
    requires
        call_ensures(indent_guides, (cols, content_x, avg_char_w, text_right), r),
        avg_char_w > 0,
    ensures
        forall|i: int|
            0 <= i < r@.len() ==> #[trigger] r@[i] == content_x + (4 * (i + 1)) * avg_char_w && r@[i]
                < text_right && 4 * (i + 1) <= cols,
        4 * (r@.len() + 1) <= cols ==> content_x + (4 * (r@.len() + 1)) * avg_char_w >= text_right,
{
    lemma_guides(content_x as int, avg_char_w as int, text_right as int, cols as int / 4);
}

proof fn lemma_guides(content_x: int, w: int, right: int, n: int)
    requires
        w > 0,
        n >= 0,
    ensures
        ({
            let g = guides(content_x, w, right, n);
            &&& g.len() <= n
            &&& forall|i: int|
                0 <= i < g.len() ==> #[trigger] g[i] == content_x + (4 * (i + 1)) * w && g[i] < right
            &&& g.len() < n ==> content_x + (4 * (g.len() + 1)) * w >= right
        }),
    decreases n,
{
    if n > 0 {
        lemma_guides(content_x, w, right, n - 1);
        let g = guides(content_x, w, right, n - 1);
        if g.len() < n - 1 {
            let k = g.len() as int;
            assert((4 * (k + 1)) * w <= (4 * n) * w) by (nonlinear_arith)
                requires
                    k + 1 <= n,
                    w > 0,
            ;
        }
    }
}

/// Every blank of a row is marked by a dot and every tab by an arrow, in the order in
/// which they stand there, and nothing else is marked.
pub proof fn law_white_space_is_marked(
    units: &Vec<u16>,
    row: &VisualRow,
    r: Vec<(usize, SpaceMark)>,
)
    requires
        call_ensures(whitespace_marks, (units, row), r),
        row.start <= row.end <= units@.len(),
    ensures
        forall|i: int|
            0 <= i < r@.len() ==> {
                &&& row.start <= (#[trigger] r@[i]).0 < row.end
                &&& units@[r@[i].0 as int] == ' ' as u32 && r@[i].1 == SpaceMark::Dot
                    || units@[r@[i].0 as int] == '\t' as u32 && r@[i].1 == SpaceMark::Arrow
            },
        forall|k: int|
            row.start <= k < row.end && (#[trigger] units@[k] == ' ' as u32 || units@[k]
                == '\t' as u32) ==> exists|i: int| 0 <= i < r@.len() && (#[trigger] r@[i]).0 == k,
        forall|i: int, j: int|
            #![trigger r@[i], r@[j]]
            0 <= i < j < r@.len() ==> r@[i].0 < r@[j].0,
{
    let n = row.end - row.start;
    let m = marks(units@, row.start as int, n);
    lemma_marks(units@, row.start as int, n);
    assert forall|k: int|
        row.start <= k < row.end && (#[trigger] units@[k] == ' ' as u32 || units@[k]
            == '\t' as u32) implies exists|i: int| 0 <= i < r@.len() && (#[trigger] r@[i]).0 == k by {
        assert(mark_of(units@[k]) is Some);
        let i = choose|i: int| 0 <= i < m.len() && (#[trigger] m[i]).0 == k;
        assert(r@[i].0 == k);
    }
}

proof fn lemma_marks(units: Seq<u16>, start: int, n: int)
    requires
        0 <= start,
        0 <= n,
        start + n <= units.len(),
    ensures
        ({
            let m = marks(units, start, n);
            &&& forall|i: int|
                0 <= i < m.len() ==> start <= (#[trigger] m[i]).0 < start + n && mark_of(
                    units[m[i].0],
                ) == Some(m[i].1)
            &&& forall|k: int|
                start <= k < start + n && mark_of(#[trigger] units[k]) is Some ==> exists|i: int|
                    0 <= i < m.len() && (#[trigger] m[i]).0 == k
            &&& forall|i: int, j: int|
                #![trigger m[i], m[j]]
                0 <= i < j < m.len() ==> m[i].0 < m[j].0
        }),
    decreases n,
{
    if n > 0 {
        lemma_marks(units, start, n - 1);
        let before = marks(units, start, n - 1);
        let m = marks(units, start, n);
        assert forall|k: int|
            start <= k < start + n && mark_of(#[trigger] units[k]) is Some implies exists|i: int|
            0 <= i < m.len() && (#[trigger] m[i]).0 == k by {
            if k < start + n - 1 {
                let i = choose|i: int| 0 <= i < before.len() && (#[trigger] before[i]).0 == k;
                assert(m[i] == before[i]);
            } else {
                assert(m[m.len() - 1].0 == k);
            }
        }
    }
}

/// A row is seen where one of its pixels lies in the view.
pub proof fn law_rows_in_the_view_are_seen(row_y: i32, row_h: i32, top: i32, h: i32, r: bool)
    requires
        call_ensures(row_visible, (row_y, row_h, top, h), r),
        row_h > 0,
        h > 0,
    ensures
        r == exists|y: int| row_y <= y < row_y + row_h && #[trigger] lies_in(y, top as int, h as int),
{
    if r {
        let y = max_int(row_y as int, top as int);
        assert(lies_in(y, top as int, h as int));
    }
}

/// A pixel row lies in a view.
pub open spec fn lies_in(y: int, top: int, h: int) -> bool {
    top <= y < top + h
}

/// Of two lines that follow each other one has the alternate background.
pub proof fn law_backgrounds_alternate(line: u64, a: bool, b: bool, first: bool)
    requires
        line < u64::MAX,
        call_ensures(is_alternate, (line,), a),
        call_ensures(is_alternate, ((line + 1) as u64,), b),
        call_ensures(is_alternate, (0u64,), first),
    ensures
        a != b,
        !first,
{
}

} // verus!
