//! The main view: scroll model, layout of the visible lines, highlights,
//! selection and hit tests.
//!
//! The view is positioned by visual rows. Without wrapping a row is a line of
//! the file; with wrapping a line counts as a fixed number of rows, and the
//! first visible line is found from that. Columns are UTF-16 code units.

use vstd::prelude::*;

use crate::bounds::{max_int, min_int};
use crate::native::layout::{
    fits_i32, is_wrapping, is_width_of, law_ordinary_widths_fit, line_char_widths,
    prefix_width, row_limit, width_sum, wrap_line_into, LaidLine, VisualRow, DEFAULT_CHAR_WIDTH,
};
use crate::native::scroll::MAX_ROW;
use crate::text::{utf16_len, RawLine};
use crate::utf16::{encode, encode_utf16, lemma_encode_len};

verus! {

broadcast use vstd::string::group_string_axioms;

/// Smallest font size.
pub const MIN_FONT_PX: i32 = 8;

/// Width of the vertical scroll bar.
pub const SCROLLBAR_W: i32 = 14;

/// What the painted view knows of itself, for hit tests.
pub struct ViewLayout {
    pub laid: Vec<LaidLine>,
    pub content_x: i32,
    pub gutter_w: i32,
    pub text_right: i32,
    pub view_top: i32,
    pub view_h: i32,
    pub row_h: i32,
}

impl Default for ViewLayout {
    fn default() -> (r: Self)
        ensures
            r.laid@.len() == 0,
            r.content_x == 0 && r.gutter_w == 0 && r.text_right == 0 && r.view_top == 0 && r.view_h
                == 0 && r.row_h == 0,
    {
        ViewLayout {
            laid: Vec::new(),
            content_x: 0,
            gutter_w: 0,
            text_right: 0,
            view_top: 0,
            view_h: 0,
            row_h: 0,
        }
    }
}

// ---------------------------------------------------------------------------
// Metrics
// ---------------------------------------------------------------------------

/// Height of a row under a font size.
pub fn row_height(font_size: i32) -> (r: i32)
    requires
        font_size <= i32::MAX - 5,
    ensures
        r == max_int(max_int(font_size as int, MIN_FONT_PX as int) + 5, 14),
        r >= 14,
{
    let size: i32 = if font_size >= MIN_FONT_PX {
        font_size
    } else {
        MIN_FONT_PX
    };
    let h: i32 = size + 5;
    if h >= 14 {
        h
    } else {
        14
    }
}

/// Font size that is to be loaded: 13 where none is set.
pub fn font_target(font_size_px: i32) -> (r: i32)
    ensures
        r == if font_size_px <= 0 {
            13
        } else {
            font_size_px as int
        },
{
    if font_size_px <= 0 {
        13
    } else {
        font_size_px
    }
}

/// Width of the text area between gutter and scroll bar, at least 40 pixels.
pub fn content_width(view_w: i32, gutter_w: i32) -> (r: i32)
    requires
        view_w - SCROLLBAR_W - gutter_w - 6 <= i32::MAX,
    ensures
        r == max_int(view_w - SCROLLBAR_W - gutter_w - 6, 40),
{
    let w: i64 = view_w as i64 - SCROLLBAR_W as i64 - gutter_w as i64 - 6;
    if w >= 40 {
        w as i32
    } else {
        40
    }
}

/// Rows that a line counts as: those of a line of 100 average characters, at
/// least 2, and 1 without wrapping.
pub open spec fn wrap_rows(word_wrap: bool, avg_char_w: int, content_w: int) -> int {
    if word_wrap {
        max_int((100 * avg_char_w + content_w - 1) / content_w, 2)
    } else {
        1
    }
}

/// Rows that a line counts as in the scroll model.
pub fn wrap_factor(word_wrap: bool, avg_char_w: i32, content_w: i32) -> (r: u32)
    requires
        0 <= avg_char_w,
        0 < content_w,
        wrap_rows(word_wrap, avg_char_w as int, content_w as int) <= u32::MAX,
    ensures
        r == wrap_rows(word_wrap, avg_char_w as int, content_w as int),
        r >= 1,
{
    if !word_wrap {
        return 1;
    }
    let a: i64 = 100 * avg_char_w as i64;
    let b: i64 = content_w as i64;
    let rows: i64 = (a + b - 1) / b;
    assert(0 <= rows <= a + b - 1) by (nonlinear_arith)
        requires
            rows == (a + b - 1) / (b as int),
            a >= 0,
            b >= 1,
    ;
    if rows >= 2 {
        rows as u32
    } else {
        2
    }
}

/// Rows on a page.
pub fn page_rows(view_h: i32, row_h: i32) -> (r: i64)
    requires
        row_h > 0,
    ensures
        r == max_int(max_int(view_h as int, 1) / row_h as int, 1),
{
    let h: i32 = if view_h >= 1 {
        view_h
    } else {
        1
    };
    let rows: i32 = h / row_h;
    if rows >= 1 {
        rows as i64
    } else {
        1
    }
}

/// Furthest row that can stand at the top: the one from which the rest still
/// fills the view, as far as whole rows go.
pub open spec fn furthest_top(total_rows: int, row_h: int, view_h: int) -> int {
    max_int((total_rows * row_h - max_int(view_h, 1)) / row_h, 0)
}

/// Keeps the top row in the range in which there is text to show.
pub fn clamp_top(y: i64, total_rows: u64, row_h: i32, view_h: i32) -> (r: i64)
    requires
        0 < row_h,
        total_rows * row_h <= MAX_ROW,
    ensures
        r == min_int(y as int, furthest_top(total_rows as int, row_h as int, view_h as int)),
{
    let h: i64 = if view_h >= 1 {
        view_h as i64
    } else {
        1
    };
    assert(total_rows <= total_rows * row_h) by (nonlinear_arith)
        requires
            total_rows >= 0,
            row_h >= 1,
    ;
    let all: i64 = total_rows as i64 * row_h as i64;
    let rest: i64 = all - h;
    let furthest: i64 = if rest >= 0 {
        let q: i64 = rest / row_h as i64;
        assert(0 <= q) by (nonlinear_arith)
            requires
                q == (rest as int) / (row_h as int),
                rest >= 0,
                row_h > 0,
        ;
        q
    } else {
        assert((rest as int) / (row_h as int) < 0) by (nonlinear_arith)
            requires
                rest < 0,
                row_h > 0,
        ;
        0
    };
    if y > furthest {
        furthest
    } else {
        y
    }
}

/// First line to show, and how many of its rows stand above the view.
pub fn top_line(y: i64, factor: u32) -> (r: (u64, i32))
    requires
        factor >= 1,
        factor <= i32::MAX,
    ensures
        r.0 == max_int(y as int, 0) / factor as int,
        r.1 == max_int(y as int, 0) % factor as int,
{
    let top: u64 = if y >= 0 {
        y as u64
    } else {
        0
    };
    let f: u64 = factor as u64;
    (top / f, (top % f) as i32)
}

// ---------------------------------------------------------------------------
// Layout of the visible lines
// ---------------------------------------------------------------------------

/// A line is laid out at `y_top`.
pub open spec fn is_laid<M: Fn(u16) -> Option<i32>>(
    l: LaidLine,
    line: int,
    y_top: int,
    raw: RawLine,
    ascii: [i32; 128],
    measure: M,
    word_wrap: bool,
    content_w: int,
    row_h: int,
) -> bool {
    &&& l.line == line
    &&& l.y_top == y_top
    &&& l.text@ == raw.text@
    &&& l.start_byte == raw.start_byte
    &&& l.units@ == encode(raw.text@)
    &&& l.char_w@.len() == l.units@.len()
    &&& forall|k: int|
        0 <= k < l.char_w@.len() ==> is_width_of(measure, ascii, l.units@[k], #[trigger] l.char_w@[k])
    &&& if word_wrap && l.units@.len() > 0 {
        is_wrapping(l.rows@, l.char_w@, row_limit(content_w))
    } else {
        &&& l.rows@.len() == 1
        &&& l.rows@[0].start == 0
        &&& l.rows@[0].end == l.units@.len()
        &&& l.rows@[0].x_off == 0
        &&& l.rows@[0].width == width_sum(l.char_w@, 0, l.char_w@.len() as int)
    }
    &&& l.line_h == l.rows@.len() * row_h
}

/// Where the line behind the last one of `laid` starts.
pub open spec fn y_behind(laid: Seq<LaidLine>, y0: int) -> int {
    if laid.len() == 0 {
        y0
    } else {
        laid.last().y_top + laid.last().line_h
    }
}

/// Line `i` of the layout is line `first + i` of the file, right below the line
/// before it.
pub open spec fn is_line_in_place<R: Fn(u64) -> RawLine, M: Fn(u16) -> Option<i32>>(
    laid: Seq<LaidLine>,
    i: int,
    first: int,
    y0: int,
    read_line: R,
    ascii: [i32; 128],
    measure: M,
    word_wrap: bool,
    content_w: int,
    row_h: int,
) -> bool {
    exists|raw: RawLine| #[trigger]
        call_ensures(read_line, ((first + i) as u64,), raw) && is_laid(
            laid[i],
            first + i,
            y_behind(laid.take(i), y0),
            raw,
            ascii,
            measure,
            word_wrap,
            content_w,
            row_h,
        )
}

/// Every line of the layout is in its place.
pub open spec fn are_lines_in_place<R: Fn(u64) -> RawLine, M: Fn(u16) -> Option<i32>>(
    laid: Seq<LaidLine>,
    first: int,
    y0: int,
    read_line: R,
    ascii: [i32; 128],
    measure: M,
    word_wrap: bool,
    content_w: int,
    row_h: int,
) -> bool {
    forall|i: int|
        0 <= i < laid.len() ==> #[trigger] is_line_in_place(
            laid,
            i,
            first,
            y0,
            read_line,
            ascii,
            measure,
            word_wrap,
            content_w,
            row_h,
        )
}

/// Widths of single characters are not negative and at most `w`.
pub open spec fn widths_bounded<M: Fn(u16) -> Option<i32>>(
    ascii: [i32; 128],
    measure: M,
    w: int,
) -> bool {
    &&& DEFAULT_CHAR_WIDTH <= w
    &&& forall|c: int| 0 <= c < 128 ==> 0 <= #[trigger] ascii[c] <= w
    &&& forall|c: u16, m: Option<i32>| #[trigger]
        call_ensures(measure, (c,), m) ==> match m {
            Some(x) => 0 <= x <= w,
            None => true,
        }
}

/// A text of characters at most `w` pixels wide can be laid out within the
/// coordinates of a screen.
pub open spec fn text_fits(text: Seq<char>, w: int, content_w: int, row_h: int, limit: int) -> bool {
    &&& utf16_len(text) * w <= i32::MAX
    &&& 2 * w <= i32::MAX
    &&& w + row_limit(content_w) <= i32::MAX
    &&& limit + (utf16_len(text) + 1) * row_h <= i32::MAX
}

/// Every line that can be read can be laid out.
pub open spec fn lines_fit<R: Fn(u64) -> RawLine, M: Fn(u16) -> Option<i32>>(
    read_line: R,
    ascii: [i32; 128],
    measure: M,
    content_w: int,
    row_h: int,
    limit: int,
) -> bool {
    exists|w: int|
        {
            &&& #[trigger] widths_bounded(ascii, measure, w)
            &&& forall|line: u64, raw: RawLine| #[trigger]
                call_ensures(read_line, (line,), raw) ==> text_fits(
                    raw.text@,
                    w,
                    content_w,
                    row_h,
                    limit,
                )
        }
}

proof fn lemma_sum_bounds(widths: Seq<i32>, w: int, j: int)
    requires
        0 <= j <= widths.len(),
        0 <= w,
        forall|k: int| 0 <= k < widths.len() ==> 0 <= #[trigger] widths[k] <= w,
    ensures
        0 <= width_sum(widths, 0, j) <= j * w,
    decreases j,
{
    if j > 0 {
        lemma_sum_bounds(widths, w, j - 1);
        assert((j - 1) * w + w == j * w) by (nonlinear_arith);
    } else {
        assert(0 * w == 0) by (nonlinear_arith);
    }
}

proof fn lemma_sums_fit(widths: Seq<i32>, w: int)
    requires
        0 <= w,
        widths.len() * w <= i32::MAX,
        forall|k: int| 0 <= k < widths.len() ==> 0 <= #[trigger] widths[k] <= w,
    ensures
        forall|j: int|
            0 <= j <= widths.len() ==> fits_i32(#[trigger] width_sum(widths, 0, j)),
{
    assert forall|j: int| 0 <= j <= widths.len() implies fits_i32(
        #[trigger] width_sum(widths, 0, j),
    ) by {
        lemma_sum_bounds(widths, w, j);
        assert(j * w <= widths.len() * w) by (nonlinear_arith)
            requires
                0 <= j <= widths.len(),
                0 <= w,
        ;
    }
}

proof fn lemma_row_count(rows: Seq<VisualRow>, widths: Seq<i32>, max: int)
    requires
        is_wrapping(rows, widths, max),
        widths.len() > 0,
    ensures
        rows.len() <= widths.len(),
{
    lemma_row_starts(rows, widths, max, rows.len() - 1);
}

proof fn lemma_row_starts(rows: Seq<VisualRow>, widths: Seq<i32>, max: int, r: int)
    requires
        is_wrapping(rows, widths, max),
        widths.len() > 0,
        0 <= r < rows.len(),
    ensures
        r < rows[r].end,
    decreases r,
{
    if r > 0 {
        lemma_row_starts(rows, widths, max, r - 1);
        assert(rows[r].start == rows[r - 1].end);
    }
}

/// Lays one line out.
fn lay_out_line<M: Fn(u16) -> Option<i32>>(
    raw: RawLine,
    line: u64,
    y_top: i32,
    ascii: &[i32; 128],
    measure: &M,
    word_wrap: bool,
    content_w: i32,
    row_h: i32,
    Ghost(w): Ghost<int>,
    Ghost(limit): Ghost<int>,
) -> (r: LaidLine)
    requires
        forall|c: u16| c >= 128 ==> call_requires(*measure, (c,)),
        widths_bounded(*ascii, *measure, w),
        text_fits(raw.text@, w, content_w as int, row_h as int, limit),
        row_h > 0,
        0 <= limit,
    ensures
        is_laid(
            r,
            line as int,
            y_top as int,
            raw,
            *ascii,
            *measure,
            word_wrap,
            content_w as int,
            row_h as int,
        ),
        0 < r.line_h,
        limit + r.line_h <= i32::MAX,
{
    let units: Vec<u16> = encode_utf16(raw.text.as_str());
    let mut char_w: Vec<i32> = Vec::new();
    line_char_widths(units.as_slice(), ascii, measure, &mut char_w);
    let ghost n = utf16_len(raw.text@);
    proof {
        lemma_encode_len(raw.text@);
        assert forall|k: int| 0 <= k < char_w@.len() implies 0 <= #[trigger] char_w@[k] <= w by {
            assert(is_width_of(*measure, *ascii, units@[k], char_w@[k]));
            if units@[k] < 128 {
                assert(0 <= ascii[units@[k] as int] <= w);
            }
        }
        lemma_sums_fit(char_w@, w);
    }
    let mut rows: Vec<VisualRow> = Vec::new();
    if word_wrap && char_w.len() > 0 {
        proof {
            law_ordinary_widths_fit(char_w@, row_limit(content_w as int));
        }
        wrap_line_into(char_w.as_slice(), content_w, &mut rows);
        proof {
            lemma_row_count(rows@, char_w@, row_limit(content_w as int));
        }
    } else {
        let total: i32 = prefix_width(char_w.as_slice(), 0, char_w.len());
        rows.push(VisualRow { start: 0, end: units.len(), x_off: 0, width: total });
    }
    assert(rows@.len() * row_h <= (n + 1) * row_h) by (nonlinear_arith)
        requires
            rows@.len() <= n + 1,
            row_h > 0,
    ;
    assert(rows@.len() <= rows@.len() * row_h) by (nonlinear_arith)
        requires
            row_h > 0,
            rows@.len() >= 0,
    ;
    assert(0 < rows@.len() * row_h) by (nonlinear_arith)
        requires
            row_h > 0,
            rows@.len() > 0,
    ;
    let line_h: i32 = rows.len() as i32 * row_h;
    LaidLine {
        line,
        y_top,
        rows,
        line_h,
        char_w,
        units,
        text: raw.text,
        start_byte: raw.start_byte,
    }
}

/// Where the first line starts: `partial` of its rows stand above the view.
pub fn first_line_y(view_top: i32, partial: i32, row_h: i32) -> (r: i32)
    requires
        view_top - partial * row_h >= i32::MIN,
        partial * row_h <= i32::MAX,
        0 <= partial,
        0 <= row_h,
        0 <= view_top,
    ensures
        r == view_top - partial * row_h,
{
    assert(0 <= partial * row_h) by (nonlinear_arith)
        requires
            0 <= partial,
            0 <= row_h,
    ;
    view_top - partial * row_h
}

/// Lays out the lines from `first` on, from `y0` downwards, until two rows below
/// `bottom` or the end of the file. `read_line` hands out a line, `measure` the
/// width of a character outside of ASCII.
pub fn lay_out_lines<R: Fn(u64) -> RawLine, M: Fn(u16) -> Option<i32>>(
    first: u64,
    total: u64,
    y0: i32,
    bottom: i32,
    row_h: i32,
    word_wrap: bool,
    content_w: i32,
    ascii: &[i32; 128],
    read_line: &R,
    measure: &M,
) -> (laid: Vec<LaidLine>)
    requires
        row_h > 0,
        0 <= bottom,
        y0 <= bottom + 2 * row_h,
        bottom + 2 * row_h <= i32::MAX,
        forall|line: u64| first <= line < total ==> call_requires(*read_line, (line,)),
        forall|c: u16| c >= 128 ==> call_requires(*measure, (c,)),
        lines_fit(
            *read_line,
            *ascii,
            *measure,
            content_w as int,
            row_h as int,
            bottom + 2 * row_h,
        ),
    ensures
        are_lines_in_place(
            laid@,
            first as int,
            y0 as int,
            *read_line,
            *ascii,
            *measure,
            word_wrap,
            content_w as int,
            row_h as int,
        ),
        forall|i: int|
            0 <= i < laid@.len() ==> (#[trigger] laid@[i]).y_top < bottom + 2 * row_h && first + i
                < total,
        y_behind(laid@, y0 as int) >= bottom + 2 * row_h || first + laid@.len() >= total,
{
    let limit: i32 = bottom + 2 * row_h;
    let ghost w = choose|w: int|
        {
            &&& #[trigger] widths_bounded(*ascii, *measure, w)
            &&& forall|line: u64, raw: RawLine| #[trigger]
                call_ensures(*read_line, (line,), raw) ==> text_fits(
                    raw.text@,
                    w,
                    content_w as int,
                    row_h as int,
                    limit as int,
                )
        };
    let mut laid: Vec<LaidLine> = Vec::new();
    let mut y: i32 = y0;
    let mut line: u64 = first;
    while y < limit && line < total
        invariant
            row_h > 0,
            0 <= limit,
            limit == bottom + 2 * row_h,
            first <= line,
            line == first + laid@.len(),
            line <= total || laid@.len() == 0,
            y == y_behind(laid@, y0 as int),
            widths_bounded(*ascii, *measure, w),
            forall|l: u64, raw: RawLine| #[trigger]
                call_ensures(*read_line, (l,), raw) ==> text_fits(
                    raw.text@,
                    w,
                    content_w as int,
                    row_h as int,
                    limit as int,
                ),
            forall|l: u64| first <= l < total ==> call_requires(*read_line, (l,)),
            forall|c: u16| c >= 128 ==> call_requires(*measure, (c,)),
            forall|i: int|
                0 <= i < laid@.len() ==> #[trigger] is_line_in_place(
                    laid@,
                    i,
                    first as int,
                    y0 as int,
                    *read_line,
                    *ascii,
                    *measure,
                    word_wrap,
                    content_w as int,
                    row_h as int,
                ),
            forall|i: int|
                0 <= i < laid@.len() ==> (#[trigger] laid@[i]).y_top < limit && first + i < total,
        decreases total - line,
    {
        let raw: RawLine = (*read_line)(line);
        let ghost raw0 = raw;
        let ghost prev = laid@;
        let l: LaidLine = lay_out_line(
            raw,
            line,
            y,
            ascii,
            measure,
            word_wrap,
            content_w,
            row_h,
            Ghost(w),
            Ghost(limit as int),
        );
        let h: i32 = l.line_h;
        let ghost l0 = l;
        laid.push(l);
        proof {
            let i = prev.len() as int;
            assert(laid@.take(i) =~= prev);
            assert(call_ensures(*read_line, ((first + i) as u64,), raw0));
            assert(is_line_in_place(
                laid@,
                i,
                first as int,
                y0 as int,
                *read_line,
                *ascii,
                *measure,
                word_wrap,
                content_w as int,
                row_h as int,
            ));
            assert forall|k: int| 0 <= k < laid@.len() implies #[trigger] is_line_in_place(
                laid@,
                k,
                first as int,
                y0 as int,
                *read_line,
                *ascii,
                *measure,
                word_wrap,
                content_w as int,
                row_h as int,
            ) by {
                if k < i {
                    assert(is_line_in_place(
                        prev,
                        k,
                        first as int,
                        y0 as int,
                        *read_line,
                        *ascii,
                        *measure,
                        word_wrap,
                        content_w as int,
                        row_h as int,
                    ));
                    assert(laid@.take(k) =~= prev.take(k));
                    assert(laid@[k] == prev[k]);
                }
            }
        }
        y = y + h;
        line = line + 1;
    }
    laid
}

/// First and last visible line: the first one that reaches below the top of the
/// view, and the last one laid out. `first` where nothing is.
pub fn visible_span(laid: &Vec<LaidLine>, view_top: i32, first: u64) -> (r: (u64, u64))
    requires
        forall|i: int|
            0 <= i < laid@.len() ==> fits_i32((#[trigger] laid@[i]).y_top + laid@[i].line_h),
    ensures
        r.1 == if laid@.len() == 0 {
            first
        } else {
            laid@.last().line
        },
        (forall|i: int|
            0 <= i < laid@.len() ==> (#[trigger] laid@[i]).y_top + laid@[i].line_h <= view_top) ==> r.0
            == first,
        forall|i: int|
            0 <= i < laid@.len() && (#[trigger] laid@[i]).y_top + laid@[i].line_h > view_top && (
            forall|k: int|
                0 <= k < i ==> (#[trigger] laid@[k]).y_top + laid@[k].line_h <= view_top) ==> r.0
                == laid@[i].line,
{
    let last: u64 = if laid.len() == 0 {
        first
    } else {
        laid[laid.len() - 1].line
    };
    let mut i: usize = 0;
    while i < laid.len()
        invariant
            i <= laid@.len(),
            laid@.len() > 0 ==> last == laid@.last().line,
            forall|k: int|
                0 <= k < laid@.len() ==> fits_i32((#[trigger] laid@[k]).y_top + laid@[k].line_h),
            forall|k: int|
                0 <= k < i ==> (#[trigger] laid@[k]).y_top + laid@[k].line_h <= view_top,
        decreases laid@.len() - i,
    {
        if laid[i].y_top + laid[i].line_h > view_top {
            return (laid[i].line, last);
        }
        i = i + 1;
    }
    (first, last)
}

/// Width of the widest line laid out; 0 where there is none.
pub open spec fn widest(laid: Seq<LaidLine>, n: int) -> int
    decreases n,
{
    if n <= 0 {
        0
    } else {
        let before = widest(laid, n - 1);
        if laid[n - 1].char_w@.len() > 0 {
            max_int(before, laid[n - 1].rows@[0].width as int)
        } else {
            before
        }
    }
}

/// Width of the widest line laid out without wrapping.
pub fn longest_line(laid: &Vec<LaidLine>) -> (r: i32)
    requires
        forall|i: int| 0 <= i < laid@.len() ==> (#[trigger] laid@[i]).rows@.len() > 0,
    ensures
        r == widest(laid@, laid@.len() as int),
{
    let mut longest: i32 = 0;
    let mut i: usize = 0;
    while i < laid.len()
        invariant
            i <= laid@.len(),
            forall|k: int| 0 <= k < laid@.len() ==> (#[trigger] laid@[k]).rows@.len() > 0,
            longest == widest(laid@, i as int),
        decreases laid@.len() - i,
    {
        if laid[i].char_w.len() > 0 {
            let w: i32 = laid[i].rows[0].width;
            if w > longest {
                longest = w;
            }
        }
        i = i + 1;
    }
    longest
}

/// How far the text can be scrolled to the right, and the scroll position kept
/// within that.
pub fn clamp_h_scroll(h_scroll: i64, longest_px: i32, content_w: i32) -> (r: (i64, i64))
    ensures
        r.0 == max_int(longest_px - content_w, 0),
        r.1 == min_int(h_scroll as int, r.0 as int),
{
    let over: i64 = longest_px as i64 - content_w as i64;
    let max_h: i64 = if over >= 0 {
        over
    } else {
        0
    };
    if h_scroll > max_h {
        (max_h, max_h)
    } else {
        (max_h, h_scroll)
    }
}

// ---------------------------------------------------------------------------
// Hit tests
// ---------------------------------------------------------------------------

/// Width that a hit test gives a character: at least 1.
pub open spec fn hit_width(char_w: Seq<i32>, k: int) -> int {
    let w = if 0 <= k < char_w.len() {
        char_w[k]
    } else {
        DEFAULT_CHAR_WIDTH
    };
    max_int(w as int, 1)
}

/// Widths of the characters `[start, k)`, as hit tests take them.
pub open spec fn hit_sum(char_w: Seq<i32>, start: int, k: int) -> int
    decreases k - start,
{
    if k <= start {
        0
    } else {
        hit_sum(char_w, start, k - 1) + hit_width(char_w, k - 1)
    }
}

/// The pixel `x` of a row lies behind the middle of character `k`.
pub open spec fn behind_middle(char_w: Seq<i32>, start: int, k: int, x: int) -> bool {
    hit_sum(char_w, start, k) + hit_width(char_w, k) / 2 <= x
}

/// Column of pixel `x` in a row `[start, end)`: the characters up to it are those
/// behind the middle of which it lies.
pub open spec fn is_column_at(char_w: Seq<i32>, start: int, end: int, x: int, col: int) -> bool {
    &&& start <= col <= end
    &&& forall|k: int| start <= k < col ==> #[trigger] behind_middle(char_w, start, k, x)
    &&& col < end ==> !behind_middle(char_w, start, col, x)
}

/// Column of pixel `x` in a row.
fn column_at(char_w: &Vec<i32>, row: VisualRow, x: i64) -> (col: usize)
    requires
        row.start <= row.end,
        0 <= x <= 0x1_0000_0000,
    ensures
        is_column_at(char_w@, row.start as int, row.end as int, x as int, col as int),
{
    let mut acc: i64 = 0;
    let mut k: usize = row.start;
    while k < row.end
        invariant
            row.start <= k <= row.end,
            0 <= x <= 0x1_0000_0000,
            0 <= acc <= 2 * x + 2,
            acc == hit_sum(char_w@, row.start as int, k as int),
            forall|j: int|
                row.start <= j < k ==> #[trigger] behind_middle(
                    char_w@,
                    row.start as int,
                    j,
                    x as int,
                ),
        decreases row.end - k,
    {
        let w: i32 = if k < char_w.len() {
            char_w[k]
        } else {
            DEFAULT_CHAR_WIDTH
        };
        let cw: i64 = if w >= 1 {
            w as i64
        } else {
            1
        };
        assert(cw == hit_width(char_w@, k as int));
        if acc + cw / 2 > x {
            return k;
        }
        assert(behind_middle(char_w@, row.start as int, k as int, x as int));
        acc = acc + cw;
        k = k + 1;
    }
    k
}

/// The rows of a line start before they end.
pub open spec fn rows_ordered(l: LaidLine) -> bool {
    &&& l.rows@.len() > 0
    &&& forall|r: int| 0 <= r < l.rows@.len() ==> (#[trigger] l.rows@[r]).start <= l.rows@[r].end
}

/// The line holds the pixel row `y`.
pub open spec fn holds_y(l: LaidLine, y: int) -> bool {
    l.y_top <= y < l.y_top + l.line_h
}

/// Line and column of a pixel: the column by the middle of its characters in the
/// row that is hit; the start of the first line above the text, the end of the
/// last one below it.
pub open spec fn is_position_of(
    v: ViewLayout,
    x: int,
    y: int,
    line: u64,
    col: usize,
) -> bool {
    if exists|i: int| 0 <= i < v.laid@.len() && holds_y(#[trigger] v.laid@[i], y) {
        exists|i: int, r: int|
            {
                &&& 0 <= i < v.laid@.len()
                &&& holds_y(#[trigger] v.laid@[i], y)
                &&& forall|k: int| 0 <= k < i ==> !holds_y(#[trigger] v.laid@[k], y)
                &&& line == v.laid@[i].line
                &&& r == min_int(
                    (y - v.laid@[i].y_top) / max_int(v.row_h as int, 1),
                    v.laid@[i].rows@.len() - 1,
                )
                &&& is_column_at(
                    v.laid@[i].char_w@,
                    (#[trigger] v.laid@[i].rows@[r]).start as int,
                    v.laid@[i].rows@[r].end as int,
                    max_int(x - v.content_x, 0),
                    col as int,
                )
            }
    } else if v.laid@.len() == 0 {
        line == 0 && col == 0
    } else if y < v.laid@[0].y_top {
        line == v.laid@[0].line && col == 0
    } else {
        line == v.laid@.last().line && col == v.laid@.last().char_w@.len()
    }
}

/// Line and UTF-16 column of a pixel.
pub fn pixel_to_line_col(x: i32, y: i32, v: &ViewLayout) -> (r: (u64, usize))
    requires
        forall|i: int| 0 <= i < v.laid@.len() ==> rows_ordered(#[trigger] v.laid@[i]),
    ensures
        is_position_of(*v, x as int, y as int, r.0, r.1),
{
    let row_h: i64 = if v.row_h >= 1 {
        v.row_h as i64
    } else {
        1
    };
    let dx: i64 = x as i64 - v.content_x as i64;
    let mut i: usize = 0;
    while i < v.laid.len()
        invariant
            i <= v.laid@.len(),
            row_h == max_int(v.row_h as int, 1),
            dx == x - v.content_x,
            forall|k: int| 0 <= k < v.laid@.len() ==> rows_ordered(#[trigger] v.laid@[k]),
            forall|k: int| 0 <= k < i ==> !holds_y(#[trigger] v.laid@[k], y as int),
        decreases v.laid@.len() - i,
    {
        let l: &LaidLine = &v.laid[i];
        assert(rows_ordered(v.laid@[i as int]));
        let below: i64 = y as i64 - l.y_top as i64;
        if below >= 0 && below < l.line_h as i64 {
            assert(holds_y(v.laid@[i as int], y as int));
            let ri: i64 = below / row_h;
            assert(0 <= ri <= below) by (nonlinear_arith)
                requires
                    ri == (below as int) / (row_h as int),
                    below >= 0,
                    row_h >= 1,
            ;
            let last: usize = l.rows.len() - 1;
            let r: usize = if ri as u64 <= last as u64 {
                ri as usize
            } else {
                last
            };
            let row: VisualRow = l.rows[r];
            assert(l.rows@[r as int].start <= l.rows@[r as int].end);
            let xr: i64 = if dx >= 0 {
                dx
            } else {
                0
            };
            let col: usize = column_at(&l.char_w, row, xr);
            assert(v.laid@[i as int].rows@[r as int] == row);
            return (l.line, col);
        }
        i = i + 1;
    }
    if v.laid.len() == 0 {
        (0, 0)
    } else if y < v.laid[0].y_top {
        (v.laid[0].line, 0)
    } else {
        let l: &LaidLine = &v.laid[v.laid.len() - 1];
        (l.line, l.char_w.len())
    }
}

// ---------------------------------------------------------------------------
// Laws
// ---------------------------------------------------------------------------

/// What is painted is what is hit: a pixel in a visual row gives a place in that row, and
/// the left edge of a character gives the place in front of it.
pub proof fn law_painted_text_is_hit(
    v: &ViewLayout,
    i: int,
    r: int,
    k: int,
    x: i32,
    y: i32,
    w: i32,
    place: (u64, usize),
)
    requires
        call_ensures(pixel_to_line_col, (x, y, v), place),
        v.row_h > 0,
        0 <= i < v.laid@.len(),
        0 <= r < v.laid@[i].rows@.len(),
        forall|a: int| 0 <= a < v.laid@.len() ==> rows_ordered(#[trigger] v.laid@[a]),
        forall|a: int| 0 <= a < v.laid@.len() ==> (#[trigger] v.laid@[a]).line_h
            == v.laid@[a].rows@.len() * v.row_h,
        forall|a: int, b: int|
            #![trigger v.laid@[a], v.laid@[b]]
            0 <= a < b < v.laid@.len() ==> v.laid@[a].y_top + v.laid@[a].line_h <= v.laid@[b].y_top,
        v.laid@[i].y_top + r * v.row_h <= y < v.laid@[i].y_top + (r + 1) * v.row_h,
    ensures
        place.0 == v.laid@[i].line,
        v.laid@[i].rows@[r].start <= place.1 <= v.laid@[i].rows@[r].end,
        ({
            let row = v.laid@[i].rows@[r];
            let cw = v.laid@[i].char_w@;
            &&& row.end <= cw.len()
            &&& row.start <= k < row.end
            &&& forall|j: int| row.start <= j < row.end ==> #[trigger] cw[j] >= 2
            &&& x == v.content_x + width_sum(cw, row.start as int, k)
        }) ==> place.1 == k,
        ({
            let row = v.laid@[i].rows@[r];
            let cw = v.laid@[i].char_w@;
            &&& row.end <= cw.len()
            &&& forall|j: int| row.start <= j < row.end ==> #[trigger] cw[j] >= 1
            &&& x >= v.content_x + width_sum(cw, row.start as int, row.end as int)
        }) ==> place.1 == v.laid@[i].rows@[r].end,
{
    let l = v.laid@[i];
    let n = l.rows@.len() as int;
    assert(l.line_h == n * v.row_h);
    assert(0 <= r * v.row_h && (r + 1) * v.row_h <= n * v.row_h) by (nonlinear_arith)
        requires
            0 <= r,
            r + 1 <= n,
            v.row_h > 0,
    ;
    assert(holds_y(l, y as int));
    assert((y - l.y_top) / (v.row_h as int) == r) by (nonlinear_arith)
        requires
            r * v.row_h <= y - l.y_top < (r + 1) * v.row_h,
            v.row_h > 0,
    ;
    let (a, q) = choose|a: int, q: int|
        {
            &&& 0 <= a < v.laid@.len()
            &&& holds_y(#[trigger] v.laid@[a], y as int)
            &&& forall|b: int| 0 <= b < a ==> !holds_y(#[trigger] v.laid@[b], y as int)
            &&& place.0 == v.laid@[a].line
            &&& q == min_int(
                (y - v.laid@[a].y_top) / max_int(v.row_h as int, 1),
                v.laid@[a].rows@.len() - 1,
            )
            &&& is_column_at(
                v.laid@[a].char_w@,
                (#[trigger] v.laid@[a].rows@[q]).start as int,
                v.laid@[a].rows@[q].end as int,
                max_int(x - v.content_x, 0),
                place.1 as int,
            )
        };
    if a < i {
        assert(v.laid@[a].y_top + v.laid@[a].line_h <= v.laid@[i].y_top);
    } else if i < a {
        assert(!holds_y(v.laid@[i], y as int));
    }
    assert(a == i && q == r);
    let row = l.rows@[r];
    let cw = l.char_w@;
    let xr = max_int(x - v.content_x, 0);
    assert(is_column_at(cw, row.start as int, row.end as int, xr, place.1 as int));
    if row.end <= cw.len() && row.start <= k < row.end && (forall|j: int|
        row.start <= j < row.end ==> #[trigger] cw[j] >= 2) && x == v.content_x + width_sum(
        cw,
        row.start as int,
        k,
    ) {
        lemma_hit_sum(cw, row.start as int, row.end as int, k);
        let c = place.1 as int;
        if c < k {
            lemma_hit_sum(cw, row.start as int, row.end as int, c);
            lemma_hit_sum(cw, row.start as int, row.end as int, c + 1);
            lemma_sum_grows(cw, row.start as int, c + 1, k);
            assert(behind_middle(cw, row.start as int, c, xr));
        } else if k < c {
            assert(behind_middle(cw, row.start as int, k, xr));
        }
    }
    if row.end <= cw.len() && (forall|j: int| row.start <= j < row.end ==> #[trigger] cw[j] >= 1) && x
        >= v.content_x + width_sum(cw, row.start as int, row.end as int) {
        let c = place.1 as int;
        lemma_hit_sum(cw, row.start as int, row.end as int, row.end as int);
        if c < row.end {
            lemma_hit_sum(cw, row.start as int, row.end as int, c);
            lemma_hit_sum(cw, row.start as int, row.end as int, c + 1);
            lemma_sum_grows(cw, row.start as int, c + 1, row.end as int);
            assert(behind_middle(cw, row.start as int, c, xr));
        }
    }
}

proof fn lemma_hit_sum(cw: Seq<i32>, start: int, end: int, k: int)
    requires
        0 <= start <= k <= end <= cw.len(),
        forall|j: int| start <= j < end ==> #[trigger] cw[j] >= 1,
    ensures
        hit_sum(cw, start, k) == width_sum(cw, start, k),
        hit_sum(cw, start, k) >= 0,
    decreases k - start,
{
    if start < k {
        lemma_hit_sum(cw, start, end, k - 1);
        assert(cw[k - 1] >= 1);
    }
}

proof fn lemma_sum_grows(cw: Seq<i32>, start: int, a: int, b: int)
    requires
        0 <= start <= a <= b <= cw.len(),
        forall|j: int| start <= j < b ==> #[trigger] cw[j] >= 1,
    ensures
        width_sum(cw, start, a) <= width_sum(cw, start, b),
    decreases b - a,
{
    if a < b {
        lemma_sum_grows(cw, start, a, b - 1);
        assert(cw[b - 1] >= 1);
    }
}

/// Above the text the start of the first line is hit, below it the end of the last.
pub proof fn law_beside_the_text_its_ends_are_hit(v: &ViewLayout, x: i32, y: i32, place: (u64, usize))
    requires
        call_ensures(pixel_to_line_col, (x, y, v), place),
        v.laid@.len() > 0,
        forall|a: int, b: int|
            #![trigger v.laid@[a], v.laid@[b]]
            0 <= a <= b < v.laid@.len() ==> v.laid@[a].y_top <= v.laid@[b].y_top && v.laid@[a].y_top
                + v.laid@[a].line_h <= v.laid@[b].y_top + v.laid@[b].line_h,
    ensures
        y < v.laid@[0].y_top ==> place == (v.laid@[0].line, 0usize),
        y >= v.laid@.last().y_top + v.laid@.last().line_h && y >= v.laid@[0].y_top ==> place == (
            v.laid@.last().line,
            v.laid@.last().char_w@.len() as usize,
        ),
{
    let last = v.laid@.len() - 1;
    if y < v.laid@[0].y_top || y >= v.laid@[last].y_top + v.laid@[last].line_h {
        assert forall|a: int| 0 <= a < v.laid@.len() implies !holds_y(#[trigger] v.laid@[a], y as int) by {
            assert(v.laid@[0].y_top <= v.laid@[a].y_top);
            assert(v.laid@[a].y_top + v.laid@[a].line_h <= v.laid@[last].y_top
                + v.laid@[last].line_h);
        }
    }
}

/// The lines that are laid out are those of the file from the first on, each with its
/// text and its units and right below the one before it.
pub proof fn law_lines_stand_below_each_other<R: Fn(u64) -> RawLine, M: Fn(u16) -> Option<i32>>(
    first: u64,
    total: u64,
    y0: i32,
    bottom: i32,
    row_h: i32,
    word_wrap: bool,
    content_w: i32,
    ascii: &[i32; 128],
    read_line: &R,
    measure: &M,
    laid: Vec<LaidLine>,
    i: int,
)
    requires
        call_ensures(
            lay_out_lines::<R, M>,
            (first, total, y0, bottom, row_h, word_wrap, content_w, ascii, read_line, measure),
            laid,
        ),
        0 <= i < laid@.len(),
    ensures
        laid@[i].line == first + i,
        first + i < total,
        i == 0 ==> laid@[i].y_top == y0,
        i > 0 ==> laid@[i].y_top == laid@[i - 1].y_top + laid@[i - 1].rows@.len() * row_h,
        laid@[i].units@ == encode(laid@[i].text@),
        exists|raw: RawLine| #[trigger]
            call_ensures(*read_line, ((first + i) as u64,), raw) && raw.text@ == laid@[i].text@
                && raw.start_byte == laid@[i].start_byte,
        laid@[i].rows@.len() > 0,
        laid@[i].rows@[0].start == 0,
        laid@[i].rows@.last().end == laid@[i].units@.len(),
        !word_wrap ==> laid@[i].rows@.len() == 1,
        laid@.last().y_top + laid@.last().rows@.len() * row_h >= bottom + 2 * row_h || first
            + laid@.len() >= total,
{
    assert(are_lines_in_place(
        laid@,
        first as int,
        y0 as int,
        *read_line,
        *ascii,
        *measure,
        word_wrap,
        content_w as int,
        row_h as int,
    ));
    lemma_in_place(
        laid@,
        i,
        first,
        y0,
        read_line,
        ascii,
        measure,
        word_wrap,
        content_w,
        row_h,
    );
    lemma_in_place(
        laid@,
        laid@.len() - 1,
        first,
        y0,
        read_line,
        ascii,
        measure,
        word_wrap,
        content_w,
        row_h,
    );
    if i > 0 {
        lemma_in_place(
            laid@,
            i - 1,
            first,
            y0,
            read_line,
            ascii,
            measure,
            word_wrap,
            content_w,
            row_h,
        );
        assert(laid@.take(i).last() == laid@[i - 1]);
    }
}

proof fn lemma_in_place<R: Fn(u64) -> RawLine, M: Fn(u16) -> Option<i32>>(
    laid: Seq<LaidLine>,
    i: int,
    first: u64,
    y0: i32,
    read_line: &R,
    ascii: &[i32; 128],
    measure: &M,
    word_wrap: bool,
    content_w: i32,
    row_h: i32,
)
    requires
        0 <= i < laid.len(),
        is_line_in_place(
            laid,
            i,
            first as int,
            y0 as int,
            *read_line,
            *ascii,
            *measure,
            word_wrap,
            content_w as int,
            row_h as int,
        ),
    ensures
        laid[i].line == first + i,
        laid[i].y_top == y_behind(laid.take(i), y0 as int),
        laid[i].line_h == laid[i].rows@.len() * row_h,
        laid[i].units@ == encode(laid[i].text@),
        laid[i].rows@.len() > 0,
        laid[i].rows@[0].start == 0,
        laid[i].rows@.last().end == laid[i].units@.len(),
        !word_wrap ==> laid[i].rows@.len() == 1,
        exists|raw: RawLine| #[trigger]
            call_ensures(*read_line, ((first + i) as u64,), raw) && raw.text@ == laid[i].text@
                && raw.start_byte == laid[i].start_byte,
{
    let raw = choose|raw: RawLine| #[trigger]
        call_ensures(*read_line, ((first as int + i) as u64,), raw) && is_laid(
            laid[i],
            first as int + i,
            y_behind(laid.take(i), y0 as int),
            raw,
            *ascii,
            *measure,
            word_wrap,
            content_w as int,
            row_h as int,
        );
    assert(call_ensures(*read_line, ((first + i) as u64,), raw) && raw.text@ == laid[i].text@);
}

/// A row is as high as its font and five pixels more, but never lower than 14 pixels, and
/// a larger font never has lower rows.
pub proof fn law_rows_hold_their_font(a: i32, b: i32, ra: i32, rb: i32)
    requires
        call_ensures(row_height, (a,), ra),
        call_ensures(row_height, (b,), rb),
    ensures
        ra >= a + 5,
        ra >= 14,
        a >= 9 ==> ra == a + 5,
        a <= b ==> ra <= rb,
{
}

/// The rows that a line counts as hold a hundred average characters, and with one row
/// less they would not, but for the least of two rows.
pub proof fn law_wrapped_lines_have_room(avg: i32, content_w: i32, r: u32, plain: u32)
    requires
        call_ensures(wrap_factor, (true, avg, content_w), r),
        call_ensures(wrap_factor, (false, avg, content_w), plain),
        0 <= avg,
        0 < content_w,
    ensures
        r >= 2,
        r * content_w >= 100 * avg,
        r > 2 ==> (r - 1) * content_w < 100 * avg,
        plain == 1,
{
    let a = 100 * avg as int;
    let b = content_w as int;
    let q = (a + b - 1) / b;
    assert(q * b >= a && (q - 1) * b < a) by (nonlinear_arith)
        requires
            q == (a + b - 1) / b,
            b > 0,
            a >= 0,
    ;
    if r != q {
        assert(2 * b >= q * b) by (nonlinear_arith)
            requires
                q <= 2,
                b > 0,
        ;
    }
}

/// A page holds as many whole rows as fit into the view, and at least one.
pub proof fn law_pages_fill_the_view(view_h: i32, row_h: i32, r: i64)
    requires
        call_ensures(page_rows, (view_h, row_h), r),
        row_h > 0,
    ensures
        r >= 1,
        view_h >= row_h ==> r * row_h <= view_h < (r + 1) * row_h,
        view_h < row_h ==> r == 1,
{
    let h = max_int(view_h as int, 1);
    let q = h / row_h as int;
    assert(q * row_h <= h < (q + 1) * row_h) by (nonlinear_arith)
        requires
            q == h / (row_h as int),
            row_h > 0,
    ;
    assert(h >= row_h ==> q >= 1) by (nonlinear_arith)
        requires
            h < (q + 1) * row_h,
            row_h > 0,
    ;
    assert(h < row_h ==> q < 1) by (nonlinear_arith)
        requires
            q * row_h <= h,
            row_h > 0,
    ;
}

/// The top row stays where what is below it fills the view, and is otherwise taken back
/// as far as is needed for that, at most to the start.
pub proof fn law_the_view_stays_filled(y: i64, total: u64, row_h: i32, view_h: i32, r: i64)
    requires
        call_ensures(clamp_top, (y, total, row_h, view_h), r),
        0 < row_h,
        0 < view_h,
        0 <= y,
    ensures
        0 <= r <= y,
        (total - y) * row_h >= view_h ==> r == y,
        r < y && r > 0 ==> (total - r) * row_h >= view_h,
        r < y ==> (total - (r + 1)) * row_h < view_h,
{
    let all = total * row_h as int;
    let rest = all - view_h;
    let q = rest / row_h as int;
    assert(q * row_h <= rest < (q + 1) * row_h) by (nonlinear_arith)
        requires
            q == rest / (row_h as int),
            row_h > 0,
    ;
    assert((total - y) * row_h == all - y * row_h) by (nonlinear_arith)
        requires
            all == total * row_h,
    ;
    assert((total - r) * row_h == all - r * row_h) by (nonlinear_arith)
        requires
            all == total * row_h,
    ;
    assert((total - (r + 1)) * row_h == all - (r + 1) * row_h) by (nonlinear_arith)
        requires
            all == total * row_h,
    ;
    assert(y * row_h <= rest ==> y <= q) by (nonlinear_arith)
        requires
            rest < (q + 1) * row_h,
            row_h > 0,
    ;
    assert(rest < 0 ==> q < 0) by (nonlinear_arith)
        requires
            q * row_h <= rest,
            row_h > 0,
    ;
    if r < y && q < 0 {
        assert((0 + 1) * row_h == row_h) by (nonlinear_arith);
        assert((q + 1) * row_h <= 0) by (nonlinear_arith)
            requires
                q + 1 <= 0,
                row_h > 0,
        ;
    }
}

/// The rows above the view are those of the lines in front of the first one shown, and
/// those of its own that are scrolled out.
pub proof fn law_rows_above_the_view_are_counted(y: i64, factor: u32, r: (u64, i32))
    requires
        call_ensures(top_line, (y, factor), r),
        factor >= 1,
        0 <= y,
    ensures
        r.0 * factor + r.1 == y,
        0 <= r.1 < factor,
{
    let f = factor as int;
    let n = y as int;
    assert((n / f) * f + n % f == n && 0 <= n % f < f) by (nonlinear_arith)
        requires
            f > 0,
            n >= 0,
    ;
}

/// The rows of the first line that are scrolled out reach up to the top of the view.
pub proof fn law_scrolled_out_rows_end_at_the_top(view_top: i32, partial: i32, row_h: i32, r: i32)
    requires
        call_ensures(first_line_y, (view_top, partial, row_h), r),
    ensures
        r + partial * row_h == view_top,
{
}

/// The first line in view is the first that reaches into it, and the last one is the last
/// laid out.
pub proof fn law_lines_in_view_are_told(
    laid: &Vec<LaidLine>,
    view_top: i32,
    first: u64,
    r: (u64, u64),
    i: int,
)
    requires
        call_ensures(visible_span, (laid, view_top, first), r),
        0 <= i < laid@.len(),
        laid@[i].y_top + laid@[i].line_h > view_top,
        forall|k: int| 0 <= k < i ==> (#[trigger] laid@[k]).y_top + laid@[k].line_h <= view_top,
    ensures
        r.0 == laid@[i].line,
        r.1 == laid@[laid@.len() - 1].line,
{
}

/// No line is wider than the longest, and one is as wide unless all are empty.
pub proof fn law_the_longest_line_is_found(laid: &Vec<LaidLine>, r: i32, i: int)
    requires
        call_ensures(longest_line, (laid,), r),
        0 <= i < laid@.len(),
        laid@[i].char_w@.len() > 0,
    ensures
        laid@[i].rows@[0].width <= r,
        r == 0 || exists|k: int| 0 <= k < laid@.len() && (#[trigger] laid@[k]).rows@[0].width == r,
{
    lemma_widest(laid@, laid@.len() as int);
}

proof fn lemma_widest(laid: Seq<LaidLine>, n: int)
    requires
        0 <= n <= laid.len(),
    ensures
        forall|i: int|
            0 <= i < n && (#[trigger] laid[i]).char_w@.len() > 0 ==> laid[i].rows@[0].width
                <= widest(laid, n),
        widest(laid, n) == 0 || exists|k: int|
            0 <= k < n && (#[trigger] laid[k]).rows@[0].width == widest(laid, n),
    decreases n,
{
    if n > 0 {
        lemma_widest(laid, n - 1);
        if widest(laid, n) != widest(laid, n - 1) {
            assert(laid[n - 1].rows@[0].width == widest(laid, n));
        }
    }
}

/// The text can be panned until its longest line ends at the right edge, and no farther.
pub proof fn law_panning_ends_with_the_longest_line(
    h_scroll: i64,
    longest_px: i32,
    content_w: i32,
    r: (i64, i64),
)
    requires
        call_ensures(clamp_h_scroll, (h_scroll, longest_px, content_w), r),
    ensures
        longest_px >= content_w ==> r.0 + content_w == longest_px,
        longest_px < content_w ==> r.0 == 0,
        r.1 <= r.0,
        h_scroll <= r.0 ==> r.1 == h_scroll,
        h_scroll > r.0 ==> r.1 == r.0,
{
}

/// The font has the size that is set, and 13 where none is; the text is as wide as the view
/// without the gutter and the bar, and never narrower than 40 pixels.
pub proof fn law_the_text_has_its_width(px: i32, r: i32, view_w: i32, gutter_w: i32, w: i32)
    requires
        call_ensures(font_target, (px,), r),
        call_ensures(content_width, (view_w, gutter_w), w),
        view_w - SCROLLBAR_W - gutter_w - 6 <= i32::MAX,
    ensures
        px > 0 ==> r == px,
        px <= 0 ==> r == 13,
        w >= 40,
        w > 40 ==> gutter_w + 6 + w + SCROLLBAR_W == view_w,
        gutter_w + 46 + SCROLLBAR_W <= view_w ==> gutter_w + 6 + w + SCROLLBAR_W == view_w,
{
}

} // verus!
