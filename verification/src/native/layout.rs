//! Layout: cutting a logical line into visual rows for word wrap.
//!
//! Widths are measured per UTF-16 code unit; those of ASCII are cached per
//! font, since log text is mostly ASCII. Every column is a code unit index.

use vstd::prelude::*;

verus! {

/// Width that a character gets when it cannot be measured.
pub const DEFAULT_CHAR_WIDTH: i32 = 8;

/// Narrowest row that text is wrapped into, in pixels.
pub const MIN_ROW_PX: i32 = 10;

/// A visual row: a range of code units.
#[derive(Clone, Copy, Debug)]
pub struct VisualRow {
    pub start: usize,
    pub end: usize,
    pub x_off: i32,
    pub width: i32,
}

/// A logical line that has been laid out, with what painting and hit tests need.
#[derive(Debug)]
pub struct LaidLine {
    pub line: u64,
    pub y_top: i32,
    pub rows: Vec<VisualRow>,
    pub line_h: i32,
    pub char_w: Vec<i32>,
    pub units: Vec<u16>,
    pub text: String,
    pub start_byte: u64,
}

/// Widths of the ASCII characters in the current font.
pub struct CharWidthCache {
    pub ascii: [i32; 128],
    pub font_size_cached: i32,
}

impl Default for CharWidthCache {
    fn default() -> (r: Self)
        ensures
            forall|i: int| 0 <= i < 128 ==> r.ascii[i] == DEFAULT_CHAR_WIDTH,
            r.font_size_cached == -1,
    {
        Self { ascii: [8; 128], font_size_cached: -1 }
    }
}

impl CharWidthCache {
    /// Whether the cache was made for another font size.
    pub fn is_stale(&self, font_size_px: i32) -> (r: bool)
        ensures
            r == (self.font_size_cached != font_size_px),
    {
        self.font_size_cached != font_size_px
    }

    /// Brings the cache to a font size. `measured` holds the widths of the new
    /// font, or nothing where measuring failed; it is looked at only where the
    /// size has changed.
    pub fn ensure(&mut self, font_size_px: i32, measured: Option<[i32; 128]>)
        ensures
            old(self).font_size_cached == font_size_px ==> *final(self) == *old(self),
            old(self).font_size_cached != font_size_px ==> {
                &&& final(self).font_size_cached == font_size_px
                &&& match measured {
                    Some(w) => final(self).ascii == w,
                    None => forall|i: int|
                        0 <= i < 128 ==> final(self).ascii[i] == DEFAULT_CHAR_WIDTH,
                }
            },
    {
        if self.font_size_cached == font_size_px {
            return ;
        }
        self.font_size_cached = font_size_px;
        match measured {
            Some(w) => {
                self.ascii = w;
            },
            None => {
                self.ascii = [8; 128];
            },
        }
    }

    /// Width of a cached character; 0 for one that is not ASCII, which is
    /// measured on its own.
    pub fn width(&self, c: u16) -> (r: i32)
        ensures
            r == if c < 128 {
                self.ascii[c as int]
            } else {
                0
            },
    {
        if c < 128 {
            self.ascii[c as usize]
        } else {
            0
        }
    }
}

/// `measure` gave `m` for the character, which makes its width `w`.
pub open spec fn is_measured<F: Fn(u16) -> Option<i32>>(
    measure: F,
    c: u16,
    m: Option<i32>,
    w: i32,
) -> bool {
    call_ensures(measure, (c,), m) && w == match m {
        Some(x) => x,
        None => DEFAULT_CHAR_WIDTH,
    }
}

/// `w` is the width of a code unit: the cached one for ASCII, the measured one
/// otherwise.
pub open spec fn is_width_of<F: Fn(u16) -> Option<i32>>(
    measure: F,
    ascii: [i32; 128],
    c: u16,
    w: i32,
) -> bool {
    if c < 128 {
        w == ascii[c as int]
    } else {
        exists|m: Option<i32>| is_measured(measure, c, m, w)
    }
}

/// Widths of the code units of a line: ASCII from the cache, the others as
/// `measure` gives them.
pub fn line_char_widths<F: Fn(u16) -> Option<i32>>(
    chars: &[u16],
    ascii: &[i32; 128],
    measure: &F,
    out: &mut Vec<i32>,
)
    requires
        forall|c: u16| c >= 128 ==> call_requires(*measure, (c,)),
    ensures
        final(out)@.len() == chars@.len(),
        forall|i: int|
            0 <= i < chars@.len() ==> is_width_of(*measure, *ascii, chars@[i], #[trigger] final(out)@[i]),
{
    out.clear();
    let mut i: usize = 0;
    while i < chars.len()
        invariant
            i <= chars@.len(),
            out@.len() == i,
            forall|c: u16| c >= 128 ==> call_requires(*measure, (c,)),
            forall|k: int|
                0 <= k < i ==> is_width_of(*measure, *ascii, chars@[k], #[trigger] out@[k]),
        decreases chars@.len() - i,
    {
        let c: u16 = chars[i];
        if c < 128 {
            out.push(ascii[c as usize]);
        } else {
            let m: Option<i32> = (*measure)(c);
            let w: i32 = match m {
                Some(w) => w,
                None => DEFAULT_CHAR_WIDTH,
            };
            assert(is_measured(*measure, c, m, w));
            out.push(w);
        }
        i = i + 1;
    }
}

/// Sum of the widths `widths[i..j]`.
pub open spec fn width_sum(widths: Seq<i32>, i: int, j: int) -> int
    decreases j - i,
{
    if j <= i {
        0
    } else {
        width_sum(widths, i, j - 1) + widths[j - 1]
    }
}

pub open spec fn fits_i32(x: int) -> bool {
    i32::MIN <= x <= i32::MAX
}

/// Width that rows are wrapped into.
pub open spec fn row_limit(max_px: int) -> int {
    if max_px < MIN_ROW_PX {
        MIN_ROW_PX as int
    } else {
        max_px
    }
}

/// Start of the current row and pen position in it, before character `i`.
pub open spec fn pen_before(widths: Seq<i32>, max: int, i: int) -> (int, int)
    decreases i,
{
    if i <= 0 {
        (0, 0)
    } else {
        let (start, x) = pen_before(widths, max, i - 1);
        let w = widths[i - 1];
        if x + w > max && i - 1 > start {
            (i - 1, w as int)
        } else {
            (start, x + w)
        }
    }
}

/// The pen position never leaves the range of `i32`.
pub open spec fn pen_fits(widths: Seq<i32>, max: int) -> bool {
    forall|i: int|
        0 <= i < widths.len() ==> fits_i32(#[trigger] pen_before(widths, max, i).1 + widths[i])
}

/// One row of a greedy wrapping: it holds every character that still fits, and
/// at least one.
pub open spec fn is_greedy_row(row: VisualRow, widths: Seq<i32>, max: int) -> bool {
    &&& row.x_off == 0
    &&& row.start < row.end <= widths.len()
    &&& row.width == width_sum(widths, row.start as int, row.end as int)
    &&& forall|k: int|
        row.start < k < row.end ==> #[trigger] width_sum(widths, row.start as int, k + 1) <= max
}

/// The row is full: the character after it no longer fits.
pub open spec fn is_full_row(row: VisualRow, widths: Seq<i32>, max: int) -> bool {
    row.end < widths.len() && row.width + widths[row.end as int] > max
}

/// `rows` is the greedy wrapping of the widths into rows of `max` pixels.
pub open spec fn is_wrapping(rows: Seq<VisualRow>, widths: Seq<i32>, max: int) -> bool {
    if widths.len() == 0 {
        rows == seq![VisualRow { start: 0, end: 0, x_off: 0, width: 0 }]
    } else {
        &&& rows.len() > 0
        &&& rows[0].start == 0
        &&& rows.last().end == widths.len()
        &&& forall|r: int| 0 <= r < rows.len() ==> is_greedy_row(#[trigger] rows[r], widths, max)
        &&& forall|r: int|
            0 <= r < rows.len() - 1 ==> is_full_row(#[trigger] rows[r], widths, max)
        &&& forall|r: int, q: int|
            #![trigger rows[r], rows[q]]
            0 <= r && q == r + 1 && q < rows.len() ==> rows[q].start == rows[r].end
    }
}

/// Cuts a line, given by the widths of its characters, into visual rows of at
/// most `max_px` pixels (but never less than 10). Rows break between characters.
pub fn wrap_line_into(widths: &[i32], max_px: i32, out: &mut Vec<VisualRow>)
    requires
        pen_fits(widths@, row_limit(max_px as int)),
    ensures
        is_wrapping(final(out)@, widths@, row_limit(max_px as int)),
{
    out.clear();
    if widths.len() == 0 {
        out.push(VisualRow { start: 0, end: 0, x_off: 0, width: 0 });
        assert(out@ =~= seq![VisualRow { start: 0, end: 0, x_off: 0, width: 0 }]);
        return ;
    }
    let max: i32 = if max_px < MIN_ROW_PX {
        MIN_ROW_PX
    } else {
        max_px
    };
    let mut start: usize = 0;
    let mut x: i32 = 0;
    let mut i: usize = 0;
    while i < widths.len()
        invariant
            i <= widths@.len(),
            widths@.len() > 0,
            max == row_limit(max_px as int),
            pen_fits(widths@, max as int),
            start <= i,
            i > 0 ==> start < i,
            pen_before(widths@, max as int, i as int) == (start as int, x as int),
            x == width_sum(widths@, start as int, i as int),
            forall|k: int|
                start < k < i ==> #[trigger] width_sum(widths@, start as int, k + 1) <= max,
            out@.len() == 0 ==> start == 0,
            out@.len() > 0 ==> out@[0].start == 0 && out@.last().end == start,
            forall|r: int|
                0 <= r < out@.len() ==> is_greedy_row(#[trigger] out@[r], widths@, max as int)
                    && is_full_row(out@[r], widths@, max as int),
            forall|r: int, q: int|
                #![trigger out@[r], out@[q]]
                0 <= r && q == r + 1 && q < out@.len() ==> out@[q].start == out@[r].end,
        decreases widths@.len() - i,
    {
        let w: i32 = widths[i];
        assert(fits_i32(pen_before(widths@, max as int, i as int).1 + w));
        let ghost prev = out@;
        if x + w > max && i > start {
            out.push(VisualRow { start, end: i, x_off: 0, width: x });
            assert(prev.len() > 0 ==> out@[prev.len() - 1] == prev.last());
            start = i;
            x = 0;
            assert(width_sum(widths@, i as int, i as int) == 0);
        }
        assert(width_sum(widths@, start as int, i + 1) == width_sum(
            widths@,
            start as int,
            i as int,
        ) + w);
        x = x + w;
        i = i + 1;
    }
    let ghost prev = out@;
    out.push(VisualRow { start, end: widths.len(), x_off: 0, width: x });
    assert(prev.len() > 0 ==> out@[prev.len() - 1] == prev.last());
}

/// Pixel width of `widths[start..k]`.
pub fn prefix_width(widths: &[i32], start: usize, k: usize) -> (r: i32)
    requires
        start <= k <= widths@.len(),
        forall|j: int|
            start <= j <= k ==> fits_i32(#[trigger] width_sum(widths@, start as int, j)),
    ensures
        r == width_sum(widths@, start as int, k as int),
{
    let mut sum: i32 = 0;
    let mut i: usize = start;
    while i < k
        invariant
            start <= i <= k <= widths@.len(),
            forall|j: int|
                start <= j <= k ==> fits_i32(#[trigger] width_sum(widths@, start as int, j)),
            sum == width_sum(widths@, start as int, i as int),
        decreases k - i,
    {
        assert(fits_i32(width_sum(widths@, start as int, i + 1)));
        sum = sum + widths[i];
        i = i + 1;
    }
    sum
}

// ---------------------------------------------------------------------------
// Laws
// ---------------------------------------------------------------------------

/// With widths that are not negative, wrapping works on every line in which a
/// single character and a full row stay within `i32`.
pub proof fn law_ordinary_widths_fit(widths: Seq<i32>, max: int)
    requires
        0 <= max <= i32::MAX,
        forall|i: int|
            0 <= i < widths.len() ==> 0 <= #[trigger] widths[i] && 2 * widths[i] <= i32::MAX
                && widths[i] + max <= i32::MAX,
    ensures
        pen_fits(widths, max),
{
    assert forall|i: int| 0 <= i < widths.len() implies fits_i32(
        #[trigger] pen_before(widths, max, i).1 + widths[i],
    ) by {
        lemma_pen_bounded(widths, max, i);
        if i > 0 {
            lemma_pen_le(widths, max, i);
        }
    }
}

proof fn lemma_pen_bounded(widths: Seq<i32>, max: int, i: int)
    requires
        0 <= i <= widths.len(),
        forall|k: int| 0 <= k < widths.len() ==> 0 <= #[trigger] widths[k],
    ensures
        pen_before(widths, max, i).1 >= 0,
        0 <= pen_before(widths, max, i).0,
        i > 0 ==> pen_before(widths, max, i).0 < i,
    decreases i,
{
    if i > 0 {
        lemma_pen_bounded(widths, max, i - 1);
    }
}

proof fn lemma_pen_le(widths: Seq<i32>, max: int, i: int)
    requires
        0 < i <= widths.len(),
        forall|k: int| 0 <= k < widths.len() ==> 0 <= #[trigger] widths[k],
    ensures
        pen_before(widths, max, i).1 <= max || pen_before(widths, max, i).1 == widths[i - 1],
{
    lemma_pen_bounded(widths, max, i - 1);
}

/// A row is wider than the limit only where it holds a single character.
pub proof fn law_rows_fit_the_width(rows: Seq<VisualRow>, widths: Seq<i32>, max: int, r: int)
    requires
        is_wrapping(rows, widths, max),
        widths.len() > 0,
        0 <= r < rows.len(),
        rows[r].end - rows[r].start > 1,
    ensures
        rows[r].width <= max,
{
    let row = rows[r];
    assert(is_greedy_row(row, widths, max));
    assert(width_sum(widths, row.start as int, (row.end - 1) + 1) <= max);
}

/// Every character stands in one row: the rows cover the line from its start
/// to its end without gap or overlap.
pub proof fn law_rows_cover_the_line(rows: Seq<VisualRow>, widths: Seq<i32>, max: int, k: int) -> (r:
    int)
    requires
        is_wrapping(rows, widths, max),
        0 <= k < widths.len(),
    ensures
        0 <= r < rows.len(),
        rows[r].start <= k < rows[r].end,
        forall|q: int|
            0 <= q < rows.len() && q != r ==> !(#[trigger] rows[q].start <= k < rows[q].end),
{
    let r = lemma_row_of(rows, widths, max, k, rows.len() - 1);
    assert forall|q: int| 0 <= q < rows.len() && q != r implies !(#[trigger] rows[q].start <= k
        < rows[q].end) by {
        if q < r {
            lemma_rows_ascend(rows, widths, max, q, r);
        } else {
            lemma_rows_ascend(rows, widths, max, r, q);
        }
    }
    r
}

proof fn lemma_row_of(rows: Seq<VisualRow>, widths: Seq<i32>, max: int, k: int, last: int) -> (r:
    int)
    requires
        is_wrapping(rows, widths, max),
        0 <= last < rows.len(),
        0 <= k < rows[last].end,
        widths.len() > 0,
    ensures
        0 <= r <= last,
        rows[r].start <= k < rows[r].end,
    decreases last,
{
    if rows[last].start <= k {
        last
    } else {
        assert(last > 0);
        assert(rows[last].start == rows[last - 1].end);
        lemma_row_of(rows, widths, max, k, last - 1)
    }
}

proof fn lemma_rows_ascend(rows: Seq<VisualRow>, widths: Seq<i32>, max: int, a: int, b: int)
    requires
        is_wrapping(rows, widths, max),
        widths.len() > 0,
        0 <= a < b < rows.len(),
    ensures
        rows[a].end <= rows[b].start,
    decreases b - a,
{
    assert(rows[b].start == rows[b - 1].end);
    assert(is_greedy_row(rows[b - 1], widths, max));
    if a < b - 1 {
        lemma_rows_ascend(rows, widths, max, a, b - 1);
    }
}

/// The rows of a line follow each other from its first unit to its last, each with at
/// least one unit, no wider than the limit unless it holds a single unit, and none could
/// take the unit behind it.
pub proof fn law_lines_are_wrapped(
    widths: &[i32],
    max_px: i32,
    out: &mut Vec<VisualRow>,
    done: (),
    r: int,
    wide: i32,
)
    requires
        call_ensures(wrap_line_into, (widths, max_px, out), done),
        widths@.len() > 0,
        0 <= r < final(out)@.len(),
        call_ensures(
            prefix_width,
            (widths, final(out)@[r].start, final(out)@[r].end),
            wide,
        ),
    ensures
        ({
            let rows = final(out)@;
            let limit = if max_px >= 10 {
                max_px as int
            } else {
                10
            };
            &&& rows[0].start == 0
            &&& rows.last().end == widths@.len()
            &&& rows[r].start < rows[r].end
            &&& r + 1 < rows.len() ==> rows[r + 1].start == rows[r].end
            &&& rows[r].width == wide
            &&& rows[r].x_off == 0
            &&& rows[r].end - rows[r].start > 1 ==> wide <= limit
            &&& r + 1 < rows.len() ==> wide + widths@[rows[r].end as int] > limit
        }),
{
    let rows = final(out)@;
    assert(is_greedy_row(rows[r], widths@, row_limit(max_px as int)));
    if rows[r].end - rows[r].start > 1 {
        law_rows_fit_the_width(rows, widths@, row_limit(max_px as int), r);
    }
    if r + 1 < rows.len() {
        assert(is_full_row(rows[r], widths@, row_limit(max_px as int)));
        assert(rows[r + 1].start == rows[r].end);
    }
}

/// The width of a range is that of its parts together; that of a single unit is its own.
pub proof fn law_widths_add_up(
    widths: &[i32],
    a: usize,
    b: usize,
    c: usize,
    first: i32,
    second: i32,
    both: i32,
)
    requires
        a <= b <= c <= widths@.len(),
        call_ensures(prefix_width, (widths, a, b), first),
        call_ensures(prefix_width, (widths, b, c), second),
        call_ensures(prefix_width, (widths, a, c), both),
    ensures
        both == first + second,
        b == a ==> first == 0,
        b == a + 1 ==> first == widths@[a as int],
{
    lemma_widths_split(widths@, a as int, b as int, c as int);
}

proof fn lemma_widths_split(w: Seq<i32>, a: int, b: int, c: int)
    requires
        a <= b <= c,
    ensures
        width_sum(w, a, c) == width_sum(w, a, b) + width_sum(w, b, c),
        b == a + 1 ==> width_sum(w, a, b) == w[a],
    decreases c - b,
{
    if b < c {
        lemma_widths_split(w, a, b, c - 1);
    }
    if b == a + 1 {
        assert(width_sum(w, a, a) == 0);
    }
}

/// A unit of ASCII has the width in the table, another one that which was measured.
pub proof fn law_units_have_their_widths<F: Fn(u16) -> Option<i32>>(
    chars: &[u16],
    ascii: &[i32; 128],
    measure: &F,
    out: &mut Vec<i32>,
    done: (),
    i: int,
    w: i32,
)
    requires
        call_ensures(line_char_widths::<F>, (chars, ascii, measure, out), done),
        0 <= i < chars@.len(),
    ensures
        final(out)@.len() == chars@.len(),
        chars@[i] < 128 ==> final(out)@[i] == ascii[chars@[i] as int],
        chars@[i] >= 128 && (forall|m: Option<i32>| #[trigger]
            call_ensures(*measure, (chars@[i],), m) ==> m == Some(w)) ==> final(out)@[i] == w,
        chars@[i] >= 128 && (forall|m: Option<i32>| #[trigger]
            call_ensures(*measure, (chars@[i],), m) ==> m is None) ==> final(out)@[i] == 8,
{
    assert(is_width_of(*measure, *ascii, chars@[i], final(out)@[i]));
    if chars@[i] >= 128 {
        let m = choose|m: Option<i32>| is_measured(*measure, chars@[i], m, final(out)@[i]);
        assert(call_ensures(*measure, (chars@[i],), m));
    }
}

/// A cache that was brought to a font size is not stale for it, and hands out the widths
/// that were measured for it.
pub proof fn law_the_cache_follows_the_font(
    cache: &mut CharWidthCache,
    size: i32,
    measured: [i32; 128],
    done: (),
    stale: bool,
    c: u16,
    w: i32,
)
    requires
        call_ensures(CharWidthCache::ensure, (cache, size, Some(measured)), done),
        call_ensures(CharWidthCache::is_stale, (&*final(cache), size), stale),
        call_ensures(CharWidthCache::width, (&*final(cache), c), w),
        old(cache).font_size_cached != size,
    ensures
        !stale,
        c < 128 ==> w == measured[c as int],
        c >= 128 ==> w == 0,
{
}

/// An empty line takes one row, which holds nothing and has no width.
pub proof fn law_empty_lines_take_a_row(
    widths: &[i32],
    max_px: i32,
    out: &mut Vec<VisualRow>,
    done: (),
)
    requires
        call_ensures(wrap_line_into, (widths, max_px, out), done),
        widths@.len() == 0,
    ensures
        final(out)@.len() == 1,
        final(out)@[0].start == 0 && final(out)@[0].end == 0,
        final(out)@[0].width == 0 && final(out)@[0].x_off == 0,
{
}

} // verus!
