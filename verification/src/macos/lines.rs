//! Lines in view: which are painted, and which one a place is on. Lines are of
//! different heights where they wrap, so they are gone through one by one.

use vstd::prelude::*;
use vstd::utf8::encode_utf8;

use crate::levels::{level_of, uppercase, Level};
use crate::macos::app::{color_of_level, detect_level, row_color, split_matches};
use crate::macos::bridge::DisplayLine;
use crate::macos::selection::TextPoint;
use crate::macos::text::{utf16_to_byte, MAX_SEGMENTS};
use crate::macos::theme::{Rgba, ThemeColors};
use crate::text::{byte_at, char_index_at_unit, utf8_len};

verus! {

broadcast use vstd::string::group_string_axioms;

/// Where a line lies.
#[derive(Clone, Copy, Debug, PartialEq, Eq, Structural)]
pub enum Place {
    /// It ends above the view.
    Above,
    Inside,
    /// It starts below the view.
    Below,
}

/// A line that is painted.
#[derive(Debug)]
pub struct VisRow {
    pub row: u64,
    /// Rows of the lines before it, from the first one that was looked at.
    pub above: u64,
    /// Rows that it takes.
    pub rows: u64,
    pub text: String,
    pub matches: Vec<(usize, usize)>,
    pub current_matches: Vec<(usize, usize)>,
    pub text_color: Rgba,
}

/// A painted line as contracts speak of it.
pub struct VisView {
    pub row: int,
    pub above: int,
    pub rows: int,
    pub text: Seq<char>,
    pub matches: Seq<(usize, usize)>,
    pub current_matches: Seq<(usize, usize)>,
    pub text_color: Rgba,
}

pub open spec fn vis_view(v: VisRow) -> VisView {
    VisView {
        row: v.row as int,
        above: v.above as int,
        rows: v.rows as int,
        text: v.text@,
        matches: v.matches@,
        current_matches: v.current_matches@,
        text_color: v.text_color,
    }
}

/// A line that was looked at.
pub struct Seen {
    pub display: DisplayLine,
    pub rows: usize,
    pub place: Place,
}

/// Rows of the first `n` lines that were looked at.
pub open spec fn rows_above(seen: Seq<Seen>, n: int) -> int
    decreases n,
{
    if n <= 0 {
        0
    } else {
        rows_above(seen, n - 1) + seen[n - 1].rows
    }
}

/// The line `seen[i]` was read, measured and placed below those before it.
pub open spec fn is_seen<
    R: Fn(u64) -> DisplayLine,
    V: Fn(&String) -> usize,
    P: Fn(u64, u64) -> Place,
>(read: R, visual: V, place: P, wrap: bool, first: int, seen: Seq<Seen>, i: int) -> bool {
    let s = seen[i];
    &&& call_ensures(read, ((first + i) as u64,), s.display)
    &&& if wrap {
        call_ensures(visual, (&s.display.text,), s.rows)
    } else {
        s.rows == 1
    }
    &&& call_ensures(place, (rows_above(seen, i) as u64, s.rows as u64), s.place)
}

/// How a line is painted.
pub open spec fn painted(
    first: int,
    seen: Seq<Seen>,
    i: int,
    coloring: bool,
    theme: ThemeColors,
) -> VisView {
    let d = seen[i].display;
    let level = level_of(encode_utf8(uppercase(d.text@)));
    VisView {
        row: first + i,
        above: rows_above(seen, i),
        rows: seen[i].rows as int,
        text: d.text@,
        matches: if d.is_current {
            Seq::empty()
        } else {
            d.matches@
        },
        current_matches: if d.is_current {
            d.matches@
        } else {
            Seq::empty()
        },
        text_color: if coloring && level is Some {
            color_of_level(level->0, theme)
        } else {
            theme.text_primary
        },
    }
}

/// Those of the first `n` lines that are in view.
pub open spec fn painted_rows(
    first: int,
    seen: Seq<Seen>,
    n: int,
    coloring: bool,
    theme: ThemeColors,
) -> Seq<VisView>
    decreases n,
{
    if n <= 0 {
        Seq::empty()
    } else {
        let before = painted_rows(first, seen, n - 1, coloring, theme);
        if seen[n - 1].place == Place::Inside {
            before.push(painted(first, seen, n - 1, coloring, theme))
        } else {
            before
        }
    }
}

/// The lines that were looked at: one after another until one lies below the
/// view or there are no more.
pub open spec fn is_walk<
    R: Fn(u64) -> DisplayLine,
    V: Fn(&String) -> usize,
    P: Fn(u64, u64) -> Place,
>(read: R, visual: V, place: P, wrap: bool, first: int, last: int, seen: Seq<Seen>) -> bool {
    &&& forall|i: int|
        0 <= i < seen.len() ==> #[trigger] is_seen(read, visual, place, wrap, first, seen, i)
    &&& forall|i: int| 0 <= i < seen.len() - 1 ==> (#[trigger] seen[i]).place != Place::Below
    &&& seen.len() <= last - first || seen.len() == 0
    &&& seen.len() >= last - first || (seen.len() > 0 && seen.last().place == Place::Below)
}

/// What is told of the lines does not change where one more is looked at.
proof fn lemma_seen_prefix<
    R: Fn(u64) -> DisplayLine,
    V: Fn(&String) -> usize,
    P: Fn(u64, u64) -> Place,
>(
    read: R,
    visual: V,
    place: P,
    wrap: bool,
    coloring: bool,
    theme: ThemeColors,
    first: int,
    seen: Seq<Seen>,
    s: Seen,
    i: int,
)
    requires
        0 <= i <= seen.len(),
    ensures
        rows_above(seen.push(s), i) == rows_above(seen, i),
        i < seen.len() ==> is_seen(read, visual, place, wrap, first, seen.push(s), i) == is_seen(
            read,
            visual,
            place,
            wrap,
            first,
            seen,
            i,
        ),
        painted_rows(first, seen.push(s), i, coloring, theme) == painted_rows(
            first,
            seen,
            i,
            coloring,
            theme,
        ),
    decreases i,
{
    if i > 0 {
        lemma_seen_prefix(read, visual, place, wrap, coloring, theme, first, seen, s, i - 1);
        assert(seen.push(s)[i - 1] == seen[i - 1]);
    }
    if i < seen.len() {
        assert(seen.push(s)[i] == seen[i]);
    }
}

/// `rows` are the lines in view, gone through one by one.
pub open spec fn are_painted<
    R: Fn(u64) -> DisplayLine,
    V: Fn(&String) -> usize,
    P: Fn(u64, u64) -> Place,
>(
    read: R,
    visual: V,
    place: P,
    wrap: bool,
    coloring: bool,
    theme: ThemeColors,
    first: int,
    last: int,
    rows: Seq<VisRow>,
) -> bool {
    exists|seen: Seq<Seen>| #[trigger]
        is_walk(read, visual, place, wrap, first, last, seen) && rows.map_values(
            |v: VisRow| vis_view(v),
        ) == painted_rows(first, seen, seen.len() as int, coloring, theme)
}

/// The line `seen[i]` as it is painted.
fn paint_row(
    row: u64,
    above: u64,
    rows: u64,
    display: DisplayLine,
    coloring: bool,
    theme: &ThemeColors,
) -> (r: VisRow)
    ensures
        forall|first: int, seen: Seq<Seen>, i: int|
            row == first + i && seen[i].display == display && seen[i].rows == rows && rows_above(
                seen,
                i,
            ) == above ==> vis_view(r) == #[trigger] painted(first, seen, i, coloring, *theme),
{
    let (matches, current_matches) = split_matches(&display);
    let text_color: Rgba = row_color(detect_level(display.text.as_str()), coloring, theme);
    assert(display.is_current ==> matches@ =~= Seq::empty());
    assert(!display.is_current ==> current_matches@ =~= Seq::empty());
    VisRow { row, above, rows, text: display.text, matches, current_matches, text_color }
}

/// Lines that are painted, of those from `first` to `last`. `read` reads a line,
/// `visual` tells how many rows a text takes where it wraps, and `place` where a
/// line lies that has so many rows above it and takes so many.
pub fn collect_rows<
    R: Fn(u64) -> DisplayLine,
    V: Fn(&String) -> usize,
    P: Fn(u64, u64) -> Place,
>(
    first: u64,
    last: u64,
    wrap: bool,
    coloring: bool,
    theme: &ThemeColors,
    read: R,
    visual: V,
    place: P,
) -> (r: Vec<VisRow>)
    requires
        (last - first) * MAX_SEGMENTS <= u64::MAX,
        forall|line: u64| #[trigger] call_requires(read, (line,)),
        forall|text: &String| #[trigger] call_requires(visual, (text,)),
        forall|text: &String, n: usize| #[trigger]
            call_ensures(visual, (text,), n) ==> n <= MAX_SEGMENTS,
        forall|above: u64, rows: u64| #[trigger] call_requires(place, (above, rows)),
    ensures
        are_painted(
            read,
            visual,
            place,
            wrap,
            coloring,
            *theme,
            first as int,
            last as int,
            r@,
        ),
{
    let ghost mut seen: Seq<Seen> = Seq::empty();
    let mut out: Vec<VisRow> = Vec::new();
    let mut row: u64 = first;
    let mut above: u64 = 0;
    let mut more: bool = true;
    let ghost f = |v: VisRow| vis_view(v);
    assert(out@.map_values(f) =~= Seq::empty());
    while more && row < last
        invariant
            (last - first) * MAX_SEGMENTS <= u64::MAX,
            forall|line: u64| #[trigger] call_requires(read, (line,)),
            forall|text: &String| #[trigger] call_requires(visual, (text,)),
            forall|text: &String, n: usize| #[trigger]
                call_ensures(visual, (text,), n) ==> n <= MAX_SEGMENTS,
            forall|a: u64, rows: u64| #[trigger] call_requires(place, (a, rows)),
            first <= row,
            row <= last || row == first,
            seen.len() == if more {
                row - first
            } else {
                row - first + 1
            },
            !more ==> row < last && seen.len() > 0 && seen.last().place == Place::Below,
            more ==> above == rows_above(seen, seen.len() as int),
            above <= (row - first) * MAX_SEGMENTS,
            f == (|v: VisRow| vis_view(v)),
            forall|i: int|
                0 <= i < seen.len() ==> #[trigger] is_seen(
                    read,
                    visual,
                    place,
                    wrap,
                    first as int,
                    seen,
                    i,
                ),
            forall|i: int|
                0 <= i < seen.len() - 1 ==> (#[trigger] seen[i]).place != Place::Below,
            more ==> forall|i: int|
                0 <= i < seen.len() ==> (#[trigger] seen[i]).place != Place::Below,
            out@.map_values(f) == painted_rows(
                first as int,
                seen,
                seen.len() as int,
                coloring,
                *theme,
            ),
        decreases
            last - row,
            if more {
                1int
            } else {
                0int
            },
    {
        let display: DisplayLine = read(row);
        let rows: usize = if wrap {
            visual(&display.text)
        } else {
            1
        };
        let where_it_is: Place = place(above, rows as u64);
        let ghost before = seen;
        let ghost shown = out@;
        let ghost s = Seen { display, rows, place: where_it_is };
        proof {
            seen = seen.push(s);
            let n = before.len() as int;
            lemma_seen_prefix(
                read,
                visual,
                place,
                wrap,
                coloring,
                *theme,
                first as int,
                before,
                s,
                n,
            );
            assert(seen[n] == s);
            assert forall|i: int| 0 <= i < seen.len() implies #[trigger] is_seen(
                read,
                visual,
                place,
                wrap,
                first as int,
                seen,
                i,
            ) by {
                if i < n {
                    lemma_seen_prefix(
                        read,
                        visual,
                        place,
                        wrap,
                        coloring,
                        *theme,
                        first as int,
                        before,
                        s,
                        i,
                    );
                    assert(is_seen(read, visual, place, wrap, first as int, before, i));
                }
            }
            assert forall|i: int| 0 <= i < seen.len() - 1 implies (#[trigger] seen[i]).place
                != Place::Below by {
                assert(seen[i] == before[i]);
            }
            assert(rows <= MAX_SEGMENTS);
            assert((row - first + 1) * MAX_SEGMENTS <= (last - first) * MAX_SEGMENTS)
                by (nonlinear_arith)
                requires
                    row < last,
            ;
            assert((row - first + 1) * MAX_SEGMENTS == (row - first) * MAX_SEGMENTS + MAX_SEGMENTS)
                by (nonlinear_arith);
        }
        match where_it_is {
            Place::Below => {
                more = false;
            },
            Place::Inside => {
                let v: VisRow = paint_row(row, above, rows as u64, display, coloring, theme);
                proof {
                    assert(vis_view(v) == painted(
                        first as int,
                        seen,
                        before.len() as int,
                        coloring,
                        *theme,
                    ));
                }
                out.push(v);
                assert(out@.map_values(f) =~= shown.map_values(f).push(vis_view(v)));
                above = above + rows as u64;
                row = row + 1;
            },
            Place::Above => {
                above = above + rows as u64;
                row = row + 1;
            },
        }
    }
    assert(is_walk(read, visual, place, wrap, first as int, last as int, seen));
    out
}

// ---------------------------------------------------------------------------
// The line at a place
// ---------------------------------------------------------------------------

/// Rows of the first `n` lines.
pub open spec fn sum_rows(heights: Seq<usize>, n: int) -> int
    decreases n,
{
    if n <= 0 {
        0
    } else {
        sum_rows(heights, n - 1) + heights[n - 1]
    }
}

/// `rows` is how many rows a line takes.
pub open spec fn takes_rows<R: Fn(u64) -> String, V: Fn(&String) -> usize>(
    read: R,
    visual: V,
    wrap: bool,
    line: int,
    rows: usize,
) -> bool {
    if wrap {
        exists|text: String| #[trigger]
            call_ensures(read, (line as u64,), text) && call_ensures(visual, (&text,), rows)
    } else {
        rows == 1
    }
}

/// The place is, or is not, on the line `first + i`.
pub open spec fn is_asked<
    R: Fn(u64) -> String,
    V: Fn(&String) -> usize,
    H: Fn(u64, u64) -> bool,
>(
    read: R,
    visual: V,
    holds: H,
    wrap: bool,
    first: int,
    heights: Seq<usize>,
    i: int,
    answer: bool,
) -> bool {
    &&& takes_rows(read, visual, wrap, first + i, heights[i])
    &&& call_ensures(holds, (sum_rows(heights, i) as u64, heights[i] as u64), answer)
}

/// What is found by asking one line after another: the first one that the place
/// is on, nothing where it is on none.
pub open spec fn is_found_by<
    R: Fn(u64) -> String,
    V: Fn(&String) -> usize,
    H: Fn(u64, u64) -> bool,
>(
    read: R,
    visual: V,
    holds: H,
    wrap: bool,
    first: int,
    total: int,
    heights: Seq<usize>,
    found: Option<(u64, u64)>,
) -> bool {
    let n = heights.len() as int;
    match found {
        Some((line, above)) => {
            &&& n > 0 && line == first + n - 1 && line < total
            &&& above == sum_rows(heights, n - 1)
            &&& forall|i: int|
                0 <= i < n - 1 ==> #[trigger] is_asked(
                    read,
                    visual,
                    holds,
                    wrap,
                    first,
                    heights,
                    i,
                    false,
                )
            &&& is_asked(read, visual, holds, wrap, first, heights, n - 1, true)
        },
        None => {
            &&& n == if first <= total {
                total - first
            } else {
                0
            }
            &&& forall|i: int|
                0 <= i < n ==> #[trigger] is_asked(
                    read,
                    visual,
                    holds,
                    wrap,
                    first,
                    heights,
                    i,
                    false,
                )
        },
    }
}

proof fn lemma_asked_prefix<
    R: Fn(u64) -> String,
    V: Fn(&String) -> usize,
    H: Fn(u64, u64) -> bool,
>(
    read: R,
    visual: V,
    holds: H,
    wrap: bool,
    first: int,
    heights: Seq<usize>,
    n: usize,
    i: int,
)
    requires
        0 <= i <= heights.len(),
    ensures
        sum_rows(heights.push(n), i) == sum_rows(heights, i),
        i < heights.len() ==> is_asked(read, visual, holds, wrap, first, heights.push(n), i, false)
            == is_asked(read, visual, holds, wrap, first, heights, i, false),
    decreases i,
{
    if i > 0 {
        lemma_asked_prefix(read, visual, holds, wrap, first, heights, n, i - 1);
        assert(heights.push(n)[i - 1] == heights[i - 1]);
    }
    if i < heights.len() {
        assert(heights.push(n)[i] == heights[i]);
    }
}

/// `found` is the first line, from `first` on, that `holds` says yes to, with the rows
/// above it; nothing where it says yes to none.
pub open spec fn is_found<R: Fn(u64) -> String, V: Fn(&String) -> usize, H: Fn(u64, u64) -> bool>(
    read: R,
    visual: V,
    holds: H,
    wrap: bool,
    first: int,
    total: int,
    found: Option<(u64, u64)>,
) -> bool {
    exists|heights: Seq<usize>| #[trigger]
        is_found_by(read, visual, holds, wrap, first, total, heights, found)
}

/// The line that a place is on, and the rows between `first` and it. `holds`
/// tells whether the place is above the end of a line that has so many rows
/// above it and takes so many.
pub fn line_at<R: Fn(u64) -> String, V: Fn(&String) -> usize, H: Fn(u64, u64) -> bool>(
    first: u64,
    total: u64,
    wrap: bool,
    read: R,
    visual: V,
    holds: H,
) -> (r: Option<(u64, u64)>)
    requires
        (total - first) * MAX_SEGMENTS <= u64::MAX,
        forall|line: u64| #[trigger] call_requires(read, (line,)),
        forall|text: &String| #[trigger] call_requires(visual, (text,)),
        forall|text: &String, n: usize| #[trigger]
            call_ensures(visual, (text,), n) ==> n <= MAX_SEGMENTS,
        forall|above: u64, rows: u64| #[trigger] call_requires(holds, (above, rows)),
    ensures
        is_found(read, visual, holds, wrap, first as int, total as int, r),
{
    let ghost mut heights: Seq<usize> = Seq::empty();
    let mut row: u64 = first;
    let mut above: u64 = 0;
    while row < total
        invariant
            (total - first) * MAX_SEGMENTS <= u64::MAX,
            forall|line: u64| #[trigger] call_requires(read, (line,)),
            forall|text: &String| #[trigger] call_requires(visual, (text,)),
            forall|text: &String, n: usize| #[trigger]
                call_ensures(visual, (text,), n) ==> n <= MAX_SEGMENTS,
            forall|a: u64, rows: u64| #[trigger] call_requires(holds, (a, rows)),
            first <= row,
            row <= total || row == first,
            heights.len() == row - first,
            above == sum_rows(heights, heights.len() as int),
            above <= (row - first) * MAX_SEGMENTS,
            forall|i: int|
                0 <= i < heights.len() ==> #[trigger] is_asked(
                    read,
                    visual,
                    holds,
                    wrap,
                    first as int,
                    heights,
                    i,
                    false,
                ),
        decreases total - row,
    {
        let text: String = read(row);
        let rows: usize = if wrap {
            visual(&text)
        } else {
            1
        };
        let found: bool = holds(above, rows as u64);
        let ghost before = heights;
        proof {
            heights = heights.push(rows);
            let n = before.len() as int;
            assert(heights[n] == rows);
            lemma_asked_prefix(read, visual, holds, wrap, first as int, before, rows, n);
            assert((first + n) as u64 == row);
            assert(call_ensures(read, (row,), text));
            assert(takes_rows(read, visual, wrap, first + n, rows));
            assert(is_asked(read, visual, holds, wrap, first as int, heights, n, found));
            assert forall|i: int| 0 <= i < n implies #[trigger] is_asked(
                read,
                visual,
                holds,
                wrap,
                first as int,
                heights,
                i,
                false,
            ) by {
                lemma_asked_prefix(read, visual, holds, wrap, first as int, before, rows, i);
                assert(is_asked(read, visual, holds, wrap, first as int, before, i, false));
            }
            assert((row - first + 1) * MAX_SEGMENTS <= (total - first) * MAX_SEGMENTS)
                by (nonlinear_arith)
                requires
                    row < total,
            ;
            assert((row - first + 1) * MAX_SEGMENTS == (row - first) * MAX_SEGMENTS + MAX_SEGMENTS)
                by (nonlinear_arith);
        }
        if found {
            assert(is_found_by(
                read,
                visual,
                holds,
                wrap,
                first as int,
                total as int,
                heights,
                Some((row, above)),
            ));
            return Some((row, above));
        }
        above = above + rows as u64;
        row = row + 1;
    }
    assert(is_found_by(read, visual, holds, wrap, first as int, total as int, heights, None));
    None
}

/// The segment of a wrapped line at some rows below its top; the last one where
/// there are not as many.
pub fn segment_at(rows_down: usize, rows: usize) -> (r: usize)
    ensures
        r == if rows_down < rows {
            rows_down as int
        } else if rows > 0 {
            rows - 1
        } else {
            0
        },
{
    if rows_down < rows {
        rows_down
    } else if rows > 0 {
        rows - 1
    } else {
        0
    }
}

/// `p` is the place that was pointed at.
pub open spec fn is_hit<R: Fn(u64) -> String, U: Fn(&String) -> usize>(
    read: R,
    unit_at: U,
    total: u64,
    line: Option<u64>,
    p: TextPoint,
) -> bool {
    match line {
        Some(n) => p.line == n && exists|text: String, unit: usize| #[trigger]
            call_ensures(read, (n,), text) && #[trigger] call_ensures(unit_at, (&text,), unit)
                && p.byte == byte_at(text@, char_index_at_unit(text@, unit as int)),
        None => p.line == total - 1 && exists|text: String| #[trigger]
            call_ensures(read, ((total - 1) as u64,), text) && p.byte == utf8_len(text@),
    }
}

/// The place in the text that was pointed at. `line` is the line that was found
/// there; below the last line it is the end of the text. `unit_at` tells the
/// code unit of a text that was pointed at.
pub fn hit_test<R: Fn(u64) -> String, U: Fn(&String) -> usize>(
    file_open: bool,
    total: u64,
    line: Option<u64>,
    read: R,
    unit_at: U,
) -> (r: Option<TextPoint>)
    requires
        forall|line: u64| #[trigger] call_requires(read, (line,)),
        forall|text: &String| #[trigger] call_requires(unit_at, (text,)),
    ensures
        r is None == (!file_open || total == 0),
        r is Some ==> is_hit(read, unit_at, total, line, r->0),
{
    if !file_open || total == 0 {
        return None;
    }
    match line {
        Some(n) => {
            let text: String = read(n);
            let unit: usize = unit_at(&text);
            Some(TextPoint { line: n, byte: utf16_to_byte(text.as_str(), unit) })
        },
        None => {
            let text: String = read(total - 1);
            Some(TextPoint { line: total - 1, byte: text.as_str().as_bytes().len() })
        },
    }
}

// ---------------------------------------------------------------------------
// Laws
// ---------------------------------------------------------------------------

/// Pointing agrees with painting: where the lines are gone through from the same
/// one and take the same rows, the first line that a row of the text is above
/// the end of is the line that is painted at that row, with as many rows above.
pub proof fn law_hit_is_where_painted(seen: Seq<Seen>, heights: Seq<usize>, n: int, row: int)
    requires
        0 <= n < seen.len(),
        n < heights.len(),
        forall|i: int| 0 <= i <= n ==> (#[trigger] heights[i]) == seen[i].rows,
        rows_above(seen, n) <= row < rows_above(seen, n) + seen[n].rows,
    ensures
        sum_rows(heights, n) == rows_above(seen, n),
        row < sum_rows(heights, n) + heights[n],
        forall|j: int|
            0 <= j < n ==> row >= #[trigger] sum_rows(heights, j) + heights[j],
{
    lemma_same_rows(seen, heights, n);
    assert forall|j: int| 0 <= j < n implies row >= #[trigger] sum_rows(heights, j)
        + heights[j] by {
        lemma_rows_grow(heights, j + 1, n);
    }
}

proof fn lemma_same_rows(seen: Seq<Seen>, heights: Seq<usize>, n: int)
    requires
        0 <= n < seen.len(),
        n < heights.len(),
        forall|i: int| 0 <= i <= n ==> (#[trigger] heights[i]) == seen[i].rows,
    ensures
        sum_rows(heights, n) == rows_above(seen, n),
    decreases n,
{
    if n > 0 {
        lemma_same_rows(seen, heights, n - 1);
        assert(heights[n - 1] == seen[n - 1].rows);
    }
}

proof fn lemma_rows_grow(heights: Seq<usize>, j: int, n: int)
    requires
        0 <= j <= n,
    ensures
        sum_rows(heights, j) <= sum_rows(heights, n),
    decreases n - j,
{
    if j < n {
        lemma_rows_grow(heights, j, n - 1);
    }
}

/// Where nothing is out of view, all lines are painted.
proof fn lemma_all_are_painted(
    first: int,
    seen: Seq<Seen>,
    n: int,
    coloring: bool,
    theme: ThemeColors,
)
    requires
        0 <= n <= seen.len(),
        forall|i: int| 0 <= i < n ==> (#[trigger] seen[i]).place == Place::Inside,
    ensures
        painted_rows(first, seen, n, coloring, theme).len() == n,
        forall|i: int|
            0 <= i < n ==> #[trigger] painted_rows(first, seen, n, coloring, theme)[i] == painted(
                first,
                seen,
                i,
                coloring,
                theme,
            ),
    decreases n,
{
    if n > 0 {
        lemma_all_are_painted(first, seen, n - 1, coloring, theme);
        assert(seen[n - 1].place == Place::Inside);
    }
}

/// What is painted is in view, and what is in view is painted.
proof fn lemma_painted_is_in_view(
    first: int,
    seen: Seq<Seen>,
    n: int,
    coloring: bool,
    theme: ThemeColors,
)
    requires
        0 <= n <= seen.len(),
    ensures
        ({
            let rows = painted_rows(first, seen, n, coloring, theme);
            &&& forall|j: int|
                0 <= j < rows.len() ==> {
                    let i = (#[trigger] rows[j]).row - first;
                    &&& 0 <= i < n
                    &&& seen[i].place == Place::Inside
                    &&& rows[j] == painted(first, seen, i, coloring, theme)
                }
            &&& forall|i: int|
                0 <= i < n && (#[trigger] seen[i]).place == Place::Inside ==> rows.contains(
                    painted(first, seen, i, coloring, theme),
                )
        }),
    decreases n,
{
    if n > 0 {
        lemma_painted_is_in_view(first, seen, n - 1, coloring, theme);
        let before = painted_rows(first, seen, n - 1, coloring, theme);
        let rows = painted_rows(first, seen, n, coloring, theme);
        assert forall|i: int| 0 <= i < n && (#[trigger] seen[i]).place
            == Place::Inside implies rows.contains(painted(first, seen, i, coloring, theme)) by {
            let p = painted(first, seen, i, coloring, theme);
            if i < n - 1 {
                let j = before.index_of(p);
                assert(rows[j] == p);
            } else {
                assert(rows[rows.len() - 1] == p);
            }
        }
    }
}

/// Where nothing is out of view, every line is painted with its text and its matches, those
/// of the current line apart, and each below the one before it.
pub proof fn law_lines_are_painted_below_each_other<
    R: Fn(u64) -> DisplayLine,
    V: Fn(&String) -> usize,
    P: Fn(u64, u64) -> Place,
>(
    first: u64,
    last: u64,
    wrap: bool,
    coloring: bool,
    theme: &ThemeColors,
    read: R,
    visual: V,
    place: P,
    lines: spec_fn(u64) -> DisplayLine,
    heights: spec_fn(Seq<char>) -> usize,
    r: Vec<VisRow>,
    k: int,
)
    requires
        call_ensures(
            collect_rows::<R, V, P>,
            (first, last, wrap, coloring, theme, read, visual, place),
            r,
        ),
        first <= last,
        forall|l: u64, d: DisplayLine| #[trigger] call_ensures(read, (l,), d) ==> d == lines(l),
        forall|t: &String, n: usize| #[trigger]
            call_ensures(visual, (t,), n) ==> n == heights(t@),
        forall|a: u64, n: u64, p: Place| #[trigger]
            call_ensures(place, (a, n), p) ==> p == Place::Inside,
        0 <= k < last - first,
    ensures
        r@.len() == last - first,
        ({
            let d = lines((first + k) as u64);
            &&& r@[k].row == first + k
            &&& r@[k].text@ == d.text@
            &&& r@[k].rows == if wrap {
                heights(d.text@) as int
            } else {
                1
            }
            &&& d.is_current ==> r@[k].current_matches@ == d.matches@ && r@[k].matches@.len() == 0
            &&& !d.is_current ==> r@[k].matches@ == d.matches@ && r@[k].current_matches@.len() == 0
            &&& k == 0 ==> r@[k].above == 0
            &&& k > 0 ==> r@[k].above == r@[k - 1].above + r@[k - 1].rows
            &&& !coloring ==> r@[k].text_color == theme.text_primary
        }),
{
    let seen = choose|seen: Seq<Seen>| #[trigger]
        is_walk(read, visual, place, wrap, first as int, last as int, seen) && r@.map_values(
            |v: VisRow| vis_view(v),
        ) == painted_rows(first as int, seen, seen.len() as int, coloring, *theme);
    assert forall|i: int| 0 <= i < seen.len() implies (#[trigger] seen[i]).place
        == Place::Inside by {
        assert(is_seen(read, visual, place, wrap, first as int, seen, i));
    }
    assert(seen.len() == last - first);
    lemma_all_are_painted(first as int, seen, seen.len() as int, coloring, *theme);
    let views = r@.map_values(|v: VisRow| vis_view(v));
    assert(views[k] == vis_view(r@[k]));
    assert(is_seen(read, visual, place, wrap, first as int, seen, k));
    if k > 0 {
        assert(views[k - 1] == vis_view(r@[k - 1]));
    }
}

/// Only lines in view are painted, and all of them up to the first one that is below it.
pub proof fn law_what_is_in_view_is_painted<
    R: Fn(u64) -> DisplayLine,
    V: Fn(&String) -> usize,
    P: Fn(u64, u64) -> Place,
>(
    first: u64,
    last: u64,
    coloring: bool,
    theme: &ThemeColors,
    read: R,
    visual: V,
    place: P,
    places: spec_fn(u64, u64) -> Place,
    r: Vec<VisRow>,
    line: u64,
    k: int,
)
    requires
        call_ensures(
            collect_rows::<R, V, P>,
            (first, last, false, coloring, theme, read, visual, place),
            r,
        ),
        forall|a: u64, n: u64, p: Place| #[trigger]
            call_ensures(place, (a, n), p) ==> p == places(a, n),
    ensures
        0 <= k < r@.len() ==> first <= r@[k].row < last && places(
            (r@[k].row - first) as u64,
            1,
        ) == Place::Inside,
        first <= line < last && places((line - first) as u64, 1) == Place::Inside && (forall|m: u64|
            first <= m < line ==> #[trigger] places((m - first) as u64, 1) != Place::Below)
            ==> exists|j: int| 0 <= j < r@.len() && (#[trigger] r@[j]).row == line,
{
    let seen = choose|seen: Seq<Seen>| #[trigger]
        is_walk(read, visual, place, false, first as int, last as int, seen) && r@.map_values(
            |v: VisRow| vis_view(v),
        ) == painted_rows(first as int, seen, seen.len() as int, coloring, *theme);
    let views = r@.map_values(|v: VisRow| vis_view(v));
    lemma_painted_is_in_view(first as int, seen, seen.len() as int, coloring, *theme);
    assert forall|i: int| 0 <= i < seen.len() implies (#[trigger] seen[i]).place == places(
        i as u64,
        1,
    ) by {
        lemma_single_rows(read, visual, place, first as int, seen, i);
        assert(is_seen(read, visual, place, false, first as int, seen, i));
    }
    if 0 <= k < r@.len() {
        assert(views[k] == vis_view(r@[k]));
        let i = views[k].row - first;
        assert(seen[i].place == Place::Inside);
    }
    if first <= line < last && places((line - first) as u64, 1) == Place::Inside && (forall|m: u64|
        first <= m < line ==> #[trigger] places((m - first) as u64, 1) != Place::Below) {
        let i = line - first;
        if i >= seen.len() {
            let e = seen.len() - 1;
            assert(seen[e].place == places(e as u64, 1));
            let m = (first + e) as u64;
            assert(places((m - first) as u64, 1) != Place::Below);
            assert(false);
        }
        assert(seen[i].place == Place::Inside);
        let p = painted(first as int, seen, i, coloring, *theme);
        let j = views.index_of(p);
        assert(views[j] == vis_view(r@[j]));
        assert(r@[j].row == line);
    }
}

/// Lines that do not wrap take one row each.
proof fn lemma_single_rows<
    R: Fn(u64) -> DisplayLine,
    V: Fn(&String) -> usize,
    P: Fn(u64, u64) -> Place,
>(read: R, visual: V, place: P, first: int, seen: Seq<Seen>, n: int)
    requires
        0 <= n <= seen.len(),
        forall|i: int|
            0 <= i < seen.len() ==> #[trigger] is_seen(
                read,
                visual,
                place,
                false,
                first,
                seen,
                i,
            ),
    ensures
        rows_above(seen, n) == n,
    decreases n,
{
    if n > 0 {
        lemma_single_rows(read, visual, place, first, seen, n - 1);
        assert(is_seen(read, visual, place, false, first, seen, n - 1));
    }
}

/// A line is painted in the colour that its level has.
pub proof fn law_lines_are_painted_in_their_colour<
    R: Fn(u64) -> DisplayLine,
    V: Fn(&String) -> usize,
    P: Fn(u64, u64) -> Place,
>(
    first: u64,
    last: u64,
    wrap: bool,
    coloring: bool,
    theme: &ThemeColors,
    read: R,
    visual: V,
    place: P,
    r: Vec<VisRow>,
    k: int,
    text: &str,
    level: Option<Level>,
    color: Rgba,
)
    requires
        call_ensures(
            collect_rows::<R, V, P>,
            (first, last, wrap, coloring, theme, read, visual, place),
            r,
        ),
        0 <= k < r@.len(),
        text@ == r@[k].text@,
        call_ensures(detect_level, (text,), level),
        call_ensures(row_color, (level, coloring, theme), color),
    ensures
        r@[k].text_color == color,
{
    let seen = choose|seen: Seq<Seen>| #[trigger]
        is_walk(read, visual, place, wrap, first as int, last as int, seen) && r@.map_values(
            |v: VisRow| vis_view(v),
        ) == painted_rows(first as int, seen, seen.len() as int, coloring, *theme);
    let views = r@.map_values(|v: VisRow| vis_view(v));
    lemma_painted_is_in_view(first as int, seen, seen.len() as int, coloring, *theme);
    assert(views[k] == vis_view(r@[k]));
}

/// A row of a line that is painted is found on that line, whether lines wrap or not.
pub proof fn law_painted_rows_are_hit<
    D: Fn(u64) -> DisplayLine,
    V: Fn(&String) -> usize,
    P: Fn(u64, u64) -> Place,
    R: Fn(u64) -> String,
    H: Fn(u64, u64) -> bool,
>(
    first: u64,
    last: u64,
    total: u64,
    wrap: bool,
    coloring: bool,
    theme: &ThemeColors,
    read: D,
    visual: V,
    place: P,
    lines: spec_fn(u64) -> Seq<char>,
    heights: spec_fn(Seq<char>) -> usize,
    rows: Vec<VisRow>,
    read_text: R,
    holds: H,
    row: u64,
    k: int,
    found: Option<(u64, u64)>,
)
    requires
        call_ensures(
            collect_rows::<D, V, P>,
            (first, last, wrap, coloring, theme, read, visual, place),
            rows,
        ),
        call_ensures(
            line_at::<R, V, H>,
            (first, total, wrap, read_text, visual, holds),
            found,
        ),
        first <= last <= total,
        forall|l: u64, d: DisplayLine| #[trigger] call_ensures(read, (l,), d) ==> d.text@ == lines(l),
        forall|l: u64, t: String| #[trigger] call_ensures(read_text, (l,), t) ==> t@ == lines(l),
        forall|t: &String, n: usize| #[trigger]
            call_ensures(visual, (t,), n) ==> n == heights(t@),
        forall|a: u64, n: u64, p: Place| #[trigger]
            call_ensures(place, (a, n), p) ==> p == Place::Inside,
        forall|a: u64, n: u64, h: bool| #[trigger]
            call_ensures(holds, (a, n), h) ==> h == (row < a + n),
        (total - first) * MAX_SEGMENTS <= u64::MAX,
        forall|t: Seq<char>| #[trigger] heights(t) <= MAX_SEGMENTS,
        0 <= k < rows@.len(),
        rows@[k].above <= row < rows@[k].above + rows@[k].rows,
    ensures
        found == Some((rows@[k].row, rows@[k].above)),
{
    let seen = choose|seen: Seq<Seen>| #[trigger]
        is_walk(read, visual, place, wrap, first as int, last as int, seen) && rows@.map_values(
            |v: VisRow| vis_view(v),
        ) == painted_rows(first as int, seen, seen.len() as int, coloring, *theme);
    assert forall|i: int| 0 <= i < seen.len() implies (#[trigger] seen[i]).place
        == Place::Inside by {
        assert(is_seen(read, visual, place, wrap, first as int, seen, i));
    }
    lemma_all_are_painted(first as int, seen, seen.len() as int, coloring, *theme);
    let views = rows@.map_values(|v: VisRow| vis_view(v));
    assert(views[k] == vis_view(rows@[k]));
    let tall = choose|tall: Seq<usize>| #[trigger]
        is_found_by(read_text, visual, holds, wrap, first as int, total as int, tall, found);
    let n = tall.len() as int;
    assert forall|i: int| 0 <= i < n && i < seen.len() implies (#[trigger] tall[i])
        == seen[i].rows by {
        assert(is_seen(read, visual, place, wrap, first as int, seen, i));
        assert(is_asked(read_text, visual, holds, wrap, first as int, tall, i, false) || is_asked(
            read_text,
            visual,
            holds,
            wrap,
            first as int,
            tall,
            i,
            true,
        ));
        if wrap {
            let line = (first + i) as u64;
            let text = choose|text: String| #[trigger]
                call_ensures(read_text, (line,), text) && call_ensures(visual, (&text,), tall[i]);
            assert(call_ensures(read, (line,), seen[i].display));
            assert(text@ == seen[i].display.text@);
        }
    }
    assert forall|i: int| 0 <= i < n implies (#[trigger] tall[i]) <= MAX_SEGMENTS by {
        assert(is_asked(read_text, visual, holds, wrap, first as int, tall, i, false) || is_asked(
            read_text,
            visual,
            holds,
            wrap,
            first as int,
            tall,
            i,
            true,
        ));
        if wrap {
            let line = (first + i) as u64;
            let text = choose|text: String| #[trigger]
                call_ensures(read_text, (line,), text) && call_ensures(visual, (&text,), tall[i]);
            assert(heights(text@) <= MAX_SEGMENTS);
        }
    }
    assert forall|i: int| 0 <= i < n implies sum_rows(tall, i) as u64 == #[trigger] sum_rows(
        tall,
        i,
    ) by {
        lemma_rows_are_bounded(tall, i);
        assert(i * MAX_SEGMENTS <= (total - first) * MAX_SEGMENTS) by (nonlinear_arith)
            requires
                0 <= i <= total - first,
        ;
    }
    if k < n {
        law_hit_is_where_painted(seen, tall, k, row as int);
        assert(sum_rows(tall, k) as u64 == sum_rows(tall, k));
        if k < n - 1 || found is None {
            assert(is_asked(read_text, visual, holds, wrap, first as int, tall, k, false));
            assert(false);
        }
    } else {
        // the line that was found stands above the row
        assert(found is Some);
        let m = n - 1;
        assert(is_asked(read_text, visual, holds, wrap, first as int, tall, m, true));
        assert(sum_rows(tall, m) as u64 == sum_rows(tall, m));
        lemma_same_rows(seen, tall, m);
        lemma_seen_rows_grow(seen, n, k);
        assert(false);
    }
}

proof fn lemma_rows_are_bounded(heights: Seq<usize>, n: int)
    requires
        0 <= n <= heights.len(),
        forall|i: int| 0 <= i < n ==> (#[trigger] heights[i]) <= MAX_SEGMENTS,
    ensures
        0 <= sum_rows(heights, n) <= n * MAX_SEGMENTS,
    decreases n,
{
    if n > 0 {
        lemma_rows_are_bounded(heights, n - 1);
        assert(n * MAX_SEGMENTS == (n - 1) * MAX_SEGMENTS + MAX_SEGMENTS) by (nonlinear_arith);
    }
}

proof fn lemma_seen_rows_grow(seen: Seq<Seen>, j: int, n: int)
    requires
        0 <= j <= n <= seen.len(),
    ensures
        rows_above(seen, j) <= rows_above(seen, n),
    decreases n - j,
{
    if j < n {
        lemma_seen_rows_grow(seen, j, n - 1);
    }
}

/// The place that is hit lies on the line that was found, at the byte of the unit that was
/// pointed at; below the last line it is the end of the text.
pub proof fn law_hit_places_lie_on_their_line<R: Fn(u64) -> String, U: Fn(&String) -> usize>(
    file_open: bool,
    total: u64,
    line: Option<u64>,
    read: R,
    unit_at: U,
    lines: spec_fn(u64) -> String,
    units: spec_fn(Seq<char>) -> usize,
    r: Option<TextPoint>,
    text: &str,
    byte: usize,
)
    requires
        call_ensures(hit_test::<R, U>, (file_open, total, line, read, unit_at), r),
        forall|l: u64, t: String| #[trigger] call_ensures(read, (l,), t) ==> t == lines(l),
        forall|t: &String, u: usize| #[trigger] call_ensures(unit_at, (t,), u) ==> u == units(t@),
        line is Some ==> text@ == lines(line->0)@,
        line is None && total > 0 ==> text@ == lines((total - 1) as u64)@,
        call_ensures(utf16_to_byte, (text, units(text@)), byte),
    ensures
        r is Some == (file_open && total > 0),
        r is Some && line is Some ==> r->0.line == line->0 && r->0.byte == byte,
        r is Some && line is None ==> r->0.line == total - 1 && r->0.byte == encode_utf8(
            text@,
        ).len(),
{
}

/// A segment that is pointed at is one of the line, and the one at that row.
pub proof fn law_segments_are_those_of_the_line(rows_down: usize, rows: usize, r: usize)
    requires
        call_ensures(segment_at, (rows_down, rows), r),
        rows > 0,
    ensures
        r < rows,
        r <= rows_down,
        r == rows_down || r + 1 == rows,
{
}

} // verus!
