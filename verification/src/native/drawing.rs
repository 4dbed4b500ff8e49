//! What is drawn for a line of the view, in the order in which it is drawn:
//! backgrounds, guides, highlights, marks for white space, the line number and
//! the text.

use vstd::prelude::*;
use vstd::utf8::encode_utf8;

use crate::bounds::max_int;
use crate::levels::{ascii_uppercase, level_of};
use crate::native::geom::Rect;
use crate::native::layout::{fits_i32, prefix_width, width_sum, LaidLine, VisualRow};
use crate::native::marks::{
    color_of_level, guides, in_row, indent_guides, indent_of, is_alternate, leading_cols,
    level_color, line_matches, mark_edges, marks, match_in_row, row_visible, selected_cols,
    selection_in_row, unit_match, whitespace_marks, SpaceMark, UnitMatch,
};
use crate::native::selection::Selection;
use crate::native::theme::{Rgb, ThemeColors};
use crate::text::utf8_len;

verus! {

broadcast use vstd::string::group_string_axioms;

/// Colour of annotations.
pub open spec fn amber() -> Rgb {
    Rgb { r: 224, g: 172, b: 56 }
}

/// Colour of annotations.
pub fn anno_amber() -> (r: Rgb)
    ensures
        r == amber(),
{
    Rgb { r: 224, g: 172, b: 56 }
}

/// How much of the colour of annotations is in the background of an annotated
/// line.
pub const ANNO_ALPHA: u8 = 16;

/// One thing that is drawn.
#[derive(Clone, Copy, Debug, PartialEq, Eq, Structural)]
pub enum Draw {
    Fill { rect: Rect, color: Rgb },
    /// The arrow that stands for a tab.
    Arrow { x: i32, y: i32, color: Rgb },
    /// The number of the line, in at most `w` pixels.
    Number { x: i32, y: i32, w: i32, color: Rgb },
    /// The code units `[start, end)` of the line, in at most `w` pixels.
    Text { x: i32, y: i32, w: i32, color: Rgb, start: usize, end: usize },
}

/// The view that lines are drawn into.
#[derive(Clone, Copy, Debug)]
pub struct Frame {
    pub left: i32,
    pub top: i32,
    pub height: i32,
    pub text_right: i32,
    pub content_x: i32,
    pub gutter_w: i32,
    pub row_h: i32,
    pub avg_char_w: i32,
}

/// What is shown beside the text.
#[derive(Clone, Copy, Debug)]
pub struct Style {
    pub line_numbers: bool,
    pub whitespace: bool,
    pub indent_guides: bool,
    pub level_coloring: bool,
}

/// A line with what is marked in it.
pub struct LineMarks {
    pub matches: Vec<UnitMatch>,
    pub selection: Option<Selection>,
    pub annotated: bool,
    /// Columns by which the line is indented.
    pub indent: usize,
    pub text_color: Rgb,
}

/// The marks of a line as contracts speak of them.
pub struct MarksView {
    pub matches: Seq<UnitMatch>,
    pub selection: Option<Selection>,
    pub annotated: bool,
    pub indent: int,
    pub text_color: Rgb,
}

impl View for LineMarks {
    type V = MarksView;

    open spec fn view(&self) -> MarksView {
        MarksView {
            matches: self.matches@,
            selection: self.selection,
            annotated: self.annotated,
            indent: self.indent as int,
            text_color: self.text_color,
        }
    }
}

/// The marks of a line: its matches from their byte ranges, how far it is
/// indented where guides are shown, and its colour by its level where lines are
/// coloured.
pub open spec fn marks_of(
    l: LaidLine,
    style: Style,
    theme: ThemeColors,
    ranges: Seq<(usize, usize)>,
    hit: Option<u64>,
    selection: Option<Selection>,
    annotated: bool,
) -> MarksView {
    let color = color_of_level(level_of(ascii_uppercase(encode_utf8(l.text@))), theme);
    MarksView {
        matches: Seq::new(
            ranges.len(),
            |i: int| unit_match(l.text@, ranges[i], l.start_byte, hit),
        ),
        selection,
        annotated,
        indent: if style.indent_guides {
            indent_of(l.text@) as int
        } else {
            0
        },
        text_color: if style.level_coloring && color is Some {
            color->0
        } else {
            theme.text_primary
        },
    }
}

// ---------------------------------------------------------------------------
// What is drawn for a row
// ---------------------------------------------------------------------------

pub open spec fn draw_if(shown: bool, d: Draw) -> Seq<Draw> {
    if shown {
        seq![d]
    } else {
        Seq::empty()
    }
}

impl Frame {
    /// A part of a row at `y`, from one pixel to another.
    pub open spec fn strip(self, y: int, from: int, to: int) -> Rect {
        Rect {
            left: from as i32,
            top: y as i32,
            right: to as i32,
            bottom: (y + self.row_h) as i32,
        }
    }

    /// A row at `y`.
    pub open spec fn row(self, y: int) -> Rect {
        self.strip(y, self.left as int, self.text_right as int)
    }

    /// Pixel of a code unit.
    pub open spec fn x_of(self, char_w: Seq<i32>, k: int) -> int {
        self.content_x + width_sum(char_w, 0, k)
    }

    /// The code units `[a, b)` of a row at `y`: at least one pixel wide.
    pub open spec fn over(self, char_w: Seq<i32>, y: int, a: int, b: int) -> Rect {
        let x0 = self.x_of(char_w, a);
        self.strip(y, x0, max_int(self.x_of(char_w, b), x0 + 1))
    }
}

/// Background of a row: every second line has one of its own, and an annotated
/// one a faint tint.
pub open spec fn background(
    f: Frame,
    theme: ThemeColors,
    line: u64,
    annotated: bool,
    y: int,
) -> Seq<Draw> {
    draw_if(line % 2 == 1, Draw::Fill { rect: f.row(y), color: theme.bg_tertiary }) + draw_if(
        annotated,
        Draw::Fill { rect: f.row(y), color: amber().blended(theme.bg_primary, ANNO_ALPHA) },
    )
}

/// Indent guides of a row.
pub open spec fn guide_draws(f: Frame, theme: ThemeColors, shown: bool, indent: int, y: int) -> Seq<
    Draw,
> {
    let xs = guides(
        f.content_x as int,
        f.avg_char_w as int,
        f.text_right as int,
        indent / 4,
    );
    if shown {
        Seq::new(
            xs.len(),
            |i: int| Draw::Fill { rect: f.strip(y, xs[i], xs[i] + 1), color: theme.indent_guide },
        )
    } else {
        Seq::empty()
    }
}

/// The bar beside an annotated line.
pub open spec fn annotation_bar(f: Frame, annotated: bool, y: int) -> Seq<Draw> {
    draw_if(
        annotated,
        Draw::Fill { rect: f.strip(y, f.content_x - 5, f.content_x - 1), color: amber() },
    )
}

/// Highlights of the first `n` matches.
pub open spec fn match_draws(
    f: Frame,
    theme: ThemeColors,
    char_w: Seq<i32>,
    row: VisualRow,
    matches: Seq<UnitMatch>,
    n: int,
    y: int,
) -> Seq<Draw>
    decreases n,
{
    if n <= 0 {
        Seq::empty()
    } else {
        let before = match_draws(f, theme, char_w, row, matches, n - 1, y);
        let m = matches[n - 1];
        match in_row(m.start, m.end, row) {
            Some((a, b)) => before.push(
                Draw::Fill {
                    rect: f.over(char_w, y, a, b),
                    color: if m.current {
                        theme.search_current
                    } else {
                        theme.search_highlight
                    },
                },
            ),
            None => before,
        }
    }
}

/// Highlight of the selection.
pub open spec fn selection_draws(
    f: Frame,
    theme: ThemeColors,
    line: u64,
    char_w: Seq<i32>,
    row: VisualRow,
    selection: Option<Selection>,
    y: int,
) -> Seq<Draw> {
    match selection {
        Some(sel) => match selected_cols(sel, line, char_w.len() as int) {
            Some(c) => match in_row(c.0 as usize, c.1 as usize, row) {
                Some((a, b)) => seq![
                    Draw::Fill { rect: f.over(char_w, y, a, b), color: theme.selection_bg },
                ],
                None => Seq::empty(),
            },
            None => Seq::empty(),
        },
        None => Seq::empty(),
    }
}

/// The mark of white space at a code unit: a dot in the middle of a blank, an
/// arrow for a tab.
pub open spec fn space_draw(
    f: Frame,
    theme: ThemeColors,
    char_w: Seq<i32>,
    k: int,
    mark: SpaceMark,
    y: int,
) -> Draw {
    let x = f.x_of(char_w, k);
    let mid_x = x + max_int(char_w[k] as int, 1) / 2;
    let mid_y = y + f.row_h as int / 2;
    match mark {
        SpaceMark::Dot => Draw::Fill {
            rect: Rect {
                left: (mid_x - 1) as i32,
                top: (mid_y - 1) as i32,
                right: (mid_x + 1) as i32,
                bottom: (mid_y + 1) as i32,
            },
            color: theme.whitespace_marker,
        },
        SpaceMark::Arrow => Draw::Arrow { x: x as i32, y: y as i32, color: theme.whitespace_marker },
    }
}

/// Marks of the white space of a row.
pub open spec fn space_draws(
    f: Frame,
    theme: ThemeColors,
    shown: bool,
    l: LaidLine,
    row: VisualRow,
    y: int,
) -> Seq<Draw> {
    let all = marks(l.units@, row.start as int, row.end - row.start);
    if shown {
        Seq::new(
            all.len(),
            |i: int| space_draw(f, theme, l.char_w@, all[i].0, all[i].1, y),
        )
    } else {
        Seq::empty()
    }
}

/// Line number and text of a row; the number stands beside the first row of a
/// line alone.
pub open spec fn text_draws(
    f: Frame,
    theme: ThemeColors,
    numbered: bool,
    row: VisualRow,
    color: Rgb,
    y: int,
) -> Seq<Draw> {
    draw_if(
        numbered,
        Draw::Number {
            x: (f.left + 4) as i32,
            y: y as i32,
            w: (f.gutter_w - 8) as i32,
            color: theme.line_number,
        },
    ) + draw_if(
        row.end > row.start,
        Draw::Text {
            x: f.content_x,
            y: y as i32,
            w: (f.text_right - f.content_x) as i32,
            color,
            start: row.start,
            end: row.end,
        },
    )
}

/// Where row `i` of a line starts.
pub open spec fn row_y(f: Frame, l: LaidLine, i: int) -> int {
    l.y_top + i * f.row_h
}

/// What is drawn for a row of a line that is in view.
pub open spec fn visible_draws(
    f: Frame,
    style: Style,
    theme: ThemeColors,
    l: LaidLine,
    m: MarksView,
    i: int,
    row: VisualRow,
    y: int,
) -> Seq<Draw> {
    background(f, theme, l.line, m.annotated, y) + guide_draws(
        f,
        theme,
        style.indent_guides,
        m.indent,
        y,
    ) + annotation_bar(f, m.annotated, y) + match_draws(
        f,
        theme,
        l.char_w@,
        row,
        m.matches,
        m.matches.len() as int,
        y,
    ) + selection_draws(f, theme, l.line, l.char_w@, row, m.selection, y) + space_draws(
        f,
        theme,
        style.whitespace,
        l,
        row,
        y,
    ) + text_draws(f, theme, style.line_numbers && i == 0, row, m.text_color, y)
}

/// What is drawn for a row of a line: nothing where it is out of view.
pub open spec fn row_draws(
    f: Frame,
    style: Style,
    theme: ThemeColors,
    l: LaidLine,
    m: MarksView,
    i: int,
) -> Seq<Draw> {
    let y = row_y(f, l, i);
    if y + f.row_h <= f.top || y >= f.top + f.height {
        Seq::empty()
    } else {
        visible_draws(f, style, theme, l, m, i, l.rows@[i], y)
    }
}

/// What is drawn for the first `n` rows of a line.
pub open spec fn rows_draws(
    f: Frame,
    style: Style,
    theme: ThemeColors,
    l: LaidLine,
    m: MarksView,
    n: int,
) -> Seq<Draw>
    decreases n,
{
    if n <= 0 {
        Seq::empty()
    } else {
        rows_draws(f, style, theme, l, m, n - 1) + row_draws(f, style, theme, l, m, n - 1)
    }
}

// ---------------------------------------------------------------------------
// Drawing
// ---------------------------------------------------------------------------

impl Frame {
    /// What is drawn for a line has coordinates of the screen.
    pub open spec fn fits(self, l: LaidLine) -> bool {
        &&& self.row_h > 0
        &&& 0 <= self.avg_char_w
        &&& i32::MIN + 5 <= self.content_x
        &&& self.left + 4 <= i32::MAX
        &&& i32::MIN <= self.gutter_w - 8
        &&& fits_i32(self.text_right - self.content_x)
        &&& i32::MIN < l.y_top
        &&& l.y_top + l.rows@.len() * self.row_h <= i32::MAX
        &&& l.char_w@.len() == l.units@.len()
        &&& forall|k: int| 0 <= k < l.char_w@.len() ==> 0 <= #[trigger] l.char_w@[k]
        &&& fits_i32(width_sum(l.char_w@, 0, l.char_w@.len() as int))
        &&& self.content_x + width_sum(l.char_w@, 0, l.char_w@.len() as int) + 1 <= i32::MAX
        &&& forall|i: int|
            0 <= i < l.rows@.len() ==> (#[trigger] l.rows@[i]).start <= l.rows@[i].end
                && l.rows@[i].end <= l.units@.len()
    }
}

/// Widths that are not negative add up.
proof fn lemma_sums_ascend(widths: Seq<i32>, j: int, n: int)
    requires
        0 <= j <= n <= widths.len(),
        forall|k: int| 0 <= k < widths.len() ==> 0 <= #[trigger] widths[k],
    ensures
        0 <= width_sum(widths, 0, j) <= width_sum(widths, 0, n),
    decreases n,
{
    if j < n {
        lemma_sums_ascend(widths, j, n - 1);
    } else if n > 0 {
        lemma_sums_ascend(widths, n - 1, n - 1);
    }
}

/// The pixels of a line fit where its end does.
proof fn lemma_pixels_fit(f: Frame, l: LaidLine)
    requires
        f.fits(l),
    ensures
        forall|j: int|
            0 <= j <= l.char_w@.len() ==> fits_i32(#[trigger] width_sum(l.char_w@, 0, j))
                && fits_i32(f.content_x + width_sum(l.char_w@, 0, j) + 1) && fits_i32(
                f.content_x + width_sum(l.char_w@, 0, j),
            ),
{
    assert forall|j: int| 0 <= j <= l.char_w@.len() implies fits_i32(
        #[trigger] width_sum(l.char_w@, 0, j),
    ) && fits_i32(f.content_x + width_sum(l.char_w@, 0, j) + 1) && fits_i32(
        f.content_x + width_sum(l.char_w@, 0, j),
    ) by {
        lemma_sums_ascend(l.char_w@, j, l.char_w@.len() as int);
    }
}

fn push_background(
    out: &mut Vec<Draw>,
    f: &Frame,
    theme: &ThemeColors,
    line: u64,
    annotated: bool,
    y: i32,
)
    requires
        fits_i32(y + f.row_h),
    ensures
        final(out)@ == old(out)@ + background(*f, *theme, line, annotated, y as int),
{
    let ghost before = out@;
    let rect: Rect = Rect { left: f.left, top: y, right: f.text_right, bottom: y + f.row_h };
    if is_alternate(line) {
        out.push(Draw::Fill { rect, color: theme.bg_tertiary });
    }
    if annotated {
        let color: Rgb = anno_amber().blend(theme.bg_primary, ANNO_ALPHA);
        out.push(Draw::Fill { rect, color });
    }
    assert(out@ =~= before + background(*f, *theme, line, annotated, y as int));
}

fn push_guides(
    out: &mut Vec<Draw>,
    f: &Frame,
    theme: &ThemeColors,
    shown: bool,
    indent: usize,
    y: i32,
)
    requires
        fits_i32(y + f.row_h),
        indent <= i32::MAX,
        0 <= f.avg_char_w,
    ensures
        final(out)@ == old(out)@ + guide_draws(*f, *theme, shown, indent as int, y as int),
{
    let ghost before = out@;
    let ghost all = guide_draws(*f, *theme, shown, indent as int, y as int);
    if shown {
        let xs: Vec<i32> = indent_guides(indent, f.content_x, f.avg_char_w, f.text_right);
        proof {
            lemma_guides_left(
                f.content_x as int,
                f.avg_char_w as int,
                f.text_right as int,
                indent as int / 4,
            );
        }
        let mut i: usize = 0;
        assert(out@ =~= before + all.take(0));
        while i < xs.len()
            invariant
                i <= xs@.len(),
                shown,
                fits_i32(y + f.row_h),
                all == guide_draws(*f, *theme, shown, indent as int, y as int),
                all.len() == xs@.len(),
                forall|k: int| 0 <= k < xs@.len() ==> #[trigger] xs@[k] < f.text_right,
                forall|k: int|
                    0 <= k < xs@.len() ==> #[trigger] xs@[k] == guides(
                        f.content_x as int,
                        f.avg_char_w as int,
                        f.text_right as int,
                        indent as int / 4,
                    )[k],
                out@ == before + all.take(i as int),
            decreases xs@.len() - i,
        {
            let x: i32 = xs[i];
            let rect: Rect = Rect { left: x, top: y, right: x + 1, bottom: y + f.row_h };
            let d: Draw = Draw::Fill { rect, color: theme.indent_guide };
            assert(d == all[i as int]);
            out.push(d);
            i = i + 1;
            assert(out@ =~= before + all.take(i as int));
        }
        assert(all.take(all.len() as int) =~= all);
    } else {
        assert(out@ =~= before + all);
    }
}

/// Guides stand left of the edge of the text.
proof fn lemma_guides_left(content_x: int, avg_char_w: int, text_right: int, n: int)
    ensures
        forall|k: int|
            0 <= k < guides(content_x, avg_char_w, text_right, n).len() ==> #[trigger] guides(
                content_x,
                avg_char_w,
                text_right,
                n,
            )[k] < text_right,
    decreases n,
{
    if n > 0 {
        lemma_guides_left(content_x, avg_char_w, text_right, n - 1);
        let front = guides(content_x, avg_char_w, text_right, n - 1);
        let all = guides(content_x, avg_char_w, text_right, n);
        assert forall|k: int| 0 <= k < all.len() implies #[trigger] all[k] < text_right by {
            if k < front.len() {
                assert(all[k] == front[k]);
            }
        }
    }
}

fn push_bar(out: &mut Vec<Draw>, f: &Frame, annotated: bool, y: i32)
    requires
        fits_i32(y + f.row_h),
        i32::MIN + 5 <= f.content_x,
    ensures
        final(out)@ == old(out)@ + annotation_bar(*f, annotated, y as int),
{
    let ghost before = out@;
    if annotated {
        let rect: Rect = Rect {
            left: f.content_x - 5,
            top: y,
            right: f.content_x - 1,
            bottom: y + f.row_h,
        };
        out.push(Draw::Fill { rect, color: anno_amber() });
    }
    assert(out@ =~= before + annotation_bar(*f, annotated, y as int));
}

fn push_matches(
    out: &mut Vec<Draw>,
    f: &Frame,
    theme: &ThemeColors,
    l: &LaidLine,
    row: &VisualRow,
    matches: &Vec<UnitMatch>,
    y: i32,
)
    requires
        f.fits(*l),
        fits_i32(y + f.row_h),
        row.start <= row.end <= l.char_w@.len(),
    ensures
        final(out)@ == old(out)@ + match_draws(
            *f,
            *theme,
            l.char_w@,
            *row,
            matches@,
            matches@.len() as int,
            y as int,
        ),
{
    let ghost before = out@;
    let mut i: usize = 0;
    proof {
        lemma_pixels_fit(*f, *l);
    }
    assert(out@ =~= before + match_draws(*f, *theme, l.char_w@, *row, matches@, 0, y as int));
    while i < matches.len()
        invariant
            i <= matches@.len(),
            fits_i32(y + f.row_h),
            row.start <= row.end <= l.char_w@.len(),
            forall|j: int|
                0 <= j <= l.char_w@.len() ==> fits_i32(#[trigger] width_sum(l.char_w@, 0, j))
                    && fits_i32(f.content_x + width_sum(l.char_w@, 0, j) + 1) && fits_i32(
                    f.content_x + width_sum(l.char_w@, 0, j),
                ),
            out@ == before + match_draws(
                *f,
                *theme,
                l.char_w@,
                *row,
                matches@,
                i as int,
                y as int,
            ),
        decreases matches@.len() - i,
    {
        let ghost prev = out@;
        let m: UnitMatch = matches[i];
        if let Some((a, b)) = match_in_row(&m, row) {
            let (x0, x1) = mark_edges(f.content_x, &l.char_w, a, b);
            let rect: Rect = Rect { left: x0, top: y, right: x1, bottom: y + f.row_h };
            let color: Rgb = if m.current {
                theme.search_current
            } else {
                theme.search_highlight
            };
            out.push(Draw::Fill { rect, color });
        }
        i = i + 1;
        assert(out@ =~= before + match_draws(
            *f,
            *theme,
            l.char_w@,
            *row,
            matches@,
            i as int,
            y as int,
        ));
    }
}

fn push_selection(
    out: &mut Vec<Draw>,
    f: &Frame,
    theme: &ThemeColors,
    l: &LaidLine,
    row: &VisualRow,
    selection: Option<Selection>,
    y: i32,
)
    requires
        f.fits(*l),
        fits_i32(y + f.row_h),
        row.start <= row.end <= l.char_w@.len(),
    ensures
        final(out)@ == old(out)@ + selection_draws(
            *f,
            *theme,
            l.line,
            l.char_w@,
            *row,
            selection,
            y as int,
        ),
{
    let ghost before = out@;
    proof {
        lemma_pixels_fit(*f, *l);
    }
    if let Some(sel) = selection {
        if let Some((a, b)) = selection_in_row(&sel, l.line, l.char_w.len(), row) {
            let (x0, x1) = mark_edges(f.content_x, &l.char_w, a, b);
            let rect: Rect = Rect { left: x0, top: y, right: x1, bottom: y + f.row_h };
            out.push(Draw::Fill { rect, color: theme.selection_bg });
        }
    }
    assert(out@ =~= before + selection_draws(
        *f,
        *theme,
        l.line,
        l.char_w@,
        *row,
        selection,
        y as int,
    ));
}

fn push_spaces(
    out: &mut Vec<Draw>,
    f: &Frame,
    theme: &ThemeColors,
    shown: bool,
    l: &LaidLine,
    row: &VisualRow,
    y: i32,
)
    requires
        f.fits(*l),
        i32::MIN < y,
        fits_i32(y + f.row_h),
        row.start <= row.end <= l.units@.len(),
    ensures
        final(out)@ == old(out)@ + space_draws(*f, *theme, shown, *l, *row, y as int),
{
    let ghost before = out@;
    let ghost all = space_draws(*f, *theme, shown, *l, *row, y as int);
    if !shown {
        assert(out@ =~= before + all);
        return ;
    }
    let spaces: Vec<(usize, SpaceMark)> = whitespace_marks(&l.units, row);
    let ghost listed = marks(l.units@, row.start as int, row.end - row.start);
    proof {
        lemma_marks_in_row(l.units@, row.start as int, row.end - row.start);
        lemma_pixels_fit(*f, *l);
    }
    let mut i: usize = 0;
    assert(out@ =~= before + all.take(0));
    while i < spaces.len()
        invariant
            i <= spaces@.len(),
            shown,
            f.fits(*l),
            i32::MIN < y,
            fits_i32(y + f.row_h),
            row.start <= row.end <= l.units@.len(),
            all == space_draws(*f, *theme, shown, *l, *row, y as int),
            listed == marks(l.units@, row.start as int, row.end - row.start),
            all.len() == spaces@.len(),
            listed.len() == spaces@.len(),
            forall|k: int| 0 <= k < listed.len() ==> (#[trigger] listed[k]).0 < l.units@.len(),
            forall|k: int|
                0 <= k < spaces@.len() ==> (#[trigger] spaces@[k]).0 == listed[k].0 && spaces@[k].1
                    == listed[k].1,
            forall|j: int|
                0 <= j <= l.char_w@.len() ==> fits_i32(#[trigger] width_sum(l.char_w@, 0, j))
                    && fits_i32(f.content_x + width_sum(l.char_w@, 0, j) + 1) && fits_i32(
                    f.content_x + width_sum(l.char_w@, 0, j),
                ),
            out@ == before + all.take(i as int),
        decreases spaces@.len() - i,
    {
        let (k, mark) = spaces[i];
        assert(listed[i as int].0 == k);
        let x: i32 = f.content_x + prefix_width(l.char_w.as_slice(), 0, k);
        proof {
            lemma_sums_ascend(l.char_w@, 0, k as int);
            assert(0 <= l.char_w@[k as int]);
            assert(width_sum(l.char_w@, 0, k + 1) == width_sum(l.char_w@, 0, k as int)
                + l.char_w@[k as int]);
        }
        let w: i32 = if l.char_w[k] >= 1 {
            l.char_w[k]
        } else {
            1
        };
        let mid_x: i32 = x + w / 2;
        let mid_y: i32 = y + f.row_h / 2;
        let d: Draw = match mark {
            SpaceMark::Dot => Draw::Fill {
                rect: Rect {
                    left: mid_x - 1,
                    top: mid_y - 1,
                    right: mid_x + 1,
                    bottom: mid_y + 1,
                },
                color: theme.whitespace_marker,
            },
            SpaceMark::Arrow => Draw::Arrow { x, y, color: theme.whitespace_marker },
        };
        assert(d == all[i as int]);
        out.push(d);
        i = i + 1;
        assert(out@ =~= before + all.take(i as int));
    }
    assert(all.take(all.len() as int) =~= all);
}

/// Marks stand at code units of their row.
proof fn lemma_marks_in_row(units: Seq<u16>, start: int, n: int)
    requires
        0 <= n,
    ensures
        forall|k: int|
            0 <= k < marks(units, start, n).len() ==> start <= (#[trigger] marks(
                units,
                start,
                n,
            )[k]).0 < start + n,
    decreases n,
{
    if n > 0 {
        lemma_marks_in_row(units, start, n - 1);
        let front = marks(units, start, n - 1);
        let all = marks(units, start, n);
        assert forall|k: int| 0 <= k < all.len() implies start <= (#[trigger] all[k]).0 < start
            + n by {
            if k < front.len() {
                assert(all[k] == front[k]);
            }
        }
    }
}

fn push_text(
    out: &mut Vec<Draw>,
    f: &Frame,
    theme: &ThemeColors,
    numbered: bool,
    row: &VisualRow,
    color: Rgb,
    y: i32,
)
    requires
        f.left + 4 <= i32::MAX,
        i32::MIN <= f.gutter_w - 8,
        fits_i32(f.text_right - f.content_x),
    ensures
        final(out)@ == old(out)@ + text_draws(*f, *theme, numbered, *row, color, y as int),
{
    let ghost before = out@;
    if numbered {
        out.push(
            Draw::Number { x: f.left + 4, y, w: f.gutter_w - 8, color: theme.line_number },
        );
    }
    if row.end > row.start {
        out.push(
            Draw::Text {
                x: f.content_x,
                y,
                w: f.text_right - f.content_x,
                color,
                start: row.start,
                end: row.end,
            },
        );
    }
    assert(out@ =~= before + text_draws(*f, *theme, numbered, *row, color, y as int));
}

proof fn lemma_append(a: Seq<Draw>, b: Seq<Draw>, c: Seq<Draw>)
    ensures
        (a + b) + c == a + (b + c),
{
    assert((a + b) + c =~= a + (b + c));
}

/// Draws a row that is in view.
fn push_visible(
    out: &mut Vec<Draw>,
    f: &Frame,
    style: &Style,
    theme: &ThemeColors,
    l: &LaidLine,
    m: &LineMarks,
    i: usize,
    row: &VisualRow,
    y: i32,
)
    requires
        f.fits(*l),
        m.indent <= i32::MAX,
        i32::MIN < y,
        fits_i32(y + f.row_h),
        row.start <= row.end <= l.units@.len(),
    ensures
        final(out)@ == old(out)@ + visible_draws(
            *f,
            *style,
            *theme,
            *l,
            m@,
            i as int,
            *row,
            y as int,
        ),
{
    let ghost before = out@;
    let ghost a = background(*f, *theme, l.line, m.annotated, y as int);
    let ghost b = guide_draws(*f, *theme, style.indent_guides, m.indent as int, y as int);
    let ghost c = annotation_bar(*f, m.annotated, y as int);
    let ghost d = match_draws(
        *f,
        *theme,
        l.char_w@,
        *row,
        m.matches@,
        m.matches@.len() as int,
        y as int,
    );
    let ghost e = selection_draws(*f, *theme, l.line, l.char_w@, *row, m.selection, y as int);
    let ghost g = space_draws(*f, *theme, style.whitespace, *l, *row, y as int);
    let ghost h = text_draws(
        *f,
        *theme,
        style.line_numbers && i == 0,
        *row,
        m.text_color,
        y as int,
    );
    push_background(out, f, theme, l.line, m.annotated, y);
    push_guides(out, f, theme, style.indent_guides, m.indent, y);
    push_bar(out, f, m.annotated, y);
    push_matches(out, f, theme, l, row, &m.matches, y);
    push_selection(out, f, theme, l, row, m.selection, y);
    push_spaces(out, f, theme, style.whitespace, l, row, y);
    push_text(out, f, theme, style.line_numbers && i == 0, row, m.text_color, y);
    proof {
        lemma_append(before, a, b);
        lemma_append(before, a + b, c);
        lemma_append(before, a + b + c, d);
        lemma_append(before, a + b + c + d, e);
        lemma_append(before, a + b + c + d + e, g);
        lemma_append(before, a + b + c + d + e + g, h);
    }
}

/// Draws row `i` of a line.
fn push_row(
    out: &mut Vec<Draw>,
    f: &Frame,
    style: &Style,
    theme: &ThemeColors,
    l: &LaidLine,
    m: &LineMarks,
    i: usize,
)
    requires
        f.fits(*l),
        m.indent <= i32::MAX,
        i < l.rows@.len(),
    ensures
        final(out)@ == old(out)@ + row_draws(*f, *style, *theme, *l, m@, i as int),
{
    let ghost before = out@;
    let row: VisualRow = l.rows[i];
    proof {
        assert(l.rows@[i as int].start <= l.rows@[i as int].end);
        assert(0 <= i * f.row_h && (i + 1) * f.row_h <= l.rows@.len() * f.row_h && (i + 1) * f.row_h
            == i * f.row_h + f.row_h && i <= i * f.row_h) by (nonlinear_arith)
            requires
                0 <= i < l.rows@.len(),
                f.row_h > 0,
        ;
    }
    let y: i32 = (l.y_top as i64 + i as i64 * f.row_h as i64) as i32;
    if !row_visible(y, f.row_h, f.top, f.height) {
        assert(out@ =~= before + row_draws(*f, *style, *theme, *l, m@, i as int));
        return ;
    }
    push_visible(out, f, style, theme, l, m, i, &row, y);
}

/// Draws the rows of a line that are in view, from top to bottom.
pub fn draw_rows(
    f: &Frame,
    style: &Style,
    theme: &ThemeColors,
    l: &LaidLine,
    m: &LineMarks,
) -> (r: Vec<Draw>)
    requires
        f.fits(*l),
        m.indent <= i32::MAX,
    ensures
        r@ == rows_draws(*f, *style, *theme, *l, m@, l.rows@.len() as int),
{
    let mut out: Vec<Draw> = Vec::new();
    let mut i: usize = 0;
    while i < l.rows.len()
        invariant
            i <= l.rows@.len(),
            f.fits(*l),
            m.indent <= i32::MAX,
            out@ == rows_draws(*f, *style, *theme, *l, m@, i as int),
        decreases l.rows@.len() - i,
    {
        push_row(&mut out, f, style, theme, l, m, i);
        i = i + 1;
    }
    out
}

/// The marks of a line. `ranges` are the byte ranges of its matches, `hit` is
/// the byte of the file on which the search stands.
fn mark_line(
    l: &LaidLine,
    style: &Style,
    theme: &ThemeColors,
    ranges: &Vec<(usize, usize)>,
    hit: Option<u64>,
    selection: Option<Selection>,
    annotated: bool,
) -> (r: LineMarks)
    requires
        4 * l.text@.len() <= i32::MAX,
        forall|i: int|
            0 <= i < ranges@.len() ==> (#[trigger] ranges@[i]).0 <= utf8_len(l.text@)
                && l.start_byte + ranges@[i].1 <= u64::MAX && ranges@[i].0 <= ranges@[i].1,
    ensures
        r@ == marks_of(*l, *style, *theme, ranges@, hit, selection, annotated),
        r.indent <= i32::MAX,
{
    let matches: Vec<UnitMatch> = line_matches(l.text.as_str(), ranges, l.start_byte, hit);
    proof {
        lemma_indent_bound(l.text@);
    }
    let indent: usize = if style.indent_guides {
        leading_cols(l.text.as_str())
    } else {
        0
    };
    let text_color: Rgb = if style.level_coloring {
        match level_color(l.text.as_str(), theme) {
            Some(c) => c,
            None => theme.text_primary,
        }
    } else {
        theme.text_primary
    };
    LineMarks { matches, selection, annotated, indent, text_color }
}

/// A character indents by four columns at most.
proof fn lemma_indent_bound(s: Seq<char>)
    ensures
        indent_of(s) <= 4 * s.len(),
    decreases s.len(),
{
    if s.len() > 0 {
        lemma_indent_bound(s.skip(1));
    }
}

/// What is drawn for a line, in the order in which it is drawn. `ranges` are the
/// byte ranges of its matches, `hit` is the byte of the file on which the search
/// stands.
pub fn draw_line(
    f: &Frame,
    style: &Style,
    theme: &ThemeColors,
    l: &LaidLine,
    ranges: &Vec<(usize, usize)>,
    hit: Option<u64>,
    selection: Option<Selection>,
    annotated: bool,
) -> (r: Vec<Draw>)
    requires
        f.fits(*l),
        4 * l.text@.len() <= i32::MAX,
        forall|i: int|
            0 <= i < ranges@.len() ==> (#[trigger] ranges@[i]).0 <= utf8_len(l.text@)
                && l.start_byte + ranges@[i].1 <= u64::MAX && ranges@[i].0 <= ranges@[i].1,
    ensures
        r@ == rows_draws(
            *f,
            *style,
            *theme,
            *l,
            marks_of(*l, *style, *theme, ranges@, hit, selection, annotated),
            l.rows@.len() as int,
        ),
{
    let m: LineMarks = mark_line(l, style, theme, ranges, hit, selection, annotated);
    draw_rows(f, style, theme, l, &m)
}

/// What is drawn under the lines: the background of the text, and the gutter
/// with the line beside it where there is one.
pub fn draw_ground(f: &Frame, theme: &ThemeColors) -> (r: Vec<Draw>)
    requires
        fits_i32(f.top + f.height),
        f.left + f.gutter_w + 1 <= i32::MAX,
    ensures
        ({
            let area = |from: int, to: int|
                Rect {
                    left: from as i32,
                    top: f.top,
                    right: to as i32,
                    bottom: (f.top + f.height) as i32,
                };
            let edge = f.left + f.gutter_w;
            r@ == seq![
                Draw::Fill {
                    rect: area(f.left as int, f.text_right as int),
                    color: theme.bg_primary,
                },
            ] + draw_if(
                f.gutter_w > 0,
                Draw::Fill { rect: area(f.left as int, edge), color: theme.line_number_bg },
            ) + draw_if(
                f.gutter_w > 0,
                Draw::Fill { rect: area(edge, edge + 1), color: theme.bg_hover },
            )
        }),
{
    let bottom: i32 = f.top + f.height;
    let mut out: Vec<Draw> = Vec::new();
    let text: Rect = Rect { left: f.left, top: f.top, right: f.text_right, bottom };
    out.push(Draw::Fill { rect: text, color: theme.bg_primary });
    if f.gutter_w > 0 {
        let edge: i32 = f.left + f.gutter_w;
        let gutter: Rect = Rect { left: f.left, top: f.top, right: edge, bottom };
        let line: Rect = Rect { left: edge, top: f.top, right: edge + 1, bottom };
        out.push(Draw::Fill { rect: gutter, color: theme.line_number_bg });
        out.push(Draw::Fill { rect: line, color: theme.bg_hover });
    }
    proof {
        let area = |from: int, to: int|
            Rect {
                left: from as i32,
                top: f.top,
                right: to as i32,
                bottom: (f.top + f.height) as i32,
            };
        let edge = f.left + f.gutter_w;
        assert(out@ =~= seq![
            Draw::Fill { rect: area(f.left as int, f.text_right as int), color: theme.bg_primary },
        ] + draw_if(
            f.gutter_w > 0,
            Draw::Fill { rect: area(f.left as int, edge), color: theme.line_number_bg },
        ) + draw_if(
            f.gutter_w > 0,
            Draw::Fill { rect: area(edge, edge + 1), color: theme.bg_hover },
        ));
    }
    out
}

// ---------------------------------------------------------------------------
// Laws
// ---------------------------------------------------------------------------

/// A row that is out of view costs nothing: what is drawn for a line above or
/// below the view is nothing at all.
pub proof fn law_hidden_lines_draw_nothing(
    f: Frame,
    style: Style,
    theme: ThemeColors,
    l: LaidLine,
    m: MarksView,
    n: int,
)
    requires
        0 <= n <= l.rows@.len(),
        0 <= f.row_h,
        l.y_top + l.rows@.len() * f.row_h <= f.top || l.y_top >= f.top + f.height,
    ensures
        rows_draws(f, style, theme, l, m, n) == Seq::<Draw>::empty(),
    decreases n,
{
    if n > 0 {
        law_hidden_lines_draw_nothing(f, style, theme, l, m, n - 1);
        let i = n - 1;
        assert(0 <= i * f.row_h && i * f.row_h + f.row_h <= l.rows@.len() * f.row_h)
            by (nonlinear_arith)
            requires
                0 <= i < l.rows@.len(),
                0 <= f.row_h,
        ;
        assert(row_draws(f, style, theme, l, m, i) == Seq::<Draw>::empty());
        assert(rows_draws(f, style, theme, l, m, n) =~= Seq::<Draw>::empty());
    }
}

/// What is drawn for a row is drawn for the line.
proof fn lemma_drawn_with_its_row(
    f: Frame,
    style: Style,
    theme: ThemeColors,
    l: LaidLine,
    m: MarksView,
    n: int,
    i: int,
    d: Draw,
)
    requires
        0 <= i < n,
        row_draws(f, style, theme, l, m, i).contains(d),
    ensures
        rows_draws(f, style, theme, l, m, n).contains(d),
    decreases n,
{
    let before = rows_draws(f, style, theme, l, m, n - 1);
    let last = row_draws(f, style, theme, l, m, n - 1);
    if i < n - 1 {
        lemma_drawn_with_its_row(f, style, theme, l, m, n - 1, i, d);
        let k = before.index_of(d);
        assert((before + last)[k] == d);
    } else {
        let k = last.index_of(d);
        assert((before + last)[before.len() + k] == d);
    }
}

/// What is drawn for a line is drawn for one of its rows.
proof fn lemma_drawn_for_a_row(
    f: Frame,
    style: Style,
    theme: ThemeColors,
    l: LaidLine,
    m: MarksView,
    n: int,
    d: Draw,
) -> (i: int)
    requires
        0 <= n <= l.rows@.len(),
        rows_draws(f, style, theme, l, m, n).contains(d),
    ensures
        0 <= i < n,
        row_draws(f, style, theme, l, m, i).contains(d),
    decreases n,
{
    let before = rows_draws(f, style, theme, l, m, n - 1);
    let last = row_draws(f, style, theme, l, m, n - 1);
    let k = (before + last).index_of(d);
    if k < before.len() {
        assert(before[k] == d);
        lemma_drawn_for_a_row(f, style, theme, l, m, n - 1, d)
    } else {
        assert(last[k - before.len()] == d);
        n - 1
    }
}

proof fn lemma_drawn_in_either(a: Seq<Draw>, b: Seq<Draw>, d: Draw)
    ensures
        (a + b).contains(d) == (a.contains(d) || b.contains(d)),
{
    if a.contains(d) {
        let i = a.index_of(d);
        assert((a + b)[i] == d);
    }
    if b.contains(d) {
        let i = b.index_of(d);
        assert((a + b)[a.len() + i] == d);
    }
}

/// The parts of what is drawn for a row in view.
proof fn lemma_parts_of_a_row(
    f: Frame,
    style: Style,
    theme: ThemeColors,
    l: LaidLine,
    m: MarksView,
    i: int,
    row: VisualRow,
    y: int,
    d: Draw,
)
    ensures
        visible_draws(f, style, theme, l, m, i, row, y).contains(d) == (background(
            f,
            theme,
            l.line,
            m.annotated,
            y,
        ).contains(d) || guide_draws(f, theme, style.indent_guides, m.indent, y).contains(d)
            || annotation_bar(f, m.annotated, y).contains(d) || match_draws(
            f,
            theme,
            l.char_w@,
            row,
            m.matches,
            m.matches.len() as int,
            y,
        ).contains(d) || selection_draws(f, theme, l.line, l.char_w@, row, m.selection, y).contains(
            d,
        ) || space_draws(f, theme, style.whitespace, l, row, y).contains(d) || text_draws(
            f,
            theme,
            style.line_numbers && i == 0,
            row,
            m.text_color,
            y,
        ).contains(d)),
{
    let p1 = background(f, theme, l.line, m.annotated, y);
    let p2 = guide_draws(f, theme, style.indent_guides, m.indent, y);
    let p3 = annotation_bar(f, m.annotated, y);
    let p4 = match_draws(f, theme, l.char_w@, row, m.matches, m.matches.len() as int, y);
    let p5 = selection_draws(f, theme, l.line, l.char_w@, row, m.selection, y);
    let p6 = space_draws(f, theme, style.whitespace, l, row, y);
    let p7 = text_draws(f, theme, style.line_numbers && i == 0, row, m.text_color, y);
    lemma_drawn_in_either(p1, p2, d);
    lemma_drawn_in_either(p1 + p2, p3, d);
    lemma_drawn_in_either(p1 + p2 + p3, p4, d);
    lemma_drawn_in_either(p1 + p2 + p3 + p4, p5, d);
    lemma_drawn_in_either(p1 + p2 + p3 + p4 + p5, p6, d);
    lemma_drawn_in_either(p1 + p2 + p3 + p4 + p5 + p6, p7, d);
}

proof fn lemma_draw_if(shown: bool, d: Draw, x: Draw)
    ensures
        draw_if(shown, d).contains(x) == (shown && x == d),
{
    if shown {
        assert(draw_if(shown, d)[0] == d);
    }
}

/// Matches are drawn by filling.
proof fn lemma_matches_are_fills(
    f: Frame,
    theme: ThemeColors,
    char_w: Seq<i32>,
    row: VisualRow,
    matches: Seq<UnitMatch>,
    n: int,
    y: int,
)
    requires
        n <= matches.len(),
    ensures
        forall|k: int|
            #![trigger match_draws(f, theme, char_w, row, matches, n, y)[k]]
            0 <= k < match_draws(f, theme, char_w, row, matches, n, y).len() ==> match_draws(
                f,
                theme,
                char_w,
                row,
                matches,
                n,
                y,
            )[k] is Fill,
    decreases n,
{
    if n > 0 {
        lemma_matches_are_fills(f, theme, char_w, row, matches, n - 1, y);
    }
}

proof fn lemma_match_is_drawn(
    f: Frame,
    theme: ThemeColors,
    char_w: Seq<i32>,
    row: VisualRow,
    matches: Seq<UnitMatch>,
    n: int,
    y: int,
    k: int,
)
    requires
        0 <= k < n <= matches.len(),
        in_row(matches[k].start, matches[k].end, row) is Some,
    ensures
        ({
            let ab = in_row(matches[k].start, matches[k].end, row)->0;
            match_draws(f, theme, char_w, row, matches, n, y).contains(
                Draw::Fill {
                    rect: f.over(char_w, y, ab.0, ab.1),
                    color: if matches[k].current {
                        theme.search_current
                    } else {
                        theme.search_highlight
                    },
                },
            )
        }),
    decreases n,
{
    let ab = in_row(matches[k].start, matches[k].end, row)->0;
    let d = Draw::Fill {
        rect: f.over(char_w, y, ab.0, ab.1),
        color: if matches[k].current {
            theme.search_current
        } else {
            theme.search_highlight
        },
    };
    let before = match_draws(f, theme, char_w, row, matches, n - 1, y);
    let all = match_draws(f, theme, char_w, row, matches, n, y);
    if k < n - 1 {
        lemma_match_is_drawn(f, theme, char_w, row, matches, n - 1, y, k);
        let j = before.index_of(d);
        assert(all[j] == d);
    } else {
        assert(all[before.len() as int] == d);
    }
}

/// The text of every row in view is drawn where the row stands, in its colour, and the
/// number of the line beside its first row.
pub proof fn law_the_text_is_drawn(
    f: &Frame,
    style: &Style,
    theme: &ThemeColors,
    l: &LaidLine,
    ranges: &Vec<(usize, usize)>,
    hit: Option<u64>,
    selection: Option<Selection>,
    annotated: bool,
    r: Vec<Draw>,
    i: int,
    text: &str,
    level: Option<Rgb>,
    y: i32,
)
    requires
        call_ensures(
            draw_line,
            (f, style, theme, l, ranges, hit, selection, annotated),
            r,
        ),
        f.row_h > 0,
        0 <= i < l.rows@.len(),
        text@ == l.text@,
        call_ensures(level_color, (text, theme), level),
        y == l.y_top + i * f.row_h,
        f.top < y + f.row_h && y < f.top + f.height,
        fits_i32(f.text_right - f.content_x) && fits_i32(f.left + 4) && fits_i32(f.gutter_w - 8),
    ensures
        l.rows@[i].start < l.rows@[i].end ==> r@.contains(
            Draw::Text {
                x: f.content_x,
                y,
                w: (f.text_right - f.content_x) as i32,
                color: if style.level_coloring && level is Some {
                    level->0
                } else {
                    theme.text_primary
                },
                start: l.rows@[i].start,
                end: l.rows@[i].end,
            },
        ),
        style.line_numbers && i == 0 ==> r@.contains(
            Draw::Number {
                x: (f.left + 4) as i32,
                y,
                w: (f.gutter_w - 8) as i32,
                color: theme.line_number,
            },
        ),
{
    let m = marks_of(*l, *style, *theme, ranges@, hit, selection, annotated);
    let n = l.rows@.len() as int;
    let row = l.rows@[i];
    let number = Draw::Number {
        x: (f.left + 4) as i32,
        y,
        w: (f.gutter_w - 8) as i32,
        color: theme.line_number,
    };
    let shown = Draw::Text {
        x: f.content_x,
        y,
        w: (f.text_right - f.content_x) as i32,
        color: m.text_color,
        start: row.start,
        end: row.end,
    };
    let numbered = style.line_numbers && i == 0;
    assert(m.text_color == if style.level_coloring && level is Some {
        level->0
    } else {
        theme.text_primary
    });
    if row.start < row.end {
        lemma_draw_if(true, shown, shown);
        lemma_drawn_in_either(draw_if(numbered, number), draw_if(true, shown), shown);
        lemma_parts_of_a_row(*f, *style, *theme, *l, m, i, row, y as int, shown);
        lemma_drawn_with_its_row(*f, *style, *theme, *l, m, n, i, shown);
    }
    if numbered {
        lemma_draw_if(true, number, number);
        lemma_drawn_in_either(draw_if(true, number), draw_if(row.end > row.start, shown), number);
        lemma_parts_of_a_row(*f, *style, *theme, *l, m, i, row, y as int, number);
        lemma_drawn_with_its_row(*f, *style, *theme, *l, m, n, i, number);
    }
}

/// A text that is drawn is that of a row in view, and a number stands beside the first row
/// and only where numbers are shown; arrows are drawn only where white space is.
pub proof fn law_only_the_text_is_drawn(
    f: &Frame,
    style: &Style,
    theme: &ThemeColors,
    l: &LaidLine,
    ranges: &Vec<(usize, usize)>,
    hit: Option<u64>,
    selection: Option<Selection>,
    annotated: bool,
    r: Vec<Draw>,
    k: int,
) -> (i: int)
    requires
        call_ensures(
            draw_line,
            (f, style, theme, l, ranges, hit, selection, annotated),
            r,
        ),
        0 <= k < r@.len(),
        fits_i32(l.y_top + l.rows@.len() * f.row_h),
        f.row_h > 0,
    ensures
        0 <= i < l.rows@.len(),
        l.y_top + i * f.row_h + f.row_h > f.top,
        l.y_top + i * f.row_h < f.top + f.height,
        r@[k] is Text ==> r@[k]->Text_y == l.y_top + i * f.row_h && r@[k]->start == l.rows@[i].start
            && r@[k]->end == l.rows@[i].end && r@[k]->start < r@[k]->end && r@[k]->Text_x
            == f.content_x,
        r@[k] is Number ==> i == 0 && r@[k]->Number_y == l.y_top && style.line_numbers,
        r@[k] is Arrow ==> style.whitespace,
{
    let d = r@[k];
    let m = marks_of(*l, *style, *theme, ranges@, hit, selection, annotated);
    let i = lemma_drawn_for_a_row(*f, *style, *theme, *l, m, l.rows@.len() as int, d);
    let y = row_y(*f, *l, i);
    let row = l.rows@[i];
    assert(0 <= i * f.row_h && i * f.row_h <= l.rows@.len() * f.row_h) by (nonlinear_arith)
        requires
            0 <= i < l.rows@.len(),
            f.row_h > 0,
    ;
    lemma_parts_of_a_row(*f, *style, *theme, *l, m, i, row, y, d);
    lemma_matches_are_fills(*f, *theme, l.char_w@, row, m.matches, m.matches.len() as int, y);
    let p4 = match_draws(*f, *theme, l.char_w@, row, m.matches, m.matches.len() as int, y);
    if p4.contains(d) {
        let j = p4.index_of(d);
        assert(p4[j] is Fill);
    }
    i
}

/// A match is filled over its characters in every row that it reaches into, the current one
/// in a colour of its own.
pub proof fn law_matches_are_filled(
    f: &Frame,
    style: &Style,
    theme: &ThemeColors,
    l: &LaidLine,
    ranges: &Vec<(usize, usize)>,
    hit: Option<u64>,
    selection: Option<Selection>,
    annotated: bool,
    r: Vec<Draw>,
    i: int,
    y: i32,
    text: &str,
    matches: Vec<UnitMatch>,
    k: int,
    cols: (usize, usize),
    edges: (i32, i32),
)
    requires
        call_ensures(
            draw_line,
            (f, style, theme, l, ranges, hit, selection, annotated),
            r,
        ),
        f.row_h > 0,
        0 <= i < l.rows@.len(),
        y == l.y_top + i * f.row_h,
        f.top < y + f.row_h && y < f.top + f.height,
        fits_i32(y + f.row_h),
        text@ == l.text@,
        call_ensures(line_matches, (text, ranges, l.start_byte, hit), matches),
        0 <= k < matches@.len(),
        call_ensures(match_in_row, (&matches@[k], &l.rows@[i]), Some(cols)),
        call_ensures(mark_edges, (f.content_x, &l.char_w, cols.0, cols.1), edges),
    ensures
        r@.contains(
            Draw::Fill {
                rect: Rect { left: edges.0, top: y, right: edges.1, bottom: (y + f.row_h) as i32 },
                color: if matches@[k].current {
                    theme.search_current
                } else {
                    theme.search_highlight
                },
            },
        ),
{
    let m = marks_of(*l, *style, *theme, ranges@, hit, selection, annotated);
    let row = l.rows@[i];
    assert(m.matches =~= matches@);
    lemma_match_is_drawn(
        *f,
        *theme,
        l.char_w@,
        row,
        m.matches,
        m.matches.len() as int,
        y as int,
        k,
    );
    let d = Draw::Fill {
        rect: f.over(l.char_w@, y as int, cols.0 as int, cols.1 as int),
        color: if matches@[k].current {
            theme.search_current
        } else {
            theme.search_highlight
        },
    };
    lemma_parts_of_a_row(*f, *style, *theme, *l, m, i, row, y as int, d);
    lemma_drawn_with_its_row(*f, *style, *theme, *l, m, l.rows@.len() as int, i, d);
}

/// What is selected is filled over its characters in every row that it reaches into.
pub proof fn law_the_selection_is_filled(
    f: &Frame,
    style: &Style,
    theme: &ThemeColors,
    l: &LaidLine,
    ranges: &Vec<(usize, usize)>,
    hit: Option<u64>,
    selection: Selection,
    annotated: bool,
    r: Vec<Draw>,
    i: int,
    y: i32,
    cols: (usize, usize),
    edges: (i32, i32),
)
    requires
        call_ensures(
            draw_line,
            (f, style, theme, l, ranges, hit, Some(selection), annotated),
            r,
        ),
        f.row_h > 0,
        0 <= i < l.rows@.len(),
        y == l.y_top + i * f.row_h,
        f.top < y + f.row_h && y < f.top + f.height,
        fits_i32(y + f.row_h),
        call_ensures(
            selection_in_row,
            (&selection, l.line, l.char_w.len(), &l.rows@[i]),
            Some(cols),
        ),
        call_ensures(mark_edges, (f.content_x, &l.char_w, cols.0, cols.1), edges),
    ensures
        r@.contains(
            Draw::Fill {
                rect: Rect { left: edges.0, top: y, right: edges.1, bottom: (y + f.row_h) as i32 },
                color: theme.selection_bg,
            },
        ),
{
    let m = marks_of(*l, *style, *theme, ranges@, hit, Some(selection), annotated);
    let row = l.rows@[i];
    let d = Draw::Fill {
        rect: f.over(l.char_w@, y as int, cols.0 as int, cols.1 as int),
        color: theme.selection_bg,
    };
    assert(l.char_w.len() == l.char_w@.len());
    let p5 = selection_draws(*f, *theme, l.line, l.char_w@, row, m.selection, y as int);
    assert(p5[0] == d);
    lemma_parts_of_a_row(*f, *style, *theme, *l, m, i, row, y as int, d);
    lemma_drawn_with_its_row(*f, *style, *theme, *l, m, l.rows@.len() as int, i, d);
}

/// Every other line has another background, an annotated one a tinted background and a bar
/// beside its text, and guides stand where the text is indented.
pub proof fn law_backgrounds_and_bars_are_filled(
    f: &Frame,
    style: &Style,
    theme: &ThemeColors,
    l: &LaidLine,
    ranges: &Vec<(usize, usize)>,
    hit: Option<u64>,
    selection: Option<Selection>,
    annotated: bool,
    r: Vec<Draw>,
    i: int,
    y: i32,
    other: bool,
    color: Rgb,
    tint: Rgb,
    text: &str,
    indent: usize,
    xs: Vec<i32>,
    k: int,
)
    requires
        call_ensures(
            draw_line,
            (f, style, theme, l, ranges, hit, selection, annotated),
            r,
        ),
        f.row_h > 0,
        0 <= i < l.rows@.len(),
        y == l.y_top + i * f.row_h,
        f.top < y + f.row_h && y < f.top + f.height,
        fits_i32(y + f.row_h),
        fits_i32(f.content_x - 5),
        call_ensures(is_alternate, (l.line,), other),
        call_ensures(anno_amber, (), color),
        call_ensures(Rgb::blend, (&color, theme.bg_primary, 16), tint),
        text@ == l.text@,
        4 * text@.len() <= i32::MAX,
        call_ensures(leading_cols, (text,), indent),
        call_ensures(indent_guides, (indent, f.content_x, f.avg_char_w, f.text_right), xs),
        0 <= k < xs@.len(),
        xs@[k] < i32::MAX,
    ensures
        other ==> r@.contains(
            Draw::Fill {
                rect: Rect {
                    left: f.left,
                    top: y,
                    right: f.text_right,
                    bottom: (y + f.row_h) as i32,
                },
                color: theme.bg_tertiary,
            },
        ),
        annotated ==> r@.contains(
            Draw::Fill {
                rect: Rect {
                    left: f.left,
                    top: y,
                    right: f.text_right,
                    bottom: (y + f.row_h) as i32,
                },
                color: tint,
            },
        ) && r@.contains(
            Draw::Fill {
                rect: Rect {
                    left: (f.content_x - 5) as i32,
                    top: y,
                    right: (f.content_x - 1) as i32,
                    bottom: (y + f.row_h) as i32,
                },
                color,
            },
        ),
        style.indent_guides ==> r@.contains(
            Draw::Fill {
                rect: Rect {
                    left: xs@[k],
                    top: y,
                    right: (xs@[k] + 1) as i32,
                    bottom: (y + f.row_h) as i32,
                },
                color: theme.indent_guide,
            },
        ),
{
    let m = marks_of(*l, *style, *theme, ranges@, hit, selection, annotated);
    let n = l.rows@.len() as int;
    let row = l.rows@[i];
    let whole = f.row(y as int);
    let a = Draw::Fill { rect: whole, color: theme.bg_tertiary };
    let b = Draw::Fill { rect: whole, color: tint };
    let c = Draw::Fill {
        rect: f.strip(y as int, f.content_x - 5, f.content_x - 1),
        color,
    };
    if other {
        lemma_draw_if(true, a, a);
        lemma_drawn_in_either(draw_if(true, a), draw_if(annotated, b), a);
        lemma_parts_of_a_row(*f, *style, *theme, *l, m, i, row, y as int, a);
        lemma_drawn_with_its_row(*f, *style, *theme, *l, m, n, i, a);
    }
    if annotated {
        lemma_draw_if(true, b, b);
        lemma_drawn_in_either(draw_if(other, a), draw_if(true, b), b);
        lemma_parts_of_a_row(*f, *style, *theme, *l, m, i, row, y as int, b);
        lemma_drawn_with_its_row(*f, *style, *theme, *l, m, n, i, b);
        lemma_draw_if(true, c, c);
        lemma_parts_of_a_row(*f, *style, *theme, *l, m, i, row, y as int, c);
        lemma_drawn_with_its_row(*f, *style, *theme, *l, m, n, i, c);
    }
    if style.indent_guides {
        let p2 = guide_draws(*f, *theme, true, m.indent, y as int);
        let d = Draw::Fill {
            rect: f.strip(y as int, xs@[k] as int, xs@[k] + 1),
            color: theme.indent_guide,
        };
        assert(p2[k] == d);
        lemma_parts_of_a_row(*f, *style, *theme, *l, m, i, row, y as int, d);
        lemma_drawn_with_its_row(*f, *style, *theme, *l, m, n, i, d);
    }
}

/// White space is marked where it is shown: a blank by a dot in the middle of its place, a
/// tab by an arrow at its start.
pub proof fn law_white_space_is_drawn(
    f: &Frame,
    style: &Style,
    theme: &ThemeColors,
    l: &LaidLine,
    ranges: &Vec<(usize, usize)>,
    hit: Option<u64>,
    selection: Option<Selection>,
    annotated: bool,
    r: Vec<Draw>,
    i: int,
    y: i32,
    spaces: Vec<(usize, SpaceMark)>,
    k: int,
    edges: (i32, i32),
)
    requires
        call_ensures(
            draw_line,
            (f, style, theme, l, ranges, hit, selection, annotated),
            r,
        ),
        style.whitespace,
        f.row_h > 0,
        0 <= i < l.rows@.len(),
        y == l.y_top + i * f.row_h,
        f.top < y + f.row_h && y < f.top + f.height,
        fits_i32(y + f.row_h) && fits_i32(y - 1),
        call_ensures(whitespace_marks, (&l.units, &l.rows@[i]), spaces),
        0 <= k < spaces@.len(),
        spaces@[k].0 < l.char_w@.len(),
        l.char_w@[spaces@[k].0 as int] >= 1,
        call_ensures(mark_edges, (f.content_x, &l.char_w, spaces@[k].0, spaces@[k].0), edges),
        fits_i32(edges.0 + l.char_w@[spaces@[k].0 as int] + 1),
        edges.0 > i32::MIN,
    ensures
        spaces@[k].1 is Arrow ==> r@.contains(
            Draw::Arrow { x: edges.0, y, color: theme.whitespace_marker },
        ),
        spaces@[k].1 is Dot ==> r@.contains(
            Draw::Fill {
                rect: Rect {
                    left: (edges.0 + l.char_w@[spaces@[k].0 as int] as int / 2 - 1) as i32,
                    top: (y + f.row_h as int / 2 - 1) as i32,
                    right: (edges.0 + l.char_w@[spaces@[k].0 as int] as int / 2 + 1) as i32,
                    bottom: (y + f.row_h as int / 2 + 1) as i32,
                },
                color: theme.whitespace_marker,
            },
        ),
{
    let m = marks_of(*l, *style, *theme, ranges@, hit, selection, annotated);
    let n = l.rows@.len() as int;
    let row = l.rows@[i];
    let d = space_draw(
        *f,
        *theme,
        l.char_w@,
        spaces@[k].0 as int,
        spaces@[k].1,
        y as int,
    );
    let p6 = space_draws(*f, *theme, true, *l, row, y as int);
    assert(p6[k] == d);
    lemma_parts_of_a_row(*f, *style, *theme, *l, m, i, row, y as int, d);
    lemma_drawn_with_its_row(*f, *style, *theme, *l, m, n, i, d);
}

/// The ground covers the view: the text, the gutter beside it and a line between them.
pub proof fn law_the_ground_covers_the_view(f: &Frame, theme: &ThemeColors, r: Vec<Draw>)
    requires
        call_ensures(draw_ground, (f, theme), r),
        fits_i32(f.top + f.height),
        f.gutter_w >= 0,
        f.left + f.gutter_w + 1 <= i32::MAX,
    ensures
        r@.len() > 0,
        r@[0] == (Draw::Fill {
            rect: Rect {
                left: f.left,
                top: f.top,
                right: f.text_right,
                bottom: (f.top + f.height) as i32,
            },
            color: theme.bg_primary,
        }),
        f.gutter_w > 0 ==> r@.len() == 3 && r@[1] == (Draw::Fill {
            rect: Rect {
                left: f.left,
                top: f.top,
                right: (f.left + f.gutter_w) as i32,
                bottom: (f.top + f.height) as i32,
            },
            color: theme.line_number_bg,
        }) && r@[2] == (Draw::Fill {
            rect: Rect {
                left: (f.left + f.gutter_w) as i32,
                top: f.top,
                right: (f.left + f.gutter_w + 1) as i32,
                bottom: (f.top + f.height) as i32,
            },
            color: theme.bg_hover,
        }),
        f.gutter_w == 0 ==> r@.len() == 1,
{
}

} // verus!
