//! The status bar: path on the left, state in the middle, counts on the right,
//! and a row with the progress of background work above.

use vstd::prelude::*;

use crate::decimal::{decimal, push_decimal};
use crate::fields::{keep_end, shorten_front};
use crate::numbers::{parse_percent, percent_of, whole_number, Number, NumberView};
use crate::native::geom::Rect;
use crate::native::theme::{Rgb, ThemeColors};

verus! {

broadcast use vstd::string::group_string_axioms;

/// Height of the row that shows progress.
pub const PROGRESS_H: i32 = 16;

/// Most characters of a path.
pub const PATH_CHARS: usize = 50;

/// Width of the button that cancels.
pub const CANCEL_W: i32 = 56;

/// Width that the counts on the right need.
pub const COUNTS_W: i32 = 320;

/// Places that can be clicked.
#[derive(Clone, Copy, Debug)]
pub struct StatusRects {
    pub enc: Rect,
    pub ann: Rect,
}

impl Default for StatusRects {
    fn default() -> (r: Self)
        ensures
            r.enc == (Rect { left: 0, top: 0, right: 0, bottom: 0 }),
            r.ann == (Rect { left: 0, top: 0, right: 0, bottom: 0 }),
    {
        StatusRects { enc: Rect::empty(), ann: Rect::empty() }
    }
}

/// Whether background work goes on: an index is built for the open file, or a
/// search runs.
pub fn has_progress(file_open: bool, indexing: bool, searching: bool) -> (r: bool)
    ensures
        r == ((file_open && indexing) || searching),
{
    (file_open && indexing) || searching
}

/// Share of the work that a message such as `indexing... 42%` reports, in
/// percent.
pub fn progress_percent(text: &str) -> (r: Option<Number>)
    ensures
        match r {
            Some(n) => percent_of(text@) == Some(n@),
            None => percent_of(text@) is None,
        },
{
    parse_percent(text)
}

/// The progress to show.
pub struct Progress {
    /// In percent.
    pub percent: Number,
    pub label: String,
    pub is_indexing: bool,
}

/// Percent that a message reports, none where it reports nothing.
pub open spec fn shown_percent(msg: Seq<char>) -> NumberView {
    match percent_of(msg) {
        Some(n) => n,
        None => whole_number(0),
    }
}

/// The progress to show: that of the index before that of a search.
pub fn current_progress(index: Option<String>, search: Option<String>) -> (r: Option<Progress>)
    ensures
        match r {
            Some(p) => {
                &&& index is Some || search is Some
                &&& p.is_indexing == index is Some
                &&& p.label == if index is Some {
                    index->0
                } else {
                    search->0
                }
                &&& p.percent@ == shown_percent(p.label@)
            },
            None => index is None && search is None,
        },
{
    let (label, is_indexing): (String, bool) = match index {
        Some(p) => (p, true),
        None => match search {
            Some(p) => (p, false),
            None => {
                return None;
            },
        },
    };
    let percent: Number = match progress_percent(label.as_str()) {
        Some(n) => n,
        None => Number::of_whole(0),
    };
    Some(Progress { percent, label, is_indexing })
}

/// Colour of the bar.
pub fn progress_color(is_indexing: bool, theme: &ThemeColors) -> (r: Rgb)
    ensures
        r == if is_indexing {
            theme.info
        } else {
            theme.success
        },
{
    if is_indexing {
        theme.info
    } else {
        theme.success
    }
}

/// Place of the button that cancels, in a window of width `w`.
pub fn cancel_rect(w: i32, progress_top: i32, status_top: i32) -> (r: Rect)
    requires
        w >= i32::MIN + 100,
        progress_top <= i32::MAX - 2,
        status_top >= i32::MIN + 2,
    ensures
        r == (Rect {
            left: (w - CANCEL_W - 4) as i32,
            top: (progress_top + 2) as i32,
            right: (w - 4) as i32,
            bottom: (status_top - 2) as i32,
        }),
{
    Rect { left: w - CANCEL_W - 4, top: progress_top + 2, right: w - 4, bottom: status_top - 2 }
}

/// What the left part says: the end of the path, or that no file is open.
pub fn path_text(path: Option<&str>) -> (r: String)
    ensures
        r@ == match path {
            Some(p) => keep_end(p@, PATH_CHARS as nat),
            None => "未打开文件"@,
        },
{
    match path {
        Some(p) => shorten_front(p, PATH_CHARS),
        None => "未打开文件".to_owned(),
    }
}

/// What the middle part shows.
#[derive(Clone, Copy, PartialEq, Eq, Structural, Debug)]
pub enum CenterText {
    SearchStatus,
    FileStatus,
    Nothing,
}

/// What the middle part shows: the state of a search before that of the file,
/// and nothing where there is no room.
pub fn center_text(width: i32, query: &str, search_status: &str, file_status: &str) -> (r:
    CenterText)
    ensures
        r == if width <= 40 {
            CenterText::Nothing
        } else if query@.len() > 0 && search_status@.len() > 0 {
            CenterText::SearchStatus
        } else if file_status@.len() > 0 {
            CenterText::FileStatus
        } else {
            CenterText::Nothing
        },
{
    if width <= 40 {
        CenterText::Nothing
    } else if !query.is_empty() && !search_status.is_empty() {
        CenterText::SearchStatus
    } else if !file_status.is_empty() {
        CenterText::FileStatus
    } else {
        CenterText::Nothing
    }
}

/// Column and width of the middle part, right of a left part of width `left_w`.
pub fn center_area(w: i32, left_w: i32) -> (r: (i32, i32))
    requires
        left_w <= i32::MAX - 8,
        i32::MIN + COUNTS_W <= w - (left_w + 8) <= i32::MAX,
    ensures
        r.0 == left_w + 8,
        r.1 == w - r.0 - COUNTS_W,
{
    let x: i32 = left_w + 8;
    (x, w - x - COUNTS_W)
}

/// Label of the annotations.
pub fn annotation_label(count: usize) -> (r: String)
    ensures
        r@ == "批注("@ + decimal(count as nat) + ")"@,
{
    let mut out: String = "批注(".to_owned();
    push_decimal(&mut out, count as u64);
    out.append(")");
    out
}

/// Label of the number of lines.
pub fn line_label(count: u64) -> (r: String)
    ensures
        r@ == decimal(count as nat) + " 行"@,
{
    let mut out = String::new();
    push_decimal(&mut out, count);
    out.append(" 行");
    assert(out@ =~= decimal(count as nat) + " 行"@);
    out
}

/// Widths of the labels on the right.
#[derive(Clone, Copy, Debug)]
pub struct LabelWidths {
    pub ann: i32,
    pub enc: i32,
    pub lines: i32,
    pub size: i32,
}

impl LabelWidths {
    /// The labels have a place left of column `w`.
    pub open spec fn fit(self, w: int) -> bool {
        &&& 0 <= self.ann
        &&& 0 <= self.enc
        &&& 0 <= self.lines <= i32::MAX - 10
        &&& 0 <= self.size <= i32::MAX - 12
        &&& w - 58 - self.ann - self.enc - self.lines - self.size >= i32::MIN
    }
}

/// Columns of the labels on the right.
#[derive(Clone, Copy, Debug)]
pub struct RightPart {
    pub ann_x: i32,
    pub enc_x: i32,
    /// A bar stands here.
    pub bar_x: i32,
    /// The number of lines stands here, behind a bar.
    pub lines_x: i32,
    pub size_x: i32,
    pub rects: StatusRects,
}

/// Columns of the labels on the right of a window of width `w`, from the right
/// edge inwards, and where the annotations and the encoding can be clicked.
pub fn right_part(w: i32, status_top: i32, h: i32, widths: &LabelWidths) -> (r: RightPart)
    requires
        widths.fit(w as int),
    ensures
        r.ann_x == w - 6 - widths.ann,
        r.enc_x == r.ann_x - 14 - widths.enc,
        r.bar_x == r.enc_x - 16,
        r.lines_x == r.bar_x - (widths.lines + 10),
        r.size_x == r.lines_x - (widths.size + 12),
        r.rects.ann == (Rect {
            left: (r.ann_x - 2) as i32,
            top: status_top,
            right: (r.ann_x + widths.ann + 2) as i32,
            bottom: h,
        }),
        r.rects.enc == (Rect {
            left: (r.enc_x - 2) as i32,
            top: status_top,
            right: (r.enc_x + widths.enc + 2) as i32,
            bottom: h,
        }),
{
    let ann_x: i32 = w - 6 - widths.ann;
    let enc_x: i32 = ann_x - 14 - widths.enc;
    let bar_x: i32 = enc_x - 16;
    let lines_x: i32 = bar_x - (widths.lines + 10);
    let size_x: i32 = lines_x - (widths.size + 12);
    RightPart {
        ann_x,
        enc_x,
        bar_x,
        lines_x,
        size_x,
        rects: StatusRects {
            enc: Rect { left: enc_x - 2, top: status_top, right: enc_x + widths.enc + 2, bottom: h },
            ann: Rect { left: ann_x - 2, top: status_top, right: ann_x + widths.ann + 2, bottom: h },
        },
    }
}

/// A click hits the encoding or the annotations, never both.
pub proof fn law_labels_do_not_overlap(r: RightPart, widths: LabelWidths, x: i32, y: i32)
    requires
        r.enc_x == r.ann_x - 14 - widths.enc,
        r.rects.ann.left == r.ann_x - 2,
        r.rects.enc.right == r.enc_x + widths.enc + 2,
    ensures
        !(r.rects.ann.holds(x, y) && r.rects.enc.holds(x, y)),
{
}

/// There is progress to show while a file is indexed or searched.
pub proof fn law_work_shows_progress(
    file_open: bool,
    indexing: bool,
    searching: bool,
    shown: bool,
    index: Option<String>,
    search: Option<String>,
    r: Option<Progress>,
    theme: &ThemeColors,
    color: Rgb,
)
    requires
        call_ensures(has_progress, (file_open, indexing, searching), shown),
        call_ensures(current_progress, (index, search), r),
        r is Some ==> call_ensures(progress_color, (r->0.is_indexing, theme), color),
    ensures
        searching ==> shown,
        file_open && indexing ==> shown,
        !searching && (!file_open || !indexing) ==> !shown,
        r is None == (index is None && search is None),
        index is Some ==> r->0.label@ == index->0@ && r->0.is_indexing && color == theme.info,
        index is None && search is Some ==> r->0.label@ == search->0@ && !r->0.is_indexing && color
            == theme.success,
{
}

/// The part that is filled is the percentage of the message, and nothing where it has none.
pub proof fn law_progress_is_that_of_the_message(
    index: Option<String>,
    search: Option<String>,
    r: Option<Progress>,
    label: &str,
    percent: Option<Number>,
)
    requires
        call_ensures(current_progress, (index, search), r),
        r is Some,
        label@ == r->0.label@,
        call_ensures(progress_percent, (label,), percent),
    ensures
        percent is Some ==> r->0.percent@ == percent->0@,
        percent is None ==> r->0.percent.whole == 0 && !r->0.percent.is_nan,
{
}

/// The button that stops the work stands at the right end of the bar.
pub proof fn law_the_stop_button_stands_at_the_right(w: i32, top: i32, bottom: i32, r: Rect)
    requires
        call_ensures(cancel_rect, (w, top, bottom), r),
        w >= i32::MIN + 100,
        top <= i32::MAX - 2,
        bottom >= i32::MIN + 2,
    ensures
        r.right == w - 4 && r.right - r.left == 56,
        r.top == top + 2 && r.bottom == bottom - 2,
{
}

/// The path is shown, the end of it where it is long, and that there is none.
pub proof fn law_paths_are_shown(path: &str, r: String, none: String)
    requires
        call_ensures(path_text, (Some(path),), r),
        call_ensures(path_text, (None,), none),
    ensures
        path@.len() <= 50 ==> r@ == path@,
        path@.len() > 50 ==> r@.len() == 50 && r@[0] == '…' && r@.skip(1) == path@.skip(
            path@.len() - 49,
        ),
        none@ == "未打开文件"@,
{
    if path@.len() > 50 {
        assert(r@.skip(1) =~= path@.skip(path@.len() - 49));
    }
}

/// The middle shows the state of the search, without one that of the file, and nothing
/// where there is no room; it lies between what is left and right of it.
pub proof fn law_the_middle_shows_the_state(
    width: i32,
    query: &str,
    search: &str,
    file: &str,
    r: CenterText,
    w: i32,
    left_w: i32,
    area: (i32, i32),
)
    requires
        call_ensures(center_text, (width, query, search, file), r),
        call_ensures(center_area, (w, left_w), area),
        left_w <= i32::MAX - 8,
        i32::MIN + 320 <= w - (left_w + 8) <= i32::MAX,
    ensures
        width <= 40 ==> r is Nothing,
        width > 40 && query@.len() > 0 && search@.len() > 0 ==> r is SearchStatus,
        width > 40 && (query@.len() == 0 || search@.len() == 0) && file@.len() > 0
            ==> r is FileStatus,
        width > 40 && (query@.len() == 0 || search@.len() == 0) && file@.len() == 0
            ==> r is Nothing,
        area.0 == left_w + 8,
        area.0 + area.1 == w - 320,
{
}

/// The counts are told with what they count.
pub proof fn law_counts_are_told(
    count: usize,
    lines: u64,
    ann: String,
    line: String,
    n: String,
    m: String,
)
    requires
        call_ensures(annotation_label, (count,), ann),
        call_ensures(line_label, (lines,), line),
        call_ensures(crate::decimal::decimal_string, (count as u64,), n),
        call_ensures(crate::decimal::decimal_string, (lines,), m),
    ensures
        ann@ == "批注("@ + n@ + ")"@,
        line@ == m@ + " 行"@,
{
}

/// The labels at the right end stand beside each other without touching, and a click on
/// one of two is told apart.
pub proof fn law_labels_stand_beside_each_other(
    w: i32,
    top: i32,
    h: i32,
    widths: &LabelWidths,
    r: RightPart,
)
    requires
        call_ensures(right_part, (w, top, h, widths), r),
        widths.fit(w as int),
    ensures
        r.ann_x + widths.ann == w - 6,
        r.enc_x + widths.enc < r.ann_x,
        r.bar_x < r.enc_x,
        r.lines_x + widths.lines < r.bar_x,
        r.size_x + widths.size < r.lines_x,
        r.rects.enc.left <= r.enc_x && r.enc_x + widths.enc <= r.rects.enc.right,
        r.rects.ann.left <= r.ann_x && r.ann_x + widths.ann <= r.rects.ann.right,
        r.rects.enc.right < r.rects.ann.left,
        r.rects.enc.top == top && r.rects.enc.bottom == h && r.rects.ann.top == top
            && r.rects.ann.bottom == h,
{
}

} // verus!
