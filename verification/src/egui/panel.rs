//! The central panel: which lines are shown, what is searched for matches, and
//! how the pointer moves selection and caret.

use vstd::prelude::*;

use crate::bounds::min_int;
use crate::decimal::{align_right, decimal, decimal_string, pad_left};
use crate::egui::huge_cache::{has_no_entry, is_first_entry, position_of, HugeLineCache};
use crate::egui::viewer::{
    colour_of, filter_matches_line, level_color, passes, Color, FilterSpec, LevelColors,
};
use crate::levels::{level_of, uppercase};
use crate::text::{char_count, RawLine};
use vstd::utf8::encode_utf8;

verus! {

broadcast use vstd::string::group_string_axioms;

/// Characters of a very long line that decide on its colour.
pub const HEAD_CHARS: usize = 200;

/// Lines up to which the width of every line is measured.
pub const FULL_SCAN_LINE_LIMIT: u64 = 20_000;

/// Byte of a line break.
pub const NEWLINE: u8 = 0x0A;

// ---------------------------------------------------------------------------
// Dialogs
// ---------------------------------------------------------------------------

/// Dialogs that stand over the main view. The assistant has a window of its
/// own and is not among them: the main view scrolls while it is open.
#[derive(Clone, Copy, Debug)]
pub struct Dialogs {
    pub about: bool,
    pub donate: bool,
    pub help: bool,
    pub shortcuts: bool,
    pub settings: bool,
    pub file_properties: bool,
    pub index_manager: bool,
    pub encoding_confirm: bool,
    pub annotation_dialog: bool,
    pub annotation_list: bool,
}

impl Dialogs {
    /// Whether some dialog is open, which keeps the wheel from the main view.
    pub fn any_open(&self) -> (r: bool)
        ensures
            r == (self.about || self.donate || self.help || self.shortcuts || self.settings
                || self.file_properties || self.index_manager || self.encoding_confirm
                || self.annotation_dialog || self.annotation_list),
    {
        self.about || self.donate || self.help || self.shortcuts || self.settings
            || self.file_properties || self.index_manager || self.encoding_confirm
            || self.annotation_dialog || self.annotation_list
    }

    /// Which wheel movements reach the main view: vertical, horizontal.
    pub fn wheel_axes(&self, word_wrap: bool) -> (r: (bool, bool))
        ensures
            r.0 == !(self.about || self.donate || self.help || self.shortcuts || self.settings
                || self.file_properties || self.index_manager || self.encoding_confirm
                || self.annotation_dialog || self.annotation_list),
            r.1 == (r.0 && !word_wrap),
    {
        let open: bool = self.any_open();
        (!open, !(open || word_wrap))
    }
}

// ---------------------------------------------------------------------------
// Visible lines
// ---------------------------------------------------------------------------

/// Visual rows shown beyond the viewport.
pub fn visible_slack(word_wrap: bool) -> (r: u64)
    ensures
        r == if word_wrap {
            12u64
        } else {
            2u64
        },
{
    if word_wrap {
        12
    } else {
        2
    }
}

/// Lines to show, `[first, last)`, from the lines at the top and the bottom of
/// the viewport.
pub fn visible_lines(top_line: usize, bottom_line: usize, num_rows: usize) -> (r: (usize, usize))
    requires
        bottom_line < usize::MAX,
        num_rows > 0,
    ensures
        r.0 == if top_line < num_rows {
            top_line as int
        } else {
            num_rows - 1
        },
        r.1 == if bottom_line + 1 >= num_rows {
            num_rows as int
        } else if bottom_line + 1 > r.0 {
            bottom_line + 1
        } else {
            r.0 + 1
        },
        r.0 < r.1 <= num_rows,
{
    let first: usize = if top_line < num_rows {
        top_line
    } else {
        num_rows - 1
    };
    let mut last: usize = bottom_line + 1;
    if last > num_rows {
        last = num_rows;
    }
    if last < first + 1 {
        last = first + 1;
    }
    (first, last)
}

/// Place in the walk over the shown lines.
#[derive(Clone, Copy, Debug)]
pub struct LineWalk {
    pub line: u64,
    /// Visual row at which the line starts.
    pub vrow: u64,
}

impl LineWalk {
    /// Whether the walk has left the viewport or the file.
    pub fn is_done(&self, vis_bottom: u64, num_rows: u64) -> (r: bool)
        ensures
            r == (self.vrow >= vis_bottom || self.line >= num_rows),
    {
        self.vrow >= vis_bottom || self.line >= num_rows
    }

    /// Goes to the next line, behind one of `rows` visual rows.
    pub fn step(&mut self, rows: u64)
        requires
            old(self).line < u64::MAX,
            old(self).vrow + rows <= u64::MAX,
        ensures
            final(self).line == old(self).line + 1,
            final(self).vrow == old(self).vrow + rows,
    {
        self.line = self.line + 1;
        self.vrow = self.vrow + rows;
    }
}

/// How a line is shown.
#[derive(Clone, Copy, Debug, PartialEq, Eq, Structural)]
pub enum LineMode {
    /// Row by row, from the cache of long lines.
    CachedRows,
    /// Row by row, from its text.
    TextRows,
    /// As a whole.
    Whole,
}

/// How a line is shown: a line listed as very long from the cache, if it is
/// there; another one row by row where its text is very long after all.
pub fn line_mode(listed: bool, cached: bool, text_len: usize, chunk_line_bytes: usize) -> (r:
    LineMode)
    ensures
        r == if listed && cached {
            LineMode::CachedRows
        } else if text_len > chunk_line_bytes {
            LineMode::TextRows
        } else {
            LineMode::Whole
        },
{
    if listed && cached {
        LineMode::CachedRows
    } else if text_len > chunk_line_bytes {
        LineMode::TextRows
    } else {
        LineMode::Whole
    }
}

/// Very long lines of the open file, and what they were found under: the
/// number of lines and of bytes.
pub struct HugeLines {
    pub lines: Vec<(u64, u64)>,
    pub built_for: Option<(u64, u64)>,
}

impl HugeLines {
    /// The list is what a scan has found; without one it is empty and not built.
    pub open spec fn is_scanned<F: Fn() -> Option<Vec<(u64, u64)>>>(
        self,
        before: HugeLines,
        key: (u64, u64),
        scan: F,
    ) -> bool {
        exists|found: Option<Vec<(u64, u64)>>| #[trigger]
            call_ensures(scan, (), found) && match found {
                Some(lines) => self.lines == lines && self.built_for == Some(key),
                None => self.lines@.len() == 0 && self.built_for == before.built_for,
            }
    }

    /// Brings the list up to date. `scan` looks the very long lines up, and
    /// finds nothing while the file is being indexed. Returns whether cached
    /// lines have become worthless.
    pub fn refresh<F: Fn() -> Option<Vec<(u64, u64)>>>(&mut self, key: (u64, u64), scan: F) -> (r:
        bool)
        requires
            call_requires(scan, ()),
        ensures
            r == (old(self).built_for != Some(key)),
            !r ==> *final(self) == *old(self),
            r ==> final(self).is_scanned(*old(self), key, scan),
    {
        let current: bool = match self.built_for {
            Some(b) => b.0 == key.0 && b.1 == key.1,
            None => false,
        };
        if current {
            return false;
        }
        let found: Option<Vec<(u64, u64)>> = scan();
        let ghost result = found;
        match found {
            Some(lines) => {
                self.lines = lines;
                self.built_for = Some(key);
            },
            None => {
                self.lines.clear();
            },
        }
        assert(call_ensures(scan, (), result));
        true
    }
}

// ---------------------------------------------------------------------------
// Line colours
// ---------------------------------------------------------------------------

/// The first characters of a line.
pub fn head_of(text: &str) -> (r: String)
    ensures
        r@ == text@.take(if text@.len() <= HEAD_CHARS {
            text@.len() as int
        } else {
            HEAD_CHARS as int
        }),
{
    let mut out = String::new();
    for c in it: text.chars()
        invariant
            it.seq() == text@,
            it.index() <= HEAD_CHARS,
            out@ == text@.take(it.index() as int),
            out@.len() == it.index(),
    {
        if out.as_str().unicode_len() == HEAD_CHARS {
            return out;
        }
        assert(text@.take(it.index() + 1) =~= text@.take(it.index() as int).push(c));
        out.push(c);
    }
    out
}

/// Colour of a line's text, and whether the line is dimmed because it does not
/// pass the filter.
pub fn line_style(
    text: &str,
    coloring: bool,
    filter: &Option<FilterSpec>,
    theme: &LevelColors,
    primary: Color,
) -> (r: (Color, bool))
    ensures
        r.0 == match colour_of(level_of(encode_utf8(uppercase(text@))), *theme) {
            Some(c) => if coloring {
                c
            } else {
                primary
            },
            None => primary,
        },
        r.1 == match filter {
            Some(f) => !passes(*f, text@),
            None => false,
        },
{
    let color: Color = if coloring {
        match level_color(text, theme) {
            Some(c) => c,
            None => primary,
        }
    } else {
        primary
    };
    let dimmed: bool = match filter {
        Some(f) => !filter_matches_line(f, text),
        None => false,
    };
    (color, dimmed)
}

// ---------------------------------------------------------------------------
// Search
// ---------------------------------------------------------------------------

/// Whether a query holds a line break, so that it cannot match within a line.
pub fn is_multiline(query: &[u8]) -> (r: bool)
    ensures
        r == query@.contains(NEWLINE),
{
    let mut i: usize = 0;
    while i < query.len()
        invariant
            i <= query@.len(),
            forall|k: int| 0 <= k < i ==> #[trigger] query@[k] != NEWLINE,
        decreases query@.len() - i,
    {
        if query[i] == NEWLINE {
            assert(query@[i as int] == NEWLINE);
            return true;
        }
        i = i + 1;
    }
    false
}

/// Bytes of the file that are searched for matches over several lines: those of
/// the shown lines, and enough before them for a match that ends in the first.
/// Returns the start and the length.
pub fn match_window(first_byte: u64, last_end: u64, query_len: u64) -> (r: (u64, u64))
    ensures
        r.0 == if query_len >= 1 && first_byte >= query_len - 1 {
            first_byte - (query_len - 1)
        } else if query_len >= 1 {
            0
        } else {
            first_byte as int
        },
        r.1 == if last_end >= r.0 {
            last_end - r.0
        } else {
            0
        },
{
    let start: u64 = first_byte.saturating_sub(query_len.saturating_sub(1));
    (start, last_end.saturating_sub(start))
}

/// What is done about the parsed query of the highlight.
#[derive(Clone, Copy, Debug, PartialEq, Eq, Structural)]
pub enum QueryUpdate {
    /// The query is the one that was parsed.
    Keep,
    /// The query is empty: nothing is highlighted.
    Clear,
    /// The query is new and is parsed.
    Parse,
}

/// What is done about the parsed query when the query may have changed.
pub fn query_update(query: &String, parsed_for: &String) -> (r: QueryUpdate)
    ensures
        r == if query@ == parsed_for@ {
            QueryUpdate::Keep
        } else if query@.len() == 0 {
            QueryUpdate::Clear
        } else {
            QueryUpdate::Parse
        },
{
    if *query == *parsed_for {
        QueryUpdate::Keep
    } else if query.as_str().is_empty() {
        QueryUpdate::Clear
    } else {
        QueryUpdate::Parse
    }
}

// ---------------------------------------------------------------------------
// Content width
// ---------------------------------------------------------------------------

/// Which lines are measured for the width of the content.
#[derive(Clone, Copy, Debug, PartialEq, Eq, Structural)]
pub enum WidthScan {
    /// None: nothing is to be measured now.
    Later,
    /// Every line that is not very long.
    EveryLine,
    /// This line alone.
    Line(u64),
    /// None, and none later: the longest line is very long, and is wrapped.
    Nothing,
}

/// Which lines are measured: once the file is indexed, and lines are not
/// wrapped, and only once. Small files are measured whole; of a large one only
/// the line with the most bytes is, unless it is very long. `max_line_bytes`
/// counts the line break.
pub fn width_scan(
    index_complete: bool,
    word_wrap: bool,
    done: bool,
    total: u64,
    longest_line: u64,
    max_line_bytes: u64,
    chunk_line_bytes: u64,
) -> (r: WidthScan)
    requires
        chunk_line_bytes < u64::MAX,
    ensures
        r == if !index_complete || word_wrap || done {
            WidthScan::Later
        } else if total <= FULL_SCAN_LINE_LIMIT {
            WidthScan::EveryLine
        } else if longest_line < total && 0 < max_line_bytes <= chunk_line_bytes + 1 {
            WidthScan::Line(longest_line)
        } else {
            WidthScan::Nothing
        },
{
    if !(index_complete && !word_wrap && !done) {
        WidthScan::Later
    } else if total <= FULL_SCAN_LINE_LIMIT {
        WidthScan::EveryLine
    } else if longest_line < total && max_line_bytes > 0 && max_line_bytes <= chunk_line_bytes + 1 {
        WidthScan::Line(longest_line)
    } else {
        WidthScan::Nothing
    }
}

// ---------------------------------------------------------------------------
// Pointer
// ---------------------------------------------------------------------------

/// Selection by line and character column: the ends in the order in which they
/// were set.
pub type Span = (u64, usize, u64, usize);

/// What the pointer has done so far.
#[derive(Clone, Copy, Debug)]
pub struct PointerState {
    pub was_down: bool,
    pub selecting: bool,
    pub selection: Option<Span>,
    pub edit_cursor: Option<(u64, usize)>,
}

/// What the pointer does in a frame.
#[derive(Clone, Copy, Debug)]
pub struct PointerFrame {
    pub down: bool,
    /// The pointer is over the text.
    pub hovered: bool,
    /// Line and column under the pointer.
    pub at: Option<(u64, usize)>,
    pub edit_mode: bool,
}

impl PointerState {
    /// The primary button goes down in this frame.
    pub open spec fn is_press(self, frame: PointerFrame) -> bool {
        frame.down && !self.was_down
    }

    /// A drag that selects goes on in this frame.
    pub open spec fn is_selecting(self, frame: PointerFrame) -> bool {
        frame.down && (self.selecting || (!self.was_down && frame.hovered))
    }

    /// The selection after a frame.
    pub open spec fn selection_after(self, frame: PointerFrame) -> Option<Span> {
        match frame.at {
            Some((line, col)) => if !self.is_selecting(frame) {
                self.selection
            } else if self.is_press(frame) {
                Some((line, col, line, col))
            } else {
                match self.selection {
                    None => Some((line, col, line, col)),
                    Some((l, c, _, _)) => Some((l, c, line, col)),
                }
            },
            None => self.selection,
        }
    }

    /// The caret moves to the pointer in this frame.
    pub open spec fn moves_caret(self, frame: PointerFrame) -> bool {
        frame.edit_mode && self.is_press(frame) && self.is_selecting(frame) && frame.at is Some
    }

    /// Takes one frame in. A press over the text starts a new selection; while
    /// the button stays down the selection follows the pointer, also outside of
    /// the text. Returns whether text being composed is dropped, because the
    /// caret has moved.
    pub fn update(&mut self, frame: &PointerFrame) -> (r: bool)
        ensures
            final(self).was_down == frame.down,
            final(self).selecting == old(self).is_selecting(*frame),
            final(self).selection == old(self).selection_after(*frame),
            final(self).edit_cursor == if old(self).moves_caret(*frame) {
                frame.at
            } else {
                old(self).edit_cursor
            },
            r == old(self).moves_caret(*frame),
    {
        let just_pressed: bool = frame.down && !self.was_down;
        self.was_down = frame.down;
        if just_pressed && frame.hovered {
            self.selecting = true;
        }
        if !frame.down {
            self.selecting = false;
        }
        let mut moved: bool = false;
        if self.selecting && frame.down {
            match frame.at {
                Some((line, col)) => {
                    if just_pressed {
                        self.selection = Some((line, col, line, col));
                        if frame.edit_mode {
                            self.edit_cursor = Some((line, col));
                            moved = true;
                        }
                    } else {
                        self.selection = match self.selection {
                            None => Some((line, col, line, col)),
                            Some((l, c, _, _)) => Some((l, c, line, col)),
                        };
                    }
                },
                None => {},
            }
        }
        moved
    }
}

/// Glyphs in the first `n` rows.
pub open spec fn glyphs_before(rows: Seq<usize>, n: int) -> nat
    decreases n,
{
    if n <= 0 {
        0
    } else {
        glyphs_before(rows, n - 1) + rows[n - 1] as nat
    }
}

/// Character column of glyph `in_row` of row `sub_row`. The rows hold as many
/// glyphs as `rows` says, and the first starts at character `chunk_char`.
pub fn column_of(chunk_char: usize, rows: &Vec<usize>, sub_row: usize, in_row: usize) -> (r: usize)
    requires
        sub_row <= rows@.len(),
        chunk_char + glyphs_before(rows@, sub_row as int) + in_row <= usize::MAX,
    ensures
        r == chunk_char + glyphs_before(rows@, sub_row as int) + in_row,
{
    let mut prior: usize = 0;
    let mut i: usize = 0;
    while i < sub_row
        invariant
            i <= sub_row <= rows@.len(),
            prior == glyphs_before(rows@, i as int),
            chunk_char + glyphs_before(rows@, sub_row as int) + in_row <= usize::MAX,
        decreases sub_row - i,
    {
        proof {
            lemma_glyphs_grow(rows@, i + 1, sub_row as int);
        }
        prior = prior + rows[i];
        i = i + 1;
    }
    chunk_char + prior + in_row
}

proof fn lemma_glyphs_grow(rows: Seq<usize>, a: int, b: int)
    requires
        0 <= a <= b,
    ensures
        glyphs_before(rows, a) <= glyphs_before(rows, b),
    decreases b - a,
{
    if a < b {
        lemma_glyphs_grow(rows, a, b - 1);
    }
}

// ---------------------------------------------------------------------------
// Selection, caret and bars of a line
// ---------------------------------------------------------------------------

/// The ends of a selection in the order of the text.
pub open spec fn ordered(sel: Span) -> Span {
    if sel.0 < sel.2 || (sel.0 == sel.2 && sel.1 <= sel.3) {
        sel
    } else {
        (sel.2, sel.3, sel.0, sel.1)
    }
}

/// Columns that a selection takes in a line of `nchars` characters.
pub open spec fn columns_in(sel: Span, line: u64, nchars: int) -> Option<(int, int)> {
    let (from_line, from_col, to_line, to_col) = ordered(sel);
    let start = if line == from_line {
        min_int(from_col as int, nchars)
    } else {
        0
    };
    let end = if line == to_line {
        min_int(to_col as int, nchars)
    } else {
        nchars
    };
    if from_line <= line <= to_line && start < end {
        Some((start, end))
    } else {
        None
    }
}

/// Columns that a selection takes in a line of `nchars` characters.
pub fn selection_columns(sel: Span, line: u64, nchars: usize) -> (r: Option<(usize, usize)>)
    ensures
        match r {
            Some(c) => columns_in(sel, line, nchars as int) == Some((c.0 as int, c.1 as int)),
            None => columns_in(sel, line, nchars as int) is None,
        },
{
    let (from_line, from_col, to_line, to_col) = if sel.0 < sel.2 || (sel.0 == sel.2 && sel.1
        <= sel.3) {
        (sel.0, sel.1, sel.2, sel.3)
    } else {
        (sel.2, sel.3, sel.0, sel.1)
    };
    if line < from_line || line > to_line {
        return None;
    }
    let start: usize = if line == from_line {
        if from_col <= nchars {
            from_col
        } else {
            nchars
        }
    } else {
        0
    };
    let end: usize = if line == to_line {
        if to_col <= nchars {
            to_col
        } else {
            nchars
        }
    } else {
        nchars
    };
    if start < end {
        Some((start, end))
    } else {
        None
    }
}

/// What a selection takes of one visual row: glyphs `[lo, hi)` of row `row`.
#[derive(Clone, Copy, Debug, PartialEq, Eq, Structural)]
pub struct RowSpan {
    pub row: usize,
    pub lo: usize,
    pub hi: usize,
}

/// What the columns `[start, end)` take of row `i`, if anything.
pub open spec fn row_span(chunk_char: int, rows: Seq<usize>, i: int, start: int, end: int) -> Option<
    (int, int),
> {
    let row_start = chunk_char + glyphs_before(rows, i);
    let row_end = row_start + rows[i];
    let lo = if start >= row_start {
        start
    } else {
        row_start
    };
    let hi = min_int(end, row_end);
    if lo < hi {
        Some((lo - row_start, hi - row_start))
    } else {
        None
    }
}

/// What the columns `[start, end)` take of the first `n` rows, row by row.
pub open spec fn row_spans(chunk_char: int, rows: Seq<usize>, n: int, start: int, end: int) -> Seq<
    RowSpan,
>
    decreases n,
{
    if n <= 0 {
        Seq::empty()
    } else {
        let front = row_spans(chunk_char, rows, n - 1, start, end);
        match row_span(chunk_char, rows, n - 1, start, end) {
            Some((lo, hi)) => front.push(
                RowSpan { row: (n - 1) as usize, lo: lo as usize, hi: hi as usize },
            ),
            None => front,
        }
    }
}

/// What the columns `[start, end)` take of each visual row of a line.
pub fn selection_rows(chunk_char: usize, rows: &Vec<usize>, start: usize, end: usize) -> (r: Vec<
    RowSpan,
>)
    requires
        chunk_char + glyphs_before(rows@, rows@.len() as int) <= usize::MAX,
    ensures
        r@ == row_spans(chunk_char as int, rows@, rows@.len() as int, start as int, end as int),
{
    let mut out: Vec<RowSpan> = Vec::new();
    let mut char_idx: usize = chunk_char;
    let mut i: usize = 0;
    while i < rows.len()
        invariant
            i <= rows@.len(),
            chunk_char + glyphs_before(rows@, rows@.len() as int) <= usize::MAX,
            char_idx == chunk_char + glyphs_before(rows@, i as int),
            out@ == row_spans(chunk_char as int, rows@, i as int, start as int, end as int),
        decreases rows@.len() - i,
    {
        proof {
            lemma_glyphs_grow(rows@, i + 1, rows@.len() as int);
        }
        let row_start: usize = char_idx;
        char_idx = char_idx + rows[i];
        let lo: usize = if start >= row_start {
            start
        } else {
            row_start
        };
        let hi: usize = if end <= char_idx {
            end
        } else {
            char_idx
        };
        if lo < hi {
            out.push(RowSpan { row: i, lo: lo - row_start, hi: hi - row_start });
        }
        i = i + 1;
    }
    out
}

/// The caret at character `cc` stands in row `i`, before glyph `col` of it.
pub open spec fn caret_at(chunk_char: int, rows: Seq<usize>, cc: int, i: int, col: int) -> bool {
    &&& 0 <= i < rows.len()
    &&& 0 <= col < rows[i]
    &&& cc == chunk_char + glyphs_before(rows, i) + col
}

/// `n` is the length of a line as it is read.
pub open spec fn is_read_length<F: Fn(u64) -> RawLine>(read_line: F, line: u64, n: usize) -> bool {
    exists|raw: RawLine| #[trigger] call_ensures(read_line, (line,), raw) && n == raw.text@.len()
}

/// Characters of a line: as the cache knows them where it holds the line, else
/// those of the line as it is read.
pub fn line_chars<F: Fn(u64) -> RawLine>(
    cache: &Vec<HugeLineCache>,
    line: u64,
    read_line: F,
) -> (r: usize)
    requires
        call_requires(read_line, (line,)),
    ensures
        forall|i: int| #[trigger]
            is_first_entry(cache@, line, i) ==> r == cache@[i].char_count,
        has_no_entry(cache@, line) ==> is_read_length(read_line, line, r),
{
    match position_of(cache, line) {
        Some(i) => {
            proof {
                assert forall|k: int| #[trigger] is_first_entry(cache@, line, k) implies k
                    == i by {
                    if k > i {
                        assert(cache@[i as int].line == line);
                    }
                }
            }
            cache[i].char_count
        },
        None => {
            let raw: RawLine = read_line(line);
            char_count(raw.text.as_str())
        },
    }
}

/// Whether the menu of the text offers to annotate; `None` where it is not
/// opened, because nothing is selected. A new file has no place to annotate.
pub fn context_menu(selection: Option<Span>, is_new_file: bool) -> (r: Option<bool>)
    ensures
        r == if selection is Some {
            Some(!is_new_file)
        } else {
            None
        },
{
    match selection {
        Some(_) => Some(!is_new_file),
        None => None,
    }
}

/// Row and column of the caret among the visual rows of a line, if it stands in
/// one of them. A column behind the line counts as its end.
pub fn caret_row(chunk_char: usize, rows: &Vec<usize>, cursor_col: usize, nchars: usize) -> (r:
    Option<(usize, usize)>)
    requires
        chunk_char + glyphs_before(rows@, rows@.len() as int) <= usize::MAX,
    ensures
        ({
            let cc = min_int(cursor_col as int, nchars as int);
            match r {
                Some(p) => caret_at(chunk_char as int, rows@, cc, p.0 as int, p.1 as int),
                None => forall|i: int, col: int| !caret_at(chunk_char as int, rows@, cc, i, col),
            }
        }),
{
    let cc: usize = if cursor_col <= nchars {
        cursor_col
    } else {
        nchars
    };
    let mut char_idx: usize = chunk_char;
    let mut i: usize = 0;
    while i < rows.len()
        invariant
            i <= rows@.len(),
            chunk_char + glyphs_before(rows@, rows@.len() as int) <= usize::MAX,
            char_idx == chunk_char + glyphs_before(rows@, i as int),
            cc == min_int(cursor_col as int, nchars as int),
            forall|k: int, col: int|
                0 <= k < i ==> !caret_at(chunk_char as int, rows@, cc as int, k, col),
        decreases rows@.len() - i,
    {
        proof {
            lemma_glyphs_grow(rows@, i + 1, rows@.len() as int);
        }
        let row_start: usize = char_idx;
        char_idx = char_idx + rows[i];
        if cc >= row_start && cc < char_idx {
            assert(caret_at(chunk_char as int, rows@, cc as int, i as int, cc - row_start));
            return Some((i, cc - row_start));
        }
        i = i + 1;
    }
    None
}

/// Whether a piece of a line carries the line's number and annotation bar: only
/// the piece with its first character does.
pub fn carries_gutter(shown: bool, chunk_char: usize) -> (r: bool)
    ensures
        r == (shown && chunk_char == 0),
{
    shown && chunk_char == 0
}

/// Line number as it stands in the gutter, counted from 1.
pub fn gutter_label(line: u64) -> (r: String)
    requires
        line < u64::MAX,
    ensures
        r@ == pad_left(decimal((line + 1) as nat), 6) + " │ "@,
{
    let number: String = decimal_string(line + 1);
    let mut out: String = align_right(number.as_str(), 6);
    out.append(" │ ");
    out
}

/// Why a range of lines is highlighted.
#[derive(Clone, Copy, Debug, PartialEq, Eq, Structural)]
pub enum HighlightKind {
    AgentFocus,
    AgentMatch,
    AgentWarning,
    Annotation,
}

/// Colour of a highlight bar.
pub open spec fn bar_color(kind: HighlightKind) -> Color {
    match kind {
        HighlightKind::AgentFocus => Color { r: 0xff, g: 0xa5, b: 0x00, a: 0xff },
        HighlightKind::AgentMatch => Color { r: 0x40, g: 0xa0, b: 0xff, a: 0xff },
        HighlightKind::AgentWarning => Color { r: 0xff, g: 0x60, b: 0x60, a: 0xff },
        HighlightKind::Annotation => Color { r: 0xe0, g: 0xac, b: 0x38, a: 0xff },
    }
}

/// A range of lines holds a line.
pub open spec fn bar_covers(bar: (u64, u64, HighlightKind), line: u64) -> bool {
    bar.0 <= line <= bar.1
}

/// `r` is the colour of the first bar that covers a line, none where no bar does.
pub open spec fn is_bar_of(
    bars: Seq<(u64, u64, HighlightKind)>,
    line: u64,
    r: Option<Color>,
) -> bool {
    match r {
        Some(c) => exists|i: int|
            {
                &&& 0 <= i < bars.len()
                &&& #[trigger] bar_covers(bars[i], line)
                &&& c == bar_color(bars[i].2)
                &&& forall|j: int| 0 <= j < i ==> !#[trigger] bar_covers(bars[j], line)
            },
        None => forall|j: int| 0 <= j < bars.len() ==> !#[trigger] bar_covers(bars[j], line),
    }
}

/// Colour of the bar of a line: that of the first range that holds it.
pub fn highlight_bar(bars: &Vec<(u64, u64, HighlightKind)>, line: u64) -> (r: Option<Color>)
    ensures
        is_bar_of(bars@, line, r),
{
    let mut i: usize = 0;
    while i < bars.len()
        invariant
            i <= bars@.len(),
            forall|j: int| 0 <= j < i ==> !#[trigger] bar_covers(bars@[j], line),
        decreases bars@.len() - i,
    {
        let (start, end, kind) = bars[i];
        if line >= start && line <= end {
            assert(bar_covers(bars@[i as int], line));
            return Some(
                match kind {
                    HighlightKind::AgentFocus => Color { r: 0xff, g: 0xa5, b: 0x00, a: 0xff },
                    HighlightKind::AgentMatch => Color { r: 0x40, g: 0xa0, b: 0xff, a: 0xff },
                    HighlightKind::AgentWarning => Color { r: 0xff, g: 0x60, b: 0x60, a: 0xff },
                    HighlightKind::Annotation => Color { r: 0xe0, g: 0xac, b: 0x38, a: 0xff },
                },
            );
        }
        i = i + 1;
    }
    None
}

// ---------------------------------------------------------------------------
// Laws
// ---------------------------------------------------------------------------

/// A press starts a selection of its own: nothing of the one before is kept.
pub proof fn law_press_starts_afresh(
    a: PointerState,
    b: PointerState,
    frame: PointerFrame,
    line: u64,
    col: usize,
)
    requires
        a.is_press(frame),
        b.is_press(frame),
        frame.hovered,
        frame.at == Some((line, col)),
    ensures
        a.selection_after(frame) == Some((line, col, line, col)),
        a.selection_after(frame) == b.selection_after(frame),
{
}

/// Letting the button go keeps the selection.
pub proof fn law_release_keeps_selection(state: PointerState, frame: PointerFrame)
    requires
        !frame.down,
    ensures
        state.selection_after(frame) == state.selection,
        !state.is_selecting(frame),
{
}

/// Which end of a selection was set first does not matter for what is shown.
pub proof fn law_direction_does_not_matter(sel: Span, line: u64, nchars: int)
    ensures
        columns_in((sel.2, sel.3, sel.0, sel.1), line, nchars) == columns_in(sel, line, nchars),
{
}

/// The caret stands in at most one place.
pub proof fn law_one_caret(
    chunk_char: int,
    rows: Seq<usize>,
    cc: int,
    i: int,
    a: int,
    j: int,
    b: int,
)
    requires
        caret_at(chunk_char, rows, cc, i, a),
        caret_at(chunk_char, rows, cc, j, b),
    ensures
        i == j && a == b,
{
    if i < j {
        lemma_glyphs_grow(rows, i + 1, j);
    } else if j < i {
        lemma_glyphs_grow(rows, j + 1, i);
    }
}

/// A wheel scrolls the text only while no dialog is open, and sideways only where lines
/// are not wrapped.
pub proof fn law_dialogs_hold_the_wheel(d: &Dialogs, word_wrap: bool, open: bool, axes: (bool, bool))
    requires
        call_ensures(Dialogs::any_open, (d,), open),
        call_ensures(Dialogs::wheel_axes, (d, word_wrap), axes),
    ensures
        axes.0 == !open,
        axes.1 == (!open && !word_wrap),
        d.about || d.donate || d.help || d.shortcuts || d.settings ==> open,
        d.file_properties || d.index_manager || d.encoding_confirm ==> open,
        d.annotation_dialog || d.annotation_list ==> open,
        open ==> d.about || d.donate || d.help || d.shortcuts || d.settings || d.file_properties
            || d.index_manager || d.encoding_confirm || d.annotation_dialog || d.annotation_list,
{
}

/// The lines in view are those from the top to the bottom that exist, at least one.
pub proof fn law_visible_lines_exist(top: usize, bottom: usize, n: usize, r: (usize, usize), k: int)
    requires
        call_ensures(visible_lines, (top, bottom, n), r),
        bottom < usize::MAX,
        n > 0,
        top <= bottom,
    ensures
        r.0 < r.1 <= n,
        top < n ==> (r.0 <= k < r.1) == (top <= k <= bottom && k < n),
        top >= n ==> r.0 == n - 1 && r.1 == n,
{
}

/// Lines are gone through one by one, each with its rows, until the bottom of the view or
/// the end of the file.
pub proof fn law_lines_are_walked(w: &mut LineWalk, rows: u64, done: (), at_end: bool, bottom: u64, n: u64)
    requires
        call_ensures(LineWalk::step, (w, rows), done),
        call_ensures(LineWalk::is_done, (&*final(w), bottom, n), at_end),
    ensures
        final(w).line - old(w).line == 1,
        final(w).vrow - old(w).vrow == rows,
        at_end == !(final(w).vrow < bottom && final(w).line < n),
{
}

/// A line that is too long is laid out row by row, from the cache where it is there.
pub proof fn law_long_lines_are_laid_out_in_rows(
    listed: bool,
    cached: bool,
    len: usize,
    limit: usize,
    r: LineMode,
)
    requires
        call_ensures(line_mode, (listed, cached, len, limit), r),
    ensures
        listed && cached ==> r == LineMode::CachedRows,
        !(listed && cached) ==> (r == LineMode::TextRows) == (len > limit),
        !(listed && cached) ==> (r == LineMode::Whole) == (len <= limit),
{
}

/// The head of a text is its start, up to 200 characters.
pub proof fn law_heads_are_starts(text: &str, r: String)
    requires
        call_ensures(head_of, (text,), r),
    ensures
        r@.len() <= 200,
        r@.len() == 200 || r@.len() == text@.len(),
        r@.len() <= text@.len(),
        r@ == text@.take(r@.len() as int),
{
    if text@.len() <= 200 {
        assert(text@.take(text@.len() as int) =~= text@);
    }
}

/// A line has the colour of its level where colouring is on, and is dimmed where a filter
/// does not let it pass.
pub proof fn law_lines_are_styled(
    text: &str,
    coloring: bool,
    f: FilterSpec,
    theme: &LevelColors,
    primary: Color,
    level: Option<Color>,
    pass: bool,
    filtered: (Color, bool),
    free: (Color, bool),
)
    requires
        call_ensures(level_color, (text, theme), level),
        call_ensures(filter_matches_line, (&f, text), pass),
        call_ensures(line_style, (text, coloring, &Some(f), theme, primary), filtered),
        call_ensures(line_style, (text, coloring, &None, theme, primary), free),
    ensures
        coloring && level is Some ==> free.0 == level->0,
        !coloring || level is None ==> free.0 == primary,
        filtered.0 == free.0,
        filtered.1 == !pass,
        !free.1,
{
}

/// A query is one over several lines where it holds a line break.
pub proof fn law_line_breaks_make_long_queries(query: &[u8], r: bool)
    requires
        call_ensures(is_multiline, (query,), r),
    ensures
        r == exists|i: int| 0 <= i < query@.len() && #[trigger] query@[i] == '\n' as u32,
{
}

/// The part of the file that is searched for matches in view starts early enough for one
/// that reaches into the view, and goes to the end of the view.
pub proof fn law_matches_into_the_view_are_found(
    first: u64,
    end: u64,
    len: u64,
    r: (u64, u64),
    m: int,
)
    requires
        call_ensures(match_window, (first, end, len), r),
        first <= end,
        len >= 1,
    ensures
        r.0 <= first,
        r.0 + r.1 == end,
        0 <= m && m < end && m + len > first && m + len <= end ==> r.0 <= m,
{
}

/// A query is parsed when it has changed, and forgotten when it is empty.
pub proof fn law_queries_are_parsed_when_they_change(query: &String, parsed: &String, r: QueryUpdate)
    requires
        call_ensures(query_update, (query, parsed), r),
    ensures
        (r == QueryUpdate::Keep) == (query@ == parsed@),
        query@ != parsed@ ==> (r == QueryUpdate::Clear) == (query@.len() == 0),
        query@ != parsed@ ==> (r == QueryUpdate::Parse) == (query@.len() > 0),
{
}

/// What is pressed and dragged over is selected, from the place of the press to that of
/// the drag, and letting go keeps it.
pub proof fn law_dragging_selects(
    a: &mut PointerState,
    b: &mut PointerState,
    c: &mut PointerState,
    press: &PointerFrame,
    drag: &PointerFrame,
    up: &PointerFrame,
    from: (u64, usize),
    to: (u64, usize),
    r1: bool,
    r2: bool,
    r3: bool,
)
    requires
        !old(a).was_down,
        press.down && press.hovered && press.at == Some(from),
        drag.down && drag.at == Some(to),
        !up.down,
        call_ensures(PointerState::update, (a, press), r1),
        *old(b) == *final(a),
        call_ensures(PointerState::update, (b, drag), r2),
        *old(c) == *final(b),
        call_ensures(PointerState::update, (c, up), r3),
    ensures
        final(a).selection == Some((from.0, from.1, from.0, from.1)),
        final(b).selection == Some((from.0, from.1, to.0, to.1)),
        final(c).selection == final(b).selection,
        final(a).selecting && final(b).selecting && !final(c).selecting,
        r1 == press.edit_mode,
        press.edit_mode ==> final(a).edit_cursor == Some(from),
        !r2 && !r3,
{
}

/// A press beside the text selects nothing.
pub proof fn law_presses_beside_the_text_select_nothing(
    a: &mut PointerState,
    press: &PointerFrame,
    r: bool,
)
    requires
        !old(a).was_down && !old(a).selecting,
        press.down && !press.hovered,
        call_ensures(PointerState::update, (a, press), r),
    ensures
        final(a).selection == old(a).selection,
        !final(a).selecting,
        final(a).edit_cursor == old(a).edit_cursor,
{
}

/// The column of a place in a row is that of its line: the characters of the rows above
/// it count.
pub proof fn law_columns_count_the_rows_above(
    chunk: usize,
    rows: &Vec<usize>,
    row: usize,
    col: usize,
    here: usize,
    next: usize,
    first: usize,
)
    requires
        row + 1 <= rows@.len(),
        call_ensures(column_of, (chunk, rows, row, col), here),
        call_ensures(column_of, (chunk, rows, (row + 1) as usize, col), next),
        call_ensures(column_of, (chunk, rows, 0usize, col), first),
    ensures
        first == chunk + col,
        next == here + rows@[row as int],
{
    assert(rows@.len() == rows.len());
}

/// A character of a line is selected where it stands behind the earlier end and in front
/// of the later.
pub proof fn law_selected_characters_lie_between_the_ends(
    sel: Span,
    line: u64,
    nchars: usize,
    r: Option<(usize, usize)>,
    k: int,
)
    requires
        call_ensures(selection_columns, (sel, line, nchars), r),
        sel.0 < sel.2 || (sel.0 == sel.2 && sel.1 <= sel.3),
        0 <= k < nchars,
    ensures
        (match r {
            Some(c) => c.0 <= k < c.1,
            None => false,
        }) == ({
            &&& sel.0 < line || (sel.0 == line && sel.1 <= k)
            &&& line < sel.2 || (line == sel.2 && k < sel.3)
        }),
{
}

/// The caret is shown at its place: the column of the place where it is shown is its own.
pub proof fn law_the_caret_is_where_it_stands(
    chunk: usize,
    rows: &Vec<usize>,
    cursor: usize,
    nchars: usize,
    place: (usize, usize),
    col: usize,
)
    requires
        call_ensures(caret_row, (chunk, rows, cursor, nchars), Some(place)),
        cursor <= nchars,
        call_ensures(column_of, (chunk, rows, place.0, place.1), col),
    ensures
        col == cursor,
        place.0 < rows@.len(),
        place.1 < rows@[place.0 as int],
{
}

/// The selection of a line is painted in its rows: a character of a row is painted as
/// selected where its column lies between the ends of the selection.
pub proof fn law_rows_show_the_selection(
    chunk: usize,
    rows: &Vec<usize>,
    start: usize,
    end: usize,
    r: Vec<RowSpan>,
    row: int,
    col: int,
    at: usize,
)
    requires
        call_ensures(selection_rows, (chunk, rows, start, end), r),
        chunk + glyphs_before(rows@, rows@.len() as int) <= usize::MAX,
        0 <= row < rows@.len(),
        0 <= col < rows@[row],
        call_ensures(column_of, (chunk, rows, row as usize, col as usize), at),
        rows@.len() <= usize::MAX,
    ensures
        (start <= at < end) == exists|i: int|
            0 <= i < r@.len() && (#[trigger] r@[i]).row == row && r@[i].lo <= col < r@[i].hi,
{
    lemma_row_spans(
        chunk as int,
        rows@,
        rows@.len() as int,
        start as int,
        end as int,
        row,
        col,
    );
}

proof fn lemma_row_spans(
    chunk: int,
    rows: Seq<usize>,
    n: int,
    start: int,
    end: int,
    row: int,
    col: int,
)
    requires
        0 <= chunk,
        0 <= n <= rows.len() <= usize::MAX,
        0 <= row < rows.len(),
        0 <= col < rows[row],
        0 <= start,
        0 <= end,
        chunk + glyphs_before(rows, rows.len() as int) <= usize::MAX,
    ensures
        ({
            let r = row_spans(chunk, rows, n, start, end);
            let at = chunk + glyphs_before(rows, row) + col;
            (row < n && start <= at < end) == exists|i: int|
                0 <= i < r.len() && (#[trigger] r[i]).row == row && r[i].lo <= col < r[i].hi
        }),
        forall|i: int|
            0 <= i < row_spans(chunk, rows, n, start, end).len() ==> (#[trigger] row_spans(
                chunk,
                rows,
                n,
                start,
                end,
            )[i]).row < n,
    decreases n,
{
    if n > 0 {
        lemma_row_spans(chunk, rows, n - 1, start, end, row, col);
        lemma_glyphs_grow(rows, n, rows.len() as int);
        let front = row_spans(chunk, rows, n - 1, start, end);
        let r = row_spans(chunk, rows, n, start, end);
        let at = chunk + glyphs_before(rows, row) + col;
        if exists|i: int| 0 <= i < front.len() && (#[trigger] front[i]).row == row && front[i].lo
            <= col < front[i].hi {
            let i = choose|i: int|
                0 <= i < front.len() && (#[trigger] front[i]).row == row && front[i].lo <= col
                    < front[i].hi;
            assert(r[i] == front[i]);
        }
        if row == n - 1 && start <= at < end {
            assert(r[r.len() - 1].row == row && r[r.len() - 1].lo <= col < r[r.len() - 1].hi);
        }
        if exists|i: int| 0 <= i < r.len() && (#[trigger] r[i]).row == row && r[i].lo <= col
            < r[i].hi {
            let i = choose|i: int|
                0 <= i < r.len() && (#[trigger] r[i]).row == row && r[i].lo <= col < r[i].hi;
            if i < front.len() {
                assert(front[i] == r[i]);
            }
        }
    }
}

/// The menu opens where something is selected, and offers an annotation unless the file
/// is a new one.
pub proof fn law_the_menu_needs_a_selection(
    sel: Span,
    is_new: bool,
    r: Option<bool>,
    none: Option<bool>,
)
    requires
        call_ensures(context_menu, (Some(sel), is_new), r),
        call_ensures(context_menu, (None, is_new), none),
    ensures
        r == Some(!is_new),
        none is None,
{
}

/// Line numbers count from 1 and stand at the right of their six places.
pub proof fn law_line_numbers_count_from_one(
    line: u64,
    r: String,
    digits: String,
    shown: bool,
    first: bool,
    later: bool,
    chunk: usize,
)
    requires
        line < u64::MAX,
        call_ensures(gutter_label, (line,), r),
        call_ensures(crate::decimal::decimal_string, ((line + 1) as u64,), digits),
        call_ensures(carries_gutter, (shown, 0usize), first),
        chunk > 0,
        call_ensures(carries_gutter, (shown, chunk), later),
    ensures
        r@.len() >= digits@.len() + 3,
        r@.subrange(r@.len() - 3 - digits@.len(), r@.len() - 3) == digits@,
        digits@.len() <= 6 ==> r@.len() == 9,
        first == shown,
        !later,
{
    reveal_strlit(" │ ");
    assert(r@.subrange(r@.len() - 3 - digits@.len(), r@.len() - 3) =~= digits@);
}

/// The first bar that covers a line gives it its colour; a line outside of all has none.
pub proof fn law_bars_cover_their_lines(
    bars: &Vec<(u64, u64, HighlightKind)>,
    line: u64,
    r: Option<Color>,
    i: int,
)
    requires
        call_ensures(highlight_bar, (bars, line), r),
        0 <= i < bars@.len(),
        bars@[i].0 <= line <= bars@[i].1,
        forall|j: int| 0 <= j < i ==> !((#[trigger] bars@[j]).0 <= line <= bars@[j].1),
    ensures
        r is Some,
        bars@[i].2 == HighlightKind::AgentFocus ==> r->0 == (Color { r: 0xff, g: 0xa5, b: 0, a: 0xff }),
        bars@[i].2 == HighlightKind::AgentMatch ==> r->0 == (Color {
            r: 0x40,
            g: 0xa0,
            b: 0xff,
            a: 0xff,
        }),
        bars@[i].2 == HighlightKind::AgentWarning ==> r->0 == (Color {
            r: 0xff,
            g: 0x60,
            b: 0x60,
            a: 0xff,
        }),
        bars@[i].2 == HighlightKind::Annotation ==> r->0 == (Color {
            r: 0xe0,
            g: 0xac,
            b: 0x38,
            a: 0xff,
        }),
{
    assert(bar_covers(bars@[i], line));
    let k = choose|k: int|
        {
            &&& 0 <= k < bars@.len()
            &&& #[trigger] bar_covers(bars@[k], line)
            &&& r->0 == bar_color(bars@[k].2)
            &&& forall|j: int| 0 <= j < k ==> !#[trigger] bar_covers(bars@[j], line)
        };
    if k < i {
        assert(!(bars@[k].0 <= line <= bars@[k].1));
    } else if i < k {
        assert(!bar_covers(bars@[i], line));
    }
}

/// A line outside of all bars has none.
pub proof fn law_other_lines_have_no_bar(
    bars: &Vec<(u64, u64, HighlightKind)>,
    line: u64,
    r: Option<Color>,
)
    requires
        call_ensures(highlight_bar, (bars, line), r),
        forall|j: int| 0 <= j < bars@.len() ==> !((#[trigger] bars@[j]).0 <= line <= bars@[j].1),
    ensures
        r is None,
{
    if r is Some {
        let k = choose|k: int|
            {
                &&& 0 <= k < bars@.len()
                &&& #[trigger] bar_covers(bars@[k], line)
                &&& r->0 == bar_color(bars@[k].2)
                &&& forall|j: int| 0 <= j < k ==> !#[trigger] bar_covers(bars@[j], line)
            };
        assert(!(bars@[k].0 <= line <= bars@[k].1));
    }
}

/// The list of long lines is made anew where the file or what is searched has changed, and
/// only there; while nothing can be found it is empty and looked up again.
pub proof fn law_long_lines_are_looked_up_anew<F: Fn() -> Option<Vec<(u64, u64)>>>(
    a: &mut HugeLines,
    key: (u64, u64),
    scan: F,
    found: Option<Vec<(u64, u64)>>,
    r: bool,
)
    requires
        call_ensures(HugeLines::refresh::<F>, (a, key, scan), r),
        forall|f: Option<Vec<(u64, u64)>>| #[trigger] call_ensures(scan, (), f) ==> f == found,
    ensures
        old(a).built_for == Some(key) ==> !r && *final(a) == *old(a),
        old(a).built_for != Some(key) ==> r,
        r && found is Some ==> final(a).lines == found->0 && final(a).built_for == Some(key),
        r && found is None ==> final(a).lines@.len() == 0 && final(a).built_for != Some(key),
{
}

/// Every line of a small file is measured, and of a large one the longest unless it is very
/// long; nothing is measured before the file is indexed, while lines wrap, or twice.
pub proof fn law_widths_are_measured_once(
    complete: bool,
    wrap: bool,
    done: bool,
    total: u64,
    longest: u64,
    max_bytes: u64,
    chunk: u64,
    r: WidthScan,
    slack: u64,
)
    requires
        call_ensures(width_scan, (complete, wrap, done, total, longest, max_bytes, chunk), r),
        call_ensures(visible_slack, (wrap,), slack),
        chunk < u64::MAX,
    ensures
        !complete || wrap || done ==> r is Later,
        complete && !wrap && !done && total <= 20_000 ==> r is EveryLine,
        complete && !wrap && !done && total > 20_000 && longest < total && 0 < max_bytes
            && max_bytes <= chunk + 1 ==> r == WidthScan::Line(longest),
        complete && !wrap && !done && total > 20_000 && max_bytes > chunk + 1 ==> r is Nothing,
        wrap ==> slack == 12,
        !wrap ==> slack == 2,
{
}

/// The characters of a line are those that the cache counted where it keeps the line, and
/// otherwise those of the line as it is read.
pub proof fn law_lines_have_their_characters<F: Fn(u64) -> RawLine>(
    cache: &Vec<HugeLineCache>,
    line: u64,
    read_line: F,
    lines: spec_fn(u64) -> RawLine,
    r: usize,
    at: Option<usize>,
)
    requires
        call_ensures(line_chars::<F>, (cache, line, read_line), r),
        call_ensures(position_of, (cache, line), at),
        forall|l: u64, raw: RawLine| #[trigger] call_ensures(read_line, (l,), raw) ==> raw == lines(l),
    ensures
        at is Some ==> r == cache@[at->0 as int].char_count,
        at is None ==> r == lines(line).text@.len(),
{
}

} // verus!
