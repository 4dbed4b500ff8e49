//! State of the application: lines, searching, status and what is copied.

use vstd::prelude::*;
use vstd::utf8::{encode_utf8, is_char_boundary};

use crate::decimal::{decimal, human_text, push_decimal};
use crate::numbers::{parse_percent, percent_of, Number};
use crate::levels::{level_of, level_of_line, uppercase};
use crate::macos::bridge::DisplayLine;
use crate::macos::selection::Selection;
use crate::macos::theme::{Rgba, ThemeColors};
use crate::macos::util::{human_bytes, TOP_UNIT};
use crate::palettes::{theme_name, theme_name_text, THEMES};
use crate::sorting::{ascending, sorted_unique};
use crate::text::{char_count, same_text};

pub use crate::levels::Level;

verus! {

broadcast use vstd::string::group_string_axioms;

/// Columns between tab stops.
pub const INDENT_TAB: usize = 4;

// ---------------------------------------------------------------------------
// Levels
// ---------------------------------------------------------------------------

/// Level of a line, whatever the case of its words.
pub fn detect_level(text: &str) -> (r: Option<Level>)
    ensures
        r == level_of(encode_utf8(uppercase(text@))),
{
    level_of_line(text)
}

/// Colour of a level.
pub open spec fn color_of_level(lv: Level, theme: ThemeColors) -> Rgba {
    match lv {
        Level::Error => theme.level_error,
        Level::Warn => theme.level_warn,
        Level::Info => theme.level_info,
        Level::Debug => theme.level_debug,
        Level::Trace => theme.level_trace,
    }
}

/// Colour of a level.
pub fn level_color(lv: Level, theme: &ThemeColors) -> (r: Rgba)
    ensures
        r == color_of_level(lv, *theme),
{
    match lv {
        Level::Error => theme.level_error,
        Level::Warn => theme.level_warn,
        Level::Info => theme.level_info,
        Level::Debug => theme.level_debug,
        Level::Trace => theme.level_trace,
    }
}

/// Colour of the text of a line whose level is known.
pub fn row_color(level: Option<Level>, coloring: bool, theme: &ThemeColors) -> (r: Rgba)
    ensures
        r == if coloring && level is Some {
            color_of_level(level->0, *theme)
        } else {
            theme.text_primary
        },
{
    if coloring {
        match level {
            Some(lv) => level_color(lv, theme),
            None => theme.text_primary,
        }
    } else {
        theme.text_primary
    }
}

// ---------------------------------------------------------------------------
// Lines
// ---------------------------------------------------------------------------

/// Line to go to: the one asked for, the last where there is none such, none in
/// an empty file.
pub open spec fn reachable(line: int, total: int) -> Option<int> {
    if total == 0 {
        None
    } else if line < total {
        Some(line)
    } else {
        Some(total - 1)
    }
}

/// Line to go to.
pub fn goto_line(line: u64, total: u64) -> (r: Option<u64>)
    ensures
        match r {
            Some(n) => reachable(line as int, total as int) == Some(n as int),
            None => reachable(line as int, total as int) is None,
        },
{
    if total == 0 {
        None
    } else if line < total {
        Some(line)
    } else {
        Some(total - 1)
    }
}

/// Line at the end.
pub fn goto_end(total: u64) -> (r: Option<u64>)
    ensures
        match r {
            Some(n) => n == total - 1,
            None => total == 0,
        },
{
    goto_line(total, total)
}

/// Line a page up, of `step` lines, at least one.
pub fn page_up(current: u64, step: u64, total: u64) -> (r: Option<u64>)
    ensures
        ({
            let by = if step >= 1 {
                step as int
            } else {
                1
            };
            let to = if current >= by {
                current - by
            } else {
                0
            };
            match r {
                Some(n) => reachable(to, total as int) == Some(n as int),
                None => total == 0,
            }
        }),
{
    let by: u64 = if step >= 1 {
        step
    } else {
        1
    };
    let to: u64 = if current >= by {
        current - by
    } else {
        0
    };
    goto_line(to, total)
}

/// Line a page down, of `step` lines, at least one.
pub fn page_down(current: u64, step: u64, total: u64) -> (r: Option<u64>)
    ensures
        ({
            let by = if step >= 1 {
                step as int
            } else {
                1
            };
            match r {
                Some(n) => reachable(current + by, total as int) == Some(n as int),
                None => total == 0,
            }
        }),
{
    let by: u64 = if step >= 1 {
        step
    } else {
        1
    };
    let to: u64 = current.saturating_add(by);
    goto_line(to, total)
}

/// Lines to paint: from the first that is seen to the end of those that are
/// estimated to be seen, and some more.
pub fn visible_range(first: u64, estimated: u64, word_wrap: bool, total: u64) -> (r: (u64, u64))
    requires
        first + estimated + 8 <= u64::MAX,
    ensures
        r.0 == first,
        r.1 == {
            let end = first + estimated + (if word_wrap {
                8int
            } else {
                2int
            });
            if end <= total {
                end
            } else {
                total as int
            }
        },
{
    let buffer: u64 = if word_wrap {
        8
    } else {
        2
    };
    let end: u64 = first + estimated + buffer;
    (
        first,
        if end <= total {
            end
        } else {
            total
        },
    )
}

/// What lies behind a line beside its own background.
#[derive(Clone, Copy, PartialEq, Eq, Structural, Debug)]
pub enum RowFill {
    Current,
    Hover,
    Nothing,
}

/// What lies behind a line: the current line comes before that under the
/// pointer.
pub fn row_fill(row: u64, current_line: u64, hover_line: Option<u64>) -> (r: RowFill)
    ensures
        r == if row == current_line {
            RowFill::Current
        } else if hover_line == Some(row) {
            RowFill::Hover
        } else {
            RowFill::Nothing
        },
{
    if row == current_line {
        return RowFill::Current;
    }
    match hover_line {
        Some(h) => if h == row {
            RowFill::Hover
        } else {
            RowFill::Nothing
        },
        None => RowFill::Nothing,
    }
}

/// Whether a line has the second of two backgrounds.
pub fn is_alternate(row: u64) -> (r: bool)
    ensures
        r == (row % 2 == 1),
{
    row % 2 == 1
}

/// Matches of a line: those that are marked, and those that are marked as gone
/// to.
pub fn split_matches(display: &DisplayLine) -> (r: (Vec<(usize, usize)>, Vec<(usize, usize)>))
    ensures
        display.is_current ==> r.0@.len() == 0 && r.1@ == display.matches@,
        !display.is_current ==> r.0@ == display.matches@ && r.1@.len() == 0,
{
    let mut all: Vec<(usize, usize)> = Vec::new();
    let mut i: usize = 0;
    while i < display.matches.len()
        invariant
            i <= display.matches@.len(),
            all@ == display.matches@.take(i as int),
        decreases display.matches@.len() - i,
    {
        all.push(display.matches[i]);
        i = i + 1;
        assert(all@ =~= display.matches@.take(i as int));
    }
    assert(display.matches@.take(display.matches@.len() as int) =~= display.matches@);
    if display.is_current {
        (Vec::new(), all)
    } else {
        (all, Vec::new())
    }
}

/// Lines that hold a match, in order, each once. `lines` are the lines of the
/// matches.
pub fn update_hit_lines(lines: &Vec<u64>) -> (r: Vec<u64>)
    ensures
        ascending(r@),
        r@.to_set() == lines@.to_set(),
{
    sorted_unique(lines)
}

/// Whether a line holds a match.
pub fn is_hit_line(hit_lines: &Vec<u64>, row: u64) -> (r: bool)
    requires
        ascending(hit_lines@),
    ensures
        r == hit_lines@.contains(row),
{
    let mut lo: usize = 0;
    let mut hi: usize = hit_lines.len();
    while lo < hi
        invariant
            lo <= hi <= hit_lines@.len(),
            ascending(hit_lines@),
            forall|k: int| 0 <= k < lo ==> hit_lines@[k] < row,
            forall|k: int| hi <= k < hit_lines@.len() ==> hit_lines@[k] > row,
        decreases hi - lo,
    {
        let mid: usize = lo + (hi - lo) / 2;
        if hit_lines[mid] == row {
            return true;
        } else if hit_lines[mid] < row {
            lo = mid + 1;
        } else {
            hi = mid;
        }
    }
    assert forall|k: int| 0 <= k < hit_lines@.len() implies hit_lines@[k] != row by {
        if k < lo {
            assert(hit_lines@[k] < row);
        } else {
            assert(hit_lines@[k] > row);
        }
    }
    false
}

// ---------------------------------------------------------------------------
// Indentation
// ---------------------------------------------------------------------------

/// Column behind the blanks and tabs that a text begins with, where they begin
/// at a column. A tab goes on to the next tab stop.
pub open spec fn cols_from(text: Seq<char>, col: int) -> int
    decreases text.len(),
{
    if text.len() == 0 {
        col
    } else if text[0] == ' ' {
        cols_from(text.skip(1), col + 1)
    } else if text[0] == '\t' {
        cols_from(text.skip(1), (col / (INDENT_TAB as int) + 1) * INDENT_TAB)
    } else {
        col
    }
}

/// Columns that a line is indented by.
pub fn count_leading_whitespace_cols(text: &str) -> (r: usize)
    requires
        INDENT_TAB * text@.len() <= usize::MAX,
    ensures
        r == cols_from(text@, 0),
{
    let mut col: usize = 0;
    assert(text@.skip(0) =~= text@);
    for c in it: text.chars()
        invariant
            it.seq() == text@,
            INDENT_TAB * text@.len() <= usize::MAX,
            col <= INDENT_TAB * it.index(),
            cols_from(text@, 0) == cols_from(text@.skip(it.index() as int), col as int),
    {
        let ghost k = it.index() as int;
        assert(text@.skip(k)[0] == c);
        assert(text@.skip(k).skip(1) =~= text@.skip(k + 1));
        if c == ' ' {
            col = col + 1;
        } else if c == '\t' {
            col = (col / INDENT_TAB + 1) * INDENT_TAB;
        } else {
            return col;
        }
    }
    assert(text@.skip(text@.len() as int) =~= Seq::<char>::empty());
    col
}

/// Tab stops at which guides stand, for an indentation.
pub fn indent_stops(cols: usize) -> (r: Vec<usize>)
    ensures
        r@.len() == cols / INDENT_TAB,
        forall|i: int| 0 <= i < r@.len() ==> #[trigger] r@[i] == (i + 1) * INDENT_TAB,
{
    let mut out: Vec<usize> = Vec::new();
    let n: usize = cols / INDENT_TAB;
    let mut i: usize = 0;
    while i < n
        invariant
            i <= n,
            n == cols / INDENT_TAB,
            out@.len() == i,
            forall|k: int| 0 <= k < i ==> #[trigger] out@[k] == (k + 1) * INDENT_TAB,
        decreases n - i,
    {
        out.push((i + 1) * INDENT_TAB);
        i = i + 1;
    }
    out
}

// ---------------------------------------------------------------------------
// Words
// ---------------------------------------------------------------------------

/// The byte is white space of ASCII.
pub open spec fn is_blank(b: u8) -> bool {
    b == 9 || b == 10 || b == 12 || b == 13 || b == 32
}

fn blank(b: u8) -> (r: bool)
    ensures
        r == is_blank(b),
{
    b == 9 || b == 10 || b == 12 || b == 13 || b == 32
}

/// `[s, e)` is a word: bytes without white space that cannot be made longer.
pub open spec fn is_word(bytes: Seq<u8>, s: int, e: int) -> bool {
    &&& 0 <= s < e <= bytes.len()
    &&& forall|k: int| s <= k < e ==> !is_blank(#[trigger] bytes[k])
    &&& s > 0 ==> is_blank(bytes[s - 1])
    &&& e < bytes.len() ==> is_blank(bytes[e])
}

/// `p` is the start of the character that holds a byte.
pub open spec fn is_char_start(bytes: Seq<u8>, byte: int, p: int) -> bool {
    &&& 0 <= p <= byte
    &&& is_char_boundary(bytes, p)
    &&& forall|k: int| p < k <= byte ==> !#[trigger] is_char_boundary(bytes, k)
}

/// `p` is the first byte from `from` on that is no white space.
pub open spec fn is_next_text(bytes: Seq<u8>, from: int, p: int) -> bool {
    &&& from <= p < bytes.len()
    &&& !is_blank(bytes[p])
    &&& forall|k: int| from <= k < p ==> is_blank(#[trigger] bytes[k])
}

/// Byte at which the search for a word begins.
pub open spec fn clamped(byte: usize, len: nat) -> int {
    if byte <= len {
        byte as int
    } else {
        len as int
    }
}

/// `r` is the word at a place: the one that holds the first text from the character
/// there on, none where only white space follows.
pub open spec fn is_word_at(bytes: Seq<u8>, place: int, r: Option<(usize, usize)>) -> bool {
    forall|from: int| #[trigger]
        is_char_start(bytes, place, from) ==> {
            match r {
                Some((s, e)) => {
                    &&& is_word(bytes, s as int, e as int)
                    &&& exists|p: int| #[trigger] is_next_text(bytes, from, p) && s <= p < e
                },
                None => forall|k: int|
                    from <= k < bytes.len() ==> is_blank(#[trigger] bytes[k]),
            }
        }
}

/// The word at a byte of a line: that which holds the character there, or the
/// next one where it is white space.
pub fn word_at(text: &str, byte: usize) -> (r: Option<(usize, usize)>)
    ensures
        is_word_at(encode_utf8(text@), clamped(byte, encode_utf8(text@).len()), r),
{
    let bytes: &[u8] = text.as_bytes();
    let len: usize = bytes.len();
    let ghost all = bytes@;
    let mut pos: usize = if byte <= len {
        byte
    } else {
        len
    };
    let ghost top = pos as int;
    while pos > 0 && !text.is_char_boundary(pos)
        invariant
            pos <= top,
            all == encode_utf8(text@),
            forall|k: int| pos < k <= top ==> !#[trigger] is_char_boundary(all, k),
        decreases pos,
    {
        pos = pos - 1;
    }
    let ghost from = pos as int;
    proof {
        vstd::utf8::encode_utf8_valid_utf8(text@);
        assert(is_char_boundary(all, from));
        assert(is_char_start(all, top, from));
        assert forall|p: int| #[trigger] is_char_start(all, top, p) implies p == from by {
            if p < from {
                assert(!is_char_boundary(all, from));
            } else if p > from {
                assert(!is_char_boundary(all, p));
            }
        }
    }
    while pos < len && blank(bytes[pos])
        invariant
            from <= pos <= len,
            len == bytes@.len(),
            all == bytes@,
            forall|k: int| from <= k < pos ==> is_blank(#[trigger] all[k]),
        decreases len - pos,
    {
        pos = pos + 1;
    }
    if pos >= len {
        return None;
    }
    assert(is_next_text(all, from, pos as int));
    let mut start: usize = pos;
    while start > 0 && !blank(bytes[start - 1])
        invariant
            start <= pos < len,
            len == bytes@.len(),
            all == bytes@,
            forall|k: int| start <= k <= pos ==> !is_blank(#[trigger] all[k]),
        decreases start,
    {
        start = start - 1;
    }
    let mut end: usize = pos;
    while end < len && !blank(bytes[end])
        invariant
            pos <= end <= len,
            len == bytes@.len(),
            all == bytes@,
            !is_blank(all[pos as int]),
            forall|k: int| pos <= k < end ==> !is_blank(#[trigger] all[k]),
        decreases len - end,
    {
        end = end + 1;
    }
    assert(is_word(all, start as int, end as int));
    Some((start, end))
}

// ---------------------------------------------------------------------------
// Themes
// ---------------------------------------------------------------------------

/// A theme bears a name.
pub open spec fn is_named(name: Seq<char>, i: int) -> bool {
    &&& 0 <= i < THEMES
    &&& theme_name_text(i) == name
    &&& forall|k: int| 0 <= k < i ==> #[trigger] theme_name_text(k) != name
}

/// Name of the theme behind another, the first behind the last; the second
/// behind one that is not known.
pub fn cycle_theme(current: &str) -> (r: &'static str)
    ensures
        forall|i: int| #[trigger]
            is_named(current@, i) ==> r@ == theme_name_text(
                if i + 1 < THEMES {
                    i + 1
                } else {
                    0
                },
            ),
        (forall|i: int| 0 <= i < THEMES ==> #[trigger] theme_name_text(i) != current@) ==> r@
            == theme_name_text(1),
{
    let mut i: usize = 0;
    while i < THEMES
        invariant
            i <= THEMES,
            forall|k: int| 0 <= k < i ==> #[trigger] theme_name_text(k) != current@,
        decreases THEMES - i,
    {
        if same_text(theme_name(i), current) {
            proof {
                assert(theme_name_text(i as int) == current@);
                assert forall|k: int| #[trigger] is_named(current@, k) implies k == i by {
                    if k > i {
                        assert(theme_name_text(i as int) != current@);
                    }
                }
            }
            return theme_name(
                if i + 1 < THEMES {
                    i + 1
                } else {
                    0
                },
            );
        }
        i = i + 1;
    }
    theme_name(1)
}

// ---------------------------------------------------------------------------
// Background work
// ---------------------------------------------------------------------------

/// What the background work has brought.
#[derive(Clone, Copy, Debug)]
pub struct Poll {
    pub file_open: bool,
    pub index_done: bool,
    pub indexing: bool,
    pub hits_before: usize,
    pub search_done: bool,
    /// Matches that are known now.
    pub hits: usize,
}

/// A message for a while.
pub struct Flash {
    pub text: String,
    pub millis: u32,
}

/// What is left to do after the background work was asked.
pub struct PollResult {
    /// The text is laid out and painted anew.
    pub changed: bool,
    pub index_finished: bool,
    pub search_finished: bool,
    /// The last message that came up.
    pub flash: Option<Flash>,
}

/// Takes in what the background work has brought.
pub fn poll_tasks(poll: &Poll) -> (r: PollResult)
    ensures
        r.index_finished == (poll.file_open && poll.index_done),
        r.search_finished == (poll.file_open && poll.search_done),
        r.changed == (poll.file_open && (poll.index_done || poll.indexing || poll.search_done
            || poll.hits != poll.hits_before)),
        match r.flash {
            Some(f) => if r.search_finished && poll.hits > 0 {
                f.text@ == "找到 "@ + decimal(poll.hits as nat) + " 条匹配"@ && f.millis == 3000
            } else if r.search_finished {
                f.text@ == "未找到匹配"@ && f.millis == 2500
            } else {
                r.index_finished && f.text@ == "索引完成"@ && f.millis == 2500
            },
            None => !r.search_finished && !r.index_finished,
        },
{
    let index_finished: bool = poll.file_open && poll.index_done;
    let search_finished: bool = poll.file_open && poll.search_done;
    let changed: bool = poll.file_open && (poll.index_done || poll.indexing || poll.search_done
        || poll.hits != poll.hits_before);
    let flash: Option<Flash> = if search_finished {
        if poll.hits > 0 {
            let mut text: String = "找到 ".to_owned();
            push_decimal(&mut text, poll.hits as u64);
            text.append(" 条匹配");
            Some(Flash { text, millis: 3000 })
        } else {
            Some(Flash { text: "未找到匹配".to_owned(), millis: 2500 })
        }
    } else if index_finished {
        Some(Flash { text: "索引完成".to_owned(), millis: 2500 })
    } else {
        None
    };
    PollResult { changed, index_finished, search_finished, flash }
}

// ---------------------------------------------------------------------------
// Status
// ---------------------------------------------------------------------------

/// Percentage that a message on background work ends in, such as
/// `indexing... 42%`.
pub fn parse_progress_pct(msg: &str) -> (r: Option<Number>)
    ensures
        match r {
            Some(n) => percent_of(msg@) == Some(n@),
            None => percent_of(msg@) is None,
        },
{
    parse_percent(msg)
}

/// What the left part says: the name of the file, its path where it has none.
pub fn status_left(path: Option<&str>, file_name: Option<&str>) -> (r: String)
    ensures
        r@ == match path {
            Some(p) => match file_name {
                Some(n) => n@,
                None => p@,
            },
            None => "未打开文件"@,
        },
{
    match path {
        Some(p) => match file_name {
            Some(n) => n.to_owned(),
            None => p.to_owned(),
        },
        None => "未打开文件".to_owned(),
    }
}

/// What the middle part says.
pub open spec fn mid_text(
    flash: Option<Seq<char>>,
    indexing: bool,
    searching: bool,
    hits: nat,
    cursor: nat,
    total: nat,
) -> Seq<char> {
    if flash is Some {
        flash->0
    } else if indexing {
        "正在建立索引…"@
    } else if searching {
        if hits > 0 {
            decimal(cursor + 1) + "/"@ + decimal(hits) + " 条匹配"@
        } else {
            "搜索中…"@
        }
    } else {
        decimal(total) + " 行"@
    }
}

/// What the middle part says: a message before the work that goes on, and that
/// before the number of lines.
pub fn status_mid(
    flash: Option<&str>,
    indexing: bool,
    searching: bool,
    hits: usize,
    cursor: usize,
    total: u64,
) -> (r: String)
    requires
        cursor < usize::MAX,
    ensures
        r@ == mid_text(
            crate::text::maybe_text(flash),
            indexing,
            searching,
            hits as nat,
            cursor as nat,
            total as nat,
        ),
{
    match flash {
        Some(f) => {
            return f.to_owned();
        },
        None => {},
    }
    if indexing {
        return "正在建立索引…".to_owned();
    }
    let mut out = String::new();
    if searching {
        if hits > 0 {
            push_decimal(&mut out, cursor as u64 + 1);
            out.append("/");
            push_decimal(&mut out, hits as u64);
            out.append(" 条匹配");
            assert(out@ =~= decimal((cursor + 1) as nat) + "/"@ + decimal(hits as nat) + " 条匹配"@);
            out
        } else {
            "搜索中…".to_owned()
        }
    } else {
        push_decimal(&mut out, total);
        out.append(" 行");
        assert(out@ =~= decimal(total as nat) + " 行"@);
        out
    }
}

/// What the right part says: size, lines and encoding of the open file.
pub fn status_right(size: Option<u64>, total: u64, encoding: &str) -> (r: String)
    ensures
        r@ == match size {
            Some(n) => human_text(n as nat, TOP_UNIT as nat) + " │ "@ + decimal(total as nat)
                + " 行 │ "@ + encoding@,
            None => Seq::empty(),
        },
{
    match size {
        Some(n) => {
            let mut out: String = human_bytes(n);
            out.append(" │ ");
            push_decimal(&mut out, total);
            out.append(" 行 │ ");
            out.append(encoding);
            out
        },
        None => {
            let out = String::new();
            assert(out@ =~= Seq::empty());
            out
        },
    }
}

// ---------------------------------------------------------------------------
// Copying and searching
// ---------------------------------------------------------------------------

/// What is copied.
#[derive(Clone, Copy, PartialEq, Eq, Structural, Debug)]
pub enum CopyWhat {
    Selection,
    Line(u64),
    Nothing,
}

/// What is copied: the selection, the current line where there is none.
pub fn copy_selection_or_line(
    selection: &Selection,
    file_open: bool,
    current_line: u64,
    total: u64,
) -> (r: CopyWhat)
    ensures
        r == if selection.active && selection.anchor != selection.focus {
            CopyWhat::Selection
        } else if !file_open {
            CopyWhat::Nothing
        } else {
            CopyWhat::Line(
                if total == 0 {
                    0
                } else if current_line < total {
                    current_line
                } else {
                    (total - 1) as u64
                },
            )
        },
{
    if !selection.is_empty() {
        CopyWhat::Selection
    } else if !file_open {
        CopyWhat::Nothing
    } else if total == 0 {
        CopyWhat::Line(0)
    } else if current_line < total {
        CopyWhat::Line(current_line)
    } else {
        CopyWhat::Line(total - 1)
    }
}

/// What is said after something was copied.
pub fn copied_message(what: CopyWhat, copied: &str) -> (r: Option<String>)
    ensures
        match what {
            CopyWhat::Selection => r is Some && r->0@ == "已复制选区（"@ + decimal(copied@.len())
                + " 字符）"@,
            CopyWhat::Line(_) => r is Some && r->0@ == "已复制当前行"@,
            CopyWhat::Nothing => r is None,
        },
{
    match what {
        CopyWhat::Selection => {
            let mut out: String = "已复制选区（".to_owned();
            push_decimal(&mut out, char_count(copied) as u64);
            out.append(" 字符）");
            Some(out)
        },
        CopyWhat::Line(_) => Some("已复制当前行".to_owned()),
        CopyWhat::Nothing => None,
    }
}

/// What a query that is entered does.
#[derive(Clone, Copy, PartialEq, Eq, Structural, Debug)]
pub enum SearchEntry {
    /// Forgets the search.
    Cancel,
    Submit,
}

/// What a query that is entered does: an empty one forgets the search.
pub fn submit_search(query: &str) -> (r: SearchEntry)
    ensures
        r == if query@.len() == 0 {
            SearchEntry::Cancel
        } else {
            SearchEntry::Submit
        },
{
    if query.is_empty() {
        SearchEntry::Cancel
    } else {
        SearchEntry::Submit
    }
}

/// Whether a search is made anew after its options changed.
pub fn resubmits(last_query: &str) -> (r: bool)
    ensures
        r == (last_query@.len() > 0),
{
    !last_query.is_empty()
}

// ---------------------------------------------------------------------------
// Laws
// ---------------------------------------------------------------------------

/// A line that is gone to exists.
pub proof fn law_reachable_lines_exist(line: int, total: int)
    requires
        0 <= line,
        0 <= total,
    ensures
        reachable(line, total) is Some <==> total > 0,
        total > 0 ==> 0 <= reachable(line, total)->0 < total,
        0 <= line < total ==> reachable(line, total) == Some(line),
{
}

/// The columns of an indentation do not shrink, and a tab ends at a tab stop.
pub proof fn law_tabs_end_at_stops(text: Seq<char>, col: int)
    requires
        0 <= col,
    ensures
        cols_from(text, col) >= col,
        text.len() == 1 && text[0] == '\t' ==> cols_from(text, col) % (INDENT_TAB as int) == 0
            && cols_from(text, col) > col,
    decreases text.len(),
{
    if text.len() > 0 && text[0] == ' ' {
        law_tabs_end_at_stops(text.skip(1), col + 1);
    } else if text.len() > 0 && text[0] == '\t' {
        let to = (col / (INDENT_TAB as int) + 1) * INDENT_TAB;
        law_tabs_end_at_stops(text.skip(1), to);
        if text.len() == 1 {
            assert(cols_from(text.skip(1), to) == to);
        }
    }
}

/// A word is the same wherever in it one points.
pub proof fn law_one_word(bytes: Seq<u8>, p: int, s: int, e: int, t: int, f: int)
    requires
        is_word(bytes, s, e),
        is_word(bytes, t, f),
        s <= p < e,
        t <= p < f,
    ensures
        s == t,
        e == f,
{
    if s < t {
        assert(!is_blank(bytes[t - 1]));
    }
    if t < s {
        assert(!is_blank(bytes[s - 1]));
    }
    if e < f {
        assert(!is_blank(bytes[e]));
    }
    if f < e {
        assert(!is_blank(bytes[f]));
    }
}

/// The level of a line is that of the rest of the program, and its colour that of the
/// level, unless colouring is off.
pub proof fn law_lines_have_the_colour_of_their_level(
    text: &str,
    level: Option<Level>,
    same: Option<Level>,
    theme: &ThemeColors,
    lv: Level,
    color: Rgba,
    coloring: bool,
    row: Rgba,
)
    requires
        call_ensures(detect_level, (text,), level),
        call_ensures(level_of_line, (text,), same),
        call_ensures(level_color, (lv, theme), color),
        call_ensures(row_color, (Some(lv), coloring, theme), row),
    ensures
        level == same,
        lv == Level::Error ==> color == theme.level_error,
        lv == Level::Warn ==> color == theme.level_warn,
        lv == Level::Info ==> color == theme.level_info,
        lv == Level::Debug ==> color == theme.level_debug,
        lv == Level::Trace ==> color == theme.level_trace,
        coloring ==> row == color,
        !coloring ==> row == theme.text_primary,
{
}

/// A line without a level has the colour of ordinary text.
pub proof fn law_plain_lines_have_the_plain_colour(coloring: bool, theme: &ThemeColors, row: Rgba)
    requires
        call_ensures(row_color, (None, coloring, theme), row),
    ensures
        row == theme.text_primary,
{
}

/// A line that exists is gone to, and the last one in place of any behind it.
pub proof fn law_lines_are_gone_to(line: u64, total: u64, r: Option<u64>, end: Option<u64>)
    requires
        call_ensures(goto_line, (line, total), r),
        call_ensures(goto_end, (total,), end),
    ensures
        total == 0 ==> r is None && end is None,
        line < total ==> r == Some(line),
        total > 0 ==> end is Some && end->0 + 1 == total,
        line >= total ==> r == end,
{
}

/// A page down goes down by a step and a page up goes up by one, as far as there are
/// lines, and the one undoes the other.
pub proof fn law_pages_go_both_ways(
    current: u64,
    step: u64,
    total: u64,
    down: Option<u64>,
    up: Option<u64>,
    back: Option<u64>,
)
    requires
        call_ensures(page_down, (current, step, total), down),
        call_ensures(page_up, (current, step, total), up),
        call_ensures(page_up, (down->0, step, total), back),
        current < total,
        step >= 1,
    ensures
        down is Some && up is Some,
        current + step < total ==> down->0 == current + step,
        current + step >= total ==> down->0 == total - 1,
        current >= step ==> up->0 == current - step,
        current < step ==> up->0 == 0,
        current + step < total ==> back == Some(current),
{
}

/// The lines that are read for a view start with its first and are at least as many as
/// are expected in it, unless the file ends before.
pub proof fn law_the_view_is_filled(
    first: u64,
    estimated: u64,
    word_wrap: bool,
    total: u64,
    r: (u64, u64),
)
    requires
        call_ensures(visible_range, (first, estimated, word_wrap, total), r),
        first + estimated + 8 <= u64::MAX,
    ensures
        r.0 == first,
        r.1 <= total,
        r.1 == total || r.1 >= first + estimated,
        r.1 <= first + estimated + 8,
{
}

/// The current line is marked before the one under the pointer, and no other is; every
/// second line has the other background.
pub proof fn law_rows_are_filled(
    row: u64,
    current: u64,
    hover: Option<u64>,
    r: RowFill,
    odd: bool,
    next: bool,
)
    requires
        call_ensures(row_fill, (row, current, hover), r),
        call_ensures(is_alternate, (row,), odd),
        row < u64::MAX,
        call_ensures(is_alternate, ((row + 1) as u64,), next),
    ensures
        (r == RowFill::Current) == (row == current),
        (r == RowFill::Hover) == (row != current && hover == Some(row)),
        (r == RowFill::Nothing) == (row != current && hover != Some(row)),
        odd != next,
        row == 0 ==> !odd,
{
}

/// A line is marked as one with a match where a match was found in it, in whatever order
/// and however often the lines were given.
pub proof fn law_lines_with_matches_are_marked(
    lines: &Vec<u64>,
    kept: Vec<u64>,
    row: u64,
    r: bool,
)
    requires
        call_ensures(update_hit_lines, (lines,), kept),
        call_ensures(is_hit_line, (&kept, row), r),
    ensures
        r == exists|i: int| 0 <= i < lines@.len() && #[trigger] lines@[i] == row,
{
    assert(kept@.contains(row) == kept@.to_set().contains(row));
    assert(lines@.contains(row) == lines@.to_set().contains(row));
}

/// Each match of a line is marked once, as a current one where the search stands on the
/// line.
pub proof fn law_matches_are_split(
    display: &DisplayLine,
    r: (Vec<(usize, usize)>, Vec<(usize, usize)>),
)
    requires
        call_ensures(split_matches, (display,), r),
    ensures
        r.0@ + r.1@ == display.matches@,
        display.is_current ==> r.0@.len() == 0,
        !display.is_current ==> r.1@.len() == 0,
{
    assert(r.0@ + r.1@ =~= display.matches@);
}

/// Each blank of the indent goes on by a column and each tab to the next column that is a
/// multiple of four.
pub proof fn law_indent_is_counted(text: &str, blanks: int, tabs: int, rest: Seq<char>, r: usize)
    requires
        call_ensures(count_leading_whitespace_cols, (text,), r),
        0 <= blanks,
        0 <= tabs,
        text@ == Seq::new(blanks as nat, |i: int| ' ') + Seq::new(tabs as nat, |i: int| '\t') + rest,
        rest.len() == 0 || (rest[0] != ' ' && rest[0] != '\t'),
    ensures
        tabs == 0 ==> r == blanks,
        tabs > 0 ==> r % 4 == 0 && 4 * tabs + blanks - 4 < r <= 4 * tabs + blanks,
{
    lemma_indent(blanks, tabs, rest, 0);
}

proof fn lemma_indent(blanks: int, tabs: int, rest: Seq<char>, col: int)
    requires
        0 <= blanks,
        0 <= tabs,
        0 <= col,
        rest.len() == 0 || (rest[0] != ' ' && rest[0] != '\t'),
    ensures
        ({
            let r = cols_from(
                Seq::new(blanks as nat, |i: int| ' ') + Seq::new(tabs as nat, |i: int| '\t') + rest,
                col,
            );
            &&& tabs == 0 ==> r == col + blanks
            &&& tabs > 0 ==> r % 4 == 0 && 4 * tabs + col + blanks - 4 < r <= 4 * tabs + col
                + blanks
        }),
    decreases blanks + tabs,
{
    let s = Seq::new(blanks as nat, |i: int| ' ') + Seq::new(tabs as nat, |i: int| '\t') + rest;
    if blanks > 0 {
        lemma_indent(blanks - 1, tabs, rest, col + 1);
        assert(s[0] == ' ');
        assert(s.skip(1) =~= Seq::new((blanks - 1) as nat, |i: int| ' ') + Seq::new(
            tabs as nat,
            |i: int| '\t',
        ) + rest);
    } else if tabs > 0 {
        lemma_indent(0, tabs - 1, rest, (col / 4 + 1) * 4);
        assert(s[0] == '\t');
        assert(s.skip(1) =~= Seq::new(0, |i: int| ' ') + Seq::new(
            (tabs - 1) as nat,
            |i: int| '\t',
        ) + rest);
    } else {
        assert(s =~= rest);
    }
}

/// Guides stand at every fourth column of the indent.
pub proof fn law_guides_stand_at_the_stops(cols: usize, r: Vec<usize>)
    requires
        call_ensures(indent_stops, (cols,), r),
    ensures
        forall|i: int| 0 <= i < r@.len() ==> #[trigger] r@[i] == 4 * (i + 1) && r@[i] <= cols,
        4 * (r@.len() + 1) > cols,
{
}

/// The word at a place in it is found: the bytes from the last white space in front of it
/// to the next behind it.
pub proof fn law_the_word_at_a_place_is_found(
    text: &str,
    byte: usize,
    before: Seq<u8>,
    word: Seq<u8>,
    behind: Seq<u8>,
    r: Option<(usize, usize)>,
)
    requires
        call_ensures(word_at, (text, byte), r),
        encode_utf8(text@) == before + word + behind,
        before.len() <= byte < before.len() + word.len(),
        is_char_boundary(encode_utf8(text@), byte as int),
        forall|i: int|
            0 <= i < word.len() ==> ({
                let b = #[trigger] word[i];
                b != ' ' as u32 && b != '\t' as u32 && b != '\n' as u32 && b != '\r' as u32 && b
                    != 0x0C
            }),
        before.len() == 0 || before.last() == ' ' as u32 || before.last() == '\t' as u32,
        behind.len() == 0 || behind[0] == ' ' as u32 || behind[0] == '\t' as u32,
    ensures
        r matches Some(w) && w.0 == before.len() && w.1 == before.len() + word.len(),
{
    let bytes = encode_utf8(text@);
    let from = byte as int;
    assert(is_char_start(bytes, clamped(byte, bytes.len()), from));
    assert(bytes[from] == word[from - before.len()]);
    assert(!is_blank(bytes[from]));
    assert(r is Some);
    let (s, e) = r->0;
    let p = choose|p: int| #[trigger] is_next_text(bytes, from, p) && s <= p < e;
    assert(p == from) by {
        if p > from {
            assert(is_blank(bytes[from]));
        }
    }
    let a = before.len() as int;
    let z = a + word.len();
    if s < a {
        assert(bytes[a - 1] == before[a - 1]);
        assert(is_blank(bytes[a - 1]));
    } else if a < s {
        assert(bytes[s - 1] == word[s - 1 - a]);
    }
    if z < e {
        assert(bytes[z] == behind[0]);
        assert(is_blank(bytes[z]));
    } else if e < z {
        assert(bytes[e as int] == word[e - a]);
    }
}

/// The themes are gone through one by one and from the last to the first.
pub proof fn law_themes_are_gone_through(i: usize, current: &'static str, r: &'static str, next: &'static str)
    requires
        i < 6,
        call_ensures(theme_name, (i,), current),
        call_ensures(cycle_theme, (current,), r),
        call_ensures(theme_name, ((if i == 5 { 0 } else { i + 1 }) as usize,), next),
    ensures
        r@ == next@,
{
    assert forall|k: int| 0 <= k < i implies #[trigger] theme_name_text(k) != current@ by {
        reveal_strlit("Dark Pro");
        reveal_strlit("Dark High Contrast");
        reveal_strlit("Light");
        reveal_strlit("Solarized Dark");
        reveal_strlit("Dracula");
        reveal_strlit("Monokai");
        if theme_name_text(k) == current@ {
            assert(theme_name_text(k).len() == current@.len());
            assert(theme_name_text(k)[0] == current@[0]);
        }
    }
    assert(is_named(current@, i as int));
}

/// What has finished is told, with the number of matches; while nothing has changed the
/// view is left alone.
pub proof fn law_finished_work_is_told(poll: &Poll, r: PollResult, digits: String)
    requires
        call_ensures(poll_tasks, (poll,), r),
        call_ensures(crate::decimal::decimal_string, (poll.hits as u64,), digits),
        poll.file_open,
    ensures
        r.search_finished == poll.search_done,
        r.index_finished == poll.index_done,
        poll.search_done || poll.index_done ==> r.changed && r.flash is Some,
        !poll.search_done && !poll.index_done ==> r.flash is None,
        poll.search_done && poll.hits > 0 ==> r.flash->0.text@ == "找到 "@ + digits@ + " 条匹配"@,
        poll.search_done && poll.hits == 0 ==> r.flash->0.text@ == "未找到匹配"@,
        !poll.search_done && poll.index_done ==> r.flash->0.text@ == "索引完成"@,
        !poll.search_done && !poll.index_done && !poll.indexing && poll.hits == poll.hits_before
            ==> !r.changed,
{
}

/// The selection is copied where something is selected, else the current line, which is
/// one that exists.
pub proof fn law_something_is_copied(
    selection: &Selection,
    file_open: bool,
    current_line: u64,
    total: u64,
    r: CopyWhat,
    empty: bool,
)
    requires
        call_ensures(copy_selection_or_line, (selection, file_open, current_line, total), r),
        call_ensures(Selection::is_empty, (selection,), empty),
    ensures
        !empty ==> r == CopyWhat::Selection,
        empty && file_open && current_line < total ==> r == CopyWhat::Line(current_line),
        empty && file_open && 0 < total <= current_line ==> r == CopyWhat::Line((total - 1) as u64),
        empty && !file_open ==> r == CopyWhat::Nothing,
{
}

/// The status bar tells what is copied, which match is gone to and how many there are, and
/// what is going on; a message stands in front of everything else.
pub proof fn law_the_status_tells(
    message: &str,
    indexing: bool,
    searching: bool,
    hits: usize,
    cursor: usize,
    total: u64,
    flashed: String,
    plain: String,
    place: String,
    count: String,
    lines: String,
)
    requires
        cursor < hits,
        call_ensures(status_mid, (Some(message), indexing, searching, hits, cursor, total), flashed),
        call_ensures(status_mid, (None, indexing, searching, hits, cursor, total), plain),
        call_ensures(crate::decimal::decimal_string, ((cursor + 1) as u64,), place),
        call_ensures(crate::decimal::decimal_string, (hits as u64,), count),
        call_ensures(crate::decimal::decimal_string, (total,), lines),
    ensures
        flashed@ == message@,
        indexing ==> plain@ == "正在建立索引…"@,
        !indexing && searching ==> plain@ == place@ + "/"@ + count@ + " 条匹配"@,
        !indexing && !searching ==> plain@ == lines@ + " 行"@,
{
}

/// The name of the file stands at the left, and size, lines and encoding at the right.
pub proof fn law_the_file_is_named(
    path: &str,
    name: &str,
    named: String,
    unnamed: String,
    closed: String,
    size: u64,
    total: u64,
    encoding: &str,
    right: String,
    human: String,
    lines: String,
)
    requires
        call_ensures(status_left, (Some(path), Some(name)), named),
        call_ensures(status_left, (Some(path), None), unnamed),
        call_ensures(status_left, (None, None), closed),
        call_ensures(status_right, (Some(size), total, encoding), right),
        call_ensures(human_bytes, (size,), human),
        call_ensures(crate::decimal::decimal_string, (total,), lines),
    ensures
        named@ == name@,
        unnamed@ == path@,
        closed@ == "未打开文件"@,
        right@ == human@ + " │ "@ + lines@ + " 行 │ "@ + encoding@,
{
}

/// A search starts with a query and is cancelled without one; options apply at once where
/// there was a query.
pub proof fn law_queries_start_searches(query: &str, r: SearchEntry, again: bool)
    requires
        call_ensures(submit_search, (query,), r),
        call_ensures(resubmits, (query,), again),
    ensures
        again == (r == SearchEntry::Submit),
        (r == SearchEntry::Cancel) == (query@.len() == 0),
{
}

/// How much was copied is told.
pub proof fn law_copies_are_told(copied: &str, part: Option<String>, line: Option<String>, n: u64, none: Option<String>, digits: String)
    requires
        call_ensures(copied_message, (CopyWhat::Selection, copied), part),
        call_ensures(copied_message, (CopyWhat::Line(n), copied), line),
        call_ensures(copied_message, (CopyWhat::Nothing, copied), none),
        call_ensures(crate::decimal::decimal_string, (copied@.len() as u64,), digits),
        copied@.len() <= u64::MAX,
    ensures
        part matches Some(s) && s@ == "已复制选区（"@ + digits@ + " 字符）"@,
        line matches Some(s) && s@ == "已复制当前行"@,
        none is None,
{
}

/// The progress of the work is the percentage of its message.
pub proof fn law_progress_is_the_percentage(
    msg: &str,
    r: Option<Number>,
    q: Option<Number>,
)
    requires
        call_ensures(parse_progress_pct, (msg,), r),
        call_ensures(crate::numbers::parse_percent, (msg,), q),
    ensures
        r is Some == q is Some,
        r is Some ==> r->0@ == q->0@,
{
}

} // verus!
