//! State of the application, and what its commands do to it.

use vstd::prelude::*;

use crate::decimal::{decimal, decimal_string, human, human_text, push_decimal};
use crate::native::engine_bridge::SearchState;
use crate::native::statusbar::PROGRESS_H;
use crate::native::menu::{wide, wide_text};
use crate::palettes::{theme_name, theme_name_text, THEMES};

verus! {

broadcast use vstd::string::group_string_axioms;

pub const TOOLBAR_H: i32 = 36;

pub const STATUSBAR_H: i32 = 24;

/// Largest font size.
pub const MAX_FONT_PX: i32 = 36;

/// Smallest font size.
pub const MIN_FONT_PX: i32 = 8;

/// An option of the search.
#[derive(Clone, Copy, PartialEq, Eq, Structural, Debug)]
pub enum SearchFlag {
    Case,
    Regex,
    Word,
}

/// An option of the view.
#[derive(Clone, Copy, PartialEq, Eq, Structural, Debug)]
pub enum ViewFlag {
    LineNumbers,
    WordWrap,
    Whitespace,
    IndentGuides,
    LevelColoring,
}

/// Options of the view.
#[derive(Clone, Copy, PartialEq, Eq, Structural, Debug)]
pub struct ViewFlags {
    pub show_line_numbers: bool,
    pub word_wrap: bool,
    pub show_whitespace: bool,
    pub show_indent_guides: bool,
    pub level_coloring: bool,
}

impl ViewFlags {
    /// The options with one of them flipped.
    pub open spec fn toggled(self, flag: ViewFlag) -> ViewFlags {
        match flag {
            ViewFlag::LineNumbers => ViewFlags {
                show_line_numbers: !self.show_line_numbers,
                ..self
            },
            ViewFlag::WordWrap => ViewFlags { word_wrap: !self.word_wrap, ..self },
            ViewFlag::Whitespace => ViewFlags { show_whitespace: !self.show_whitespace, ..self },
            ViewFlag::IndentGuides => ViewFlags {
                show_indent_guides: !self.show_indent_guides,
                ..self
            },
            ViewFlag::LevelColoring => ViewFlags { level_coloring: !self.level_coloring, ..self },
        }
    }

    /// Flips an option. Returns whether the metrics of the view have to be
    /// measured anew: only wrapping changes them.
    pub fn toggle(&mut self, flag: ViewFlag) -> (r: bool)
        ensures
            *final(self) == old(self).toggled(flag),
            r == (flag == ViewFlag::WordWrap),
    {
        match flag {
            ViewFlag::LineNumbers => {
                self.show_line_numbers = !self.show_line_numbers;
                false
            },
            ViewFlag::WordWrap => {
                self.word_wrap = !self.word_wrap;
                true
            },
            ViewFlag::Whitespace => {
                self.show_whitespace = !self.show_whitespace;
                false
            },
            ViewFlag::IndentGuides => {
                self.show_indent_guides = !self.show_indent_guides;
                false
            },
            ViewFlag::LevelColoring => {
                self.level_coloring = !self.level_coloring;
                false
            },
        }
    }
}

/// Options of the search as they are stored.
#[derive(Clone, Copy, PartialEq, Eq, Structural, Debug)]
pub struct StoredSearchFlags {
    pub case_sensitive: bool,
    pub use_regex: bool,
    pub whole_word: bool,
}

/// Flips an option of the search, and stores it; the next search applies it.
pub fn toggle_search_flag(
    search: &mut SearchState,
    stored: &mut StoredSearchFlags,
    flag: SearchFlag,
)
    ensures
        final(search).options() == match flag {
            SearchFlag::Case => (!old(search).case_sensitive, old(search).use_regex, old(
                search,
            ).whole_word),
            SearchFlag::Regex => (old(search).case_sensitive, !old(search).use_regex, old(
                search,
            ).whole_word),
            SearchFlag::Word => (old(search).case_sensitive, old(search).use_regex, !old(
                search,
            ).whole_word),
        },
        *final(stored) == match flag {
            SearchFlag::Case => StoredSearchFlags {
                case_sensitive: final(search).case_sensitive,
                ..*old(stored)
            },
            SearchFlag::Regex => StoredSearchFlags {
                use_regex: final(search).use_regex,
                ..*old(stored)
            },
            SearchFlag::Word => StoredSearchFlags {
                whole_word: final(search).whole_word,
                ..*old(stored)
            },
        },
        final(search).query == old(search).query,
        final(search).status == old(search).status,
        final(search).total == old(search).total,
        final(search).cursor == old(search).cursor,
        final(search).searching == old(search).searching,
{
    match flag {
        SearchFlag::Case => {
            search.case_sensitive = !search.case_sensitive;
            stored.case_sensitive = search.case_sensitive;
        },
        SearchFlag::Regex => {
            search.use_regex = !search.use_regex;
            stored.use_regex = search.use_regex;
        },
        SearchFlag::Word => {
            search.whole_word = !search.whole_word;
            stored.whole_word = search.whole_word;
        },
    }
}

// ---------------------------------------------------------------------------
// Theme and font
// ---------------------------------------------------------------------------

/// Number of the theme to switch to, and its name, which is stored.
pub fn switch_theme(idx: usize) -> (r: (usize, &'static str))
    ensures
        r.0 == idx as int % THEMES as int,
        r.1@ == theme_name_text(r.0 as int),
{
    let i: usize = idx % THEMES;
    (i, theme_name(i))
}

/// The theme behind the current one; the first behind the last.
pub fn cycle_theme(current: usize) -> (r: (usize, &'static str))
    requires
        current < usize::MAX,
    ensures
        r.0 == (current + 1) % THEMES as int,
        r.1@ == theme_name_text(r.0 as int),
{
    switch_theme((current + 1) % THEMES)
}

/// The next larger font size, at most the largest.
pub open spec fn larger(px: int) -> int {
    if px + 1 <= MAX_FONT_PX {
        px + 1
    } else {
        MAX_FONT_PX as int
    }
}

/// The next smaller font size, from the smallest on none.
pub open spec fn smaller(px: int) -> int {
    if px > MIN_FONT_PX {
        px - 1
    } else {
        px
    }
}

/// The next larger font size.
pub fn font_inc(px: i32) -> (r: i32)
    requires
        px < i32::MAX,
    ensures
        r == larger(px as int),
{
    if px + 1 <= MAX_FONT_PX {
        px + 1
    } else {
        MAX_FONT_PX
    }
}

/// The next smaller font size.
pub fn font_dec(px: i32) -> (r: i32)
    ensures
        r == smaller(px as int),
{
    if px > MIN_FONT_PX {
        px - 1
    } else {
        px
    }
}

/// The font size that is set, at least the smallest.
pub fn font_reset(configured: i32) -> (r: i32)
    ensures
        r == if configured >= MIN_FONT_PX {
            configured
        } else {
            MIN_FONT_PX
        },
{
    if configured >= MIN_FONT_PX {
        configured
    } else {
        MIN_FONT_PX
    }
}

// ---------------------------------------------------------------------------
// Status texts
// ---------------------------------------------------------------------------

/// Status of a file that has been opened: its lines and its size, or only its
/// size while it is being indexed.
pub open spec fn opened_text(indexing: bool, lines: u64, size: u64) -> Seq<char> {
    if indexing {
        "索引中... · "@ + human_text(size as nat, 3)
    } else {
        "已打开 · "@ + decimal(lines as nat) + " 行 · "@ + human_text(size as nat, 3)
    }
}

/// Status of a file that has been opened.
pub fn opened_status(indexing: bool, lines: u64, size: u64) -> (r: String)
    ensures
        r@ == opened_text(indexing, lines, size),
{
    let size_text: String = human(size, 3);
    if indexing {
        let mut out: String = "索引中... · ".to_owned();
        out.append(size_text.as_str());
        out
    } else {
        let mut out: String = "已打开 · ".to_owned();
        push_decimal(&mut out, lines);
        out.append(" 行 · ");
        out.append(size_text.as_str());
        out
    }
}

/// Status of a place among the matches: "3/17", with a note in front.
pub open spec fn place_text(note: Seq<char>, cursor: nat, total: nat) -> Seq<char> {
    note + decimal(cursor + 1) + "/"@ + decimal(total) + " 条匹配"@
}

fn place_status(note: &str, cursor: usize, total: usize) -> (r: String)
    requires
        cursor < u64::MAX,
    ensures
        r@ == place_text(note@, cursor as nat, total as nat),
{
    let mut out: String = note.to_owned();
    push_decimal(&mut out, cursor as u64 + 1);
    out.append("/");
    push_decimal(&mut out, total as u64);
    out.append(" 条匹配");
    out
}

/// What the search shows once it has finished.
pub fn finish_search(search: &mut SearchState, total: usize) -> (found: bool)
    ensures
        found == (total > 0),
        !final(search).searching,
        final(search).total == if total > 0 {
            total
        } else {
            old(search).total
        },
        final(search).status@ == if total > 0 {
            decimal(total as nat) + " 条匹配"@
        } else {
            "无匹配"@
        },
        final(search).query == old(search).query,
        final(search).cursor == old(search).cursor,
        final(search).options() == old(search).options(),
{
    search.searching = false;
    if total > 0 {
        search.total = total;
        let mut out = String::new();
        push_decimal(&mut out, total as u64);
        out.append(" 条匹配");
        assert(out@ =~= decimal(total as nat) + " 条匹配"@);
        search.status = out;
        true
    } else {
        search.status = "无匹配".to_owned();
        false
    }
}

/// What a query means for the search.
#[derive(Clone, Copy, PartialEq, Eq, Structural, Debug)]
pub enum SubmitAction {
    /// Nothing is searched for any more.
    Clear,
    /// The query is parsed and searched for, and goes into the history.
    Search,
}

/// Takes a query in: the place among the matches is forgotten, and unless the
/// query is empty a search starts.
pub fn submit_query(search: &mut SearchState, query: String) -> (r: SubmitAction)
    ensures
        final(search).query@ == query@,
        final(search).cursor == 0,
        final(search).total == 0,
        final(search).options() == old(search).options(),
        r == if query@.len() == 0 {
            SubmitAction::Clear
        } else {
            SubmitAction::Search
        },
        final(search).searching == (query@.len() > 0),
        final(search).status@ == if query@.len() == 0 {
            Seq::<char>::empty()
        } else {
            "搜索中..."@
        },
{
    let empty: bool = query.as_str().is_empty();
    search.query = query;
    search.cursor = 0;
    search.total = 0;
    if empty {
        search.searching = false;
        search.status = String::new();
        SubmitAction::Clear
    } else {
        search.searching = true;
        search.status = "搜索中...".to_owned();
        SubmitAction::Search
    }
}

// ---------------------------------------------------------------------------
// Going from match to match
// ---------------------------------------------------------------------------

/// A match as the search hands it out: its byte, its line, and where the line
/// starts.
#[derive(Clone, Copy, PartialEq, Eq, Structural, Debug)]
pub struct HitPos {
    pub byte: u64,
    pub line: u64,
    pub line_start: u64,
}

/// What is asked of the search next.
#[derive(Clone, Copy, PartialEq, Eq, Structural, Debug)]
pub enum JumpStep {
    /// Nothing: there is no match.
    Stop,
    /// To stand on the first match from the start of a line on.
    SeekLine(u64),
    /// To go to the match that it stands on.
    TakeAnchored,
    /// To go to the next match.
    MoveNext,
    /// To go to the match before.
    MovePrev,
    /// To go to the first match, since none is below.
    WrapToFirst,
    /// To go to the last match, since none is below.
    WrapToLast,
}

/// How a jump starts: relative to the current match where that is in view;
/// otherwise the search first goes to the top of the view. `current_line` is
/// the line of the current match.
pub fn jump_start(
    forward: bool,
    matches: usize,
    current_line: Option<u64>,
    first_visible: u64,
    last_visible: u64,
    total_lines: u64,
) -> (r: JumpStep)
    ensures
        r == if matches == 0 {
            JumpStep::Stop
        } else if current_line matches Some(l) && first_visible <= l <= last_visible {
            if forward {
                JumpStep::MoveNext
            } else {
                JumpStep::MovePrev
            }
        } else {
            JumpStep::SeekLine(
                if total_lines == 0 {
                    0
                } else if first_visible < total_lines {
                    first_visible
                } else {
                    (total_lines - 1) as u64
                },
            )
        },
{
    if matches == 0 {
        return JumpStep::Stop;
    }
    let visible: bool = match current_line {
        Some(l) => l >= first_visible && l <= last_visible,
        None => false,
    };
    if visible {
        if forward {
            JumpStep::MoveNext
        } else {
            JumpStep::MovePrev
        }
    } else {
        let max_line: u64 = total_lines.saturating_sub(1);
        if first_visible <= max_line {
            JumpStep::SeekLine(first_visible)
        } else {
            JumpStep::SeekLine(max_line)
        }
    }
}

/// How a jump goes on once the search was sent to the top of the view: where it
/// found a match below, that one is the next, and the one before it the
/// previous; otherwise the jump starts over from the other end.
pub fn jump_after_seek(forward: bool, found: bool) -> (r: JumpStep)
    ensures
        r == if found {
            if forward {
                JumpStep::TakeAnchored
            } else {
                JumpStep::MovePrev
            }
        } else {
            if forward {
                JumpStep::WrapToFirst
            } else {
                JumpStep::WrapToLast
            }
        },
{
    if found {
        if forward {
            JumpStep::TakeAnchored
        } else {
            JumpStep::MovePrev
        }
    } else {
        if forward {
            JumpStep::WrapToFirst
        } else {
            JumpStep::WrapToLast
        }
    }
}

/// Note in front of the place among the matches: only a jump that started over
/// has one.
pub open spec fn jump_note(step: JumpStep) -> Seq<char> {
    match step {
        JumpStep::WrapToFirst => "已到最后 · "@,
        JumpStep::WrapToLast => "已到头 · "@,
        _ => ""@,
    }
}

/// Takes in where a jump has arrived: `cursor` is the number of the match among
/// `total`. Returns the byte of the match, which becomes the current one; where
/// the search found none, nothing changes.
pub fn jump_arrived(
    search: &mut SearchState,
    step: JumpStep,
    hit: Option<HitPos>,
    cursor: usize,
    total: usize,
) -> (r: Option<u64>)
    requires
        cursor < u64::MAX,
    ensures
        match hit {
            Some(h) => {
                &&& r == Some(h.byte)
                &&& final(search).cursor == cursor
                &&& final(search).status@ == place_text(
                    jump_note(step),
                    cursor as nat,
                    total as nat,
                )
                &&& final(search).query == old(search).query
                &&& final(search).total == old(search).total
                &&& final(search).searching == old(search).searching
                &&& final(search).options() == old(search).options()
            },
            None => r is None && *final(search) == *old(search),
        },
{
    match hit {
        Some(h) => {
            let note: &'static str = match step {
                JumpStep::WrapToFirst => "已到最后 · ",
                JumpStep::WrapToLast => "已到头 · ",
                _ => "",
            };
            search.cursor = cursor;
            search.status = place_status(note, cursor, total);
            Some(h.byte)
        },
        None => None,
    }
}

/// Line from which on a finished search is entered: the top of the view.
pub fn entry_line(first_visible: u64, total_lines: u64) -> (r: u64)
    ensures
        r == if total_lines == 0 {
            0
        } else if first_visible < total_lines {
            first_visible
        } else {
            (total_lines - 1) as u64
        },
{
    let max_line: u64 = total_lines.saturating_sub(1);
    if first_visible <= max_line {
        first_visible
    } else {
        max_line
    }
}

// ---------------------------------------------------------------------------
// Window
// ---------------------------------------------------------------------------

/// Size of the window from the stored one: at least 640 by 420.
pub fn window_size(stored_w: i32, stored_h: i32) -> (r: (i32, i32))
    ensures
        r.0 == if stored_w >= 640 {
            stored_w
        } else {
            640
        },
        r.1 == if stored_h >= 420 {
            stored_h
        } else {
            420
        },
{
    (
        if stored_w >= 640 {
            stored_w
        } else {
            640
        },
        if stored_h >= 420 {
            stored_h
        } else {
            420
        },
    )
}

/// Where the parts of a window of height `h` start: the view, the progress row
/// and the status row.
pub fn window_parts(h: i32, has_progress: bool) -> (r: (i32, i32, i32))
    requires
        h >= i32::MIN + 100,
    ensures
        r.0 == TOOLBAR_H + 2,
        r.2 == h - STATUSBAR_H,
        r.1 == if has_progress {
            r.2 - PROGRESS_H
        } else {
            r.2 as int
        },
{
    let status_top: i32 = h - STATUSBAR_H;
    let progress_top: i32 = if has_progress {
        status_top - PROGRESS_H
    } else {
        status_top
    };
    (TOOLBAR_H + 2, progress_top, status_top)
}

/// Code units of a text, with a zero behind them.
pub fn str_wide(s: &str) -> (r: Vec<u16>)
    ensures
        r@ == wide_text(s@),
{
    wide(s)
}

// ---------------------------------------------------------------------------
// Laws
// ---------------------------------------------------------------------------

/// Flipping an option of the view twice leaves the options as they were.
pub proof fn law_toggling_twice_is_nothing(flags: ViewFlags, flag: ViewFlag)
    ensures
        flags.toggled(flag).toggled(flag) == flags,
{
}

/// Number of the theme after `n` switches.
pub open spec fn theme_after(start: int, n: nat) -> int
    decreases n,
{
    if n == 0 {
        start
    } else {
        (theme_after(start, (n - 1) as nat) + 1) % THEMES as int
    }
}

/// Switching through the themes comes to every one of them, and back after six
/// switches.
pub proof fn law_cycle_visits_every_theme(start: int, target: int) -> (n: nat)
    requires
        0 <= start < THEMES,
        0 <= target < THEMES,
    ensures
        n < THEMES,
        theme_after(start, n) == target,
        theme_after(start, THEMES as nat) == start,
{
    let n = ((target - start) % 6) as nat;
    lemma_theme_after(start, n);
    lemma_theme_after(start, THEMES as nat);
    n
}

proof fn lemma_theme_after(start: int, n: nat)
    requires
        0 <= start < THEMES,
    ensures
        theme_after(start, n) == (start + n) % 6,
    decreases n,
{
    if n > 0 {
        lemma_theme_after(start, (n - 1) as nat);
    }
}

/// The font size stays in its range however it is changed, and a step up and a
/// step down undo each other.
pub proof fn law_font_size_stays_in_range(px: int)
    requires
        MIN_FONT_PX <= px <= MAX_FONT_PX,
    ensures
        MIN_FONT_PX <= larger(px) <= MAX_FONT_PX,
        MIN_FONT_PX <= smaller(px) <= MAX_FONT_PX,
        px < MAX_FONT_PX ==> smaller(larger(px)) == px,
        px > MIN_FONT_PX ==> larger(smaller(px)) == px,
{
}

/// Each switch of the view turns its own option, and only wrapping asks for a new layout.
pub proof fn law_view_switches_turn_their_option(v: &mut ViewFlags, flag: ViewFlag, r: bool)
    requires
        call_ensures(ViewFlags::toggle, (v, flag), r),
    ensures
        (final(v).show_line_numbers != old(v).show_line_numbers) == (flag is LineNumbers),
        (final(v).word_wrap != old(v).word_wrap) == (flag is WordWrap),
        (final(v).show_whitespace != old(v).show_whitespace) == (flag is Whitespace),
        (final(v).show_indent_guides != old(v).show_indent_guides) == (flag is IndentGuides),
        (final(v).level_coloring != old(v).level_coloring) == (flag is LevelColoring),
        r == (final(v).word_wrap != old(v).word_wrap),
{
}

/// Each switch of the search turns its own option, which is stored as it is then, and the
/// search stays otherwise.
pub proof fn law_search_switches_are_stored(
    search: &mut SearchState,
    stored: &mut StoredSearchFlags,
    flag: SearchFlag,
    done: (),
)
    requires
        call_ensures(toggle_search_flag, (search, stored, flag), done),
    ensures
        (final(search).case_sensitive != old(search).case_sensitive) == (flag is Case),
        (final(search).use_regex != old(search).use_regex) == (flag is Regex),
        (final(search).whole_word != old(search).whole_word) == (flag is Word),
        flag is Case ==> final(stored).case_sensitive == final(search).case_sensitive,
        flag is Regex ==> final(stored).use_regex == final(search).use_regex,
        flag is Word ==> final(stored).whole_word == final(search).whole_word,
        !(flag is Case) ==> final(stored).case_sensitive == old(stored).case_sensitive,
        !(flag is Regex) ==> final(stored).use_regex == old(stored).use_regex,
        !(flag is Word) ==> final(stored).whole_word == old(stored).whole_word,
        final(search).query == old(search).query && final(search).cursor == old(search).cursor,
{
}

/// Going on takes the theme behind the current one, and the first behind the last.
pub proof fn law_themes_follow_each_other(
    i: usize,
    r: (usize, &'static str),
    chosen: (usize, &'static str),
    name: &'static str,
)
    requires
        i < 6,
        call_ensures(cycle_theme, (i,), r),
        call_ensures(switch_theme, (i,), chosen),
        call_ensures(crate::palettes::theme_name, (i,), name),
    ensures
        i < 5 ==> r.0 == i + 1,
        i == 5 ==> r.0 == 0,
        chosen.0 == i,
        chosen.1@ == name@,
{
}

/// Letters grow and shrink by one pixel, between 8 and 36.
pub proof fn law_letters_grow_and_shrink(
    px: i32,
    up: i32,
    down: i32,
    back: i32,
    configured: i32,
    reset: i32,
)
    requires
        8 <= px <= 36,
        call_ensures(font_inc, (px,), up),
        call_ensures(font_dec, (px,), down),
        call_ensures(font_dec, (up,), back),
        call_ensures(font_reset, (configured,), reset),
    ensures
        px < 36 ==> up == px + 1 && back == px,
        px == 36 ==> up == 36,
        px > 8 ==> down == px - 1,
        px == 8 ==> down == 8,
        configured >= 8 ==> reset == configured,
        configured < 8 ==> reset == 8,
{
}

/// The status of a file that was opened tells its lines and its size, or that the lines
/// are still counted.
pub proof fn law_opened_files_are_told(
    lines: u64,
    size: u64,
    counted: String,
    counting: String,
    number: String,
    size_text: String,
)
    requires
        call_ensures(opened_status, (false, lines, size), counted),
        call_ensures(opened_status, (true, lines, size), counting),
        call_ensures(decimal_string, (lines,), number),
        call_ensures(human, (size, 3), size_text),
    ensures
        counted@ == "已打开 · "@ + number@ + " 行 · "@ + size_text@,
        counting@ == "索引中... · "@ + size_text@,
{
}

/// A search that ends tells how many matches there are, and that there are none.
pub proof fn law_finished_searches_are_told(
    search: &mut SearchState,
    total: usize,
    found: bool,
    number: String,
)
    requires
        call_ensures(finish_search, (search, total), found),
        call_ensures(decimal_string, (total as u64,), number),
    ensures
        found == (total > 0),
        total > 0 ==> final(search).total == total && final(search).status@ == number@
            + " 条匹配"@,
        total == 0 ==> final(search).status@ == "无匹配"@,
        !final(search).searching,
        final(search).query == old(search).query,
{
}

/// A query that is submitted is searched from its first match on, and an empty one clears
/// the search.
pub proof fn law_queries_are_searched(search: &mut SearchState, query: String, r: SubmitAction)
    requires
        call_ensures(submit_query, (search, query), r),
    ensures
        (r is Search) == (query@.len() > 0),
        final(search).searching == (query@.len() > 0),
        final(search).query@ == query@,
        final(search).cursor == 0 && final(search).total == 0,
        query@.len() > 0 ==> final(search).status@ == "搜索中..."@,
        query@.len() == 0 ==> final(search).status@.len() == 0,
        final(search).case_sensitive == old(search).case_sensitive,
        final(search).use_regex == old(search).use_regex,
        final(search).whole_word == old(search).whole_word,
{
}

/// From a match in view a jump goes to the one beside it; from elsewhere it starts at the
/// first line in view, and where there is no match nothing happens.
pub proof fn law_jumps_start_in_view(
    forward: bool,
    matches: usize,
    current: Option<u64>,
    first: u64,
    last: u64,
    total: u64,
    r: JumpStep,
)
    requires
        call_ensures(jump_start, (forward, matches, current, first, last, total), r),
    ensures
        (r is Stop) == (matches == 0),
        matches > 0 && current is Some && first <= current->0 <= last ==> {
            &&& forward ==> r is MoveNext
            &&& !forward ==> r is MovePrev
        },
        matches > 0 && (current is None || current->0 < first || current->0 > last) ==> {
            &&& r is SeekLine
            &&& first < total ==> r == JumpStep::SeekLine(first)
            &&& first >= total && total > 0 ==> r == JumpStep::SeekLine((total - 1) as u64)
        },
{
}

/// Where nothing is found ahead a jump goes on at the other end of the file, and says so.
pub proof fn law_jumps_go_round(
    forward: bool,
    found: bool,
    r: JumpStep,
    search: &mut SearchState,
    hit: HitPos,
    cursor: usize,
    total: usize,
    to: Option<u64>,
    place: String,
    count: String,
)
    requires
        call_ensures(jump_after_seek, (forward, found), r),
        call_ensures(jump_arrived, (search, r, Some(hit), cursor, total), to),
        cursor < u64::MAX,
        call_ensures(decimal_string, ((cursor + 1) as u64,), place),
        call_ensures(decimal_string, (total as u64,), count),
    ensures
        found && forward ==> r is TakeAnchored,
        found && !forward ==> r is MovePrev,
        !found && forward ==> r is WrapToFirst,
        !found && !forward ==> r is WrapToLast,
        to == Some(hit.byte),
        final(search).cursor == cursor,
        ({
            let tail = place@ + "/"@ + count@ + " 条匹配"@;
            &&& found ==> final(search).status@ == tail
            &&& !found && forward ==> final(search).status@ == "已到最后 · "@ + tail
            &&& !found && !forward ==> final(search).status@ == "已到头 · "@ + tail
        }),
        final(search).query == old(search).query,
{
    reveal_strlit("");
    let tail = place@ + "/"@ + count@ + " 条匹配"@;
    let note = jump_note(r);
    assert(cursor as nat + 1 == (cursor + 1) as u64);
    assert(note + place@ + "/"@ + count@ + " 条匹配"@ =~= note + tail);
    if found {
        assert(note + tail =~= tail);
    }
}

/// A window is never smaller than it may be, and keeps its size otherwise; its parts fill
/// it: the bar above, the text, the progress and the status line.
pub proof fn law_the_parts_fill_the_window(
    w: i32,
    h: i32,
    size: (i32, i32),
    with: (i32, i32, i32),
    without: (i32, i32, i32),
    first: u64,
    total: u64,
    line: u64,
)
    requires
        call_ensures(window_size, (w, h), size),
        h >= 420,
        call_ensures(window_parts, (h, true), with),
        call_ensures(window_parts, (h, false), without),
        call_ensures(entry_line, (first, total), line),
    ensures
        w >= 640 ==> size.0 == w,
        w < 640 ==> size.0 == 640,
        size.1 == h,
        with.0 == 38 && without.0 == 38,
        with.2 == h - 24 && without.2 == h - 24,
        without.1 == without.2,
        with.1 < with.2,
        with.0 < with.1,
        total > 0 ==> line < total,
        first < total ==> line == first,
        first >= total && total > 0 ==> line == total - 1,
        total == 0 ==> line == 0,
{
}

} // verus!
