//! What is open, selected, searched and remembered, and how each action changes
//! it.

use vstd::prelude::*;

use crate::macos::app::{
    copy_selection_or_line, cycle_theme, goto_line, is_named, page_down, page_up, poll_tasks,
    reachable, resubmits, update_hit_lines, CopyWhat, Flash, Poll, PollResult,
};
use crate::macos::bridge::Bridge;
use crate::macos::config::{put_first, AppConfig, GuiConfig, MAX_HISTORY, MAX_RECENT};
use crate::macos::selection::{Selection, TextPoint};
use crate::palettes::{theme_name_text, THEMES};
use crate::sorting::ascending;
use crate::text::views;

verus! {

broadcast use vstd::string::group_string_axioms;

/// An option that an action of the menus turns over.
#[derive(Clone, Copy, PartialEq, Eq, Structural, Debug)]
pub enum Toggle {
    LineNumbers,
    WordWrap,
    Whitespace,
    LevelColoring,
    IndentGuides,
    CaseSensitive,
    Regex,
    WholeWord,
}

impl Toggle {
    /// Whether the option changes what a search finds.
    pub open spec fn of_search(self) -> bool {
        self is CaseSensitive || self is Regex || self is WholeWord
    }

    /// The options with this one turned over.
    pub open spec fn turned(self, g: GuiConfig) -> GuiConfig {
        match self {
            Toggle::LineNumbers => GuiConfig { show_line_numbers: !g.show_line_numbers, ..g },
            Toggle::WordWrap => GuiConfig { word_wrap: !g.word_wrap, ..g },
            Toggle::Whitespace => GuiConfig { show_whitespace: !g.show_whitespace, ..g },
            Toggle::LevelColoring => GuiConfig { level_coloring: !g.level_coloring, ..g },
            Toggle::IndentGuides => GuiConfig { show_indent_guides: !g.show_indent_guides, ..g },
            Toggle::CaseSensitive => GuiConfig { case_sensitive: !g.case_sensitive, ..g },
            Toggle::Regex => GuiConfig { use_regex: !g.use_regex, ..g },
            Toggle::WholeWord => GuiConfig { whole_word: !g.whole_word, ..g },
        }
    }

    /// Turns the option over.
    pub fn turn(self, g: &mut GuiConfig)
        ensures
            *final(g) == self.turned(*old(g)),
    {
        match self {
            Toggle::LineNumbers => {
                g.show_line_numbers = !g.show_line_numbers;
            },
            Toggle::WordWrap => {
                g.word_wrap = !g.word_wrap;
            },
            Toggle::Whitespace => {
                g.show_whitespace = !g.show_whitespace;
            },
            Toggle::LevelColoring => {
                g.level_coloring = !g.level_coloring;
            },
            Toggle::IndentGuides => {
                g.show_indent_guides = !g.show_indent_guides;
            },
            Toggle::CaseSensitive => {
                g.case_sensitive = !g.case_sensitive;
            },
            Toggle::Regex => {
                g.use_regex = !g.use_regex;
            },
            Toggle::WholeWord => {
                g.whole_word = !g.whole_word;
            },
        }
    }

    /// Whether the option changes what a search finds.
    pub fn searches(self) -> (r: bool)
        ensures
            r == self.of_search(),
    {
        match self {
            Toggle::CaseSensitive => true,
            Toggle::Regex => true,
            Toggle::WholeWord => true,
            _ => false,
        }
    }
}

/// The state of the application.
pub struct App {
    pub bridge: Option<Bridge>,
    pub current_line: u64,
    pub selection: Selection,
    /// Lines that hold a match.
    pub hit_lines: Vec<u64>,
    pub search_active: bool,
    pub indexing_active: bool,
    pub status_flash: Option<Flash>,
    pub config: AppConfig,
}

/// `lines[i]` is a line that `line_of` gives for the match `hits[i]`.
pub open spec fn are_lines_of<F: Fn(u64) -> u64>(line_of: F, hits: Seq<u64>, lines: Seq<u64>) -> bool {
    &&& lines.len() == hits.len()
    &&& forall|i: int|
        0 <= i < hits.len() ==> call_ensures(line_of, (#[trigger] hits[i],), lines[i])
}

/// `marked` are the lines of the matches, in order, each once.
pub open spec fn are_hit_lines<F: Fn(u64) -> u64>(line_of: F, hits: Seq<u64>, marked: Seq<u64>) -> bool {
    &&& ascending(marked)
    &&& exists|lines: Seq<u64>| #[trigger]
        are_lines_of(line_of, hits, lines) && marked.to_set() == lines.to_set()
}

/// The lines of the matches, in order, each once.
fn mark_lines<F: Fn(u64) -> u64>(line_of: &F, hits: &Vec<u64>) -> (r: Vec<u64>)
    requires
        forall|b: u64| call_requires(line_of, (b,)),
    ensures
        are_hit_lines(*line_of, hits@, r@),
{
    let mut lines: Vec<u64> = Vec::new();
    let mut i: usize = 0;
    while i < hits.len()
        invariant
            i <= hits@.len(),
            lines@.len() == i,
            forall|b: u64| call_requires(line_of, (b,)),
            forall|k: int|
                0 <= k < i ==> call_ensures(*line_of, (#[trigger] hits@[k],), lines@[k]),
        decreases hits@.len() - i,
    {
        let line: u64 = (*line_of)(hits[i]);
        lines.push(line);
        i = i + 1;
    }
    assert(are_lines_of(*line_of, hits@, lines@));
    update_hit_lines(&lines)
}

impl App {
    /// The match that is gone to exists, the marked lines are in order, and with
    /// no file open there is nothing that is selected, marked or worked on.
    pub open spec fn wf(self) -> bool {
        &&& ascending(self.hit_lines@)
        &&& match self.bridge {
            Some(b) => b.wf(),
            None => !self.selection.active && self.hit_lines@.len() == 0 && !self.search_active
                && !self.indexing_active,
        }
    }

    /// Lines of the open file.
    pub open spec fn total(self) -> int {
        match self.bridge {
            Some(b) => b.line_count as int,
            None => 0,
        }
    }

    /// The current line after going to `line`.
    pub open spec fn line_after(self, line: int) -> int {
        match reachable(line, self.total()) {
            Some(n) => n,
            None => self.current_line as int,
        }
    }

    /// The match that is marked as gone to: the one at the cursor, while a
    /// search runs.
    pub fn shown_hit(&self) -> (r: Option<u64>)
        ensures
            r == match self.bridge {
                Some(b) if self.search_active && b.cursor < b.hits@.len() => Some(
                    b.hits@[b.cursor as int],
                ),
                _ => None,
            },
    {
        match &self.bridge {
            Some(b) => if self.search_active {
                b.hit_byte(b.cursor)
            } else {
                None
            },
            None => None,
        }
    }

    /// The state at the start.
    pub fn new(config: AppConfig) -> (r: Self)
        ensures
            r.wf(),
            r.bridge is None && r.current_line == 0 && r.status_flash is None,
            r.config == config,
    {
        App {
            bridge: None,
            current_line: 0,
            selection: Selection::empty(),
            hit_lines: Vec::new(),
            search_active: false,
            indexing_active: false,
            status_flash: None,
            config,
        }
    }

    pub fn total_lines(&self) -> (r: u64)
        ensures
            r == self.total(),
    {
        match &self.bridge {
            Some(b) => b.total_lines(),
            None => 0,
        }
    }

    /// Takes in the file that was opened at `path`, `None` where that failed. The
    /// one that was open before is closed either way.
    pub fn open_path(&mut self, path: String, opened: Option<Bridge>)
        requires
            old(self).wf(),
            opened is Some ==> opened->0.wf(),
        ensures
            final(self).wf(),
            final(self).bridge == opened,
            final(self).hit_lines@.len() == 0,
            !final(self).search_active && !final(self).selection.active,
            final(self).status_flash == old(self).status_flash,
            match opened {
                Some(b) => {
                    &&& final(self).current_line == 0
                    &&& final(self).indexing_active == b.bg_indexing
                    &&& views(final(self).config.recent_files@) == put_first(
                        views(old(self).config.recent_files@),
                        path@,
                        MAX_RECENT as nat,
                    )
                    &&& final(self).config.gui == old(self).config.gui
                    &&& final(self).config.version == old(self).config.version
                    &&& final(self).config.index_dir == old(self).config.index_dir
                    &&& final(self).config.search_history == old(self).config.search_history
                },
                None => {
                    &&& !final(self).indexing_active
                    &&& final(self).current_line == old(self).current_line
                    &&& final(self).config == old(self).config
                },
            },
    {
        self.close_file();
        match opened {
            Some(b) => {
                self.indexing_active = b.indexing_active();
                self.bridge = Some(b);
                self.current_line = 0;
                self.config.add_recent(path);
            },
            None => {},
        }
    }

    /// Closes the file.
    pub fn close_file(&mut self)
        ensures
            final(self).wf(),
            final(self).bridge is None,
            final(self).current_line == old(self).current_line,
            final(self).status_flash == old(self).status_flash,
            final(self).config == old(self).config,
    {
        self.bridge = None;
        self.selection.clear();
        self.hit_lines = Vec::new();
        self.search_active = false;
        self.indexing_active = false;
    }

    /// Goes to a line. Returns whether there is one to go to.
    pub fn goto_line(&mut self, line: u64) -> (r: bool)
        ensures
            r == (old(self).total() > 0),
            *final(self) == (App {
                current_line: old(self).line_after(line as int) as u64,
                ..*old(self)
            }),
    {
        match goto_line(line, self.total_lines()) {
            Some(n) => {
                self.current_line = n;
                true
            },
            None => false,
        }
    }

    /// Goes to the first line.
    pub fn goto_top(&mut self) -> (r: bool)
        ensures
            r == (old(self).total() > 0),
            *final(self) == (App {
                current_line: old(self).line_after(0) as u64,
                ..*old(self)
            }),
    {
        self.goto_line(0)
    }

    /// Goes to the last line.
    pub fn goto_end(&mut self) -> (r: bool)
        ensures
            r == (old(self).total() > 0),
            *final(self) == (App {
                current_line: if old(self).total() > 0 {
                    (old(self).total() - 1) as u64
                } else {
                    old(self).current_line
                },
                ..*old(self)
            }),
    {
        let total: u64 = self.total_lines();
        self.goto_line(total)
    }

    /// Goes a page of `step` lines up, at least one.
    pub fn page_up(&mut self, step: u64) -> (r: bool)
        ensures
            r == (old(self).total() > 0),
            *final(self) == (App {
                current_line: old(self).line_after(
                    if old(self).current_line >= at_least_one(step) {
                        old(self).current_line - at_least_one(step)
                    } else {
                        0
                    },
                ) as u64,
                ..*old(self)
            }),
    {
        match page_up(self.current_line, step, self.total_lines()) {
            Some(n) => {
                self.current_line = n;
                true
            },
            None => false,
        }
    }

    /// Goes a page of `step` lines down, at least one.
    pub fn page_down(&mut self, step: u64) -> (r: bool)
        ensures
            r == (old(self).total() > 0),
            *final(self) == (App {
                current_line: old(self).line_after(
                    old(self).current_line + at_least_one(step),
                ) as u64,
                ..*old(self)
            }),
    {
        match page_down(self.current_line, step, self.total_lines()) {
            Some(n) => {
                self.current_line = n;
                true
            },
            None => false,
        }
    }

    /// Takes in that a search for `q` was started, `false` where that failed.
    /// With no file open nothing is searched.
    pub fn submit_search(&mut self, q: String, started: bool)
        requires
            old(self).wf(),
        ensures
            final(self).wf(),
            final(self).current_line == old(self).current_line,
            final(self).selection == old(self).selection,
            final(self).hit_lines == old(self).hit_lines,
            final(self).indexing_active == old(self).indexing_active,
            final(self).status_flash == old(self).status_flash,
            if old(self).bridge is Some && started {
                &&& final(self).search_active
                &&& final(self).bridge is Some
                &&& final(self).bridge->0.last_query@ == q@
                &&& final(self).bridge->0 == (Bridge {
                    last_query: final(self).bridge->0.last_query,
                    cursor: 0,
                    ..old(self).bridge->0
                })
                &&& views(final(self).config.search_history@) == put_first(
                    views(old(self).config.search_history@),
                    q@,
                    MAX_HISTORY as nat,
                )
                &&& final(self).config.gui == old(self).config.gui
                &&& final(self).config.version == old(self).config.version
                &&& final(self).config.index_dir == old(self).config.index_dir
                &&& final(self).config.recent_files == old(self).config.recent_files
            } else {
                *final(self) == *old(self)
            },
    {
        if !started {
            return ;
        }
        match self.bridge.take() {
            Some(b) => {
                let mut b: Bridge = b;
                b.search_submitted(q.as_str().to_owned());
                self.bridge = Some(b);
                self.search_active = true;
                self.config.add_search_history(q);
            },
            None => {},
        }
    }

    /// What is marked after the matches changed.
    pub fn update_hit_lines<F: Fn(u64) -> u64>(&mut self, line_of: &F)
        requires
            forall|b: u64| call_requires(line_of, (b,)),
        ensures
            *final(self) == (App { hit_lines: final(self).hit_lines, ..*old(self) }),
            ascending(final(self).hit_lines@),
            match old(self).bridge {
                Some(b) => are_hit_lines(*line_of, b.hits@, final(self).hit_lines@),
                None => final(self).hit_lines@.len() == 0,
            },
    {
        self.hit_lines = match &self.bridge {
            Some(b) => mark_lines(line_of, &b.hits),
            None => Vec::new(),
        };
    }

    /// Where the next match leads: the state behind the move of the cursor to
    /// `place`, at a line that `line_of` gives for the match there.
    pub open spec fn is_at_match<F: Fn(u64) -> u64>(self, before: App, line_of: F, place: int) -> bool {
        &&& before.bridge is Some
        &&& self.bridge == Some(Bridge { cursor: place as usize, ..before.bridge->0 })
        &&& self == (App {
            bridge: self.bridge,
            current_line: self.current_line,
            hit_lines: self.hit_lines,
            ..before
        })
        &&& exists|line: u64| #[trigger]
            call_ensures(line_of, (before.bridge->0.hits@[place],), line) && self.current_line
                == before.line_after(line as int)
        &&& are_hit_lines(line_of, before.bridge->0.hits@, self.hit_lines@)
    }

    /// Goes to the next match. Returns whether there is one.
    pub fn search_next<F: Fn(u64) -> u64>(&mut self, line_of: &F) -> (r: bool)
        requires
            old(self).wf(),
            forall|b: u64| call_requires(line_of, (b,)),
        ensures
            final(self).wf(),
            r == (old(self).bridge is Some && old(self).bridge->0.hits@.len() > 0),
            if r {
                final(self).is_at_match(*old(self), *line_of, old(self).bridge->0.place_after())
            } else {
                *final(self) == *old(self)
            },
    {
        match self.bridge.take() {
            Some(b) => {
                let mut b: Bridge = b;
                let found: Option<u64> = b.search_next();
                self.bridge = Some(b);
                match found {
                    Some(byte) => {
                        let line: u64 = (*line_of)(byte);
                        self.goto_line(line);
                        self.update_hit_lines(line_of);
                        true
                    },
                    None => false,
                }
            },
            None => false,
        }
    }

    /// Goes to the match before. Returns whether there is one.
    pub fn search_prev<F: Fn(u64) -> u64>(&mut self, line_of: &F) -> (r: bool)
        requires
            old(self).wf(),
            forall|b: u64| call_requires(line_of, (b,)),
        ensures
            final(self).wf(),
            r == (old(self).bridge is Some && old(self).bridge->0.hits@.len() > 0),
            if r {
                final(self).is_at_match(*old(self), *line_of, old(self).bridge->0.place_before())
            } else {
                *final(self) == *old(self)
            },
    {
        match self.bridge.take() {
            Some(b) => {
                let mut b: Bridge = b;
                let found: Option<u64> = b.search_prev();
                self.bridge = Some(b);
                match found {
                    Some(byte) => {
                        let line: u64 = (*line_of)(byte);
                        self.goto_line(line);
                        self.update_hit_lines(line_of);
                        true
                    },
                    None => false,
                }
            },
            None => false,
        }
    }

    /// Forgets the search.
    pub fn cancel_search(&mut self)
        requires
            old(self).wf(),
        ensures
            final(self).wf(),
            !final(self).search_active && final(self).hit_lines@.len() == 0,
            final(self).current_line == old(self).current_line,
            final(self).selection == old(self).selection,
            final(self).indexing_active == old(self).indexing_active,
            final(self).status_flash == old(self).status_flash,
            final(self).config == old(self).config,
            match old(self).bridge {
                Some(b) => {
                    &&& final(self).bridge is Some
                    &&& final(self).bridge->0.hits@.len() == 0
                    &&& final(self).bridge->0.last_query@.len() == 0
                    &&& final(self).bridge->0.path == b.path
                    &&& final(self).bridge->0.size == b.size
                    &&& final(self).bridge->0.line_count == b.line_count
                    &&& final(self).bridge->0.bg_indexing == b.bg_indexing
                },
                None => final(self).bridge is None,
            },
    {
        match self.bridge.take() {
            Some(b) => {
                let mut b: Bridge = b;
                b.cancel_search();
                self.bridge = Some(b);
            },
            None => {},
        }
        self.search_active = false;
        self.hit_lines = Vec::new();
    }

    /// Forgets the search and stops waiting for the index.
    pub fn cancel_tasks(&mut self)
        requires
            old(self).wf(),
        ensures
            final(self).wf(),
            !final(self).is_busy(),
            final(self).hit_lines@.len() == 0,
            final(self).current_line == old(self).current_line,
            final(self).selection == old(self).selection,
            final(self).status_flash == old(self).status_flash,
            final(self).config == old(self).config,
            match old(self).bridge {
                Some(b) => {
                    &&& final(self).bridge is Some
                    &&& final(self).bridge->0.hits@.len() == 0
                    &&& final(self).bridge->0.last_query@.len() == 0
                    &&& final(self).bridge->0.path == b.path
                    &&& final(self).bridge->0.size == b.size
                    &&& final(self).bridge->0.line_count == b.line_count
                    &&& final(self).bridge->0.bg_indexing == b.bg_indexing
                },
                None => final(self).bridge is None,
            },
    {
        self.cancel_search();
        self.indexing_active = false;
    }

    /// Takes in what the background work has brought: the number of lines once
    /// the index is done, the matches once the search is.
    pub fn poll_tasks<F: Fn(u64) -> u64>(
        &mut self,
        lines: Option<u64>,
        found: Option<Vec<u64>>,
        line_of: &F,
    ) -> (r: PollResult)
        requires
            old(self).wf(),
            forall|b: u64| call_requires(line_of, (b,)),
        ensures
            final(self).wf(),
            final(self).current_line == old(self).current_line,
            final(self).selection == old(self).selection,
            final(self).config == old(self).config,
            final(self).bridge is Some == old(self).bridge is Some,
            r.index_finished == (old(self).bridge is Some && lines is Some),
            r.search_finished == (old(self).bridge is Some && found is Some),
            final(self).indexing_active == (old(self).indexing_active && !r.index_finished),
            final(self).search_active == (old(self).search_active && !r.search_finished),
            match old(self).bridge {
                Some(b) => {
                    &&& final(self).bridge->0 == (Bridge {
                        line_count: if lines is Some {
                            lines->0
                        } else {
                            b.line_count
                        },
                        bg_indexing: b.bg_indexing && lines is None,
                        hits: if found is Some {
                            found->0
                        } else {
                            b.hits
                        },
                        cursor: if found is Some {
                            0
                        } else {
                            b.cursor
                        },
                        ..b
                    })
                    &&& r.changed == (lines is Some || b.bg_indexing || found is Some)
                },
                None => !r.changed,
            },
            if r.changed {
                are_hit_lines(*line_of, final(self).bridge->0.hits@, final(self).hit_lines@)
            } else {
                final(self).hit_lines == old(self).hit_lines
            },
            r.flash is None ==> final(self).status_flash == old(self).status_flash,
            r.flash is Some ==> final(self).status_flash is Some
                && final(self).status_flash->0.text@ == r.flash->0.text@
                && final(self).status_flash->0.millis == r.flash->0.millis,
            match r.flash {
                Some(f) => if r.search_finished && found->0@.len() > 0 {
                    f.text@ == "找到 "@ + crate::decimal::decimal(found->0@.len()) + " 条匹配"@
                        && f.millis == 3000
                } else if r.search_finished {
                    f.text@ == "未找到匹配"@ && f.millis == 2500
                } else {
                    r.index_finished && f.text@ == "索引完成"@ && f.millis == 2500
                },
                None => !r.search_finished && !r.index_finished,
            },
    {
        let mut poll: Poll = Poll {
            file_open: false,
            index_done: lines.is_some(),
            indexing: false,
            hits_before: 0,
            search_done: found.is_some(),
            hits: 0,
        };
        match self.bridge.take() {
            Some(b) => {
                let mut b: Bridge = b;
                poll.file_open = true;
                b.poll_index(lines);
                poll.indexing = b.indexing_active();
                poll.hits_before = b.hits.len();
                b.poll_search(found);
                poll.hits = b.hits.len();
                self.bridge = Some(b);
            },
            None => {},
        }
        let r: PollResult = poll_tasks(&poll);
        if r.index_finished {
            self.indexing_active = false;
        }
        if r.search_finished {
            self.search_active = false;
        }
        match &r.flash {
            Some(f) => {
                self.status_flash = Some(
                    Flash { text: f.text.as_str().to_owned(), millis: f.millis },
                );
            },
            None => {},
        }
        if r.changed {
            self.update_hit_lines(line_of);
        }
        r
    }

    /// Selects every line of the open file, the last of `last_len` bytes.
    /// Returns whether there is one.
    pub fn select_all_lines(&mut self, last_len: usize) -> (r: bool)
        requires
            old(self).wf(),
        ensures
            final(self).wf(),
            r == (old(self).total() > 0),
            *final(self) == if r {
                App {
                    selection: Selection {
                        anchor: TextPoint { line: 0, byte: 0 },
                        focus: TextPoint { line: (old(self).total() - 1) as u64, byte: last_len },
                        active: true,
                    },
                    ..*old(self)
                }
            } else {
                *old(self)
            },
    {
        let total: u64 = self.total_lines();
        if total == 0 {
            return false;
        }
        self.selection = Selection {
            anchor: TextPoint { line: 0, byte: 0 },
            focus: TextPoint { line: total - 1, byte: last_len },
            active: true,
        };
        true
    }

    /// Drops the selection. Returns whether there was one.
    pub fn clear_selection(&mut self) -> (r: bool)
        requires
            old(self).wf(),
        ensures
            final(self).wf(),
            r == old(self).selection.active,
            *final(self) == (App {
                selection: Selection { active: false, ..old(self).selection },
                ..*old(self)
            }),
    {
        let was: bool = self.selection.active;
        self.selection.clear();
        was
    }

    /// What is copied.
    pub fn copy_selection_or_line(&self) -> (r: CopyWhat)
        ensures
            r == if self.selection.active && self.selection.anchor != self.selection.focus {
                CopyWhat::Selection
            } else if self.bridge is None {
                CopyWhat::Nothing
            } else if self.total() == 0 {
                CopyWhat::Line(0)
            } else if self.current_line < self.total() {
                CopyWhat::Line(self.current_line)
            } else {
                CopyWhat::Line((self.total() - 1) as u64)
            },
    {
        copy_selection_or_line(
            &self.selection,
            self.bridge.is_some(),
            self.current_line,
            self.total_lines(),
        )
    }

    /// Shows a message for a while.
    pub fn flash_status(&mut self, text: String, millis: u32)
        ensures
            *final(self) == (App {
                status_flash: Some(Flash { text, millis }),
                ..*old(self)
            }),
    {
        self.status_flash = Some(Flash { text, millis });
    }

    /// Drops a message that was shown for `elapsed` milliseconds, once that is
    /// as long as it was meant to be.
    pub fn expire_flash(&mut self, elapsed: u64)
        ensures
            *final(self) == if old(self).status_flash is Some && elapsed
                >= old(self).status_flash->0.millis {
                App { status_flash: None, ..*old(self) }
            } else {
                *old(self)
            },
    {
        let over: bool = match &self.status_flash {
            Some(f) => elapsed >= f.millis as u64,
            None => false,
        };
        if over {
            self.status_flash = None;
        }
    }

    /// Something goes on in the background.
    pub open spec fn is_busy(self) -> bool {
        self.indexing_active || self.search_active
    }

    /// Whether the progress bar and what stops the work are shown.
    pub fn busy(&self) -> (r: bool)
        ensures
            r == self.is_busy(),
    {
        self.indexing_active || self.search_active
    }

    /// Chooses a theme.
    pub fn apply_theme(&mut self, name: String)
        ensures
            *final(self) == (App {
                config: AppConfig {
                    gui: GuiConfig { theme: name, ..old(self).config.gui },
                    ..old(self).config
                },
                ..*old(self)
            }),
    {
        self.config.gui.theme = name;
    }

    /// Chooses the theme behind the present one; the second where the present one
    /// is not built in.
    pub fn cycle_theme(&mut self)
        ensures
            *final(self) == (App {
                config: AppConfig {
                    gui: GuiConfig {
                        theme: final(self).config.gui.theme,
                        ..old(self).config.gui
                    },
                    ..old(self).config
                },
                ..*old(self)
            }),
            forall|k: int| #[trigger]
                is_named(old(self).config.gui.theme@, k) ==> final(self).config.gui.theme@
                    == theme_name_text((k + 1) % THEMES as int),
            (forall|k: int|
                0 <= k < THEMES ==> #[trigger] theme_name_text(k) != old(self).config.gui.theme@)
                ==> final(self).config.gui.theme@ == theme_name_text(1),
    {
        let next: String = cycle_theme(self.config.gui.theme.as_str()).to_owned();
        self.apply_theme(next);
    }

    /// The state with an option turned over.
    pub open spec fn with(self, what: Toggle) -> App {
        App {
            config: AppConfig { gui: what.turned(self.config.gui), ..self.config },
            ..self
        }
    }

    /// Something was searched for in the open file.
    pub open spec fn has_query(self) -> bool {
        self.bridge is Some && self.bridge->0.last_query@.len() > 0
    }

    /// Turns an option over. Returns whether the last search is made anew.
    pub fn toggle(&mut self, what: Toggle) -> (r: bool)
        ensures
            *final(self) == old(self).with(what),
            r == (what.of_search() && old(self).has_query()),
    {
        what.turn(&mut self.config.gui);
        match &self.bridge {
            Some(b) => what.searches() && resubmits(b.last_query.as_str()),
            None => false,
        }
    }

    /// Shows or hides the line numbers.
    pub fn toggle_line_numbers(&mut self)
        ensures
            *final(self) == old(self).with(Toggle::LineNumbers),
    {
        self.toggle(Toggle::LineNumbers);
    }

    /// Turns the wrapping of lines on or off.
    pub fn toggle_word_wrap(&mut self)
        ensures
            *final(self) == old(self).with(Toggle::WordWrap),
    {
        self.toggle(Toggle::WordWrap);
    }

    /// Shows or hides the marks of white space.
    pub fn toggle_whitespace(&mut self)
        ensures
            *final(self) == old(self).with(Toggle::Whitespace),
    {
        self.toggle(Toggle::Whitespace);
    }

    /// Turns the colouring by level on or off.
    pub fn toggle_level_coloring(&mut self)
        ensures
            *final(self) == old(self).with(Toggle::LevelColoring),
    {
        self.toggle(Toggle::LevelColoring);
    }

    /// Shows or hides the indent guides.
    pub fn toggle_indent_guides(&mut self)
        ensures
            *final(self) == old(self).with(Toggle::IndentGuides),
    {
        self.toggle(Toggle::IndentGuides);
    }

    /// Turns the distinction of upper and lower case on or off. Returns whether the
    /// last search is made anew.
    pub fn toggle_case_sensitive(&mut self) -> (r: bool)
        ensures
            *final(self) == old(self).with(Toggle::CaseSensitive),
            r == old(self).has_query(),
    {
        self.toggle(Toggle::CaseSensitive)
    }

    /// Turns searching for patterns on or off. Returns whether the
    /// last search is made anew.
    pub fn toggle_regex(&mut self) -> (r: bool)
        ensures
            *final(self) == old(self).with(Toggle::Regex),
            r == old(self).has_query(),
    {
        self.toggle(Toggle::Regex)
    }

    /// Turns searching for whole words on or off. Returns whether the
    /// last search is made anew.
    pub fn toggle_whole_word(&mut self) -> (r: bool)
        ensures
            *final(self) == old(self).with(Toggle::WholeWord),
            r == old(self).has_query(),
    {
        self.toggle(Toggle::WholeWord)
    }
}

/// A page of no lines is taken as one of one line.
pub open spec fn at_least_one(step: u64) -> int {
    if step >= 1 {
        step as int
    } else {
        1
    }
}

/// Turning an option over twice changes nothing.
pub proof fn law_toggling_twice(what: Toggle, g: GuiConfig)
    ensures
        what.turned(what.turned(g)) == g,
{
}

/// The line that is gone to exists, whatever was asked for.
pub proof fn law_current_line_exists(app: App, line: int)
    requires
        app.total() > 0,
        line >= 0,
    ensures
        0 <= app.line_after(line) < app.total(),
        line < app.total() ==> app.line_after(line) == line,
{
}

/// Going on in a search goes to the line of the next match, and going back to that of the
/// one before; the lines with matches are marked.
pub proof fn law_searching_goes_to_the_matches<F: Fn(u64) -> u64>(
    a: &mut App,
    line_of: &F,
    lines: spec_fn(u64) -> u64,
    next: bool,
    b: &mut App,
    prev: bool,
    row: u64,
)
    requires
        call_ensures(App::search_next::<F>, (a, line_of), next),
        call_ensures(App::search_prev::<F>, (b, line_of), prev),
        *old(a) == *old(b),
        old(a).wf(),
        old(a).bridge is Some,
        old(a).bridge->0.hits@.len() > 0,
        forall|byte: u64, l: u64| #[trigger] call_ensures(*line_of, (byte,), l) ==> l == lines(byte),
        forall|i: int|
            0 <= i < old(a).bridge->0.hits@.len() ==> lines(#[trigger] old(a).bridge->0.hits@[i])
                < old(a).bridge->0.line_count,
    ensures
        ({
            let hits = old(a).bridge->0.hits@;
            let c = old(a).bridge->0.cursor as int;
            let n = hits.len() as int;
            let on = if c + 1 < n {
                c + 1
            } else {
                0
            };
            let back = if c > 0 {
                c - 1
            } else {
                n - 1
            };
            &&& next && prev
            &&& final(a).current_line == lines(hits[on])
            &&& final(a).bridge->0.cursor == on
            &&& final(b).current_line == lines(hits[back])
            &&& final(b).bridge->0.cursor == back
            &&& final(a).hit_lines@.contains(row) == exists|i: int|
                0 <= i < n && lines(#[trigger] hits[i]) == row
            &&& final(a).selection == old(a).selection
        }),
{
    let bridge = old(a).bridge->0;
    let hits = bridge.hits@;
    let n = hits.len() as int;
    let c = bridge.cursor + 1;
    assert(n == bridge.hits.len());
    if c < n {
        vstd::arithmetic::div_mod::lemma_small_mod(c as nat, n as nat);
    } else {
        vstd::arithmetic::div_mod::lemma_mod_self_0(n);
    }
    assert(final(a).is_at_match(*old(a), *line_of, bridge.place_after()));
    assert(final(b).is_at_match(*old(b), *line_of, bridge.place_before()));
    assert(lines(hits[bridge.place_after()]) < bridge.line_count);
    assert(lines(hits[bridge.place_before()]) < bridge.line_count);
    let marked = final(a).hit_lines@;
    let found = choose|found: Seq<u64>| #[trigger]
        are_lines_of(*line_of, hits, found) && marked.to_set() == found.to_set();
    assert(marked.contains(row) == marked.to_set().contains(row));
    assert(found.contains(row) == found.to_set().contains(row));
    assert forall|i: int| 0 <= i < n implies found[i] == lines(#[trigger] hits[i]) by {
        assert(call_ensures(*line_of, (hits[i],), found[i]));
    }
    if found.contains(row) {
        let i = found.index_of(row);
        assert(lines(hits[i]) == row);
    }
    if exists|i: int| 0 <= i < n && lines(#[trigger] hits[i]) == row {
        let i = choose|i: int| 0 <= i < n && lines(#[trigger] hits[i]) == row;
        assert(found[i] == row);
    }
}

/// Keys move through the lines: to the first, to the last, to one that is named and by
/// pages, and never beyond the ends.
pub proof fn law_lines_are_gone_to(
    a: &mut App,
    b: &mut App,
    c: &mut App,
    d: &mut App,
    e: &mut App,
    line: u64,
    step: u64,
    ra: bool,
    rb: bool,
    rc: bool,
    rd: bool,
    re: bool,
)
    requires
        call_ensures(App::goto_top, (a,), ra),
        call_ensures(App::goto_end, (b,), rb),
        call_ensures(App::goto_line, (c, line), rc),
        call_ensures(App::page_up, (d, step), rd),
        call_ensures(App::page_down, (e, step), re),
        *old(b) == *old(a) && *old(c) == *old(a) && *old(d) == *old(a) && *old(e) == *old(a),
        old(a).bridge is Some,
        old(a).current_line < old(a).bridge->0.line_count,
        step >= 1,
    ensures
        ({
            let n = old(a).bridge->0.line_count as int;
            let at = old(a).current_line as int;
            &&& ra && rb && rc && rd && re
            &&& final(a).current_line == 0
            &&& final(b).current_line == n - 1
            &&& line < n ==> final(c).current_line == line
            &&& line >= n ==> final(c).current_line == n - 1
            &&& at >= step ==> final(d).current_line == at - step
            &&& at < step ==> final(d).current_line == 0
            &&& at + step < n ==> final(e).current_line == at + step
            &&& at + step >= n ==> final(e).current_line == n - 1
            &&& final(a).selection == old(a).selection && final(a).bridge == old(a).bridge
        }),
{
}

/// A file that is opened is shown from its start, without a search and without a
/// selection, and stands first among the recent ones.
pub proof fn law_opened_files_start_afresh(a: &mut App, path: String, b: Bridge, done: (), n: u64)
    requires
        call_ensures(App::open_path, (a, path, Some(b)), done),
        call_ensures(App::total_lines, (&*final(a),), n),
    ensures
        final(a).bridge == Some(b),
        final(a).current_line == 0,
        !final(a).search_active,
        !final(a).selection.active,
        final(a).hit_lines@.len() == 0,
        final(a).config.recent_files@.len() > 0,
        final(a).config.recent_files@[0]@ == path@,
        n == b.line_count,
        final(a).config.gui == old(a).config.gui,
{
    assert(put_first(views(old(a).config.recent_files@), path@, MAX_RECENT as nat)[0] == path@);
    assert(views(final(a).config.recent_files@).len() > 0);
}

/// Where a file cannot be opened nothing is open, and the configuration stays; a file that
/// is closed leaves nothing behind.
pub proof fn law_closed_files_leave_nothing(a: &mut App, path: String, done: (), b: &mut App, closed: ())
    requires
        call_ensures(App::open_path, (a, path, None), done),
        call_ensures(App::close_file, (b,), closed),
    ensures
        final(a).bridge is None && final(a).config == old(a).config,
        final(b).bridge is None && final(b).config == old(b).config,
        !final(b).selection.active && final(b).hit_lines@.len() == 0 && !final(b).search_active
            && !final(b).indexing_active,
{
}

/// A query that is submitted is searched and stands first in the history; without a file
/// or where the search did not start nothing happens.
pub proof fn law_queries_are_submitted(
    a: &mut App,
    q: String,
    started: bool,
    done: (),
)
    requires
        call_ensures(App::submit_search, (a, q, started), done),
    ensures
        old(a).bridge is Some && started ==> {
            &&& final(a).search_active
            &&& final(a).bridge->0.last_query@ == q@
            &&& final(a).bridge->0.cursor == 0
            &&& final(a).config.search_history@.len() > 0
            &&& final(a).config.search_history@[0]@ == q@
            &&& final(a).config.recent_files == old(a).config.recent_files
        },
        old(a).bridge is None || !started ==> *final(a) == *old(a),
{
    if old(a).bridge is Some && started {
        assert(put_first(views(old(a).config.search_history@), q@, MAX_HISTORY as nat)[0] == q@);
        assert(views(final(a).config.search_history@).len() > 0);
    }
}

/// A search that is cancelled leaves no match and no mark, and everything else as it was.
pub proof fn law_cancelled_searches_leave_no_mark(a: &mut App, done: (), b: &mut App, all: (), busy: bool)
    requires
        call_ensures(App::cancel_search, (a,), done),
        call_ensures(App::cancel_tasks, (b,), all),
        call_ensures(App::busy, (&*final(b),), busy),
        old(a).bridge is Some,
        old(b).bridge is Some,
    ensures
        !final(a).search_active,
        final(a).hit_lines@.len() == 0,
        final(a).bridge is Some && final(a).bridge->0.hits@.len() == 0,
        final(a).bridge->0.path == old(a).bridge->0.path,
        final(a).current_line == old(a).current_line,
        final(a).selection == old(a).selection,
        !busy,
        !final(b).search_active && !final(b).indexing_active,
        final(b).current_line == old(b).current_line,
{
}

/// What the background work has brought is shown: the matches, the first of which is gone
/// to, and the number of lines.
pub proof fn law_background_work_arrives<F: Fn(u64) -> u64>(
    a: &mut App,
    lines: Option<u64>,
    found: Option<Vec<u64>>,
    line_of: &F,
    r: PollResult,
)
    requires
        call_ensures(App::poll_tasks::<F>, (a, lines, found, line_of), r),
        old(a).bridge is Some,
    ensures
        final(a).bridge is Some,
        found is Some ==> final(a).bridge->0.hits == found->0 && final(a).bridge->0.cursor == 0
            && !final(a).search_active && r.search_finished,
        found is None ==> final(a).bridge->0.hits == old(a).bridge->0.hits && final(
            a).bridge->0.cursor == old(a).bridge->0.cursor && final(a).search_active == old(
            a).search_active,
        lines is Some ==> final(a).bridge->0.line_count == lines->0 && !final(a).indexing_active
            && r.index_finished,
        lines is None ==> final(a).bridge->0.line_count == old(a).bridge->0.line_count,
        final(a).current_line == old(a).current_line,
        found is Some && found->0@.len() == 0 ==> final(a).status_flash is Some && final(
            a).status_flash->0.text@ == "未找到匹配"@,
{
}

/// All lines can be selected, from the first character to the last, and a selection can be
/// cleared.
pub proof fn law_all_lines_can_be_selected(a: &mut App, last_len: usize, r: bool, b: &mut App, was: bool)
    requires
        call_ensures(App::select_all_lines, (a, last_len), r),
        call_ensures(App::clear_selection, (b,), was),
    ensures
        r == (old(a).bridge is Some && old(a).bridge->0.line_count > 0),
        r ==> {
            &&& final(a).selection.active
            &&& final(a).selection.anchor.line == 0 && final(a).selection.anchor.byte == 0
            &&& final(a).selection.focus.line + 1 == old(a).bridge->0.line_count
            &&& final(a).selection.focus.byte == last_len
        },
        !final(b).selection.active,
        was == old(b).selection.active,
        final(a).current_line == old(a).current_line,
{
}

/// A message is shown for its time and then goes.
pub proof fn law_messages_go_after_their_time(
    a: &mut App,
    text: String,
    millis: u32,
    shown: (),
    b: &mut App,
    elapsed: u64,
    expired: (),
)
    requires
        call_ensures(App::flash_status, (a, text, millis), shown),
        *old(b) == *final(a),
        call_ensures(App::expire_flash, (b, elapsed), expired),
    ensures
        final(a).status_flash == Some(Flash { text, millis }),
        elapsed < millis ==> final(b).status_flash == final(a).status_flash,
        elapsed >= millis ==> final(b).status_flash is None,
        final(b).current_line == old(a).current_line,
{
}

/// The match that the search stands on is the one that is shown, while it runs.
pub proof fn law_the_match_that_is_shown(a: &App, r: Option<u64>)
    requires
        call_ensures(App::shown_hit, (a,), r),
        a.wf(),
        a.bridge is Some,
        a.bridge->0.hits@.len() > 0,
    ensures
        a.search_active ==> r == Some(a.bridge->0.hits@[a.bridge->0.cursor as int]),
        !a.search_active ==> r is None,
{
}

/// Each switch turns its own option and leaves the others as they are.
pub proof fn law_switches_turn_their_option(g: &mut GuiConfig, what: Toggle, done: (), searches: bool)
    requires
        call_ensures(Toggle::turn, (what, g), done),
        call_ensures(Toggle::searches, (what,), searches),
    ensures
        (final(g).show_line_numbers != old(g).show_line_numbers) == (what is LineNumbers),
        (final(g).word_wrap != old(g).word_wrap) == (what is WordWrap),
        (final(g).show_whitespace != old(g).show_whitespace) == (what is Whitespace),
        (final(g).level_coloring != old(g).level_coloring) == (what is LevelColoring),
        (final(g).show_indent_guides != old(g).show_indent_guides) == (what is IndentGuides),
        (final(g).case_sensitive != old(g).case_sensitive) == (what is CaseSensitive),
        (final(g).use_regex != old(g).use_regex) == (what is Regex),
        (final(g).whole_word != old(g).whole_word) == (what is WholeWord),
        final(g).theme == old(g).theme && final(g).font_size == old(g).font_size,
        searches == (what is CaseSensitive || what is Regex || what is WholeWord),
{
}

/// The switches of the menus turn the options that they name.
pub proof fn law_menu_switches_turn_their_option(
    a: &mut App,
    b: &mut App,
    c: &mut App,
    d: &mut App,
    e: &mut App,
    f: &mut App,
    g: &mut App,
    h: &mut App,
    u: (),
    rf: bool,
    rg: bool,
    rh: bool,
)
    requires
        call_ensures(App::toggle_line_numbers, (a,), u),
        call_ensures(App::toggle_word_wrap, (b,), u),
        call_ensures(App::toggle_whitespace, (c,), u),
        call_ensures(App::toggle_level_coloring, (d,), u),
        call_ensures(App::toggle_indent_guides, (e,), u),
        call_ensures(App::toggle_case_sensitive, (f,), rf),
        call_ensures(App::toggle_regex, (g,), rg),
        call_ensures(App::toggle_whole_word, (h,), rh),
    ensures
        final(a).config.gui.show_line_numbers == !old(a).config.gui.show_line_numbers,
        final(b).config.gui.word_wrap == !old(b).config.gui.word_wrap,
        final(c).config.gui.show_whitespace == !old(c).config.gui.show_whitespace,
        final(d).config.gui.level_coloring == !old(d).config.gui.level_coloring,
        final(e).config.gui.show_indent_guides == !old(e).config.gui.show_indent_guides,
        final(f).config.gui.case_sensitive == !old(f).config.gui.case_sensitive,
        final(g).config.gui.use_regex == !old(g).config.gui.use_regex,
        final(h).config.gui.whole_word == !old(h).config.gui.whole_word,
        old(f).bridge is None ==> !rf,
        old(f).bridge is Some ==> rf == (old(f).bridge->0.last_query@.len() > 0),
        old(g).bridge is Some ==> rg == (old(g).bridge->0.last_query@.len() > 0),
        old(h).bridge is Some ==> rh == (old(h).bridge->0.last_query@.len() > 0),
        final(a).bridge == old(a).bridge && final(b).bridge == old(b).bridge,
{
}

/// A theme that is chosen is stored, and going on takes the theme behind the current one.
pub proof fn law_themes_are_stored(
    a: &mut App,
    name: String,
    done: (),
    b: &mut App,
    cycled: (),
    i: usize,
    current: &'static str,
    next: &'static str,
)
    requires
        call_ensures(App::apply_theme, (a, name), done),
        call_ensures(App::cycle_theme, (b,), cycled),
        i < 6,
        call_ensures(crate::palettes::theme_name, (i,), current),
        call_ensures(crate::palettes::theme_name, ((if i == 5 { 0 } else { i + 1 }) as usize,), next),
        old(b).config.gui.theme@ == current@,
    ensures
        final(a).config.gui.theme@ == name@,
        final(a).config.gui.word_wrap == old(a).config.gui.word_wrap,
        final(b).config.gui.theme@ == next@,
        final(b).config.gui.word_wrap == old(b).config.gui.word_wrap,
{
    assert forall|k: int| 0 <= k < i implies #[trigger] theme_name_text(k) != current@ by {
        reveal_strlit("Dark Pro");
        reveal_strlit("Dark High Contrast");
        reveal_strlit("Light");
        reveal_strlit("Solarized Dark");
        reveal_strlit("Dracula");
        reveal_strlit("Monokai");
        if theme_name_text(k) == current@ {
            assert(theme_name_text(k).len() == current@.len());
            assert(theme_name_text(k)[0] == current@[0]);
        }
    }
    assert(is_named(current@, i as int));
}

} // verus!
