//! What is open, selected and searched in the main window, and how the actions
//! on a file and on a search change it.

use vstd::prelude::*;

use crate::fields::{goto_target, parse_goto};
use crate::native::annotations::{Annotation, Annotations};
use crate::native::app::{
    entry_line, jump_arrived, jump_note, opened_status, opened_text, place_text, submit_query, HitPos,
    JumpStep, SubmitAction,
};
use crate::native::engine_bridge::SearchState;
use crate::native::scroll::ScrollState;
use crate::native::selection::Selection;

verus! {

broadcast use vstd::string::group_string_axioms;

/// What is known of a file that was opened.
#[derive(Clone, Copy, Debug)]
pub struct Opened {
    pub size: u64,
    pub line_count: u64,
    pub indexing: bool,
}

/// The state of the main window.
pub struct App {
    pub path: Option<String>,
    pub file_size: u64,
    pub file_lines: u64,
    pub status_text: String,
    pub selection: Option<Selection>,
    pub scroll: ScrollState,
    pub search: SearchState,
    /// Byte of the match that is gone to.
    pub current_hit_byte: Option<u64>,
    pub annotations: Annotations,
}

impl App {
    /// With no file open nothing is selected and nothing is annotated.
    pub open spec fn wf(self) -> bool {
        &&& self.annotations.wf()
        &&& self.path is None ==> self.selection is None && self.annotations.list@.len() == 0
    }

    /// The state at the start.
    pub fn new() -> (r: Self)
        ensures
            r.wf(),
            r.path is None && r.current_hit_byte is None,
            r.file_size == 0 && r.file_lines == 0,
            r.status_text@ == "就绪"@,
            r.scroll.y == 0 && r.scroll.h_scroll == 0,
            r.search.query@ == Seq::<char>::empty() && !r.search.searching && r.search.total == 0,
            r.search.options() == (false, false, false),
    {
        App {
            path: None,
            file_size: 0,
            file_lines: 0,
            status_text: "就绪".to_owned(),
            selection: None,
            scroll: ScrollState::default(),
            search: SearchState::default(),
            current_hit_byte: None,
            annotations: Annotations::none(),
        }
    }

    /// Takes in how the opening of a file went, with the annotations that are
    /// stored for it. Where it failed, only the status says so: what was open
    /// stays open.
    pub fn open_path(
        &mut self,
        path: String,
        opened: Result<Opened, String>,
        stored: Vec<Annotation>,
    )
        requires
            old(self).wf(),
        ensures
            final(self).wf(),
            final(self).search == old(self).search,
            final(self).current_hit_byte == old(self).current_hit_byte,
            match opened {
                Ok(o) => {
                    &&& final(self).path == Some(path)
                    &&& final(self).file_size == o.size
                    &&& final(self).file_lines == o.line_count
                    &&& final(self).status_text@ == opened_text(o.indexing, o.line_count, o.size)
                    &&& final(self).selection is None
                    &&& final(self).scroll == (ScrollState {
                        y: 0,
                        h_scroll: 0,
                        wrap_factor: 1,
                        ..old(self).scroll
                    })
                    &&& final(self).annotations.list@ == stored@
                },
                Err(e) => {
                    &&& final(self).status_text@ == "打开失败: "@ + e@
                    &&& final(self).path == old(self).path
                    &&& final(self).file_size == old(self).file_size
                    &&& final(self).file_lines == old(self).file_lines
                    &&& final(self).selection == old(self).selection
                    &&& final(self).scroll == old(self).scroll
                    &&& final(self).annotations == old(self).annotations
                },
            },
    {
        match opened {
            Ok(o) => {
                self.file_size = o.size;
                self.file_lines = o.line_count;
                self.status_text = opened_status(o.indexing, o.line_count, o.size);
                self.path = Some(path);
                self.scroll.reset();
                self.selection = None;
                self.annotations.reload(Some(stored));
            },
            Err(e) => {
                let mut text: String = "打开失败: ".to_owned();
                text.append(e.as_str());
                self.status_text = text;
            },
        }
    }

    /// Closes the file. The place in the text and what is searched stay.
    pub fn close_file(&mut self)
        ensures
            final(self).wf(),
            final(self).path is None,
            final(self).status_text@ == "已关闭"@,
            final(self).file_size == old(self).file_size,
            final(self).file_lines == old(self).file_lines,
            final(self).scroll == old(self).scroll,
            final(self).search == old(self).search,
            final(self).current_hit_byte == old(self).current_hit_byte,
    {
        self.path = None;
        self.status_text = "已关闭".to_owned();
        self.selection = None;
        self.annotations.reload(None);
    }

    /// Takes a query in.
    pub fn submit_search(&mut self, query: String) -> (r: SubmitAction)
        requires
            old(self).wf(),
        ensures
            final(self).wf(),
            *final(self) == (App {
                search: final(self).search,
                current_hit_byte: if query@.len() == 0 {
                    None
                } else {
                    old(self).current_hit_byte
                },
                ..*old(self)
            }),
            final(self).search.query@ == query@,
            final(self).search.cursor == 0 && final(self).search.total == 0,
            final(self).search.options() == old(self).search.options(),
            final(self).search.searching == (query@.len() > 0),
            final(self).search.status@ == if query@.len() == 0 {
                Seq::<char>::empty()
            } else {
                "搜索中..."@
            },
            r == if query@.len() == 0 {
                SubmitAction::Clear
            } else {
                SubmitAction::Search
            },
    {
        let action: SubmitAction = submit_query(&mut self.search, query);
        match action {
            SubmitAction::Clear => {
                self.current_hit_byte = None;
            },
            SubmitAction::Search => {},
        }
        action
    }

    /// Takes in where a jump has arrived. Returns whether there was a match to
    /// go to.
    pub fn jump_hit(&mut self, step: JumpStep, hit: Option<HitPos>, cursor: usize, total: usize) -> (r:
        bool)
        requires
            old(self).wf(),
            cursor < u64::MAX,
        ensures
            final(self).wf(),
            r == hit is Some,
            match hit {
                Some(h) => {
                    &&& *final(self) == (App {
                        search: final(self).search,
                        current_hit_byte: Some(h.byte),
                        ..*old(self)
                    })
                    &&& final(self).search.cursor == cursor
                    &&& final(self).search.status@ == place_text(
                        jump_note(step),
                        cursor as nat,
                        total as nat,
                    )
                    &&& final(self).search.query == old(self).search.query
                    &&& final(self).search.total == old(self).search.total
                    &&& final(self).search.searching == old(self).search.searching
                    &&& final(self).search.options() == old(self).search.options()
                },
                None => *final(self) == *old(self),
            },
    {
        match jump_arrived(&mut self.search, step, hit, cursor, total) {
            Some(byte) => {
                self.current_hit_byte = Some(byte);
                true
            },
            None => false,
        }
    }

    /// Forgets the search; its options stay.
    pub fn clear_search(&mut self)
        requires
            old(self).wf(),
        ensures
            final(self).wf(),
            *final(self) == (App {
                search: final(self).search,
                current_hit_byte: None,
                ..*old(self)
            }),
            final(self).search.query@ == Seq::<char>::empty(),
            final(self).search.status@ == Seq::<char>::empty(),
            final(self).search.total == 0 && final(self).search.cursor == 0,
            !final(self).search.searching,
            final(self).search.options() == old(self).search.options(),
    {
        self.search.cancel();
        self.current_hit_byte = None;
    }

    /// Goes to the line whose number was typed, counted from 1. Returns whether
    /// there was such a number.
    pub fn submit_goto(&mut self, typed: &str) -> (r: bool)
        requires
            old(self).wf(),
        ensures
            final(self).wf(),
            match goto_target(typed@) {
                Some(n) => r && *final(self) == (App {
                    scroll: ScrollState {
                        y: old(self).scroll.rows(n as u64) as i64,
                        ..old(self).scroll
                    },
                    ..*old(self)
                }),
                None => !r && *final(self) == *old(self),
            },
    {
        match parse_goto(typed) {
            Some(line) => {
                self.scroll.goto_line(line);
                true
            },
            None => false,
        }
    }

    /// Puts the search on the first match from the top of the view on, so that it
    /// goes on from what is looked at. `matches` is the number of matches,
    /// `line_start` tells where a line starts, and `seek` goes to the first match
    /// from a byte on and tells its number and its byte.
    pub fn anchor_search_to_viewport<L: Fn(u64) -> u64, S: Fn(u64) -> (usize, Option<u64>)>(
        &mut self,
        matches: usize,
        first_visible: u64,
        line_start: &L,
        seek: &S,
    )
        requires
            old(self).wf(),
            forall|line: u64| call_requires(line_start, (line,)),
            forall|byte: u64| call_requires(seek, (byte,)),
        ensures
            final(self).wf(),
            old(self).path is None || matches == 0 ==> *final(self) == *old(self),
            old(self).path is Some && matches > 0 ==> {
                &&& *final(self) == (App {
                    search: SearchState {
                        cursor: final(self).search.cursor,
                        ..old(self).search
                    },
                    current_hit_byte: final(self).current_hit_byte,
                    ..*old(self)
                })
                &&& is_anchored(
                    *line_start,
                    *seek,
                    top_of(first_visible, old(self).file_lines),
                    (final(self).search.cursor, final(self).current_hit_byte),
                )
            },
    {
        if self.path.is_none() || matches == 0 {
            return ;
        }
        let top: u64 = entry_line(first_visible, self.file_lines);
        let byte: u64 = (*line_start)(top);
        let place: (usize, Option<u64>) = (*seek)(byte);
        self.search.cursor = place.0;
        self.current_hit_byte = place.1;
        proof {
            assert(top == top_of(first_visible, self.file_lines));
            assert(call_ensures(*line_start, (top,), byte));
            assert(place == (self.search.cursor, self.current_hit_byte));
        }
    }
}

/// `found` is what is sought from the start of a line on.
pub open spec fn is_anchored<L: Fn(u64) -> u64, S: Fn(u64) -> (usize, Option<u64>)>(
    line_start: L,
    seek: S,
    line: u64,
    found: (usize, Option<u64>),
) -> bool {
    exists|byte: u64| #[trigger]
        call_ensures(line_start, (line,), byte) && call_ensures(seek, (byte,), found)
}

/// Line at the top of the view, of those that there are.
pub open spec fn top_of(first_visible: u64, lines: u64) -> u64 {
    if lines == 0 {
        0
    } else if first_visible < lines {
        first_visible
    } else {
        (lines - 1) as u64
    }
}

// ---------------------------------------------------------------------------
// Laws
// ---------------------------------------------------------------------------

/// A file that is opened is shown from its start, with its own annotations and nothing
/// selected; one that cannot be opened leaves everything but the status as it was.
pub proof fn law_opened_files_start_afresh(
    a: &mut App,
    path: String,
    o: Opened,
    stored: Vec<Annotation>,
    done: (),
    b: &mut App,
    e: String,
    status: String,
)
    requires
        call_ensures(App::open_path, (a, path, Ok(o), stored), done),
        call_ensures(App::open_path, (b, path, Err(e), stored), done),
        call_ensures(opened_status, (o.indexing, o.line_count, o.size), status),
    ensures
        final(a).path is Some && final(a).path->0@ == path@,
        final(a).file_size == o.size && final(a).file_lines == o.line_count,
        final(a).status_text@ == status@,
        final(a).selection is None,
        final(a).scroll.y == 0 && final(a).scroll.h_scroll == 0,
        final(a).annotations.list@ == stored@,
        final(b).status_text@ == "打开失败: "@ + e@,
        final(b).path == old(b).path && final(b).scroll == old(b).scroll && final(b).selection
            == old(b).selection && final(b).file_size == old(b).file_size && final(b).file_lines
            == old(b).file_lines,
{
}

/// A file that is closed leaves no selection and no annotation.
pub proof fn law_closed_files_leave_nothing(a: &mut App, done: ())
    requires
        call_ensures(App::close_file, (a,), done),
    ensures
        final(a).path is None,
        final(a).selection is None,
        final(a).annotations.list@.len() == 0,
        final(a).status_text@ == "已关闭"@,
{
}

/// Submitting a query starts a search, an empty one and clearing end it, and the file and
/// the view stay.
pub proof fn law_searches_start_and_end(
    a: &mut App,
    query: String,
    r: SubmitAction,
    b: &mut App,
    done: (),
)
    requires
        call_ensures(App::submit_search, (a, query), r),
        call_ensures(App::clear_search, (b,), done),
    ensures
        (r is Search) == (query@.len() > 0),
        final(a).search.query@ == query@,
        final(a).search.searching == (query@.len() > 0),
        query@.len() == 0 ==> final(a).current_hit_byte is None,
        final(a).path == old(a).path && final(a).scroll == old(a).scroll && final(a).selection
            == old(a).selection,
        final(b).search.query@.len() == 0 && final(b).search.status@.len() == 0
            && !final(b).search.searching && final(b).search.total == 0,
        final(b).current_hit_byte is None,
        final(b).path == old(b).path && final(b).scroll == old(b).scroll && final(b).selection
            == old(b).selection,
{
}

/// A jump that found a match makes it the current one, and one that found none changes
/// nothing.
pub proof fn law_jumps_make_the_match_current(
    a: &mut App,
    step: JumpStep,
    hit: Option<HitPos>,
    cursor: usize,
    total: usize,
    r: bool,
)
    requires
        call_ensures(App::jump_hit, (a, step, hit, cursor, total), r),
    ensures
        r == hit is Some,
        hit is Some ==> final(a).current_hit_byte == Some(hit->0.byte) && final(a).search.cursor
            == cursor && final(a).search.query == old(a).search.query && final(a).path == old(
            a).path && final(a).scroll == old(a).scroll,
        hit is None ==> *final(a) == *old(a),
{
}

/// Going to a line that is typed puts it at the top of the view, and anything else changes
/// nothing.
pub proof fn law_typed_lines_are_gone_to(a: &mut App, typed: &str, r: bool, target: Option<u64>)
    requires
        call_ensures(App::submit_goto, (a, typed), r),
        call_ensures(crate::fields::parse_goto, (typed,), target),
    ensures
        r == target is Some,
        target is Some && old(a).scroll.wrap_factor == 1 && target->0 <= 0x20_0000_0000_0000 ==> final(
            a).scroll.y == target->0,
        target is None ==> *final(a) == *old(a),
        final(a).scroll.h_scroll == old(a).scroll.h_scroll,
        final(a).path == old(a).path && final(a).selection == old(a).selection,
{
    if target is Some && old(a).scroll.wrap_factor == 1 {
        let n = target->0 as int;
        assert(n * 1 == n) by (nonlinear_arith);
    }
}

/// The search goes on from the first line in view.
pub proof fn law_searches_go_on_from_the_view<
    L: Fn(u64) -> u64,
    S: Fn(u64) -> (usize, Option<u64>),
>(
    a: &mut App,
    matches: usize,
    first_visible: u64,
    line_start: &L,
    seek: &S,
    starts: spec_fn(u64) -> u64,
    found: spec_fn(u64) -> (usize, Option<u64>),
    done: (),
)
    requires
        call_ensures(
            App::anchor_search_to_viewport::<L, S>,
            (a, matches, first_visible, line_start, seek),
            done,
        ),
        forall|l: u64, b: u64| #[trigger] call_ensures(*line_start, (l,), b) ==> b == starts(l),
        forall|b: u64, f: (usize, Option<u64>)| #[trigger]
            call_ensures(*seek, (b,), f) ==> f == found(b),
        old(a).path is Some,
    ensures
        matches == 0 ==> *final(a) == *old(a),
        matches > 0 && first_visible < old(a).file_lines ==> (
            final(a).search.cursor,
            final(a).current_hit_byte,
        ) == found(starts(first_visible)),
        matches > 0 && first_visible >= old(a).file_lines && old(a).file_lines > 0 ==> (
            final(a).search.cursor,
            final(a).current_hit_byte,
        ) == found(starts((old(a).file_lines - 1) as u64)),
        final(a).scroll == old(a).scroll && final(a).search.query == old(a).search.query,
{
}

} // verus!
