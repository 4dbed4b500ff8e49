//! State of the search as the user interface shows it, and what background
//! work means for it.

use vstd::prelude::*;

verus! {

broadcast use vstd::string::group_string_axioms;

/// What the interface knows of a search. The place among the matches is kept by
/// the search itself.
pub struct SearchState {
    pub query: String,
    pub case_sensitive: bool,
    pub use_regex: bool,
    pub whole_word: bool,
    /// Number of matches.
    pub total: usize,
    /// Number of the current match, from 0.
    pub cursor: usize,
    /// A search runs in the background.
    pub searching: bool,
    /// What the status bar says of the search.
    pub status: String,
}

impl Default for SearchState {
    fn default() -> (r: Self)
        ensures
            r.query@ == Seq::<char>::empty(),
            r.status@ == Seq::<char>::empty(),
            !r.case_sensitive && !r.use_regex && !r.whole_word && !r.searching,
            r.total == 0 && r.cursor == 0,
    {
        SearchState {
            query: String::new(),
            case_sensitive: false,
            use_regex: false,
            whole_word: false,
            total: 0,
            cursor: 0,
            searching: false,
            status: String::new(),
        }
    }
}

impl SearchState {
    /// Options of the search: case, pattern, whole words.
    pub open spec fn options(self) -> (bool, bool, bool) {
        (self.case_sensitive, self.use_regex, self.whole_word)
    }

    /// Drops query, matches and status; the options stay.
    pub fn cancel(&mut self)
        ensures
            final(self).query@ == Seq::<char>::empty(),
            final(self).status@ == Seq::<char>::empty(),
            final(self).total == 0,
            final(self).cursor == 0,
            !final(self).searching,
            final(self).options() == old(self).options(),
    {
        self.query = String::new();
        self.total = 0;
        self.cursor = 0;
        self.searching = false;
        self.status = String::new();
    }
}

/// Whether a file is indexed in the background when it is opened: a large one
/// that has no complete index yet.
pub fn indexes_in_background(size: u64, threshold: u64, index_complete: bool) -> (r: bool)
    ensures
        r == (size > threshold && !index_complete),
{
    size > threshold && !index_complete
}

/// What is known of the open file while it is indexed.
#[derive(Clone, Copy, Debug, PartialEq, Eq, Structural)]
pub struct IndexState {
    pub line_count: u64,
    pub bg_indexing: bool,
}

impl IndexState {
    /// Takes in whether indexing has finished, and how many lines there are.
    pub fn poll(&mut self, done: bool, lines_now: u64) -> (r: bool)
        ensures
            r == done,
            *final(self) == if done {
                IndexState { line_count: lines_now, bg_indexing: false }
            } else {
                *old(self)
            },
    {
        if done {
            self.line_count = lines_now;
            self.bg_indexing = false;
        }
        done
    }
}

// ---------------------------------------------------------------------------
// Laws
// ---------------------------------------------------------------------------

/// A search that is cancelled is empty, and its options stay; a new one has none.
pub proof fn law_cancelled_searches_are_empty(s: &mut SearchState, done: ())
    requires
        call_ensures(SearchState::cancel, (s,), done),
    ensures
        final(s).query@.len() == 0 && final(s).status@.len() == 0 && !final(s).searching && final(
            s).total == 0 && final(s).cursor == 0,
        final(s).case_sensitive == old(s).case_sensitive && final(s).use_regex == old(s).use_regex
            && final(s).whole_word == old(s).whole_word,
{
}

/// Large files without a complete index are indexed in the background, and the lines are
/// known when that is done.
pub proof fn law_large_files_are_indexed(
    size: u64,
    threshold: u64,
    complete: bool,
    r: bool,
    s: &mut IndexState,
    done: bool,
    lines: u64,
    told: bool,
)
    requires
        call_ensures(indexes_in_background, (size, threshold, complete), r),
        call_ensures(IndexState::poll, (s, done, lines), told),
    ensures
        complete ==> !r,
        size <= threshold ==> !r,
        size > threshold && !complete ==> r,
        told == done,
        done ==> final(s).line_count == lines && !final(s).bg_indexing,
        !done ==> *final(s) == *old(s),
{
}

} // verus!
