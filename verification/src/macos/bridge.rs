//! The open file as the front end sees it.

use vstd::prelude::*;
use vstd::utf8::encode_utf8;

use crate::egui::viewer::Query;
use crate::occurrences::{lemma_ranges_in_bounds, literal_ranges, match_ranges};
use crate::text::RawLine;

verus! {

broadcast use vstd::string::group_string_axioms;

/// A line and the matches in it.
pub struct DisplayLine {
    pub text: String,
    /// UTF-8 byte ranges of the matches.
    pub matches: Vec<(usize, usize)>,
    /// The match that is gone to is in this line.
    pub is_current: bool,
}

/// Ranges that hold something.
pub open spec fn nonempty_ranges(ranges: Seq<(usize, usize)>) -> Seq<(usize, usize)> {
    ranges.filter(|r: (usize, usize)| r.1 > r.0)
}

/// A byte of the file lies in one of the ranges of a line.
pub open spec fn holds_hit(ranges: Seq<(usize, usize)>, line_start: u64, hit: Option<u64>) -> bool {
    hit is Some && exists|k: int|
        0 <= k < ranges.len() && line_start + (#[trigger] ranges[k]).0 <= hit->0 < line_start
            + ranges[k].1
}

/// The ranges lie in a line of the given length.
pub open spec fn in_line(ranges: Seq<(usize, usize)>, len: nat) -> bool {
    forall|k: int|
        0 <= k < ranges.len() ==> (#[trigger] ranges[k]).0 <= ranges[k].1 && ranges[k].1 <= len
}

fn any_holds(ranges: &Vec<(usize, usize)>, line_start: u64, len: usize, hit: Option<u64>) -> (r: bool)
    requires
        in_line(ranges@, len as nat),
        line_start + len <= u64::MAX,
    ensures
        r == holds_hit(ranges@, line_start, hit),
{
    match hit {
        Some(hb) => {
            let mut i: usize = 0;
            while i < ranges.len()
                invariant
                    i <= ranges@.len(),
                    in_line(ranges@, len as nat),
                    line_start + len <= u64::MAX,
                    hit == Some(hb),
                    forall|k: int|
                        0 <= k < i ==> !(line_start + (#[trigger] ranges@[k]).0 <= hb < line_start
                            + ranges@[k].1),
                decreases ranges@.len() - i,
            {
                let (s, e) = ranges[i];
                assert(ranges@[i as int] == (s, e));
                if hb >= line_start + s as u64 && hb < line_start + e as u64 {
                    return true;
                }
                i = i + 1;
            }
            false
        },
        None => false,
    }
}

fn keep_nonempty(ranges: &Vec<(usize, usize)>) -> (r: Vec<(usize, usize)>)
    ensures
        r@ == nonempty_ranges(ranges@),
{
    let mut out: Vec<(usize, usize)> = Vec::new();
    let mut i: usize = 0;
    assert(ranges@.take(0) =~= Seq::empty());
    assert(nonempty_ranges(ranges@.take(0)) =~= Seq::empty()) by {
        reveal(Seq::filter);
    }
    while i < ranges.len()
        invariant
            i <= ranges@.len(),
            out@ == nonempty_ranges(ranges@.take(i as int)),
        decreases ranges@.len() - i,
    {
        proof {
            assert(ranges@.take(i + 1).drop_last() =~= ranges@.take(i as int));
            reveal(Seq::filter);
        }
        let (s, e) = ranges[i];
        assert(ranges@.take(i + 1).last() == (s, e));
        if e > s {
            out.push((s, e));
        }
        i = i + 1;
    }
    assert(ranges@.take(ranges@.len() as int) =~= ranges@);
    out
}

proof fn lemma_filtered_in_line(ranges: Seq<(usize, usize)>, len: nat)
    requires
        in_line(ranges, len),
    ensures
        in_line(nonempty_ranges(ranges), len),
{
    let p = |r: (usize, usize)| r.1 > r.0;
    let kept = nonempty_ranges(ranges);
    assert forall|k: int| 0 <= k < kept.len() implies (#[trigger] kept[k]).0 <= kept[k].1
        && kept[k].1 <= len by {
        assert(kept.contains(kept[k]));
        ranges.lemma_filter_contains_rev(p, kept[k]);
        let i = ranges.index_of(kept[k]);
        assert(ranges[i] == kept[k]);
    }
}

/// A line with the matches of a query in it; there are none where no query was
/// made or it could not be read. `regex_ranges` hands out the matches of a
/// pattern, `hit_byte` is the match that is gone to.
pub fn read_display_line<F: Fn(&[u8]) -> Vec<(usize, usize)>>(
    raw: RawLine,
    query: Option<&Query>,
    regex_ranges: F,
    hit_byte: Option<u64>,
) -> (r: DisplayLine)
    requires
        raw.start_byte + encode_utf8(raw.text@).len() <= u64::MAX,
        forall|hay: &[u8]| call_requires(regex_ranges, (hay,)),
        forall|hay: &[u8], all: Vec<(usize, usize)>| #[trigger]
            call_ensures(regex_ranges, (hay,), all) ==> in_line(all@, hay@.len()),
    ensures
        r.text == raw.text,
        r.is_current == holds_hit(r.matches@, raw.start_byte, hit_byte),
        match query {
            None => r.matches@.len() == 0,
            Some(Query::Literal(p)) => {
                let ranges = match_ranges(encode_utf8(raw.text@), p@, usize::MAX as nat);
                if p@.len() == 0 {
                    r.matches@.len() == 0
                } else {
                    &&& r.matches@.len() == ranges.len()
                    &&& forall|k: int|
                        0 <= k < ranges.len() ==> (#[trigger] r.matches@[k]).0 == ranges[k].0
                            && r.matches@[k].1 == ranges[k].1
                }
            },
            Some(Query::Regex) => exists|hay: &[u8], all: Vec<(usize, usize)>| #[trigger]
                call_ensures(regex_ranges, (hay,), all) && hay@ == encode_utf8(raw.text@)
                    && r.matches@ == nonempty_ranges(all@),
        },
{
    let bytes: &[u8] = raw.text.as_str().as_bytes();
    let len: usize = bytes.len();
    let matches: Vec<(usize, usize)> = match query {
        None => Vec::new(),
        Some(q) => match q {
            Query::Literal(p) => if p.len() == 0 {
                Vec::new()
            } else {
                proof {
                    lemma_ranges_in_bounds(bytes@, p@, usize::MAX as nat);
                }
                literal_ranges(bytes, p.as_slice(), usize::MAX)
            },
            Query::Regex => {
                let all: Vec<(usize, usize)> = regex_ranges(bytes);
                proof {
                    assert(call_ensures(regex_ranges, (bytes,), all));
                    lemma_filtered_in_line(all@, bytes@.len());
                }
                keep_nonempty(&all)
            },
        },
    };
    let is_current: bool = any_holds(&matches, raw.start_byte, len, hit_byte);
    DisplayLine { text: raw.text, matches, is_current }
}

/// What the front end knows of the open file.
pub struct Bridge {
    pub path: String,
    pub size: u64,
    pub line_count: u64,
    pub last_query: String,
    /// Byte offsets of the matches.
    pub hits: Vec<u64>,
    /// Place of the match that is gone to.
    pub cursor: usize,
    pub bg_indexing: bool,
}

impl Bridge {
    /// The match that is gone to is one of the matches, or there are none.
    pub open spec fn wf(self) -> bool {
        if self.hits@.len() == 0 {
            self.cursor == 0
        } else {
            self.cursor < self.hits@.len()
        }
    }

    /// A file that was just opened: it is indexed in the background where it is
    /// larger than a threshold and its index is not complete.
    pub fn open(path: String, size: u64, line_count: u64, threshold: u64, index_complete: bool) -> (r:
        Self)
        ensures
            r.wf(),
            r.path == path && r.size == size && r.line_count == line_count,
            r.last_query@.len() == 0 && r.hits@.len() == 0,
            r.bg_indexing == (size > threshold && !index_complete),
    {
        Bridge {
            path,
            size,
            line_count,
            last_query: String::new(),
            hits: Vec::new(),
            cursor: 0,
            bg_indexing: crate::native::engine_bridge::indexes_in_background(
                size,
                threshold,
                index_complete,
            ),
        }
    }

    pub fn total_lines(&self) -> (r: u64)
        ensures
            r == self.line_count,
    {
        self.line_count
    }

    /// Takes in that a search was started. Its matches are not known yet.
    pub fn search_submitted(&mut self, q: String)
        requires
            old(self).wf(),
        ensures
            final(self).wf(),
            *final(self) == (Bridge { last_query: q, cursor: 0, ..*old(self) }),
    {
        self.last_query = q;
        self.cursor = 0;
    }

    /// Takes in what a search has found, once it is done.
    pub fn poll_search(&mut self, found: Option<Vec<u64>>) -> (r: bool)
        requires
            old(self).wf(),
        ensures
            final(self).wf(),
            r == found is Some,
            match found {
                Some(hits) => *final(self) == (Bridge { hits, cursor: 0, ..*old(self) }),
                None => *final(self) == *old(self),
            },
    {
        match found {
            Some(hits) => {
                self.hits = hits;
                self.cursor = 0;
                true
            },
            None => false,
        }
    }

    /// Takes in that the index is done, with the number of lines by it.
    pub fn poll_index(&mut self, lines: Option<u64>) -> (r: bool)
        requires
            old(self).wf(),
        ensures
            final(self).wf(),
            r == lines is Some,
            match lines {
                Some(n) => *final(self) == (Bridge {
                    line_count: n,
                    bg_indexing: false,
                    ..*old(self)
                }),
                None => *final(self) == *old(self),
            },
    {
        match lines {
            Some(n) => {
                self.line_count = n;
                self.bg_indexing = false;
                true
            },
            None => false,
        }
    }

    /// Byte offset of a match.
    pub fn hit_byte(&self, idx: usize) -> (r: Option<u64>)
        ensures
            r == if idx < self.hits@.len() {
                Some(self.hits@[idx as int])
            } else {
                None
            },
    {
        if idx < self.hits.len() {
            Some(self.hits[idx])
        } else {
            None
        }
    }

    /// Line of a match; `line_of` tells the line of a byte.
    pub fn hit_line<F: Fn(u64) -> u64>(&self, idx: usize, line_of: &F) -> (r: Option<u64>)
        requires
            forall|b: u64| call_requires(line_of, (b,)),
        ensures
            match r {
                Some(line) => idx < self.hits@.len() && call_ensures(
                    *line_of,
                    (self.hits@[idx as int],),
                    line,
                ),
                None => idx >= self.hits@.len(),
            },
    {
        if idx < self.hits.len() {
            Some((*line_of)(self.hits[idx]))
        } else {
            None
        }
    }

    pub fn indexing_active(&self) -> (r: bool)
        ensures
            r == self.bg_indexing,
    {
        self.bg_indexing
    }

    /// Place behind a match, the first behind the last.
    pub open spec fn place_after(self) -> int {
        (self.cursor + 1) % self.hits@.len() as int
    }

    /// Place in front of a match, the last in front of the first.
    pub open spec fn place_before(self) -> int {
        if self.cursor == 0 {
            self.hits@.len() - 1
        } else {
            self.cursor - 1
        }
    }

    /// Goes to the next match. Returns its byte offset; `None` where there are
    /// no matches.
    pub fn search_next(&mut self) -> (r: Option<u64>)
        requires
            old(self).wf(),
        ensures
            final(self).wf(),
            if old(self).hits@.len() == 0 {
                r is None && *final(self) == *old(self)
            } else {
                &&& *final(self) == (Bridge { cursor: old(self).place_after() as usize, ..*old(self) })
                &&& r == Some(old(self).hits@[old(self).place_after()])
            },
    {
        if self.hits.len() == 0 {
            return None;
        }
        let next: usize = self.cursor + 1;
        self.cursor = if next == self.hits.len() {
            0
        } else {
            next
        };
        proof {
            let n = self.hits@.len() as int;
            if next == n {
                assert((next as int) % n == 0) by (nonlinear_arith)
                    requires
                        next == n,
                        n > 0,
                ;
            } else {
                assert((next as int) % n == next) by (nonlinear_arith)
                    requires
                        0 <= next < n,
                ;
            }
        }
        Some(self.hits[self.cursor])
    }

    /// Goes to the match before. Returns its byte offset; `None` where there are
    /// no matches.
    pub fn search_prev(&mut self) -> (r: Option<u64>)
        requires
            old(self).wf(),
        ensures
            final(self).wf(),
            if old(self).hits@.len() == 0 {
                r is None && *final(self) == *old(self)
            } else {
                &&& *final(self) == (Bridge {
                    cursor: old(self).place_before() as usize,
                    ..*old(self)
                })
                &&& r == Some(old(self).hits@[old(self).place_before()])
            },
    {
        if self.hits.len() == 0 {
            return None;
        }
        self.cursor = if self.cursor == 0 {
            self.hits.len() - 1
        } else {
            self.cursor - 1
        };
        Some(self.hits[self.cursor])
    }

    /// Forgets the search.
    pub fn cancel_search(&mut self)
        ensures
            final(self).wf(),
            final(self).hits@.len() == 0,
            final(self).last_query@.len() == 0,
            final(self).path == old(self).path,
            final(self).size == old(self).size,
            final(self).line_count == old(self).line_count,
            final(self).bg_indexing == old(self).bg_indexing,
    {
        self.hits = Vec::new();
        self.cursor = 0;
        self.last_query = String::new();
    }
}

/// Message on the work in the background: that on the index before that on a
/// search.
pub fn progress_message(index: Option<String>, search: Option<String>) -> (r: Option<String>)
    ensures
        r == if index is Some {
            index
        } else {
            search
        },
{
    match index {
        Some(p) => Some(p),
        None => search,
    }
}

/// Going to the next match and back, or back and to the next, leads to the same
/// match.
pub proof fn law_next_and_back(b: Bridge, c: Bridge)
    requires
        b.wf(),
        b.hits@.len() > 0,
        c.hits == b.hits,
    ensures
        c.cursor == b.place_after() ==> c.place_before() == b.cursor,
        c.cursor == b.place_before() ==> c.place_after() == b.cursor,
{
    let n = b.hits@.len() as int;
    let k = b.cursor as int;
    assert((k + 1) % n == if k + 1 == n {
        0
    } else {
        k + 1
    }) by (nonlinear_arith)
        requires
            0 <= k < n,
    ;
    if c.cursor == b.place_before() {
        let j = c.cursor as int;
        assert((j + 1) % n == if j + 1 == n {
            0
        } else {
            j + 1
        }) by (nonlinear_arith)
            requires
                0 <= j < n,
        ;
    }
}

/// Place after going to the next match `n` times.
pub open spec fn after_steps(start: int, n: nat, len: int) -> int {
    (start + n) % len
}

/// Every match is reached from every other.
pub proof fn law_next_reaches_every_match(start: int, target: int, len: int) -> (n: nat)
    requires
        0 <= start < len,
        0 <= target < len,
    ensures
        after_steps(start, n, len) == target,
        after_steps(start, (n + 1) as nat, len) == (after_steps(start, n, len) + 1) % len,
{
    let n: nat = if target >= start {
        (target - start) as nat
    } else {
        (target + len - start) as nat
    };
    assert((start + n) % len == target) by (nonlinear_arith)
        requires
            start + n == target || start + n == target + len,
            0 <= target < len,
    ;
    assert((start + (n + 1)) % len == (target + 1) % len) by (nonlinear_arith)
        requires
            start + n == target || start + n == target + len,
            0 <= target < len,
    ;
    n
}

/// A line is shown with its text and with the places at which the text that is searched
/// stands in it; it is the current one where the search stands in one of them.
pub proof fn law_lines_show_what_is_searched<F: Fn(&[u8]) -> Vec<(usize, usize)>>(
    raw: RawLine,
    query: &Query,
    p: Vec<u8>,
    hay: &[u8],
    needle: &[u8],
    regex: F,
    hit: Option<u64>,
    r: DisplayLine,
    ranges: Vec<(usize, usize)>,
    plain: DisplayLine,
)
    requires
        *query == Query::Literal(p),
        p@.len() > 0,
        needle@ == p@,
        hay@ == encode_utf8(raw.text@),
        call_ensures(read_display_line::<F>, (raw, Some(query), regex, hit), r),
        call_ensures(read_display_line::<F>, (raw, None, regex, hit), plain),
        call_ensures(literal_ranges, (hay, needle, usize::MAX), ranges),
    ensures
        r.text@ == raw.text@,
        r.matches@ == ranges@,
        r.is_current == (hit is Some && exists|k: int|
            0 <= k < ranges@.len() && raw.start_byte + (#[trigger] ranges@[k]).0 <= hit->0
                < raw.start_byte + ranges@[k].1),
        plain.text@ == raw.text@,
        plain.matches@.len() == 0,
        !plain.is_current,
{
    let all = match_ranges(encode_utf8(raw.text@), p@, usize::MAX as nat);
    assert forall|k: int| 0 <= k < r.matches@.len() implies r.matches@[k] == ranges@[k] by {
        assert(r.matches@[k].0 == all[k].0);
        assert(ranges@[k].0 == match_ranges(hay@, needle@, usize::MAX as nat)[k].0);
    }
    assert(r.matches@ =~= ranges@);
}

/// Going on leads to the next match, and from the last to the first; going back leads to
/// the one before, and from the first to the last. What is handed out is the byte of the
/// match that is gone to.
pub proof fn law_matches_are_gone_through(
    a: &mut Bridge,
    next: Option<u64>,
    b: &mut Bridge,
    prev: Option<u64>,
)
    requires
        call_ensures(Bridge::search_next, (a,), next),
        call_ensures(Bridge::search_prev, (b,), prev),
        old(a).wf(),
        old(b).wf(),
        old(a).hits@.len() > 0,
        old(b).hits@.len() > 0,
    ensures
        old(a).cursor + 1 < old(a).hits@.len() ==> final(a).cursor == old(a).cursor + 1,
        old(a).cursor + 1 == old(a).hits@.len() ==> final(a).cursor == 0,
        next == Some(old(a).hits@[final(a).cursor as int]),
        final(a).hits@ == old(a).hits@,
        old(b).cursor > 0 ==> final(b).cursor == old(b).cursor - 1,
        old(b).cursor == 0 ==> final(b).cursor == old(b).hits@.len() - 1,
        prev == Some(old(b).hits@[final(b).cursor as int]),
        final(b).hits@ == old(b).hits@,
{
    let n = old(a).hits@.len() as int;
    let c = old(a).cursor + 1;
    assert(n == old(a).hits.len());
    assert(old(b).hits@.len() == old(b).hits.len());
    if c < n {
        vstd::arithmetic::div_mod::lemma_small_mod(c as nat, n as nat);
    } else {
        vstd::arithmetic::div_mod::lemma_mod_self_0(n);
    }
}

/// Without matches nothing is gone to.
pub proof fn law_without_matches_nothing_moves(
    a: &mut Bridge,
    next: Option<u64>,
    b: &mut Bridge,
    prev: Option<u64>,
)
    requires
        call_ensures(Bridge::search_next, (a,), next),
        call_ensures(Bridge::search_prev, (b,), prev),
        old(a).hits@.len() == 0,
        old(b).hits@.len() == 0,
    ensures
        next is None && *final(a) == *old(a),
        prev is None && *final(b) == *old(b),
{
}

/// A match has the byte at which it was found and the line of that byte.
pub proof fn law_matches_have_their_lines<F: Fn(u64) -> u64>(
    b: &Bridge,
    idx: usize,
    line_of: &F,
    byte: Option<u64>,
    line: Option<u64>,
    n: u64,
)
    requires
        call_ensures(Bridge::hit_byte, (b, idx), byte),
        call_ensures(Bridge::hit_line::<F>, (b, idx, line_of), line),
        idx < b.hits@.len() ==> forall|l: u64| #[trigger]
            call_ensures(*line_of, (b.hits@[idx as int],), l) ==> l == n,
    ensures
        idx < b.hits@.len() ==> byte == Some(b.hits@[idx as int]) && line == Some(n),
        idx >= b.hits@.len() ==> byte is None && line is None,
{
}

/// What a search finds replaces what was found before, and the first match is gone to; a
/// cancelled search leaves none; the query that was submitted is kept.
pub proof fn law_searches_replace_each_other(
    a: &mut Bridge,
    found: Vec<u64>,
    polled: bool,
    b: &mut Bridge,
    cancelled: (),
    c: &mut Bridge,
    q: String,
    submitted: (),
    d: &mut Bridge,
    idle: bool,
)
    requires
        call_ensures(Bridge::poll_search, (a, Some(found)), polled),
        call_ensures(Bridge::cancel_search, (b,), cancelled),
        call_ensures(Bridge::search_submitted, (c, q), submitted),
        call_ensures(Bridge::poll_search, (d, None), idle),
    ensures
        polled,
        final(a).hits@ == found@,
        final(a).cursor == 0,
        final(b).hits@.len() == 0 && final(b).last_query@.len() == 0 && final(b).cursor == 0,
        final(c).last_query@ == q@ && final(c).cursor == 0 && final(c).hits@ == old(c).hits@,
        !idle && *final(d) == *old(d),
{
}

/// An index that is done brings the number of lines; a file is indexed in the background
/// where it is larger than the threshold and no index of it is there.
pub proof fn law_indexes_bring_the_lines(
    path: String,
    size: u64,
    lines: u64,
    threshold: u64,
    complete: bool,
    opened: Bridge,
    active: bool,
    total: u64,
    a: &mut Bridge,
    n: u64,
    polled: bool,
)
    requires
        call_ensures(Bridge::open, (path, size, lines, threshold, complete), opened),
        call_ensures(Bridge::indexing_active, (&opened,), active),
        call_ensures(Bridge::total_lines, (&opened,), total),
        call_ensures(Bridge::poll_index, (a, Some(n)), polled),
    ensures
        active == (size > threshold && !complete),
        total == lines,
        opened.hits@.len() == 0,
        polled,
        final(a).line_count == n,
        !final(a).bg_indexing,
        final(a).hits@ == old(a).hits@,
{
}

/// The progress of an index is told before that of a search.
pub proof fn law_indexing_is_told_first(
    index: String,
    search: Option<String>,
    both: Option<String>,
    only: Option<String>,
)
    requires
        call_ensures(progress_message, (Some(index), search), both),
        call_ensures(progress_message, (None, search), only),
    ensures
        both == Some(index),
        only == search,
{
}

} // verus!
