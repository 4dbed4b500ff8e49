//! Highlighting of search matches: cutting a line, or a visual row of a long
//! one, into plain and highlighted segments.

use vstd::prelude::*;

use crate::bounds::{max_int, min_int};

verus! {

/// How a segment is shown.
#[derive(Clone, Copy, Debug, PartialEq, Eq, Structural)]
pub enum SegmentKind {
    /// Text outside of matches.
    Plain,
    /// Text of a match.
    Match,
    /// Text of the match that the search stands on.
    Current,
}

/// A byte range of a line or row that is shown in one way.
#[derive(Clone, Copy, Debug, PartialEq, Eq, Structural)]
pub struct Segment {
    pub start: usize,
    pub end: usize,
    pub kind: SegmentKind,
}

/// A match in a line or row, as a byte range of it.
#[derive(Clone, Copy, Debug, PartialEq, Eq, Structural)]
pub struct Hit {
    pub start: usize,
    pub end: usize,
    pub current: bool,
}

// ---------------------------------------------------------------------------
// Segments
// ---------------------------------------------------------------------------

/// Segment of a match.
pub open spec fn hit_segment(hit: Hit) -> Segment {
    Segment {
        start: hit.start,
        end: hit.end,
        kind: if hit.current {
            SegmentKind::Current
        } else {
            SegmentKind::Match
        },
    }
}

/// Plain text between `a` and `b`, where there is any.
pub open spec fn gap(a: usize, b: usize) -> Seq<Segment> {
    if a < b {
        seq![Segment { start: a, end: b, kind: SegmentKind::Plain }]
    } else {
        Seq::empty()
    }
}

/// End of the last match; 0 before the first.
pub open spec fn end_of(hits: Seq<Hit>) -> usize {
    if hits.len() == 0 {
        0
    } else {
        hits.last().end
    }
}

/// Segments up to the end of the last match.
pub open spec fn painted(hits: Seq<Hit>) -> Seq<Segment>
    decreases hits.len(),
{
    if hits.len() == 0 {
        Seq::empty()
    } else {
        let front = hits.drop_last();
        (painted(front) + gap(end_of(front), hits.last().start)).push(hit_segment(hits.last()))
    }
}

/// Segments of a line or row of `len` bytes: its matches, and the plain text
/// before, between and behind them.
pub open spec fn segments_of(hits: Seq<Hit>, len: usize) -> Seq<Segment> {
    painted(hits) + gap(end_of(hits), len)
}

/// Cuts a line or row of `len` bytes into segments.
pub fn paint_segments(hits: &Vec<Hit>, len: usize) -> (r: Vec<Segment>)
    ensures
        r@ == segments_of(hits@, len),
{
    let mut out: Vec<Segment> = Vec::new();
    let mut pos: usize = 0;
    let mut i: usize = 0;
    while i < hits.len()
        invariant
            i <= hits@.len(),
            pos == end_of(hits@.take(i as int)),
            out@ == painted(hits@.take(i as int)),
        decreases hits@.len() - i,
    {
        let hit: Hit = hits[i];
        assert(hits@.take(i + 1).drop_last() =~= hits@.take(i as int));
        let ghost before = out@;
        if hit.start > pos {
            out.push(Segment { start: pos, end: hit.start, kind: SegmentKind::Plain });
        }
        let kind: SegmentKind = if hit.current {
            SegmentKind::Current
        } else {
            SegmentKind::Match
        };
        out.push(Segment { start: hit.start, end: hit.end, kind });
        assert(out@ =~= (before + gap(pos, hit.start)).push(hit_segment(hit)));
        pos = hit.end;
        i = i + 1;
    }
    assert(hits@.take(hits@.len() as int) =~= hits@);
    let ghost before = out@;
    if pos < len {
        out.push(Segment { start: pos, end: len, kind: SegmentKind::Plain });
    }
    assert(out@ =~= before + gap(pos, len));
    out
}

// ---------------------------------------------------------------------------
// Clipping
// ---------------------------------------------------------------------------

/// What ranges of the file, in ascending order, have in common with the range
/// `[lo, hi)`, as offsets from `lo`. The first range that starts behind it ends
/// the list.
pub open spec fn clipped(ranges: Seq<(u64, u64)>, lo: u64, hi: u64) -> Seq<(int, int)>
    decreases ranges.len(),
{
    if ranges.len() == 0 {
        Seq::empty()
    } else {
        let (s, e) = ranges[0];
        if e <= lo {
            clipped(ranges.skip(1), lo, hi)
        } else if s >= hi {
            Seq::empty()
        } else {
            seq![(max_int(s as int, lo as int) - lo, min_int(e as int, hi as int) - lo)] + clipped(
                ranges.skip(1),
                lo,
                hi,
            )
        }
    }
}

/// Two lists hold the same ranges.
pub open spec fn same_ranges(v: Seq<(usize, usize)>, s: Seq<(int, int)>) -> bool {
    &&& v.len() == s.len()
    &&& forall|i: int|
        0 <= i < v.len() ==> (#[trigger] v[i]).0 == s[i].0 && v[i].1 == s[i].1
}

/// Clips ranges of the file to `[lo, hi)`.
pub fn clip_ranges(ranges: &Vec<(u64, u64)>, lo: u64, hi: u64) -> (r: Vec<(usize, usize)>)
    requires
        lo <= hi,
        hi - lo <= usize::MAX,
    ensures
        same_ranges(r@, clipped(ranges@, lo, hi)),
{
    let mut out: Vec<(usize, usize)> = Vec::new();
    let mut i: usize = 0;
    let ghost whole = clipped(ranges@, lo, hi);
    assert(ranges@.skip(0) =~= ranges@);
    assert(whole =~= Seq::<(int, int)>::empty() + whole);
    let mut done: bool = false;
    while i < ranges.len() && !done
        invariant
            lo <= hi,
            hi - lo <= usize::MAX,
            i <= ranges@.len(),
            out@.len() <= whole.len(),
            forall|k: int|
                0 <= k < out@.len() ==> (#[trigger] out@[k]).0 == whole[k].0 && out@[k].1
                    == whole[k].1,
            !done ==> whole.skip(out@.len() as int) == clipped(ranges@.skip(i as int), lo, hi),
            done ==> out@.len() == whole.len(),
        decreases ranges@.len() - i + (if done { 0int } else { 1int }),
    {
        let (s, e) = ranges[i];
        let ghost rest = ranges@.skip(i as int);
        assert(rest[0] == (s, e));
        assert(rest.skip(1) =~= ranges@.skip(i + 1));
        if e <= lo {
            i = i + 1;
        } else if s >= hi {
            assert(whole.skip(out@.len() as int).len() == 0);
            done = true;
        } else {
            let a: u64 = if s >= lo {
                s
            } else {
                lo
            };
            let b: u64 = if e <= hi {
                e
            } else {
                hi
            };
            let ghost n = out@.len() as int;
            assert(clipped(rest, lo, hi).len() > 0);
            assert(whole.skip(n)[0] == whole[n]);
            assert(whole.skip(n).skip(1) =~= whole.skip(n + 1));
            assert(clipped(rest, lo, hi).skip(1) =~= clipped(rest.skip(1), lo, hi));
            out.push(((a - lo) as usize, (b - lo) as usize));
            i = i + 1;
        }
    }
    if !done {
        assert(ranges@.skip(ranges@.len() as int) =~= Seq::<(u64, u64)>::empty());
        assert(whole.skip(out@.len() as int).len() == 0);
    }
    out
}

/// Ranges of a line as ranges of the file.
pub open spec fn in_file(ranges: Seq<(usize, usize)>, line_start: u64) -> Seq<(u64, u64)> {
    Seq::new(
        ranges.len(),
        |i: int| ((line_start + ranges[i].0) as u64, (line_start + ranges[i].1) as u64),
    )
}

/// Every range ends within `len`.
pub open spec fn ranges_within(ranges: Seq<(usize, usize)>, len: int) -> bool {
    forall|i: int|
        0 <= i < ranges.len() ==> (#[trigger] ranges[i]).0 <= ranges[i].1 && ranges[i].1 <= len
}

/// Ranges of a part of the file that starts at `start`, as ranges of the file.
pub fn file_ranges(ranges: &Vec<(usize, usize)>, start: u64) -> (r: Vec<(u64, u64)>)
    requires
        forall|i: int|
            0 <= i < ranges@.len() ==> start + (#[trigger] ranges@[i]).0 <= u64::MAX && start
                + ranges@[i].1 <= u64::MAX,
    ensures
        r@ == in_file(ranges@, start),
{
    let mut out: Vec<(u64, u64)> = Vec::new();
    let mut i: usize = 0;
    while i < ranges.len()
        invariant
            i <= ranges@.len(),
            forall|k: int|
                0 <= k < ranges@.len() ==> start + (#[trigger] ranges@[k]).0 <= u64::MAX && start
                    + ranges@[k].1 <= u64::MAX,
            out@.len() == i,
            forall|k: int| 0 <= k < i ==> #[trigger] out@[k] == in_file(ranges@, start)[k],
        decreases ranges@.len() - i,
    {
        let (a, b) = ranges[i];
        assert(ranges@[i as int] == (a, b));
        out.push((start + a as u64, start + b as u64));
        i = i + 1;
    }
    assert(out@ =~= in_file(ranges@, start));
    out
}

// ---------------------------------------------------------------------------
// Matches of a line or row
// ---------------------------------------------------------------------------

/// The search stands on a byte of `[a, b)`.
pub open spec fn hit_in(hit: Option<u64>, a: int, b: int) -> bool {
    hit matches Some(h) && a <= h < b
}

/// Matches at the ranges `ranges`, offsets from `base`: the one that holds the
/// byte on which the search stands is the current one.
pub open spec fn hits_by_range(ranges: Seq<(int, int)>, base: u64, hit: Option<u64>) -> Seq<Hit> {
    Seq::new(
        ranges.len(),
        |i: int|
            Hit {
                start: ranges[i].0 as usize,
                end: ranges[i].1 as usize,
                current: hit_in(hit, base + ranges[i].0, base + ranges[i].1),
            },
    )
}

/// Matches at the ranges `ranges`: a match is the current one if the search
/// stands in it or in the plain text before it.
pub open spec fn hits_with_lead(ranges: Seq<(int, int)>, base: u64, hit: Option<u64>) -> Seq<Hit> {
    Seq::new(
        ranges.len(),
        |i: int|
            Hit {
                start: ranges[i].0 as usize,
                end: ranges[i].1 as usize,
                current: hit_in(
                    hit,
                    base + (if i == 0 {
                        0
                    } else {
                        ranges[i - 1].1
                    }),
                    base + ranges[i].1,
                ),
            },
    )
}

/// Matches at the ranges `ranges`, all or none of them the current one.
pub open spec fn hits_all(ranges: Seq<(int, int)>, current: bool) -> Seq<Hit> {
    Seq::new(
        ranges.len(),
        |i: int| Hit { start: ranges[i].0 as usize, end: ranges[i].1 as usize, current },
    )
}

/// Matches of a visual row `[row_off, row_end)` of a long line, from the ranges
/// of the line's matches. A match over a row's edge is shown in both rows.
pub fn row_hits(
    line_matches: &Vec<(usize, usize)>,
    line_len: usize,
    row_off: usize,
    row_end: usize,
    line_start: u64,
    hit: Option<u64>,
) -> (r: Vec<Hit>)
    requires
        ranges_within(line_matches@, line_len as int),
        row_off <= row_end <= line_len,
        line_start + line_len <= u64::MAX,
    ensures
        r@ == hits_by_range(
            clipped(
                in_file(line_matches@, line_start),
                (line_start + row_off) as u64,
                (line_start + row_end) as u64,
            ),
            (line_start + row_off) as u64,
            hit,
        ),
{
    let ranges: Vec<(u64, u64)> = file_ranges(line_matches, line_start);
    let lo: u64 = line_start + row_off as u64;
    let hi: u64 = line_start + row_end as u64;
    let rel: Vec<(usize, usize)> = clip_ranges(&ranges, lo, hi);
    proof {
        lemma_clipped_bounds(ranges@, lo, hi);
    }
    mark_by_range(&rel, lo, hit, Ghost(clipped(ranges@, lo, hi)), Ghost(hi - lo))
}

/// Clipped ranges lie in the range that they are clipped to.
pub proof fn lemma_clipped_bounds(ranges: Seq<(u64, u64)>, lo: u64, hi: u64)
    requires
        lo <= hi,
    ensures
        forall|i: int|
            0 <= i < clipped(ranges, lo, hi).len() ==> 0 <= (#[trigger] clipped(ranges, lo, hi)[i]).0
                && 0 <= clipped(ranges, lo, hi)[i].1 <= hi - lo && clipped(ranges, lo, hi)[i].0 <= hi
                - lo,
    decreases ranges.len(),
{
    if ranges.len() > 0 {
        lemma_clipped_bounds(ranges.skip(1), lo, hi);
        let (s, e) = ranges[0];
        let all = clipped(ranges, lo, hi);
        if e <= lo {
            assert(all == clipped(ranges.skip(1), lo, hi));
        } else if s >= hi {
            assert(all.len() == 0);
        } else {
            let rest = clipped(ranges.skip(1), lo, hi);
            assert forall|i: int| 0 <= i < all.len() implies 0 <= (#[trigger] all[i]).0 && 0
                <= all[i].1 <= hi - lo && all[i].0 <= hi - lo by {
                if i > 0 {
                    assert(all[i] == rest[i - 1]);
                }
            }
        }
    } else {
        assert(clipped(ranges, lo, hi).len() == 0);
    }
}

fn mark_by_range(
    rel: &Vec<(usize, usize)>,
    base: u64,
    hit: Option<u64>,
    Ghost(ranges): Ghost<Seq<(int, int)>>,
    Ghost(len): Ghost<int>,
) -> (r: Vec<Hit>)
    requires
        same_ranges(rel@, ranges),
        base + len <= u64::MAX,
        forall|i: int| 0 <= i < ranges.len() ==> (#[trigger] ranges[i]).0 <= len && ranges[i].1 <= len,
    ensures
        r@ == hits_by_range(ranges, base, hit),
{
    let mut out: Vec<Hit> = Vec::new();
    let mut i: usize = 0;
    while i < rel.len()
        invariant
            i <= rel@.len(),
            same_ranges(rel@, ranges),
            base + len <= u64::MAX,
            forall|k: int|
                0 <= k < ranges.len() ==> (#[trigger] ranges[k]).0 <= len && ranges[k].1 <= len,
            out@.len() == i,
            forall|k: int|
                0 <= k < i ==> #[trigger] out@[k] == hits_by_range(ranges, base, hit)[k],
        decreases rel@.len() - i,
    {
        let (a, b) = rel[i];
        assert(rel@[i as int].0 == ranges[i as int].0);
        let current: bool = match hit {
            Some(h) => h >= base + a as u64 && h < base + b as u64,
            None => false,
        };
        out.push(Hit { start: a, end: b, current });
        i = i + 1;
    }
    assert(out@ =~= hits_by_range(ranges, base, hit));
    out
}

/// Matches of a visual row of a long line under a query over several lines,
/// from ranges of the file. The row's bytes start at `row_start` in the file.
pub fn row_hits_multiline(
    match_ranges: &Vec<(u64, u64)>,
    row_start: u64,
    row_len: usize,
    hit: Option<u64>,
) -> (r: Vec<Hit>)
    requires
        row_start + row_len <= u64::MAX,
    ensures
        r@ == hits_with_lead(
            clipped(match_ranges@, row_start, (row_start + row_len) as u64),
            row_start,
            hit,
        ),
{
    let row_end: u64 = row_start + row_len as u64;
    let rel: Vec<(usize, usize)> = clip_ranges(match_ranges, row_start, row_end);
    let ghost ranges = clipped(match_ranges@, row_start, row_end);
    proof {
        lemma_clipped_bounds(match_ranges@, row_start, row_end);
    }
    let mut out: Vec<Hit> = Vec::new();
    let mut pos: usize = 0;
    let mut i: usize = 0;
    while i < rel.len()
        invariant
            i <= rel@.len(),
            same_ranges(rel@, ranges),
            row_start + row_len <= u64::MAX,
            forall|k: int|
                0 <= k < ranges.len() ==> (#[trigger] ranges[k]).0 <= row_len && ranges[k].1
                    <= row_len,
            pos <= row_len,
            pos == if i == 0 {
                0
            } else {
                ranges[i - 1].1
            },
            out@.len() == i,
            forall|k: int|
                0 <= k < i ==> #[trigger] out@[k] == hits_with_lead(ranges, row_start, hit)[k],
        decreases rel@.len() - i,
    {
        let (a, b) = rel[i];
        assert(rel@[i as int].0 == ranges[i as int].0);
        let current: bool = match hit {
            Some(h) => h >= row_start + pos as u64 && h < row_start + b as u64,
            None => false,
        };
        out.push(Hit { start: a, end: b, current });
        pos = b;
        i = i + 1;
    }
    assert(out@ =~= hits_with_lead(ranges, row_start, hit));
    out
}

/// A line belongs to the match that the search stands on: it shares bytes with
/// the `query_len` bytes from there on.
pub open spec fn line_in_current(
    line_start: int,
    line_end: int,
    hit: Option<u64>,
    query_len: int,
) -> bool {
    hit matches Some(h) && line_start < h + query_len && line_end > h
}

/// Matches of an ordinary line under a query over several lines. A match that
/// spans several lines is the current one in each of them.
pub fn line_hits_multiline(
    match_ranges: &Vec<(u64, u64)>,
    line_start: u64,
    line_len: usize,
    hit: Option<u64>,
    query_len: usize,
) -> (r: Vec<Hit>)
    requires
        line_start + line_len <= u64::MAX,
        hit matches Some(h) ==> h + query_len <= u64::MAX,
    ensures
        r@ == hits_all(
            clipped(match_ranges@, line_start, (line_start + line_len) as u64),
            line_in_current(line_start as int, line_start + line_len, hit, query_len as int),
        ),
{
    let line_end: u64 = line_start + line_len as u64;
    let rel: Vec<(usize, usize)> = clip_ranges(match_ranges, line_start, line_end);
    let current: bool = match hit {
        Some(h) => line_start < h + query_len as u64 && line_end > h,
        None => false,
    };
    let ghost ranges = clipped(match_ranges@, line_start, line_end);
    let mut out: Vec<Hit> = Vec::new();
    let mut i: usize = 0;
    while i < rel.len()
        invariant
            i <= rel@.len(),
            same_ranges(rel@, ranges),
            out@.len() == i,
            forall|k: int| 0 <= k < i ==> #[trigger] out@[k] == hits_all(ranges, current)[k],
        decreases rel@.len() - i,
    {
        let (a, b) = rel[i];
        assert(rel@[i as int].0 == ranges[i as int].0);
        out.push(Hit { start: a, end: b, current });
        i = i + 1;
    }
    assert(out@ =~= hits_all(ranges, current));
    out
}

/// Ranges as they are, none ending behind `len`.
pub open spec fn cut_at(ranges: Seq<(usize, usize)>, len: int) -> Seq<(int, int)> {
    Seq::new(ranges.len(), |i: int| (ranges[i].0 as int, min_int(ranges[i].1 as int, len)))
}

/// Matches of an ordinary line under a query within a line.
pub fn line_hits(
    matches: &Vec<(usize, usize)>,
    line_start: u64,
    line_len: usize,
    hit: Option<u64>,
) -> (r: Vec<Hit>)
    requires
        forall|i: int| 0 <= i < matches@.len() ==> (#[trigger] matches@[i]).0 <= line_len,
        line_start + line_len <= u64::MAX,
    ensures
        r@ == hits_by_range(cut_at(matches@, line_len as int), line_start, hit),
{
    let mut rel: Vec<(usize, usize)> = Vec::new();
    let mut i: usize = 0;
    while i < matches.len()
        invariant
            i <= matches@.len(),
            rel@.len() == i,
            forall|k: int|
                0 <= k < i ==> (#[trigger] rel@[k]).0 == cut_at(matches@, line_len as int)[k].0
                    && rel@[k].1 == cut_at(matches@, line_len as int)[k].1,
        decreases matches@.len() - i,
    {
        let (a, b) = matches[i];
        rel.push((
            a,
            if b <= line_len {
                b
            } else {
                line_len
            },
        ));
        i = i + 1;
    }
    mark_by_range(
        &rel,
        line_start,
        hit,
        Ghost(cut_at(matches@, line_len as int)),
        Ghost(line_len as int),
    )
}

// ---------------------------------------------------------------------------
// Laws
// ---------------------------------------------------------------------------

/// Matches in ascending order that do not overlap and lie in a line.
pub open spec fn hits_in_order(hits: Seq<Hit>, len: usize) -> bool {
    &&& forall|i: int|
        0 <= i < hits.len() ==> (#[trigger] hits[i]).start <= hits[i].end && hits[i].end <= len
    &&& forall|i: int, j: int|
        #![trigger hits[i], hits[j]]
        0 <= i < j < hits.len() ==> hits[i].end <= hits[j].start
}

/// The segments follow each other without gap or overlap from `from` to `to`.
pub open spec fn covers(segments: Seq<Segment>, from: usize, to: usize) -> bool
    decreases segments.len(),
{
    if segments.len() == 0 {
        from == to
    } else {
        &&& segments.last().end == to
        &&& segments.last().start <= to
        &&& covers(segments.drop_last(), from, segments.last().start)
    }
}

/// Nothing of a line is lost or shown twice: the segments cover it from its
/// start to its end.
pub proof fn law_segments_cover_the_line(hits: Seq<Hit>, len: usize)
    requires
        hits_in_order(hits, len),
    ensures
        covers(segments_of(hits, len), 0, len),
{
    lemma_painted_covers(hits, len);
    lemma_covers_gap(painted(hits), 0, end_of(hits), len);
}

proof fn lemma_painted_covers(hits: Seq<Hit>, len: usize)
    requires
        hits_in_order(hits, len),
    ensures
        covers(painted(hits), 0, end_of(hits)),
        end_of(hits) <= len,
    decreases hits.len(),
{
    if hits.len() > 0 {
        let front = hits.drop_last();
        lemma_painted_covers(front, len);
        if front.len() > 0 {
            assert(front.last() == hits[hits.len() - 2]);
        }
        lemma_covers_gap(painted(front), 0, end_of(front), hits.last().start);
        let lead = painted(front) + gap(end_of(front), hits.last().start);
        assert(painted(hits).drop_last() =~= lead);
    }
}

proof fn lemma_covers_gap(segments: Seq<Segment>, from: usize, a: usize, b: usize)
    requires
        covers(segments, from, a),
        a <= b,
    ensures
        covers(segments + gap(a, b), from, b),
{
    if a < b {
        assert((segments + gap(a, b)).drop_last() =~= segments);
    } else {
        assert(segments + gap(a, b) =~= segments);
    }
}

/// Exactly the matches are highlighted: leaving out the plain segments leaves
/// the segments of the matches, in order.
pub proof fn law_matches_are_highlighted(hits: Seq<Hit>, len: usize)
    ensures
        segments_of(hits, len).filter(|s: Segment| s.kind != SegmentKind::Plain) == Seq::new(
            hits.len(),
            |i: int| hit_segment(hits[i]),
        ),
{
    let p = |s: Segment| s.kind != SegmentKind::Plain;
    lemma_painted_filter(hits);
    lemma_filter_gap(painted(hits), end_of(hits), len);
}

proof fn lemma_filter_gap(segments: Seq<Segment>, a: usize, b: usize)
    ensures
        (segments + gap(a, b)).filter(|s: Segment| s.kind != SegmentKind::Plain)
            == segments.filter(|s: Segment| s.kind != SegmentKind::Plain),
{
    reveal(Seq::filter);
    let p = |s: Segment| s.kind != SegmentKind::Plain;
    if a < b {
        let s = segments + gap(a, b);
        assert(s.drop_last() =~= segments);
        assert(s.last() == gap(a, b)[0]);
    } else {
        assert(segments + gap(a, b) =~= segments);
    }
}

proof fn lemma_painted_filter(hits: Seq<Hit>)
    ensures
        painted(hits).filter(|s: Segment| s.kind != SegmentKind::Plain) == Seq::new(
            hits.len(),
            |i: int| hit_segment(hits[i]),
        ),
    decreases hits.len(),
{
    reveal(Seq::filter);
    let p = |s: Segment| s.kind != SegmentKind::Plain;
    if hits.len() > 0 {
        let front = hits.drop_last();
        lemma_painted_filter(front);
        lemma_filter_gap(painted(front), end_of(front), hits.last().start);
        let lead = painted(front) + gap(end_of(front), hits.last().start);
        assert(painted(hits).drop_last() =~= lead);
        assert(painted(hits).last() == hit_segment(hits.last()));
        assert(painted(hits).filter(p) == lead.filter(p).push(hit_segment(hits.last())));
        assert(Seq::new(hits.len(), |i: int| hit_segment(hits[i])) =~= Seq::new(
            front.len(),
            |i: int| hit_segment(front[i]),
        ).push(hit_segment(hits.last())));
    } else {
        assert(painted(hits).filter(p) =~= Seq::<Segment>::empty());
        assert(Seq::new(hits.len(), |i: int| hit_segment(hits[i])) =~= Seq::<Segment>::empty());
    }
}

/// A place lies in one of some ranges.
pub open spec fn in_any(ranges: Seq<(u64, u64)>, k: int) -> bool {
    exists|i: int| 0 <= i < ranges.len() && (#[trigger] ranges[i]).0 <= k < ranges[i].1
}

/// Every byte of a line is painted in one piece or as a part of one: as a match where it
/// lies in one, in the colour of the current one where that is it, and plain otherwise.
pub proof fn law_every_byte_is_painted(hits: &Vec<Hit>, len: usize, r: Vec<Segment>, i: int, b: int)
    requires
        call_ensures(paint_segments, (hits, len), r),
        hits_in_order(hits@, len),
        0 <= i < r@.len(),
        r@[i].start <= b < r@[i].end,
    ensures
        b < len,
        r@[i].kind == SegmentKind::Plain ==> forall|h: int|
            0 <= h < hits@.len() ==> !((#[trigger] hits@[h]).start <= b < hits@[h].end),
        r@[i].kind != SegmentKind::Plain ==> exists|h: int|
            0 <= h < hits@.len() && (#[trigger] hits@[h]).start <= b < hits@[h].end && hits@[h].current
                == (r@[i].kind == SegmentKind::Current),
        i == 0 ==> r@[i].start == 0,
        i > 0 ==> r@[i].start == r@[i - 1].end,
        r@[r@.len() - 1].end == len,
{
    law_segments_cover_the_line(hits@, len);
    lemma_cover_step(r@, 0, len, i);
    lemma_segment_kind(hits@, len, i);
}

proof fn lemma_cover_step(s: Seq<Segment>, from: usize, to: usize, i: int)
    requires
        covers(s, from, to),
        0 <= i < s.len(),
    ensures
        i == 0 ==> s[i].start == from,
        i > 0 ==> s[i].start == s[i - 1].end,
        s[s.len() - 1].end == to,
        s[i].end <= to,
    decreases s.len(),
{
    let front = s.drop_last();
    assert(covers(front, from, s.last().start));
    if i < s.len() - 1 {
        lemma_cover_step(front, from, s.last().start, i);
    } else if i > 0 {
        lemma_cover_step(front, from, s.last().start, i - 1);
    }
}

proof fn lemma_segment_kind(hits: Seq<Hit>, len: usize, i: int)
    requires
        hits_in_order(hits, len),
        0 <= i < segments_of(hits, len).len(),
    ensures
        ({
            let s = segments_of(hits, len)[i];
            if s.kind == SegmentKind::Plain {
                forall|h: int|
                    0 <= h < hits.len() ==> (#[trigger] hits[h]).end <= s.start || s.end
                        <= hits[h].start
            } else {
                exists|h: int|
                    0 <= h < hits.len() && (#[trigger] hits[h]).start == s.start && hits[h].end
                        == s.end && hits[h].current == (s.kind == SegmentKind::Current)
            }
        }),
{
    if i < painted(hits).len() {
        lemma_painted_kind(hits, len, i);
        assert(segments_of(hits, len)[i] == painted(hits)[i]);
    } else {
        assert(segments_of(hits, len)[i] == gap(end_of(hits), len)[0]);
        assert forall|h: int| 0 <= h < hits.len() implies (#[trigger] hits[h]).end
            <= end_of(hits) by {
            if h < hits.len() - 1 {
                assert(hits[h].end <= hits[hits.len() - 1].start);
            }
        }
    }
}

proof fn lemma_painted_kind(hits: Seq<Hit>, len: usize, i: int)
    requires
        hits_in_order(hits, len),
        0 <= i < painted(hits).len(),
    ensures
        ({
            let s = painted(hits)[i];
            if s.kind == SegmentKind::Plain {
                forall|h: int|
                    0 <= h < hits.len() ==> (#[trigger] hits[h]).end <= s.start || s.end
                        <= hits[h].start
            } else {
                exists|h: int|
                    0 <= h < hits.len() && (#[trigger] hits[h]).start == s.start && hits[h].end
                        == s.end && hits[h].current == (s.kind == SegmentKind::Current)
            }
        }),
        painted(hits)[i].end <= end_of(hits),
    decreases hits.len(),
{
    let front = hits.drop_last();
    let last = hits.last();
    let lead = painted(front) + gap(end_of(front), last.start);
    let s = painted(hits)[i];
    assert(hits[hits.len() - 1] == last);
    assert forall|a: int, b: int|
        #![trigger front[a], front[b]]
        0 <= a < b < front.len() implies front[a].end <= front[b].start by {
        assert(front[a] == hits[a] && front[b] == hits[b]);
    }
    assert(hits_in_order(front, len)) by {
        assert forall|a: int| 0 <= a < front.len() implies (#[trigger] front[a]).start <= front[a].end
            && front[a].end <= len by {
            assert(front[a] == hits[a]);
        }
    }
    assert(front.len() > 0 ==> end_of(front) <= last.start) by {
        if front.len() > 0 {
            assert(hits[hits.len() - 2].end <= hits[hits.len() - 1].start);
        }
    }
    if i < painted(front).len() {
        lemma_painted_kind(front, len, i);
        assert(s == painted(front)[i]);
        if s.kind == SegmentKind::Plain {
            assert forall|h: int| 0 <= h < hits.len() implies (#[trigger] hits[h]).end <= s.start
                || s.end <= hits[h].start by {
                if h < front.len() {
                    assert(hits[h] == front[h]);
                }
            }
        } else {
            let h = choose|h: int|
                0 <= h < front.len() && (#[trigger] front[h]).start == s.start && front[h].end
                    == s.end && front[h].current == (s.kind == SegmentKind::Current);
            assert(hits[h] == front[h]);
        }
    } else if i < lead.len() {
        assert(s == gap(end_of(front), last.start)[0]);
        assert forall|h: int| 0 <= h < hits.len() implies (#[trigger] hits[h]).end <= s.start || s.end
            <= hits[h].start by {
            if h < front.len() - 1 {
                assert(hits[h].end <= hits[front.len() - 1].start);
            }
        }
    } else {
        assert(s == hit_segment(last));
        assert(hits[hits.len() - 1].start == s.start);
    }
}

/// What is clipped to a part of the file is what the ranges have in common with it, told
/// from the start of the part.
pub proof fn law_clipped_ranges_are_what_is_in_common(
    ranges: &Vec<(u64, u64)>,
    lo: u64,
    hi: u64,
    r: Vec<(usize, usize)>,
    k: int,
)
    requires
        call_ensures(clip_ranges, (ranges, lo, hi), r),
        lo <= k < hi,
        forall|i: int, j: int|
            #![trigger ranges@[i], ranges@[j]]
            0 <= i < j < ranges@.len() ==> ranges@[i].0 <= ranges@[j].0,
    ensures
        in_any(ranges@, k) == exists|i: int|
            0 <= i < r@.len() && (#[trigger] r@[i]).0 <= k - lo < r@[i].1,
        forall|i: int| 0 <= i < r@.len() ==> (#[trigger] r@[i]).1 <= hi - lo,
{
    let c = clipped(ranges@, lo, hi);
    lemma_clipped(ranges@, lo, hi, k);
    assert(in_any(ranges@, k) == exists|i: int|
        0 <= i < c.len() && (#[trigger] c[i]).0 <= k - lo < c[i].1);
    if exists|i: int| 0 <= i < c.len() && (#[trigger] c[i]).0 <= k - lo < c[i].1 {
        let i = choose|i: int| 0 <= i < c.len() && (#[trigger] c[i]).0 <= k - lo < c[i].1;
        assert(r@[i].0 <= k - lo < r@[i].1);
    }
    if exists|i: int| 0 <= i < r@.len() && (#[trigger] r@[i]).0 <= k - lo < r@[i].1 {
        let i = choose|i: int| 0 <= i < r@.len() && (#[trigger] r@[i]).0 <= k - lo < r@[i].1;
        assert(c[i].0 <= k - lo < c[i].1);
    }
}

proof fn lemma_clipped(ranges: Seq<(u64, u64)>, lo: u64, hi: u64, k: int)
    requires
        lo <= k < hi,
        forall|i: int, j: int|
            #![trigger ranges[i], ranges[j]]
            0 <= i < j < ranges.len() ==> ranges[i].0 <= ranges[j].0,
    ensures
        in_any(ranges, k) == exists|i: int|
            0 <= i < clipped(ranges, lo, hi).len() && (#[trigger] clipped(ranges, lo, hi)[i]).0 <= k
                - lo < clipped(ranges, lo, hi)[i].1,
        forall|i: int|
            0 <= i < clipped(ranges, lo, hi).len() ==> (#[trigger] clipped(ranges, lo, hi)[i]).1
                <= hi - lo,
    decreases ranges.len(),
{
    if ranges.len() > 0 {
        let rest = ranges.skip(1);
        let (s, e) = ranges[0];
        assert forall|i: int, j: int|
            #![trigger rest[i], rest[j]]
            0 <= i < j < rest.len() implies rest[i].0 <= rest[j].0 by {
            assert(rest[i] == ranges[i + 1] && rest[j] == ranges[j + 1]);
        }
        lemma_clipped(rest, lo, hi, k);
        assert(in_any(ranges, k) == (s <= k < e || in_any(rest, k))) by {
            if in_any(ranges, k) {
                let i = choose|i: int| 0 <= i < ranges.len() && (#[trigger] ranges[i]).0 <= k < ranges[i].1;
                if i > 0 {
                    assert(rest[i - 1] == ranges[i]);
                }
            }
            if in_any(rest, k) {
                let i = choose|i: int| 0 <= i < rest.len() && (#[trigger] rest[i]).0 <= k < rest[i].1;
                assert(ranges[i + 1] == rest[i]);
            }
            if s <= k < e {
                assert(ranges[0].0 <= k < ranges[0].1);
            }
        }
        let c = clipped(ranges, lo, hi);
        let d = clipped(rest, lo, hi);
        if e <= lo {
        } else if s >= hi {
            assert(!in_any(ranges, k)) by {
                if in_any(ranges, k) {
                    let i = choose|i: int| 0 <= i < ranges.len() && (#[trigger] ranges[i]).0 <= k
                        < ranges[i].1;
                    if i > 0 {
                        assert(ranges[0].0 <= ranges[i].0);
                    }
                }
            }
        } else {
            assert(c[0].0 <= k - lo < c[0].1 <==> s <= k < e);
            assert(forall|i: int| 0 <= i < d.len() ==> c[i + 1] == #[trigger] d[i]);
            if exists|i: int| 0 <= i < d.len() && (#[trigger] d[i]).0 <= k - lo < d[i].1 {
                let i = choose|i: int| 0 <= i < d.len() && (#[trigger] d[i]).0 <= k - lo < d[i].1;
                assert(c[i + 1].0 <= k - lo < c[i + 1].1);
            }
            if exists|i: int| 0 <= i < c.len() && (#[trigger] c[i]).0 <= k - lo < c[i].1 {
                let i = choose|i: int| 0 <= i < c.len() && (#[trigger] c[i]).0 <= k - lo < c[i].1;
                if i > 0 {
                    assert(d[i - 1].0 <= k - lo < d[i - 1].1);
                }
            }
            assert forall|i: int| 0 <= i < c.len() implies (#[trigger] c[i]).1 <= hi - lo by {
                if i > 0 {
                    assert(d[i - 1].1 <= hi - lo);
                }
            }
        }
    }
}

/// The ranges of a line in the file are those in the line, moved by its start.
pub proof fn law_ranges_move_with_their_line(
    ranges: &Vec<(usize, usize)>,
    start: u64,
    r: Vec<(u64, u64)>,
    i: int,
)
    requires
        call_ensures(file_ranges, (ranges, start), r),
        0 <= i < ranges@.len(),
        start + ranges@[i].0 <= u64::MAX,
        start + ranges@[i].1 <= u64::MAX,
    ensures
        r@.len() == ranges@.len(),
        r@[i].0 - start == ranges@[i].0,
        r@[i].1 - start == ranges@[i].1,
{
}

/// The matches of a line are painted in a row where they stand in it: a byte of the row is
/// in a match of the row where it is in one of the line. The one that the search stands on
/// is painted as the current one.
pub proof fn law_rows_show_the_matches_of_their_line(
    matches: &Vec<(usize, usize)>,
    line_len: usize,
    row_off: usize,
    row_end: usize,
    line_start: u64,
    hit: Option<u64>,
    r: Vec<Hit>,
    b: int,
)
    requires
        call_ensures(row_hits, (matches, line_len, row_off, row_end, line_start, hit), r),
        ranges_within(matches@, line_len as int),
        row_off <= row_end <= line_len,
        line_start + line_len <= u64::MAX,
        forall|i: int, j: int|
            #![trigger matches@[i], matches@[j]]
            0 <= i < j < matches@.len() ==> matches@[i].0 <= matches@[j].0,
        row_off <= b < row_end,
    ensures
        (exists|i: int| 0 <= i < matches@.len() && (#[trigger] matches@[i]).0 <= b < matches@[i].1)
            == exists|i: int| 0 <= i < r@.len() && (#[trigger] r@[i]).start <= b - row_off < r@[i].end,
        forall|i: int|
            0 <= i < r@.len() ==> (#[trigger] r@[i]).current == (hit is Some && line_start + row_off
                + r@[i].start <= hit->0 < line_start + row_off + r@[i].end),
{
    let file = in_file(matches@, line_start);
    let lo = (line_start + row_off) as u64;
    let hi = (line_start + row_end) as u64;
    let k = line_start + b;
    assert forall|i: int| 0 <= i < matches@.len() implies (#[trigger] file[i]).0 == line_start
        + matches@[i].0 && file[i].1 == line_start + matches@[i].1 by {
        assert(matches@[i].0 <= matches@[i].1 && matches@[i].1 <= line_len);
    }
    assert forall|i: int, j: int|
        #![trigger file[i], file[j]]
        0 <= i < j < file.len() implies file[i].0 <= file[j].0 by {
        assert(matches@[i].0 <= matches@[j].0);
    }
    lemma_clipped(file, lo, hi, k);
    let c = clipped(file, lo, hi);
    lemma_clipped_small(file, lo, hi);
    assert forall|i: int| 0 <= i < c.len() implies (#[trigger] r@[i]).start == c[i].0 && r@[i].end
        == c[i].1 by {
        assert(0 <= c[i].0 && 0 <= c[i].1 <= hi - lo);
    }
    if in_any(file, k) {
        let i = choose|i: int| 0 <= i < file.len() && (#[trigger] file[i]).0 <= k < file[i].1;
        assert(matches@[i].0 <= b < matches@[i].1);
        let j = choose|j: int| 0 <= j < c.len() && (#[trigger] c[j]).0 <= k - lo < c[j].1;
        assert(r@[j].start <= b - row_off < r@[j].end);
    }
    if exists|i: int| 0 <= i < matches@.len() && (#[trigger] matches@[i]).0 <= b < matches@[i].1 {
        let i = choose|i: int| 0 <= i < matches@.len() && (#[trigger] matches@[i]).0 <= b < matches@[i].1;
        assert(file[i].0 <= k < file[i].1);
        assert(in_any(file, k));
    }
    if exists|i: int| 0 <= i < r@.len() && (#[trigger] r@[i]).start <= b - row_off < r@[i].end {
        let i = choose|i: int| 0 <= i < r@.len() && (#[trigger] r@[i]).start <= b - row_off < r@[i].end;
        assert(c[i].0 <= k - lo < c[i].1);
        assert(in_any(file, k));
    }
}

proof fn lemma_clipped_small(ranges: Seq<(u64, u64)>, lo: u64, hi: u64)
    requires
        lo <= hi,
        forall|i: int| 0 <= i < ranges.len() ==> (#[trigger] ranges[i]).0 <= ranges[i].1,
    ensures
        forall|i: int|
            0 <= i < clipped(ranges, lo, hi).len() ==> 0 <= (#[trigger] clipped(ranges, lo, hi)[i]).0
                <= hi - lo && 0 <= clipped(ranges, lo, hi)[i].1 <= hi - lo,
    decreases ranges.len(),
{
    if ranges.len() > 0 {
        let rest = ranges.skip(1);
        assert forall|i: int| 0 <= i < rest.len() implies (#[trigger] rest[i]).0 <= rest[i].1 by {
            assert(rest[i] == ranges[i + 1]);
        }
        lemma_clipped_small(rest, lo, hi);
        let c = clipped(ranges, lo, hi);
        let d = clipped(rest, lo, hi);
        assert forall|i: int| 0 <= i < c.len() implies 0 <= (#[trigger] c[i]).0 <= hi - lo && 0
            <= c[i].1 <= hi - lo by {
            if ranges[0].1 <= lo {
                assert(c[i] == d[i]);
            } else if i > 0 {
                assert(c[i] == d[i - 1]);
            }
        }
    }
}

/// The matches of a line are painted where they stand, up to its end, and the one that
/// the search stands on as the current one.
pub proof fn law_lines_show_their_matches(
    matches: &Vec<(usize, usize)>,
    line_start: u64,
    line_len: usize,
    hit: Option<u64>,
    r: Vec<Hit>,
    i: int,
)
    requires
        call_ensures(line_hits, (matches, line_start, line_len, hit), r),
        0 <= i < matches@.len(),
        matches@[i].0 <= matches@[i].1,
    ensures
        r@.len() == matches@.len(),
        r@[i].start == matches@[i].0,
        matches@[i].1 <= line_len ==> r@[i].end == matches@[i].1,
        matches@[i].1 > line_len ==> r@[i].end == line_len,
        r@[i].current == (hit is Some && line_start + r@[i].start <= hit->0 < line_start + r@[i].end),
{
}

/// A match over several lines is the current one on every line that it reaches into.
pub proof fn law_long_matches_light_every_line(
    ranges: &Vec<(u64, u64)>,
    line_start: u64,
    line_len: usize,
    h: u64,
    query_len: usize,
    r: Vec<Hit>,
    i: int,
    k: int,
)
    requires
        call_ensures(line_hits_multiline, (ranges, line_start, line_len, Some(h), query_len), r),
        0 <= i < r@.len(),
    ensures
        line_start <= k < line_start + line_len && h <= k < h + query_len ==> r@[i].current,
        (h + query_len <= line_start || line_start + line_len <= h) ==> !r@[i].current,
{
}

/// Under a query over several lines a row and a line light what the matches of the file have
/// in common with them, and the match that the search stands in is the current one.
pub proof fn law_matches_over_lines_are_lit(
    ranges: &Vec<(u64, u64)>,
    start: u64,
    len: usize,
    end: u64,
    hit: Option<u64>,
    query_len: usize,
    common: Vec<(usize, usize)>,
    row: Vec<Hit>,
    line: Vec<Hit>,
    i: int,
)
    requires
        end == start + len,
        call_ensures(clip_ranges, (ranges, start, end), common),
        call_ensures(row_hits_multiline, (ranges, start, len, hit), row),
        call_ensures(line_hits_multiline, (ranges, start, len, hit, query_len), line),
    ensures
        row@.len() == common@.len() && line@.len() == common@.len(),
        0 <= i < common@.len() ==> {
            &&& row@[i].start == common@[i].0 && row@[i].end == common@[i].1
            &&& line@[i].start == common@[i].0 && line@[i].end == common@[i].1
            &&& hit is Some && start + common@[i].0 <= hit->0 < start + common@[i].1 && (i == 0
                || common@[i - 1].1 <= common@[i].0) ==> row@[i].current
            &&& hit is None ==> !row@[i].current && !line@[i].current
            &&& hit is Some && hit->0 >= start + common@[i].1 ==> !row@[i].current
        },
{
    lemma_clipped_bounds(ranges@, start, end);
    let c = clipped(ranges@, start, end);
    if 0 <= i < common@.len() {
        assert(0 <= c[i].0 && 0 <= c[i].1 <= end - start && c[i].0 <= end - start);
        if i > 0 {
            assert(0 <= c[i - 1].1 <= end - start);
        }
    }
}

} // verus!
