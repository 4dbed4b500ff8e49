//! Text positions for CoreText, whose strings are counted in UTF-16 code units.

use vstd::prelude::*;
use vstd::utf8::encode_utf8;

use crate::text::{
    byte_at, char_index_at_unit, eq_ignore_ascii_case, first_char_at_unit, len_utf16, len_utf8,
    lemma_byte_at_step, lemma_char_index_at_unit, lemma_offsets_ends, lemma_offsets_monotone,
    lemma_unit_at_step, same_but_case, unit_at, utf8_len,
};
use crate::utf16::{encode, lemma_encode_len};

verus! {

broadcast use vstd::string::group_string_axioms;

/// Most segments that one line is broken into.
pub const MAX_SEGMENTS: usize = 1000;

/// UTF-8 byte offset of the first character at or after a code unit offset;
/// the length of the text where there is none.
pub fn utf16_to_byte(text: &str, u16_idx: usize) -> (r: usize)
    ensures
        r == byte_at(text@, char_index_at_unit(text@, u16_idx as int)),
{
    let total: usize = text.as_bytes().len();
    let mut byte: usize = 0;
    let mut units: usize = 0;
    proof {
        lemma_offsets_ends(text@);
        lemma_offsets_monotone(text@, 0, text@.len() as int);
        lemma_char_index_at_unit(text@, u16_idx as int);
    }
    for c in it: text.chars()
        invariant
            it.seq() == text@,
            total == utf8_len(text@),
            forall|k: int| #[trigger]
                first_char_at_unit(text@, u16_idx as int, k) ==> k == char_index_at_unit(
                    text@,
                    u16_idx as int,
                ),
            units == unit_at(text@, it.index() as int),
            byte == byte_at(text@, it.index() as int),
            it.index() > 0 ==> unit_at(text@, it.index() - 1) < u16_idx,
    {
        let ghost k = it.index() as int;
        if units >= u16_idx {
            assert(first_char_at_unit(text@, u16_idx as int, k));
            return byte;
        }
        proof {
            lemma_unit_at_step(text@, k);
            lemma_byte_at_step(text@, k);
            lemma_offsets_monotone(text@, k + 1, text@.len() as int);
        }
        byte = byte + len_utf8(c);
        units = units + len_utf16(c);
    }
    assert(first_char_at_unit(text@, u16_idx as int, text@.len() as int));
    byte
}

/// What a character is shown as where white space is made visible.
pub open spec fn visible_char(c: char) -> char {
    if c == ' ' {
        '·'
    } else if c == '\t' {
        '→'
    } else {
        c
    }
}

/// Makes blanks and tabs visible.
pub fn replace_whitespace(s: &str) -> (r: String)
    ensures
        r@.len() == s@.len(),
        forall|i: int| 0 <= i < s@.len() ==> #[trigger] r@[i] == visible_char(s@[i]),
{
    let mut out = String::new();
    for c in it: s.chars()
        invariant
            it.seq() == s@,
            out@.len() == it.index(),
            forall|i: int| 0 <= i < out@.len() ==> #[trigger] out@[i] == visible_char(s@[i]),
    {
        let shown: char = if c == ' ' {
            '·'
        } else if c == '\t' {
            '→'
        } else {
            c
        };
        out.push(shown);
    }
    out
}

// ---------------------------------------------------------------------------
// Segments
// ---------------------------------------------------------------------------

/// A suggested break was asked for at a place.
pub open spec fn suggested<F: Fn(usize) -> usize>(suggest: F, start: usize, brk: usize) -> bool {
    suggest.ensures((start,), brk)
}

/// Where a segment ends that begins at a place: at the suggested break, at the
/// end of the text where that is not behind the place or beyond the text.
pub open spec fn segment_end(brk: int, start: int, total: int) -> int {
    if brk <= start || brk > total {
        total
    } else {
        brk
    }
}

/// A segment begins where the one before it ends, and ends where it was
/// suggested.
pub open spec fn segment_ok<F: Fn(usize) -> usize>(
    suggest: F,
    segments: Seq<(usize, usize)>,
    total: int,
    i: int,
) -> bool {
    let (start, end) = segments[i];
    &&& start == if i == 0 {
        0
    } else {
        segments[i - 1].1
    }
    &&& start < end <= total
    &&& exists|brk: usize| #[trigger]
        suggested(suggest, start, brk) && end == segment_end(brk as int, start as int, total)
}

/// Segments follow each other from the start of a text.
pub open spec fn is_broken<F: Fn(usize) -> usize>(
    suggest: F,
    segments: Seq<(usize, usize)>,
    total: int,
) -> bool {
    forall|i: int| 0 <= i < segments.len() ==> #[trigger] segment_ok(suggest, segments, total, i)
}

proof fn lemma_prefix_broken<F: Fn(usize) -> usize>(
    suggest: F,
    short: Seq<(usize, usize)>,
    long: Seq<(usize, usize)>,
    total: int,
    i: int,
)
    requires
        0 <= i < short.len() <= long.len(),
        short == long.take(short.len() as int),
    ensures
        segment_ok(suggest, short, total, i) == segment_ok(suggest, long, total, i),
{
    assert(short[i] == long[i]);
    if i > 0 {
        assert(short[i - 1] == long[i - 1]);
    }
}

/// Breaks a text of `total` code units into segments; `suggest` gives a place to
/// break behind another. A text has at most so many segments; what is left then
/// is in none.
pub fn wrap_into_segments<F: Fn(usize) -> usize>(total: usize, suggest: &F) -> (r: Vec<
    (usize, usize),
>)
    requires
        forall|start: usize| suggest.requires((start,)),
    ensures
        is_broken(*suggest, r@, total as int),
        r@.len() <= MAX_SEGMENTS,
        total == 0 ==> r@.len() == 0,
        total > 0 ==> r@.len() > 0 && (r@.last().1 == total || r@.len() == MAX_SEGMENTS),
{
    let mut segments: Vec<(usize, usize)> = Vec::new();
    let mut start: usize = 0;
    while start < total && segments.len() < MAX_SEGMENTS
        invariant
            start <= total,
            segments@.len() <= MAX_SEGMENTS,
            forall|s: usize| suggest.requires((s,)),
            start == if segments@.len() == 0 {
                0
            } else {
                segments@.last().1
            },
            is_broken(*suggest, segments@, total as int),
        decreases total - start,
    {
        let brk: usize = (*suggest)(start);
        let end: usize = if brk <= start || brk > total {
            total
        } else {
            brk
        };
        let ghost before = segments@;
        segments.push((start, end));
        proof {
            assert(suggest.ensures((start,), brk));
            assert(suggested(*suggest, start, brk));
            assert forall|i: int| 0 <= i < segments@.len() implies #[trigger] segment_ok(
                *suggest,
                segments@,
                total as int,
                i,
            ) by {
                if i < before.len() {
                    assert(before =~= segments@.take(before.len() as int));
                    assert(segment_ok(*suggest, before, total as int, i));
                    lemma_prefix_broken(*suggest, before, segments@, total as int, i);
                } else if i > 0 {
                    assert(segments@[i - 1] == before.last());
                }
            }
        }
        start = end;
    }
    proof {
        if segments@.len() > 0 {
            assert(segment_ok(*suggest, segments@, total as int, 0));
        }
    }
    segments
}

/// Rows that a line takes: one where it is not broken, else one for each
/// segment.
pub fn visual_rows(segments: usize) -> (r: usize)
    ensures
        r == if segments == 0 {
            1
        } else {
            segments as int
        },
{
    if segments == 0 {
        1
    } else {
        segments
    }
}

/// Part of a range of code units that lies in a segment, counted from the start
/// of the segment.
pub fn overlap(s: usize, e: usize, loc: usize, len: usize) -> (r: Option<(usize, usize)>)
    requires
        loc + len <= usize::MAX,
    ensures
        ({
            let from = if s >= loc {
                s as int
            } else {
                loc as int
            };
            let to = if e <= loc + len {
                e as int
            } else {
                loc + len
            };
            r == if to <= from {
                None
            } else {
                Some(((from - loc) as usize, (to - loc) as usize))
            }
        }),
{
    let from: usize = if s >= loc {
        s
    } else {
        loc
    };
    let to: usize = if e <= loc + len {
        e
    } else {
        loc + len
    };
    if to <= from {
        None
    } else {
        Some((from - loc, to - loc))
    }
}

/// Code unit that a position on a segment stands for: the one that was found,
/// kept in the segment; the first where none was found.
pub fn clamp_offset(found: i64, loc: usize, len: usize) -> (r: usize)
    requires
        loc + len <= usize::MAX,
        found <= usize::MAX,
    ensures
        r == if found < loc {
            loc as int
        } else if found > loc + len {
            loc + len
        } else {
            found as int
        },
{
    if found < 0 {
        return loc;
    }
    let idx: usize = found as usize;
    if idx < loc {
        loc
    } else if idx > loc + len {
        loc + len
    } else {
        idx
    }
}

// ---------------------------------------------------------------------------
// Fonts
// ---------------------------------------------------------------------------

/// Names that the system gave for a candidate.
pub struct ReportedFont {
    pub post_script_name: String,
    pub family_name: String,
}

/// The system has the font that was asked for.
pub open spec fn is_found(wanted: Seq<char>, got: ReportedFont) -> bool {
    same_but_case(got.post_script_name@, wanted) || same_but_case(got.family_name@, wanted)
}

/// The system has none of the first `n` candidates.
pub open spec fn none_is_found(
    candidates: Seq<String>,
    reported: Seq<ReportedFont>,
    n: int,
) -> bool {
    forall|k: int| 0 <= k < n ==> !is_found((#[trigger] candidates[k])@, reported[k])
}

/// The first candidate that the system has. It always gives some font, so the
/// names of what it gave are compared with those that were asked for.
pub fn pick_font(candidates: &Vec<String>, reported: &Vec<ReportedFont>) -> (r: Option<usize>)
    requires
        candidates@.len() == reported@.len(),
    ensures
        match r {
            Some(i) => {
                &&& i < candidates@.len()
                &&& is_found(candidates@[i as int]@, reported@[i as int])
                &&& none_is_found(candidates@, reported@, i as int)
            },
            None => none_is_found(candidates@, reported@, candidates@.len() as int),
        },
{
    let mut i: usize = 0;
    while i < candidates.len()
        invariant
            i <= candidates@.len(),
            candidates@.len() == reported@.len(),
            forall|k: int| 0 <= k < i ==> !is_found((#[trigger] candidates@[k])@, reported@[k]),
        decreases candidates@.len() - i,
    {
        if eq_ignore_ascii_case(
            reported[i].post_script_name.as_str(),
            candidates[i].as_str(),
        ) || eq_ignore_ascii_case(reported[i].family_name.as_str(), candidates[i].as_str()) {
            return Some(i);
        }
        i = i + 1;
    }
    None
}

/// Segments cover a text without gaps up to where they end.
pub proof fn law_segments_are_contiguous<F: Fn(usize) -> usize>(
    suggest: F,
    segments: Seq<(usize, usize)>,
    total: int,
    unit: int,
)
    requires
        is_broken(suggest, segments, total),
        segments.len() > 0,
        0 <= unit < segments.last().1,
    ensures
        exists|i: int| 0 <= i < segments.len() && (#[trigger] segments[i]).0 <= unit < segments[i].1,
    decreases segments.len(),
{
    let n = segments.len() - 1;
    assert(segments[n] == segments.last());
    assert(segment_ok(suggest, segments, total, n));
    if unit < segments[n].0 {
        let front = segments.drop_last();
        assert(n > 0);
        assert(front.last() == segments[n - 1]);
        assert(is_broken(suggest, front, total)) by {
            assert forall|i: int| 0 <= i < front.len() implies #[trigger] segment_ok(
                suggest,
                front,
                total,
                i,
            ) by {
                assert(front =~= segments.take(front.len() as int));
                assert(segment_ok(suggest, segments, total, i));
                lemma_prefix_broken(suggest, front, segments, total, i);
            }
        }
        law_segments_are_contiguous(suggest, front, total, unit);
        let i = choose|i: int|
            0 <= i < front.len() && (#[trigger] front[i]).0 <= unit < front[i].1;
        assert(segments[i] == front[i]);
    }
}

/// A place in a line has the byte offset of the text in front of it.
pub proof fn law_places_keep_their_bytes(
    text: &str,
    before: Seq<char>,
    behind: Seq<char>,
    unit: usize,
    r: usize,
)
    requires
        call_ensures(utf16_to_byte, (text, unit), r),
        text@ == before + behind,
        unit == encode(before).len(),
    ensures
        r == encode_utf8(before).len(),
{
    let k = before.len() as int;
    assert(text@.take(k) =~= before);
    lemma_encode_len(before);
    lemma_offsets_monotone(text@, 0, k);
    lemma_char_index_at_unit(text@, unit as int);
    if k > 0 {
        lemma_offsets_monotone(text@, k - 1, k);
    }
    assert(first_char_at_unit(text@, unit as int, k));
}

/// Blanks are shown as dots and tabs as arrows, and everything else as it is.
pub proof fn law_white_space_is_shown(s: &str, r: String, i: int)
    requires
        call_ensures(replace_whitespace, (s,), r),
        0 <= i < s@.len(),
    ensures
        r@.len() == s@.len(),
        s@[i] == ' ' ==> r@[i] == '·',
        s@[i] == '\t' ==> r@[i] == '→',
        s@[i] != ' ' && s@[i] != '\t' ==> r@[i] == s@[i],
{
}

/// The segments of a line follow each other from its start, each with something in it, to
/// its end; only a line of a thousand segments can be cut short. A break that was
/// suggested is taken where it lies behind the start of the segment and in the line.
pub proof fn law_segments_cover_the_line<F: Fn(usize) -> usize>(
    total: usize,
    suggest: &F,
    r: Vec<(usize, usize)>,
    i: int,
    brk: usize,
)
    requires
        call_ensures(wrap_into_segments::<F>, (total, suggest), r),
        0 <= i < r@.len(),
        forall|b: usize| #[trigger] call_ensures(*suggest, (r@[i].0,), b) ==> b == brk,
    ensures
        i == 0 ==> r@[i].0 == 0,
        i > 0 ==> r@[i].0 == r@[i - 1].1,
        r@[i].0 < r@[i].1 <= total,
        r@.len() < 1000 ==> r@.last().1 == total,
        r@.len() <= 1000,
        r@[i].0 < brk <= total ==> r@[i].1 == brk,
        !(r@[i].0 < brk <= total) ==> r@[i].1 == total,
{
    assert(segment_ok(*suggest, r@, total as int, i));
    let b = choose|b: usize| #[trigger]
        suggested(*suggest, r@[i].0, b) && r@[i].1 == segment_end(
            b as int,
            r@[i].0 as int,
            total as int,
        );
    assert(call_ensures(*suggest, (r@[i].0,), b));
}

/// A line takes a row for each segment, and an empty one takes a row too.
pub proof fn law_lines_take_a_row_for_each_segment(segments: usize, r: usize)
    requires
        call_ensures(visual_rows, (segments,), r),
    ensures
        r >= 1,
        segments >= 1 ==> r == segments,
{
}

/// What a range and a segment have in common is told from the start of the segment.
pub proof fn law_overlaps_are_what_is_in_common(
    s: usize,
    e: usize,
    loc: usize,
    len: usize,
    r: Option<(usize, usize)>,
    k: int,
)
    requires
        call_ensures(overlap, (s, e, loc, len), r),
        loc + len <= usize::MAX,
        0 <= k < len,
    ensures
        (s <= loc + k < e) == match r {
            Some(o) => o.0 <= k < o.1,
            None => false,
        },
{
}

/// An offset is kept in its segment, and stays as it is where it lies there.
pub proof fn law_offsets_stay_in_their_segment(found: i64, loc: usize, len: usize, r: usize)
    requires
        call_ensures(clamp_offset, (found, loc, len), r),
        loc + len <= usize::MAX,
        found <= usize::MAX,
    ensures
        loc <= r <= loc + len,
        loc <= found <= loc + len ==> r == found,
        found < loc ==> r == loc,
        found > loc + len ==> r == loc + len,
{
}

/// The font is the first one that was asked for and that the system gave, under either of
/// its names in any case.
pub proof fn law_the_first_font_that_is_there_is_taken(
    candidates: &Vec<String>,
    reported: &Vec<ReportedFont>,
    r: Option<usize>,
    k: int,
    wanted: &str,
    family: &str,
    script: &str,
    a: bool,
    b: bool,
)
    requires
        call_ensures(pick_font, (candidates, reported), r),
        candidates@.len() == reported@.len(),
        0 <= k < candidates@.len(),
        wanted@ == candidates@[k]@,
        family@ == reported@[k].family_name@,
        script@ == reported@[k].post_script_name@,
        call_ensures(eq_ignore_ascii_case, (family, wanted), a),
        call_ensures(eq_ignore_ascii_case, (script, wanted), b),
    ensures
        a || b ==> r is Some && r->0 <= k,
        r is Some && r->0 == k ==> a || b,
{
}

} // verus!
