//! Text selection by line and column, a column being a UTF-16 code unit index
//! in its line.

use vstd::prelude::*;
use vstd::utf8::encode_utf8;

use crate::text::{
    byte_at, char_index_at_unit, first_char_at_unit, joined, len_utf16, len_utf8, lemma_byte_at_step,
    lemma_char_index_at_unit, lemma_offsets_ends, lemma_offsets_monotone, lemma_unit_at_step,
    unit_at, utf8_len, views, RawLine,
};
use crate::utf16::{
    decode_lossy, encode, encode_utf16, from_utf16_lossy, lemma_decode_encode, lemma_encode_concat,
    lemma_encode_len,
};

verus! {

broadcast use vstd::string::group_string_axioms;

#[derive(Clone, Copy, Debug, PartialEq, Eq, Structural)]
pub struct Selection {
    pub start_line: u64,
    pub start_col: usize,
    pub end_line: u64,
    pub end_col: usize,
}

impl Selection {
    /// The ends as (line, column, line, column), the earlier one first.
    pub open spec fn ends(self) -> (u64, usize, u64, usize) {
        if self.start_line < self.end_line || (self.start_line == self.end_line && self.start_col
            <= self.end_col) {
            (self.start_line, self.start_col, self.end_line, self.end_col)
        } else {
            (self.end_line, self.end_col, self.start_line, self.start_col)
        }
    }

    /// The ends, the earlier one first.
    pub fn normalized(&self) -> (r: (u64, usize, u64, usize))
        ensures
            r == self.ends(),
            r.0 < r.2 || (r.0 == r.2 && r.1 <= r.3),
    {
        if self.start_line < self.end_line || (self.start_line == self.end_line && self.start_col
            <= self.end_col) {
            (self.start_line, self.start_col, self.end_line, self.end_col)
        } else {
            (self.end_line, self.end_col, self.start_line, self.start_col)
        }
    }

    /// Whether the selection is a single point.
    pub fn is_empty(&self) -> (r: bool)
        ensures
            r == (self.start_line == self.end_line && self.start_col == self.end_col),
    {
        let (sl, sc, el, ec) = self.normalized();
        sl == el && sc == ec
    }
}

pub open spec fn min_nat(a: nat, b: nat) -> nat {
    if a <= b {
        a
    } else {
        b
    }
}

/// What is copied of one line: the code units between the ends that fall in it.
pub open spec fn copied_part(ends: (u64, usize, u64, usize), line: u64, text: Seq<char>) -> Seq<
    char,
> {
    let units = encode(text);
    let a = if line == ends.0 {
        min_nat(ends.1 as nat, units.len())
    } else {
        0
    };
    let b = if line == ends.2 {
        min_nat(ends.3 as nat, units.len())
    } else {
        units.len()
    };
    if a < b {
        decode_lossy(units.subrange(a as int, b as int))
    } else {
        Seq::empty()
    }
}

/// What is copied of the lines `lines`, the first of which is the selection's
/// first: one part for each line, with a line break between two of them.
pub open spec fn copied_text(ends: (u64, usize, u64, usize), lines: Seq<Seq<char>>) -> Seq<char>
    decreases lines.len(),
{
    if lines.len() == 0 {
        Seq::empty()
    } else {
        let part = copied_part(ends, (ends.0 + lines.len() - 1) as u64, lines.last());
        if lines.len() == 1 {
            part
        } else {
            copied_text(ends, lines.drop_last()).push('\n') + part
        }
    }
}

/// A text is what is copied of the lines `lines`, as they were read one by one.
pub open spec fn is_copy_of<F: Fn(u64) -> String>(
    read: F,
    ends: (u64, usize, u64, usize),
    lines: Seq<String>,
    text: Seq<char>,
) -> bool {
    &&& lines.len() == ends.2 - ends.0 + 1
    &&& forall|i: int|
        0 <= i < lines.len() ==> #[trigger] call_ensures(
            read,
            ((ends.0 + i) as u64,),
            lines[i],
        )
    &&& text == copied_text(ends, views(lines))
}

/// The selected text, `None` without a file. `read_line` hands out the text of
/// a line of the open file.
pub fn copy_text<F: Fn(u64) -> String>(read_line: Option<F>, sel: &Selection) -> (r: Option<String>)
    requires
        read_line matches Some(read) ==> forall|line: u64|
            sel.ends().0 <= line <= sel.ends().2 ==> call_requires(read, (line,)),
    ensures
        (read_line is None) == (r is None),
        match read_line {
            Some(read) => exists|lines: Seq<String>| #[trigger]
                is_copy_of(read, sel.ends(), lines, r->0@),
            None => true,
        },
{
    let ghost source = read_line;
    match read_line {
        None => None,
        Some(read) => {
            let text: String = copy_lines(read, sel);
            let r: Option<String> = Some(text);
            assert(r->0@ == text@);
            proof {
                let lines = choose|lines: Seq<String>| #[trigger]
                    is_copy_of(source->0, sel.ends(), lines, text@);
                assert(is_copy_of(source->0, sel.ends(), lines, text@));
                assert(is_copy_of(source->0, sel.ends(), lines, r->0@));
            }
            r
        },
    }
}

fn copy_lines<F: Fn(u64) -> String>(read: F, sel: &Selection) -> (r: String)
    requires
        forall|line: u64|
            sel.ends().0 <= line <= sel.ends().2 ==> call_requires(read, (line,)),
    ensures
        exists|lines: Seq<String>| #[trigger] is_copy_of(read, sel.ends(), lines, r@),
{
    let (sl, sc, el, ec) = sel.normalized();
    let mut out = String::new();
    let mut line: u64 = sl;
    let mut more: bool = true;
    let ghost mut lines: Seq<String> = Seq::empty();
    let ghost ends = sel.ends();
    while more
        invariant
            ends == (sl, sc, el, ec),
            sl <= line <= el,
            forall|l: u64| sl <= l <= el ==> call_requires(read, (l,)),
            lines.len() == line - sl + (if more {
                0int
            } else {
                1int
            }),
            !more ==> line == el,
            forall|i: int|
                0 <= i < lines.len() ==> #[trigger] call_ensures(
                    read,
                    ((sl + i) as u64,),
                    lines[i],
                ),
            out@ == copied_text(ends, views(lines)),
        decreases el - line + (if more { 1int } else { 0int }),
    {
        let text: String = read(line);
        let units: Vec<u16> = encode_utf16(text.as_str());
        let n: usize = units.len();
        let a: usize = if line == sl {
            if sc <= n {
                sc
            } else {
                n
            }
        } else {
            0
        };
        let b: usize = if line == el {
            if ec <= n {
                ec
            } else {
                n
            }
        } else {
            n
        };
        let part: String = if a < b {
            from_utf16_lossy(&units, a, b)
        } else {
            String::new()
        };
        assert(part@ == copied_part(ends, line, text@));
        let ghost before = out@;
        if line != sl {
            out.push('\n');
        }
        out.append(part.as_str());
        proof {
            let grown = lines.push(text);
            assert(views(grown).drop_last() =~= views(lines));
            assert(views(grown).last() == text@);
            assert((sl + grown.len() - 1) as u64 == line);
            if line == sl {
                assert(out@ =~= part@);
            } else {
                assert(out@ =~= before.push('\n') + part@);
            }
            lines = grown;
        }
        if line == el {
            more = false;
        } else {
            line = line + 1;
        }
    }
    assert(is_copy_of(read, ends, lines, out@));
    out
}

/// UTF-8 byte offset of the first character at or after a code unit offset;
/// the length of the text where there is none.
pub fn utf16_to_byte_offset(text: &str, unit: usize) -> (r: usize)
    ensures
        r == byte_at(text@, char_index_at_unit(text@, unit as int)),
{
    let total: usize = text.as_bytes().len();
    let mut u: usize = 0;
    let mut b: usize = 0;
    proof {
        lemma_offsets_ends(text@);
        lemma_offsets_monotone(text@, 0, text@.len() as int);
        lemma_char_index_at_unit(text@, unit as int);
    }
    for ch in it: text.chars()
        invariant
            it.seq() == text@,
            forall|k: int| #[trigger]
                first_char_at_unit(text@, unit as int, k) ==> k == char_index_at_unit(
                    text@,
                    unit as int,
                ),
            total == utf8_len(text@),
            u == unit_at(text@, it.index() as int),
            b == byte_at(text@, it.index() as int),
            it.index() > 0 ==> unit_at(text@, it.index() - 1) < unit,
    {
        let ghost k = it.index() as int;
        if u >= unit {
            assert(first_char_at_unit(text@, unit as int, k));
            return b;
        }
        proof {
            lemma_unit_at_step(text@, k);
            lemma_byte_at_step(text@, k);
            lemma_offsets_monotone(text@, k + 1, text@.len() as int);
        }
        u = u + len_utf16(ch);
        b = b + len_utf8(ch);
    }
    assert(first_char_at_unit(text@, unit as int, text@.len() as int));
    total
}

/// Byte offset in the file of a code unit offset in a line.
pub open spec fn file_offset(raw: RawLine, unit: int) -> int {
    raw.start_byte + byte_at(raw.text@, char_index_at_unit(raw.text@, unit))
}

/// Byte range in the file of a selection, given the lines it starts and ends in.
pub fn annotation_bytes(first: &RawLine, last: &RawLine, sel: &Selection) -> (r: (u64, u64))
    requires
        first.start_byte + utf8_len(first.text@) <= u64::MAX,
        last.start_byte + utf8_len(last.text@) <= u64::MAX,
    ensures
        r.0 == file_offset(*first, sel.ends().1 as int),
        r.1 == file_offset(*last, sel.ends().3 as int),
{
    let (_sl, sc, _el, ec) = sel.normalized();
    let s: usize = utf16_to_byte_offset(first.text.as_str(), sc);
    let e: usize = utf16_to_byte_offset(last.text.as_str(), ec);
    proof {
        lemma_char_index_at_unit(first.text@, sc as int);
        lemma_char_index_at_unit(last.text@, ec as int);
        let i = char_index_at_unit(first.text@, sc as int);
        let j = char_index_at_unit(last.text@, ec as int);
        lemma_offsets_monotone(first.text@, i, first.text@.len() as int);
        lemma_offsets_monotone(last.text@, j, last.text@.len() as int);
    }
    (first.start_byte + s as u64, last.start_byte + e as u64)
}

// ---------------------------------------------------------------------------
// Laws
// ---------------------------------------------------------------------------

/// The ends of a selection do not depend on which of them was set first.
pub proof fn law_direction_does_not_matter(sel: Selection)
    ensures
        sel.ends() == (Selection {
            start_line: sel.end_line,
            start_col: sel.end_col,
            end_line: sel.start_line,
            end_col: sel.start_col,
        }).ends(),
{
}

/// A selection from the start of a line past its end copies the line.
pub proof fn law_whole_line_is_copied(line: u64, end_col: usize, text: Seq<char>)
    requires
        end_col >= encode(text).len(),
    ensures
        copied_text((line, 0, line, end_col), seq![text]) == text,
{
    crate::utf16::lemma_decode_encode(text);
    let units = encode(text);
    assert(units.subrange(0, units.len() as int) =~= units);
    if units.len() == 0 {
        assert(decode_lossy(units) =~= Seq::<char>::empty());
    }
}

/// A part of a line is copied as it is: what stands between the columns at which it
/// starts and ends.
pub proof fn law_a_part_of_a_line_is_copied<F: Fn(u64) -> String>(
    read: F,
    line: u64,
    before: Seq<char>,
    part: Seq<char>,
    behind: Seq<char>,
    sel: &Selection,
    r: Option<String>,
)
    requires
        call_ensures(copy_text::<F>, (Some(read), sel), r),
        forall|text: String| #[trigger]
            call_ensures(read, (line,), text) ==> text@ == before + part + behind,
        ({
            let a = encode(before).len();
            let b = a + encode(part).len();
            ||| *sel == (Selection {
                start_line: line,
                start_col: a as usize,
                end_line: line,
                end_col: b as usize,
            })
            ||| *sel == (Selection {
                start_line: line,
                start_col: b as usize,
                end_line: line,
                end_col: a as usize,
            })
        }),
        encode(before).len() + encode(part).len() <= usize::MAX,
    ensures
        r matches Some(s) && s@ == part,
{
    let ends = sel.ends();
    let lines = choose|lines: Seq<String>| #[trigger] is_copy_of(read, ends, lines, r->0@);
    assert(call_ensures(read, ((ends.0 + 0) as u64,), lines[0]));
    let text = before + part + behind;
    assert(views(lines) =~= seq![text]);
    lemma_copied_between(ends, line, before, part, behind);
}

/// The units between two places of a line are those of the text between them.
proof fn lemma_copied_between(
    ends: (u64, usize, u64, usize),
    line: u64,
    before: Seq<char>,
    part: Seq<char>,
    behind: Seq<char>,
)
    requires
        ends.0 == line ==> ends.1 == encode(before).len(),
        ends.0 != line ==> before.len() == 0,
        ends.2 == line ==> ends.3 == encode(before).len() + encode(part).len(),
        ends.2 != line ==> behind.len() == 0,
    ensures
        copied_part(ends, line, before + part + behind) == part,
{
    let text = before + part + behind;
    lemma_encode_concat(before, part);
    lemma_encode_concat(before + part, behind);
    let units = encode(text);
    let a = encode(before).len() as int;
    let b = a + encode(part).len();
    assert(units.subrange(a, b) =~= encode(part));
    lemma_decode_encode(part);
    if a == b {
        lemma_encode_len_of_part(part);
        assert(part =~= Seq::<char>::empty());
    }
}

proof fn lemma_encode_len_of_part(s: Seq<char>)
    ensures
        encode(s).len() >= s.len(),
    decreases s.len(),
{
    if s.len() > 0 {
        lemma_encode_len_of_part(s.drop_last());
    }
}

/// Over several lines the end of the first, all of those between and the start of the
/// last are copied, with a line break between each two.
pub proof fn law_lines_are_copied<F: Fn(u64) -> String>(
    read: F,
    first: u64,
    texts: Seq<Seq<char>>,
    cut: Seq<char>,
    left: Seq<char>,
    taken: Seq<char>,
    rest: Seq<char>,
    sel: &Selection,
    r: Option<String>,
)
    requires
        call_ensures(copy_text::<F>, (Some(read), sel), r),
        texts.len() >= 2,
        first + texts.len() - 1 <= u64::MAX,
        forall|i: int, text: String|
            0 <= i < texts.len() && #[trigger] call_ensures(read, ((first + i) as u64,), text)
                ==> text@ == texts[i],
        texts[0] == cut + left,
        texts.last() == taken + rest,
        encode(cut).len() <= usize::MAX,
        encode(taken).len() <= usize::MAX,
        *sel == (Selection {
            start_line: first,
            start_col: encode(cut).len() as usize,
            end_line: (first + texts.len() - 1) as u64,
            end_col: encode(taken).len() as usize,
        }),
    ensures
        r matches Some(s) && s@ == joined(texts.update(0, left).update(texts.len() - 1, taken)),
{
    let ends = sel.ends();
    let lines = choose|lines: Seq<String>| #[trigger] is_copy_of(read, ends, lines, r->0@);
    assert forall|i: int| 0 <= i < texts.len() implies views(lines)[i] == texts[i] by {
        assert(call_ensures(read, ((ends.0 + i) as u64,), lines[i]));
    }
    assert(views(lines) =~= texts);
    let parts = texts.update(0, left).update(texts.len() - 1, taken);
    assert forall|i: int| 0 <= i < texts.len() implies #[trigger] copied_part(
        ends,
        (first + i) as u64,
        texts[i],
    ) == parts[i] by {
        let none = Seq::<char>::empty();
        if i == 0 {
            assert(cut + left + none =~= texts[i]);
            lemma_copied_between(ends, (first + i) as u64, cut, left, none);
        } else if i == texts.len() - 1 {
            assert(none + taken + rest =~= texts[i]);
            assert(encode(none).len() == 0);
            lemma_copied_between(ends, (first + i) as u64, none, taken, rest);
        } else {
            assert(none + texts[i] + none =~= texts[i]);
            lemma_copied_between(ends, (first + i) as u64, none, texts[i], none);
        }
    }
    lemma_joined(ends, texts, parts);
}

proof fn lemma_joined(
    ends: (u64, usize, u64, usize),
    lines: Seq<Seq<char>>,
    parts: Seq<Seq<char>>,
)
    requires
        lines.len() == parts.len(),
        ends.0 + lines.len() - 1 <= u64::MAX,
        forall|i: int|
            0 <= i < lines.len() ==> #[trigger] copied_part(ends, (ends.0 + i) as u64, lines[i])
                == parts[i],
    ensures
        copied_text(ends, lines) == joined(parts),
    decreases lines.len(),
{
    if lines.len() > 0 {
        let n = lines.len() - 1;
        assert(copied_part(ends, (ends.0 + n) as u64, lines[n]) == parts[n]);
        let front = lines.drop_last();
        let first = parts.drop_last();
        assert forall|i: int| 0 <= i < front.len() implies #[trigger] copied_part(
            ends,
            (ends.0 + i) as u64,
            front[i],
        ) == first[i] by {
            assert(front[i] == lines[i]);
            assert(first[i] == parts[i]);
        }
        lemma_joined(ends, front, first);
    }
}

/// A place in a line has the byte offset of the text in front of it.
pub proof fn law_places_keep_their_bytes(
    text: &str,
    before: Seq<char>,
    behind: Seq<char>,
    unit: usize,
    r: usize,
)
    requires
        call_ensures(utf16_to_byte_offset, (text, unit), r),
        text@ == before + behind,
        unit == encode(before).len(),
    ensures
        r == encode_utf8(before).len(),
{
    let k = before.len() as int;
    assert(text@.take(k) =~= before);
    lemma_encode_len(before);
    lemma_offsets_monotone(text@, 0, k);
    lemma_char_index_at_unit(text@, unit as int);
    if k > 0 {
        lemma_offsets_monotone(text@, k - 1, k);
    }
    assert(first_char_at_unit(text@, unit as int, k));
}

/// What is annotated is the bytes of the file from the text in front of the selection
/// in its first line to that up to its end in its last.
pub proof fn law_annotated_bytes_are_the_selected(
    first: &RawLine,
    last: &RawLine,
    sel: &Selection,
    cut: Seq<char>,
    left: Seq<char>,
    taken: Seq<char>,
    rest: Seq<char>,
    r: (u64, u64),
)
    requires
        call_ensures(annotation_bytes, (first, last, sel), r),
        first.text@ == cut + left,
        last.text@ == taken + rest,
        sel.start_line < sel.end_line || (sel.start_line == sel.end_line && sel.start_col
            <= sel.end_col),
        sel.start_col == encode(cut).len(),
        sel.end_col == encode(taken).len(),
    ensures
        r.0 == first.start_byte + encode_utf8(cut).len(),
        r.1 == last.start_byte + encode_utf8(taken).len(),
{
    lemma_place(first.text@, cut, left, sel.start_col);
    lemma_place(last.text@, taken, rest, sel.end_col);
}

proof fn lemma_place(text: Seq<char>, before: Seq<char>, behind: Seq<char>, unit: usize)
    requires
        text == before + behind,
        unit == encode(before).len(),
    ensures
        byte_at(text, char_index_at_unit(text, unit as int)) == encode_utf8(before).len(),
{
    let k = before.len() as int;
    assert(text.take(k) =~= before);
    lemma_encode_len(before);
    lemma_offsets_monotone(text, 0, k);
    lemma_char_index_at_unit(text, unit as int);
    if k > 0 {
        lemma_offsets_monotone(text, k - 1, k);
    }
    assert(first_char_at_unit(text, unit as int, k));
}

/// The earlier end comes first, whichever was set first, and both ends are kept.
pub proof fn law_ends_are_in_order(sel: &Selection, r: (u64, usize, u64, usize), empty: bool)
    requires
        call_ensures(Selection::normalized, (sel,), r),
        call_ensures(Selection::is_empty, (sel,), empty),
    ensures
        r.0 < r.2 || (r.0 == r.2 && r.1 <= r.3),
        ({
            ||| (r.0, r.1) == (sel.start_line, sel.start_col) && (r.2, r.3) == (
                sel.end_line,
                sel.end_col,
            )
            ||| (r.0, r.1) == (sel.end_line, sel.end_col) && (r.2, r.3) == (
                sel.start_line,
                sel.start_col,
            )
        }),
        empty == ((r.0, r.1) == (r.2, r.3)),
{
}

} // verus!
