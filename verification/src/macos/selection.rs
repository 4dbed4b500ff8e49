//! Text selection: an anchor and a focus, each a line and a UTF-8 byte offset
//! in it. A selection over several lines is expanded line by line.

use vstd::prelude::*;
use vstd::utf8::*;

use crate::bounds::min_int;
use crate::text::{
    byte_slice, joined, lemma_encode_concat, lemma_encode_injective, views,
};

verus! {

broadcast use vstd::string::group_string_axioms;

/// A caret position: line `line`, UTF-8 byte offset `byte` in it.
#[derive(Debug, Clone, Copy, PartialEq, Eq, Structural, Ord)]
pub struct TextPoint {
    pub line: u64,
    pub byte: usize,
}

/// `a` stands at or before `b` in the text.
pub open spec fn point_le(a: TextPoint, b: TextPoint) -> bool {
    a.line < b.line || (a.line == b.line && a.byte <= b.byte)
}

impl PartialOrd for TextPoint {
    fn partial_cmp(&self, other: &Self) -> (r: Option<std::cmp::Ordering>) {
        if self.line < other.line {
            Some(std::cmp::Ordering::Less)
        } else if self.line > other.line {
            Some(std::cmp::Ordering::Greater)
        } else if self.byte < other.byte {
            Some(std::cmp::Ordering::Less)
        } else if self.byte > other.byte {
            Some(std::cmp::Ordering::Greater)
        } else {
            Some(std::cmp::Ordering::Equal)
        }
    }
}

impl vstd::std_specs::cmp::PartialOrdSpecImpl for TextPoint {
    open spec fn obeys_partial_cmp_spec() -> bool {
        true
    }

    open spec fn partial_cmp_spec(&self, other: &Self) -> Option<std::cmp::Ordering> {
        if self.line < other.line || (self.line == other.line && self.byte < other.byte) {
            Some(std::cmp::Ordering::Less)
        } else if self.line == other.line && self.byte == other.byte {
            Some(std::cmp::Ordering::Equal)
        } else {
            Some(std::cmp::Ordering::Greater)
        }
    }
}

/// The active selection. Without `active` there is none, and `anchor` and
/// `focus` mean nothing.
#[derive(Debug, Clone, Copy)]
pub struct Selection {
    pub anchor: TextPoint,
    pub focus: TextPoint,
    pub active: bool,
}

/// Bytes of a line that a selection from `start` to `end` takes.
pub open spec fn line_span(
    start: TextPoint,
    end: TextPoint,
    line: u64,
    line_len: int,
) -> (int, int) {
    (
        if line == start.line {
            start.byte as int
        } else {
            0
        },
        if line == end.line {
            end.byte as int
        } else {
            line_len
        },
    )
}

/// Bytes of a line of `len` bytes that are copied.
pub open spec fn copied_span(start: TextPoint, end: TextPoint, line: u64, len: int) -> (int, int) {
    let span = line_span(start, end, line, len);
    (min_int(span.0, len), min_int(span.1, len))
}

/// The text between two byte offsets of `text`.
pub open spec fn bytes_text(text: Seq<char>, lo: int, hi: int) -> Seq<char> {
    decode_utf8(encode_utf8(text).subrange(lo, hi))
}

/// What is copied of one line.
pub open spec fn copied_part(
    start: TextPoint,
    end: TextPoint,
    line: u64,
    text: Seq<char>,
) -> Seq<char> {
    let span = copied_span(start, end, line, encode_utf8(text).len() as int);
    if span.0 < span.1 {
        bytes_text(text, span.0, span.1)
    } else {
        Seq::empty()
    }
}

/// What is copied of the lines `lines`, the first of which is `start.line`: the
/// parts of all of them, with a line break between each two.
pub open spec fn copied_text(start: TextPoint, end: TextPoint, lines: Seq<Seq<char>>) -> Seq<char>
    decreases lines.len(),
{
    if lines.len() == 0 {
        Seq::empty()
    } else {
        let part = copied_part(start, end, (start.line + lines.len() - 1) as u64, lines.last());
        if lines.len() == 1 {
            part
        } else {
            copied_text(start, end, lines.drop_last()).push('\n') + part
        }
    }
}

/// The ends of what is copied of a line lie between characters.
pub open spec fn copy_on_boundaries(
    start: TextPoint,
    end: TextPoint,
    line: u64,
    text: Seq<char>,
) -> bool {
    let bytes = encode_utf8(text);
    let span = copied_span(start, end, line, bytes.len() as int);
    span.0 < span.1 ==> is_char_boundary(bytes, span.0) && is_char_boundary(bytes, span.1)
}

/// A text is what is copied of the lines `lines`, as they were read one by one.
pub open spec fn is_copy_of<F: Fn(u64) -> String>(
    read_line: F,
    ends: (TextPoint, TextPoint),
    lines: Seq<String>,
    text: Seq<char>,
) -> bool {
    &&& lines.len() == ends.1.line - ends.0.line + 1
    &&& forall|i: int|
        0 <= i < lines.len() ==> #[trigger] call_ensures(
            read_line,
            ((ends.0.line + i) as u64,),
            lines[i],
        )
    &&& text == copied_text(ends.0, ends.1, views(lines))
}

impl Selection {
    /// The two ends in the order of the text.
    pub open spec fn ends(self) -> (TextPoint, TextPoint) {
        if point_le(self.anchor, self.focus) {
            (self.anchor, self.focus)
        } else {
            (self.focus, self.anchor)
        }
    }

    /// Byte range of the selection in a line, if it takes any of it. A line
    /// between the ends is taken whole, also where it is blank.
    pub open spec fn range_in_line(self, line: u64, line_len: int) -> Option<(int, int)> {
        let (start, end) = self.ends();
        let span = line_span(start, end, line, line_len);
        if self.active && (start.line < line < end.line || (start.line <= line <= end.line && span.0
            < span.1)) {
            Some(span)
        } else {
            None
        }
    }

    /// No selection.
    pub fn empty() -> (r: Self)
        ensures
            !r.active,
            r.anchor == (TextPoint { line: 0, byte: 0 }),
            r.focus == (TextPoint { line: 0, byte: 0 }),
    {
        Self {
            anchor: TextPoint { line: 0, byte: 0 },
            focus: TextPoint { line: 0, byte: 0 },
            active: false,
        }
    }

    /// Drops the selection.
    pub fn clear(&mut self)
        ensures
            *final(self) == (Selection { active: false, ..*old(self) }),
    {
        self.active = false;
    }

    /// Whether nothing is visibly selected.
    pub fn is_empty(&self) -> (r: bool)
        ensures
            r == (!self.active || self.anchor == self.focus),
    {
        !self.active || self.anchor == self.focus
    }

    /// The two ends, the earlier one first.
    pub fn ordered(&self) -> (r: (TextPoint, TextPoint))
        ensures
            r == self.ends(),
            point_le(r.0, r.1),
    {
        let (a, f) = (self.anchor, self.focus);
        if a <= f {
            (a, f)
        } else {
            (f, a)
        }
    }

    /// UTF-8 byte range `[s, e)` of the selection in a line, `None` where the
    /// line is not in it. A line in the middle is taken whole; the first and
    /// the last are cut at the ends of the selection.
    pub fn selected_range_for_line(&self, line: u64, line_len: usize) -> (r: Option<(usize, usize)>)
        ensures
            match r {
                Some(range) => self.range_in_line(line, line_len as int) == Some(
                    (range.0 as int, range.1 as int),
                ),
                None => self.range_in_line(line, line_len as int) is None,
            },
    {
        if !self.active {
            return None;
        }
        let (start, end) = self.ordered();
        if line < start.line || line > end.line {
            return None;
        }
        if start.line < line && line < end.line {
            return Some((0, line_len));
        }
        let s: usize = if line == start.line {
            start.byte
        } else {
            0
        };
        let e: usize = if line == end.line {
            end.byte
        } else {
            line_len
        };
        if s >= e {
            None
        } else {
            Some((s, e))
        }
    }

    /// The selected text, with a line break between the parts of two lines.
    /// `read_line` hands out the text of a line.
    pub fn copy_string<F: Fn(u64) -> String>(&self, read_line: F) -> (r: String)
        requires
            self.active ==> forall|line: u64|
                self.ends().0.line <= line <= self.ends().1.line ==> call_requires(
                    read_line,
                    (line,),
                ),
            self.active ==> forall|line: u64, text: String|
                self.ends().0.line <= line <= self.ends().1.line && #[trigger] call_ensures(
                    read_line,
                    (line,),
                    text,
                ) ==> copy_on_boundaries(self.ends().0, self.ends().1, line, text@),
        ensures
            !self.active ==> r@ == Seq::<char>::empty(),
            self.active ==> exists|lines: Seq<String>| #[trigger]
                is_copy_of(read_line, self.ends(), lines, r@),
    {
        if !self.active {
            return String::new();
        }
        let (start, end) = self.ordered();
        let mut out = String::new();
        let mut line: u64 = start.line;
        let mut more: bool = true;
        let ghost mut lines: Seq<String> = Seq::empty();
        while more
            invariant
                self.active,
                (start, end) == self.ends(),
                point_le(start, end),
                start.line <= line <= end.line,
                forall|l: u64|
                    start.line <= l <= end.line ==> call_requires(read_line, (l,)),
                forall|l: u64, text: String|
                    start.line <= l <= end.line && #[trigger] call_ensures(read_line, (l,), text)
                        ==> copy_on_boundaries(start, end, l, text@),
                lines.len() == line - start.line + (if more {
                    0int
                } else {
                    1int
                }),
                !more ==> line == end.line,
                forall|i: int|
                    0 <= i < lines.len() ==> #[trigger] call_ensures(
                        read_line,
                        ((start.line + i) as u64,),
                        lines[i],
                    ),
                out@ == copied_text(start, end, views(lines)),
            decreases end.line - line + (if more { 1int } else { 0int }),
        {
            let text: String = read_line(line);
            let t: &str = text.as_str();
            let len: usize = t.as_bytes().len();
            let s: usize = if line == start.line {
                if start.byte <= len {
                    start.byte
                } else {
                    len
                }
            } else {
                0
            };
            let e: usize = if line == end.line {
                if end.byte <= len {
                    end.byte
                } else {
                    len
                }
            } else {
                len
            };
            assert((s as int, e as int) == copied_span(start, end, line, len as int));
            assert(copy_on_boundaries(start, end, line, text@));
            let ghost before = out@;
            let ghost part = copied_part(start, end, line, t@);
            if line != start.line {
                out.push('\n');
            }
            if e > s {
                let piece: &str = byte_slice(t, s, e);
                proof {
                    encode_utf8_decode_utf8(piece@);
                    assert(piece@ == part);
                }
                out.append(piece);
            }
            proof {
                let grown = lines.push(text);
                assert(views(grown).drop_last() =~= views(lines));
                assert(views(grown).last() == t@);
                assert((start.line + grown.len() - 1) as u64 == line);
                assert(out@ =~= copied_text(start, end, views(grown)));
                lines = grown;
            }
            if line == end.line {
                more = false;
            } else {
                line = line + 1;
            }
        }
        assert(is_copy_of(read_line, self.ends(), lines, out@));
        out
    }
}

// ---------------------------------------------------------------------------
// Laws
// ---------------------------------------------------------------------------

/// Which end was set first does not matter: swapping anchor and focus leaves
/// the ends, and with them every line's range, as they were.
pub proof fn law_direction_does_not_matter(sel: Selection, line: u64, line_len: int)
    ensures
        ({
            let back = Selection { anchor: sel.focus, focus: sel.anchor, active: sel.active };
            &&& back.ends() == sel.ends()
            &&& back.range_in_line(line, line_len) == sel.range_in_line(line, line_len)
        }),
{
}

/// A collapsed selection selects nothing in any line.
pub proof fn law_collapsed_selects_nothing(sel: Selection, line: u64, line_len: int)
    requires
        sel.anchor == sel.focus,
    ensures
        sel.range_in_line(line, line_len) is None,
{
}

/// A collapsed selection copies nothing, whatever its line holds.
pub proof fn law_collapsed_copies_nothing(sel: Selection, text: Seq<char>)
    requires
        sel.anchor == sel.focus,
    ensures
        copied_text(sel.ends().0, sel.ends().1, seq![text]) == Seq::<char>::empty(),
{
    let lines = seq![text];
    assert(lines.drop_last() =~= Seq::<Seq<char>>::empty());
    assert(copied_text(sel.ends().0, sel.ends().1, lines.drop_last()) =~= Seq::<char>::empty());
}

/// A blank line inside a selection is copied as such: two line breaks stand
/// between the parts around it.
pub proof fn law_blank_lines_are_kept(sel: Selection, first: Seq<char>, last: Seq<char>)
    requires
        sel.ends().0.line + 2 == sel.ends().1.line,
    ensures
        ({
            let (start, end) = sel.ends();
            copied_text(start, end, seq![first, Seq::empty(), last]) == copied_part(
                start,
                end,
                start.line,
                first,
            ) + seq!['\n', '\n'] + copied_part(start, end, end.line, last)
        }),
{
    let (start, end) = sel.ends();
    let one = seq![first];
    let two = seq![first, Seq::<char>::empty()];
    let all = seq![first, Seq::<char>::empty(), last];
    assert(all.drop_last() =~= two);
    assert(two.drop_last() =~= one);
    assert(one.drop_last() =~= Seq::<Seq<char>>::empty());
    let middle = (start.line + 1) as u64;
    assert(encode_utf8(Seq::<char>::empty()).len() == 0) by {
        reveal_with_fuel(encode_utf8, 1);
    }
    assert(copied_part(start, end, middle, Seq::empty()) == Seq::<char>::empty());
    assert(copied_text(start, end, one) == copied_part(start, end, start.line, first));
    assert(copied_text(start, end, two) =~= copied_part(start, end, start.line, first).push('\n'));
    assert(copied_text(start, end, all) =~= copied_part(start, end, start.line, first) + seq![
        '\n',
        '\n',
    ] + copied_part(start, end, end.line, last));
}

/// Every line strictly between the ends is selected whole, a blank one too.
pub proof fn law_middle_lines_are_whole(sel: Selection, line: u64, line_len: int)
    requires
        sel.active,
        sel.ends().0.line < line < sel.ends().1.line,
    ensures
        sel.range_in_line(line, line_len) == Some((0int, line_len)),
{
}

/// A part of a line is copied as it is: what stands between the bytes at which it starts
/// and ends, whichever end was set first.
pub proof fn law_a_part_of_a_line_is_copied<F: Fn(u64) -> String>(
    read: F,
    line: u64,
    before: Seq<char>,
    part: Seq<char>,
    behind: Seq<char>,
    sel: &Selection,
    r: String,
)
    requires
        call_ensures(Selection::copy_string::<F>, (sel, read), r),
        sel.active,
        forall|text: String| #[trigger]
            call_ensures(read, (line,), text) ==> text@ == before + part + behind,
        ({
            let a = TextPoint { line, byte: encode_utf8(before).len() as usize };
            let b = TextPoint {
                line,
                byte: (encode_utf8(before).len() + encode_utf8(part).len()) as usize,
            };
            sel.anchor == a && sel.focus == b || sel.anchor == b && sel.focus == a
        }),
        encode_utf8(before).len() + encode_utf8(part).len() <= usize::MAX,
    ensures
        r@ == part,
{
    let ends = sel.ends();
    let lines = choose|lines: Seq<String>| #[trigger] is_copy_of(read, ends, lines, r@);
    assert(call_ensures(read, ((ends.0.line + 0) as u64,), lines[0]));
    let text = before + part + behind;
    assert(views(lines) =~= seq![text]);
    lemma_copied_between(ends.0, ends.1, line, before, part, behind);
    assert(seq![text].drop_last() =~= Seq::<Seq<char>>::empty());
}

proof fn lemma_copied_between(
    start: TextPoint,
    end: TextPoint,
    line: u64,
    before: Seq<char>,
    part: Seq<char>,
    behind: Seq<char>,
)
    requires
        start.line == line ==> start.byte == encode_utf8(before).len(),
        start.line != line ==> before.len() == 0,
        end.line == line ==> end.byte == encode_utf8(before).len() + encode_utf8(part).len(),
        end.line != line ==> behind.len() == 0,
    ensures
        copied_part(start, end, line, before + part + behind) == part,
{
    let text = before + part + behind;
    lemma_encode_concat(before, part);
    lemma_encode_concat(before + part, behind);
    let bytes = encode_utf8(text);
    let a = encode_utf8(before).len() as int;
    let b = a + encode_utf8(part).len();
    assert(encode_utf8(Seq::<char>::empty()).len() == 0) by {
        reveal_with_fuel(encode_utf8, 1);
    }
    assert(before.len() == 0 ==> before =~= Seq::<char>::empty());
    assert(behind.len() == 0 ==> behind =~= Seq::<char>::empty());
    assert(bytes.subrange(a, b) =~= encode_utf8(part));
    encode_utf8_decode_utf8(part);
    if a == b {
        assert(encode_utf8(part) =~= encode_utf8(Seq::<char>::empty()));
        lemma_encode_injective(part, Seq::empty());
    }
}

/// Over several lines the end of the first, all of those between and the start of the
/// last are copied, with a line break between each two.
pub proof fn law_lines_are_copied<F: Fn(u64) -> String>(
    read: F,
    first: u64,
    texts: Seq<Seq<char>>,
    cut: Seq<char>,
    left: Seq<char>,
    taken: Seq<char>,
    rest: Seq<char>,
    sel: &Selection,
    r: String,
)
    requires
        call_ensures(Selection::copy_string::<F>, (sel, read), r),
        texts.len() >= 2,
        first + texts.len() - 1 <= u64::MAX,
        forall|i: int, text: String|
            0 <= i < texts.len() && #[trigger] call_ensures(read, ((first + i) as u64,), text)
                ==> text@ == texts[i],
        texts[0] == cut + left,
        texts.last() == taken + rest,
        encode_utf8(cut).len() <= usize::MAX,
        encode_utf8(taken).len() <= usize::MAX,
        *sel == (Selection {
            anchor: TextPoint { line: first, byte: encode_utf8(cut).len() as usize },
            focus: TextPoint {
                line: (first + texts.len() - 1) as u64,
                byte: encode_utf8(taken).len() as usize,
            },
            active: true,
        }),
    ensures
        r@ == joined(texts.update(0, left).update(texts.len() - 1, taken)),
{
    let ends = sel.ends();
    let lines = choose|lines: Seq<String>| #[trigger] is_copy_of(read, ends, lines, r@);
    assert forall|i: int| 0 <= i < texts.len() implies views(lines)[i] == texts[i] by {
        assert(call_ensures(read, ((ends.0.line + i) as u64,), lines[i]));
    }
    assert(views(lines) =~= texts);
    let parts = texts.update(0, left).update(texts.len() - 1, taken);
    assert(encode_utf8(Seq::<char>::empty()).len() == 0) by {
        reveal_with_fuel(encode_utf8, 1);
    }
    assert forall|i: int| 0 <= i < texts.len() implies #[trigger] copied_part(
        ends.0,
        ends.1,
        (first + i) as u64,
        texts[i],
    ) == parts[i] by {
        let none = Seq::<char>::empty();
        if i == 0 {
            assert(cut + left + none =~= texts[i]);
            lemma_copied_between(ends.0, ends.1, (first + i) as u64, cut, left, none);
        } else if i == texts.len() - 1 {
            assert(none + taken + rest =~= texts[i]);
            lemma_copied_between(ends.0, ends.1, (first + i) as u64, none, taken, rest);
        } else {
            assert(none + texts[i] + none =~= texts[i]);
            lemma_copied_between(ends.0, ends.1, (first + i) as u64, none, texts[i], none);
        }
    }
    lemma_joined(ends.0, ends.1, texts, parts);
}

proof fn lemma_joined(
    start: TextPoint,
    end: TextPoint,
    lines: Seq<Seq<char>>,
    parts: Seq<Seq<char>>,
)
    requires
        lines.len() == parts.len(),
        start.line + lines.len() - 1 <= u64::MAX,
        forall|i: int|
            0 <= i < lines.len() ==> #[trigger] copied_part(
                start,
                end,
                (start.line + i) as u64,
                lines[i],
            ) == parts[i],
    ensures
        copied_text(start, end, lines) == joined(parts),
    decreases lines.len(),
{
    if lines.len() > 0 {
        let n = lines.len() - 1;
        assert(copied_part(start, end, (start.line + n) as u64, lines[n]) == parts[n]);
        let front = lines.drop_last();
        let first = parts.drop_last();
        assert forall|i: int| 0 <= i < front.len() implies #[trigger] copied_part(
            start,
            end,
            (start.line + i) as u64,
            front[i],
        ) == first[i] by {
            assert(front[i] == lines[i]);
            assert(first[i] == parts[i]);
        }
        lemma_joined(start, end, front, first);
    }
}

/// A byte of a line is selected where it stands behind the earlier end of an active
/// selection and in front of the later.
pub proof fn law_selected_bytes_lie_between_the_ends(
    sel: &Selection,
    line: u64,
    line_len: usize,
    byte: int,
    r: Option<(usize, usize)>,
    ends: (TextPoint, TextPoint),
)
    requires
        call_ensures(Selection::selected_range_for_line, (sel, line, line_len), r),
        call_ensures(Selection::ordered, (sel,), ends),
        0 <= byte < line_len,
    ensures
        (match r {
            Some(range) => range.0 <= byte < range.1,
            None => false,
        }) == ({
            &&& sel.active
            &&& ends.0.line < line || (ends.0.line == line && ends.0.byte <= byte)
            &&& line < ends.1.line || (line == ends.1.line && byte < ends.1.byte)
        }),
        ends == (sel.anchor, sel.focus) || ends == (sel.focus, sel.anchor),
        ends.0.line < ends.1.line || (ends.0.line == ends.1.line && ends.0.byte <= ends.1.byte),
{
}

/// A cleared selection and a new one select nothing, and so does one whose ends are one
/// place.
pub proof fn law_cleared_selections_are_empty(
    a: &mut Selection,
    done: (),
    b: Selection,
    cleared: bool,
    fresh: bool,
    sel: &Selection,
    empty: bool,
)
    requires
        call_ensures(Selection::clear, (a,), done),
        call_ensures(Selection::empty, (), b),
        call_ensures(Selection::is_empty, (&*final(a),), cleared),
        call_ensures(Selection::is_empty, (&b,), fresh),
        call_ensures(Selection::is_empty, (sel,), empty),
    ensures
        cleared,
        fresh,
        sel.active ==> empty == (sel.anchor == sel.focus),
{
}

} // verus!
