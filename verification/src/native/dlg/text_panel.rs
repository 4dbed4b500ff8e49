//! Text panels: headings, pairs of a label and a value, and plain text, broken
//! into lines that fit, which scroll.

use vstd::prelude::*;

use crate::fields::{is_trimmed, lemma_trimmed, trim_chars, trimmed};
use crate::native::geom::Rect;
use crate::native::msg::{trunc, trunc_div};
use crate::native::theme::{Rgb, ThemeColors};
use crate::text::{chars_of, views};

verus! {

broadcast use vstd::string::group_string_axioms;

/// Height of a line.
pub const TEXT_LINE_H: i32 = 22;

/// Height of a line that holds nothing.
pub const EMPTY_LINE_H: i32 = 8;

/// What a heading is higher than a line.
pub const HEADER_EXTRA: i32 = 6;

/// Pixels that a notch of the wheel scrolls by.
pub const WHEEL_STEP: i32 = 36;

/// Width of the scroll bar.
pub const BAR_W: i32 = 10;

/// What a line of a panel is.
#[derive(Clone, Copy, PartialEq, Eq, Structural, Debug)]
pub enum TKind {
    /// A heading.
    Header,
    /// A label and a value with a colon between them.
    Kv,
    /// Plain text.
    Body,
}

/// A line of a panel.
pub struct TextLine {
    pub text: String,
    pub kind: TKind,
}

/// A line as contracts speak of it.
pub open spec fn line_view(l: TextLine) -> (Seq<char>, TKind) {
    (l.text@, l.kind)
}

/// Lines as contracts speak of them.
pub open spec fn lines_view(lines: Seq<TextLine>) -> Seq<(Seq<char>, TKind)> {
    lines.map(|i: int, l: TextLine| line_view(l))
}

// ---------------------------------------------------------------------------
// Heights
// ---------------------------------------------------------------------------

/// Height of a line.
pub open spec fn height_of(l: (Seq<char>, TKind)) -> int {
    if l.1 == TKind::Header {
        TEXT_LINE_H + HEADER_EXTRA
    } else if l.0.len() == 0 {
        EMPTY_LINE_H as int
    } else {
        TEXT_LINE_H as int
    }
}

/// Height of a line.
pub fn line_height(l: &TextLine) -> (r: i32)
    ensures
        r == height_of(line_view(*l)),
        0 < r <= TEXT_LINE_H + HEADER_EXTRA,
{
    match l.kind {
        TKind::Header => TEXT_LINE_H + HEADER_EXTRA,
        _ => if l.text.as_str().is_empty() {
            EMPTY_LINE_H
        } else {
            TEXT_LINE_H
        },
    }
}

/// Height of all lines.
pub open spec fn total_height(lines: Seq<(Seq<char>, TKind)>) -> int
    decreases lines.len(),
{
    if lines.len() == 0 {
        0
    } else {
        total_height(lines.drop_last()) + height_of(lines.last())
    }
}

proof fn lemma_height_grows(lines: Seq<(Seq<char>, TKind)>, i: int, j: int)
    requires
        0 <= i <= j <= lines.len(),
    ensures
        0 <= total_height(lines.take(i)) <= total_height(lines.take(j)),
    decreases j,
{
    if j > i {
        assert(lines.take(j).drop_last() =~= lines.take(j - 1));
        lemma_height_grows(lines, i, j - 1);
    } else if j > 0 {
        assert(lines.take(j).drop_last() =~= lines.take(j - 1));
        lemma_height_grows(lines, i - 1, j - 1);
    }
}

/// Height of all lines.
pub fn text_total_height(lines: &Vec<TextLine>) -> (r: i32)
    requires
        total_height(lines_view(lines@)) <= i32::MAX,
    ensures
        r == total_height(lines_view(lines@)),
        r >= 0,
{
    let ghost all = lines_view(lines@);
    let mut sum: i32 = 0;
    let mut i: usize = 0;
    assert(all.take(0) =~= Seq::empty());
    while i < lines.len()
        invariant
            i <= lines@.len(),
            all == lines_view(lines@),
            sum >= 0,
            sum == total_height(all.take(i as int)),
            total_height(all) <= i32::MAX,
        decreases lines@.len() - i,
    {
        proof {
            assert(all.take(i + 1).drop_last() =~= all.take(i as int));
            assert(all.take(all.len() as int) =~= all);
            lemma_height_grows(all, i + 1, all.len() as int);
        }
        sum = sum + line_height(&lines[i]);
        i = i + 1;
    }
    assert(all.take(all.len() as int) =~= all);
    sum
}

// ---------------------------------------------------------------------------
// Breaking a text into lines
// ---------------------------------------------------------------------------

/// Pieces of a text between line feeds.
pub open spec fn pieces(s: Seq<char>) -> Seq<Seq<char>>
    decreases s.len(),
{
    if s.len() == 0 {
        seq![Seq::empty()]
    } else {
        let before = pieces(s.drop_last());
        if s.last() == '\n' {
            before.push(Seq::empty())
        } else {
            before.update(before.len() - 1, before.last().push(s.last()))
        }
    }
}

/// Lines of a text: the pieces between line feeds; nothing follows a line feed
/// at the end.
pub open spec fn source_lines(s: Seq<char>) -> Seq<Seq<char>> {
    let all = pieces(s);
    if all.last().len() == 0 {
        all.drop_last()
    } else {
        all
    }
}

proof fn lemma_pieces_nonempty(s: Seq<char>)
    ensures
        pieces(s).len() > 0,
    decreases s.len(),
{
    if s.len() > 0 {
        lemma_pieces_nonempty(s.drop_last());
    }
}

/// Splits a text into its lines.
pub fn split_lines(s: &str) -> (r: Vec<String>)
    ensures
        views(r@) == source_lines(s@),
{
    let mut done: Vec<String> = Vec::new();
    let mut cur = String::new();
    assert(s@.take(0) =~= Seq::empty());
    assert(views(done@).push(cur@) =~= pieces(s@.take(0)));
    for c in it: s.chars()
        invariant
            it.seq() == s@,
            views(done@).push(cur@) == pieces(s@.take(it.index() as int)),
    {
        let ghost k = it.index() as int;
        let ghost before = views(done@);
        let ghost cur0 = cur@;
        assert(s@.take(k + 1).drop_last() =~= s@.take(k));
        if c == '\n' {
            done.push(cur);
            cur = String::new();
            assert(views(done@) =~= before.push(cur0));
        } else {
            cur.push(c);
            assert(views(done@).push(cur@) =~= before.push(cur0).update(
                before.len() as int,
                cur0.push(c),
            ));
        }
    }
    assert(s@.take(s@.len() as int) =~= s@);
    if !cur.as_str().is_empty() {
        let ghost before = views(done@);
        let ghost cur0 = cur@;
        done.push(cur);
        assert(views(done@) =~= before.push(cur0));
    } else {
        assert(views(done@) =~= views(done@).push(cur@).drop_last());
    }
    done
}

/// A text in which a run of blanks is a single one.
pub open spec fn collapsed(s: Seq<char>) -> Seq<char>
    decreases s.len(),
{
    if s.len() == 0 {
        s
    } else {
        let before = collapsed(s.drop_last());
        if s.last() == ' ' && s.len() >= 2 && s[s.len() - 2] == ' ' {
            before
        } else {
            before.push(s.last())
        }
    }
}

/// Makes a run of blanks a single one.
pub fn collapse_spaces(s: &str) -> (r: String)
    ensures
        r@ == collapsed(s@),
{
    let mut out = String::new();
    let mut prev_space: bool = false;
    assert(s@.take(0) =~= Seq::empty());
    for c in it: s.chars()
        invariant
            it.seq() == s@,
            out@ == collapsed(s@.take(it.index() as int)),
            prev_space == (it.index() > 0 && s@[it.index() - 1] == ' '),
    {
        assert(s@.take(it.index() + 1).drop_last() =~= s@.take(it.index() as int));
        if c == ' ' {
            if !prev_space {
                out.push(' ');
            }
            prev_space = true;
        } else {
            out.push(c);
            prev_space = false;
        }
    }
    assert(s@.take(s@.len() as int) =~= s@);
    out
}

/// What a line without a heading is: with a colon, a label and a value.
pub open spec fn kind_of(text: Seq<char>) -> TKind {
    if text.contains(':') || text.contains('：') {
        TKind::Kv
    } else {
        TKind::Body
    }
}

fn find_char(chars: &Vec<char>, c: char) -> (r: Option<usize>)
    ensures
        match r {
            Some(i) => i < chars@.len() && chars@[i as int] == c && (forall|k: int|
                0 <= k < i ==> chars@[k] != c),
            None => !chars@.contains(c),
        },
{
    let mut i: usize = 0;
    while i < chars.len()
        invariant
            i <= chars@.len(),
            forall|k: int| 0 <= k < i ==> chars@[k] != c,
        decreases chars@.len() - i,
    {
        if chars[i] == c {
            return Some(i);
        }
        i = i + 1;
    }
    None
}

/// What a line without a heading is.
pub fn line_kind(text: &str) -> (r: TKind)
    ensures
        r == kind_of(text@),
{
    let chars: Vec<char> = chars_of(text);
    if find_char(&chars, ':').is_some() || find_char(&chars, '：').is_some() {
        TKind::Kv
    } else {
        TKind::Body
    }
}

/// Where the value of a line begins: at its first colon, or at its first wide
/// colon where it has no other.
pub open spec fn is_colon_place(s: Seq<char>, i: int) -> bool {
    let colon = if s.contains(':') {
        ':'
    } else {
        '：'
    };
    &&& 0 <= i < s.len()
    &&& s[i] == colon
    &&& forall|k: int| 0 <= k < i ==> s[k] != colon
}

/// Splits a line into its label and its value, which begins with the colon.
pub fn split_kv(s: &str) -> (r: (String, String))
    ensures
        r.0@ + r.1@ == s@,
        r.1@.len() == 0 <==> kind_of(s@) == TKind::Body,
        r.1@.len() > 0 ==> is_colon_place(s@, r.0@.len() as int),
{
    let chars: Vec<char> = chars_of(s);
    let n: usize = s.unicode_len();
    let place: Option<usize> = match find_char(&chars, ':') {
        Some(i) => Some(i),
        None => find_char(&chars, '：'),
    };
    match place {
        Some(i) => {
            let a: String = s.substring_char(0, i).to_owned();
            let b: String = s.substring_char(i, n).to_owned();
            assert(a@ + b@ =~= s@);
            assert(is_colon_place(s@, i as int));
            assert(s@.contains(s@[i as int]));
            (a, b)
        },
        None => {
            let a: String = s.to_owned();
            let b = String::new();
            assert(a@ + b@ =~= s@);
            (a, b)
        },
    }
}

/// A measurement of a text found that it fits, or that it does not.
pub open spec fn measured<F: Fn(&str) -> i32>(
    width: F,
    text: Seq<char>,
    max_w: i32,
    fits: bool,
) -> bool {
    exists|s: &str, w: i32| #[trigger]
        width.ensures((s,), w) && s@ == text && (w <= max_w) == fits
}

/// The lines of a text hold its characters in order.
pub open spec fn joined(lines: Seq<(Seq<char>, TKind)>) -> Seq<char>
    decreases lines.len(),
{
    if lines.len() == 0 {
        Seq::empty()
    } else {
        joined(lines.drop_last()) + lines.last().0
    }
}

/// Every beginning of a line of two characters or more was found to fit.
pub open spec fn fits_throughout<F: Fn(&str) -> i32>(
    width: F,
    line: Seq<char>,
    max_w: i32,
) -> bool {
    forall|n: int| 2 <= n <= line.len() ==> #[trigger] measured(width, line.take(n), max_w, true)
}

/// The lines are those of a text that is filled greedily: a line ends where the
/// next character was found not to fit.
pub open spec fn greedy<F: Fn(&str) -> i32>(
    width: F,
    lines: Seq<(Seq<char>, TKind)>,
    max_w: i32,
) -> bool {
    &&& forall|i: int|
        0 <= i < lines.len() ==> (#[trigger] lines[i]).0.len() > 0 && fits_throughout(
            width,
            lines[i].0,
            max_w,
        )
    &&& forall|i: int|
        0 <= i < lines.len() - 1 ==> measured(
            width,
            (#[trigger] lines[i]).0.push(lines[i + 1].0[0]),
            max_w,
            false,
        )
}

/// The first line is of a kind, the others are plain text.
pub open spec fn kinds_from(lines: Seq<(Seq<char>, TKind)>, first: TKind) -> bool {
    forall|i: int|
        0 <= i < lines.len() ==> (#[trigger] lines[i]).1 == if i == 0 {
            first
        } else {
            TKind::Body
        }
}

/// `lines` are a text broken into lines: a text that fits is one line, another
/// is filled greedily.
pub open spec fn is_wrapped<F: Fn(&str) -> i32>(
    width: F,
    text: Seq<char>,
    max_w: i32,
    first: TKind,
    lines: Seq<(Seq<char>, TKind)>,
) -> bool {
    &&& joined(lines) == text
    &&& kinds_from(lines, first)
    &&& text.len() == 0 ==> lines.len() == 0
    &&& text.len() > 0 ==> {
        ||| measured(width, text, max_w, true) && lines == seq![(text, first)]
        ||| measured(width, text, max_w, false) && greedy(width, lines, max_w)
    }
}

proof fn lemma_joined_push(lines: Seq<(Seq<char>, TKind)>, l: (Seq<char>, TKind))
    ensures
        joined(lines.push(l)) == joined(lines) + l.0,
{
    assert(lines.push(l).drop_last() =~= lines);
}

/// The lines of a text stand behind those that were there.
pub open spec fn is_wrapped_behind<F: Fn(&str) -> i32>(
    width: F,
    text: Seq<char>,
    max_w: i32,
    first: TKind,
    before: Seq<(Seq<char>, TKind)>,
    after: Seq<(Seq<char>, TKind)>,
) -> bool {
    exists|lines: Seq<(Seq<char>, TKind)>| #[trigger]
        is_wrapped(width, text, max_w, first, lines) && after == before + lines
}

/// Breaks a text into lines that fit and appends them.
pub fn wrap_line<F: Fn(&str) -> i32>(
    width: &F,
    text: &str,
    max_w: i32,
    first_kind: TKind,
    out: &mut Vec<TextLine>,
)
    requires
        forall|s: &str| width.requires((s,)),
    ensures
        is_wrapped_behind(
            *width,
            text@,
            max_w,
            first_kind,
            lines_view(old(out)@),
            lines_view(final(out)@),
        ),
{
    let ghost base = lines_view(out@);
    if text.is_empty() {
        proof {
            let lines = Seq::<(Seq<char>, TKind)>::empty();
            assert(joined(lines) =~= text@);
            assert(is_wrapped(*width, text@, max_w, first_kind, lines));
            assert(base + lines =~= base);
        }
        return;
    }
    let whole: i32 = (*width)(text);
    if whole <= max_w {
        out.push(TextLine { text: text.to_owned(), kind: first_kind });
        proof {
            let lines = seq![(text@, first_kind)];
            assert(measured(*width, text@, max_w, true));
            assert(lines.drop_last() =~= Seq::empty());
            assert(joined(lines) =~= text@) by {
                assert(joined(lines.drop_last()) =~= Seq::empty());
            }
            assert(is_wrapped(*width, text@, max_w, first_kind, lines));
            assert(lines_view(out@) =~= base + lines);
        }
        return;
    }
    assert(measured(*width, text@, max_w, false));
    let mut cur = String::new();
    let mut count: usize = 0;
    let mut first: bool = true;
    let ghost mut lines: Seq<(Seq<char>, TKind)> = Seq::empty();
    let total: usize = text.unicode_len();
    assert(text@.take(0) =~= Seq::empty());
    assert(base + lines =~= base);
    for ch in it: text.chars()
        invariant
            it.seq() == text@,
            total == text@.len(),
            forall|s: &str| width.requires((s,)),
            lines_view(out@) == base + lines,
            joined(lines) + cur@ == text@.take(it.index() as int),
            kinds_from(lines, first_kind),
            first == (lines.len() == 0),
            count == cur@.len(),
            count <= it.index(),
            it.index() > 0 ==> count > 0,
            fits_throughout(*width, cur@, max_w),
            greedy(*width, lines, max_w),
            lines.len() > 0 ==> cur@.len() > 0 && measured(
                *width,
                lines.last().0.push(cur@[0]),
                max_w,
                false,
            ),
    {
        let ghost k = it.index() as int;
        let ghost cur0 = cur@;
        cur.push(ch);
        let w: i32 = (*width)(cur.as_str());
        assert(text@.take(k + 1) =~= text@.take(k).push(ch));
        assert(joined(lines) + cur@ =~= text@.take(k + 1));
        if w > max_w && count > 0 {
            assert(measured(*width, cur@, max_w, false));
            let done: String = cur.as_str().substring_char(0, count).to_owned();
            assert(done@ =~= cur0);
            let kind: TKind = if first {
                first_kind
            } else {
                TKind::Body
            };
            let ghost before = lines_view(out@);
            let ghost lines0 = lines;
            out.push(TextLine { text: done, kind });
            proof {
                lines = lines.push((cur0, kind));
                assert(lines_view(out@) =~= before.push((cur0, kind)));
                assert(lines_view(out@) =~= base + lines);
                lemma_joined_push(lines0, (cur0, kind));
                assert forall|i: int| 0 <= i < lines.len() implies (#[trigger] lines[i]).0.len() > 0
                    && fits_throughout(*width, lines[i].0, max_w) by {
                    if i < lines0.len() {
                        assert(lines[i] == lines0[i]);
                    }
                }
                assert forall|i: int| 0 <= i < lines.len() - 1 implies measured(
                    *width,
                    (#[trigger] lines[i]).0.push(lines[i + 1].0[0]),
                    max_w,
                    false,
                ) by {
                    assert(lines[i] == lines0[i]);
                    if i + 1 < lines0.len() {
                        assert(lines[i + 1] == lines0[i + 1]);
                    } else {
                        assert(lines0.last() == lines0[i]);
                    }
                }
                assert forall|i: int| 0 <= i < lines.len() implies (#[trigger] lines[i]).1 == if i
                    == 0 {
                    first_kind
                } else {
                    TKind::Body
                } by {
                    if i < lines0.len() {
                        assert(lines[i] == lines0[i]);
                    }
                }
            }
            first = false;
            cur = String::new();
            cur.push(ch);
            count = 1;
            proof {
                assert(cur@ =~= seq![ch]);
                assert(joined(lines) + cur@ =~= text@.take(k + 1));
                assert(lines.last().0.push(cur@[0]) =~= cur0.push(ch));
            }
        } else {
            count = count + 1;
            proof {
                if cur@.len() >= 2 {
                    assert(measured(*width, cur@, max_w, true));
                }
                assert forall|n: int| 2 <= n <= cur@.len() implies #[trigger] measured(
                    *width,
                    cur@.take(n),
                    max_w,
                    true,
                ) by {
                    if n < cur@.len() {
                        assert(cur@.take(n) =~= cur0.take(n));
                    } else {
                        assert(cur@.take(n) =~= cur@);
                    }
                }
                if lines.len() > 0 {
                    assert(cur@[0] == cur0[0]);
                }
            }
        }
    }
    assert(text@.take(text@.len() as int) =~= text@);
    let kind: TKind = if first {
        first_kind
    } else {
        TKind::Body
    };
    let ghost before = lines_view(out@);
    let ghost cur0 = cur@;
    let ghost lines0 = lines;
    out.push(TextLine { text: cur, kind });
    proof {
        lines = lines.push((cur0, kind));
        assert(lines_view(out@) =~= before.push((cur0, kind)));
        assert(lines_view(out@) =~= base + lines);
        lemma_joined_push(lines0, (cur0, kind));
        assert(greedy(*width, lines, max_w)) by {
            assert forall|i: int| 0 <= i < lines.len() implies (#[trigger] lines[i]).0.len() > 0
                && fits_throughout(*width, lines[i].0, max_w) by {
                if i < lines0.len() {
                    assert(lines[i] == lines0[i]);
                }
            }
            assert forall|i: int| 0 <= i < lines.len() - 1 implies measured(
                *width,
                (#[trigger] lines[i]).0.push(lines[i + 1].0[0]),
                max_w,
                false,
            ) by {
                assert(lines[i] == lines0[i]);
                if i + 1 < lines0.len() {
                    assert(lines[i + 1] == lines0[i + 1]);
                } else {
                    assert(lines0.last() == lines0[i]);
                }
            }
        }
        assert(kinds_from(lines, first_kind)) by {
            assert forall|i: int| 0 <= i < lines.len() implies (#[trigger] lines[i]).1 == if i == 0 {
                first_kind
            } else {
                TKind::Body
            } by {
                if i < lines0.len() {
                    assert(lines[i] == lines0[i]);
                }
            }
        }
        assert(is_wrapped(*width, text@, max_w, first_kind, lines));
    }
}

/// `lines` are what a line of the source becomes: nothing becomes an empty line,
/// `## ` begins a heading, anything else is broken into lines that fit.
pub open spec fn laid_out_line<F: Fn(&str) -> i32>(
    width: F,
    source: Seq<char>,
    max_w: i32,
    lines: Seq<(Seq<char>, TKind)>,
) -> bool {
    let t = trimmed(source);
    if t.len() == 0 {
        lines == seq![(Seq::<char>::empty(), TKind::Body)]
    } else if is_heading(t) {
        lines == seq![(trimmed(t.skip(3)), TKind::Header)]
    } else {
        is_wrapped(width, collapsed(t), max_w, kind_of(collapsed(t)), lines)
    }
}

/// The line begins as a heading does.
pub open spec fn is_heading(t: Seq<char>) -> bool {
    t.len() >= 3 && t[0] == '#' && t[1] == '#' && t[2] == ' '
}

/// `lines` are what a text becomes: what its lines become, one behind the other.
pub open spec fn laid_out<F: Fn(&str) -> i32>(
    width: F,
    sources: Seq<Seq<char>>,
    max_w: i32,
    lines: Seq<(Seq<char>, TKind)>,
) -> bool
    decreases sources.len(),
{
    if sources.len() == 0 {
        lines.len() == 0
    } else {
        exists|n: int|
            0 <= n <= lines.len() && laid_out(
                width,
                sources.drop_last(),
                max_w,
                #[trigger] lines.take(n),
            ) && laid_out_line(width, sources.last(), max_w, lines.skip(n))
    }
}

fn text_from(chars: &Vec<char>, start: usize) -> (r: String)
    requires
        start <= chars@.len(),
    ensures
        r@ == chars@.skip(start as int),
{
    let mut out = String::new();
    let mut i: usize = start;
    while i < chars.len()
        invariant
            start <= i <= chars@.len(),
            out@ == chars@.subrange(start as int, i as int),
        decreases chars@.len() - i,
    {
        out.push(chars[i]);
        i = i + 1;
        assert(out@ =~= chars@.subrange(start as int, i as int));
    }
    assert(out@ =~= chars@.skip(start as int));
    out
}

/// Appends what a line of the source becomes.
fn lay_out_line<F: Fn(&str) -> i32>(
    width: &F,
    source: &str,
    max_w: i32,
    out: &mut Vec<TextLine>,
)
    requires
        forall|s: &str| width.requires((s,)),
    ensures
        exists|lines: Seq<(Seq<char>, TKind)>| #[trigger]
            laid_out_line(*width, source@, max_w, lines) && lines_view(final(out)@) == lines_view(
                old(out)@,
            ) + lines,
{
    let ghost base = lines_view(out@);
    let t: Vec<char> = trim_chars(source);
    if t.len() == 0 {
        out.push(TextLine { text: String::new(), kind: TKind::Body });
        proof {
            let lines = seq![(Seq::<char>::empty(), TKind::Body)];
            assert(lines_view(out@) =~= base + lines);
            assert(laid_out_line(*width, source@, max_w, lines));
        }
        return;
    }
    if t.len() >= 3 && t[0] == '#' && t[1] == '#' && t[2] == ' ' {
        let rest: String = text_from(&t, 3);
        let name: Vec<char> = trim_chars(rest.as_str());
        let text: String = text_from(&name, 0);
        assert(name@.skip(0) =~= name@);
        out.push(TextLine { text, kind: TKind::Header });
        proof {
            let lines = seq![(trimmed(t@.skip(3)), TKind::Header)];
            assert(lines_view(out@) =~= base + lines);
            assert(laid_out_line(*width, source@, max_w, lines));
        }
        return;
    }
    let plain: String = text_from(&t, 0);
    assert(t@.skip(0) =~= t@);
    let clean: String = collapse_spaces(plain.as_str());
    let kind: TKind = line_kind(clean.as_str());
    wrap_line(width, clean.as_str(), max_w, kind, out);
    proof {
        let lines = choose|lines: Seq<(Seq<char>, TKind)>| #[trigger]
            is_wrapped(*width, clean@, max_w, kind, lines) && lines_view(out@) == base + lines;
        assert(laid_out_line(*width, source@, max_w, lines));
    }
}

/// Breaks a text into the lines of a panel of the given width.
pub fn build_text_lines<F: Fn(&str) -> i32>(width: &F, body: &str, max_w: i32) -> (r: Vec<TextLine>)
    requires
        forall|s: &str| width.requires((s,)),
    ensures
        laid_out(*width, source_lines(body@), max_w, lines_view(r@)),
{
    let sources: Vec<String> = split_lines(body);
    let mut out: Vec<TextLine> = Vec::new();
    let ghost all = views(sources@);
    let mut i: usize = 0;
    assert(all.take(0) =~= Seq::empty());
    while i < sources.len()
        invariant
            i <= sources@.len(),
            all == views(sources@),
            forall|s: &str| width.requires((s,)),
            laid_out(*width, all.take(i as int), max_w, lines_view(out@)),
        decreases sources@.len() - i,
    {
        let ghost before = lines_view(out@);
        lay_out_line(width, sources[i].as_str(), max_w, &mut out);
        proof {
            let added = choose|lines: Seq<(Seq<char>, TKind)>| #[trigger]
                laid_out_line(*width, sources@[i as int]@, max_w, lines) && lines_view(out@)
                    == before + lines;
            let now = lines_view(out@);
            let n = before.len() as int;
            assert(now.take(n) =~= before);
            assert(now.skip(n) =~= added);
            let u = all.take(i + 1);
            assert(u.drop_last() =~= all.take(i as int));
            assert(u.last() == sources@[i as int]@);
            assert(laid_out(*width, u.drop_last(), max_w, now.take(n)));
            assert(laid_out(*width, u, max_w, now));
        }
        i = i + 1;
    }
    assert(all.take(all.len() as int) =~= all);
    out
}

// ---------------------------------------------------------------------------
// Painting
// ---------------------------------------------------------------------------

/// What a part of a line is, by which it is coloured.
#[derive(Clone, Copy, PartialEq, Eq, Structural, Debug)]
pub enum TextRole {
    Heading,
    Label,
    Value,
    Plain,
}

/// Colour of a part of a line.
pub fn role_color(role: TextRole, theme: &ThemeColors) -> (r: Rgb)
    ensures
        r == match role {
            TextRole::Heading => theme.info,
            TextRole::Label => theme.text_secondary,
            TextRole::Value => theme.text_primary,
            TextRole::Plain => theme.text_primary,
        },
{
    match role {
        TextRole::Heading => theme.info,
        TextRole::Label => theme.text_secondary,
        TextRole::Value => theme.text_primary,
        TextRole::Plain => theme.text_primary,
    }
}

/// Parts of a line from left to right.
pub fn line_parts(l: &TextLine) -> (r: Vec<(TextRole, String)>)
    ensures
        l.kind == TKind::Header ==> r@.len() == 1 && r@[0].0 == TextRole::Heading && r@[0].1@
            == l.text@,
        l.kind == TKind::Body ==> r@.len() == 1 && r@[0].0 == TextRole::Plain && r@[0].1@
            == l.text@,
        l.kind == TKind::Kv ==> {
            &&& r@.len() >= 1 && r@[0].0 == TextRole::Label
            &&& r@.len() == 1 <==> kind_of(l.text@) == TKind::Body
            &&& r@.len() == 1 ==> r@[0].1@ == l.text@
            &&& r@.len() > 1 ==> r@.len() == 2 && r@[1].0 == TextRole::Value && r@[0].1@
                + r@[1].1@ == l.text@ && is_colon_place(l.text@, r@[0].1@.len() as int)
        },
{
    let mut out: Vec<(TextRole, String)> = Vec::new();
    match l.kind {
        TKind::Header => {
            out.push((TextRole::Heading, l.text.as_str().to_owned()));
        },
        TKind::Body => {
            out.push((TextRole::Plain, l.text.as_str().to_owned()));
        },
        TKind::Kv => {
            let (a, b) = split_kv(l.text.as_str());
            assert(b@.len() == 0 ==> a@ + b@ =~= a@);
            out.push((TextRole::Label, a));
            if !b.as_str().is_empty() {
                out.push((TextRole::Value, b));
            }
        },
    }
    out
}

/// A panel of text that scrolls.
pub struct TextViewState {
    pub lines: Vec<TextLine>,
    pub scroll: i32,
    pub panel: Rect,
    pub max_scroll: i32,
    pub track: Rect,
    pub thumb: Rect,
}

/// Furthest that lines can be scrolled in a panel.
pub open spec fn furthest(lines: Seq<(Seq<char>, TKind)>, panel: Rect) -> int {
    let over = total_height(lines) - (panel.bottom - panel.top);
    if over >= 0 {
        over
    } else {
        0
    }
}

/// The heights of the lines and of the panel, and their difference, are numbers
/// of pixels.
pub open spec fn can_be_shown(lines: Seq<(Seq<char>, TKind)>, panel: Rect) -> bool {
    let height = panel.bottom - panel.top;
    &&& i32::MIN <= height <= i32::MAX
    &&& total_height(lines) <= i32::MAX
    &&& total_height(lines) - height <= i32::MAX
}

impl TextViewState {
    /// The scroll position is one that can be scrolled to.
    pub open spec fn wf(self) -> bool {
        &&& can_be_shown(lines_view(self.lines@), self.panel)
        &&& self.max_scroll == furthest(lines_view(self.lines@), self.panel)
        &&& 0 <= self.scroll <= self.max_scroll
    }

    /// A panel that shows the beginning of some lines.
    pub fn new(lines: Vec<TextLine>, panel: Rect) -> (r: Self)
        requires
            can_be_shown(lines_view(lines@), panel),
        ensures
            r.wf(),
            r.lines == lines,
            r.panel == panel,
            r.scroll == 0,
    {
        let over: i32 = text_total_height(&lines) - (panel.bottom - panel.top);
        TextViewState {
            lines,
            scroll: 0,
            panel,
            max_scroll: if over >= 0 {
                over
            } else {
                0
            },
            track: Rect::empty(),
            thumb: Rect::empty(),
        }
    }

    /// Scrolls by the wheel.
    pub fn wheel(&mut self, delta: i32)
        requires
            old(self).wf(),
            -0x8000 <= delta < 0x8000,
        ensures
            final(self).wf(),
            final(self).scroll == {
                let to = old(self).scroll - trunc_div(delta as int, 120) * WHEEL_STEP;
                if to < 0 {
                    0
                } else if to > old(self).max_scroll {
                    old(self).max_scroll as int
                } else {
                    to
                }
            },
            final(self).lines == old(self).lines,
            final(self).panel == old(self).panel,
            final(self).track == old(self).track,
            final(self).thumb == old(self).thumb,
    {
        let to: i64 = self.scroll as i64 - trunc(delta, 120) as i64 * WHEEL_STEP as i64;
        self.scroll = if to < 0 {
            0
        } else if to > self.max_scroll as i64 {
            self.max_scroll
        } else {
            to as i32
        };
    }

    /// A press at a pixel turns a page: it hits the scroll bar beside its thumb.
    pub open spec fn turns_page(self, x: i32, y: i32) -> bool {
        self.max_scroll > 0 && self.track.holds(x, y) && !self.thumb.holds(x, y)
    }

    /// Scroll position after a press at a pixel row beside the thumb.
    pub open spec fn page_turned(self, y: i32) -> int {
        let height = self.panel.bottom - self.panel.top;
        let page = if height >= 1 {
            height
        } else {
            1
        };
        if y < self.thumb.top {
            if self.scroll - page >= 0 {
                self.scroll - page
            } else {
                0
            }
        } else if y > self.thumb.bottom {
            if self.scroll + page <= self.max_scroll {
                self.scroll + page
            } else {
                self.max_scroll as int
            }
        } else {
            self.scroll as int
        }
    }

    /// Turns a page where a press hits the scroll bar beside its thumb. Returns
    /// whether it does.
    pub fn press(&mut self, x: i32, y: i32) -> (r: bool)
        requires
            old(self).wf(),
        ensures
            final(self).wf(),
            r == old(self).turns_page(x, y),
            final(self).scroll == if r {
                old(self).page_turned(y)
            } else {
                old(self).scroll as int
            },
            final(self).lines == old(self).lines,
            final(self).panel == old(self).panel,
            final(self).track == old(self).track,
            final(self).thumb == old(self).thumb,
    {
        if self.max_scroll > 0 && self.track.contains(x, y) && !self.thumb.contains(x, y) {
            let height: i32 = self.panel.bottom - self.panel.top;
            let page: i32 = if height >= 1 {
                height
            } else {
                1
            };
            if y < self.thumb.top {
                self.scroll = if self.scroll - page >= 0 {
                    self.scroll - page
                } else {
                    0
                };
            } else if y > self.thumb.bottom {
                self.scroll = if self.scroll as i64 + page as i64 <= self.max_scroll as i64 {
                    self.scroll + page
                } else {
                    self.max_scroll
                };
            }
            true
        } else {
            false
        }
    }

    /// Place of the scroll bar.
    pub fn track_rect(&self) -> (r: Rect)
        requires
            self.panel.right >= i32::MIN + BAR_W + 2,
            self.panel.top <= i32::MAX - 2,
            self.panel.bottom >= i32::MIN + 2,
        ensures
            r == (Rect {
                left: (self.panel.right - BAR_W - 2) as i32,
                top: (self.panel.top + 2) as i32,
                right: (self.panel.right - 2) as i32,
                bottom: (self.panel.bottom - 2) as i32,
            }),
    {
        Rect {
            left: self.panel.right - BAR_W - 2,
            top: self.panel.top + 2,
            right: self.panel.right - 2,
            bottom: self.panel.bottom - 2,
        }
    }

    /// Column and width of the text.
    pub fn text_area(&self) -> (r: (i32, i32))
        requires
            self.panel.left <= i32::MAX - 12,
            i32::MIN + 16 <= self.panel.right - (self.panel.left + 12) <= i32::MAX,
        ensures
            r.0 == self.panel.left + 12,
            r.1 == {
                let w = self.panel.right - r.0 - 16;
                if w >= 20 {
                    w
                } else {
                    20
                }
            },
    {
        let x: i32 = self.panel.left + 12;
        let w: i32 = self.panel.right - x - 16;
        (
            x,
            if w >= 20 {
                w
            } else {
                20
            },
        )
    }

    /// Pixel row of a line.
    pub open spec fn row_of(self, i: int) -> int {
        self.panel.top - self.scroll + total_height(lines_view(self.lines@).take(i))
    }

    /// The line is seen and holds something.
    pub open spec fn shows(self, i: int) -> bool {
        &&& self.lines@[i].text@.len() > 0
        &&& self.row_of(i) + height_of(line_view(self.lines@[i])) >= self.panel.top
        &&& self.row_of(i) < self.panel.bottom
    }

    /// Lines that are painted and their pixel rows, from the top.
    pub fn visible_lines(&self) -> (r: Vec<(usize, i32)>)
        requires
            self.wf(),
            self.panel.top - self.scroll >= i32::MIN,
            self.panel.top <= i32::MAX - TEXT_LINE_H - HEADER_EXTRA,
            self.panel.bottom <= i32::MAX - 2 * TEXT_LINE_H - HEADER_EXTRA,
        ensures
            forall|k: int|
                0 <= k < r@.len() ==> (#[trigger] r@[k]).0 < self.lines@.len() && self.shows(
                    r@[k].0 as int,
                ) && r@[k].1 == self.row_of(r@[k].0 as int),
            forall|k: int, l: int| 0 <= k < l < r@.len() ==> r@[k].0 < r@[l].0,
            forall|i: int|
                0 <= i < self.lines@.len() && #[trigger] self.shows(i) ==> exists|k: int|
                    0 <= k < r@.len() && (#[trigger] r@[k]).0 == i,
    {
        let ghost all = lines_view(self.lines@);
        let mut out: Vec<(usize, i32)> = Vec::new();
        let mut y: i32 = self.panel.top - self.scroll;
        let mut i: usize = 0;
        assert(all.take(0) =~= Seq::empty());
        while i < self.lines.len() && y <= self.panel.bottom + TEXT_LINE_H
            invariant
                self.wf(),
                self.panel.top - self.scroll >= i32::MIN,
                self.panel.top <= i32::MAX - TEXT_LINE_H - HEADER_EXTRA,
                self.panel.bottom <= i32::MAX - 2 * TEXT_LINE_H - HEADER_EXTRA,
                all == lines_view(self.lines@),
                i <= self.lines@.len(),
                y == self.row_of(i as int),
                y <= self.panel.bottom + TEXT_LINE_H + TEXT_LINE_H + HEADER_EXTRA || i == 0,
                self.panel.top - self.scroll <= y,
                forall|k: int|
                    0 <= k < out@.len() ==> (#[trigger] out@[k]).0 < i && self.shows(
                        out@[k].0 as int,
                    ) && out@[k].1 == self.row_of(out@[k].0 as int),
                forall|k: int, l: int| 0 <= k < l < out@.len() ==> out@[k].0 < out@[l].0,
                forall|j: int|
                    0 <= j < i && #[trigger] self.shows(j) ==> exists|k: int|
                        0 <= k < out@.len() && (#[trigger] out@[k]).0 == j,
            decreases self.lines@.len() - i,
        {
            let l: &TextLine = &self.lines[i];
            let lh: i32 = line_height(l);
            assert(all.take(i + 1).drop_last() =~= all.take(i as int));
            assert(all.take(i + 1).last() == line_view(*l));
            let ghost before = out@;
            if !l.text.as_str().is_empty() && y + lh >= self.panel.top && y < self.panel.bottom {
                assert(self.shows(i as int));
                out.push((i, y));
            }
            proof {
                assert forall|j: int| 0 <= j < i + 1 && #[trigger] self.shows(j) implies exists|
                    k: int,
                |
                    0 <= k < out@.len() && (#[trigger] out@[k]).0 == j by {
                    if j < i {
                        let k = choose|k: int|
                            0 <= k < before.len() && (#[trigger] before[k]).0 == j;
                        assert(out@[k] == before[k]);
                    } else {
                        assert(out@[before.len() as int].0 == j);
                    }
                }
            }
            y = y + lh;
            i = i + 1;
        }
        proof {
            assert forall|j: int|
                0 <= j < self.lines@.len() && #[trigger] self.shows(j) implies exists|k: int|
                0 <= k < out@.len() && (#[trigger] out@[k]).0 == j by {
                if j >= i {
                    lemma_height_grows(all, i as int, j);
                }
            }
        }
        out
    }
}

// ---------------------------------------------------------------------------
// Laws
// ---------------------------------------------------------------------------

/// Breaking a text into lines loses no character.
pub proof fn law_wrapping_keeps_the_text<F: Fn(&str) -> i32>(
    width: F,
    text: Seq<char>,
    max_w: i32,
    first: TKind,
    lines: Seq<(Seq<char>, TKind)>,
)
    requires
        is_wrapped(width, text, max_w, first, lines),
    ensures
        joined(lines) == text,
        forall|i: int| 0 <= i < lines.len() ==> (#[trigger] lines[i]).0.len() > 0,
{
    if text.len() > 0 && !greedy(width, lines, max_w) {
        assert(lines == seq![(text, first)]);
    }
}

/// No two blanks follow each other in a text whose runs of blanks were made
/// single ones, and its other characters stay in order.
pub proof fn law_no_runs_of_blanks(s: Seq<char>)
    ensures
        forall|i: int|
            0 <= i < collapsed(s).len() - 1 ==> !(#[trigger] collapsed(s)[i] == ' ' && collapsed(
                s,
            )[i + 1] == ' '),
        collapsed(s).filter(|c: char| c != ' ') == s.filter(|c: char| c != ' '),
        s.len() > 0 ==> collapsed(s).len() > 0 && collapsed(s).last() == s.last(),
    decreases s.len(),
{
    let not_blank = |c: char| c != ' ';
    if s.len() > 0 {
        let t = s.drop_last();
        law_no_runs_of_blanks(t);
        assert(s =~= t.push(s.last()));
        assert(s.filter(not_blank) == if not_blank(s.last()) {
            t.filter(not_blank).push(s.last())
        } else {
            t.filter(not_blank)
        }) by {
            reveal(Seq::filter);
            assert(s.drop_last() =~= t);
        }
        if s.last() == ' ' && s.len() >= 2 && s[s.len() - 2] == ' ' {
            assert(t.last() == ' ');
        } else {
            let c = collapsed(t);
            let d = c.push(s.last());
            assert(d.filter(not_blank) == if not_blank(s.last()) {
                c.filter(not_blank).push(s.last())
            } else {
                c.filter(not_blank)
            }) by {
                reveal(Seq::filter);
                assert(d.drop_last() =~= c);
            }
            if t.len() > 0 {
                assert(c.last() == t.last());
            }
        }
    } else {
        assert(collapsed(s) =~= s);
    }
}

/// A panel whose text fits does not scroll.
pub proof fn law_short_text_does_not_scroll(v: TextViewState)
    requires
        v.wf(),
        total_height(lines_view(v.lines@)) <= v.panel.bottom - v.panel.top,
    ensures
        v.scroll == 0,
{
}

/// A line of the body is as high as its kind asks for.
pub proof fn law_lines_are_as_high_as_their_kind(l: &TextLine, r: i32)
    requires
        call_ensures(line_height, (l,), r),
    ensures
        l.kind is Header ==> r == 28,
        !(l.kind is Header) && l.text@.len() > 0 ==> r == 22,
        !(l.kind is Header) && l.text@.len() == 0 ==> r == 8,
{
}

/// All lines together are as high as those in front and the last one.
pub proof fn law_heights_add_up(
    all: &Vec<TextLine>,
    front: &Vec<TextLine>,
    last: TextLine,
    r: i32,
    q: i32,
    h: i32,
)
    requires
        all@ == front@.push(last),
        call_ensures(text_total_height, (all,), r),
        call_ensures(text_total_height, (front,), q),
        call_ensures(line_height, (&last,), h),
    ensures
        r == q + h,
        front@.len() == 0 ==> q == 0,
{
    let v = lines_view(all@);
    assert(v.drop_last() =~= lines_view(front@));
    assert(v.last() == line_view(last));
}

proof fn lemma_some_piece(s: Seq<char>)
    ensures
        pieces(s).len() > 0,
    decreases s.len(),
{
    if s.len() > 0 {
        lemma_some_piece(s.drop_last());
    }
}

/// The lines of a body of one line are those of that line.
proof fn lemma_single_source<F: Fn(&str) -> i32>(
    width: F,
    source: Seq<char>,
    max_w: i32,
    lines: Seq<(Seq<char>, TKind)>,
)
    requires
        laid_out(width, seq![source], max_w, lines),
    ensures
        laid_out_line(width, source, max_w, lines),
{
    let sources = seq![source];
    let k = choose|k: int|
        0 <= k <= lines.len() && laid_out(width, sources.drop_last(), max_w, #[trigger] lines.take(k))
            && laid_out_line(width, sources.last(), max_w, lines.skip(k));
    assert(sources.drop_last() =~= Seq::<Seq<char>>::empty());
    assert(lines.take(k).len() == 0);
    assert(lines.skip(0) =~= lines);
}

proof fn lemma_pieces_without_break(s: Seq<char>)
    requires
        forall|i: int| 0 <= i < s.len() ==> #[trigger] s[i] != '\n',
    ensures
        pieces(s) == seq![s],
    decreases s.len(),
{
    if s.len() > 0 {
        let t = s.drop_last();
        assert forall|i: int| 0 <= i < t.len() implies #[trigger] t[i] != '\n' by {
            assert(t[i] == s[i]);
        }
        lemma_pieces_without_break(t);
        assert(s[s.len() - 1] != '\n');
        assert(t.push(s.last()) =~= s);
        assert(pieces(s) =~= seq![s]);
    } else {
        assert(s =~= Seq::<char>::empty());
        assert(pieces(s) =~= seq![s]);
    }
}

proof fn lemma_pieces_behind(a: Seq<char>, s: Seq<char>)
    requires
        forall|i: int| 0 <= i < s.len() ==> #[trigger] s[i] != '\n',
    ensures
        pieces(a.push('\n') + s) == pieces(a).push(s),
    decreases s.len(),
{
    let all = a.push('\n') + s;
    if s.len() > 0 {
        let t = s.drop_last();
        assert forall|i: int| 0 <= i < t.len() implies #[trigger] t[i] != '\n' by {
            assert(t[i] == s[i]);
        }
        lemma_pieces_behind(a, t);
        assert(all.drop_last() =~= a.push('\n') + t);
        assert(all.last() == s.last());
        assert(s[s.len() - 1] != '\n');
        assert(t.push(s.last()) =~= s);
        assert(pieces(all) =~= pieces(a).push(s));
    } else {
        assert(all =~= a.push('\n'));
        assert(all.drop_last() =~= a);
        assert(s =~= Seq::<char>::empty());
        assert(pieces(all) =~= pieces(a).push(s));
    }
}

/// A text without a break is one line, and a line behind a break is one more; an empty one
/// at the end does not count.
pub proof fn law_texts_are_split_at_their_breaks(
    before: &str,
    line: Seq<char>,
    all: &str,
    single: &str,
    q: Vec<String>,
    r: Vec<String>,
    one: Vec<String>,
)
    requires
        forall|i: int| 0 <= i < line.len() ==> #[trigger] line[i] != '\n',
        line.len() > 0,
        before@.len() > 0 && before@.last() != '\n',
        all@ == before@.push('\n') + line,
        single@ == line,
        call_ensures(split_lines, (before,), q),
        call_ensures(split_lines, (all,), r),
        call_ensures(split_lines, (single,), one),
    ensures
        views(r@) == views(q@).push(line),
        views(one@) == seq![line],
{
    lemma_pieces_behind(before@, line);
    lemma_pieces_without_break(line);
    assert(pieces(before@).last().len() > 0) by {
        let t = before@.drop_last();
        let p = pieces(t);
        lemma_some_piece(t);
        assert(pieces(before@).last() == p.last().push(before@.last()));
    }
    assert(seq![line].last() == line);
}

/// Runs of blanks become single blanks, and every other character stays.
pub proof fn law_runs_of_blanks_become_single(s: &str, r: String, i: int)
    requires
        call_ensures(collapse_spaces, (s,), r),
    ensures
        0 <= i < r@.len() - 1 ==> r@[i] != ' ' || r@[i + 1] != ' ',
        r@.filter(|c: char| c != ' ') == s@.filter(|c: char| c != ' '),
        r@.len() <= s@.len(),
{
    law_no_runs_of_blanks(s@);
    lemma_collapsed_is_shorter(s@);
}

proof fn lemma_collapsed_is_shorter(s: Seq<char>)
    ensures
        collapsed(s).len() <= s.len(),
    decreases s.len(),
{
    if s.len() > 0 {
        lemma_collapsed_is_shorter(s.drop_last());
    }
}

/// A line with a colon is a name and a value, parted in front of the first colon.
pub proof fn law_names_and_values_are_parted(
    name: Seq<char>,
    value: Seq<char>,
    s: &str,
    r: (String, String),
    kind: TKind,
    plain: &str,
    p: (String, String),
    k: TKind,
)
    requires
        call_ensures(split_kv, (s,), r),
        call_ensures(line_kind, (s,), kind),
        s@ == name + seq![':'] + value,
        forall|i: int| 0 <= i < name.len() ==> #[trigger] name[i] != ':',
        call_ensures(split_kv, (plain,), p),
        call_ensures(line_kind, (plain,), k),
        forall|i: int| 0 <= i < plain@.len() ==> #[trigger] plain@[i] != ':' && plain@[i] != '：',
    ensures
        kind is Kv,
        r.0@ == name,
        r.1@ == seq![':'] + value,
        k is Body,
        p.0@ == plain@ && p.1@.len() == 0,
{
    let t = s@;
    let n = name.len() as int;
    assert(t[n] == ':');
    assert(t.contains(':'));
    assert forall|i: int| 0 <= i < n implies t[i] != ':' by {
        assert(t[i] == name[i]);
    }
    let at = r.0@.len() as int;
    assert(r.1@.len() > 0);
    assert(is_colon_place(t, at));
    if at < n {
        assert(t[at] == name[at]);
    }
    assert(at == n);
    assert(r.0@ =~= t.take(n)) by {
        assert((r.0@ + r.1@).take(n) =~= r.0@);
    }
    assert(t.take(n) =~= name);
    assert(r.1@ =~= t.skip(n)) by {
        assert((r.0@ + r.1@).skip(n) =~= r.1@);
    }
    assert(t.skip(n) =~= seq![':'] + value);
    assert(!plain@.contains(':') && !plain@.contains('：'));
    assert(p.0@ + p.1@ =~= p.0@);
}

/// A text that is broken into lines loses no character, only its first line has the kind
/// that was asked for, and one that fits is a single line.
pub proof fn law_wrapped_lines_hold_the_text<F: Fn(&str) -> i32>(
    width: &F,
    widths: spec_fn(Seq<char>) -> i32,
    text: &str,
    max_w: i32,
    first: TKind,
    out: &mut Vec<TextLine>,
    done: (),
    n: int,
    i: int,
)
    requires
        call_ensures(wrap_line::<F>, (width, text, max_w, first, out), done),
        forall|s: &str, w: i32| #[trigger] call_ensures(*width, (s,), w) ==> w == widths(s@),
        text@.len() > 0,
        n == old(out)@.len(),
    ensures
        n < final(out)@.len(),
        lines_view(final(out)@).take(n) == lines_view(old(out)@),
        joined(lines_view(final(out)@).skip(n)) == text@,
        widths(text@) <= max_w ==> final(out)@.len() == n + 1 && final(out)@[n].text@ == text@,
        final(out)@[n].kind == first,
        n <= i < final(out)@.len() ==> final(out)@[i].text@.len() > 0 && (final(out)@[i].text@.len()
            > 1 ==> widths(final(out)@[i].text@) <= max_w),
        n < i < final(out)@.len() ==> final(out)@[i].kind is Body && widths(
            final(out)@[i - 1].text@.push(final(out)@[i].text@[0]),
        ) > max_w,
{
    let before = lines_view(old(out)@);
    let after = lines_view(final(out)@);
    let lines = choose|lines: Seq<(Seq<char>, TKind)>| #[trigger]
        is_wrapped(*width, text@, max_w, first, lines) && after == before + lines;
    assert(before.len() == n);
    assert(after.skip(n) =~= lines);
    assert(after.take(n) =~= before);
    assert(after.len() == final(out)@.len());
    assert(lines.len() > 0) by {
        if lines.len() == 0 {
            assert(joined(lines) == Seq::<char>::empty());
        }
    }
    assert(after[n] == lines[0]);
    assert(after[n] == line_view(final(out)@[n]));
    if measured(*width, text@, max_w, false) {
        assert(widths(text@) > max_w);
        assert(greedy(*width, lines, max_w));
        if n <= i < final(out)@.len() {
            assert(after[i] == line_view(final(out)@[i]));
            let l = lines[i - n].0;
            assert(after[i] == lines[i - n]);
            if l.len() > 1 {
                assert(l.take(l.len() as int) =~= l);
                assert(measured(*width, l.take(l.len() as int), max_w, true));
            }
        }
        if n < i < final(out)@.len() {
            let k = i - n - 1;
            assert(after[i - 1] == line_view(final(out)@[i - 1]));
            assert(after[i - 1] == lines[k]);
            assert(after[i] == lines[k + 1]);
            assert(measured(*width, lines[k].0.push(lines[k + 1].0[0]), max_w, false));
        }
    } else {
        assert(measured(*width, text@, max_w, true));
        assert(lines == seq![(text@, first)]);
        assert(lines[0] == (text@, first));
    }
}

/// A heading is a line of its own without its marks, and an empty line stays empty.
pub proof fn law_headings_stand_alone<F: Fn(&str) -> i32>(
    width: &F,
    title: Seq<char>,
    body: &str,
    max_w: i32,
    r: Vec<TextLine>,
)
    requires
        call_ensures(build_text_lines::<F>, (width, body, max_w), r),
        body@ == "## "@ + title,
        title.len() > 0,
        forall|i: int|
            0 <= i < title.len() ==> '!' <= #[trigger] title[i] && title[i] <= '~',
    ensures
        r@.len() == 1,
        r@[0].text@ == title,
        r@[0].kind is Header,
{
    let s = body@;
    let lines = lines_view(r@);
    lemma_heading(title, s);
    lemma_single_source(*width, s, max_w, lines);
    assert(lines == seq![(title, TKind::Header)]);
    assert(lines.len() == r@.len());
    assert(lines[0] == line_view(r@[0]));
}

/// A heading without white space around it.
proof fn lemma_heading(title: Seq<char>, s: Seq<char>)
    requires
        s == "## "@ + title,
        title.len() > 0,
        forall|i: int| 0 <= i < title.len() ==> '!' <= #[trigger] title[i] && title[i] <= '~',
    ensures
        source_lines(s) == seq![s],
        trimmed(s) == s,
        s.len() > 3,
        is_heading(s),
        trimmed(s.skip(3)) == title,
{
    reveal_strlit("## ");
    let n = s.len() as int;
    let m = title.len() as int;
    assert(source_lines(s) == seq![s]) by {
        assert forall|i: int| 0 <= i < n implies #[trigger] s[i] != '\n' by {
            if i >= 3 {
                assert(s[i] == title[i - 3]);
            }
        }
        lemma_pieces_without_break(s);
        assert(seq![s].last() == s);
    }
    assert(s[0] == '#' && s[1] == '#' && s[2] == ' ');
    assert(s[n - 1] == title[m - 1]);
    assert(trimmed(s) == s) by {
        assert(is_trimmed(s, 0, n));
        lemma_trimmed(s, 0, n);
        assert(s.subrange(0, n) =~= s);
    }
    assert(s.skip(3) =~= title);
    assert(trimmed(title) == title) by {
        assert('!' <= title[0] && title[0] <= '~');
        assert('!' <= title[m - 1] && title[m - 1] <= '~');
        assert(is_trimmed(title, 0, m));
        lemma_trimmed(title, 0, m);
        assert(title.subrange(0, m) =~= title);
    }
}

/// The wheel and presses beside the thumb move the text, towards the start or the end and
/// never beyond.
pub proof fn law_the_text_is_scrolled(
    a: &mut TextViewState,
    notches: i32,
    done: (),
    b: &mut TextViewState,
    x: i32,
    y: i32,
    r: bool,
)
    requires
        call_ensures(TextViewState::wheel, (a, (120 * notches) as i32), done),
        -200 <= notches <= 200,
        call_ensures(TextViewState::press, (b, x, y), r),
        old(a).wf() && old(b).wf(),
    ensures
        ({
            let to = old(a).scroll - 36 * notches;
            &&& 0 <= to <= old(a).max_scroll ==> final(a).scroll == to
            &&& to < 0 ==> final(a).scroll == 0
            &&& to > old(a).max_scroll ==> final(a).scroll == old(a).max_scroll
        }),
        r == (old(b).max_scroll > 0 && old(b).track.holds(x, y) && !old(b).thumb.holds(x, y)),
        !r ==> final(b).scroll == old(b).scroll,
        ({
            let page = old(b).panel.bottom - old(b).panel.top;
            &&& r && page >= 1 && y < old(b).thumb.top && old(b).scroll >= page ==> final(b).scroll
                == old(b).scroll - page
            &&& r && page >= 1 && y < old(b).thumb.top && old(b).scroll < page ==> final(b).scroll
                == 0
            &&& r && page >= 1 && y >= old(b).thumb.top && y > old(b).thumb.bottom && old(b).scroll
                + page <= old(b).max_scroll ==> final(b).scroll == old(b).scroll + page
            &&& r && page >= 1 && y >= old(b).thumb.top && y > old(b).thumb.bottom && old(b).scroll
                + page > old(b).max_scroll ==> final(b).scroll == old(b).max_scroll
        }),
{
    assert(crate::native::msg::trunc_div(120 * notches as int, 120) == notches);
}

/// A text can be scrolled as far as it is higher than its panel, and starts at its top.
pub proof fn law_texts_start_at_their_top(
    lines: Vec<TextLine>,
    panel: Rect,
    v: TextViewState,
    total: i32,
)
    requires
        call_ensures(TextViewState::new, (lines, panel), v),
        can_be_shown(lines_view(lines@), panel),
        call_ensures(text_total_height, (&lines,), total),
    ensures
        v.scroll == 0,
        v.lines@ == lines@,
        total <= panel.bottom - panel.top ==> v.max_scroll == 0,
        total > panel.bottom - panel.top ==> v.max_scroll == total - (panel.bottom - panel.top),
{
}

/// The parts of a line have their colours, and together they are the line.
pub proof fn law_parts_make_up_the_line(
    l: &TextLine,
    r: Vec<(TextRole, String)>,
    theme: &ThemeColors,
    role: TextRole,
    color: Rgb,
)
    requires
        call_ensures(line_parts, (l,), r),
        call_ensures(role_color, (role, theme), color),
    ensures
        r@.len() == 1 || r@.len() == 2,
        r@.len() == 1 ==> r@[0].1@ == l.text@,
        r@.len() == 2 ==> r@[0].1@ + r@[1].1@ == l.text@ && r@[1].1@.len() > 0,
        l.kind is Header ==> r@[0].0 is Heading,
        l.kind is Body ==> r@[0].0 is Plain,
        l.kind is Kv ==> r@[0].0 is Label,
        role is Heading ==> color == theme.info,
        role is Label ==> color == theme.text_secondary,
        role is Value || role is Plain ==> color == theme.text_primary,
{
    if r@.len() == 2 {
        let at = r@[0].1@.len() as int;
        assert(is_colon_place(l.text@, at));
        assert(l.text@.len() == at + r@[1].1@.len());
    }
}

/// The lines in view are given from above to below, each where the heights of those above
/// it end.
pub proof fn law_lines_in_view_follow_each_other(
    v: &TextViewState,
    r: Vec<(usize, i32)>,
    k: int,
    h: i32,
)
    requires
        call_ensures(TextViewState::visible_lines, (v,), r),
        0 <= k < r@.len(),
        call_ensures(line_height, (&v.lines@[r@[k].0 as int],), h),
    ensures
        r@[k].0 < v.lines@.len(),
        v.lines@[r@[k].0 as int].text@.len() > 0,
        r@[k].1 < v.panel.bottom,
        r@[k].1 + h >= v.panel.top,
        k + 1 < r@.len() ==> r@[k].0 < r@[k + 1].0,
        k + 1 < r@.len() && r@[k + 1].0 == r@[k].0 + 1 ==> r@[k + 1].1 == r@[k].1 + h,
        r@[k].0 == 0 ==> r@[k].1 == v.panel.top - v.scroll,
{
    let view = lines_view(v.lines@);
    let i = r@[k].0 as int;
    assert(v.shows(i));
    assert(view[i] == line_view(v.lines@[i]));
    if k + 1 < r@.len() && r@[k + 1].0 == i + 1 {
        assert(view.take(i + 1).drop_last() =~= view.take(i));
        assert(view.take(i + 1).last() == view[i]);
        assert(v.shows(r@[k + 1].0 as int));
    }
    if i == 0 {
        assert(view.take(0) =~= Seq::<(Seq<char>, TKind)>::empty());
    }
}

/// The bar stands at the right edge of its panel, and the text left of it.
pub proof fn law_the_bar_stands_at_the_right(v: &TextViewState, r: Rect, area: (i32, i32))
    requires
        call_ensures(TextViewState::track_rect, (v,), r),
        call_ensures(TextViewState::text_area, (v,), area),
        0 <= v.panel.left && v.panel.left + 60 <= v.panel.right <= 10000,
        0 <= v.panel.top <= v.panel.bottom <= 10000,
    ensures
        r.right == v.panel.right - 2 && r.right - r.left == 10,
        r.top == v.panel.top + 2 && r.bottom == v.panel.bottom - 2,
        area.0 == v.panel.left + 12,
        area.0 + area.1 <= v.panel.right - 4,
        area.1 >= 20,
{
}

} // verus!
