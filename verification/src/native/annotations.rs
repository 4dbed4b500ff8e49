//! Annotations of the open file.

use std::collections::HashSet;

use vstd::prelude::*;
use vstd::utf8::encode_utf8;

use crate::decimal::{lemma_padded, push_padded, value_of, zero_padded};
use crate::native::selection::Selection;
use crate::native::settings::{data_dir, data_path};
use crate::paths::{join_windows, windows_joined};
use crate::text::{byte_at, len_utf8, lemma_byte_at_step, lemma_offsets_ends, lemma_offsets_monotone, utf8_len};

verus! {

broadcast use vstd::string::group_string_axioms;

/// Most bytes of the annotated text that an annotation keeps.
pub const MAX_SELECTED_SNAPSHOT: usize = 4096;

/// Most lines behind its first that an annotation marks.
pub const MAX_MARKED: u64 = 100;

/// A note on a part of a file.
pub struct Annotation {
    pub id: u64,
    pub file_key: String,
    pub start_byte: u64,
    pub end_byte: u64,
    pub start_line: u64,
    pub end_line: u64,
    pub start_col: usize,
    pub end_col: usize,
    /// The annotated text.
    pub selected_text: String,
    /// The note.
    pub text: String,
    pub created_at: String,
    pub color: u32,
    /// The place could not be found again.
    pub stale: bool,
}

/// Path of the file that annotations are stored in.
pub fn store_path(exe_dir: &str) -> (r: String)
    ensures
        r@ == windows_joined(data_path(exe_dir@), "annotations.json"@),
{
    join_windows(data_dir(exe_dir).as_str(), "annotations.json")
}

/// A date and a time of day.
pub struct LocalTime {
    pub year: u16,
    pub month: u16,
    pub day: u16,
    pub hour: u16,
    pub minute: u16,
    pub second: u16,
    pub milliseconds: u16,
}

impl LocalTime {
    /// The time as `YYYY-MM-DD HH:MM:SS.mmm`.
    pub open spec fn text(self) -> Seq<char> {
        zero_padded(self.year as nat, 4) + seq!['-'] + zero_padded(self.month as nat, 2) + seq!['-']
            + zero_padded(self.day as nat, 2) + seq![' '] + zero_padded(self.hour as nat, 2)
            + seq![':'] + zero_padded(self.minute as nat, 2) + seq![':'] + zero_padded(
            self.second as nat,
            2,
        ) + seq!['.'] + zero_padded(self.milliseconds as nat, 3)
    }
}

/// The text of a time at which an annotation is made.
pub fn now(t: &LocalTime) -> (r: String)
    ensures
        r@ == t.text(),
{
    let mut out = String::new();
    push_padded(&mut out, t.year as u64, 4);
    out.push('-');
    push_padded(&mut out, t.month as u64, 2);
    out.push('-');
    push_padded(&mut out, t.day as u64, 2);
    out.push(' ');
    push_padded(&mut out, t.hour as u64, 2);
    out.push(':');
    push_padded(&mut out, t.minute as u64, 2);
    out.push(':');
    push_padded(&mut out, t.second as u64, 2);
    out.push('.');
    push_padded(&mut out, t.milliseconds as u64, 3);
    assert(out@ =~= t.text());
    out
}

/// Last line that an annotation marks.
pub open spec fn last_marked(a: Annotation) -> int {
    if a.end_line <= a.start_line + MAX_MARKED {
        a.end_line as int
    } else {
        a.start_line + MAX_MARKED
    }
}

/// Some annotation marks a line.
pub open spec fn is_marked(list: Seq<Annotation>, line: u64) -> bool {
    exists|i: int|
        0 <= i < list.len() && (#[trigger] list[i]).start_line <= line <= last_marked(list[i])
}

/// The lines are those that annotations mark.
pub open spec fn are_marked(lines: Set<u64>, list: Seq<Annotation>) -> bool {
    forall|line: u64| #[trigger] lines.contains(line) == is_marked(list, line)
}

/// Lines that have an annotation.
pub fn marked_lines(list: &Vec<Annotation>) -> (r: HashSet<u64>)
    ensures
        are_marked(r@, list@),
{
    broadcast use vstd::std_specs::hash::group_hash_axioms;

    let mut marked: HashSet<u64> = HashSet::new();
    let mut i: usize = 0;
    while i < list.len()
        invariant
            i <= list@.len(),
            forall|line: u64| #[trigger]
                marked@.contains(line) == is_marked(list@.take(i as int), line),
        decreases list@.len() - i,
    {
        let a: &Annotation = &list[i];
        let limit: u64 = a.start_line.saturating_add(MAX_MARKED);
        let last: u64 = if a.end_line <= limit {
            a.end_line
        } else {
            limit
        };
        assert(last == last_marked(*a));
        let ghost before = marked@;
        let mut line: u64 = a.start_line;
        let mut more: bool = line <= last;
        while more
            invariant
                more ==> line <= last,
                line >= a.start_line,
                forall|l: u64| #[trigger]
                    marked@.contains(l) == (before.contains(l) || (a.start_line <= l <= last && (!more
                        || l < line))),
            decreases last - line + (if more {
                1int
            } else {
                0int
            }),
        {
            marked.insert(line);
            if line == last {
                more = false;
            } else {
                line = line + 1;
            }
        }
        assert forall|l: u64| #[trigger] marked@.contains(l) == is_marked(
            list@.take(i + 1),
            l,
        ) by {
            let t = list@.take(i as int);
            let u = list@.take(i + 1);
            assert(u[i as int] == *a);
            if is_marked(t, l) {
                let j = choose|j: int|
                    0 <= j < t.len() && (#[trigger] t[j]).start_line <= l <= last_marked(t[j]);
                assert(u[j] == t[j]);
            }
            if is_marked(u, l) {
                let j = choose|j: int|
                    0 <= j < u.len() && (#[trigger] u[j]).start_line <= l <= last_marked(u[j]);
                if j < i {
                    assert(t[j] == u[j]);
                }
            }
        }
        i = i + 1;
    }
    assert(list@.take(list@.len() as int) =~= list@);
    marked
}

/// Annotations of the open file and the lines that they mark.
pub struct Annotations {
    pub list: Vec<Annotation>,
    pub marked: HashSet<u64>,
}

impl Annotations {
    /// The marked lines are those of the annotations.
    pub open spec fn wf(self) -> bool {
        are_marked(self.marked@, self.list@)
    }

    /// No annotations.
    pub fn none() -> (r: Self)
        ensures
            r.wf(),
            r.list@.len() == 0,
    {
        broadcast use vstd::std_specs::hash::group_hash_axioms;

        Annotations { list: Vec::new(), marked: HashSet::new() }
    }

    /// Takes the annotations of the file that is open now, none where no file
    /// is open.
    pub fn reload(&mut self, stored: Option<Vec<Annotation>>)
        ensures
            final(self).wf(),
            final(self).list@ == match stored {
                Some(list) => list@,
                None => Seq::empty(),
            },
    {
        let list: Vec<Annotation> = match stored {
            Some(list) => list,
            None => Vec::new(),
        };
        self.marked = marked_lines(&list);
        self.list = list;
    }

    /// Number of annotations of the open file.
    pub fn count(&self) -> (r: usize)
        ensures
            r == self.list@.len(),
    {
        self.list.len()
    }
}

/// `n` characters are the most of a text that fit into some bytes.
pub open spec fn fits_most(text: Seq<char>, bytes: int, n: int) -> bool {
    &&& 0 <= n <= text.len()
    &&& byte_at(text, n) <= bytes
    &&& n < text.len() ==> byte_at(text, n + 1) > bytes
}

/// `kept` is as much of a text as fits into a snapshot.
pub open spec fn is_snapshot(text: Seq<char>, kept: Seq<char>) -> bool {
    exists|n: int|
        #[trigger] fits_most(text, MAX_SELECTED_SNAPSHOT as int, n) && kept == text.take(n)
}

/// The part of a selected text that an annotation keeps: as many whole
/// characters from its start as fit.
pub fn snapshot(text: &str) -> (r: String)
    ensures
        is_snapshot(text@, r@),
{
    let total: usize = text.as_bytes().len();
    let mut out = String::new();
    let mut used: usize = 0;
    proof {
        lemma_offsets_ends(text@);
    }
    for c in it: text.chars()
        invariant
            it.seq() == text@,
            total == utf8_len(text@),
            out@ == text@.take(it.index() as int),
            used == byte_at(text@, it.index() as int),
            used <= MAX_SELECTED_SNAPSHOT,
    {
        let ghost k = it.index() as int;
        proof {
            lemma_byte_at_step(text@, k);
            lemma_offsets_ends(text@);
            lemma_offsets_monotone(text@, k + 1, text@.len() as int);
        }
        let w: usize = len_utf8(c);
        if used + w > MAX_SELECTED_SNAPSHOT {
            assert(fits_most(text@, MAX_SELECTED_SNAPSHOT as int, k));
            return out;
        }
        out.push(c);
        used = used + w;
        assert(out@ =~= text@.take(k + 1));
    }
    assert(fits_most(text@, MAX_SELECTED_SNAPSHOT as int, text@.len() as int));
    out
}

/// An annotation of a selection, whose bytes in the file are given. Its number
/// is given out when it is stored.
pub fn new_annotation(
    sel: &Selection,
    bytes: (u64, u64),
    file_key: String,
    selected_text: &str,
    note: String,
    created_at: String,
) -> (r: Annotation)
    ensures
        r.id == 0,
        r.file_key == file_key,
        (r.start_byte, r.end_byte) == bytes,
        (r.start_line, r.start_col, r.end_line, r.end_col) == sel.ends(),
        is_snapshot(selected_text@, r.selected_text@),
        r.text == note,
        r.created_at == created_at,
        r.color == 0,
        !r.stale,
{
    let (sl, sc, el, ec) = sel.normalized();
    Annotation {
        id: 0,
        file_key,
        start_byte: bytes.0,
        end_byte: bytes.1,
        start_line: sl,
        end_line: el,
        start_col: sc,
        end_col: ec,
        selected_text: snapshot(selected_text),
        text: note,
        created_at,
        color: 0,
        stale: false,
    }
}

/// What an annotation keeps of a text is determined by the text, fits, and is
/// the whole text where that fits.
pub proof fn law_snapshot(text: Seq<char>, m: int, n: int)
    requires
        fits_most(text, MAX_SELECTED_SNAPSHOT as int, m),
        fits_most(text, MAX_SELECTED_SNAPSHOT as int, n),
    ensures
        m == n,
        utf8_len(text.take(n)) <= MAX_SELECTED_SNAPSHOT,
        utf8_len(text) <= MAX_SELECTED_SNAPSHOT ==> n == text.len(),
{
    lemma_offsets_ends(text);
    if m < n {
        lemma_offsets_monotone(text, m + 1, n);
    }
    if n < m {
        lemma_offsets_monotone(text, n + 1, m);
    }
    if n < text.len() {
        lemma_offsets_monotone(text, n + 1, text.len() as int);
    }
}

/// An annotation marks its first line and at most a hundred more.
pub proof fn law_marks_are_bounded(a: Annotation, line: u64)
    requires
        a.start_line <= a.end_line,
    ensures
        is_marked(seq![a], a.start_line),
        is_marked(seq![a], line) ==> a.start_line <= line <= a.end_line && line - a.start_line
            <= MAX_MARKED,
{
    assert(seq![a][0] == a);
}

/// The lines of an annotation are marked, and up to a hundred behind its first one; no
/// other line is.
pub proof fn law_annotated_lines_are_marked(
    list: &Vec<Annotation>,
    r: HashSet<u64>,
    i: int,
    line: u64,
)
    requires
        call_ensures(marked_lines, (list,), r),
    ensures
        0 <= i < list@.len() && list@[i].start_line <= line <= list@[i].end_line && line
            <= list@[i].start_line + 100 ==> r@.contains(line),
        (forall|k: int|
            0 <= k < list@.len() ==> line < (#[trigger] list@[k]).start_line || line
                > list@[k].end_line || line > list@[k].start_line + 100) ==> !r@.contains(line),
{
    assert(r@.contains(line) == is_marked(list@, line));
    if 0 <= i < list@.len() && list@[i].start_line <= line <= list@[i].end_line && line
        <= list@[i].start_line + 100 {
        assert(list@[i].start_line <= line <= last_marked(list@[i]));
    }
}

/// The stored annotations are those that are shown, with their lines marked; where nothing
/// was stored there is none.
pub proof fn law_stored_annotations_are_shown(
    a: &mut Annotations,
    stored: Option<Vec<Annotation>>,
    done: (),
    n: usize,
    lines: HashSet<u64>,
    line: u64,
)
    requires
        call_ensures(Annotations::reload, (a, stored), done),
        call_ensures(Annotations::count, (&*final(a),), n),
        stored is Some ==> call_ensures(marked_lines, (&stored->0,), lines),
    ensures
        stored is Some ==> final(a).list@ == stored->0@ && n == stored->0@.len()
            && final(a).marked@.contains(line) == lines@.contains(line),
        stored is None ==> n == 0 && !final(a).marked@.contains(line),
{
    assert(final(a).marked@.contains(line) == is_marked(final(a).list@, line));
    if stored is Some {
        assert(lines@.contains(line) == is_marked(stored->0@, line));
    }
}

/// A snapshot is the start of a text: all of it where it takes no more than 4096 bytes, and
/// otherwise as many whole characters as fit.
pub proof fn law_snapshots_are_starts(text: &str, r: String)
    requires
        call_ensures(snapshot, (text,), r),
    ensures
        r@.len() <= text@.len(),
        r@ == text@.take(r@.len() as int),
        encode_utf8(r@).len() <= 4096,
        encode_utf8(text@).len() <= 4096 ==> r@ == text@,
        r@.len() < text@.len() ==> encode_utf8(text@.take(r@.len() as int + 1)).len() > 4096,
{
    let n = choose|n: int|
        #[trigger] fits_most(text@, MAX_SELECTED_SNAPSHOT as int, n) && r@ == text@.take(n);
    assert(r@.len() == n);
    if n < text@.len() {
        assert(text@.take(n + 1).len() == n + 1);
    }
    if encode_utf8(text@).len() <= 4096 && n < text@.len() {
        lemma_offsets_monotone(text@, n + 1, text@.len() as int);
        assert(text@.take(text@.len() as int) =~= text@);
    }
    if n == text@.len() {
        assert(text@.take(n) =~= text@);
    }
}

/// An annotation is made of what was selected, from the first place to the last whichever
/// way it was dragged, and holds the note and the time.
pub proof fn law_annotations_hold_what_was_selected(
    sel: &Selection,
    bytes: (u64, u64),
    key: String,
    text: &str,
    note: String,
    at: String,
    r: Annotation,
)
    requires
        call_ensures(new_annotation, (sel, bytes, key, text, note, at), r),
    ensures
        r.start_byte == bytes.0 && r.end_byte == bytes.1,
        r.text@ == note@ && r.created_at@ == at@ && r.file_key@ == key@,
        r.start_line <= r.end_line,
        r.start_line == r.end_line ==> r.start_col <= r.end_col,
        (r.start_line == sel.start_line && r.start_col == sel.start_col && r.end_line
            == sel.end_line && r.end_col == sel.end_col) || (r.start_line == sel.end_line
            && r.start_col == sel.end_col && r.end_line == sel.start_line && r.end_col
            == sel.start_col),
        encode_utf8(text@).len() <= 4096 ==> r.selected_text@ == text@,
        r.id == 0 && !r.stale,
{
    let n = choose|n: int|
        #[trigger] fits_most(text@, MAX_SELECTED_SNAPSHOT as int, n) && r.selected_text@
            == text@.take(n);
    if encode_utf8(text@).len() <= 4096 {
        if n < text@.len() {
            lemma_offsets_monotone(text@, n + 1, text@.len() as int);
            assert(text@.take(text@.len() as int) =~= text@);
        } else {
            assert(text@.take(n) =~= text@);
        }
    }
}

/// A time is written as year, month and day, and then hours, minutes, seconds and
/// thousandths, each with all its digits.
pub proof fn law_times_are_written(t: &LocalTime, r: String)
    requires
        call_ensures(now, (t,), r),
        t.year < 10000 && t.month < 100 && t.day < 100 && t.hour < 100 && t.minute < 100
            && t.second < 100 && t.milliseconds < 1000,
    ensures
        r@.len() == 23,
        r@[4] == '-' && r@[7] == '-' && r@[10] == ' ' && r@[13] == ':' && r@[16] == ':' && r@[19]
            == '.',
        value_of(r@.subrange(0, 4)) == t.year,
        value_of(r@.subrange(5, 7)) == t.month,
        value_of(r@.subrange(8, 10)) == t.day,
        value_of(r@.subrange(11, 13)) == t.hour,
        value_of(r@.subrange(14, 16)) == t.minute,
        value_of(r@.subrange(17, 19)) == t.second,
        value_of(r@.subrange(20, 23)) == t.milliseconds,
{
    lemma_padded(t.year as nat, 4);
    lemma_padded(t.month as nat, 2);
    lemma_padded(t.day as nat, 2);
    lemma_padded(t.hour as nat, 2);
    lemma_padded(t.minute as nat, 2);
    lemma_padded(t.second as nat, 2);
    lemma_padded(t.milliseconds as nat, 3);
    assert(r@.subrange(0, 4) =~= zero_padded(t.year as nat, 4));
    assert(r@.subrange(5, 7) =~= zero_padded(t.month as nat, 2));
    assert(r@.subrange(8, 10) =~= zero_padded(t.day as nat, 2));
    assert(r@.subrange(11, 13) =~= zero_padded(t.hour as nat, 2));
    assert(r@.subrange(14, 16) =~= zero_padded(t.minute as nat, 2));
    assert(r@.subrange(17, 19) =~= zero_padded(t.second as nat, 2));
    assert(r@.subrange(20, 23) =~= zero_padded(t.milliseconds as nat, 3));
}

} // verus!
