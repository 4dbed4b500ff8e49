//! Visual rows of very long lines: where each row starts, which text is handed
//! to the layout, and how far a laid out row advances.

use vstd::prelude::*;
use vstd::utf8::encode_utf8;

use crate::bounds::min_int;
use crate::egui::huge_cache::{HugeLayout, HugeLineCache, RowMeta};
use crate::egui::viewer::{char_pos_to_byte_pos, is_sample_table, lemma_byte_index_samples};
use crate::text::{
    byte_at, char_count, len_utf8, lemma_boundary_of_char, lemma_byte_at_step,
    lemma_encode_injective, lemma_offsets_ends, lemma_offsets_monotone, utf8_len,
};

verus! {

broadcast use vstd::string::group_string_axioms;

/// Characters beyond the estimate of a row that are handed to the layout.
pub const ROW_SLACK: usize = 8;

/// Characters from `char_pos` on that can stand in one row: the estimate of a
/// row and a little more.
pub open spec fn row_window(text: Seq<char>, char_pos: int, chars_per_row: int) -> Seq<char> {
    text.subrange(char_pos, min_int(char_pos + chars_per_row + ROW_SLACK, text.len() as int))
}

/// `k` is the index of the first line break, or the length where there is none.
pub open spec fn is_first_newline(s: Seq<char>, k: int) -> bool {
    &&& 0 <= k <= s.len()
    &&& k < s.len() ==> s[k] == '\n'
    &&& forall|j: int| 0 <= j < k ==> #[trigger] s[j] != '\n'
}

/// Index of the first line break, or the length where there is none.
pub open spec fn newline_at(s: Seq<char>) -> int {
    choose|k: int| is_first_newline(s, k)
}

/// Text of the row that starts at `char_pos`: up to a line break, which ends
/// the row, or as much as can stand in it.
pub open spec fn row_text(text: Seq<char>, char_pos: int, chars_per_row: int) -> Seq<char> {
    let window = row_window(text, char_pos, chars_per_row);
    window.take(newline_at(window))
}

/// A line break cuts off the row that starts at `char_pos`.
pub open spec fn row_has_newline(text: Seq<char>, char_pos: int, chars_per_row: int) -> bool {
    let window = row_window(text, char_pos, chars_per_row);
    newline_at(window) < window.len()
}

/// Line breaks that are stepped over behind a row of which `placed` characters
/// were placed: the one that cuts the row off, where the text up to it was placed
/// whole.
pub open spec fn break_after(
    text: Seq<char>,
    start: int,
    chars_per_row: int,
    placed: int,
) -> int {
    if row_has_newline(text, start, chars_per_row) && placed >= row_text(
        text,
        start,
        chars_per_row,
    ).len() {
        1
    } else {
        0
    }
}

/// There is one first line break.
pub proof fn lemma_newline_at(s: Seq<char>)
    ensures
        is_first_newline(s, newline_at(s)),
        forall|k: int| #[trigger] is_first_newline(s, k) ==> k == newline_at(s),
{
    let k = lemma_find_newline(s, 0);
    assert(is_first_newline(s, k));
    assert forall|j: int| #[trigger] is_first_newline(s, j) implies j == newline_at(s) by {
        let n = newline_at(s);
        if j < n {
            assert(s[j] != '\n');
        } else if n < j {
            assert(s[n] != '\n');
        }
    }
}

proof fn lemma_find_newline(s: Seq<char>, from: int) -> (k: int)
    requires
        0 <= from <= s.len(),
        forall|j: int| 0 <= j < from ==> #[trigger] s[j] != '\n',
    ensures
        is_first_newline(s, k),
    decreases s.len() - from,
{
    if from == s.len() || s[from] == '\n' {
        from
    } else {
        lemma_find_newline(s, from + 1)
    }
}

/// Bytes and characters of `tail` up to a line break, at most `max_chars`
/// characters, and whether a line break stands there.
fn measure_row(tail: &str, max_chars: usize) -> (r: (usize, usize, bool))
    ensures
        ({
            let window = tail@.take(min_int(max_chars as int, tail@.len() as int));
            &&& is_first_newline(window, r.1 as int)
            &&& r.0 == byte_at(tail@, r.1 as int)
            &&& r.2 == (r.1 < window.len())
        }),
{
    let total: usize = tail.as_bytes().len();
    let mut bytes: usize = 0;
    let mut n: usize = 0;
    let ghost window = tail@.take(min_int(max_chars as int, tail@.len() as int));
    proof {
        lemma_offsets_ends(tail@);
        lemma_offsets_monotone(tail@, 0, tail@.len() as int);
    }
    for c in it: tail.chars()
        invariant
            it.seq() == tail@,
            total == utf8_len(tail@),
            tail@.len() <= total,
            window == tail@.take(min_int(max_chars as int, tail@.len() as int)),
            n == it.index(),
            n <= max_chars,
            bytes == byte_at(tail@, n as int),
            forall|j: int| 0 <= j < n ==> #[trigger] window[j] != '\n',
    {
        if n == max_chars {
            return (bytes, n, false);
        }
        if c == '\n' {
            return (bytes, n, true);
        }
        proof {
            lemma_byte_at_step(tail@, n as int);
            lemma_offsets_monotone(tail@, n + 1, tail@.len() as int);
        }
        bytes = bytes + len_utf8(c);
        n = n + 1;
    }
    (bytes, n, false)
}

/// Text to lay out as the row that starts at `char_pos`, and whether a line
/// break ends it.
pub fn row_slice<'a>(text: &'a str, byte_pos: usize, char_pos: usize, chars_per_row: usize) -> (r: (
    &'a str,
    bool,
))
    requires
        char_pos <= text@.len(),
        byte_pos == byte_at(text@, char_pos as int),
        chars_per_row + ROW_SLACK <= usize::MAX,
    ensures
        r.0@ == row_text(text@, char_pos as int, chars_per_row as int),
        r.1 == row_has_newline(text@, char_pos as int, chars_per_row as int),
{
    proof {
        lemma_boundary_of_char(text@, char_pos as int);
    }
    let (_head, tail) = text.split_at(byte_pos);
    proof {
        lemma_encode_injective(tail@, text@.skip(char_pos as int));
    }
    let (bytes, n, nl) = measure_row(tail, chars_per_row + ROW_SLACK);
    let ghost window = row_window(text@, char_pos as int, chars_per_row as int);
    proof {
        assert(tail@.take(
            min_int(chars_per_row + ROW_SLACK, tail@.len() as int),
        ) =~= window);
        lemma_newline_at(window);
        lemma_boundary_of_char(tail@, n as int);
    }
    let (row, _rest) = tail.split_at(bytes);
    proof {
        lemma_encode_injective(row@, tail@.take(n as int));
        assert(tail@.take(n as int) =~= window.take(n as int));
    }
    (row, nl)
}

/// Place in a very long line: the next row, and where it starts.
#[derive(Clone, Copy, Debug)]
pub struct RowCursor {
    pub row: usize,
    pub char_pos: usize,
    pub byte_pos: usize,
}

impl RowCursor {
    /// The byte offset is that of the character.
    pub open spec fn in_step(self, text: Seq<char>) -> bool {
        self.char_pos <= text.len() && self.byte_pos == byte_at(text, self.char_pos as int)
    }

    /// The start of a line.
    pub fn start() -> (r: Self)
        ensures
            r.row == 0 && r.char_pos == 0 && r.byte_pos == 0,
    {
        RowCursor { row: 0, char_pos: 0, byte_pos: 0 }
    }

    /// Moves behind a row of which the layout placed `row_chars` characters. A
    /// line break that cuts the row's text off is stepped over once the text up to
    /// it was placed whole. Returns whether there is anything further: a row that
    /// takes nothing ends the line.
    pub fn advance(&mut self, row: &str, row_chars: usize, had_nl: bool) -> (more: bool)
        requires
            old(self).row < usize::MAX,
            old(self).char_pos + row_chars + (if had_nl {
                1int
            } else {
                0int
            }) <= usize::MAX,
            old(self).byte_pos + utf8_len(row@) + (if had_nl {
                1int
            } else {
                0int
            }) <= usize::MAX,
        ensures
            ({
                let nl: int = if had_nl && row_chars >= row@.len() {
                    1
                } else {
                    0
                };
                &&& more == (row_chars > 0 || nl > 0)
                &&& final(self).row == old(self).row + 1
                &&& final(self).char_pos == old(self).char_pos + row_chars + nl
                &&& final(self).byte_pos == old(self).byte_pos + byte_at(
                    row@,
                    min_int(row_chars as int, row@.len() as int),
                ) + nl
            }),
    {
        let bytes: usize = byte_of_char(row, row_chars);
        proof {
            lemma_offsets_ends(row@);
            lemma_offsets_monotone(
                row@,
                min_int(row_chars as int, row@.len() as int),
                row@.len() as int,
            );
        }
        let nl: usize = if had_nl && row_chars >= char_count(row) {
            1
        } else {
            0
        };
        self.row = self.row + 1;
        self.byte_pos = self.byte_pos + bytes + nl;
        self.char_pos = self.char_pos + row_chars + nl;
        row_chars > 0 || nl > 0
    }
}

/// Byte offset of character `n` of a row; its length where there is none.
fn byte_of_char(row: &str, n: usize) -> (r: usize)
    ensures
        r == byte_at(row@, min_int(n as int, row@.len() as int)),
{
    let total: usize = row.as_bytes().len();
    let mut bytes: usize = 0;
    let mut k: usize = 0;
    proof {
        lemma_offsets_ends(row@);
        lemma_offsets_monotone(row@, 0, row@.len() as int);
    }
    for c in it: row.chars()
        invariant
            it.seq() == row@,
            total == utf8_len(row@),
            row@.len() <= total,
            k == it.index(),
            k <= n,
            bytes == byte_at(row@, k as int),
    {
        if k == n {
            return bytes;
        }
        proof {
            lemma_byte_at_step(row@, k as int);
            lemma_offsets_monotone(row@, k + 1, row@.len() as int);
        }
        bytes = bytes + len_utf8(c);
        k = k + 1;
    }
    bytes
}

// ---------------------------------------------------------------------------
// Rows before the viewport
// ---------------------------------------------------------------------------

/// The layout placed `n` characters of the row that starts at `start`.
pub open spec fn is_laid_out<F: Fn(&str) -> usize>(
    text: Seq<char>,
    chars_per_row: int,
    measure: F,
    start: int,
    row: &str,
    n: usize,
) -> bool {
    row@ == row_text(text, start, chars_per_row) && call_ensures(measure, (row,), n)
}

/// `n` is the number of characters of a row: the one recorded for it where it is
/// known, else the one that the layout places, which is then recorded.
pub open spec fn is_row_known<F: Fn(&str) -> usize>(
    text: Seq<char>,
    chars_per_row: int,
    measure: F,
    known: Option<RowMeta>,
    after: Option<RowMeta>,
    start: int,
    n: usize,
) -> bool {
    match known {
        Some(m) => after == known && n == m.char_count,
        None => after == Some(RowMeta { start: start as usize, char_count: n }) && exists|
            row: &str,
        | #[trigger] is_laid_out(text, chars_per_row, measure, start, row, n),
    }
}

/// How one row in front of the viewport is passed: by its characters and the line
/// break behind them. No row passes the end of the line.
pub open spec fn is_row_passed<F: Fn(&str) -> usize>(
    text: Seq<char>,
    chars_per_row: int,
    measure: F,
    known: Option<RowMeta>,
    after: Option<RowMeta>,
    start: int,
    next: int,
) -> bool {
    exists|n: usize| #[trigger]
        is_row_known(text, chars_per_row, measure, known, after, start, n) && next == min_int(
            start + n + break_after(text, start, chars_per_row, n as int),
            text.len() as int,
        )
}

/// The rows in front of row `target` start at `starts`, and so does that row.
pub open spec fn are_starts<F: Fn(&str) -> usize>(
    text: Seq<char>,
    chars_per_row: int,
    measure: F,
    before: HugeLayout,
    after: HugeLayout,
    target: int,
    starts: Seq<int>,
) -> bool {
    &&& starts.len() == target + 1
    &&& starts[0] == 0
    &&& forall|i: int|
        0 <= i < target ==> is_row_passed(
            text,
            chars_per_row,
            measure,
            before.row(i),
            after.row(i),
            #[trigger] starts[i],
            starts[i + 1],
        )
}

/// Row `target` starts at character `pos`.
pub open spec fn is_sought<F: Fn(&str) -> usize>(
    text: Seq<char>,
    chars_per_row: int,
    measure: F,
    before: HugeLayout,
    after: HugeLayout,
    target: int,
    pos: int,
) -> bool {
    exists|starts: Seq<int>| #[trigger]
        are_starts(text, chars_per_row, measure, before, after, target, starts) && starts[target]
            == pos
}

/// Finds the character at which row `target` of a very long line starts, by
/// passing the rows in front of it. `measure` lays a row out and tells how many
/// characters fit.
pub fn seek_row<F: Fn(&str) -> usize>(
    entry: &mut HugeLineCache,
    target: usize,
    chars_per_row: usize,
    measure: F,
) -> (r: RowCursor)
    requires
        old(entry).wf(),
        chars_per_row + ROW_SLACK <= usize::MAX,
        target < usize::MAX,
        forall|row: &str| #[trigger] call_requires(measure, (row,)),
    ensures
        final(entry).wf(),
        final(entry).text == old(entry).text,
        final(entry).line == old(entry).line,
        final(entry).start_byte == old(entry).start_byte,
        final(entry).byte_index == old(entry).byte_index,
        final(entry).layout_key == old(entry).layout_key,
        forall|i: int| i >= target ==> #[trigger]
            final(entry).layout.row(i) == old(entry).layout.row(i),
        r.row == target,
        r.in_step(old(entry).text@),
        is_sought(
            old(entry).text@,
            chars_per_row as int,
            measure,
            old(entry).layout,
            final(entry).layout,
            target as int,
            r.char_pos as int,
        ),
{
    let ghost text = entry.text@;
    let ghost before = *entry;
    let ghost mut starts: Seq<int> = seq![0int];
    let total: usize = entry.char_count;
    let mut char_pos: usize = 0;
    let mut row_idx: usize = 0;
    proof {
        lemma_byte_index_samples(entry.byte_index@, text);
    }
    while row_idx < target
        invariant
            row_idx <= target < usize::MAX,
            chars_per_row + ROW_SLACK <= usize::MAX,
            forall|row: &str| #[trigger] call_requires(measure, (row,)),
            before.wf(),
            text == before.text@,
            is_sample_table(entry.byte_index@, text),
            entry.text == before.text,
            entry.line == before.line,
            entry.char_count == before.char_count,
            entry.start_byte == before.start_byte,
            entry.byte_index == before.byte_index,
            entry.layout_key == before.layout_key,
            total == text.len(),
            char_pos <= total,
            starts.len() == row_idx + 1,
            starts[0] == 0,
            starts[row_idx as int] == char_pos,
            forall|i: int| i >= row_idx ==> #[trigger] entry.layout.row(i) == before.layout.row(i),
            forall|i: int|
                0 <= i < row_idx ==> is_row_passed(
                    text,
                    chars_per_row as int,
                    measure,
                    before.layout.row(i),
                    entry.layout.row(i),
                    #[trigger] starts[i],
                    starts[i + 1],
                ),
        decreases target - row_idx,
    {
        let ghost prev = *entry;
        let ghost start = char_pos as int;
        let known: Option<RowMeta> = entry.layout.get(row_idx);
        let byte_pos: usize = if total == 0 {
            proof {
                lemma_offsets_ends(text);
            }
            0
        } else {
            char_pos_to_byte_pos(entry.byte_index.as_slice(), entry.text.as_str(), char_pos)
        };
        proof {
            lemma_offsets_ends(text);
        }
        let (row, had_nl) = row_slice(entry.text.as_str(), byte_pos, char_pos, chars_per_row);
        let whole: usize = char_count(row);
        let n: usize = match known {
            Some(m) => m.char_count,
            None => {
                let n: usize = measure(row);
                assert(is_laid_out(text, chars_per_row as int, measure, start, row, n));
                entry.layout.set_row(row_idx, char_pos, n);
                assert(entry.layout.row(row_idx as int) == Some(
                    RowMeta { start: char_pos, char_count: n },
                ));
                n
            },
        };
        assert(is_row_known(
            text,
            chars_per_row as int,
            measure,
            before.layout.row(row_idx as int),
            entry.layout.row(row_idx as int),
            start,
            n,
        ));
        let step: usize = if had_nl && n >= whole {
            n.saturating_add(1)
        } else {
            n
        };
        let sum: usize = char_pos.saturating_add(step);
        char_pos = if sum <= total {
            sum
        } else {
            total
        };
        proof {
            let grown = starts.push(char_pos as int);
            assert(is_row_passed(
                text,
                chars_per_row as int,
                measure,
                before.layout.row(row_idx as int),
                entry.layout.row(row_idx as int),
                start,
                char_pos as int,
            ));
            assert forall|i: int| 0 <= i < row_idx + 1 implies is_row_passed(
                text,
                chars_per_row as int,
                measure,
                before.layout.row(i),
                entry.layout.row(i),
                #[trigger] grown[i],
                grown[i + 1],
            ) by {
                if i < row_idx {
                    assert(grown[i] == starts[i] && grown[i + 1] == starts[i + 1]);
                    assert(entry.layout.row(i) == prev.layout.row(i));
                }
            }
            starts = grown;
        }
        row_idx = row_idx + 1;
    }
    proof {
        lemma_offsets_ends(text);
    }
    let byte_pos: usize = if total == 0 {
        0
    } else {
        char_pos_to_byte_pos(entry.byte_index.as_slice(), entry.text.as_str(), char_pos)
    };
    assert(are_starts(
        text,
        chars_per_row as int,
        measure,
        before.layout,
        entry.layout,
        target as int,
        starts,
    ));
    assert(starts[target as int] == char_pos);
    RowCursor { row: target, char_pos, byte_pos }
}

// ---------------------------------------------------------------------------
// Rows in the viewport
// ---------------------------------------------------------------------------

/// A row of a very long line that is shown: where it starts, how many bytes of
/// text were handed to the layout, and how many characters it placed.
#[derive(Clone, Copy, Debug, PartialEq, Eq, Structural)]
pub struct RowPlace {
    pub row: usize,
    pub char_pos: usize,
    pub byte_pos: usize,
    pub text_len: usize,
    pub chars: usize,
}

/// The layout places no more characters than a row has.
pub open spec fn places_at_most<F: Fn(&str) -> usize>(measure: F) -> bool {
    forall|row: &str, n: usize| #[trigger] call_ensures(measure, (row,), n) ==> n <= row@.len()
}

/// Where the row behind the first `i` rows starts.
pub open spec fn next_start(
    text: Seq<char>,
    chars_per_row: int,
    rows: Seq<RowPlace>,
    i: int,
    from: int,
) -> int {
    if i == 0 {
        from
    } else {
        rows[i - 1].char_pos + rows[i - 1].chars + break_after(
            text,
            rows[i - 1].char_pos as int,
            chars_per_row,
            rows[i - 1].chars as int,
        )
    }
}

/// Row `i` stands behind the one before it, on a character of the text, and the
/// layout placed its characters.
pub open spec fn is_placed<F: Fn(&str) -> usize>(
    text: Seq<char>,
    chars_per_row: int,
    measure: F,
    rows: Seq<RowPlace>,
    i: int,
    from: RowCursor,
) -> bool {
    let p = rows[i];
    &&& p.row == from.row + i
    &&& p.char_pos == next_start(text, chars_per_row, rows, i, from.char_pos as int)
    &&& p.char_pos < text.len()
    &&& p.byte_pos == byte_at(text, p.char_pos as int)
    &&& exists|row: &str| #[trigger]
        is_laid_out(text, chars_per_row, measure, p.char_pos as int, row, p.chars) && p.text_len
            == utf8_len(row@)
}

/// Every row is placed behind the one before it, the first at a cursor.
pub open spec fn are_placed<F: Fn(&str) -> usize>(
    text: Seq<char>,
    chars_per_row: int,
    measure: F,
    rows: Seq<RowPlace>,
    from: RowCursor,
) -> bool {
    forall|i: int|
        0 <= i < rows.len() ==> #[trigger] is_placed(text, chars_per_row, measure, rows, i, from)
}

/// The rows end: so many are there as were asked for, or the line ends, or a row
/// took nothing.
pub open spec fn rows_end(
    text: Seq<char>,
    chars_per_row: int,
    rows: Seq<RowPlace>,
    count: int,
    from: int,
) -> bool {
    let n = rows.len() as int;
    ||| n == count
    ||| next_start(text, chars_per_row, rows, n, from) >= text.len()
    ||| n > 0 && next_start(text, chars_per_row, rows, n, from) == rows[n - 1].char_pos
}

proof fn lemma_placed_prefix<F: Fn(&str) -> usize>(
    text: Seq<char>,
    chars_per_row: int,
    measure: F,
    rows: Seq<RowPlace>,
    p: RowPlace,
    i: int,
    from: RowCursor,
)
    requires
        0 <= i < rows.len(),
        is_placed(text, chars_per_row, measure, rows, i, from),
    ensures
        is_placed(text, chars_per_row, measure, rows.push(p), i, from),
{
    assert(rows.push(p)[i] == rows[i]);
    if i > 0 {
        assert(rows.push(p)[i - 1] == rows[i - 1]);
    }
}

/// Lays out up to `count` rows of a cached line from a place on, and records
/// them. `measure` lays a row out and tells how many characters fit.
pub fn lay_rows<F: Fn(&str) -> usize>(
    entry: &mut HugeLineCache,
    from: RowCursor,
    count: usize,
    chars_per_row: usize,
    measure: F,
) -> (r: Vec<RowPlace>)
    requires
        old(entry).wf(),
        from.in_step(old(entry).text@),
        from.row + count < usize::MAX,
        chars_per_row + ROW_SLACK <= usize::MAX,
        forall|row: &str| #[trigger] call_requires(measure, (row,)),
        places_at_most(measure),
    ensures
        final(entry).wf(),
        final(entry).text == old(entry).text,
        final(entry).line == old(entry).line,
        final(entry).start_byte == old(entry).start_byte,
        final(entry).byte_index == old(entry).byte_index,
        final(entry).layout_key == old(entry).layout_key,
        r@.len() <= count,
        are_placed(old(entry).text@, chars_per_row as int, measure, r@, from),
        rows_end(
            old(entry).text@,
            chars_per_row as int,
            r@,
            count as int,
            from.char_pos as int,
        ),
        forall|i: int| #[trigger]
            final(entry).layout.row(i) == if from.row <= i < from.row + r@.len() {
                Some(
                    RowMeta {
                        start: r@[i - from.row].char_pos,
                        char_count: r@[i - from.row].chars,
                    },
                )
            } else {
                old(entry).layout.row(i)
            },
{
    let ghost text = entry.text@;
    let ghost before = *entry;
    let ghost cpr = chars_per_row as int;
    let total: usize = entry.char_count;
    let bytes: usize = entry.text.as_str().as_bytes().len();
    let mut out: Vec<RowPlace> = Vec::new();
    let mut at: RowCursor = from;
    let mut more: bool = true;
    while more && out.len() < count && at.char_pos < total
        invariant
            from.row + count < usize::MAX,
            chars_per_row + ROW_SLACK <= usize::MAX,
            cpr == chars_per_row,
            forall|row: &str| #[trigger] call_requires(measure, (row,)),
            places_at_most(measure),
            before.wf(),
            text == before.text@,
            total == text.len(),
            bytes == utf8_len(text),
            entry.text == before.text,
            entry.line == before.line,
            entry.char_count == before.char_count,
            entry.start_byte == before.start_byte,
            entry.byte_index == before.byte_index,
            entry.layout_key == before.layout_key,
            out@.len() <= count,
            at.row == from.row + out@.len(),
            at.in_step(text),
            at.char_pos == next_start(text, cpr, out@, out@.len() as int, from.char_pos as int),
            !more ==> out@.len() > 0 && next_start(
                text,
                cpr,
                out@,
                out@.len() as int,
                from.char_pos as int,
            ) == out@.last().char_pos,
            forall|i: int|
                0 <= i < out@.len() ==> #[trigger] is_placed(text, cpr, measure, out@, i, from),
            forall|i: int| #[trigger]
                entry.layout.row(i) == if from.row <= i < from.row + out@.len() {
                    Some(
                        RowMeta {
                            start: out@[i - from.row].char_pos,
                            char_count: out@[i - from.row].chars,
                        },
                    )
                } else {
                    before.layout.row(i)
                },
        decreases count - out@.len(),
    {
        let ghost prev = *entry;
        let ghost rows = out@;
        let ghost cursor = at;
        let (row, had_nl) = row_slice(
            entry.text.as_str(),
            at.byte_pos,
            at.char_pos,
            chars_per_row,
        );
        let text_len: usize = row.as_bytes().len();
        let n: usize = measure(row);
        let place: RowPlace = RowPlace {
            row: at.row,
            char_pos: at.char_pos,
            byte_pos: at.byte_pos,
            text_len,
            chars: n,
        };
        proof {
            assert(is_laid_out(text, cpr, measure, at.char_pos as int, row, n));
            lemma_row_in_text(text, at.char_pos as int, cpr);
        }
        more = at.advance(row, n, had_nl);
        entry.layout.set_row(place.row, place.char_pos, n);
        out.push(place);
        proof {
            law_rows_stay_in_step(text, cursor, at, cpr, n as int);
            assert forall|i: int| 0 <= i < out@.len() implies #[trigger] is_placed(
                text,
                cpr,
                measure,
                out@,
                i,
                from,
            ) by {
                if i < rows.len() {
                    lemma_placed_prefix(text, cpr, measure, rows, place, i, from);
                } else {
                    assert(out@[i] == place);
                    assert(is_laid_out(
                        text,
                        cpr,
                        measure,
                        out@[i].char_pos as int,
                        row,
                        out@[i].chars,
                    ));
                    if i > 0 {
                        assert(out@[i - 1] == rows[i - 1]);
                    }
                }
            }
            assert forall|i: int| #[trigger]
                entry.layout.row(i) == (if from.row <= i < from.row + out@.len() {
                    Some(
                        RowMeta {
                            start: out@[i - from.row].char_pos,
                            char_count: out@[i - from.row].chars,
                        },
                    )
                } else {
                    before.layout.row(i)
                }) by {
                if i != place.row {
                    assert(entry.layout.row(i) == prev.layout.row(i));
                    if from.row <= i < from.row + rows.len() {
                        assert(out@[i - from.row] == rows[i - from.row]);
                    }
                }
            }
        }
    }
    out
}

/// Lays out up to `count` rows of a line that is not cached, from its start on.
pub fn lay_text_rows<F: Fn(&str) -> usize>(
    text: &str,
    count: usize,
    chars_per_row: usize,
    measure: F,
) -> (r: Vec<RowPlace>)
    requires
        chars_per_row + ROW_SLACK <= usize::MAX,
        forall|row: &str| #[trigger] call_requires(measure, (row,)),
        places_at_most(measure),
    ensures
        r@.len() <= count,
        are_placed(
            text@,
            chars_per_row as int,
            measure,
            r@,
            (RowCursor { row: 0, char_pos: 0, byte_pos: 0 }),
        ),
        rows_end(text@, chars_per_row as int, r@, count as int, 0),
{
    let ghost cpr = chars_per_row as int;
    let ghost from = RowCursor { row: 0, char_pos: 0, byte_pos: 0 };
    let total: usize = char_count(text);
    let mut out: Vec<RowPlace> = Vec::new();
    let mut char_pos: usize = 0;
    let mut more: bool = true;
    while more && out.len() < count && char_pos < total
        invariant
            chars_per_row + ROW_SLACK <= usize::MAX,
            cpr == chars_per_row,
            from == (RowCursor { row: 0, char_pos: 0, byte_pos: 0 }),
            forall|row: &str| #[trigger] call_requires(measure, (row,)),
            places_at_most(measure),
            total == text@.len(),
            out@.len() <= count,
            char_pos <= total,
            char_pos == next_start(text@, cpr, out@, out@.len() as int, 0),
            !more ==> out@.len() > 0 && char_pos == out@.last().char_pos,
            forall|i: int|
                0 <= i < out@.len() ==> #[trigger] is_placed(text@, cpr, measure, out@, i, from),
        decreases count - out@.len(),
    {
        let ghost rows = out@;
        let byte_pos: usize = byte_of_char(text, char_pos);
        let (row, had_nl) = row_slice(text, byte_pos, char_pos, chars_per_row);
        let text_len: usize = row.as_bytes().len();
        let n: usize = measure(row);
        let place: RowPlace = RowPlace { row: out.len(), char_pos, byte_pos, text_len, chars: n };
        proof {
            assert(is_laid_out(text@, cpr, measure, char_pos as int, row, n));
            lemma_row_in_text(text@, char_pos as int, cpr);
        }
        out.push(place);
        let nl: usize = if had_nl && n >= char_count(row) {
            1
        } else {
            0
        };
        more = n > 0 || nl > 0;
        char_pos = char_pos + n + nl;
        proof {
            assert forall|i: int| 0 <= i < out@.len() implies #[trigger] is_placed(
                text@,
                cpr,
                measure,
                out@,
                i,
                from,
            ) by {
                if i < rows.len() {
                    lemma_placed_prefix(text@, cpr, measure, rows, place, i, from);
                } else {
                    assert(out@[i] == place);
                    assert(is_laid_out(
                        text@,
                        cpr,
                        measure,
                        out@[i].char_pos as int,
                        row,
                        out@[i].chars,
                    ));
                    if i > 0 {
                        assert(out@[i - 1] == rows[i - 1]);
                    }
                }
            }
        }
    }
    out
}

/// A row and the line break that ends it lie in the text.
proof fn lemma_row_in_text(text: Seq<char>, start: int, chars_per_row: int)
    requires
        0 <= start <= text.len(),
        0 <= chars_per_row,
    ensures
        ({
            let row = row_text(text, start, chars_per_row);
            let nl: int = if row_has_newline(text, start, chars_per_row) {
                1
            } else {
                0
            };
            &&& start + row.len() + nl <= text.len()
            &&& byte_at(text, start) + utf8_len(row) + nl <= utf8_len(text)
        }),
{
    let window = row_window(text, start, chars_per_row);
    let row = row_text(text, start, chars_per_row);
    lemma_newline_at(window);
    let end = start + row.len();
    assert(row =~= text.subrange(start, end));
    assert(text.take(end) =~= text.take(start) + row);
    crate::text::lemma_encode_concat(text.take(start), row);
    lemma_offsets_ends(text);
    lemma_offsets_ends(row);
    assert(row.take(row.len() as int) =~= row);
    if row_has_newline(text, start, chars_per_row) {
        lemma_byte_at_step(text, end);
        lemma_offsets_monotone(text, end + 1, text.len() as int);
    } else {
        lemma_offsets_monotone(text, end, text.len() as int);
    }
}

/// Rows that a line of `chars` characters takes at `chars_per_row` per row.
pub open spec fn rows_of(chars: nat, chars_per_row: nat) -> nat {
    ((chars + chars_per_row - 1) / chars_per_row as int) as nat
}

/// Rows that a very long line takes, as the scroll model counts them.
pub fn estimated_rows(chars: usize, chars_per_row: usize) -> (r: u64)
    requires
        chars_per_row > 0,
        chars + chars_per_row - 1 <= usize::MAX,
    ensures
        r == rows_of(chars as nat, chars_per_row as nat),
{
    ((chars + (chars_per_row - 1)) / chars_per_row) as u64
}

/// Rows of a line that the viewport shows: how many of its rows stand above the
/// viewport, and how many are shown at most. The line starts at visual row
/// `vrow`; the viewport spans the visual rows `[vis_top, vis_bottom)`.
pub fn rows_in_view(vis_top: u64, vis_bottom: u64, vrow: u64) -> (r: (u64, u64))
    ensures
        r.0 == if vis_top >= vrow {
            vis_top - vrow
        } else {
            0
        },
        r.0 + r.1 == if vis_bottom >= vrow && vis_bottom - vrow >= r.0 {
            vis_bottom - vrow
        } else {
            r.0 as int
        },
{
    let loc0: u64 = vis_top.saturating_sub(vrow);
    let loc1: u64 = vis_bottom.saturating_sub(vrow);
    (loc0, loc1.saturating_sub(loc0))
}

// ---------------------------------------------------------------------------
// Laws
// ---------------------------------------------------------------------------

/// Bytes and characters stay in step from row to row: however much of a row the
/// layout placed, the next row starts on a character, right behind what was shown
/// and the line break that ended it.
pub proof fn law_rows_stay_in_step(
    text: Seq<char>,
    cursor: RowCursor,
    after: RowCursor,
    chars_per_row: int,
    row_chars: int,
)
    requires
        cursor.in_step(text),
        0 <= chars_per_row,
        ({
            let row = row_text(text, cursor.char_pos as int, chars_per_row);
            let nl = break_after(text, cursor.char_pos as int, chars_per_row, row_chars);
            &&& 0 <= row_chars <= row.len()
            &&& after.char_pos == cursor.char_pos + row_chars + nl
            &&& after.byte_pos == cursor.byte_pos + byte_at(row, row_chars) + nl
        }),
    ensures
        after.in_step(text),
{
    let p = cursor.char_pos as int;
    let window = row_window(text, p, chars_per_row);
    let row = row_text(text, p, chars_per_row);
    lemma_newline_at(window);
    assert(row.take(row_chars) =~= text.subrange(p, p + row_chars));
    assert(text.take(p + row_chars) =~= text.take(p) + row.take(row_chars));
    crate::text::lemma_encode_concat(text.take(p), row.take(row_chars));
    assert(byte_at(text, p + row_chars) == byte_at(text, p) + byte_at(row, row_chars));
    if break_after(text, p, chars_per_row, row_chars) == 1 {
        assert(text[p + row_chars] == window[row_chars]);
        lemma_byte_at_step(text, p + row_chars);
    }
}

/// No character is lost between two rows that follow each other: the next row
/// starts right behind what was placed, or behind the line break there.
pub proof fn law_rows_leave_nothing_out<F: Fn(&str) -> usize>(
    text: Seq<char>,
    chars_per_row: int,
    measure: F,
    rows: Seq<RowPlace>,
    i: int,
    from: RowCursor,
)
    requires
        0 <= chars_per_row,
        0 < i < rows.len(),
        is_placed(text, chars_per_row, measure, rows, i - 1, from),
        is_placed(text, chars_per_row, measure, rows, i, from),
        places_at_most(measure),
    ensures
        ({
            let end = rows[i - 1].char_pos + rows[i - 1].chars;
            ||| rows[i].char_pos == end
            ||| rows[i].char_pos == end + 1 && text[end] == '\n'
        }),
{
    let start = rows[i - 1].char_pos as int;
    lemma_newline_at(row_window(text, start, chars_per_row));
}

/// Passing a row that was shown before comes to where the row behind it starts.
pub proof fn law_known_rows_pass_alike<F: Fn(&str) -> usize>(
    text: Seq<char>,
    chars_per_row: int,
    measure: F,
    rows: Seq<RowPlace>,
    i: int,
    from: int,
    after: Option<RowMeta>,
    next: int,
)
    requires
        0 <= i < rows.len(),
        next_start(text, chars_per_row, rows, i + 1, from) <= text.len(),
        is_row_passed(
            text,
            chars_per_row,
            measure,
            Some(RowMeta { start: rows[i].char_pos, char_count: rows[i].chars }),
            after,
            rows[i].char_pos as int,
            next,
        ),
    ensures
        next == next_start(text, chars_per_row, rows, i + 1, from),
{
}

/// No row's text holds a line break.
pub proof fn law_rows_hold_no_line_break(text: Seq<char>, char_pos: int, chars_per_row: int, i: int)
    requires
        0 <= char_pos <= text.len(),
        0 <= chars_per_row,
        0 <= i < row_text(text, char_pos, chars_per_row).len(),
    ensures
        row_text(text, char_pos, chars_per_row)[i] != '\n',
        row_text(text, char_pos, chars_per_row)[i] == text[char_pos + i],
{
    lemma_newline_at(row_window(text, char_pos, chars_per_row));
}

/// The rows of a text show it from its start on: each row is text without a line break,
/// placed where it stands, and the next one starts right behind it or behind the line
/// break there.
pub proof fn law_rows_show_the_text<F: Fn(&str) -> usize>(
    text: &str,
    count: usize,
    chars_per_row: usize,
    measure: F,
    r: Vec<RowPlace>,
    i: int,
    k: int,
)
    requires
        call_ensures(lay_text_rows::<F>, (text, count, chars_per_row, measure), r),
        places_at_most(measure),
        0 <= i < r@.len(),
        r@[i].char_pos <= k < r@[i].char_pos + r@[i].chars,
    ensures
        r@.len() <= count,
        r@[0].char_pos == 0 && r@[0].row == 0,
        r@[i].row == i,
        r@[i].char_pos + r@[i].chars <= text@.len(),
        r@[i].chars <= chars_per_row + 8,
        text@[k] != '\n',
        r@[i].byte_pos == encode_utf8(text@.take(r@[i].char_pos as int)).len(),
        i + 1 < r@.len() ==> ({
            let end = r@[i].char_pos + r@[i].chars;
            ||| r@[i + 1].char_pos == end
            ||| r@[i + 1].char_pos == end + 1 && text@[end] == '\n'
        }),
{
    let from = RowCursor { row: 0, char_pos: 0, byte_pos: 0 };
    let cpr = chars_per_row as int;
    assert(is_placed(text@, cpr, measure, r@, 0, from));
    assert(is_placed(text@, cpr, measure, r@, i, from));
    lemma_row_shows(text@, cpr, measure, r@, i, from, k);
    if i + 1 < r@.len() {
        assert(is_placed(text@, cpr, measure, r@, i + 1, from));
        law_rows_leave_nothing_out(text@, cpr, measure, r@, i + 1, from);
    }
}

proof fn lemma_row_shows<F: Fn(&str) -> usize>(
    text: Seq<char>,
    cpr: int,
    measure: F,
    rows: Seq<RowPlace>,
    i: int,
    from: RowCursor,
    k: int,
)
    requires
        0 <= cpr,
        0 <= i < rows.len(),
        is_placed(text, cpr, measure, rows, i, from),
        places_at_most(measure),
        rows[i].char_pos <= k < rows[i].char_pos + rows[i].chars,
    ensures
        rows[i].char_pos + rows[i].chars <= text.len(),
        rows[i].chars <= cpr + 8,
        text[k] != '\n',
{
    let p = rows[i];
    let row = choose|row: &str| #[trigger]
        is_laid_out(text, cpr, measure, p.char_pos as int, row, p.chars) && p.text_len == utf8_len(
            row@,
        );
    assert(call_ensures(measure, (row,), p.chars));
    lemma_newline_at(row_window(text, p.char_pos as int, cpr));
    law_rows_hold_no_line_break(text, p.char_pos as int, cpr, k - p.char_pos);
}

/// The rows of a cached line show it from a place on, in the same way, and what is known
/// of them is where they start and what they hold.
pub proof fn law_cached_rows_show_the_text<F: Fn(&str) -> usize>(
    entry: &mut HugeLineCache,
    from: RowCursor,
    count: usize,
    chars_per_row: usize,
    measure: F,
    r: Vec<RowPlace>,
    i: int,
    k: int,
)
    requires
        call_ensures(lay_rows::<F>, (entry, from, count, chars_per_row, measure), r),
        places_at_most(measure),
        0 <= i < r@.len(),
        r@[i].char_pos <= k < r@[i].char_pos + r@[i].chars,
    ensures
        ({
            let text = old(entry).text@;
            &&& r@.len() <= count
            &&& r@[0].char_pos == from.char_pos && r@[0].row == from.row
            &&& r@[i].row == from.row + i
            &&& r@[i].char_pos + r@[i].chars <= text.len()
            &&& r@[i].chars <= chars_per_row + 8
            &&& text[k] != '\n'
            &&& r@[i].byte_pos == encode_utf8(text.take(r@[i].char_pos as int)).len()
            &&& i + 1 < r@.len() ==> ({
                let end = r@[i].char_pos + r@[i].chars;
                ||| r@[i + 1].char_pos == end
                ||| r@[i + 1].char_pos == end + 1 && text[end] == '\n'
            })
        }),
        final(entry).layout.row(from.row + i) == Some(
            RowMeta { start: r@[i].char_pos, char_count: r@[i].chars },
        ),
        final(entry).text == old(entry).text,
{
    let text = old(entry).text@;
    let cpr = chars_per_row as int;
    assert(is_placed(text, cpr, measure, r@, 0, from));
    assert(is_placed(text, cpr, measure, r@, i, from));
    lemma_row_shows(text, cpr, measure, r@, i, from, k);
    if i + 1 < r@.len() {
        assert(is_placed(text, cpr, measure, r@, i + 1, from));
        law_rows_leave_nothing_out(text, cpr, measure, r@, i + 1, from);
    }
}

/// The text of a row is the text from its place on, up to the first line break or as many
/// characters as a row can take and eight more.
pub proof fn law_the_text_of_a_row(
    text: &str,
    byte_pos: usize,
    char_pos: usize,
    chars_per_row: usize,
    r: (&str, bool),
    k: int,
)
    requires
        call_ensures(row_slice, (text, byte_pos, char_pos, chars_per_row), r),
        char_pos <= text@.len(),
    ensures
        char_pos + r.0@.len() <= text@.len(),
        r.0@ == text@.subrange(char_pos as int, char_pos + r.0@.len()),
        r.0@.len() <= chars_per_row + 8,
        0 <= k < r.0@.len() ==> r.0@[k] != '\n',
        r.1 ==> char_pos + r.0@.len() < text@.len() && text@[char_pos + r.0@.len()] == '\n',
        !r.1 ==> r.0@.len() == chars_per_row + 8 || char_pos + r.0@.len() == text@.len(),
{
    let window = row_window(text@, char_pos as int, chars_per_row as int);
    lemma_newline_at(window);
    assert(r.0@ =~= text@.subrange(char_pos as int, char_pos + r.0@.len()));
    if r.1 {
        assert(window[r.0@.len() as int] == '\n');
    }
}

/// As many rows are expected as hold the characters, and one less would not.
pub proof fn law_expected_rows_hold_the_characters(chars: usize, chars_per_row: usize, r: u64)
    requires
        call_ensures(estimated_rows, (chars, chars_per_row), r),
        chars_per_row > 0,
    ensures
        r * chars_per_row >= chars,
        chars > 0 ==> (r - 1) * chars_per_row < chars,
        chars == 0 ==> r == 0,
{
    let a = chars as int;
    let b = chars_per_row as int;
    let q = (a + b - 1) / b;
    assert(q * b >= a && (q - 1) * b < a && q >= 0) by (nonlinear_arith)
        requires
            q == (a + b - 1) / b,
            b > 0,
            a >= 0,
    ;
    assert(a == 0 ==> q == 0) by (nonlinear_arith)
        requires
            q == (a + b - 1) / b,
            b > 0,
    ;
}

/// The rows of a line that are in view are those between the top and the bottom of it.
pub proof fn law_rows_in_view(top: u64, bottom: u64, vrow: u64, r: (u64, u64), k: int)
    requires
        call_ensures(rows_in_view, (top, bottom, vrow), r),
        0 <= k,
    ensures
        (r.0 <= k < r.0 + r.1) == (top <= vrow + k < bottom),
{
}

/// In a line without breaks of which every row takes `w` characters, a row starts behind as
/// many times `w` characters as there are rows in front of it, or at the end of the line.
pub proof fn law_rows_are_sought<F: Fn(&str) -> usize>(
    entry: &mut HugeLineCache,
    target: usize,
    chars_per_row: usize,
    measure: F,
    w: usize,
    r: RowCursor,
)
    requires
        call_ensures(seek_row::<F>, (entry, target, chars_per_row, measure), r),
        forall|row: &str, n: usize| #[trigger] call_ensures(measure, (row,), n) ==> n == w,
        forall|i: int| 0 <= i < old(entry).text@.len() ==> #[trigger] old(entry).text@[i] != '\n',
        forall|i: int| 0 <= i < target ==> #[trigger] old(entry).layout.row(i) is None,
    ensures
        r.row == target,
        target * w <= old(entry).text@.len() ==> r.char_pos == target * w,
        target * w > old(entry).text@.len() ==> r.char_pos == old(entry).text@.len(),
        r.char_pos <= old(entry).text@.len(),
        r.byte_pos == encode_utf8(old(entry).text@.take(r.char_pos as int)).len(),
        final(entry).text == old(entry).text,
{
    let text = old(entry).text@;
    let starts = choose|starts: Seq<int>| #[trigger]
        are_starts(
            text,
            chars_per_row as int,
            measure,
            old(entry).layout,
            final(entry).layout,
            target as int,
            starts,
        ) && starts[target as int] == r.char_pos;
    lemma_even_starts(
        text,
        chars_per_row as int,
        measure,
        old(entry).layout,
        final(entry).layout,
        target as int,
        starts,
        w as int,
        target as int,
    );
}

proof fn lemma_even_starts<F: Fn(&str) -> usize>(
    text: Seq<char>,
    chars_per_row: int,
    measure: F,
    before: HugeLayout,
    after: HugeLayout,
    target: int,
    starts: Seq<int>,
    w: int,
    n: int,
)
    requires
        are_starts(text, chars_per_row, measure, before, after, target, starts),
        forall|row: &str, k: usize| #[trigger] call_ensures(measure, (row,), k) ==> k == w,
        forall|i: int| 0 <= i < text.len() ==> #[trigger] text[i] != '\n',
        forall|i: int| 0 <= i < target ==> #[trigger] before.row(i) is None,
        0 <= n <= target,
        w >= 0,
        chars_per_row >= 0,
    ensures
        starts[n] == min_int(n * w, text.len() as int),
    decreases n,
{
    if n > 0 {
        let i = n - 1;
        lemma_even_starts(
            text,
            chars_per_row,
            measure,
            before,
            after,
            target,
            starts,
            w,
            i,
        );
        assert(is_row_passed(
            text,
            chars_per_row,
            measure,
            before.row(i),
            after.row(i),
            starts[i],
            starts[i + 1],
        ));
        let k = choose|k: usize| #[trigger]
            is_row_known(
                text,
                chars_per_row,
                measure,
                before.row(i),
                after.row(i),
                starts[i],
                k,
            ) && starts[i + 1] == min_int(
                starts[i] + k + break_after(text, starts[i], chars_per_row, k as int),
                text.len() as int,
            );
        assert(before.row(i) is None);
        assert(k == w);
        let window = row_window(text, starts[i], chars_per_row);
        lemma_newline_at(window);
        assert(0 <= i * w) by (nonlinear_arith)
            requires
                0 <= i,
                0 <= w,
        ;
        assert(0 <= starts[i] <= text.len());
        assert(!row_has_newline(text, starts[i], chars_per_row)) by {
            let at = newline_at(window);
            if at < window.len() {
                assert(window[at] == '\n');
                assert(window[at] == text[starts[i] + at]);
            }
        }
        assert(n * w == i * w + w) by (nonlinear_arith)
            requires
                n == i + 1,
        ;
    } else {
        assert(0 * w == 0);
    }
}

/// A place moves behind a row: by its characters, its bytes and the break that ends it.
pub proof fn law_places_move_by_rows(
    c: &mut RowCursor,
    row: &str,
    n: usize,
    had_nl: bool,
    more: bool,
    start: RowCursor,
)
    requires
        call_ensures(RowCursor::advance, (c, row, n, had_nl), more),
        call_ensures(RowCursor::start, (), start),
        n == row@.len(),
    ensures
        start.row == 0 && start.char_pos == 0 && start.byte_pos == 0,
        final(c).row == old(c).row + 1,
        had_nl ==> final(c).char_pos == old(c).char_pos + n + 1 && final(c).byte_pos == old(
            c).byte_pos + encode_utf8(row@).len() + 1,
        !had_nl ==> final(c).char_pos == old(c).char_pos + n && final(c).byte_pos == old(c).byte_pos
            + encode_utf8(row@).len(),
        more == (n > 0 || had_nl),
{
    assert(row@.take(row@.len() as int) =~= row@);
}

} // verus!
