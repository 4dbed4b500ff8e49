//! Log levels of text lines.

use vstd::prelude::*;
use vstd::utf8::encode_utf8;

use crate::occurrences::{contains, ends_with, occurs, occurs_at, starts_with};

verus! {

broadcast use vstd::string::group_string_axioms;

/// Byte of `[`.
pub const OPEN_BRACKET: u8 = 0x5B;

/// Byte of `]`.
pub const CLOSE_BRACKET: u8 = 0x5D;

/// Byte of `"`.
pub const QUOTE: u8 = 0x22;

/// Byte of `<`.
pub const LESS: u8 = 0x3C;

/// Byte of `>`.
pub const GREATER: u8 = 0x3E;

/// Byte of a blank.
pub const BLANK: u8 = 0x20;

/// Byte of `:`.
pub const COLON: u8 = 0x3A;

/// Severity of a log line.
#[derive(Clone, Copy, Debug, PartialEq, Eq, Structural)]
pub enum Level {
    Error,
    Warn,
    Info,
    Debug,
    Trace,
}

/// A level word between two bytes.
pub open spec fn between(open: u8, word: Seq<u8>, close: u8) -> Seq<u8> {
    seq![open] + word + seq![close]
}

/// The bytes `u` carry the level word `word` as a marker: `[WORD]`, `WORD:`,
/// `"WORD"`, `<WORD>`, or ` WORD `, where the start or the end of the line can
/// take the place of a blank.
pub open spec fn marks_level(u: Seq<u8>, word: Seq<u8>) -> bool {
    ||| occurs(u, between(OPEN_BRACKET, word, CLOSE_BRACKET))
    ||| occurs(u, word + seq![COLON])
    ||| occurs(u, between(QUOTE, word, QUOTE))
    ||| occurs(u, between(LESS, word, GREATER))
    ||| occurs(u, between(BLANK, word, BLANK))
    ||| (word + seq![BLANK]).is_prefix_of(u)
    ||| (seq![BLANK] + word).is_suffix_of(u)
    ||| u == word
}

/// The bytes `u` carry the marker of one of a level's words.
pub open spec fn marks(u: Seq<u8>, word: &str) -> bool {
    marks_level(u, encode_utf8(word@))
}

/// Level of an upper case line: the most severe one that it carries a marker of.
pub open spec fn level_of(u: Seq<u8>) -> Option<Level> {
    if marks(u, "ERROR") || marks(u, "FATAL") || marks(u, "CRIT") {
        Some(Level::Error)
    } else if marks(u, "WARN") || marks(u, "WARNING") {
        Some(Level::Warn)
    } else if marks(u, "INFO") || marks(u, "NOTICE") {
        Some(Level::Info)
    } else if marks(u, "DEBUG") {
        Some(Level::Debug)
    } else if marks(u, "TRACE") {
        Some(Level::Trace)
    } else {
        None
    }
}

/// Upper case of a text after the Unicode rules.
pub uninterp spec fn uppercase(s: Seq<char>) -> Seq<char>;

/// `str::to_uppercase` gives the upper case of a text. Nothing is said of what
/// that is on any text, only that it depends on the text alone.
#[verifier::external_body]
fn to_uppercase(s: &str) -> (r: String)
    ensures
        r@ == uppercase(s@),
{
    s.to_uppercase()
}

/// `word`, followed by `close`.
fn followed(word: &[u8], close: u8) -> (r: Vec<u8>)
    ensures
        r@ == word@ + seq![close],
{
    let mut v: Vec<u8> = Vec::new();
    v.extend_from_slice(word);
    v.push(close);
    assert(v@ =~= word@ + seq![close]);
    v
}

/// `word`, preceded by `open`.
fn preceded(open: u8, word: &[u8]) -> (r: Vec<u8>)
    ensures
        r@ == seq![open] + word@,
{
    let mut v: Vec<u8> = Vec::new();
    v.push(open);
    v.extend_from_slice(word);
    assert(v@ =~= seq![open] + word@);
    v
}

/// Whether `u` holds `word` between `open` and `close`.
fn contains_between(u: &[u8], open: u8, word: &[u8], close: u8) -> (r: bool)
    ensures
        r == occurs(u@, between(open, word@, close)),
{
    let mut v: Vec<u8> = preceded(open, word);
    v.push(close);
    assert(v@ =~= between(open, word@, close));
    contains(u, v.as_slice())
}

/// Whether the bytes `u` carry the level word `word` as a marker.
pub fn has_level_bytes(u: &[u8], word: &[u8]) -> (r: bool)
    ensures
        r == marks_level(u@, word@),
{
    if contains_between(u, OPEN_BRACKET, word, CLOSE_BRACKET) {
        return true;
    }
    if contains(u, followed(word, COLON).as_slice()) {
        return true;
    }
    if contains_between(u, QUOTE, word, QUOTE) {
        return true;
    }
    if contains_between(u, LESS, word, GREATER) {
        return true;
    }
    if contains_between(u, BLANK, word, BLANK) {
        return true;
    }
    if starts_with(u, followed(word, BLANK).as_slice()) {
        return true;
    }
    if ends_with(u, preceded(BLANK, word).as_slice()) {
        return true;
    }
    if u.len() == word.len() && starts_with(u, word) {
        assert(u@ =~= word@);
        return true;
    }
    false
}

/// Level of an upper case line, given by its bytes.
pub fn level_of_upper(u: &[u8]) -> (r: Option<Level>)
    ensures
        r == level_of(u@),
{
    if has_level_bytes(u, "ERROR".as_bytes()) || has_level_bytes(u, "FATAL".as_bytes())
        || has_level_bytes(u, "CRIT".as_bytes()) {
        Some(Level::Error)
    } else if has_level_bytes(u, "WARN".as_bytes()) || has_level_bytes(u, "WARNING".as_bytes()) {
        Some(Level::Warn)
    } else if has_level_bytes(u, "INFO".as_bytes()) || has_level_bytes(u, "NOTICE".as_bytes()) {
        Some(Level::Info)
    } else if has_level_bytes(u, "DEBUG".as_bytes()) {
        Some(Level::Debug)
    } else if has_level_bytes(u, "TRACE".as_bytes()) {
        Some(Level::Trace)
    } else {
        None
    }
}

/// Level of a line, whatever the case of its words.
pub fn level_of_line(text: &str) -> (r: Option<Level>)
    ensures
        r == level_of(encode_utf8(uppercase(text@))),
{
    let upper: String = to_uppercase(text);
    level_of_upper(upper.as_str().as_bytes())
}

/// Upper case of an ASCII letter; any other byte stays.
pub open spec fn ascii_upper(b: u8) -> u8 {
    if 97 <= b <= 122 {
        (b - 32) as u8
    } else {
        b
    }
}

/// Upper case of the ASCII letters among some bytes.
pub open spec fn ascii_uppercase(u: Seq<u8>) -> Seq<u8> {
    Seq::new(u.len(), |i: int| ascii_upper(u[i]))
}

/// Upper case of one byte.
pub fn upper_byte(b: u8) -> (r: u8)
    ensures
        r == ascii_upper(b),
{
    if 97 <= b && b <= 122 {
        b - 32
    } else {
        b
    }
}

/// Some bytes with their ASCII letters in upper case.
pub fn to_ascii_uppercase(u: &[u8]) -> (r: Vec<u8>)
    ensures
        r@ == ascii_uppercase(u@),
{
    let mut v: Vec<u8> = Vec::new();
    let mut i: usize = 0;
    while i < u.len()
        invariant
            i <= u@.len(),
            v@.len() == i,
            forall|k: int| 0 <= k < i ==> #[trigger] v@[k] == ascii_upper(u@[k]),
        decreases u@.len() - i,
    {
        v.push(upper_byte(u[i]));
        i = i + 1;
    }
    assert(v@ =~= ascii_uppercase(u@));
    v
}

/// Level of a line of which only ASCII letters are taken to upper case.
pub fn level_of_ascii_line(text: &str) -> (r: Option<Level>)
    ensures
        r == level_of(ascii_uppercase(encode_utf8(text@))),
{
    let upper: Vec<u8> = to_ascii_uppercase(text.as_bytes());
    level_of_upper(upper.as_slice())
}

// ---------------------------------------------------------------------------
// Laws
// ---------------------------------------------------------------------------

/// A line that starts with a level word, ends with it or is nothing but it
/// carries its marker, where a blank parts the word from the rest.
pub proof fn law_start_and_end_of_a_line_mark(word: Seq<u8>, rest: Seq<u8>)
    ensures
        marks_level(word, word),
        marks_level(word + seq![BLANK] + rest, word),
        marks_level(rest + seq![BLANK] + word, word),
{
    let head = word + seq![BLANK];
    assert((head + rest).take(head.len() as int) =~= head);
    let tail = seq![BLANK] + word;
    let all = rest + seq![BLANK] + word;
    assert(all =~= rest + tail);
    assert(all.skip(all.len() - tail.len()) =~= tail);
}

/// A line gets the most severe of the levels that it carries markers of.
pub proof fn law_most_severe_level_wins(u: Seq<u8>)
    ensures
        marks(u, "ERROR") ==> level_of(u) == Some(Level::Error),
        level_of(u) == Some(Level::Trace) ==> !marks(u, "ERROR") && !marks(u, "FATAL") && !marks(
            u,
            "CRIT",
        ) && !marks(u, "WARN") && !marks(u, "WARNING") && !marks(u, "INFO") && !marks(u, "NOTICE")
            && !marks(u, "DEBUG"),
{
}

/// The case of ASCII letters does not matter for the level of a line.
pub proof fn law_ascii_case_does_not_matter(u: Seq<u8>)
    ensures
        ascii_uppercase(ascii_uppercase(u)) == ascii_uppercase(u),
        level_of(ascii_uppercase(ascii_uppercase(u))) == level_of(ascii_uppercase(u)),
{
    assert(ascii_uppercase(ascii_uppercase(u)) =~= ascii_uppercase(u));
}

/// A level word is found between two blanks, brackets, quotes or angle brackets and in
/// front of a colon, whatever stands around it.
pub proof fn law_markers_are_found(line: &[u8], word: &[u8], a: Seq<u8>, b: Seq<u8>, r: bool)
    requires
        call_ensures(has_level_bytes, (line, word), r),
        ({
            ||| line@ == a + seq![' ' as u8] + word@ + seq![' ' as u8] + b
            ||| line@ == a + seq!['[' as u8] + word@ + seq![']' as u8] + b
            ||| line@ == a + seq!['"' as u8] + word@ + seq!['"' as u8] + b
            ||| line@ == a + seq!['<' as u8] + word@ + seq!['>' as u8] + b
            ||| line@ == a + word@ + seq![':' as u8] + b
            ||| line@ == word@ + seq![' ' as u8] + b
            ||| line@ == a + seq![' ' as u8] + word@
            ||| line@ == word@
        }),
    ensures
        r,
{
    lemma_marker_found(line@, word@, a, ' ' as u8, ' ' as u8, b);
    lemma_marker_found(line@, word@, a, '[' as u8, ']' as u8, b);
    lemma_marker_found(line@, word@, a, '"' as u8, '"' as u8, b);
    lemma_marker_found(line@, word@, a, '<' as u8, '>' as u8, b);
    let w = word@ + seq![':' as u8];
    if line@ == a + word@ + seq![':' as u8] + b {
        assert(line@.subrange(a.len() as int, a.len() as int + w.len()) =~= w);
        assert(occurs_at(line@, w, a.len() as int));
    }
    law_start_and_end_of_a_line_mark(word@, a);
    law_start_and_end_of_a_line_mark(word@, b);
}

proof fn lemma_marker_found(u: Seq<u8>, word: Seq<u8>, a: Seq<u8>, open: u8, close: u8, b: Seq<u8>)
    ensures
        u == a + seq![open] + word + seq![close] + b ==> occurs(u, seq![open] + word + seq![close]),
{
    let w = seq![open] + word + seq![close];
    if u == a + seq![open] + word + seq![close] + b {
        assert(u.subrange(a.len() as int, a.len() as int + w.len()) =~= w);
        assert(occurs_at(u, w, a.len() as int));
    }
}

/// Nothing else is taken for a marker: a level word that is found stands somewhere in
/// the line, with a colon behind it or nothing but the right signs around it.
pub proof fn law_only_markers_are_found(line: &[u8], word: &[u8], r: bool)
    requires
        call_ensures(has_level_bytes, (line, word), r),
    ensures
        r ==> exists|i: int|
            {
                let end = i + word@.len();
                &&& 0 <= i
                &&& end <= line@.len()
                &&& #[trigger] line@.subrange(i, i + word@.len()) == word@
                &&& {
                    ||| end < line@.len() && line@[end] == ':' as u8
                    ||| 0 < i && end < line@.len() && line@[i - 1] == '[' as u8 && line@[end]
                        == ']' as u8
                    ||| 0 < i && end < line@.len() && line@[i - 1] == '"' as u8 && line@[end]
                        == '"' as u8
                    ||| 0 < i && end < line@.len() && line@[i - 1] == '<' as u8 && line@[end]
                        == '>' as u8
                    ||| (i == 0 || line@[i - 1] == ' ' as u8) && (end == line@.len() || line@[end]
                        == ' ' as u8)
                }
            },
{
    if r {
        let u = line@;
        let w = word@;
        let n = w.len() as int;
        if occurs(u, between(OPEN_BRACKET, w, CLOSE_BRACKET)) {
            let i = lemma_inner(u, OPEN_BRACKET, w, CLOSE_BRACKET);
            assert(u.subrange(i, i + n) == w);
        } else if occurs(u, w + seq![COLON]) {
            let i = choose|i: int| occurs_at(u, w + seq![COLON], i);
            let part = u.subrange(i, i + n + 1);
            assert(part == w + seq![COLON]);
            assert(part[n] == u[i + n]);
            assert(u.subrange(i, i + n) =~= part.take(n));
            assert(part.take(n) =~= w);
            assert(u.subrange(i, i + n) == w);
        } else if occurs(u, between(QUOTE, w, QUOTE)) {
            let i = lemma_inner(u, QUOTE, w, QUOTE);
            assert(u.subrange(i, i + n) == w);
        } else if occurs(u, between(LESS, w, GREATER)) {
            let i = lemma_inner(u, LESS, w, GREATER);
            assert(u.subrange(i, i + n) == w);
        } else if occurs(u, between(BLANK, w, BLANK)) {
            let i = lemma_inner(u, BLANK, w, BLANK);
            assert(u.subrange(i, i + n) == w);
        } else if (w + seq![BLANK]).is_prefix_of(u) {
            let part = u.take(n + 1);
            assert(part == w + seq![BLANK]);
            assert(part[n] == u[n]);
            assert(u.subrange(0, 0 + n) =~= part.take(n));
            assert(part.take(n) =~= w);
        } else if (seq![BLANK] + w).is_suffix_of(u) {
            let i = u.len() - n;
            let part = u.skip(i - 1);
            assert(part == seq![BLANK] + w);
            assert(part[0] == u[i - 1]);
            assert(u.subrange(i, i + n) =~= part.skip(1));
            assert(part.skip(1) =~= w);
        } else {
            assert(u.subrange(0, 0 + n) =~= w);
        }
    }
}

proof fn lemma_inner(u: Seq<u8>, open: u8, w: Seq<u8>, close: u8) -> (i: int)
    requires
        occurs(u, between(open, w, close)),
    ensures
        0 < i,
        i + w.len() < u.len(),
        u.subrange(i, i + w.len()) == w,
        u[i - 1] == open,
        u[i + w.len()] == close,
{
    let all = between(open, w, close);
    let j = choose|j: int| occurs_at(u, all, j);
    let part = u.subrange(j, j + all.len());
    assert(part == all);
    assert(part[0] == u[j]);
    assert(part[w.len() as int + 1] == u[j + 1 + w.len()]);
    assert(u.subrange(j + 1, j + 1 + w.len()) =~= part.subrange(1, 1 + w.len() as int));
    assert(all.subrange(1, 1 + w.len() as int) =~= w);
    j + 1
}

/// Every level word gives a line its level, unless a more severe one stands in the line
/// too, and a line has a level only from a word in it.
pub proof fn law_words_give_their_levels(line: &[u8], a: Seq<u8>, b: Seq<u8>, r: Option<Level>)
    requires
        call_ensures(level_of_upper, (line,), r),
    ensures
        between_blanks(line@, a, "ERROR", b) ==> r == Some(Level::Error),
        between_blanks(line@, a, "FATAL", b) ==> r == Some(Level::Error),
        between_blanks(line@, a, "CRIT", b) ==> r == Some(Level::Error),
        between_blanks(line@, a, "WARN", b) ==> r == Some(Level::Warn) || r == Some(Level::Error),
        between_blanks(line@, a, "WARNING", b) ==> r == Some(Level::Warn) || r == Some(
            Level::Error,
        ),
        between_blanks(line@, a, "INFO", b) ==> r is Some && r != Some(Level::Debug) && r != Some(
            Level::Trace,
        ),
        between_blanks(line@, a, "NOTICE", b) ==> r is Some && r != Some(Level::Debug) && r != Some(
            Level::Trace,
        ),
        between_blanks(line@, a, "DEBUG", b) ==> r is Some && r != Some(Level::Trace),
        between_blanks(line@, a, "TRACE", b) ==> r is Some,
        r == Some(Level::Error) ==> holds(line@, "ERROR") || holds(line@, "FATAL") || holds(
            line@,
            "CRIT",
        ),
        r == Some(Level::Warn) ==> holds(line@, "WARN"),
        r == Some(Level::Info) ==> holds(line@, "INFO") || holds(line@, "NOTICE"),
        r == Some(Level::Debug) ==> holds(line@, "DEBUG"),
        r == Some(Level::Trace) ==> holds(line@, "TRACE"),
{
    lemma_word(line@, a, "ERROR", b);
    lemma_word(line@, a, "FATAL", b);
    lemma_word(line@, a, "CRIT", b);
    lemma_word(line@, a, "WARN", b);
    lemma_word(line@, a, "WARNING", b);
    lemma_word(line@, a, "INFO", b);
    lemma_word(line@, a, "NOTICE", b);
    lemma_word(line@, a, "DEBUG", b);
    lemma_word(line@, a, "TRACE", b);
    if r == Some(Level::Warn) && holds(line@, "WARNING") {
        reveal_strlit("WARN");
        reveal_strlit("WARNING");
        let w = encode_utf8("WARNING"@);
        let i = choose|i: int| 0 <= i && i + w.len() <= line@.len() && #[trigger] line@.subrange(i, i + w.len()) == w;
        assert("WARNING"@ =~= "WARN"@ + seq!['I', 'N', 'G']);
        crate::text::lemma_encode_concat("WARN"@, seq!['I', 'N', 'G']);
        let v = encode_utf8("WARN"@);
        assert(line@.subrange(i, i + v.len()) =~= w.take(v.len() as int));
        assert(w.take(v.len() as int) =~= v);
        assert(line@.subrange(i, i + v.len()) == v);
    }
}

/// The bytes are a word between two blanks, with something in front and behind.
pub open spec fn between_blanks(u: Seq<u8>, a: Seq<u8>, word: &str, b: Seq<u8>) -> bool {
    u == a + seq![' ' as u8] + encode_utf8(word@) + seq![' ' as u8] + b
}

/// The bytes hold a word somewhere.
pub open spec fn holds(u: Seq<u8>, word: &str) -> bool {
    exists|i: int|
        0 <= i && i + encode_utf8(word@).len() <= u.len() && #[trigger] u.subrange(
            i,
            i + encode_utf8(word@).len(),
        ) == encode_utf8(word@)
}

proof fn lemma_word(u: Seq<u8>, a: Seq<u8>, word: &str, b: Seq<u8>)
    ensures
        between_blanks(u, a, word, b) ==> marks(u, word),
        marks(u, word) ==> holds(u, word),
{
    let w = encode_utf8(word@);
    lemma_marker_found(u, w, a, ' ' as u8, ' ' as u8, b);
    if marks(u, word) {
        let n = w.len() as int;
        if occurs(u, w + seq![COLON]) {
            let i = choose|i: int| occurs_at(u, w + seq![COLON], i);
            let part = u.subrange(i, i + n + 1);
            assert(u.subrange(i, i + n) =~= part.take(n));
            assert(part.take(n) =~= w);
            assert(u.subrange(i, i + n) == w);
        } else if (w + seq![BLANK]).is_prefix_of(u) {
            assert(u.subrange(0, 0 + n) =~= u.take(n + 1).take(n));
            assert(u.take(n + 1).take(n) =~= w);
        } else if (seq![BLANK] + w).is_suffix_of(u) {
            let i = u.len() - n;
            assert(u.subrange(i, i + n) =~= u.skip(i - 1).skip(1));
            assert(u.skip(i - 1).skip(1) =~= w);
        } else if u == w {
            assert(u.subrange(0, 0 + n) =~= w);
        } else {
            let i = if occurs(u, between(OPEN_BRACKET, w, CLOSE_BRACKET)) {
                lemma_inner(u, OPEN_BRACKET, w, CLOSE_BRACKET)
            } else if occurs(u, between(QUOTE, w, QUOTE)) {
                lemma_inner(u, QUOTE, w, QUOTE)
            } else if occurs(u, between(LESS, w, GREATER)) {
                lemma_inner(u, LESS, w, GREATER)
            } else {
                lemma_inner(u, BLANK, w, BLANK)
            };
            assert(u.subrange(i, i + n) == w);
        }
    }
}

/// Two lines that differ only in the case of ASCII letters have the same level.
pub proof fn law_lines_in_any_case_have_one_level(
    a: &str,
    b: &str,
    ra: Option<Level>,
    rb: Option<Level>,
)
    requires
        call_ensures(level_of_ascii_line, (a,), ra),
        call_ensures(level_of_ascii_line, (b,), rb),
        encode_utf8(a@).len() == encode_utf8(b@).len(),
        forall|i: int|
            0 <= i < encode_utf8(a@).len() ==> {
                let x = #[trigger] encode_utf8(a@)[i] as int;
                let y = encode_utf8(b@)[i] as int;
                x == y || (65 <= x <= 90 && y == x + 32) || (65 <= y <= 90 && x == y + 32)
            },
    ensures
        ra == rb,
{
    assert(ascii_uppercase(encode_utf8(a@)) =~= ascii_uppercase(encode_utf8(b@)));
}

/// A line of capital letters has the level of its bytes.
pub proof fn law_capital_lines_keep_their_level(
    text: &str,
    bytes: &[u8],
    r: Option<Level>,
    direct: Option<Level>,
)
    requires
        call_ensures(level_of_ascii_line, (text,), r),
        call_ensures(level_of_upper, (bytes,), direct),
        bytes@ == encode_utf8(text@),
        forall|i: int| 0 <= i < bytes@.len() ==> !(97 <= #[trigger] bytes@[i] <= 122),
    ensures
        r == direct,
{
    assert(ascii_uppercase(bytes@) =~= bytes@);
}

/// Small letters become capital ones, and every other byte stays.
pub proof fn law_letters_become_capital(b: u8, r: u8, u: &[u8], v: Vec<u8>, i: int, w: u8)
    requires
        call_ensures(upper_byte, (b,), r),
        call_ensures(to_ascii_uppercase, (u,), v),
        0 <= i < u@.len(),
        call_ensures(upper_byte, (u@[i],), w),
    ensures
        'a' as u8 <= b <= 'z' as u8 ==> r == b - 32,
        b < 'a' as u8 || b > 'z' as u8 ==> r == b,
        v@.len() == u@.len(),
        v@[i] == w,
{
}

} // verus!
