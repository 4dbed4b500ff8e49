//! Text as sequences of characters, with the byte (UTF-8) and code unit
//! (UTF-16) position of each character.

use vstd::prelude::*;
use vstd::utf8::*;

verus! {

broadcast use vstd::string::group_string_axioms;

// ---------------------------------------------------------------------------
// Model
// ---------------------------------------------------------------------------

/// Bytes that a character takes in UTF-8.
pub open spec fn utf8_width(c: char) -> nat {
    if (c as u32) < 0x80 {
        1
    } else if (c as u32) < 0x800 {
        2
    } else if (c as u32) < 0x10000 {
        3
    } else {
        4
    }
}

/// Code units that a character takes in UTF-16.
pub open spec fn utf16_width(c: char) -> nat {
    if (c as u32) < 0x10000 {
        1
    } else {
        2
    }
}

/// Bytes that a text takes in UTF-8.
pub open spec fn utf8_len(s: Seq<char>) -> nat {
    encode_utf8(s).len()
}

/// Code units that a text takes in UTF-16.
pub open spec fn utf16_len(s: Seq<char>) -> nat
    decreases s.len(),
{
    if s.len() == 0 {
        0
    } else {
        utf16_len(s.drop_last()) + utf16_width(s.last())
    }
}

/// Byte offset of the character with index `k` (of the end, for `k == s.len()`).
pub open spec fn byte_at(s: Seq<char>, k: int) -> nat {
    utf8_len(s.take(k))
}

/// Code unit offset of the character with index `k`.
pub open spec fn unit_at(s: Seq<char>, k: int) -> nat {
    utf16_len(s.take(k))
}

/// `k` is the first character index whose code unit offset is at least `unit`,
/// or the number of characters where there is none.
pub open spec fn first_char_at_unit(s: Seq<char>, unit: int, k: int) -> bool {
    &&& 0 <= k <= s.len()
    &&& k < s.len() ==> unit_at(s, k) >= unit
    &&& k > 0 ==> unit_at(s, k - 1) < unit
}

/// `k` is the index of the character that holds byte `byte`: the last one that
/// starts at or before it. A byte past the text belongs to its end.
pub open spec fn char_holding_byte(s: Seq<char>, byte: int, k: int) -> bool {
    &&& 0 <= k <= s.len()
    &&& byte >= utf8_len(s) ==> k == s.len()
    &&& byte < utf8_len(s) ==> k < s.len() && byte_at(s, k) <= byte < byte_at(s, k + 1)
}

/// Index of the character that holds byte `byte`.
pub open spec fn char_index(s: Seq<char>, byte: int) -> int {
    choose|k: int| char_holding_byte(s, byte, k)
}

/// Index of the first character at or after code unit `unit`.
pub open spec fn char_index_at_unit(s: Seq<char>, unit: int) -> int {
    choose|k: int| first_char_at_unit(s, unit, k)
}

/// The texts of a sequence of strings.
pub open spec fn views(strings: Seq<String>) -> Seq<Seq<char>> {
    Seq::new(strings.len(), |i: int| strings[i]@)
}

/// Texts with a line break between each two.
pub open spec fn joined(parts: Seq<Seq<char>>) -> Seq<char>
    decreases parts.len(),
{
    if parts.len() == 0 {
        Seq::empty()
    } else if parts.len() == 1 {
        parts[0]
    } else {
        joined(parts.drop_last()).push('\n') + parts.last()
    }
}

/// A line of a file: its text, and the offset of its first byte in the file.
pub struct RawLine {
    pub start_byte: u64,
    pub text: String,
}

// ---------------------------------------------------------------------------
// Lemmas
// ---------------------------------------------------------------------------

/// A single character is encoded in `utf8_width` bytes.
pub proof fn lemma_encode_one(c: char)
    ensures
        encode_utf8(seq![c]) == encode_scalar(c as u32),
        utf8_len(seq![c]) == utf8_width(c),
{
    let s = seq![c];
    assert(s.drop_first() =~= Seq::<char>::empty());
    assert(encode_utf8(s.drop_first()) =~= Seq::<u8>::empty());
    assert(encode_utf8(s) =~= encode_scalar(c as u32));
}

/// Encoding distributes over concatenation.
pub proof fn lemma_encode_concat(a: Seq<char>, b: Seq<char>)
    ensures
        encode_utf8(a + b) == encode_utf8(a) + encode_utf8(b),
    decreases a.len(),
{
    if a.len() == 0 {
        assert(a + b =~= b);
        assert(encode_utf8(a) + encode_utf8(b) =~= encode_utf8(b));
    } else {
        lemma_encode_concat(a.drop_first(), b);
        assert((a + b).drop_first() =~= a.drop_first() + b);
        assert(encode_utf8(a + b) =~= encode_utf8(a) + encode_utf8(b));
    }
}

/// Consecutive byte offsets differ by the width of the character between them.
pub proof fn lemma_byte_at_step(s: Seq<char>, k: int)
    requires
        0 <= k < s.len(),
    ensures
        byte_at(s, k + 1) == byte_at(s, k) + utf8_width(s[k]),
{
    assert(s.take(k + 1) =~= s.take(k) + seq![s[k]]);
    lemma_encode_concat(s.take(k), seq![s[k]]);
    lemma_encode_one(s[k]);
}

/// Consecutive code unit offsets differ by the width of the character between them.
pub proof fn lemma_unit_at_step(s: Seq<char>, k: int)
    requires
        0 <= k < s.len(),
    ensures
        unit_at(s, k + 1) == unit_at(s, k) + utf16_width(s[k]),
{
    assert(s.take(k + 1).drop_last() =~= s.take(k));
}

/// Offsets at the two ends of a text.
pub proof fn lemma_offsets_ends(s: Seq<char>)
    ensures
        byte_at(s, 0) == 0,
        unit_at(s, 0) == 0,
        byte_at(s, s.len() as int) == utf8_len(s),
        unit_at(s, s.len() as int) == utf16_len(s),
{
    assert(s.take(0) =~= Seq::<char>::empty());
    assert(s.take(s.len() as int) =~= s);
}

/// Offsets grow strictly with the character index.
pub proof fn lemma_offsets_monotone(s: Seq<char>, i: int, j: int)
    requires
        0 <= i <= j <= s.len(),
    ensures
        byte_at(s, i) + (j - i) <= byte_at(s, j),
        unit_at(s, i) + (j - i) <= unit_at(s, j),
        unit_at(s, j) <= byte_at(s, j),
        byte_at(s, j) <= utf8_len(s),
        unit_at(s, j) <= utf16_len(s),
        utf16_len(s) <= utf8_len(s),
    decreases s.len() - i,
{
    lemma_offsets_ends(s);
    lemma_span_bounds(s, i, j);
    lemma_span_bounds(s, j, s.len() as int);
    lemma_units_le_bytes(s, j);
    lemma_units_le_bytes(s, s.len() as int);
}

proof fn lemma_span_bounds(s: Seq<char>, i: int, j: int)
    requires
        0 <= i <= j <= s.len(),
    ensures
        byte_at(s, i) + (j - i) <= byte_at(s, j),
        unit_at(s, i) + (j - i) <= unit_at(s, j),
    decreases j - i,
{
    if i < j {
        lemma_span_bounds(s, i, j - 1);
        lemma_byte_at_step(s, j - 1);
        lemma_unit_at_step(s, j - 1);
    }
}

proof fn lemma_units_le_bytes(s: Seq<char>, k: int)
    requires
        0 <= k <= s.len(),
    ensures
        unit_at(s, k) <= byte_at(s, k),
    decreases k,
{
    lemma_offsets_ends(s);
    if k > 0 {
        lemma_units_le_bytes(s, k - 1);
        lemma_byte_at_step(s, k - 1);
        lemma_unit_at_step(s, k - 1);
    }
}

/// A byte is held by one character.
pub proof fn lemma_char_index(s: Seq<char>, byte: int)
    requires
        0 <= byte,
    ensures
        char_holding_byte(s, byte, char_index(s, byte)),
        forall|k: int| #[trigger] char_holding_byte(s, byte, k) ==> k == char_index(s, byte),
{
    lemma_offsets_ends(s);
    if byte >= utf8_len(s) {
        assert(char_holding_byte(s, byte, s.len() as int));
    } else {
        let k = lemma_find_char(s, byte, s.len() as int);
        assert(char_holding_byte(s, byte, k));
    }
    assert forall|k: int| #[trigger] char_holding_byte(s, byte, k) implies k == char_index(
        s,
        byte,
    ) by {
        let j = char_index(s, byte);
        if byte < utf8_len(s) {
            if k < j {
                lemma_offsets_monotone(s, k + 1, j);
            } else if j < k {
                lemma_offsets_monotone(s, j + 1, k);
            }
        }
    }
}

proof fn lemma_find_char(s: Seq<char>, byte: int, n: int) -> (k: int)
    requires
        0 <= n <= s.len(),
        0 <= byte < byte_at(s, n),
    ensures
        0 <= k < n,
        byte_at(s, k) <= byte < byte_at(s, k + 1),
    decreases n,
{
    lemma_offsets_ends(s);
    if byte_at(s, n - 1) <= byte {
        n - 1
    } else {
        lemma_find_char(s, byte, n - 1)
    }
}

/// One character is the first at or after a code unit offset.
pub proof fn lemma_char_index_at_unit(s: Seq<char>, unit: int)
    ensures
        first_char_at_unit(s, unit, char_index_at_unit(s, unit)),
        forall|k: int| #[trigger]
            first_char_at_unit(s, unit, k) ==> k == char_index_at_unit(s, unit),
{
    lemma_offsets_ends(s);
    let found = lemma_find_unit(s, unit, s.len() as int);
    assert(first_char_at_unit(s, unit, found));
    assert forall|k: int| #[trigger] first_char_at_unit(s, unit, k) implies k
        == char_index_at_unit(s, unit) by {
        let j = char_index_at_unit(s, unit);
        if k < j {
            lemma_offsets_monotone(s, k, j - 1);
        } else if j < k {
            lemma_offsets_monotone(s, j, k - 1);
        }
    }
}

proof fn lemma_find_unit(s: Seq<char>, unit: int, n: int) -> (k: int)
    requires
        0 <= n <= s.len(),
        n < s.len() ==> unit_at(s, n) >= unit,
    ensures
        first_char_at_unit(s, unit, k),
    decreases n,
{
    if n == 0 || unit_at(s, n - 1) < unit {
        n
    } else {
        lemma_find_unit(s, unit, n - 1)
    }
}

/// Every character starts on a UTF-8 boundary, and cutting there cuts the
/// encoding in two encodings.
pub proof fn lemma_boundary_of_char(s: Seq<char>, k: int)
    requires
        0 <= k <= s.len(),
    ensures
        valid_utf8(encode_utf8(s)),
        is_char_boundary(encode_utf8(s), byte_at(s, k) as int),
        encode_utf8(s).subrange(0, byte_at(s, k) as int) == encode_utf8(s.take(k)),
        encode_utf8(s).subrange(byte_at(s, k) as int, utf8_len(s) as int) == encode_utf8(s.skip(k)),
    decreases k,
{
    encode_utf8_valid_utf8(s);
    assert(s =~= s.take(k) + s.skip(k));
    lemma_encode_concat(s.take(k), s.skip(k));
    assert(encode_utf8(s).subrange(0, byte_at(s, k) as int) =~= encode_utf8(s.take(k)));
    assert(encode_utf8(s).subrange(byte_at(s, k) as int, utf8_len(s) as int) =~= encode_utf8(
        s.skip(k),
    ));
    lemma_offsets_ends(s);
    if k > 0 {
        let t = s.drop_first();
        let bytes = encode_utf8(s);
        lemma_boundary_of_char(t, k - 1);
        encode_utf8_first_scalar(s);
        assert(pop_first_scalar(bytes) =~= encode_utf8(t));
        assert(s.take(k) =~= seq![s[0]] + t.take(k - 1));
        lemma_encode_concat(seq![s[0]], t.take(k - 1));
        lemma_encode_one(s[0]);
        assert(byte_at(s, k) == utf8_width(s[0]) + byte_at(t, k - 1));
        lemma_offsets_monotone(s, 0, k);
    }
}

/// Conversely, every UTF-8 boundary is the start of a character or the end.
pub proof fn lemma_char_of_boundary(s: Seq<char>, i: int) -> (k: int)
    requires
        is_char_boundary(encode_utf8(s), i),
    ensures
        0 <= k <= s.len(),
        byte_at(s, k) == i,
    decreases s.len(),
{
    encode_utf8_valid_utf8(s);
    lemma_offsets_ends(s);
    if i == 0 {
        0
    } else {
        let bytes = encode_utf8(s);
        assert(0 < i <= bytes.len());
        assert(s.len() > 0);
        encode_utf8_first_scalar(s);
        let t = s.drop_first();
        assert(pop_first_scalar(bytes) =~= encode_utf8(t));
        let j = lemma_char_of_boundary(t, i - length_of_first_scalar(bytes));
        assert(s.take(j + 1) =~= seq![s[0]] + t.take(j));
        lemma_encode_concat(seq![s[0]], t.take(j));
        lemma_encode_one(s[0]);
        j + 1
    }
}

/// Two texts with the same encoding are the same.
pub proof fn lemma_encode_injective(a: Seq<char>, b: Seq<char>)
    requires
        encode_utf8(a) == encode_utf8(b),
    ensures
        a == b,
{
    encode_utf8_decode_utf8(a);
    encode_utf8_decode_utf8(b);
}

// ---------------------------------------------------------------------------
// Executable helpers
// ---------------------------------------------------------------------------

/// Bytes that `c` takes in UTF-8.
pub fn len_utf8(c: char) -> (n: usize)
    ensures
        n == utf8_width(c),
{
    let v: u32 = c as u32;
    if v < 0x80 {
        1
    } else if v < 0x800 {
        2
    } else if v < 0x10000 {
        3
    } else {
        4
    }
}

/// Code units that `c` takes in UTF-16.
pub fn len_utf16(c: char) -> (n: usize)
    ensures
        n == utf16_width(c),
{
    let v: u32 = c as u32;
    if v < 0x10000 {
        1
    } else {
        2
    }
}

/// Length of a text in bytes.
pub fn byte_len(s: &str) -> (n: usize)
    ensures
        n == utf8_len(s@),
{
    s.as_bytes().len()
}

/// Whether two texts are the same.
pub fn same_text(a: &str, b: &str) -> (r: bool)
    ensures
        r == (a@ == b@),
{
    let x: &[u8] = a.as_bytes();
    let y: &[u8] = b.as_bytes();
    if x.len() != y.len() {
        return false;
    }
    let mut i: usize = 0;
    while i < x.len()
        invariant
            i <= x@.len(),
            x@.len() == y@.len(),
            x@ == encode_utf8(a@),
            y@ == encode_utf8(b@),
            forall|k: int| 0 <= k < i ==> #[trigger] x@[k] == y@[k],
        decreases x@.len() - i,
    {
        if x[i] != y[i] {
            return false;
        }
        i = i + 1;
    }
    assert(x@ =~= y@);
    proof {
        lemma_encode_injective(a@, b@);
    }
    true
}

/// Number of characters of a text.
pub fn char_count(s: &str) -> (n: usize)
    ensures
        n == s@.len(),
{
    s.unicode_len()
}

/// The characters of a text, in order.
pub fn chars_of(s: &str) -> (v: Vec<char>)
    ensures
        v@ == s@,
{
    let mut v: Vec<char> = Vec::new();
    for c in it: s.chars()
        invariant
            it.seq() == s@,
            v@ == s@.take(it.index() as int),
    {
        assert(s@.take(it.index() as int + 1) =~= s@.take(it.index() as int).push(c));
        v.push(c);
    }
    assert(s@.take(s@.len() as int) =~= s@);
    v
}

/// The part of a text between two byte offsets that are character boundaries.
pub fn byte_slice(s: &str, start: usize, end: usize) -> (r: &str)
    requires
        start <= end,
        is_char_boundary(encode_utf8(s@), start as int),
        is_char_boundary(encode_utf8(s@), end as int),
    ensures
        encode_utf8(r@) == encode_utf8(s@).subrange(start as int, end as int),
        exists|i: int, j: int|
            0 <= i <= j <= s@.len() && #[trigger] byte_at(s@, i) == start && #[trigger] byte_at(
                s@,
                j,
            ) == end && r@ == s@.subrange(i, j),
{
    let ghost i = lemma_char_of_boundary(s@, start as int);
    let ghost j = lemma_char_of_boundary(s@, end as int);
    proof {
        if j < i {
            lemma_offsets_monotone(s@, j, i);
        }
        lemma_offsets_monotone(s@, i, j);
        lemma_boundary_of_char(s@, j);
    }
    let (head, _tail) = s.split_at(end);
    proof {
        lemma_encode_injective(head@, s@.take(j));
        assert(head@.take(i) =~= s@.take(i));
        lemma_boundary_of_char(head@, i);
    }
    let (_front, mid) = head.split_at(start);
    proof {
        lemma_encode_injective(mid@, head@.skip(i));
        assert(mid@ =~= s@.subrange(i, j));
        assert(encode_utf8(mid@) =~= encode_utf8(s@).subrange(start as int, end as int));
    }
    mid
}

/// A text that may be missing.
pub open spec fn maybe_text(s: Option<&str>) -> Option<Seq<char>> {
    match s {
        Some(t) => Some(t@),
        None => None,
    }
}

/// `i` is the first place of a text in a list.
pub open spec fn is_first_at(list: Seq<String>, text: Seq<char>, i: int) -> bool {
    &&& 0 <= i < list.len()
    &&& list[i]@ == text
    &&& forall|k: int| 0 <= k < i ==> (#[trigger] list[k])@ != text
}

/// A text is in a list.
pub open spec fn is_listed(list: Seq<String>, text: Seq<char>) -> bool {
    exists|i: int| 0 <= i < list.len() && (#[trigger] list[i])@ == text
}

/// First place of a text in a list.
pub fn position(list: &Vec<String>, text: &str) -> (r: Option<usize>)
    ensures
        match r {
            Some(i) => is_first_at(list@, text@, i as int) && is_listed(list@, text@),
            None => !is_listed(list@, text@),
        },
{
    let mut i: usize = 0;
    while i < list.len()
        invariant
            i <= list@.len(),
            forall|k: int| 0 <= k < i ==> (#[trigger] list@[k])@ != text@,
        decreases list@.len() - i,
    {
        if same_text(list[i].as_str(), text) {
            return Some(i);
        }
        i = i + 1;
    }
    None
}

/// At most the first `n` characters of a text.
pub open spec fn first_of(s: Seq<char>, n: nat) -> Seq<char> {
    if s.len() <= n {
        s
    } else {
        s.take(n as int)
    }
}

/// At most the first `n` characters of a text.
pub fn first_chars(s: &str, n: usize) -> (r: String)
    ensures
        r@ == first_of(s@, n as nat),
{
    let len: usize = s.unicode_len();
    if len <= n {
        s.to_owned()
    } else {
        let r: String = s.substring_char(0, n).to_owned();
        assert(r@ =~= s@.take(n as int));
        r
    }
}

/// An ASCII letter in lower case, any other character as it is.
pub open spec fn ascii_lower(c: char) -> int {
    if 65 <= c as u32 <= 90 {
        c as u32 + 32
    } else {
        c as u32 as int
    }
}

/// Two texts are the same but for the case of ASCII letters.
pub open spec fn same_but_case(a: Seq<char>, b: Seq<char>) -> bool {
    &&& a.len() == b.len()
    &&& forall|i: int|
        #![trigger a[i]]
        #![trigger b[i]]
        0 <= i < a.len() ==> ascii_lower(a[i]) == ascii_lower(b[i])
}

fn lower(c: char) -> (r: u32)
    ensures
        r == ascii_lower(c),
{
    let u: u32 = c as u32;
    if u >= 65 && u <= 90 {
        u + 32
    } else {
        u
    }
}

/// Whether two texts are the same but for the case of ASCII letters.
pub fn eq_ignore_ascii_case(a: &str, b: &str) -> (r: bool)
    ensures
        r == same_but_case(a@, b@),
{
    let x: Vec<char> = chars_of(a);
    let y: Vec<char> = chars_of(b);
    if x.len() != y.len() {
        return false;
    }
    let mut i: usize = 0;
    while i < x.len()
        invariant
            i <= x@.len(),
            x@.len() == y@.len(),
            x@ == a@,
            y@ == b@,
            forall|k: int| 0 <= k < i ==> ascii_lower(#[trigger] x@[k]) == ascii_lower(y@[k]),
        decreases x@.len() - i,
    {
        if lower(x[i]) != lower(y[i]) {
            assert(a@[i as int] == x@[i as int]);
            return false;
        }
        i = i + 1;
    }
    true
}

// ---------------------------------------------------------------------------
// Laws
// ---------------------------------------------------------------------------

/// The place behind some characters is that of the character that follows them.
pub proof fn lemma_char_index_behind(before: Seq<char>, behind: Seq<char>)
    ensures
        char_index(before + behind, encode_utf8(before).len() as int) == before.len(),
        unit_at(before + behind, before.len() as int) == utf16_len(before),
        byte_at(before + behind, before.len() as int) == encode_utf8(before).len(),
{
    let s = before + behind;
    let k = before.len() as int;
    assert(s.take(k) =~= before);
    lemma_offsets_ends(s);
    lemma_offsets_monotone(s, k, s.len() as int);
    if k < s.len() {
        lemma_offsets_monotone(s, k + 1, s.len() as int);
        lemma_byte_at_step(s, k);
    }
    lemma_char_index(s, encode_utf8(before).len() as int);
    assert(char_holding_byte(s, encode_utf8(before).len() as int, k));
}

/// The widths of a character are the lengths of its encodings.
pub proof fn law_widths_are_lengths(c: char, bytes: usize, units: usize)
    requires
        call_ensures(len_utf8, (c,), bytes),
        call_ensures(len_utf16, (c,), units),
    ensures
        bytes == encode_utf8(seq![c]).len(),
        units == if (c as u32) < 0x10000 {
            1int
        } else {
            2int
        },
{
    lemma_encode_one(c);
}

/// Texts are the same where their characters are, and lists are searched for the first place
/// of a text.
pub proof fn law_texts_are_told_apart(
    a: &str,
    b: &str,
    same: bool,
    n: usize,
    bytes: usize,
    v: Vec<char>,
    list: &Vec<String>,
    at: Option<usize>,
    k: int,
)
    requires
        call_ensures(same_text, (a, b), same),
        call_ensures(char_count, (a,), n),
        call_ensures(byte_len, (a,), bytes),
        call_ensures(chars_of, (a,), v),
        call_ensures(position, (list, a), at),
    ensures
        same == (a@ == b@),
        n == a@.len() && bytes == encode_utf8(a@).len() && v@ == a@,
        0 <= k < list@.len() && list@[k]@ == a@ ==> at is Some && at->0 <= k,
        at is Some ==> at->0 < list@.len() && list@[at->0 as int]@ == a@,
{
}

/// The first characters of a text are all of a short one, and the start of a long one.
pub proof fn law_first_characters_are_the_start(s: &str, n: usize, r: String)
    requires
        call_ensures(first_chars, (s, n), r),
    ensures
        s@.len() <= n ==> r@ == s@,
        s@.len() > n ==> r@.len() == n && r@ == s@.take(n as int),
{
}

/// Two texts of letters are the same but for their case where each letter is.
pub proof fn law_case_does_not_matter(a: &str, b: &str, r: bool, k: int)
    requires
        call_ensures(eq_ignore_ascii_case, (a, b), r),
    ensures
        a@ == b@ ==> r,
        a@.len() != b@.len() ==> !r,
        r && 0 <= k < a@.len() && '!' <= a@[k] && a@[k] <= '~' && '!' <= b@[k] && b@[k] <= '~' ==> {
            ||| a@[k] == b@[k]
            ||| 'A' <= a@[k] <= 'Z' && b@[k] as int == a@[k] as int + 32
            ||| 'A' <= b@[k] <= 'Z' && a@[k] as int == b@[k] as int + 32
        },
        a@.len() == b@.len() && (forall|i: int|
            0 <= i < a@.len() ==> '!' <= #[trigger] a@[i] && a@[i] <= '~' && '!' <= b@[i] && b@[i]
                <= '~' && (a@[i] == b@[i] || ('A' <= a@[i] <= 'Z' && b@[i] as int == a@[i] as int
                + 32) || ('A' <= b@[i] <= 'Z' && a@[i] as int == b@[i] as int + 32))) ==> r,
{
}

} // verus!
