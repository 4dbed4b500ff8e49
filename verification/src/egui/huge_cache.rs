//! Cache of very long lines, so that a frame does not read and decode them
//! again. The line used last stands at the end, and the cache is kept under a
//! budget of text bytes from the front.

use vstd::prelude::*;
use vstd::utf8::encode_utf8;

use crate::egui::viewer::{build_byte_index, is_byte_index, HUGE_CACHE_BYTES};
use crate::text::{byte_len, char_count, utf8_len, RawLine};

verus! {

/// A visual row of a long line: its first character, and how many it holds.
#[derive(Clone, Copy, Debug, PartialEq, Eq, Structural)]
pub struct RowMeta {
    pub start: usize,
    pub char_count: usize,
}

/// What is known of the visual rows of a long line.
pub struct HugeLayout {
    pub rows: Vec<Option<RowMeta>>,
}

impl HugeLayout {
    /// What is known of a row.
    pub open spec fn row(self, i: int) -> Option<RowMeta> {
        if 0 <= i < self.rows@.len() {
            self.rows@[i]
        } else {
            None
        }
    }

    /// A row is set, and the others are as they were.
    pub open spec fn has_set(self, before: HugeLayout, row: int, meta: RowMeta) -> bool {
        forall|i: int| #[trigger]
            self.row(i) == if i == row {
                Some(meta)
            } else {
                before.row(i)
            }
    }

    /// Nothing is known of any row.
    pub open spec fn is_blank(self) -> bool {
        forall|i: int| #[trigger] self.row(i) is None
    }

    pub fn new() -> (r: Self)
        ensures
            r.is_blank(),
    {
        HugeLayout { rows: Vec::new() }
    }

    /// Forgets every row.
    pub fn clear(&mut self)
        ensures
            final(self).is_blank(),
    {
        self.rows.clear();
    }

    /// What is known of a row.
    pub fn get(&self, row: usize) -> (r: Option<RowMeta>)
        ensures
            r == self.row(row as int),
    {
        if row < self.rows.len() {
            self.rows[row]
        } else {
            None
        }
    }

    /// Records a row.
    pub fn set_row(&mut self, row: usize, start: usize, char_count: usize)
        requires
            row < usize::MAX,
        ensures
            final(self).has_set(*old(self), row as int, RowMeta { start, char_count }),
    {
        let ghost before = *self;
        while self.rows.len() <= row
            invariant
                row < usize::MAX,
                forall|i: int| #[trigger] self.row(i) == before.row(i),
            decreases row + 1 - self.rows@.len(),
        {
            let ghost prev = *self;
            self.rows.push(None);
            assert forall|i: int| #[trigger] self.row(i) == before.row(i) by {
                assert(self.row(i) == prev.row(i));
            }
        }
        let ghost grown = *self;
        self.rows.set(row, Some(RowMeta { start, char_count }));
        assert forall|i: int| #[trigger] self.row(i) == (if i == row {
            Some(RowMeta { start, char_count })
        } else {
            before.row(i)
        }) by {
            assert(grown.row(i) == before.row(i));
        }
    }
}

/// A very long line: its text, the table from its characters to its bytes, and
/// what is known of its visual rows under the current font and width.
pub struct HugeLineCache {
    pub line: u64,
    pub text: String,
    pub char_count: usize,
    /// Offset of the line in the file.
    pub start_byte: u64,
    pub byte_index: Vec<(usize, usize)>,
    pub layout: HugeLayout,
    /// Bit patterns of the font size and the wrap width of the layout.
    pub layout_key: (u32, u32),
}

impl HugeLineCache {
    /// The counts and the table are those of the text.
    pub open spec fn wf(self) -> bool {
        &&& self.char_count == self.text@.len()
        &&& is_byte_index(self.byte_index@, self.text@)
    }

    /// The entry was just made from a line that was read.
    pub open spec fn is_fresh(self, raw: RawLine, line: u64, key: (u32, u32)) -> bool {
        &&& self.wf()
        &&& self.line == line
        &&& self.text@ == raw.text@
        &&& self.start_byte == raw.start_byte
        &&& self.layout.is_blank()
        &&& self.layout_key == key
    }
}

/// No line is cached twice, and every entry is sound.
pub open spec fn cache_wf(cache: Seq<HugeLineCache>) -> bool {
    &&& forall|i: int| 0 <= i < cache.len() ==> (#[trigger] cache[i]).wf()
    &&& forall|i: int, j: int|
        #![trigger cache[i], cache[j]]
        0 <= i < j < cache.len() ==> cache[i].line != cache[j].line
}

/// Every cached text is longer than `bound` bytes.
pub open spec fn all_long(cache: Seq<HugeLineCache>, bound: usize) -> bool {
    forall|i: int| 0 <= i < cache.len() ==> utf8_len((#[trigger] cache[i]).text@) > bound
}

/// The bit pattern is that of no number.
pub open spec fn is_nan(bits: u32) -> bool {
    bits % 0x8000_0000 > 0x7F80_0000
}

/// The bit pattern is that of zero, with either sign.
pub open spec fn is_zero(bits: u32) -> bool {
    bits % 0x8000_0000 == 0
}

/// Two bit patterns stand for the same number. What is not a number is not the same
/// as anything.
pub open spec fn same_number(a: u32, b: u32) -> bool {
    !is_nan(a) && !is_nan(b) && (a == b || (is_zero(a) && is_zero(b)))
}

/// Two layout keys are the same.
pub open spec fn same_key(a: (u32, u32), b: (u32, u32)) -> bool {
    same_number(a.0, b.0) && same_number(a.1, b.1)
}

/// Whether two bit patterns stand for the same number.
fn equal_numbers(a: u32, b: u32) -> (r: bool)
    ensures
        r == same_number(a, b),
{
    let x: u32 = a % 0x8000_0000;
    let y: u32 = b % 0x8000_0000;
    x <= 0x7F80_0000 && y <= 0x7F80_0000 && (a == b || (x == 0 && y == 0))
}

/// Entry `i` is the one of a line.
pub open spec fn is_entry_of(cache: Seq<HugeLineCache>, line: u64, i: int) -> bool {
    0 <= i < cache.len() && cache[i].line == line
}

/// Text bytes in the cache.
pub open spec fn cached_bytes(cache: Seq<HugeLineCache>) -> nat
    decreases cache.len(),
{
    if cache.len() == 0 {
        0
    } else {
        cached_bytes(cache.drop_last()) + utf8_len(cache.last().text@)
    }
}

/// The cache is over its budget and holds an entry that can go.
pub open spec fn must_evict(cache: Seq<HugeLineCache>) -> bool {
    cache.len() > 1 && cached_bytes(cache) > HUGE_CACHE_BYTES
}

/// `after` is `before` without its first `k` entries, each of which had to go,
/// and no more have to.
pub open spec fn is_evicted(
    before: Seq<HugeLineCache>,
    after: Seq<HugeLineCache>,
    k: int,
) -> bool {
    &&& 0 <= k <= before.len()
    &&& after == before.skip(k)
    &&& forall|j: int| 0 <= j < k ==> must_evict(#[trigger] before.skip(j))
    &&& !must_evict(after)
}

/// Whether the cache holds at most its budget.
fn within_budget(cache: &Vec<HugeLineCache>) -> (r: bool)
    ensures
        r == (cached_bytes(cache@) <= HUGE_CACHE_BYTES),
{
    let mut sum: u64 = 0;
    let mut i: usize = 0;
    while i < cache.len()
        invariant
            i <= cache@.len(),
            sum <= HUGE_CACHE_BYTES,
            sum == cached_bytes(cache@.take(i as int)),
        decreases cache@.len() - i,
    {
        let n: usize = byte_len(cache[i].text.as_str());
        assert(cache@.take(i + 1).drop_last() =~= cache@.take(i as int));
        if n as u64 > HUGE_CACHE_BYTES - sum {
            proof {
                lemma_bytes_grow(cache@, i + 1);
            }
            return false;
        }
        sum = sum + n as u64;
        i = i + 1;
    }
    assert(cache@.take(cache@.len() as int) =~= cache@);
    true
}

proof fn lemma_bytes_grow(cache: Seq<HugeLineCache>, k: int)
    requires
        0 <= k <= cache.len(),
    ensures
        cached_bytes(cache.take(k)) <= cached_bytes(cache),
    decreases cache.len() - k,
{
    if k < cache.len() {
        assert(cache.take(k + 1).drop_last() =~= cache.take(k));
        lemma_bytes_grow(cache, k + 1);
    } else {
        assert(cache.take(k) =~= cache);
    }
}

/// `i` is the place of the first entry of a line.
pub open spec fn is_first_entry(cache: Seq<HugeLineCache>, line: u64, i: int) -> bool {
    is_entry_of(cache, line, i) && forall|j: int|
        0 <= j < i ==> (#[trigger] cache[j]).line != line
}

/// Position of a line in the cache.
pub fn position_of(cache: &Vec<HugeLineCache>, line: u64) -> (r: Option<usize>)
    ensures
        match r {
            Some(i) => is_first_entry(cache@, line, i as int),
            None => has_no_entry(cache@, line),
        },
{
    let mut i: usize = 0;
    while i < cache.len()
        invariant
            i <= cache@.len(),
            forall|j: int| 0 <= j < i ==> (#[trigger] cache@[j]).line != line,
        decreases cache@.len() - i,
    {
        if cache[i].line == line {
            return Some(i);
        }
        i = i + 1;
    }
    None
}

/// Drops the entry of a line whose length in the file is no longer that of the
/// cached text: the line has been edited.
pub fn drop_stale(cache: &mut Vec<HugeLineCache>, line: u64, cur_len: usize)
    requires
        cache_wf(old(cache)@),
    ensures
        cache_wf(final(cache)@),
        forall|i: int|
            #![trigger is_entry_of(old(cache)@, line, i)]
            is_entry_of(old(cache)@, line, i) ==> if utf8_len(old(cache)@[i].text@) != cur_len {
                final(cache)@ == old(cache)@.remove(i)
            } else {
                final(cache)@ == old(cache)@
            },
        (forall|i: int| !is_entry_of(old(cache)@, line, i)) ==> final(cache)@ == old(cache)@,
        forall|bound: usize| #[trigger]
            all_long(old(cache)@, bound) ==> all_long(final(cache)@, bound),
{
    match position_of(cache, line) {
        Some(i) => {
            let n: usize = byte_len(cache[i].text.as_str());
            if n != cur_len {
                cache.remove(i);
            }
        },
        None => {},
    }
}

/// An entry for a line that was read.
fn fresh_entry(raw: RawLine, line: u64, key: (u32, u32)) -> (r: HugeLineCache)
    ensures
        r.is_fresh(raw, line, key),
{
    let count: usize = char_count(raw.text.as_str());
    let table: Vec<(usize, usize)> = build_byte_index(raw.text.as_str());
    HugeLineCache {
        line,
        text: raw.text,
        char_count: count,
        start_byte: raw.start_byte,
        byte_index: table,
        layout: HugeLayout::new(),
        layout_key: key,
    }
}

/// What a call of [`ensure_huge_meta`] does with a line that it had to read.
pub open spec fn is_reread(
    before: Seq<HugeLineCache>,
    after: Seq<HugeLineCache>,
    r: Option<usize>,
    raw: RawLine,
    line: u64,
    key: (u32, u32),
    chunk_line_bytes: usize,
) -> bool {
    if utf8_len(raw.text@) <= chunk_line_bytes {
        after == before && r is None
    } else {
        &&& after.len() == before.len() + 1
        &&& after == before.push(after.last())
        &&& after.last().is_fresh(raw, line, key)
        &&& r == Some((after.len() - 1) as usize)
    }
}

/// What a call of [`ensure_huge_meta`] does with a line that is not cached.
pub open spec fn is_added(
    before: Seq<HugeLineCache>,
    after: Seq<HugeLineCache>,
    r: Option<usize>,
    raw: RawLine,
    line: u64,
    key: (u32, u32),
    chunk_line_bytes: usize,
) -> bool {
    if utf8_len(raw.text@) <= chunk_line_bytes {
        after == before && r is None
    } else {
        &&& after.len() > 0
        &&& after.last().is_fresh(raw, line, key)
        &&& exists|k: int| #[trigger] is_evicted(before.push(after.last()), after, k)
        &&& r == Some((after.len() - 1) as usize)
    }
}

/// No entry stands for the line.
pub open spec fn has_no_entry(cache: Seq<HugeLineCache>, line: u64) -> bool {
    forall|i: int| !is_entry_of(cache, line, i)
}

/// The line was read and is too short to be kept.
pub open spec fn is_short_line<F: Fn(u64) -> RawLine>(
    read_line: F,
    line: u64,
    chunk_line_bytes: usize,
) -> bool {
    exists|raw: RawLine| #[trigger]
        call_ensures(read_line, (line,), raw) && utf8_len(raw.text@) <= chunk_line_bytes
}

/// The line was read again and takes the place of its old entry.
pub open spec fn is_reread_by<F: Fn(u64) -> RawLine>(
    read_line: F,
    before: Seq<HugeLineCache>,
    after: Seq<HugeLineCache>,
    r: Option<usize>,
    line: u64,
    key: (u32, u32),
    chunk_line_bytes: usize,
) -> bool {
    exists|raw: RawLine| #[trigger]
        call_ensures(read_line, (line,), raw) && is_reread(
            before,
            after,
            r,
            raw,
            line,
            key,
            chunk_line_bytes,
        )
}

/// The line was read and kept.
pub open spec fn is_added_by<F: Fn(u64) -> RawLine>(
    read_line: F,
    before: Seq<HugeLineCache>,
    after: Seq<HugeLineCache>,
    r: Option<usize>,
    line: u64,
    key: (u32, u32),
    chunk_line_bytes: usize,
) -> bool {
    exists|raw: RawLine| #[trigger]
        call_ensures(read_line, (line,), raw) && is_added(
            before,
            after,
            r,
            raw,
            line,
            key,
            chunk_line_bytes,
        )
}

/// Makes sure that a very long line is cached, and hands out its position: the
/// end of the cache. A line of at most `chunk_line_bytes` bytes is not cached.
/// A cached line is read again only where its layout key has changed; a line
/// that is added pushes out the ones used longest ago once the cache is over
/// its budget.
///
/// A cache of long lines stays one. The position handed out is that of the line,
/// under the key that was asked for; where none is, the line is not long and not
/// cached.
pub fn ensure_huge_meta<F: Fn(u64) -> RawLine>(
    cache: &mut Vec<HugeLineCache>,
    read_line: F,
    line: u64,
    key: (u32, u32),
    chunk_line_bytes: usize,
) -> (r: Option<usize>)
    requires
        cache_wf(old(cache)@),
        call_requires(read_line, (line,)),
    ensures
        cache_wf(final(cache)@),
        forall|i: int|
            #![trigger is_entry_of(old(cache)@, line, i)]
            is_entry_of(old(cache)@, line, i) ==> {
                let rest = old(cache)@.remove(i);
                if same_key(old(cache)@[i].layout_key, key) {
                    &&& final(cache)@ == rest.push(old(cache)@[i])
                    &&& r == Some((old(cache)@.len() - 1) as usize)
                } else {
                    is_reread_by(read_line, rest, final(cache)@, r, line, key, chunk_line_bytes)
                }
            },
        has_no_entry(old(cache)@, line) ==> is_added_by(
            read_line,
            old(cache)@,
            final(cache)@,
            r,
            line,
            key,
            chunk_line_bytes,
        ),
        all_long(old(cache)@, chunk_line_bytes) ==> all_long(final(cache)@, chunk_line_bytes),
        match r {
            Some(i) => {
                &&& i == final(cache)@.len() - 1
                &&& final(cache)@[i as int].line == line
                &&& !is_nan(key.0) && !is_nan(key.1) ==> same_key(
                    final(cache)@[i as int].layout_key,
                    key,
                )
            },
            None => {
                &&& has_no_entry(final(cache)@, line)
                &&& is_short_line(read_line, line, chunk_line_bytes)
            },
        },
        has_no_entry(old(cache)@, line) && r is Some ==> cached_bytes(
            final(cache)@,
        ) <= HUGE_CACHE_BYTES || final(cache)@.len() == 1,
{
    let ghost before = cache@;
    match position_of(cache, line) {
        Some(i) => {
            let entry: HugeLineCache = cache.remove(i);
            let ghost rest = cache@;
            assert(forall|j: int| is_entry_of(before, line, j) ==> j == i);
            if equal_numbers(entry.layout_key.0, key.0) && equal_numbers(
                entry.layout_key.1,
                key.1,
            ) {
                cache.push(entry);
                return Some(cache.len() - 1);
            }
            let raw: RawLine = read_line(line);
            let ghost raw0 = raw;
            if byte_len(raw.text.as_str()) <= chunk_line_bytes {
                assert(call_ensures(read_line, (line,), raw0));
                return None;
            }
            let entry: HugeLineCache = fresh_entry(raw, line, key);
            cache.push(entry);
            assert(cache@ =~= rest.push(cache@.last()));
            assert(call_ensures(read_line, (line,), raw0));
            Some(cache.len() - 1)
        },
        None => {
            let raw: RawLine = read_line(line);
            let ghost raw0 = raw;
            if byte_len(raw.text.as_str()) <= chunk_line_bytes {
                assert(call_ensures(read_line, (line,), raw0));
                return None;
            }
            let entry: HugeLineCache = fresh_entry(raw, line, key);
            cache.push(entry);
            let ghost full = cache@;
            let ghost mut k: int = 0;
            assert(full.skip(0) =~= full);
            assert forall|a: int, b: int|
                #![trigger full[a], full[b]]
                0 <= a < b < full.len() implies full[a].line != full[b].line by {
                assert(!is_entry_of(before, line, a));
            }
            assert(cache_wf(full));
            while cache.len() > 1 && !within_budget(cache)
                invariant
                    0 <= k < full.len(),
                    cache@ == full.skip(k),
                    cache@.len() > 0,
                    forall|j: int| 0 <= j < k ==> must_evict(#[trigger] full.skip(j)),
                decreases cache@.len(),
            {
                cache.remove(0);
                proof {
                    assert(full.skip(k + 1) =~= full.skip(k).remove(0));
                    k = k + 1;
                }
            }
            assert(is_evicted(before.push(cache@.last()), cache@, k)) by {
                assert(full =~= before.push(cache@.last()));
            }
            assert(call_ensures(read_line, (line,), raw0));
            Some(cache.len() - 1)
        },
    }
}

// ---------------------------------------------------------------------------
// Laws
// ---------------------------------------------------------------------------

/// After a line was added, the cache is within its budget or holds that line
/// alone.
pub proof fn law_cache_stays_within_budget(
    before: Seq<HugeLineCache>,
    after: Seq<HugeLineCache>,
    k: int,
)
    requires
        is_evicted(before, after, k),
    ensures
        cached_bytes(after) <= HUGE_CACHE_BYTES || after.len() <= 1,
{
}

/// The lines that stay cached are those used last, in the order of their use.
pub proof fn law_eviction_keeps_the_latest(
    before: Seq<HugeLineCache>,
    after: Seq<HugeLineCache>,
    k: int,
    i: int,
)
    requires
        is_evicted(before, after, k),
        0 <= i < after.len(),
    ensures
        after[i] == before[before.len() - after.len() + i],
{
}

/// Bytes of all texts that are kept.
pub open spec fn held_bytes(cache: Seq<HugeLineCache>) -> int
    decreases cache.len(),
{
    if cache.len() == 0 {
        0
    } else {
        held_bytes(cache.drop_last()) + encode_utf8(cache.last().text@).len() as int
    }
}

proof fn lemma_held_bytes(cache: Seq<HugeLineCache>)
    ensures
        held_bytes(cache) == cached_bytes(cache),
    decreases cache.len(),
{
    if cache.len() > 0 {
        lemma_held_bytes(cache.drop_last());
    }
}

/// A long line that is not kept yet is read and put at the end with its text and without
/// any rows; lines go from the front as long as there are too many bytes, and a short line
/// is not kept.
pub proof fn law_long_lines_are_kept<F: Fn(u64) -> RawLine>(
    cache: &mut Vec<HugeLineCache>,
    read_line: F,
    lines: spec_fn(u64) -> RawLine,
    line: u64,
    key: (u32, u32),
    chunk_line_bytes: usize,
    r: Option<usize>,
    row: int,
)
    requires
        call_ensures(ensure_huge_meta::<F>, (cache, read_line, line, key, chunk_line_bytes), r),
        forall|l: u64, raw: RawLine| #[trigger] call_ensures(read_line, (l,), raw) ==> raw == lines(l),
        forall|i: int| 0 <= i < old(cache)@.len() ==> (#[trigger] old(cache)@[i]).line != line,
    ensures
        encode_utf8(lines(line).text@).len() <= chunk_line_bytes ==> r is None && final(cache)@
            == old(cache)@,
        encode_utf8(lines(line).text@).len() > chunk_line_bytes ==> {
            let now = final(cache)@;
            let n = now.len() as int;
            &&& n > 0 && r == Some((n - 1) as usize)
            &&& now.last().line == line
            &&& now.last().text@ == lines(line).text@
            &&& now.last().char_count == lines(line).text@.len()
            &&& now.last().start_byte == lines(line).start_byte
            &&& now.last().layout_key == key
            &&& now.last().layout.row(row) is None
            &&& now.drop_last() == old(cache)@.skip(old(cache)@.len() - (n - 1))
            &&& held_bytes(now) <= 64 * 1024 * 1024 || n == 1
            &&& n <= old(cache)@.len() ==> held_bytes(
                old(cache)@.skip(old(cache)@.len() - n).push(now.last()),
            ) > 64 * 1024 * 1024
        },
{
    let before = old(cache)@;
    let now = final(cache)@;
    assert(has_no_entry(before, line));
    if encode_utf8(lines(line).text@).len() > chunk_line_bytes {
        let k = choose|k: int| #[trigger] is_evicted(before.push(now.last()), now, k);
        let full = before.push(now.last());
        let n = now.len() as int;
        assert(k == full.len() - n);
        assert(now.drop_last() =~= before.skip(k));
        lemma_held_bytes(now);
        if k > 0 {
            assert(must_evict(full.skip(k - 1)));
            let one_more = before.skip(k - 1).push(now.last());
            assert(full.skip(k - 1) =~= one_more);
            lemma_held_bytes(one_more);
        }
    }
}

/// A line that is kept for the same widths is not read again: it goes to the end as it
/// is, and the others stay as they are.
pub proof fn law_kept_lines_are_used_again<F: Fn(u64) -> RawLine>(
    cache: &mut Vec<HugeLineCache>,
    read_line: F,
    line: u64,
    key: (u32, u32),
    chunk_line_bytes: usize,
    r: Option<usize>,
    k: int,
)
    requires
        call_ensures(ensure_huge_meta::<F>, (cache, read_line, line, key, chunk_line_bytes), r),
        0 <= k < old(cache)@.len(),
        old(cache)@[k].line == line,
        old(cache)@[k].layout_key == key,
        key.0 < 0x7F80_0000 && key.1 < 0x7F80_0000,
    ensures
        final(cache)@ == old(cache)@.remove(k).push(old(cache)@[k]),
        r == Some((old(cache)@.len() - 1) as usize),
{
    assert(is_entry_of(old(cache)@, line, k));
}

/// A line that is kept for other widths is read again, and nothing is known of its rows.
pub proof fn law_lines_of_other_widths_are_read_again<F: Fn(u64) -> RawLine>(
    cache: &mut Vec<HugeLineCache>,
    read_line: F,
    lines: spec_fn(u64) -> RawLine,
    line: u64,
    key: (u32, u32),
    chunk_line_bytes: usize,
    r: Option<usize>,
    k: int,
    row: int,
)
    requires
        call_ensures(ensure_huge_meta::<F>, (cache, read_line, line, key, chunk_line_bytes), r),
        forall|l: u64, raw: RawLine| #[trigger] call_ensures(read_line, (l,), raw) ==> raw == lines(l),
        0 <= k < old(cache)@.len(),
        old(cache)@[k].line == line,
        (key.0 != old(cache)@[k].layout_key.0 && key.0 != 0 && key.0 != 0x8000_0000) || (key.1
            != old(cache)@[k].layout_key.1 && key.1 != 0 && key.1 != 0x8000_0000),
    ensures
        encode_utf8(lines(line).text@).len() <= chunk_line_bytes ==> r is None && final(cache)@
            == old(cache)@.remove(k),
        encode_utf8(lines(line).text@).len() > chunk_line_bytes ==> {
            let now = final(cache)@;
            &&& now.len() == old(cache)@.len() && r == Some((now.len() - 1) as usize)
            &&& now.drop_last() == old(cache)@.remove(k)
            &&& now.last().line == line
            &&& now.last().text@ == lines(line).text@
            &&& now.last().start_byte == lines(line).start_byte
            &&& now.last().layout_key == key
            &&& now.last().layout.row(row) is None
        },
{
    assert(is_entry_of(old(cache)@, line, k));
    if encode_utf8(lines(line).text@).len() > chunk_line_bytes {
        assert(final(cache)@.drop_last() =~= old(cache)@.remove(k));
    }
}

/// A line whose text has got another length is forgotten, and everything else is kept.
pub proof fn law_stale_lines_are_dropped(
    cache: &mut Vec<HugeLineCache>,
    line: u64,
    cur_len: usize,
    done: (),
    k: int,
)
    requires
        call_ensures(drop_stale, (cache, line, cur_len), done),
        0 <= k < old(cache)@.len(),
    ensures
        old(cache)@[k].line == line && encode_utf8(old(cache)@[k].text@).len() != cur_len ==> final(
            cache)@ == old(cache)@.remove(k),
        old(cache)@[k].line == line && encode_utf8(old(cache)@[k].text@).len() == cur_len ==> final(
            cache)@ == old(cache)@,
        (forall|i: int| 0 <= i < old(cache)@.len() ==> (#[trigger] old(cache)@[i]).line != line)
            ==> final(cache)@ == old(cache)@,
{
    if old(cache)@[k].line == line {
        assert(is_entry_of(old(cache)@, line, k));
    }
}

/// What is set of a row is what is told of it, nothing else changes, and clearing forgets
/// all of it.
pub proof fn law_rows_are_remembered(
    layout: &mut HugeLayout,
    row: usize,
    start: usize,
    count: usize,
    done: (),
    other: usize,
    got: Option<RowMeta>,
    had: Option<RowMeta>,
    cleared: &mut HugeLayout,
    after: Option<RowMeta>,
)
    requires
        call_ensures(HugeLayout::set_row, (layout, row, start, count), done),
        call_ensures(HugeLayout::get, (&*old(layout), other), had),
        call_ensures(HugeLayout::get, (&*final(layout), other), got),
        call_ensures(HugeLayout::clear, (cleared,), done),
        call_ensures(HugeLayout::get, (&*final(cleared), other), after),
    ensures
        other == row ==> got == Some(RowMeta { start, char_count: count }),
        other != row ==> got == had,
        after is None,
{
}

/// A line is found in the cache where it is kept, and nowhere else.
pub proof fn law_kept_lines_are_found(
    cache: &Vec<HugeLineCache>,
    line: u64,
    r: Option<usize>,
    k: int,
)
    requires
        call_ensures(position_of, (cache, line), r),
    ensures
        0 <= k < cache@.len() && cache@[k].line == line ==> r is Some && r->0 <= k,
        r is Some ==> r->0 < cache@.len() && cache@[r->0 as int].line == line,
{
    if 0 <= k < cache@.len() && cache@[k].line == line {
        assert(is_entry_of(cache@, line, k));
    }
}

} // verus!
