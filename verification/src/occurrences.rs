//! Occurrences of a byte string in another.

use memchr::memmem::FindIter;
use vstd::prelude::*;

verus! {

/// `needle` stands in `hay` at offset `i`.
pub open spec fn occurs_at(hay: Seq<u8>, needle: Seq<u8>, i: int) -> bool {
    0 <= i && i + needle.len() <= hay.len() && hay.subrange(i, i + needle.len()) == needle
}

/// `needle` stands somewhere in `hay`.
pub open spec fn occurs(hay: Seq<u8>, needle: Seq<u8>) -> bool {
    exists|i: int| occurs_at(hay, needle, i)
}

/// `i` is the first offset from `from` on at which `needle` stands in `hay`.
pub open spec fn first_from(hay: Seq<u8>, needle: Seq<u8>, from: int, i: int) -> bool {
    &&& from <= i
    &&& occurs_at(hay, needle, i)
    &&& forall|j: int| from <= j < i ==> !#[trigger] occurs_at(hay, needle, j)
}

/// Offsets of the occurrences of `needle` from `from` on, from left to right,
/// none overlapping the one before it. An empty needle stands at every offset.
pub open spec fn occurrences_from(hay: Seq<u8>, needle: Seq<u8>, from: int) -> Seq<int>
    decreases hay.len() - from + 1,
{
    if exists|i: int| first_from(hay, needle, from, i) {
        let i = choose|i: int| first_from(hay, needle, from, i);
        let step = if needle.len() == 0 {
            1
        } else {
            needle.len() as int
        };
        seq![i] + occurrences_from(hay, needle, i + step)
    } else {
        Seq::empty()
    }
}

/// All occurrences of `needle` in `hay`.
pub open spec fn occurrences(hay: Seq<u8>, needle: Seq<u8>) -> Seq<int> {
    occurrences_from(hay, needle, 0)
}

/// An iterator over the occurrences of a byte string.
#[verifier::external_type_specification]
#[verifier::external_body]
pub struct ExFindIter<'h, 'n>(FindIter<'h, 'n>);

/// Offsets that an iterator of `memchr` has still to hand out.
pub uninterp spec fn pending(it: FindIter<'_, '_>) -> Seq<int>;

/// `memchr::memmem::find_iter` starts an iteration over the occurrences of a
/// byte string that do not overlap, from left to right.
#[verifier::external_body]
fn find_iter<'h, 'n>(hay: &'h [u8], needle: &'n [u8]) -> (it: FindIter<'h, 'n>)
    ensures
        pending(it) == occurrences(hay@, needle@),
{
    memchr::memmem::find_iter(hay, needle)
}

/// `FindIter::next` hands out the next offset, and nothing once there is none.
#[verifier::external_body]
fn next_occurrence<'h, 'n>(it: &mut FindIter<'h, 'n>) -> (r: Option<usize>)
    ensures
        match r {
            Some(i) => pending(*old(it)).len() > 0 && i == pending(*old(it))[0] && pending(
                *final(it),
            ) == pending(*old(it)).skip(1),
            None => pending(*old(it)).len() == 0 && pending(*final(it)).len() == 0,
        },
{
    it.next()
}

/// Every occurrence lies in the searched bytes.
pub proof fn lemma_occurrences_in_bounds(hay: Seq<u8>, needle: Seq<u8>, from: int, k: int)
    requires
        0 <= from,
        0 <= k < occurrences_from(hay, needle, from).len(),
    ensures
        from <= occurrences_from(hay, needle, from)[k],
        occurs_at(hay, needle, occurrences_from(hay, needle, from)[k]),
    decreases k,
{
    let i = choose|i: int| first_from(hay, needle, from, i);
    let step = if needle.len() == 0 {
        1
    } else {
        needle.len() as int
    };
    if k > 0 {
        lemma_occurrences_in_bounds(hay, needle, i + step, k - 1);
    }
}

/// Occurrences come in ascending order and do not overlap.
pub proof fn lemma_occurrences_ascend(hay: Seq<u8>, needle: Seq<u8>, from: int, j: int, k: int)
    requires
        0 <= from,
        0 <= j < k < occurrences_from(hay, needle, from).len(),
    ensures
        occurrences_from(hay, needle, from)[j] + needle.len() <= occurrences_from(
            hay,
            needle,
            from,
        )[k],
        occurrences_from(hay, needle, from)[j] < occurrences_from(hay, needle, from)[k],
    decreases k,
{
    let i = choose|i: int| first_from(hay, needle, from, i);
    let step = if needle.len() == 0 {
        1
    } else {
        needle.len() as int
    };
    if j > 0 {
        lemma_occurrences_ascend(hay, needle, i + step, j - 1, k - 1);
    } else {
        lemma_occurrences_in_bounds(hay, needle, i + step, k - 1);
    }
}

/// Byte ranges of the first `limit` occurrences.
pub open spec fn match_ranges(hay: Seq<u8>, needle: Seq<u8>, limit: nat) -> Seq<(int, int)> {
    let all = occurrences(hay, needle);
    let n = if all.len() <= limit {
        all.len()
    } else {
        limit
    };
    Seq::new(n, |k: int| (all[k], all[k] + needle.len()))
}

/// The ranges lie in `hay`.
pub proof fn lemma_ranges_in_bounds(hay: Seq<u8>, needle: Seq<u8>, limit: nat)
    ensures
        forall|k: int|
            0 <= k < match_ranges(hay, needle, limit).len() ==> 0 <= (#[trigger] match_ranges(
                hay,
                needle,
                limit,
            )[k]).0 <= match_ranges(hay, needle, limit)[k].1 <= hay.len(),
{
    let ranges = match_ranges(hay, needle, limit);
    assert forall|k: int| 0 <= k < ranges.len() implies 0 <= (#[trigger] ranges[k]).0 <= ranges[k].1
        <= hay.len() by {
        lemma_occurrences_in_bounds(hay, needle, 0, k);
    }
}

/// Byte ranges of the first `limit` occurrences of `needle` in `hay`.
pub fn literal_ranges(hay: &[u8], needle: &[u8], limit: usize) -> (r: Vec<(usize, usize)>)
    ensures
        r@.len() == match_ranges(hay@, needle@, limit as nat).len(),
        forall|k: int|
            0 <= k < r@.len() ==> (#[trigger] r@[k]).0 == match_ranges(
                hay@,
                needle@,
                limit as nat,
            )[k].0 && r@[k].1 == match_ranges(hay@, needle@, limit as nat)[k].1,
{
    let mut out: Vec<(usize, usize)> = Vec::new();
    let ghost all = occurrences(hay@, needle@);
    let mut it = find_iter(hay, needle);
    let mut done: bool = false;
    assert(all.skip(0) =~= all);
    while out.len() < limit && !done
        invariant
            all == occurrences(hay@, needle@),
            out@.len() <= limit,
            out@.len() <= all.len(),
            pending(it) == all.skip(out@.len() as int),
            done ==> out@.len() == all.len(),
            forall|k: int|
                0 <= k < out@.len() ==> (#[trigger] out@[k]).0 == all[k] && out@[k].1 == all[k]
                    + needle@.len(),
        decreases all.len() - out@.len() + (if done { 0int } else { 1int }),
    {
        match next_occurrence(&mut it) {
            Some(i) => {
                proof {
                    lemma_occurrences_in_bounds(hay@, needle@, 0, out@.len() as int);
                    assert(all.skip(out@.len() as int).skip(1) =~= all.skip(out@.len() as int + 1));
                }
                assert(i + needle@.len() <= hay@.len());
                assert(hay@.len() == hay.len());
                out.push((i, i + needle.len()));
            },
            None => {
                done = true;
            },
        }
    }
    out
}

/// Whether `needle` stands in `hay` at offset `i`.
fn stands_at(hay: &[u8], needle: &[u8], i: usize) -> (r: bool)
    requires
        i + needle@.len() <= hay@.len(),
    ensures
        r == occurs_at(hay@, needle@, i as int),
{
    let total: usize = hay.len();
    let mut k: usize = 0;
    while k < needle.len()
        invariant
            k <= needle@.len(),
            i + needle@.len() <= hay@.len(),
            total == hay@.len(),
            forall|j: int| 0 <= j < k ==> hay@[i + j] == #[trigger] needle@[j],
        decreases needle@.len() - k,
    {
        if hay[i + k] != needle[k] {
            assert(hay@.subrange(i as int, i + needle@.len())[k as int] != needle@[k as int]);
            return false;
        }
        k = k + 1;
    }
    assert(hay@.subrange(i as int, i + needle@.len()) =~= needle@);
    true
}

/// Whether `needle` stands somewhere in `hay`.
pub fn contains(hay: &[u8], needle: &[u8]) -> (r: bool)
    ensures
        r == occurs(hay@, needle@),
{
    if needle.len() > hay.len() {
        return false;
    }
    let last: usize = hay.len() - needle.len();
    let mut i: usize = 0;
    while i <= last
        invariant
            last + needle@.len() == hay@.len(),
            hay@.len() <= usize::MAX,
            i <= last + 1,
            forall|j: int| 0 <= j < i ==> !#[trigger] occurs_at(hay@, needle@, j),
        decreases last + 1 - i,
    {
        if stands_at(hay, needle, i) {
            return true;
        }
        if i == last {
            assert forall|j: int| !#[trigger] occurs_at(hay@, needle@, j) by {}
            return false;
        }
        i = i + 1;
    }
    false
}

/// Whether `hay` starts with `needle`.
pub fn starts_with(hay: &[u8], needle: &[u8]) -> (r: bool)
    ensures
        r == needle@.is_prefix_of(hay@),
{
    if needle.len() > hay.len() {
        return false;
    }
    stands_at(hay, needle, 0)
}

/// Whether `hay` ends with `needle`.
pub fn ends_with(hay: &[u8], needle: &[u8]) -> (r: bool)
    ensures
        r == needle@.is_suffix_of(hay@),
{
    if needle.len() > hay.len() {
        return false;
    }
    stands_at(hay, needle, hay.len() - needle.len())
}

// ---------------------------------------------------------------------------
// Laws
// ---------------------------------------------------------------------------

/// A byte string is found exactly where the bytes are put together from it and
/// something in front of it and behind it.
pub proof fn law_a_part_is_found(hay: &[u8], needle: &[u8], a: Seq<u8>, b: Seq<u8>, r: bool)
    requires
        call_ensures(contains, (hay, needle), r),
    ensures
        hay@ == a + needle@ + b ==> r,
        r ==> exists|x: Seq<u8>, y: Seq<u8>| hay@ == #[trigger] (x + needle@ + y),
{
    if hay@ == a + needle@ + b {
        assert(hay@.subrange(a.len() as int, a.len() as int + needle@.len()) =~= needle@);
        assert(occurs_at(hay@, needle@, a.len() as int));
    }
    if r {
        let i = choose|i: int| occurs_at(hay@, needle@, i);
        let x = hay@.take(i);
        let y = hay@.skip(i + needle@.len());
        assert(hay@ =~= x + needle@ + y) by {
            assert forall|k: int| 0 <= k < hay@.len() implies hay@[k] == (x + needle@ + y)[k] by {
                if i <= k < i + needle@.len() {
                    assert(hay@.subrange(i, i + needle@.len())[k - i] == hay@[k]);
                }
            }
        }
    }
}

/// Bytes start with what stands in front of a rest, and end with what stands behind
/// it, and with nothing else.
pub proof fn law_start_and_end_are_told(
    hay: &[u8],
    needle: &[u8],
    rest: Seq<u8>,
    starts: bool,
    ends: bool,
)
    requires
        call_ensures(starts_with, (hay, needle), starts),
        call_ensures(ends_with, (hay, needle), ends),
    ensures
        hay@ == needle@ + rest ==> starts,
        hay@ == rest + needle@ ==> ends,
        starts ==> exists|x: Seq<u8>| hay@ == #[trigger] (needle@ + x),
        ends ==> exists|x: Seq<u8>| hay@ == #[trigger] (x + needle@),
{
    if hay@ == needle@ + rest {
        assert(hay@.take(needle@.len() as int) =~= needle@);
    }
    if hay@ == rest + needle@ {
        assert(hay@.skip(hay@.len() - needle@.len()) =~= needle@);
    }
    if starts {
        let x = hay@.skip(needle@.len() as int);
        assert(hay@ =~= hay@.take(needle@.len() as int) + x);
        assert(hay@ == needle@ + x);
    }
    if ends {
        let x = hay@.take(hay@.len() - needle@.len());
        assert(hay@ =~= x + hay@.skip(hay@.len() - needle@.len()));
        assert(hay@ == x + needle@);
    }
}

/// The ranges that are found hold the byte string that was looked for, from left to
/// right, and none reaches into the next.
pub proof fn law_ranges_hold_the_needle(
    hay: &[u8],
    needle: &[u8],
    limit: usize,
    r: Vec<(usize, usize)>,
    k: int,
)
    requires
        call_ensures(literal_ranges, (hay, needle, limit), r),
        0 <= k < r@.len(),
    ensures
        r@[k].0 <= r@[k].1 <= hay@.len(),
        hay@.subrange(r@[k].0 as int, r@[k].1 as int) == needle@,
        k + 1 < r@.len() ==> r@[k].1 <= r@[k + 1].0 && r@[k].0 < r@[k + 1].0,
        r@.len() <= limit,
{
    lemma_occurrences_in_bounds(hay@, needle@, 0, k);
    if k + 1 < r@.len() {
        lemma_occurrences_ascend(hay@, needle@, 0, k, k + 1);
        assert(r@[k + 1].0 == match_ranges(hay@, needle@, limit as nat)[k + 1].0);
    }
}

/// No place is left out: where the byte string stands, a range was found, or one that
/// was found reaches into it; unless there were more than were asked for.
pub proof fn law_no_range_is_left_out(
    hay: &[u8],
    needle: &[u8],
    limit: usize,
    r: Vec<(usize, usize)>,
    i: int,
)
    requires
        call_ensures(literal_ranges, (hay, needle, limit), r),
        r@.len() < limit,
        0 < needle@.len(),
        0 <= i && i + needle@.len() <= hay@.len(),
        hay@.subrange(i, i + needle@.len()) == needle@,
    ensures
        exists|k: int| 0 <= k < r@.len() && (#[trigger] r@[k]).0 <= i < r@[k].1,
{
    assert(occurs_at(hay@, needle@, i));
    let all = occurrences(hay@, needle@);
    let k = lemma_occurrence_covered(hay@, needle@, 0, i);
    assert(r@.len() == all.len());
    assert(r@[k].0 == all[k]);
    assert(r@[k].0 <= i < r@[k].1);
}

proof fn lemma_occurrence_covered(hay: Seq<u8>, needle: Seq<u8>, from: int, i: int) -> (k: int)
    requires
        0 <= from <= i,
        0 < needle.len(),
        occurs_at(hay, needle, i),
    ensures
        0 <= k < occurrences_from(hay, needle, from).len(),
        occurrences_from(hay, needle, from)[k] <= i < occurrences_from(hay, needle, from)[k]
            + needle.len(),
    decreases hay.len() - from + 1,
{
    let j0 = lemma_first_exists(hay, needle, from, i);
    let j = choose|j: int| first_from(hay, needle, from, j);
    assert(first_from(hay, needle, from, j));
    assert(j <= i) by {
        if i < j {
            assert(!occurs_at(hay, needle, i));
        }
    }
    let rest = occurrences_from(hay, needle, j + needle.len());
    assert(occurrences_from(hay, needle, from) == seq![j] + rest);
    if i < j + needle.len() {
        0
    } else {
        let k = lemma_occurrence_covered(hay, needle, j + needle.len(), i);
        assert((seq![j] + rest)[k + 1] == rest[k]);
        k + 1
    }
}

proof fn lemma_first_exists(hay: Seq<u8>, needle: Seq<u8>, from: int, i: int) -> (j: int)
    requires
        from <= i,
        occurs_at(hay, needle, i),
    ensures
        first_from(hay, needle, from, j),
    decreases i - from,
{
    if forall|k: int| from <= k < i ==> !#[trigger] occurs_at(hay, needle, k) {
        i
    } else {
        let k = choose|k: int| from <= k < i && #[trigger] occurs_at(hay, needle, k);
        lemma_first_exists(hay, needle, from, k)
    }
}

} // verus!
