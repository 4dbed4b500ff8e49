//! Sorting of names, sizes and numbers.

use vstd::prelude::*;

use crate::text::{chars_of, same_text, views};

verus! {

broadcast use vstd::string::group_string_axioms;

// ---------------------------------------------------------------------------
// Numbers
// ---------------------------------------------------------------------------

/// The numbers grow from one to the next.
pub open spec fn ascending(s: Seq<u64>) -> bool {
    forall|i: int, j: int| 0 <= i < j < s.len() ==> s[i] < s[j]
}

/// The numbers in order, each of them once.
pub fn sorted_unique(numbers: &Vec<u64>) -> (r: Vec<u64>)
    ensures
        ascending(r@),
        r@.to_set() == numbers@.to_set(),
{
    let mut out: Vec<u64> = Vec::new();
    let mut k: usize = 0;
    assert(numbers@.take(0) =~= Seq::<u64>::empty());
    assert(out@.to_set() =~= numbers@.take(0).to_set());
    while k < numbers.len()
        invariant
            k <= numbers@.len(),
            ascending(out@),
            out@.to_set() == numbers@.take(k as int).to_set(),
        decreases numbers@.len() - k,
    {
        let x: u64 = numbers[k];
        let mut i: usize = 0;
        while i < out.len() && out[i] < x
            invariant
                i <= out@.len(),
                forall|j: int| 0 <= j < i ==> out@[j] < x,
            decreases out@.len() - i,
        {
            i = i + 1;
        }
        let ghost before = out@;
        if i == out.len() || out[i] != x {
            out.insert(i, x);
            proof {
                assert(out@ == before.insert(i as int, x));
                assert forall|a: int, b: int| 0 <= a < b < out@.len() implies out@[a] < out@[b] by {
                    if b < i {
                        assert(before[a] < before[b]);
                    } else if b == i {
                        assert(before[a] < x);
                    } else {
                        assert(out@[b] == before[b - 1]);
                        if a > i {
                            assert(before[a - 1] < before[b - 1]);
                        } else if a == i {
                            if b - 1 > i {
                                assert(before[i as int] < before[b - 1]);
                            }
                        } else {
                            assert(before[a] < before[b - 1]);
                        }
                    }
                }
            }
        }
        proof {
            let t = numbers@.take(k as int);
            let u = numbers@.take(k + 1);
            assert(u =~= t.push(x));
            assert forall|v: u64| out@.to_set().contains(v) == u.to_set().contains(v) by {
                assert(u.contains(v) == (t.contains(v) || v == x)) by {
                    if t.contains(v) {
                        let j = t.index_of(v);
                        assert(u[j] == v);
                    }
                    if v == x {
                        assert(u[k as int] == x);
                    }
                    if u.contains(v) {
                        let j = u.index_of(v);
                        if j < k {
                            assert(t[j] == v);
                        }
                    }
                }
                assert(t.to_set().contains(v) == t.contains(v));
                assert(before.to_set().contains(v) == before.contains(v));
                assert(out@.contains(v) == (before.contains(v) || v == x)) by {
                    if out@.len() == before.len() {
                        assert(out@[i as int] == x);
                    } else {
                        if before.contains(v) {
                            let j = before.index_of(v);
                            if j < i {
                                assert(out@[j] == v);
                            } else {
                                assert(out@[j + 1] == v);
                            }
                        }
                        assert(out@[i as int] == x);
                        if out@.contains(v) {
                            let j = out@.index_of(v);
                            if j < i {
                                assert(before[j] == v);
                            } else if j > i {
                                assert(before[j - 1] == v);
                            }
                        }
                    }
                }
            }
            assert(out@.to_set() =~= u.to_set());
        }
        k = k + 1;
    }
    assert(numbers@.take(numbers@.len() as int) =~= numbers@);
    out
}

// ---------------------------------------------------------------------------
// Names
// ---------------------------------------------------------------------------

/// `a` stands before `b` in a dictionary, or is the same text. Characters are
/// compared by their numbers.
pub open spec fn text_le(a: Seq<char>, b: Seq<char>) -> bool
    decreases a.len(),
{
    if a.len() == 0 {
        true
    } else if b.len() == 0 {
        false
    } else if a[0] != b[0] {
        a[0] < b[0]
    } else {
        text_le(a.skip(1), b.skip(1))
    }
}

proof fn lemma_text_le_at(a: Seq<char>, b: Seq<char>, i: int)
    requires
        0 <= i <= a.len(),
        i <= b.len(),
        forall|j: int| 0 <= j < i ==> a[j] == b[j],
    ensures
        text_le(a, b) == text_le(a.skip(i), b.skip(i)),
    decreases i,
{
    if i == 0 {
        assert(a.skip(0) =~= a);
        assert(b.skip(0) =~= b);
    } else {
        lemma_text_le_at(a.skip(1), b.skip(1), i - 1);
        assert(a.skip(1).skip(i - 1) =~= a.skip(i));
        assert(b.skip(1).skip(i - 1) =~= b.skip(i));
    }
}

/// Any two texts have an order.
pub proof fn lemma_text_le_total(a: Seq<char>, b: Seq<char>)
    ensures
        text_le(a, b) || text_le(b, a),
        text_le(a, b) && text_le(b, a) ==> a == b,
    decreases a.len(),
{
    if a.len() > 0 && b.len() > 0 && a[0] == b[0] {
        lemma_text_le_total(a.skip(1), b.skip(1));
        if text_le(a, b) && text_le(b, a) {
            assert(a =~= seq![a[0]] + a.skip(1));
            assert(b =~= seq![b[0]] + b.skip(1));
        }
    } else if a.len() == 0 && b.len() == 0 {
        assert(a =~= b);
    }
}

/// The order of texts goes on from one to the next.
pub proof fn lemma_text_le_transitive(a: Seq<char>, b: Seq<char>, c: Seq<char>)
    requires
        text_le(a, b),
        text_le(b, c),
    ensures
        text_le(a, c),
    decreases a.len(),
{
    if a.len() > 0 && b.len() > 0 && c.len() > 0 && a[0] == b[0] && b[0] == c[0] {
        lemma_text_le_transitive(a.skip(1), b.skip(1), c.skip(1));
    }
}

/// Whether `a` stands before `b` in a dictionary, or is the same text.
pub fn stands_before(a: &str, b: &str) -> (r: bool)
    ensures
        r == text_le(a@, b@),
{
    let x: Vec<char> = chars_of(a);
    let y: Vec<char> = chars_of(b);
    let mut i: usize = 0;
    while i < x.len() && i < y.len() && x[i] == y[i]
        invariant
            i <= x@.len(),
            i <= y@.len(),
            forall|j: int| 0 <= j < i ==> x@[j] == y@[j],
        decreases x@.len() - i,
    {
        i = i + 1;
    }
    proof {
        lemma_text_le_at(x@, y@, i as int);
        if i < x@.len() {
            assert(x@.skip(i as int)[0] == x@[i as int]);
        }
        if i < y@.len() {
            assert(y@.skip(i as int)[0] == y@[i as int]);
        }
    }
    if i == x.len() {
        true
    } else if i == y.len() {
        false
    } else {
        x[i] < y[i]
    }
}

/// The names are in the order of a dictionary.
pub open spec fn in_name_order(files: Seq<(String, u64)>) -> bool {
    forall|i: int, j: int|
        0 <= i < j < files.len() ==> text_le((#[trigger] files[i]).0@, (#[trigger] files[j]).0@)
}

/// Files in the order of their names.
pub fn sort_by_name(files: Vec<(String, u64)>) -> (r: Vec<(String, u64)>)
    ensures
        in_name_order(r@),
        r@.to_multiset() == files@.to_multiset(),
{
    let mut rest: Vec<(String, u64)> = files;
    let mut out: Vec<(String, u64)> = Vec::new();
    let ghost all = files@.to_multiset();
    proof {
        rest@.to_multiset_ensures();
        out@.to_multiset_ensures();
        assert(rest@.to_multiset().add(out@.to_multiset()) =~= all);
    }
    while rest.len() > 0
        invariant
            in_name_order(out@),
            rest@.to_multiset().add(out@.to_multiset()) == all,
        decreases rest@.len(),
    {
        let ghost rest0 = rest@;
        let ghost out0 = out@;
        let last = rest.pop();
        match last {
            Some(x) => {
                let mut i: usize = 0;
                while i < out.len() && !stands_before(x.0.as_str(), out[i].0.as_str())
                    invariant
                        i <= out@.len(),
                        forall|j: int| 0 <= j < i ==> !text_le(x.0@, (#[trigger] out@[j]).0@),
                    decreases out@.len() - i,
                {
                    i = i + 1;
                }
                let ghost at = i as int;
                proof {
                    lemma_insert_in_order(out0, x, at);
                    rest0.to_multiset_ensures();
                    out0.to_multiset_ensures();
                    assert(rest0 =~= rest@.push(x));
                    rest@.to_multiset_ensures();
                    out0.insert(at, x).to_multiset_ensures();
                    lemma_insert_multiset(out0, x, at);
                }
                out.insert(i, x);
                proof {
                    assert(rest@.to_multiset().add(out@.to_multiset()) =~= rest0.to_multiset().add(
                        out0.to_multiset(),
                    ));
                }
            },
            None => {},
        }
    }
    proof {
        assert(rest@ =~= Seq::empty());
        rest@.to_multiset_ensures();
        assert(rest@.to_multiset().add(out@.to_multiset()) =~= out@.to_multiset());
    }
    out
}

proof fn lemma_insert_multiset<T>(s: Seq<T>, x: T, at: int)
    requires
        0 <= at <= s.len(),
    ensures
        s.insert(at, x).to_multiset() == s.to_multiset().insert(x),
{
    let t = s.insert(at, x);
    t.to_multiset_ensures();
    s.to_multiset_ensures();
    assert(t.remove(at) =~= s);
    assert(t[at] == x);
    assert(t.to_multiset().count(x) > 0);
    assert(t.to_multiset().remove(x).insert(x) =~= t.to_multiset());
}

proof fn lemma_insert_in_order(s: Seq<(String, u64)>, x: (String, u64), at: int)
    requires
        in_name_order(s),
        0 <= at <= s.len(),
        forall|j: int| 0 <= j < at ==> !text_le(x.0@, (#[trigger] s[j]).0@),
        at < s.len() ==> text_le(x.0@, s[at].0@),
    ensures
        in_name_order(s.insert(at, x)),
{
    let t = s.insert(at, x);
    assert forall|i: int, j: int| 0 <= i < j < t.len() implies text_le(
        (#[trigger] t[i]).0@,
        (#[trigger] t[j]).0@,
    ) by {
        if j < at {
            assert(t[i] == s[i] && t[j] == s[j]);
        } else if j == at {
            assert(t[i] == s[i]);
            lemma_text_le_total(x.0@, s[i].0@);
        } else if i > at {
            assert(t[i] == s[i - 1] && t[j] == s[j - 1]);
        } else {
            assert(t[j] == s[j - 1]);
            if j - 1 > at {
                assert(text_le(s[at].0@, s[j - 1].0@));
                lemma_text_le_transitive(x.0@, s[at].0@, s[j - 1].0@);
            }
            if i < at {
                assert(t[i] == s[i]);
                assert(text_le(s[i].0@, s[j - 1].0@));
            }
        }
    }
}

/// Each name stands before the next in a dictionary, and none stands there twice.
pub open spec fn strictly_ordered(names: Seq<Seq<char>>) -> bool {
    forall|i: int, j: int|
        0 <= i < j < names.len() ==> text_le(#[trigger] names[i], #[trigger] names[j]) && names[i]
            != names[j]
}

proof fn lemma_insert_strictly(s: Seq<Seq<char>>, x: Seq<char>, at: int)
    requires
        strictly_ordered(s),
        0 <= at <= s.len(),
        forall|j: int| 0 <= j < at ==> !text_le(x, #[trigger] s[j]),
        at < s.len() ==> text_le(x, s[at]) && s[at] != x,
    ensures
        strictly_ordered(s.insert(at, x)),
{
    let t = s.insert(at, x);
    assert forall|i: int, j: int| 0 <= i < j < t.len() implies text_le(
        #[trigger] t[i],
        #[trigger] t[j],
    ) && t[i] != t[j] by {
        if j < at {
            assert(t[i] == s[i] && t[j] == s[j]);
        } else if j == at {
            assert(t[i] == s[i]);
            lemma_text_le_total(x, s[i]);
        } else if i > at {
            assert(t[i] == s[i - 1] && t[j] == s[j - 1]);
        } else {
            assert(t[j] == s[j - 1]);
            if j - 1 > at {
                assert(text_le(s[at], s[j - 1]) && s[at] != s[j - 1]);
                lemma_text_le_transitive(x, s[at], s[j - 1]);
                if x == s[j - 1] {
                    lemma_text_le_total(s[at], s[j - 1]);
                }
            }
            if i < at {
                assert(t[i] == s[i]);
                assert(text_le(s[i], s[j - 1]) && s[i] != s[j - 1]);
            }
        }
    }
}

/// The names in the order of a dictionary, each of them once.
pub fn sorted_names(names: &Vec<String>) -> (r: Vec<String>)
    ensures
        strictly_ordered(views(r@)),
        views(r@).to_set() == views(names@).to_set(),
{
    let mut out: Vec<String> = Vec::new();
    let ghost all = views(names@);
    let mut k: usize = 0;
    assert(all.take(0) =~= Seq::empty());
    assert(views(out@).to_set() =~= all.take(0).to_set());
    while k < names.len()
        invariant
            k <= names@.len(),
            all == views(names@),
            strictly_ordered(views(out@)),
            views(out@).to_set() == all.take(k as int).to_set(),
        decreases names@.len() - k,
    {
        let ghost x = names@[k as int]@;
        let ghost before = views(out@);
        let mut i: usize = 0;
        while i < out.len() && !stands_before(names[k].as_str(), out[i].as_str())
            invariant
                i <= out@.len(),
                k < names@.len(),
                x == names@[k as int]@,
                before == views(out@),
                forall|j: int| 0 <= j < i ==> !text_le(x, #[trigger] before[j]),
            decreases out@.len() - i,
        {
            i = i + 1;
        }
        let fresh: bool = i == out.len() || !same_text(out[i].as_str(), names[k].as_str());
        if fresh {
            let s: String = names[k].as_str().to_owned();
            let ghost out0 = out@;
            out.insert(i, s);
            proof {
                assert(views(out@) =~= before.insert(i as int, x));
                lemma_insert_strictly(before, x, i as int);
            }
        }
        proof {
            let t = all.take(k as int);
            let u = all.take(k + 1);
            let now = views(out@);
            assert(u =~= t.push(x));
            assert forall|v: Seq<char>| now.to_set().contains(v) == u.to_set().contains(v) by {
                assert(u.contains(v) == (t.contains(v) || v == x)) by {
                    if t.contains(v) {
                        assert(u[t.index_of(v)] == v);
                    }
                    if v == x {
                        assert(u[k as int] == x);
                    }
                    if u.contains(v) {
                        let j = u.index_of(v);
                        if j < k {
                            assert(t[j] == v);
                        }
                    }
                }
                assert(t.to_set().contains(v) == t.contains(v));
                assert(before.to_set().contains(v) == before.contains(v));
                assert(now.contains(v) == (before.contains(v) || v == x)) by {
                    if !fresh {
                        assert(now[i as int] == x);
                    } else {
                        assert(now == before.insert(i as int, x));
                        assert(now[i as int] == x);
                        if before.contains(v) {
                            let j = before.index_of(v);
                            if j < i {
                                assert(now[j] == v);
                            } else {
                                assert(now[j + 1] == v);
                            }
                        }
                        if now.contains(v) {
                            let j = now.index_of(v);
                            if j < i {
                                assert(before[j] == v);
                            } else if j > i {
                                assert(before[j - 1] == v);
                            }
                        }
                    }
                }
            }
            assert(now.to_set() =~= u.to_set());
        }
        k = k + 1;
    }
    assert(all.take(all.len() as int) =~= all);
    out
}

// ---------------------------------------------------------------------------
// Sizes
// ---------------------------------------------------------------------------

/// Puts an entry in front of the first that is not larger.
pub open spec fn put_by_size(s: Seq<(String, u64)>, x: (String, u64)) -> Seq<(String, u64)>
    decreases s.len(),
{
    if s.len() == 0 || s[0].1 <= x.1 {
        seq![x] + s
    } else {
        seq![s[0]] + put_by_size(s.skip(1), x)
    }
}

/// Entries from the largest to the smallest; those of one size keep their order.
pub open spec fn by_size(s: Seq<(String, u64)>) -> Seq<(String, u64)>
    decreases s.len(),
{
    if s.len() == 0 {
        s
    } else {
        put_by_size(by_size(s.skip(1)), s[0])
    }
}

proof fn lemma_put_at(s: Seq<(String, u64)>, x: (String, u64), at: int)
    requires
        0 <= at <= s.len(),
        forall|j: int| 0 <= j < at ==> (#[trigger] s[j]).1 > x.1,
        at < s.len() ==> s[at].1 <= x.1,
    ensures
        put_by_size(s, x) == s.insert(at, x),
    decreases s.len(),
{
    if at == 0 {
        assert(seq![x] + s =~= s.insert(0, x));
    } else {
        assert(s[0].1 > x.1);
        assert forall|j: int| 0 <= j < at - 1 implies (#[trigger] s.skip(1)[j]).1 > x.1 by {
            assert(s.skip(1)[j] == s[j + 1]);
        }
        lemma_put_at(s.skip(1), x, at - 1);
        assert(seq![s[0]] + s.skip(1).insert(at - 1, x) =~= s.insert(at, x));
    }
}

/// Sorts entries from the largest to the smallest; those of one size keep their
/// order.
pub fn sort_by_size(entries: Vec<(String, u64)>) -> (r: Vec<(String, u64)>)
    ensures
        r@ == by_size(entries@),
{
    let mut rest: Vec<(String, u64)> = entries;
    let mut out: Vec<(String, u64)> = Vec::new();
    assert(entries@.skip(entries@.len() as int) =~= Seq::empty());
    assert(entries@.take(entries@.len() as int) =~= entries@);
    while rest.len() > 0
        invariant
            rest@.len() <= entries@.len(),
            rest@ == entries@.take(rest@.len() as int),
            out@ == by_size(entries@.skip(rest@.len() as int)),
        decreases rest@.len(),
    {
        let ghost n = rest@.len() as int;
        let ghost out0 = out@;
        let last = rest.pop();
        match last {
            Some(x) => {
                let mut i: usize = 0;
                while i < out.len() && out[i].1 > x.1
                    invariant
                        i <= out@.len(),
                        forall|j: int| 0 <= j < i ==> (#[trigger] out@[j]).1 > x.1,
                    decreases out@.len() - i,
                {
                    i = i + 1;
                }
                proof {
                    lemma_put_at(out0, x, i as int);
                    assert(entries@.skip(n - 1)[0] == x);
                    assert(entries@.skip(n - 1).skip(1) =~= entries@.skip(n));
                    assert(rest@ =~= entries@.take(n - 1));
                }
                out.insert(i, x);
            },
            None => {},
        }
    }
    assert(entries@.skip(0) =~= entries@);
    out
}

/// Sum of the sizes.
pub open spec fn total_size(s: Seq<(String, u64)>) -> nat
    decreases s.len(),
{
    if s.len() == 0 {
        0
    } else {
        total_size(s.drop_last()) + s.last().1 as nat
    }
}

proof fn lemma_total_grows(s: Seq<(String, u64)>, n: int)
    requires
        0 <= n <= s.len(),
    ensures
        total_size(s.take(n)) <= total_size(s),
    decreases s.len() - n,
{
    if n < s.len() {
        assert(s.take(n + 1).drop_last() =~= s.take(n));
        lemma_total_grows(s, n + 1);
    } else {
        assert(s.take(n) =~= s);
    }
}

proof fn lemma_total_remove(s: Seq<(String, u64)>, i: int)
    requires
        0 <= i < s.len(),
    ensures
        total_size(s) == total_size(s.remove(i)) + s[i].1,
    decreases s.len(),
{
    if i == s.len() - 1 {
        assert(s.remove(i) =~= s.drop_last());
    } else {
        lemma_total_remove(s.drop_last(), i);
        assert(s.remove(i).drop_last() =~= s.drop_last().remove(i));
    }
}

/// The order of entries does not matter to their sum.
pub proof fn lemma_total_of_multiset(a: Seq<(String, u64)>, b: Seq<(String, u64)>)
    requires
        a.to_multiset() == b.to_multiset(),
    ensures
        total_size(a) == total_size(b),
        a.len() == b.len(),
    decreases a.len(),
{
    a.to_multiset_ensures();
    b.to_multiset_ensures();
    if a.len() > 0 {
        let x = a.last();
        assert(a[a.len() - 1] == x);
        assert(a.to_multiset().count(x) > 0);
        assert(b.contains(x));
        let i = b.index_of(x);
        let c = b.remove(i);
        let d = a.drop_last();
        assert(d =~= a.remove(a.len() - 1));
        lemma_total_of_multiset(d, c);
        lemma_total_remove(b, i);
    }
}

/// Adds up the sizes.
pub fn sum_sizes(entries: &Vec<(String, u64)>) -> (r: u64)
    requires
        total_size(entries@) <= u64::MAX,
    ensures
        r == total_size(entries@),
{
    let mut sum: u64 = 0;
    let mut i: usize = 0;
    assert(entries@.take(0) =~= Seq::empty());
    while i < entries.len()
        invariant
            i <= entries@.len(),
            sum == total_size(entries@.take(i as int)),
            total_size(entries@) <= u64::MAX,
        decreases entries@.len() - i,
    {
        proof {
            assert(entries@.take(i + 1).drop_last() =~= entries@.take(i as int));
            lemma_total_grows(entries@, i + 1);
        }
        sum = sum + entries[i].1;
        i = i + 1;
    }
    assert(entries@.take(entries@.len() as int) =~= entries@);
    sum
}

// ---------------------------------------------------------------------------
// Laws
// ---------------------------------------------------------------------------

/// Sorting by size loses nothing and puts the larger in front.
pub proof fn law_sorted_by_size(s: Seq<(String, u64)>)
    ensures
        by_size(s).to_multiset() == s.to_multiset(),
        forall|i: int, j: int|
            0 <= i < j < by_size(s).len() ==> (#[trigger] by_size(s)[i]).1 >= (
            #[trigger] by_size(s)[j]).1,
    decreases s.len(),
{
    if s.len() > 0 {
        law_sorted_by_size(s.skip(1));
        let t = by_size(s.skip(1));
        lemma_put_place(t, s[0]);
        let at = choose|at: int|
            0 <= at <= t.len() && #[trigger] t.insert(at, s[0]) == put_by_size(t, s[0]) && (forall|
                j: int,
            |
                0 <= j < at ==> (#[trigger] t[j]).1 > s[0].1) && (at < t.len() ==> t[at].1
                <= s[0].1);
        lemma_insert_multiset(t, s[0], at);
        assert(s =~= s.skip(1).insert(0, s[0]));
        lemma_insert_multiset(s.skip(1), s[0], 0);
        let u = by_size(s);
        assert(u == t.insert(at, s[0]));
        assert forall|i: int, j: int| 0 <= i < j < u.len() implies (#[trigger] u[i]).1 >= (
        #[trigger] u[j]).1 by {
            if j < at {
                assert(t[i].1 >= t[j].1);
            } else if j == at {
                assert(t[i].1 > s[0].1);
            } else {
                assert(u[j] == t[j - 1]);
                if i > at {
                    assert(t[i - 1].1 >= t[j - 1].1);
                } else if i == at {
                    if j - 1 > at {
                        assert(t[at].1 >= t[j - 1].1);
                    }
                } else {
                    assert(t[i].1 >= t[j - 1].1);
                }
            }
        }
    }
}

proof fn lemma_put_place(t: Seq<(String, u64)>, x: (String, u64))
    ensures
        exists|at: int|
            0 <= at <= t.len() && #[trigger] t.insert(at, x) == put_by_size(t, x) && (forall|j: int|
                0 <= j < at ==> (#[trigger] t[j]).1 > x.1) && (at < t.len() ==> t[at].1 <= x.1),
    decreases t.len(),
{
    if t.len() == 0 || t[0].1 <= x.1 {
        lemma_put_at(t, x, 0);
        assert(t.insert(0, x) == put_by_size(t, x));
    } else {
        lemma_put_place(t.skip(1), x);
        let s = t.skip(1);
        let at = choose|at: int|
            0 <= at <= s.len() && #[trigger] s.insert(at, x) == put_by_size(s, x) && (forall|j: int|
                0 <= j < at ==> (#[trigger] s[j]).1 > x.1) && (at < s.len() ==> s[at].1 <= x.1);
        assert forall|j: int| 0 <= j < at + 1 implies (#[trigger] t[j]).1 > x.1 by {
            if j > 0 {
                assert(t[j] == s[j - 1]);
            }
        }
        if at + 1 < t.len() {
            assert(t[at + 1] == s[at]);
        }
        lemma_put_at(t, x, at + 1);
        assert(t.insert(at + 1, x) == put_by_size(t, x));
    }
}

/// Sorted numbers are the numbers that were there, each once and in order.
pub proof fn law_numbers_are_sorted(numbers: &Vec<u64>, r: Vec<u64>, x: u64, i: int, j: int)
    requires
        call_ensures(sorted_unique, (numbers,), r),
    ensures
        r@.contains(x) == numbers@.contains(x),
        0 <= i < j < r@.len() ==> r@[i] < r@[j],
{
    assert(r@.contains(x) == r@.to_set().contains(x));
    assert(numbers@.contains(x) == numbers@.to_set().contains(x));
}

/// A text stands before another one that it starts, and two texts are told apart by the
/// first character in which they differ.
pub proof fn law_texts_are_ordered_by_their_characters(
    start: Seq<char>,
    a: &str,
    b: &str,
    ab: bool,
    ba: bool,
)
    requires
        call_ensures(stands_before, (a, b), ab),
        call_ensures(stands_before, (b, a), ba),
        start.len() <= a@.len(),
        start.len() <= b@.len(),
        a@.take(start.len() as int) == start,
        b@.take(start.len() as int) == start,
    ensures
        start.len() == a@.len() ==> ab,
        start.len() == a@.len() && start.len() < b@.len() ==> !ba,
        start.len() < a@.len() && start.len() < b@.len() && a@[start.len() as int]
            < b@[start.len() as int] ==> ab && !ba,
{
    lemma_same_start(start, a@, b@);
    let n = start.len() as int;
    if n < a@.len() && n < b@.len() {
        assert(a@.skip(n)[0] == a@[n]);
        assert(b@.skip(n)[0] == b@[n]);
    }
}

proof fn lemma_same_start(start: Seq<char>, a: Seq<char>, b: Seq<char>)
    requires
        start.len() <= a.len(),
        start.len() <= b.len(),
        a.take(start.len() as int) == start,
        b.take(start.len() as int) == start,
    ensures
        text_le(a, b) == text_le(a.skip(start.len() as int), b.skip(start.len() as int)),
        text_le(b, a) == text_le(b.skip(start.len() as int), a.skip(start.len() as int)),
    decreases start.len(),
{
    let n = start.len() as int;
    if n > 0 {
        assert(a[0] == start[0] && b[0] == start[0]) by {
            assert(a.take(n)[0] == a[0]);
            assert(b.take(n)[0] == b[0]);
        }
        assert(a.skip(1).take(n - 1) =~= a.take(n).skip(1));
        assert(b.skip(1).take(n - 1) =~= b.take(n).skip(1));
        lemma_same_start(start.skip(1), a.skip(1), b.skip(1));
        assert(a.skip(1).skip(n - 1) =~= a.skip(n));
        assert(b.skip(1).skip(n - 1) =~= b.skip(n));
    } else {
        assert(a.skip(0) =~= a);
        assert(b.skip(0) =~= b);
    }
}

/// Files that are sorted by name are those that were there, and none stands behind one
/// that comes after it.
pub proof fn law_files_are_sorted_by_name(
    files: Vec<(String, u64)>,
    r: Vec<(String, u64)>,
    i: int,
    j: int,
    a: &str,
    b: &str,
    before: bool,
)
    requires
        call_ensures(sort_by_name, (files,), r),
        0 <= i < j < r@.len(),
        a@ == r@[i].0@,
        b@ == r@[j].0@,
        call_ensures(stands_before, (a, b), before),
    ensures
        before,
        r@.to_multiset() == files@.to_multiset(),
{
}

/// Files that are sorted by size are those that were there, the largest first, and equal
/// ones stay in the order in which they were.
pub proof fn law_the_largest_stand_first(
    files: Vec<(String, u64)>,
    r: Vec<(String, u64)>,
    i: int,
    j: int,
    size: u64,
)
    requires
        call_ensures(sort_by_size, (files,), r),
    ensures
        r@.to_multiset() == files@.to_multiset(),
        0 <= i < j < r@.len() ==> r@[i].1 >= r@[j].1,
        of_size(r@, size) == of_size(files@, size),
{
    law_sorted_by_size(files@);
    lemma_equal_sizes_stay(files@, size);
}

/// The files of a size, in order.
pub open spec fn of_size(s: Seq<(String, u64)>, size: u64) -> Seq<(String, u64)>
    decreases s.len(),
{
    if s.len() == 0 {
        s
    } else if s[0].1 == size {
        seq![s[0]] + of_size(s.skip(1), size)
    } else {
        of_size(s.skip(1), size)
    }
}

proof fn lemma_equal_sizes_stay(s: Seq<(String, u64)>, size: u64)
    ensures
        of_size(by_size(s), size) == of_size(s, size),
    decreases s.len(),
{
    if s.len() > 0 {
        lemma_equal_sizes_stay(s.skip(1), size);
        law_sorted_by_size(s.skip(1));
        lemma_put_keeps_order(by_size(s.skip(1)), s[0], size);
    }
}

proof fn lemma_put_keeps_order(t: Seq<(String, u64)>, x: (String, u64), size: u64)
    requires
        forall|i: int, j: int| 0 <= i < j < t.len() ==> (#[trigger] t[i]).1 >= (#[trigger] t[j]).1,
    ensures
        of_size(put_by_size(t, x), size) == if x.1 == size {
            seq![x] + of_size(t, size)
        } else {
            of_size(t, size)
        },
    decreases t.len(),
{
    let u = put_by_size(t, x);
    if t.len() == 0 || t[0].1 <= x.1 {
        assert(u.skip(1) =~= t);
    } else {
        let rest = t.skip(1);
        assert forall|i: int, j: int| 0 <= i < j < rest.len() implies (#[trigger] rest[i]).1 >= (
        #[trigger] rest[j]).1 by {
            assert(rest[i] == t[i + 1] && rest[j] == t[j + 1]);
        }
        lemma_put_keeps_order(rest, x, size);
        assert(u.skip(1) =~= put_by_size(rest, x));
        assert(u[0] == t[0]);
        if x.1 == size {
            assert(t[0].1 != size);
        } else if t[0].1 == size {
            assert(of_size(t, size) == seq![t[0]] + of_size(rest, size));
        }
    }
}

/// Sorted names are the names that were there, each once, and none stands behind one that
/// comes after it.
pub proof fn law_names_are_sorted(
    names: &Vec<String>,
    r: Vec<String>,
    x: Seq<char>,
    i: int,
    j: int,
    a: &str,
    b: &str,
    before: bool,
)
    requires
        call_ensures(sorted_names, (names,), r),
        0 <= i < j < r@.len(),
        a@ == r@[i]@,
        b@ == r@[j]@,
        call_ensures(stands_before, (a, b), before),
    ensures
        before,
        a@ != b@,
        views(r@).contains(x) == views(names@).contains(x),
{
    assert(views(r@)[i] == r@[i]@ && views(r@)[j] == r@[j]@);
    assert(views(r@).contains(x) == views(r@).to_set().contains(x));
    assert(views(names@).contains(x) == views(names@).to_set().contains(x));
}

/// The size of all files is that of those in front and of the last one.
pub proof fn law_sizes_add_up(
    all: &Vec<(String, u64)>,
    front: &Vec<(String, u64)>,
    last: (String, u64),
    r: u64,
    q: u64,
    none: &Vec<(String, u64)>,
    zero: u64,
)
    requires
        call_ensures(sum_sizes, (all,), r),
        call_ensures(sum_sizes, (front,), q),
        call_ensures(sum_sizes, (none,), zero),
        all@ == front@.push(last),
        none@.len() == 0,
    ensures
        r == q + last.1,
        zero == 0,
{
    assert(all@.drop_last() =~= front@);
}

} // verus!
