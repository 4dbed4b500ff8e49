//! Report on the memory of the process.

use vstd::prelude::*;

use crate::decimal::{align_left, human_aligned, human_number, human_unit, pad_left, pad_right};
use crate::native::paint::TOP_UNIT;
use crate::sorting::{by_size, sort_by_size, sum_sizes, total_size};
use crate::text::views;

verus! {

broadcast use vstd::string::group_string_axioms;

/// Width of the number in a size.
pub const SIZE_WIDTH: usize = 7;

/// Width of the name of a module.
pub const NAME_WIDTH: usize = 32;

/// Modules that are listed.
pub const LISTED: usize = 15;

/// A size whose number is right aligned.
pub open spec fn size_text(n: u64) -> Seq<char> {
    pad_left(human_number(n as nat, TOP_UNIT as nat), SIZE_WIDTH as nat) + seq![' '] + human_unit(
        n as nat,
        TOP_UNIT as nat,
    )
}

/// A size whose number is right aligned.
pub fn human(n: u64) -> (r: String)
    ensures
        r@ == size_text(n),
{
    human_aligned(n, TOP_UNIT, SIZE_WIDTH)
}

/// First line of the report.
pub open spec fn head_line(total: u64) -> Seq<char> {
    "\n-- 已加载 DLL 镜像 Top 15, 总和 "@ + size_text(total) + " --"@
}

/// Line of a module.
pub open spec fn module_line(name: Seq<char>, size: u64) -> Seq<char> {
    "    "@ + pad_right(name, NAME_WIDTH as nat) + seq![' '] + size_text(size)
}

/// Lines on the largest `n` modules.
pub open spec fn module_lines(mods: Seq<(String, u64)>, n: nat) -> Seq<Seq<char>> {
    Seq::new(
        if n <= mods.len() {
            n
        } else {
            mods.len()
        },
        |i: int| module_line(by_size(mods)[i].0@, by_size(mods)[i].1),
    )
}

proof fn lemma_same_len(s: Seq<(String, u64)>)
    ensures
        by_size(s).len() == s.len(),
{
    crate::sorting::law_sorted_by_size(s);
    by_size(s).to_multiset_ensures();
    s.to_multiset_ensures();
}

/// The report on the loaded modules: their sum and the largest of them.
pub fn module_report(mods: Vec<(String, u64)>) -> (r: Vec<String>)
    requires
        total_size(mods@) <= u64::MAX,
    ensures
        views(r@) == seq![head_line(total_size(mods@) as u64)] + module_lines(
            mods@,
            LISTED as nat,
        ),
{
    let total: u64 = sum_sizes(&mods);
    let ghost all = mods@;
    proof {
        lemma_same_len(all);
    }
    let sorted: Vec<(String, u64)> = sort_by_size(mods);
    let mut out: Vec<String> = Vec::new();
    let mut head: String = "\n-- 已加载 DLL 镜像 Top 15, 总和 ".to_owned();
    head.append(human(total).as_str());
    head.append(" --");
    assert(head@ =~= head_line(total));
    out.push(head);
    let mut i: usize = 0;
    assert(views(out@) =~= seq![head_line(total)] + module_lines(all, 0));
    while i < sorted.len() && i < LISTED
        invariant
            i <= sorted@.len(),
            i <= LISTED,
            sorted@ == by_size(all),
            sorted@.len() == all.len(),
            views(out@) == seq![head_line(total)] + module_lines(all, i as nat),
        decreases sorted@.len() - i,
    {
        let mut line: String = "    ".to_owned();
        line.append(align_left(sorted[i].0.as_str(), NAME_WIDTH).as_str());
        line.push(' ');
        line.append(human(sorted[i].1).as_str());
        assert(line@ =~= module_line(sorted@[i as int].0@, sorted@[i as int].1));
        let ghost before = out@;
        let ghost text = line@;
        out.push(line);
        assert(views(out@) =~= views(before).push(text));
        i = i + 1;
        assert(views(out@) =~= seq![head_line(total)] + module_lines(all, i as nat));
    }
    assert(module_lines(all, i as nat) =~= module_lines(all, LISTED as nat));
    out
}

// ---------------------------------------------------------------------------
// Laws
// ---------------------------------------------------------------------------

/// The report tells the size of all modules and then the largest ones, fifteen at most.
pub proof fn law_the_largest_modules_are_reported(
    mods: Vec<(String, u64)>,
    r: Vec<String>,
    sorted: Vec<(String, u64)>,
    sum: u64,
    total: String,
    i: int,
    plain: &str,
    name: String,
    size: String,
)
    requires
        call_ensures(module_report, (mods,), r),
        call_ensures(sort_by_size, (mods,), sorted),
        call_ensures(sum_sizes, (&mods,), sum),
        call_ensures(human, (sum,), total),
        0 <= i < sorted@.len() && i < 15,
        plain@ == sorted@[i].0@,
        call_ensures(align_left, (plain, 32), name),
        call_ensures(human, (sorted@[i].1,), size),
    ensures
        r@.len() == if mods@.len() <= 15 {
            mods@.len() + 1
        } else {
            16
        },
        r@[0]@ == "\n-- 已加载 DLL 镜像 Top 15, 总和 "@ + total@ + " --"@,
        r@[i + 1]@ == "    "@ + name@ + seq![' '] + size@,
{
    crate::sorting::law_sorted_by_size(mods@);
    sorted@.to_multiset_ensures();
    mods@.to_multiset_ensures();
    assert(sorted@.len() == mods@.len());
    assert(views(r@).len() == r@.len());
    assert(views(r@)[0] == r@[0]@);
    assert(views(r@)[i + 1] == r@[i + 1]@);
}

} // verus!
