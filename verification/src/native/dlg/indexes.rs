//! Stored indexes: a list of them, and clearing them away.

use vstd::prelude::*;

use crate::decimal::{decimal, human_text, push_decimal};
use crate::native::geom::Rect;
use crate::native::paint::{human_bytes, TOP_UNIT};
use crate::native::widgets::{BtnKind, BtnState, Button};
use crate::paths::{has_extension, has_extension_text};
use crate::sorting::{
    in_name_order, lemma_total_of_multiset, sort_by_name, sum_sizes, total_size,
};
use crate::text::{maybe_text, same_text, views};

verus! {

broadcast use vstd::string::group_string_axioms;

pub const WIDTH: i32 = 520;

pub const HEIGHT: i32 = 420;

/// The file is a stored index.
pub open spec fn is_index(f: (String, u64)) -> bool {
    has_extension_text(f.0@, "qli"@)
}

/// The file is that of the open file.
pub open spec fn is_kept(f: (String, u64), keep: Option<Seq<char>>) -> bool {
    keep == Some(f.0@)
}

/// The stored indexes among some files.
pub open spec fn indexes_of(files: Seq<(String, u64)>) -> Seq<(String, u64)> {
    files.filter(|f: (String, u64)| is_index(f))
}

/// Line of the list on one index; a star marks that of the open file.
pub open spec fn index_line(f: (String, u64), keep: Option<Seq<char>>) -> Seq<char> {
    (if is_kept(f, keep) {
        "★ "@
    } else {
        "  "@
    }) + human_text(f.1 as nat, TOP_UNIT as nat) + "  "@ + f.0@ + "\n"@
}

/// Lines of the list.
pub open spec fn index_lines(files: Seq<(String, u64)>, keep: Option<Seq<char>>) -> Seq<char>
    decreases files.len(),
{
    if files.len() == 0 {
        Seq::empty()
    } else {
        index_lines(files.drop_last(), keep) + index_line(files.last(), keep)
    }
}

/// What the list says, its indexes being in order.
pub open spec fn list_text(
    files: Seq<(String, u64)>,
    keep: Option<Seq<char>>,
    recent: nat,
    history: nat,
) -> Seq<char> {
    index_lines(files, keep) + (if files.len() == 0 {
        "（无缓存文件）"@
    } else {
        Seq::empty()
    }) + "\n共 "@ + decimal(files.len()) + " 个索引文件，占用 "@ + human_text(
        total_size(files),
        TOP_UNIT as nat,
    ) + "\n最近文件 "@ + decimal(recent) + " 条 · 搜索历史 "@ + decimal(history) + " 条"@
}

proof fn lemma_filter_step(files: Seq<(String, u64)>, i: int)
    requires
        0 <= i < files.len(),
    ensures
        indexes_of(files.take(i + 1)) == if is_index(files[i]) {
            indexes_of(files.take(i)).push(files[i])
        } else {
            indexes_of(files.take(i))
        },
{
    reveal(Seq::filter);
    assert(files.take(i + 1).drop_last() =~= files.take(i));
}

/// The stored indexes among some files.
pub fn only_indexes(files: Vec<(String, u64)>) -> (r: Vec<(String, u64)>)
    ensures
        views_of(r@) == views_of(indexes_of(files@)),
{
    let mut out: Vec<(String, u64)> = Vec::new();
    let mut i: usize = 0;
    assert(files@.take(0) =~= Seq::empty());
    assert(indexes_of(files@.take(0)) =~= Seq::empty()) by {
        reveal(Seq::filter);
    }
    while i < files.len()
        invariant
            i <= files@.len(),
            views_of(out@) == views_of(indexes_of(files@.take(i as int))),
        decreases files@.len() - i,
    {
        proof {
            lemma_filter_step(files@, i as int);
        }
        if has_extension(files[i].0.as_str(), "qli") {
            let ghost before = out@;
            let ghost chosen = indexes_of(files@.take(i as int));
            let name: String = files[i].0.as_str().to_owned();
            let ghost text = name@;
            out.push((name, files[i].1));
            proof {
                assert(views_of(out@) =~= views_of(before).push((text, files@[i as int].1)));
                assert(views_of(chosen.push(files@[i as int])) =~= views_of(chosen).push(
                    (text, files@[i as int].1),
                ));
            }
        }
        i = i + 1;
    }
    assert(files@.take(files@.len() as int) =~= files@);
    out
}

/// Files as contracts speak of them.
pub open spec fn views_of(files: Seq<(String, u64)>) -> Seq<(Seq<char>, u64)> {
    files.map(|i: int, f: (String, u64)| (f.0@, f.1))
}

/// `text` lists the indexes among the files by name.
pub open spec fn is_index_list(
    files: Seq<(String, u64)>,
    keep: Option<Seq<char>>,
    recent: nat,
    history: nat,
    text: Seq<char>,
) -> bool {
    exists|sorted: Seq<(String, u64)>| #[trigger]
        in_name_order(sorted) && views_of(sorted).to_multiset() == views_of(
            indexes_of(files),
        ).to_multiset() && text == list_text(sorted, keep, recent, history)
}

/// What the list of stored indexes says. The files are those of the directory
/// of indexes, `keep` is the name of the index of the open file.
pub fn show_index_manager(
    files: Vec<(String, u64)>,
    keep: Option<&str>,
    recent: usize,
    history: usize,
) -> (r: String)
    requires
        total_size(indexes_of(files@)) <= u64::MAX,
    ensures
        is_index_list(files@, maybe_text(keep), recent as nat, history as nat, r@),
{
    let ghost all = indexes_of(files@);
    let ghost kept: Option<Seq<char>> = maybe_text(keep);
    let found: Vec<(String, u64)> = only_indexes(files);
    let ghost unsorted = found@;
    let sorted: Vec<(String, u64)> = sort_by_name(found);
    proof {
        lemma_views_multiset(unsorted, sorted@);
        lemma_total_of_multiset(unsorted, sorted@);
        lemma_total_of_views(unsorted, all);
    }
    let total: u64 = sum_sizes(&sorted);
    let mut text = String::new();
    let mut i: usize = 0;
    assert(sorted@.take(0) =~= Seq::empty());
    assert(text@ =~= index_lines(sorted@.take(0), kept));
    while i < sorted.len()
        invariant
            i <= sorted@.len(),
            kept == maybe_text(keep),
            text@ == index_lines(sorted@.take(i as int), kept),
        decreases sorted@.len() - i,
    {
        let ghost before = text@;
        let star: bool = match keep {
            Some(k) => same_text(sorted[i].0.as_str(), k),
            None => false,
        };
        if star {
            text.append("★ ");
        } else {
            text.append("  ");
        }
        text.append(human_bytes(sorted[i].1).as_str());
        text.append("  ");
        text.append(sorted[i].0.as_str());
        text.append("\n");
        proof {
            assert(sorted@.take(i + 1).drop_last() =~= sorted@.take(i as int));
            assert(text@ =~= before + index_line(sorted@[i as int], kept));
        }
        i = i + 1;
    }
    assert(sorted@.take(sorted@.len() as int) =~= sorted@);
    if sorted.len() == 0 {
        text.append("（无缓存文件）");
    }
    text.append("\n共 ");
    push_decimal(&mut text, sorted.len() as u64);
    text.append(" 个索引文件，占用 ");
    text.append(human_bytes(total).as_str());
    text.append("\n最近文件 ");
    push_decimal(&mut text, recent as u64);
    text.append(" 条 · 搜索历史 ");
    push_decimal(&mut text, history as u64);
    text.append(" 条");
    assert(text@ =~= list_text(sorted@, kept, recent as nat, history as nat));
    text
}

proof fn lemma_total_of_views(a: Seq<(String, u64)>, b: Seq<(String, u64)>)
    requires
        views_of(a) == views_of(b),
    ensures
        total_size(a) == total_size(b),
    decreases a.len(),
{
    assert(views_of(a).len() == a.len());
    assert(views_of(b).len() == b.len());
    if a.len() > 0 {
        assert(views_of(a)[a.len() - 1].1 == a.last().1);
        assert(views_of(b)[b.len() - 1].1 == b.last().1);
        assert(views_of(a.drop_last()) =~= views_of(a).drop_last());
        assert(views_of(b.drop_last()) =~= views_of(b).drop_last());
        lemma_total_of_views(a.drop_last(), b.drop_last());
    }
}

proof fn lemma_views_multiset(a: Seq<(String, u64)>, b: Seq<(String, u64)>)
    requires
        a.to_multiset() == b.to_multiset(),
    ensures
        views_of(a).to_multiset() == views_of(b).to_multiset(),
    decreases a.len(),
{
    a.to_multiset_ensures();
    b.to_multiset_ensures();
    if a.len() == 0 {
        assert(b.len() == 0);
        assert(views_of(a) =~= views_of(b));
    } else {
        let x = a.last();
        assert(a[a.len() - 1] == x);
        assert(a.to_multiset().count(x) > 0);
        assert(b.contains(x));
        let i = b.index_of(x);
        let c = b.remove(i);
        let d = a.drop_last();
        assert(d =~= a.remove(a.len() - 1));
        lemma_views_multiset(d, c);
        let va = views_of(a);
        let vb = views_of(b);
        va.to_multiset_ensures();
        vb.to_multiset_ensures();
        assert(views_of(d) =~= va.remove(va.len() - 1));
        assert(views_of(c) =~= vb.remove(i));
        let y = (x.0@, x.1);
        assert(va[va.len() - 1] == y);
        assert(vb[i] == y);
        assert(va.to_multiset().count(y) > 0);
        assert(vb.to_multiset().count(y) > 0);
        assert(va.to_multiset() =~= va.to_multiset().remove(y).insert(y));
        assert(vb.to_multiset() =~= vb.to_multiset().remove(y).insert(y));
    }
}

/// The file is one that clearing deletes: an index, but not that of the open
/// file.
pub open spec fn is_deleted(f: (String, u64), keep: Option<Seq<char>>) -> bool {
    is_index(f) && !is_kept(f, keep)
}

/// Files that clearing deletes.
pub open spec fn deleted_of(files: Seq<(String, u64)>, keep: Option<Seq<char>>) -> Seq<(String, u64)>
{
    files.filter(|f: (String, u64)| is_deleted(f, keep))
}

/// Names of files.
pub open spec fn names_of(files: Seq<(String, u64)>) -> Seq<Seq<char>> {
    files.map(|i: int, f: (String, u64)| f.0@)
}

/// Names of the files that clearing deletes, and their size together.
pub fn files_to_delete(files: &Vec<(String, u64)>, keep: Option<&str>) -> (r: (Vec<String>, u64))
    requires
        total_size(
            deleted_of(files@, maybe_text(keep)),
        ) <= u64::MAX,
    ensures
        ({
            let gone = deleted_of(files@, maybe_text(keep));
            &&& views(r.0@) == names_of(gone)
            &&& r.1 == total_size(gone)
        }),
{
    let ghost kept: Option<Seq<char>> = maybe_text(keep);
    let mut names: Vec<String> = Vec::new();
    let mut sum: u64 = 0;
    let mut i: usize = 0;
    assert(files@.take(0) =~= Seq::empty());
    assert(deleted_of(files@.take(0), kept) =~= Seq::empty()) by {
        reveal(Seq::filter);
    }
    assert(views(names@) =~= names_of(deleted_of(files@.take(0), kept)));
    while i < files.len()
        invariant
            i <= files@.len(),
            kept == maybe_text(keep),
            views(names@) == names_of(deleted_of(files@.take(i as int), kept)),
            sum == total_size(deleted_of(files@.take(i as int), kept)),
            total_size(deleted_of(files@, kept)) <= u64::MAX,
        decreases files@.len() - i,
    {
        let ghost before = deleted_of(files@.take(i as int), kept);
        proof {
            lemma_deleted_step(files@, kept, i as int);
            lemma_deleted_grows(files@, kept, i + 1);
        }
        let mine: bool = match keep {
            Some(k) => same_text(files[i].0.as_str(), k),
            None => false,
        };
        if has_extension(files[i].0.as_str(), "qli") && !mine {
            let ghost names0 = names@;
            let name: String = files[i].0.as_str().to_owned();
            let ghost text = name@;
            names.push(name);
            proof {
                assert(before.push(files@[i as int]).drop_last() =~= before);
                assert(views(names@) =~= views(names0).push(text));
                assert(names_of(before.push(files@[i as int])) =~= names_of(before).push(text));
            }
            sum = sum + files[i].1;
        }
        i = i + 1;
    }
    assert(files@.take(files@.len() as int) =~= files@);
    (names, sum)
}

proof fn lemma_deleted_step(files: Seq<(String, u64)>, keep: Option<Seq<char>>, i: int)
    requires
        0 <= i < files.len(),
    ensures
        deleted_of(files.take(i + 1), keep) == if is_deleted(files[i], keep) {
            deleted_of(files.take(i), keep).push(files[i])
        } else {
            deleted_of(files.take(i), keep)
        },
{
    reveal(Seq::filter);
    assert(files.take(i + 1).drop_last() =~= files.take(i));
}

proof fn lemma_deleted_grows(files: Seq<(String, u64)>, keep: Option<Seq<char>>, i: int)
    requires
        0 <= i <= files.len(),
    ensures
        total_size(deleted_of(files.take(i), keep)) <= total_size(deleted_of(files, keep)),
    decreases files.len() - i,
{
    if i < files.len() {
        lemma_deleted_step(files, keep, i);
        let before = deleted_of(files.take(i), keep);
        assert(before.push(files[i]).drop_last() =~= before);
        lemma_deleted_grows(files, keep, i + 1);
    } else {
        assert(files.take(i) =~= files);
    }
}

/// What the status bar says after clearing.
pub fn cleared_status(freed: u64) -> (r: String)
    ensures
        r@ == "已清空缓存（"@ + human_text(freed as nat, TOP_UNIT as nat) + " 释放）"@,
{
    let mut out: String = "已清空缓存（".to_owned();
    out.append(human_bytes(freed).as_str());
    out.append(" 释放）");
    out
}

/// The buttons of the dialog.
pub fn index_buttons() -> (r: Vec<Button>)
    ensures
        r@.len() == 2,
        r@[0].rect == (Rect { left: 160, top: 370, right: 330, bottom: 402 }),
        r@[0].kind == BtnKind::Danger && r@[0].label@ == "清空缓存（保留当前）"@,
        r@[1].rect == (Rect { left: 400, top: 370, right: 504, bottom: 402 }),
        r@[1].kind == BtnKind::Neutral && r@[1].label@ == "关闭"@,
        r@[0].state == BtnState::Normal && r@[1].state == BtnState::Normal,
{
    let mut v: Vec<Button> = Vec::new();
    v.push(
        Button::new(
            Rect { left: 160, top: HEIGHT - 50, right: 330, bottom: HEIGHT - 18 },
            BtnKind::Danger,
            "清空缓存（保留当前）",
        ),
    );
    v.push(
        Button::new(
            Rect { left: 400, top: HEIGHT - 50, right: WIDTH - 16, bottom: HEIGHT - 18 },
            BtnKind::Neutral,
            "关闭",
        ),
    );
    v
}

/// Clearing keeps the index of the open file and everything that is no index.
pub proof fn law_clearing_keeps(files: Seq<(String, u64)>, keep: Option<Seq<char>>, f: (String, u64))
    ensures
        deleted_of(files, keep).contains(f) <==> files.contains(f) && is_index(f) && !is_kept(
            f,
            keep,
        ),
{
    let gone = deleted_of(files, keep);
    let p = |g: (String, u64)| is_deleted(g, keep);
    if gone.contains(f) {
        let i = gone.index_of(f);
        files.lemma_filter_pred(p, i);
        files.lemma_filter_contains_rev(p, f);
    }
    if files.contains(f) && is_deleted(f, keep) {
        let i = files.index_of(f);
        files.lemma_filter_contains(p, i);
    }
}

/// A file is deleted where its name ends with the extension of indexes and it is not the
/// one to keep.
pub proof fn law_only_other_indexes_are_deleted(
    files: &Vec<(String, u64)>,
    keep: Option<&str>,
    r: (Vec<String>, u64),
    i: int,
    stem: Seq<char>,
    name: Seq<char>,
)
    requires
        call_ensures(files_to_delete, (files, keep), r),
        0 <= i < files@.len(),
    ensures
        files@[i].0@ == stem + ".qli"@ && stem.len() > 0 && (keep is None || keep->0@
            != files@[i].0@) ==> views(r.0@).contains(files@[i].0@),
        views(r.0@).contains(name) ==> (keep is None || keep->0@ != name) && name.len() > 4
            && name.skip(name.len() - 4) == ".qli"@,
{
    reveal_strlit("qli");
    reveal_strlit(".qli");
    let k = maybe_text(keep);
    let gone = deleted_of(files@, k);
    if files@[i].0@ == stem + ".qli"@ && stem.len() > 0 && (keep is None || keep->0@
        != files@[i].0@) {
        let f = files@[i];
        let n = f.0@;
        assert(n.subrange(n.len() - 4, n.len() as int) =~= seq!['.'] + "qli"@);
        assert(is_index(f));
        law_clearing_keeps(files@, k, f);
        assert(files@.contains(f));
        let at = gone.index_of(f);
        assert(names_of(gone)[at] == n);
    }
    if views(r.0@).contains(name) {
        let at = names_of(gone).index_of(name);
        let f = gone[at];
        assert(names_of(gone)[at] == f.0@);
        assert(gone.contains(f));
        law_clearing_keeps(files@, k, f);
        assert(name.skip(name.len() - 4) =~= name.subrange(name.len() - 4, name.len() as int));
        assert(seq!['.'] + "qli"@ =~= ".qli"@);
    }
}

proof fn lemma_line_is_listed(files: Seq<(String, u64)>, keep: Option<Seq<char>>, i: int) -> (parts: (
    Seq<char>,
    Seq<char>,
))
    requires
        0 <= i < files.len(),
    ensures
        index_lines(files, keep) == parts.0 + index_line(files[i], keep) + parts.1,
    decreases files.len(),
{
    let last = index_line(files.last(), keep);
    if i == files.len() - 1 {
        let parts = (index_lines(files.drop_last(), keep), Seq::<char>::empty());
        assert(index_lines(files, keep) =~= parts.0 + last + parts.1);
        parts
    } else {
        let (a, b) = lemma_line_is_listed(files.drop_last(), keep, i);
        assert(index_lines(files, keep) =~= a + index_line(files[i], keep) + (b + last));
        (a, b + last)
    }
}

/// A line of the list, with what stands before and behind it in the text.
proof fn lemma_line_in_text(
    files: Seq<(String, u64)>,
    keep: Option<Seq<char>>,
    recent: nat,
    history: nat,
    i: int,
) -> (parts: (Seq<char>, Seq<char>))
    requires
        0 <= i < files.len(),
    ensures
        list_text(files, keep, recent, history) == parts.0 + index_line(files[i], keep) + parts.1,
{
    let text = list_text(files, keep, recent, history);
    let lines = index_lines(files, keep);
    let rest = text.skip(lines.len() as int);
    assert(text.take(lines.len() as int) =~= lines);
    assert(text =~= text.take(lines.len() as int) + rest);
    let (a, b) = lemma_line_is_listed(files, keep, i);
    let line = index_line(files[i], keep);
    assert(a + line + b + rest =~= a + line + (b + rest));
    (a, b + rest)
}

/// Every index is listed on a line with its size and its name, and a star marks the one of
/// the file that is open; what stands before and behind the line is handed back.
pub proof fn law_indexes_are_listed(
    files: Vec<(String, u64)>,
    keep: Option<&str>,
    recent: usize,
    history: usize,
    r: String,
    i: int,
    stem: Seq<char>,
    size: String,
) -> (parts: (Seq<char>, Seq<char>))
    requires
        call_ensures(show_index_manager, (files, keep, recent, history), r),
        0 <= i < files@.len(),
        files@[i].0@ == stem + ".qli"@,
        stem.len() > 0,
        call_ensures(crate::native::paint::human_bytes, (files@[i].1,), size),
    ensures
        keep is Some && keep->0@ == files@[i].0@ ==> r@ == parts.0 + ("★ "@ + size@ + "  "@
            + files@[i].0@ + "\n"@) + parts.1,
        keep is None || keep->0@ != files@[i].0@ ==> r@ == parts.0 + ("  "@ + size@ + "  "@
            + files@[i].0@ + "\n"@) + parts.1,
{
    let f = files@[i];
    let n = f.0@;
    let k = maybe_text(keep);
    assert(is_index(f)) by {
        reveal_strlit("qli");
        reveal_strlit(".qli");
        assert(n.subrange(n.len() - 4, n.len() as int) =~= seq!['.'] + "qli"@);
    }
    let all = indexes_of(files@);
    files@.lemma_filter_contains(|g: (String, u64)| is_index(g), i);
    let at = all.index_of(f);
    let sorted = choose|sorted: Seq<(String, u64)>| #[trigger]
        in_name_order(sorted) && views_of(sorted).to_multiset() == views_of(all).to_multiset()
            && r@ == list_text(sorted, k, recent as nat, history as nat);
    let j = lemma_still_there(all, sorted, at);
    lemma_line_in_text(sorted, k, recent as nat, history as nat, j)
}

/// An entry is found again after sorting.
proof fn lemma_still_there(all: Seq<(String, u64)>, sorted: Seq<(String, u64)>, at: int) -> (j: int)
    requires
        0 <= at < all.len(),
        views_of(sorted).to_multiset() == views_of(all).to_multiset(),
    ensures
        0 <= j < sorted.len(),
        sorted[j].0@ == all[at].0@,
        sorted[j].1 == all[at].1,
{
    let v = (all[at].0@, all[at].1);
    assert(views_of(all)[at] == v);
    views_of(all).to_multiset_ensures();
    views_of(sorted).to_multiset_ensures();
    assert(views_of(all).contains(v));
    assert(views_of(all).to_multiset().count(v) > 0);
    assert(views_of(sorted).contains(v));
    let j = views_of(sorted).index_of(v);
    assert(views_of(sorted)[j] == v);
    j
}

proof fn lemma_lines_come_first(
    files: Seq<(String, u64)>,
    keep: Option<Seq<char>>,
    recent: nat,
    history: nat,
)
    ensures
        list_text(files, keep, recent, history).len() >= index_lines(files, keep).len(),
        list_text(files, keep, recent, history).take(index_lines(files, keep).len() as int)
            == index_lines(files, keep),
{
    let lines = index_lines(files, keep);
    let text = list_text(files, keep, recent, history);
    assert(text.take(lines.len() as int) =~= lines);
}

/// Only files with the extension of indexes are listed, and what was freed is told.
pub proof fn law_only_indexes_are_listed(
    files: Vec<(String, u64)>,
    r: Vec<(String, u64)>,
    k: int,
    freed: u64,
    status: String,
    size: String,
)
    requires
        call_ensures(only_indexes, (files,), r),
        call_ensures(cleared_status, (freed,), status),
        call_ensures(crate::native::paint::human_bytes, (freed,), size),
    ensures
        0 <= k < r@.len() ==> r@[k].0@.len() > 4 && r@[k].0@.skip(r@[k].0@.len() - 4) == ".qli"@,
        r@.len() <= files@.len(),
        status@ == "已清空缓存（"@ + size@ + " 释放）"@,
{
    reveal_strlit("qli");
    reveal_strlit(".qli");
    let p = |f: (String, u64)| is_index(f);
    let all = indexes_of(files@);
    files@.lemma_filter_len(p);
    assert(views_of(r@).len() == r@.len());
    assert(views_of(all).len() == all.len());
    if 0 <= k < r@.len() {
        files@.lemma_filter_pred(p, k);
        assert(views_of(r@)[k] == views_of(all)[k]);
        let n = r@[k].0@;
        assert(n.skip(n.len() - 4) =~= n.subrange(n.len() - 4, n.len() as int));
        assert(seq!['.'] + "qli"@ =~= ".qli"@);
    }
}

} // verus!
