//! The toolbar: which items it has, and what they are.

use vstd::prelude::*;

use crate::macos::menu::Action;
use crate::text::{is_listed, position, same_text, views};

verus! {

broadcast use vstd::string::group_string_axioms;

/// An item of the toolbar.
#[derive(Clone, Copy, PartialEq, Eq, Structural, Debug)]
pub enum Item {
    Open,
    Reload,
    Close,
    Search,
    Prev,
    Next,
    Goto,
    FontDec,
    FontInc,
    Stop,
}

/// Name by which the system knows an item.
pub open spec fn id_text(item: Item) -> Seq<char> {
    match item {
        Item::Open => "qlog.open"@,
        Item::Reload => "qlog.reload"@,
        Item::Close => "qlog.close"@,
        Item::Search => "qlog.search"@,
        Item::Prev => "qlog.prev"@,
        Item::Next => "qlog.next"@,
        Item::Goto => "qlog.goto"@,
        Item::FontDec => "qlog.font_dec"@,
        Item::FontInc => "qlog.font_inc"@,
        Item::Stop => "qlog.stop"@,
    }
}

/// Name by which the system knows an item.
pub fn id(item: Item) -> (r: &'static str)
    ensures
        r@ == id_text(item),
{
    match item {
        Item::Open => "qlog.open",
        Item::Reload => "qlog.reload",
        Item::Close => "qlog.close",
        Item::Search => "qlog.search",
        Item::Prev => "qlog.prev",
        Item::Next => "qlog.next",
        Item::Goto => "qlog.goto",
        Item::FontDec => "qlog.font_dec",
        Item::FontInc => "qlog.font_inc",
        Item::Stop => "qlog.stop",
    }
}

/// Name by which the system knows a space that stretches.
pub open spec fn flexible_space() -> Seq<char> {
    "NSToolbarFlexibleSpaceItemIdentifier"@
}

/// Names of the items of the toolbar from left to right.
pub open spec fn default_ids() -> Seq<Seq<char>> {
    seq![
        id_text(Item::Open),
        id_text(Item::Reload),
        id_text(Item::Close),
        flexible_space(),
        id_text(Item::Search),
        flexible_space(),
        id_text(Item::Prev),
        id_text(Item::Next),
        id_text(Item::Goto),
        id_text(Item::FontDec),
        id_text(Item::FontInc),
    ]
}

/// Names of the items, with or without that which stops.
pub fn identifiers_with_stop(with_stop: bool) -> (r: Vec<String>)
    ensures
        views(r@) == if with_stop {
            default_ids().push(id_text(Item::Stop))
        } else {
            default_ids()
        },
{
    let mut v: Vec<String> = Vec::new();
    v.push(id(Item::Open).to_owned());
    v.push(id(Item::Reload).to_owned());
    v.push(id(Item::Close).to_owned());
    v.push("NSToolbarFlexibleSpaceItemIdentifier".to_owned());
    v.push(id(Item::Search).to_owned());
    v.push("NSToolbarFlexibleSpaceItemIdentifier".to_owned());
    v.push(id(Item::Prev).to_owned());
    v.push(id(Item::Next).to_owned());
    v.push(id(Item::Goto).to_owned());
    v.push(id(Item::FontDec).to_owned());
    v.push(id(Item::FontInc).to_owned());
    assert(views(v@) =~= default_ids());
    if with_stop {
        v.push(id(Item::Stop).to_owned());
        assert(views(v@) =~= default_ids().push(id_text(Item::Stop)));
    }
    v
}

/// Names of the items that the toolbar begins with.
pub fn default_item_identifiers() -> (r: Vec<String>)
    ensures
        views(r@) == default_ids(),
{
    identifiers_with_stop(false)
}

/// Names of the items that the toolbar can have.
pub fn allowed_item_identifiers() -> (r: Vec<String>)
    ensures
        views(r@) == default_ids().push(id_text(Item::Stop)),
{
    identifiers_with_stop(true)
}

/// What an item looks like and does.
#[derive(Clone, Copy, PartialEq, Eq, Structural, Debug)]
pub enum ItemKind {
    /// A picture that acts when it is clicked.
    Button(Item),
    SearchField,
    GotoField,
    /// An item of the system.
    Other,
}

/// What the item of a name is.
pub open spec fn kind_of(name: Seq<char>) -> ItemKind {
    if name == id_text(Item::Open) {
        ItemKind::Button(Item::Open)
    } else if name == id_text(Item::Reload) {
        ItemKind::Button(Item::Reload)
    } else if name == id_text(Item::Close) {
        ItemKind::Button(Item::Close)
    } else if name == id_text(Item::Prev) {
        ItemKind::Button(Item::Prev)
    } else if name == id_text(Item::Next) {
        ItemKind::Button(Item::Next)
    } else if name == id_text(Item::FontDec) {
        ItemKind::Button(Item::FontDec)
    } else if name == id_text(Item::FontInc) {
        ItemKind::Button(Item::FontInc)
    } else if name == id_text(Item::Stop) {
        ItemKind::Button(Item::Stop)
    } else if name == id_text(Item::Search) {
        ItemKind::SearchField
    } else if name == id_text(Item::Goto) {
        ItemKind::GotoField
    } else {
        ItemKind::Other
    }
}

/// What the item of a name is.
pub fn item_for_identifier(name: &str) -> (r: ItemKind)
    ensures
        r == kind_of(name@),
{
    if same_text(name, id(Item::Open)) {
        ItemKind::Button(Item::Open)
    } else if same_text(name, id(Item::Reload)) {
        ItemKind::Button(Item::Reload)
    } else if same_text(name, id(Item::Close)) {
        ItemKind::Button(Item::Close)
    } else if same_text(name, id(Item::Prev)) {
        ItemKind::Button(Item::Prev)
    } else if same_text(name, id(Item::Next)) {
        ItemKind::Button(Item::Next)
    } else if same_text(name, id(Item::FontDec)) {
        ItemKind::Button(Item::FontDec)
    } else if same_text(name, id(Item::FontInc)) {
        ItemKind::Button(Item::FontInc)
    } else if same_text(name, id(Item::Stop)) {
        ItemKind::Button(Item::Stop)
    } else if same_text(name, id(Item::Search)) {
        ItemKind::SearchField
    } else if same_text(name, id(Item::Goto)) {
        ItemKind::GotoField
    } else {
        ItemKind::Other
    }
}

/// Name of the picture, label and action of an item.
pub fn look(item: Item) -> (r: (&'static str, &'static str, Action))
    ensures
        match item {
            Item::Open => r.0@ == "folder"@ && r.1@ == "打开"@ && r.2 == Action::OpenDocument,
            Item::Reload => r.0@ == "arrow.clockwise"@ && r.1@ == "重新加载"@ && r.2
                == Action::ReloadDocument,
            Item::Close => r.0@ == "xmark"@ && r.1@ == "关闭"@ && r.2 == Action::CloseDocument,
            Item::Prev => r.0@ == "chevron.up"@ && r.1@ == "查找上一个"@ && r.2
                == Action::FindPrevious,
            Item::Next => r.0@ == "chevron.down"@ && r.1@ == "查找下一个"@ && r.2
                == Action::FindNext,
            Item::FontDec => r.0@ == "textformat.size.smaller"@ && r.1@ == "字体减小"@ && r.2
                == Action::FontSmaller,
            Item::FontInc => r.0@ == "textformat.size.larger"@ && r.1@ == "字体加大"@ && r.2
                == Action::FontBigger,
            Item::Stop => r.0@ == "xmark.circle.fill"@ && r.1@ == "停止"@ && r.2
                == Action::CancelTasks,
            Item::Search => r.0@ == ""@ && r.1@ == "搜索"@ && r.2 == Action::SubmitSearch,
            Item::Goto => r.0@ == ""@ && r.1@ == "跳转到行"@ && r.2 == Action::GotoSubmit,
        },
{
    match item {
        Item::Open => ("folder", "打开", Action::OpenDocument),
        Item::Reload => ("arrow.clockwise", "重新加载", Action::ReloadDocument),
        Item::Close => ("xmark", "关闭", Action::CloseDocument),
        Item::Prev => ("chevron.up", "查找上一个", Action::FindPrevious),
        Item::Next => ("chevron.down", "查找下一个", Action::FindNext),
        Item::FontDec => ("textformat.size.smaller", "字体减小", Action::FontSmaller),
        Item::FontInc => ("textformat.size.larger", "字体加大", Action::FontBigger),
        Item::Stop => ("xmark.circle.fill", "停止", Action::CancelTasks),
        Item::Search => ("", "搜索", Action::SubmitSearch),
        Item::Goto => ("", "跳转到行", Action::GotoSubmit),
    }
}

/// Names without that of the item that stops.
pub open spec fn without_stop(ids: Seq<Seq<char>>) -> Seq<Seq<char>> {
    ids.filter(|s: Seq<char>| s != id_text(Item::Stop))
}

/// Names of the items after that which stops was shown or taken away; `None`
/// where nothing changes.
pub fn set_stop_visible(ids: &Vec<String>, visible: bool) -> (r: Option<Vec<String>>)
    ensures
        match r {
            Some(new_ids) => {
                &&& visible != is_listed(ids@, id_text(Item::Stop))
                &&& views(new_ids@) == if visible {
                    views(ids@).push(id_text(Item::Stop))
                } else {
                    without_stop(views(ids@))
                }
            },
            None => visible == is_listed(ids@, id_text(Item::Stop)),
        },
{
    let has: bool = position(ids, id(Item::Stop)).is_some();
    if visible == has {
        return None;
    }
    let ghost all = views(ids@);
    let mut out: Vec<String> = Vec::new();
    let mut i: usize = 0;
    assert(all.take(0) =~= Seq::empty());
    assert(without_stop(all.take(0)) =~= Seq::empty()) by {
        reveal(Seq::filter);
    }
    assert(views(out@) =~= Seq::empty());
    while i < ids.len()
        invariant
            i <= ids@.len(),
            all == views(ids@),
            visible ==> views(out@) == all.take(i as int),
            !visible ==> views(out@) == without_stop(all.take(i as int)),
        decreases ids@.len() - i,
    {
        let ghost before = out@;
        let s: String = ids[i].as_str().to_owned();
        let ghost text = s@;
        let drop: bool = !visible && same_text(s.as_str(), id(Item::Stop));
        proof {
            assert(all.take(i + 1).drop_last() =~= all.take(i as int));
            assert(all.take(i + 1) =~= all.take(i as int).push(text));
            assert(without_stop(all.take(i + 1)) == if text != id_text(Item::Stop) {
                without_stop(all.take(i as int)).push(text)
            } else {
                without_stop(all.take(i as int))
            }) by {
                reveal(Seq::filter);
            }
        }
        if !drop {
            out.push(s);
            assert(views(out@) =~= views(before).push(text));
        }
        i = i + 1;
    }
    assert(all.take(all.len() as int) =~= all);
    if visible {
        let ghost before = out@;
        out.push(id(Item::Stop).to_owned());
        assert(views(out@) =~= views(before).push(id_text(Item::Stop)));
    }
    Some(out)
}

/// Taking away what was just shown gives the items that were there before.
pub proof fn law_stop_goes_away(ids: Seq<Seq<char>>)
    requires
        !ids.contains(id_text(Item::Stop)),
    ensures
        without_stop(ids.push(id_text(Item::Stop))) == ids,
    decreases ids.len(),
{
    let p = |s: Seq<char>| s != id_text(Item::Stop);
    let shown = ids.push(id_text(Item::Stop));
    assert(shown.drop_last() =~= ids);
    assert(without_stop(shown) == without_stop(ids)) by {
        reveal(Seq::filter);
    }
    lemma_keeps_all(ids);
}

proof fn lemma_keeps_all(ids: Seq<Seq<char>>)
    requires
        !ids.contains(id_text(Item::Stop)),
    ensures
        without_stop(ids) == ids,
    decreases ids.len(),
{
    reveal(Seq::filter);
    if ids.len() > 0 {
        assert(ids.contains(ids.last()));
        assert forall|s: Seq<char>| ids.drop_last().contains(s) implies ids.contains(s) by {
            let i = ids.drop_last().index_of(s);
            assert(ids[i] == s);
        }
        lemma_keeps_all(ids.drop_last());
        assert(ids.drop_last().push(ids.last()) =~= ids);
    } else {
        assert(without_stop(ids) =~= ids);
    }
}

/// Every item is found by its name: a button by that of a button, and the two fields by
/// theirs.
pub proof fn law_items_are_found_by_name(item: Item, name: &'static str, r: ItemKind)
    requires
        call_ensures(id, (item,), name),
        call_ensures(item_for_identifier, (name,), r),
    ensures
        item is Search ==> r is SearchField,
        item is Goto ==> r is GotoField,
        !(item is Search) && !(item is Goto) ==> r == ItemKind::Button(item),
{
    reveal_strlit("qlog.open");
    reveal_strlit("qlog.reload");
    reveal_strlit("qlog.close");
    reveal_strlit("qlog.search");
    reveal_strlit("qlog.prev");
    reveal_strlit("qlog.next");
    reveal_strlit("qlog.goto");
    reveal_strlit("qlog.font_dec");
    reveal_strlit("qlog.font_inc");
    reveal_strlit("qlog.stop");
    let n = name@;
    assert(n.len() > 6);
    if n == id_text(Item::Open) {
        assert(n[5] == 'o');
    }
    if n == id_text(Item::Reload) {
        assert(n[5] == 'r');
    }
    if n == id_text(Item::Close) {
        assert(n[5] == 'c');
    }
    if n == id_text(Item::Prev) {
        assert(n[5] == 'p');
    }
    if n == id_text(Item::Next) {
        assert(n[5] == 'n');
    }
    if n == id_text(Item::Goto) {
        assert(n[5] == 'g');
    }
    if n == id_text(Item::FontDec) {
        assert(n[5] == 'f' && n[10] == 'd');
    }
    if n == id_text(Item::FontInc) {
        assert(n[5] == 'f' && n[10] == 'i');
    }
    if n == id_text(Item::Stop) {
        assert(n[5] == 's' && n[6] == 't');
    }
    if n == id_text(Item::Search) {
        assert(n[5] == 's' && n[6] == 'e');
    }
}

/// Every button does what its label says.
pub proof fn law_items_do_what_they_say(item: Item, r: (&'static str, &'static str, Action))
    requires
        call_ensures(look, (item,), r),
    ensures
        item is Open ==> r.2 is OpenDocument && r.1@ == "打开"@,
        item is Reload ==> r.2 is ReloadDocument && r.1@ == "重新加载"@,
        item is Close ==> r.2 is CloseDocument && r.1@ == "关闭"@,
        item is Prev ==> r.2 is FindPrevious && r.1@ == "查找上一个"@,
        item is Next ==> r.2 is FindNext && r.1@ == "查找下一个"@,
        item is FontDec ==> r.2 is FontSmaller && r.1@ == "字体减小"@,
        item is FontInc ==> r.2 is FontBigger && r.1@ == "字体加大"@,
        item is Stop ==> r.2 is CancelTasks && r.1@ == "停止"@,
        item is Search ==> r.2 is SubmitSearch && r.1@ == "搜索"@,
        item is Goto ==> r.2 is GotoSubmit && r.1@ == "跳转到行"@,
{
}

/// The button that stops the work is put at the end where it is wanted and taken away where
/// it is not; nothing else changes, and nothing at all where it is as wanted.
pub proof fn law_the_stop_button_comes_and_goes(
    ids: &Vec<String>,
    visible: bool,
    r: Option<Vec<String>>,
    stop: &'static str,
    name: Seq<char>,
)
    requires
        call_ensures(set_stop_visible, (ids, visible), r),
        call_ensures(id, (Item::Stop,), stop),
    ensures
        visible && views(ids@).contains(stop@) ==> r is None,
        !visible && !views(ids@).contains(stop@) ==> r is None,
        visible && !views(ids@).contains(stop@) ==> r is Some && views(r->0@) == views(ids@).push(
            stop@,
        ),
        !visible && views(ids@).contains(stop@) ==> r is Some && !views(r->0@).contains(stop@) && (
        name != stop@ ==> views(r->0@).contains(name) == views(ids@).contains(name)),
{
    let v = views(ids@);
    assert(is_listed(ids@, stop@) == v.contains(stop@)) by {
        if is_listed(ids@, stop@) {
            let i = choose|i: int| 0 <= i < ids@.len() && (#[trigger] ids@[i])@ == stop@;
            assert(v[i] == stop@);
        }
        if v.contains(stop@) {
            let i = v.index_of(stop@);
            assert(ids@[i]@ == stop@);
        }
    }
    if !visible && v.contains(stop@) {
        let p = |s: Seq<char>| s != id_text(Item::Stop);
        let w = v.filter(p);
        if w.contains(stop@) {
            let i = w.index_of(stop@);
            v.lemma_filter_pred(p, i);
        }
        if name != stop@ {
            if v.contains(name) {
                let i = v.index_of(name);
                v.lemma_filter_contains(p, i);
            }
            if w.contains(name) {
                v.lemma_filter_contains_rev(p, name);
            }
        }
    }
}

/// The toolbar has its items in their order, and the button that stops the work last where it
/// is shown; it may hold every one of them.
pub proof fn law_the_toolbar_has_its_items(
    plain: Vec<String>,
    with_stop: Vec<String>,
    first: Vec<String>,
    allowed: Vec<String>,
    stop: &'static str,
    open: &'static str,
    search: &'static str,
)
    requires
        call_ensures(identifiers_with_stop, (false,), plain),
        call_ensures(identifiers_with_stop, (true,), with_stop),
        call_ensures(default_item_identifiers, (), first),
        call_ensures(allowed_item_identifiers, (), allowed),
        call_ensures(id, (Item::Stop,), stop),
        call_ensures(id, (Item::Open,), open),
        call_ensures(id, (Item::Search,), search),
    ensures
        views(first@) == views(plain@),
        views(with_stop@) == views(plain@).push(stop@),
        views(allowed@) == views(with_stop@),
        plain@.len() == 11,
        plain@[0]@ == open@,
        plain@[4]@ == search@,
{
    let v = views(plain@);
    assert(v.len() == plain@.len());
    assert(v[0] == plain@[0]@ && v[4] == plain@[4]@);
}

} // verus!
