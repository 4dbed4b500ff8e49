//! The main window: files that are dropped on it.

use vstd::prelude::*;

verus! {

broadcast use vstd::string::group_string_axioms;

/// State of the root view.
#[derive(Clone, Copy, Debug)]
pub struct RootViewIvars {}

/// What a drag over the window would do.
#[derive(Clone, Copy, PartialEq, Eq, Structural, Debug)]
pub enum DragOperation {
    Copy,
    Refuse,
}

/// What a drag over the window would do: only files can be dropped.
pub fn dragging_entered(has_file: bool) -> (r: DragOperation)
    ensures
        r == if has_file {
            DragOperation::Copy
        } else {
            DragOperation::Refuse
        },
{
    if has_file {
        DragOperation::Copy
    } else {
        DragOperation::Refuse
    }
}

/// `i` is the first entry that is a path.
pub open spec fn is_first_path(entries: Seq<Option<String>>, i: int) -> bool {
    &&& 0 <= i < entries.len()
    &&& entries[i] is Some
    &&& forall|k: int| 0 <= k < i ==> (#[trigger] entries[k]) is None
}

/// Path of the file that was dropped: the first of the list that is one, else
/// the single one.
pub fn read_dragged_path(list: &Vec<Option<String>>, single: Option<String>) -> (r: Option<String>)
    ensures
        forall|i: int| #[trigger]
            is_first_path(list@, i) ==> r is Some && r->0@ == list@[i]->0@,
        (forall|i: int| 0 <= i < list@.len() ==> (#[trigger] list@[i]) is None) ==> r == single,
{
    let mut i: usize = 0;
    while i < list.len()
        invariant
            i <= list@.len(),
            forall|k: int| 0 <= k < i ==> (#[trigger] list@[k]) is None,
        decreases list@.len() - i,
    {
        match &list[i] {
            Some(p) => {
                assert(list@[i as int] is Some);
                return Some(p.as_str().to_owned());
            },
            None => {},
        }
        i = i + 1;
    }
    single
}

/// Files can be dropped and nothing else; the first path of what is dropped is opened, and
/// a single one where the list holds none.
pub proof fn law_the_first_file_is_opened(
    list: &Vec<Option<String>>,
    single: Option<String>,
    r: Option<String>,
    i: int,
    with: DragOperation,
    without: DragOperation,
)
    requires
        call_ensures(read_dragged_path, (list, single), r),
        call_ensures(dragging_entered, (true,), with),
        call_ensures(dragging_entered, (false,), without),
    ensures
        0 <= i < list@.len() && list@[i] is Some && (forall|k: int|
            0 <= k < i ==> (#[trigger] list@[k]) is None) ==> r is Some && r->0@ == list@[i]->0@,
        (forall|k: int| 0 <= k < list@.len() ==> (#[trigger] list@[k]) is None) ==> r == single,
        with == DragOperation::Copy,
        without == DragOperation::Refuse,
{
    if 0 <= i < list@.len() && list@[i] is Some && (forall|k: int|
        0 <= k < i ==> (#[trigger] list@[k]) is None) {
        assert(is_first_path(list@, i));
    }
}

} // verus!
