//! Writing an annotation, and the list of annotations.

use vstd::prelude::*;

use crate::decimal::{decimal, push_decimal};
use crate::native::annotations::Annotation;
use crate::native::geom::Rect;
use crate::native::selection::Selection;
use crate::native::theme::{Rgb, ThemeColors};
use crate::native::widgets::{BtnKind, BtnState, Button};
use crate::text::{first_chars, first_of, maybe_text};

verus! {

broadcast use vstd::string::group_string_axioms;

pub const EDIT_WIDTH: i32 = 420;

pub const EDIT_HEIGHT: i32 = 360;

pub const LIST_WIDTH: i32 = 470;

pub const LIST_HEIGHT: i32 = 430;

/// Height of an entry of the list.
pub const ROW_H: i32 = 56;

/// Pixel row of the first entry of the list.
pub const LIST_TOP: i32 = 48;

/// Most characters of a selection that are taken over.
pub const TAKEN: usize = 300;

/// Most characters of an annotated text that are shown.
pub const SHOWN: usize = 400;

/// `i` is the first annotation of a number.
pub open spec fn is_annotation_at(list: Seq<Annotation>, id: u64, i: int) -> bool {
    &&& 0 <= i < list.len()
    &&& list[i].id == id
    &&& forall|k: int| 0 <= k < i ==> (#[trigger] list[k]).id != id
}

/// No annotation has the number.
pub open spec fn has_no_annotation(list: Seq<Annotation>, id: u64) -> bool {
    forall|i: int| 0 <= i < list.len() ==> (#[trigger] list[i]).id != id
}

/// First annotation of a number.
pub fn find_annotation(list: &Vec<Annotation>, id: u64) -> (r: Option<usize>)
    ensures
        r is Some ==> is_annotation_at(list@, id, r->0 as int),
        r is None ==> has_no_annotation(list@, id),
{
    let mut i: usize = 0;
    while i < list.len()
        invariant
            i <= list@.len(),
            forall|k: int| 0 <= k < i ==> (#[trigger] list@[k]).id != id,
        decreases list@.len() - i,
    {
        if list[i].id == id {
            return Some(i);
        }
        i = i + 1;
    }
    None
}

/// What the dialog that writes an annotation shows.
pub struct EditView {
    pub title: String,
    /// Stands above the annotated text.
    pub caption: String,
    pub preview: String,
    pub note: String,
}

/// The annotated text that is shown: that of the annotation where there is one,
/// else the beginning of the selection.
pub open spec fn preview_text(found: Option<Annotation>, copied: Option<Seq<char>>) -> Seq<char> {
    match found {
        Some(a) => a.selected_text@,
        None => match copied {
            Some(t) => first_of(t, TAKEN as nat),
            None => Seq::empty(),
        },
    }
}

/// `found` is the annotation that is changed, if there is one.
pub open spec fn is_edited(list: Seq<Annotation>, edit_id: Option<u64>, found: Option<Annotation>) -> bool {
    match found {
        Some(a) => is_annotation(list, edited_id(edit_id), a),
        None => has_no_annotation(list, edited_id(edit_id)),
    }
}

/// Number of the annotation that is edited; a new one has none.
pub open spec fn edited_id(edit_id: Option<u64>) -> u64 {
    match edit_id {
        Some(id) => id,
        None => 0,
    }
}

/// `a` is the first annotation with the number.
pub open spec fn is_annotation(list: Seq<Annotation>, id: u64, a: Annotation) -> bool {
    exists|i: int| #[trigger] is_annotation_at(list, id, i) && a == list[i]
}

/// The dialog shows the annotation that is edited, or what was selected for a new one.
pub open spec fn is_edit_view(
    list: Seq<Annotation>,
    edit_id: Option<u64>,
    copied: Option<Seq<char>>,
    r: EditView,
) -> bool {
    forall|found: Option<Annotation>| #[trigger]
        is_edited(list, edit_id, found) ==> {
            let text = preview_text(found, copied);
            &&& r.preview@ == first_of(text, SHOWN as nat)
            &&& r.caption@ == if text.len() == 0 {
                "（请先在日志中选中内容）"@
            } else {
                "选中内容："@
            }
            &&& r.note@ == match found {
                Some(a) => a.text@,
                None => Seq::empty(),
            }
        }
}

/// What the dialog that writes an annotation shows: `edit_id` is the annotation
/// to change, `copied` the selected text.
pub fn show_annotation_edit(
    list: &Vec<Annotation>,
    edit_id: Option<u64>,
    copied: Option<&str>,
) -> (r: EditView)
    ensures
        r.title@ == if edit_id is Some {
            "编辑批注"@
        } else {
            "添加批注"@
        },
        is_edit_view(list@, edit_id, maybe_text(copied), r),
{
    let title: String = match edit_id {
        Some(_) => "编辑批注".to_owned(),
        None => "添加批注".to_owned(),
    };
    let id: u64 = match edit_id {
        Some(id) => id,
        None => 0,
    };
    let found: Option<usize> = find_annotation(list, id);
    let ghost annotation: Option<Annotation> = match found {
        Some(i) => Some(list@[i as int]),
        None => None,
    };
    let (text, note): (String, String) = match found {
        Some(i) => (
            list[i].selected_text.as_str().to_owned(),
            list[i].text.as_str().to_owned(),
        ),
        None => match copied {
            Some(t) => (first_chars(t, TAKEN), String::new()),
            None => (String::new(), String::new()),
        },
    };
    assert(text@ =~= preview_text(annotation, maybe_text(copied)));
    proof {
        assert forall|other: Option<Annotation>| #[trigger]
            is_edited(list@, edit_id, other) implies other == annotation by {
            lemma_one_annotation(list@, edit_id, annotation, other);
        }
    }
    assert(found is None ==> note@ =~= Seq::empty());
    let caption: String = if text.as_str().is_empty() {
        "（请先在日志中选中内容）".to_owned()
    } else {
        "选中内容：".to_owned()
    };
    let preview: String = first_chars(text.as_str(), SHOWN);
    EditView { title, caption, preview, note }
}

proof fn lemma_one_annotation(
    list: Seq<Annotation>,
    edit_id: Option<u64>,
    a: Option<Annotation>,
    b: Option<Annotation>,
)
    requires
        is_edited(list, edit_id, a),
        is_edited(list, edit_id, b),
    ensures
        a == b,
{
    let id = match edit_id {
        Some(id) => id,
        None => 0,
    };
    if a is Some && b is Some {
        let i = choose|i: int| #[trigger] is_annotation_at(list, id, i) && a->0 == list[i];
        let j = choose|j: int| #[trigger] is_annotation_at(list, id, j) && b->0 == list[j];
        if i < j {
            assert(list[i].id != id);
        } else if j < i {
            assert(list[j].id != id);
        }
    }
}

/// What saving an annotation does.
#[derive(Clone, Copy, PartialEq, Eq, Structural, Debug)]
pub enum SaveAction {
    /// Says that a note is needed.
    EmptyNote,
    /// Does nothing.
    Nothing,
    /// Changes the note of an annotation.
    Change(u64),
    /// Adds an annotation of the selection.
    Add,
    /// There is nothing to annotate.
    NoSelection,
}

/// What saving does. `place_known` says that the bytes of the selection could be
/// found.
pub fn save_action(
    note: &str,
    file_open: bool,
    edit_id: Option<u64>,
    has_selection: bool,
    place_known: bool,
) -> (r: SaveAction)
    ensures
        r == if note@.len() == 0 {
            SaveAction::EmptyNote
        } else if !file_open {
            SaveAction::Nothing
        } else if edit_id is Some {
            SaveAction::Change(edit_id->0)
        } else if !has_selection {
            SaveAction::NoSelection
        } else if place_known {
            SaveAction::Add
        } else {
            SaveAction::Nothing
        },
{
    if note.is_empty() {
        return SaveAction::EmptyNote;
    }
    if !file_open {
        return SaveAction::Nothing;
    }
    match edit_id {
        Some(id) => SaveAction::Change(id),
        None => if !has_selection {
            SaveAction::NoSelection
        } else if place_known {
            SaveAction::Add
        } else {
            SaveAction::Nothing
        },
    }
}

/// What the status bar says after saving, where it says anything.
pub fn save_status(action: SaveAction) -> (r: Option<&'static str>)
    ensures
        match action {
            SaveAction::EmptyNote => r is Some && r->0@ == "批注内容不能为空"@,
            SaveAction::Nothing => r is None,
            _ => r is Some && r->0@ == "批注已保存"@,
        },
{
    match action {
        SaveAction::EmptyNote => Some("批注内容不能为空"),
        SaveAction::Nothing => None,
        _ => Some("批注已保存"),
    }
}

/// What the status bar says where the list would be empty.
pub fn empty_list_status(list: &Vec<Annotation>) -> (r: Option<&'static str>)
    ensures
        r is Some <==> list@.len() == 0,
        r is Some ==> r->0@ == "当前文件还没有批注"@,
{
    if list.len() == 0 {
        Some("当前文件还没有批注")
    } else {
        None
    }
}

/// Lines of an annotation, counted from 1.
pub open spec fn lines_text(a: Annotation) -> Seq<char> {
    "行 "@ + decimal((a.start_line + 1) as nat) + "–"@ + decimal((a.end_line + 1) as nat)
}

/// Heading of an entry of the list.
pub open spec fn entry_title(a: Annotation) -> Seq<char> {
    if a.stale {
        "⚠️ "@ + lines_text(a) + "（位置已失效）"@
    } else {
        lines_text(a)
    }
}

/// An entry of the list.
pub struct ListEntry {
    pub rect: Rect,
    pub chosen: bool,
    pub title: String,
    pub title_color: Rgb,
    pub preview: String,
    /// Empty where nothing was noted.
    pub note: String,
}

/// Place of an entry.
pub open spec fn entry_rect(i: int) -> Rect {
    Rect {
        left: 12,
        top: (LIST_TOP + i * ROW_H) as i32,
        right: (LIST_WIDTH - 12) as i32,
        bottom: (LIST_TOP + i * ROW_H + ROW_H - 4) as i32,
    }
}

/// Entries that have a place in the list.
pub open spec fn shown_entries(len: nat) -> nat {
    if len <= 6 {
        len
    } else {
        6
    }
}

/// The entries of the list; `sel` is the chosen one.
pub fn show_annotation_list(list: &Vec<Annotation>, sel: i32, theme: &ThemeColors) -> (r: Vec<
    ListEntry,
>)
    requires
        forall|i: int|
            0 <= i < list@.len() ==> (#[trigger] list@[i]).start_line < u64::MAX && list@[i].end_line
                < u64::MAX,
    ensures
        r@.len() == shown_entries(list@.len()),
        forall|i: int|
            0 <= i < r@.len() ==> {
                let e = #[trigger] r@[i];
                let a = list@[i];
                &&& e.rect == entry_rect(i)
                &&& e.chosen == (i == sel)
                &&& e.title@ == entry_title(a)
                &&& e.title_color == if a.stale {
                    theme.warning
                } else {
                    theme.text_primary
                }
                &&& e.preview@ == first_of(a.selected_text@, 40)
                &&& e.note@ == first_of(a.text@, 28)
            },
{
    let mut out: Vec<ListEntry> = Vec::new();
    let mut y: i32 = LIST_TOP;
    let mut i: usize = 0;
    while i < list.len() && y <= LIST_HEIGHT - 60
        invariant
            i <= list@.len(),
            i <= 6,
            y == LIST_TOP + i * ROW_H,
            out@.len() == i,
            forall|k: int|
                0 <= k < list@.len() ==> (#[trigger] list@[k]).start_line < u64::MAX
                    && list@[k].end_line < u64::MAX,
            forall|k: int|
                0 <= k < i ==> {
                    let e = #[trigger] out@[k];
                    let a = list@[k];
                    &&& e.rect == entry_rect(k)
                    &&& e.chosen == (k == sel)
                    &&& e.title@ == entry_title(a)
                    &&& e.title_color == if a.stale {
                        theme.warning
                    } else {
                        theme.text_primary
                    }
                    &&& e.preview@ == first_of(a.selected_text@, 40)
                    &&& e.note@ == first_of(a.text@, 28)
                },
        decreases list@.len() - i,
    {
        let a: &Annotation = &list[i];
        assert(list@[i as int].start_line < u64::MAX);
        let mut title = String::new();
        if a.stale {
            title.append("⚠️ ");
        }
        title.append("行 ");
        push_decimal(&mut title, a.start_line + 1);
        title.append("–");
        push_decimal(&mut title, a.end_line + 1);
        if a.stale {
            title.append("（位置已失效）");
        }
        assert(title@ =~= entry_title(*a));
        let color: Rgb = if a.stale {
            theme.warning
        } else {
            theme.text_primary
        };
        out.push(
            ListEntry {
                rect: Rect { left: 12, top: y, right: LIST_WIDTH - 12, bottom: y + ROW_H - 4 },
                chosen: sel >= 0 && i == sel as usize,
                title,
                title_color: color,
                preview: first_chars(a.selected_text.as_str(), 40),
                note: first_chars(a.text.as_str(), 28),
            },
        );
        y = y + ROW_H;
        i = i + 1;
    }
    out
}

/// Entry of a list of `len` annotations that a press chooses.
pub fn entry_at(x: i32, y: i32, len: usize) -> (r: Option<usize>)
    ensures
        r == if 12 <= x <= LIST_WIDTH - 12 && LIST_TOP <= y < LIST_HEIGHT - 60 && ((y
            - LIST_TOP) / (ROW_H as int)) < len {
            Some(((y - LIST_TOP) / ROW_H as int) as usize)
        } else {
            None
        },
{
    if x < 12 || x > LIST_WIDTH - 12 || y < LIST_TOP || y >= LIST_HEIGHT - 60 {
        return None;
    }
    let i: usize = ((y - LIST_TOP) / ROW_H) as usize;
    if i < len {
        Some(i)
    } else {
        None
    }
}

/// What a button of the list does.
#[derive(Clone, Copy, PartialEq, Eq, Structural, Debug)]
pub enum ListAction {
    Edit(u64),
    Jump(u64),
    Close,
    Nothing,
}

/// What a button of the list does with the chosen entry.
pub fn list_action(button: usize, list: &Vec<Annotation>, sel: i32) -> (r: ListAction)
    requires
        sel < list@.len(),
    ensures
        r == if button > 1 {
            ListAction::Close
        } else if sel < 0 {
            ListAction::Nothing
        } else if button == 0 {
            ListAction::Edit(list@[sel as int].id)
        } else {
            ListAction::Jump(list@[sel as int].id)
        },
{
    if button > 1 {
        ListAction::Close
    } else if sel < 0 {
        ListAction::Nothing
    } else if button == 0 {
        ListAction::Edit(list[sel as usize].id)
    } else {
        ListAction::Jump(list[sel as usize].id)
    }
}

/// Where a jump to an annotation leads.
pub struct JumpTo {
    pub line: u64,
    pub selection: Selection,
    pub status: String,
}

/// Jumps to an annotation: its first line is shown and its text selected.
pub fn jump_to(a: &Annotation) -> (r: JumpTo)
    requires
        a.start_line < u64::MAX,
    ensures
        r.line == a.start_line,
        r.selection == (Selection {
            start_line: a.start_line,
            start_col: a.start_col,
            end_line: a.end_line,
            end_col: a.end_col,
        }),
        r.status@ == "跳转到批注 · 行 "@ + decimal((a.start_line + 1) as nat),
{
    let mut status: String = "跳转到批注 · 行 ".to_owned();
    push_decimal(&mut status, a.start_line + 1);
    JumpTo {
        line: a.start_line,
        selection: Selection {
            start_line: a.start_line,
            start_col: a.start_col,
            end_line: a.end_line,
            end_col: a.end_col,
        },
        status,
    }
}

/// The buttons of the dialog that writes an annotation.
pub fn edit_buttons() -> (r: Vec<Button>)
    ensures
        r@.len() == 2,
        r@[0].rect == (Rect { left: 100, top: 310, right: 180, bottom: 342 }),
        r@[0].kind == BtnKind::Primary && r@[0].label@ == "保存"@,
        r@[1].rect == (Rect { left: 220, top: 310, right: 300, bottom: 342 }),
        r@[1].kind == BtnKind::Neutral && r@[1].label@ == "取消"@,
        r@[0].state == BtnState::Normal && r@[1].state == BtnState::Normal,
{
    let y: i32 = EDIT_HEIGHT - 50;
    let mut v: Vec<Button> = Vec::new();
    v.push(
        Button::new(
            Rect { left: 100, top: y, right: 180, bottom: y + 32 },
            BtnKind::Primary,
            "保存",
        ),
    );
    v.push(
        Button::new(
            Rect { left: 220, top: y, right: 300, bottom: y + 32 },
            BtnKind::Neutral,
            "取消",
        ),
    );
    v
}

/// The buttons of the list.
pub fn list_buttons() -> (r: Vec<Button>)
    ensures
        r@.len() == 3,
        r@[0].rect == (Rect { left: 120, top: 380, right: 210, bottom: 412 }),
        r@[0].kind == BtnKind::Secondary && r@[0].label@ == "编辑所选"@,
        r@[1].rect == (Rect { left: 240, top: 380, right: 330, bottom: 412 }),
        r@[1].kind == BtnKind::Primary && r@[1].label@ == "跳转"@,
        r@[2].rect == (Rect { left: 380, top: 380, right: 454, bottom: 412 }),
        r@[2].kind == BtnKind::Neutral && r@[2].label@ == "关闭"@,
        forall|i: int| 0 <= i < 3 ==> (#[trigger] r@[i]).state == BtnState::Normal,
{
    let mut v: Vec<Button> = Vec::new();
    v.push(
        Button::new(
            Rect { left: 120, top: LIST_HEIGHT - 50, right: 210, bottom: LIST_HEIGHT - 18 },
            BtnKind::Secondary,
            "编辑所选",
        ),
    );
    v.push(
        Button::new(
            Rect { left: 240, top: LIST_HEIGHT - 50, right: 330, bottom: LIST_HEIGHT - 18 },
            BtnKind::Primary,
            "跳转",
        ),
    );
    v.push(
        Button::new(
            Rect {
                left: 380,
                top: LIST_HEIGHT - 50,
                right: LIST_WIDTH - 16,
                bottom: LIST_HEIGHT - 18,
            },
            BtnKind::Neutral,
            "关闭",
        ),
    );
    v
}

/// A press on an entry that is painted chooses that entry.
pub proof fn law_press_chooses_what_is_painted(x: i32, y: i32, i: int, len: nat)
    requires
        0 <= i < shown_entries(len),
        entry_rect(i).holds(x, y),
        y < LIST_HEIGHT - 60,
    ensures
        12 <= x <= LIST_WIDTH - 12,
        LIST_TOP <= y,
        (y - LIST_TOP) / ROW_H as int == i,
        i < len,
{
}

/// An annotation is found by its number, the first one where there are several.
pub proof fn law_annotations_are_found(list: &Vec<Annotation>, id: u64, r: Option<usize>, k: int)
    requires
        call_ensures(find_annotation, (list, id), r),
    ensures
        0 <= k < list@.len() && list@[k].id == id ==> r is Some && r->0 <= k,
        r is Some ==> r->0 < list@.len() && list@[r->0 as int].id == id,
{
}

/// Editing an annotation shows its own text and its own note; a new one shows what was
/// selected and has no note yet.
pub proof fn law_edited_annotations_are_shown(
    list: &Vec<Annotation>,
    id: u64,
    copied: Option<&str>,
    r: EditView,
    fresh: EditView,
    k: int,
)
    requires
        call_ensures(show_annotation_edit, (list, Some(id), copied), r),
        call_ensures(show_annotation_edit, (list, None, copied), fresh),
        0 <= k < list@.len(),
        list@[k].id == id,
        forall|i: int| 0 <= i < k ==> (#[trigger] list@[i]).id != id,
        forall|i: int| 0 <= i < list@.len() ==> (#[trigger] list@[i]).id != 0,
    ensures
        r.title@ == "编辑批注"@ && fresh.title@ == "添加批注"@,
        r.note@ == list@[k].text@,
        list@[k].selected_text@.len() <= 400 ==> r.preview@ == list@[k].selected_text@,
        list@[k].selected_text@.len() > 400 ==> r.preview@ == list@[k].selected_text@.take(400),
        fresh.note@.len() == 0,
        copied is Some && copied->0@.len() <= 300 ==> fresh.preview@ == copied->0@,
        copied is Some && copied->0@.len() > 300 ==> fresh.preview@ == copied->0@.take(300),
        copied is None || copied->0@.len() == 0 ==> fresh.caption@
            == "（请先在日志中选中内容）"@,
        copied is Some && copied->0@.len() > 0 ==> fresh.caption@ == "选中内容："@,
{
    assert(is_annotation_at(list@, id, k));
    assert(is_annotation(list@, id, list@[k]));
    assert(is_edited(list@, Some(id), Some(list@[k])));
    assert(has_no_annotation(list@, 0));
    assert(is_edited(list@, None, None));
}

/// A note is saved where it has a text and the file is open: as a change of the annotation
/// that is edited, or as a new one at what is selected.
pub proof fn law_notes_are_saved(
    note: &str,
    file_open: bool,
    edit_id: Option<u64>,
    selected: bool,
    known: bool,
    r: SaveAction,
    status: Option<&'static str>,
)
    requires
        call_ensures(save_action, (note, file_open, edit_id, selected, known), r),
        call_ensures(save_status, (r,), status),
    ensures
        (r is EmptyNote) == (note@.len() == 0),
        (r is Change) == (note@.len() > 0 && file_open && edit_id is Some),
        r is Change ==> r->Change_0 == edit_id->0,
        (r is Add) == (note@.len() > 0 && file_open && edit_id is None && selected && known),
        (r is NoSelection) == (note@.len() > 0 && file_open && edit_id is None && !selected),
        r is EmptyNote ==> status is Some && status->0@ == "批注内容不能为空"@,
        r is Change || r is Add ==> status is Some && status->0@ == "批注已保存"@,
        r is Nothing ==> status is None,
{
}

/// The list shows the first six annotations with their lines counted from one, and a press
/// on an entry chooses it.
pub proof fn law_listed_annotations_are_chosen(
    list: &Vec<Annotation>,
    sel: i32,
    theme: &ThemeColors,
    r: Vec<ListEntry>,
    i: int,
    from: String,
    to: String,
    x: i32,
    y: i32,
    len: usize,
    chosen: Option<usize>,
)
    requires
        call_ensures(show_annotation_list, (list, sel, theme), r),
        forall|k: int|
            0 <= k < list@.len() ==> (#[trigger] list@[k]).start_line < u64::MAX && list@[
                k
            ].end_line < u64::MAX,
        0 <= i < r@.len(),
        call_ensures(
            crate::decimal::decimal_string,
            ((list@[i].start_line + 1) as u64,),
            from,
        ),
        call_ensures(crate::decimal::decimal_string, ((list@[i].end_line + 1) as u64,), to),
        len == list@.len(),
        r@[i].rect.holds(x, y),
        y < 370,
        call_ensures(entry_at, (x, y, len), chosen),
    ensures
        r@.len() <= 6,
        list@.len() <= 6 ==> r@.len() == list@.len(),
        !list@[i].stale ==> r@[i].title@ == "行 "@ + from@ + "–"@ + to@ && r@[i].title_color
            == theme.text_primary,
        list@[i].stale ==> r@[i].title@ == "⚠️ "@ + ("行 "@ + from@ + "–"@ + to@)
            + "（位置已失效）"@ && r@[i].title_color == theme.warning,
        r@[i].chosen == (i == sel),
        chosen == Some(i as usize),
        list@[i].text@.len() <= 28 ==> r@[i].note@ == list@[i].text@,
        list@[i].selected_text@.len() <= 40 ==> r@[i].preview@ == list@[i].selected_text@,
{
    assert(r@[i].rect == entry_rect(i));
    law_press_chooses_what_is_painted(x, y, i, list@.len());
}

/// The buttons of the list edit the annotation that is chosen, go to it, or close the list;
/// going to it selects what it is on.
pub proof fn law_chosen_annotations_are_gone_to(
    button: usize,
    list: &Vec<Annotation>,
    sel: i32,
    r: ListAction,
    j: JumpTo,
    number: String,
)
    requires
        0 <= sel < list@.len(),
        call_ensures(list_action, (button, list, sel), r),
        call_ensures(jump_to, (&list@[sel as int],), j),
        list@[sel as int].start_line < u64::MAX,
        call_ensures(
            crate::decimal::decimal_string,
            ((list@[sel as int].start_line + 1) as u64,),
            number,
        ),
    ensures
        button == 0 ==> r == ListAction::Edit(list@[sel as int].id),
        button == 1 ==> r == ListAction::Jump(list@[sel as int].id),
        button > 1 ==> r is Close,
        ({
            let a = list@[sel as int];
            &&& j.line == a.start_line
            &&& j.selection.start_line == a.start_line && j.selection.start_col == a.start_col
            &&& j.selection.end_line == a.end_line && j.selection.end_col == a.end_col
            &&& j.status@ == "跳转到批注 · 行 "@ + number@
        }),
{
}

} // verus!
