//! The toolbar: where its buttons stand, which one is hit, how they look and
//! what they do.

use vstd::prelude::*;

use crate::native::app::SearchFlag;
use crate::native::geom::Rect;
use crate::native::theme::{Rgb, ThemeColors};

verus! {

broadcast use vstd::string::group_string_axioms;

/// Top of the buttons.
pub const BTN_Y: i32 = 4;

/// Height of the buttons.
pub const BTN_H: i32 = 28;

/// Gap between buttons.
pub const BTN_GAP: i32 = 4;

/// Widest search box.
pub const SEARCH_W: i32 = 260;

/// A button of the toolbar.
#[derive(Clone, Copy, PartialEq, Eq, Debug, Structural)]
pub enum ToolbarAction {
    Open,
    Close,
    Reload,
    Case,
    Regex,
    Word,
    Find,
    Clear,
    Stop,
    Prev,
    Next,
    Goto,
}

/// The buttons with their places, and the places of the input boxes.
pub struct ToolbarLayout {
    pub buttons: Vec<(ToolbarAction, Rect)>,
    pub search_rect: Rect,
    pub goto_rect: Rect,
}

/// Place of a button of width `w` at `x`.
pub open spec fn button_at(x: int, w: int) -> Rect {
    Rect { left: x as i32, top: BTN_Y, right: (x + w) as i32, bottom: (BTN_Y + BTN_H) as i32 }
}

/// Right edge of the search box: it takes what the buttons leave it, between 40
/// and 260 pixels. `after` is the width of the buttons behind it.
pub open spec fn search_right_edge(w: int, after: int) -> int {
    let x: int = 316;
    let avail = (w - 122) - x - after - BTN_GAP;
    let room = if avail >= 40 {
        avail
    } else {
        40
    };
    if room <= SEARCH_W {
        x + room
    } else {
        x + SEARCH_W
    }
}

/// Width that the buttons behind the search box take, each with its gap.
pub open spec fn after_width(searching: bool) -> int {
    if searching {
        256
    } else {
        208
    }
}

/// The buttons with their places, in the order in which they are tested: those
/// on the left from left to right, the one on the right edge, and those behind
/// the search box.
pub open spec fn buttons_of(w: int, searching: bool) -> Seq<(ToolbarAction, Rect)> {
    let s = search_right_edge(w, after_width(searching)) + BTN_GAP;
    seq![
        (ToolbarAction::Open, button_at(8, 56)),
        (ToolbarAction::Close, button_at(68, 56)),
        (ToolbarAction::Reload, button_at(128, 56)),
        (ToolbarAction::Case, button_at(192, 36)),
        (ToolbarAction::Regex, button_at(232, 36)),
        (ToolbarAction::Word, button_at(272, 36)),
        (ToolbarAction::Goto, button_at(w - 48, 40)),
        (ToolbarAction::Find, button_at(s, 56)),
        (ToolbarAction::Clear, button_at(s + 60, 48)),
    ] + (if searching {
        seq![
            (ToolbarAction::Stop, button_at(s + 112, 44)),
            (ToolbarAction::Prev, button_at(s + 160, 44)),
            (ToolbarAction::Next, button_at(s + 208, 44)),
        ]
    } else {
        seq![
            (ToolbarAction::Prev, button_at(s + 112, 44)),
            (ToolbarAction::Next, button_at(s + 160, 44)),
        ]
    })
}

fn push_button(
    buttons: &mut Vec<(ToolbarAction, Rect)>,
    act: ToolbarAction,
    x: i32,
    w: i32,
) -> (next: i32)
    requires
        x + w + BTN_GAP <= i32::MAX,
        x + w >= i32::MIN,
        0 <= w,
    ensures
        final(buttons)@ == old(buttons)@.push((act, button_at(x as int, w as int))),
        next == x + w + BTN_GAP,
{
    buttons.push((act, Rect { left: x, top: BTN_Y, right: x + w, bottom: BTN_Y + BTN_H }));
    x + w + BTN_GAP
}

/// Places the toolbar in a window of width `w`. The stop button is there while
/// a search runs.
pub fn layout(w: i32, searching: bool) -> (r: ToolbarLayout)
    requires
        w >= i32::MIN + 1000,
    ensures
        r.buttons@ == buttons_of(w as int, searching),
        r.search_rect == (Rect {
            left: 316,
            top: (BTN_Y + 2) as i32,
            right: search_right_edge(w as int, after_width(searching)) as i32,
            bottom: (BTN_Y + BTN_H - 2) as i32,
        }),
        r.goto_rect == (Rect {
            left: (w - 122) as i32,
            top: (BTN_Y + 2) as i32,
            right: (w - 52) as i32,
            bottom: (BTN_Y + BTN_H - 2) as i32,
        }),
{
    let mut buttons: Vec<(ToolbarAction, Rect)> = Vec::new();
    let mut x: i32 = 8;
    x = push_button(&mut buttons, ToolbarAction::Open, x, 56);
    x = push_button(&mut buttons, ToolbarAction::Close, x, 56);
    x = push_button(&mut buttons, ToolbarAction::Reload, x, 56);
    x = x + BTN_GAP;
    x = push_button(&mut buttons, ToolbarAction::Case, x, 36);
    x = push_button(&mut buttons, ToolbarAction::Regex, x, 36);
    x = push_button(&mut buttons, ToolbarAction::Word, x, 36);
    x = x + BTN_GAP;
    assert(x == 316);
    let right_edge: i32 = w - 8;
    let goto_rect: Rect = Rect {
        left: right_edge - 40 - 70 - BTN_GAP,
        top: BTN_Y + 2,
        right: right_edge - 40 - BTN_GAP,
        bottom: BTN_Y + BTN_H - 2,
    };
    let _end: i32 = push_button(&mut buttons, ToolbarAction::Goto, right_edge - 40, 40);
    let mut after_total: i32 = (56 + BTN_GAP) + (48 + BTN_GAP) + 2 * (44 + BTN_GAP);
    if searching {
        after_total = after_total + 44 + BTN_GAP;
    }
    let avail: i32 = goto_rect.left - x - after_total - BTN_GAP;
    let room: i32 = if avail >= 40 {
        avail
    } else {
        40
    };
    let search_right: i32 = if room <= SEARCH_W {
        x + room
    } else {
        x + SEARCH_W
    };
    let search_rect: Rect = Rect {
        left: x,
        top: BTN_Y + 2,
        right: search_right,
        bottom: BTN_Y + BTN_H - 2,
    };
    let mut sx: i32 = search_right + BTN_GAP;
    sx = push_button(&mut buttons, ToolbarAction::Find, sx, 56);
    sx = push_button(&mut buttons, ToolbarAction::Clear, sx, 48);
    if searching {
        sx = push_button(&mut buttons, ToolbarAction::Stop, sx, 44);
    }
    sx = push_button(&mut buttons, ToolbarAction::Prev, sx, 44);
    let _last: i32 = push_button(&mut buttons, ToolbarAction::Next, sx, 44);
    assert(buttons@ =~= buttons_of(w as int, searching));
    ToolbarLayout { buttons, search_rect, goto_rect }
}

/// Button `i` is the first that holds a pixel.
pub open spec fn is_first_hit(
    buttons: Seq<(ToolbarAction, Rect)>,
    x: i32,
    y: i32,
    i: int,
) -> bool {
    &&& 0 <= i < buttons.len()
    &&& buttons[i].1.holds(x, y)
    &&& forall|k: int| 0 <= k < i ==> !(#[trigger] buttons[k]).1.holds(x, y)
}

/// Button under a pixel: the first in order where two overlap.
pub fn hit(x: i32, y: i32, w: i32, searching: bool) -> (r: Option<ToolbarAction>)
    requires
        w >= i32::MIN + 1000,
    ensures
        match r {
            Some(act) => exists|i: int| #[trigger]
                is_first_hit(buttons_of(w as int, searching), x, y, i) && act == buttons_of(
                    w as int,
                    searching,
                )[i].0,
            None => forall|i: int|
                0 <= i < buttons_of(w as int, searching).len() ==> !(#[trigger] buttons_of(
                    w as int,
                    searching,
                )[i]).1.holds(x, y),
        },
{
    let lay: ToolbarLayout = layout(w, searching);
    let ghost all = buttons_of(w as int, searching);
    let mut i: usize = 0;
    while i < lay.buttons.len()
        invariant
            i <= lay.buttons@.len(),
            all == buttons_of(w as int, searching),
            lay.buttons@ == all,
            forall|k: int| 0 <= k < i ==> !(#[trigger] all[k]).1.holds(x, y),
        decreases lay.buttons@.len() - i,
    {
        if lay.buttons[i].1.contains(x, y) {
            assert(is_first_hit(all, x, y, i as int));
            return Some(lay.buttons[i].0);
        }
        i = i + 1;
    }
    None
}

/// An option of the search is on, and this is its button.
pub open spec fn is_lit(act: ToolbarAction, case: bool, regex: bool, word: bool) -> bool {
    match act {
        ToolbarAction::Case => case,
        ToolbarAction::Regex => regex,
        ToolbarAction::Word => word,
        _ => false,
    }
}

/// Background of a button.
pub open spec fn background_of(
    act: ToolbarAction,
    hovered: bool,
    pressed: bool,
    lit: bool,
    theme: ThemeColors,
) -> Rgb {
    if pressed {
        theme.bg_active
    } else if hovered {
        theme.bg_hover
    } else if lit {
        theme.btn_primary
    } else {
        match act {
            ToolbarAction::Open => theme.btn_primary,
            ToolbarAction::Close => theme.btn_danger,
            ToolbarAction::Find => theme.btn_success,
            ToolbarAction::Stop => theme.btn_danger,
            _ => theme.bg_tertiary,
        }
    }
}

/// Background and text colour of a button.
pub fn btn_colors(
    act: ToolbarAction,
    hovered: bool,
    pressed: bool,
    case: bool,
    regex: bool,
    word: bool,
    theme: &ThemeColors,
) -> (r: (Rgb, Rgb))
    ensures
        r.0 == background_of(act, hovered, pressed, is_lit(act, case, regex, word), *theme),
        r.1 == if is_lit(act, case, regex, word) {
            theme.bg_primary
        } else {
            theme.text_primary
        },
{
    let lit: bool = match act {
        ToolbarAction::Case => case,
        ToolbarAction::Regex => regex,
        ToolbarAction::Word => word,
        _ => false,
    };
    let text: Rgb = if lit {
        theme.bg_primary
    } else {
        theme.text_primary
    };
    let bg: Rgb = if pressed {
        theme.bg_active
    } else if hovered {
        theme.bg_hover
    } else if lit {
        theme.btn_primary
    } else {
        match act {
            ToolbarAction::Open => theme.btn_primary,
            ToolbarAction::Close => theme.btn_danger,
            ToolbarAction::Find => theme.btn_success,
            ToolbarAction::Stop => theme.btn_danger,
            _ => theme.bg_tertiary,
        }
    };
    (bg, text)
}

/// Text of a button.
pub open spec fn label_text(act: ToolbarAction) -> Seq<char> {
    match act {
        ToolbarAction::Open => "打开"@,
        ToolbarAction::Close => "关闭"@,
        ToolbarAction::Reload => "重载"@,
        ToolbarAction::Case => "Aa"@,
        ToolbarAction::Regex => ".*"@,
        ToolbarAction::Word => "\\b"@,
        ToolbarAction::Find => "查找"@,
        ToolbarAction::Clear => "清空"@,
        ToolbarAction::Stop => "停止"@,
        ToolbarAction::Prev => "<上一"@,
        ToolbarAction::Next => "下一>"@,
        ToolbarAction::Goto => "Go"@,
    }
}

/// Text of a button.
pub fn label(act: ToolbarAction) -> (r: &'static str)
    ensures
        r@ == label_text(act),
{
    match act {
        ToolbarAction::Open => "打开",
        ToolbarAction::Close => "关闭",
        ToolbarAction::Reload => "重载",
        ToolbarAction::Case => "Aa",
        ToolbarAction::Regex => ".*",
        ToolbarAction::Word => "\\b",
        ToolbarAction::Find => "查找",
        ToolbarAction::Clear => "清空",
        ToolbarAction::Stop => "停止",
        ToolbarAction::Prev => "<上一",
        ToolbarAction::Next => "下一>",
        ToolbarAction::Goto => "Go",
    }
}

/// What a button asks the application to do.
#[derive(Clone, Copy, PartialEq, Eq, Debug, Structural)]
pub enum ToolbarCommand {
    PickFile,
    CloseFile,
    /// Opens the current file again.
    ReopenFile,
    ToggleFlag(SearchFlag),
    SubmitSearch,
    ClearSearch,
    /// Stops the search of the open file.
    StopSearch,
    JumpPrev,
    JumpNext,
    SubmitGoto,
    /// Nothing: no file is open.
    Nothing,
}

/// What a button asks for.
pub open spec fn command_for(act: ToolbarAction, file_open: bool) -> ToolbarCommand {
    match act {
        ToolbarAction::Open => ToolbarCommand::PickFile,
        ToolbarAction::Close => ToolbarCommand::CloseFile,
        ToolbarAction::Reload => if file_open {
            ToolbarCommand::ReopenFile
        } else {
            ToolbarCommand::Nothing
        },
        ToolbarAction::Case => ToolbarCommand::ToggleFlag(SearchFlag::Case),
        ToolbarAction::Regex => ToolbarCommand::ToggleFlag(SearchFlag::Regex),
        ToolbarAction::Word => ToolbarCommand::ToggleFlag(SearchFlag::Word),
        ToolbarAction::Find => ToolbarCommand::SubmitSearch,
        ToolbarAction::Clear => ToolbarCommand::ClearSearch,
        ToolbarAction::Stop => if file_open {
            ToolbarCommand::StopSearch
        } else {
            ToolbarCommand::Nothing
        },
        ToolbarAction::Prev => ToolbarCommand::JumpPrev,
        ToolbarAction::Next => ToolbarCommand::JumpNext,
        ToolbarAction::Goto => ToolbarCommand::SubmitGoto,
    }
}

/// What a click on a button asks for.
pub fn dispatch(act: ToolbarAction, file_open: bool) -> (r: ToolbarCommand)
    ensures
        r == command_for(act, file_open),
{
    match act {
        ToolbarAction::Open => ToolbarCommand::PickFile,
        ToolbarAction::Close => ToolbarCommand::CloseFile,
        ToolbarAction::Reload => if file_open {
            ToolbarCommand::ReopenFile
        } else {
            ToolbarCommand::Nothing
        },
        ToolbarAction::Case => ToolbarCommand::ToggleFlag(SearchFlag::Case),
        ToolbarAction::Regex => ToolbarCommand::ToggleFlag(SearchFlag::Regex),
        ToolbarAction::Word => ToolbarCommand::ToggleFlag(SearchFlag::Word),
        ToolbarAction::Find => ToolbarCommand::SubmitSearch,
        ToolbarAction::Clear => ToolbarCommand::ClearSearch,
        ToolbarAction::Stop => if file_open {
            ToolbarCommand::StopSearch
        } else {
            ToolbarCommand::Nothing
        },
        ToolbarAction::Prev => ToolbarCommand::JumpPrev,
        ToolbarAction::Next => ToolbarCommand::JumpNext,
        ToolbarAction::Goto => ToolbarCommand::SubmitGoto,
    }
}

// ---------------------------------------------------------------------------
// Laws
// ---------------------------------------------------------------------------

/// Nothing overlaps in a window that is wide enough: the buttons behind the
/// search box end before the line number box.
pub proof fn law_wide_toolbar_does_not_overlap(w: int, searching: bool, i: int)
    requires
        122 + 316 + 40 + after_width(searching) + 2 * BTN_GAP <= w <= i32::MAX,
        7 <= i < buttons_of(w, searching).len(),
    ensures
        buttons_of(w, searching)[i].1.left > search_right_edge(w, after_width(searching)),
        buttons_of(w, searching)[i].1.right < w - 122,
{
}

/// The stop button is there exactly while a search runs.
pub proof fn law_stop_while_searching(w: int, searching: bool)
    ensures
        searching <==> exists|i: int|
            0 <= i < buttons_of(w, searching).len() && (#[trigger] buttons_of(w, searching)[i]).0
                == ToolbarAction::Stop,
{
    if searching {
        assert(buttons_of(w, searching)[9].0 == ToolbarAction::Stop);
    }
}

/// A button does what it says; reloading and stopping need a file.
pub proof fn law_buttons_do_what_they_say(
    act: ToolbarAction,
    file_open: bool,
    r: ToolbarCommand,
    text: &'static str,
)
    requires
        call_ensures(dispatch, (act, file_open), r),
        call_ensures(label, (act,), text),
    ensures
        act is Open ==> r is PickFile && text@ == "打开"@,
        act is Close ==> r is CloseFile && text@ == "关闭"@,
        act is Reload ==> text@ == "重载"@ && (r is ReopenFile) == file_open && (r is Nothing)
            == !file_open,
        act is Case ==> r == ToolbarCommand::ToggleFlag(SearchFlag::Case) && text@ == "Aa"@,
        act is Regex ==> r == ToolbarCommand::ToggleFlag(SearchFlag::Regex) && text@ == ".*"@,
        act is Word ==> r == ToolbarCommand::ToggleFlag(SearchFlag::Word) && text@ == "\\b"@,
        act is Find ==> r is SubmitSearch && text@ == "查找"@,
        act is Clear ==> r is ClearSearch && text@ == "清空"@,
        act is Stop ==> text@ == "停止"@ && (r is StopSearch) == file_open && (r is Nothing)
            == !file_open,
        act is Prev ==> r is JumpPrev && text@ == "<上一"@,
        act is Next ==> r is JumpNext && text@ == "下一>"@,
        act is Goto ==> r is SubmitGoto && text@ == "Go"@,
{
}

/// The buttons stand in their order, each right of the one before it, all of one height,
/// and the search box between the switches and the button that searches.
pub proof fn law_buttons_stand_in_their_order(w: i32, searching: bool, r: ToolbarLayout)
    requires
        call_ensures(layout, (w, searching), r),
        w >= 800,
    ensures
        ({
            let b = r.buttons@;
            &&& b.len() == if searching {
                12nat
            } else {
                11nat
            }
            &&& b[0].0 is Open && b[1].0 is Close && b[2].0 is Reload
            &&& b[3].0 is Case && b[4].0 is Regex && b[5].0 is Word
            &&& b[6].0 is Goto && b[7].0 is Find && b[8].0 is Clear
            &&& searching ==> b[9].0 is Stop && b[10].0 is Prev && b[11].0 is Next
            &&& !searching ==> b[9].0 is Prev && b[10].0 is Next
            &&& b[0].1.right < b[1].1.left && b[1].1.right < b[2].1.left && b[2].1.right
                < b[3].1.left && b[3].1.right < b[4].1.left && b[4].1.right < b[5].1.left
            &&& b[5].1.right < r.search_rect.left
            &&& r.search_rect.left + 40 <= r.search_rect.right
            &&& r.search_rect.right < b[7].1.left && b[7].1.right < b[8].1.left && b[8].1.right
                < b[9].1.left && b[9].1.right < b[10].1.left
            &&& r.goto_rect.right < b[6].1.left && b[6].1.right <= w
            &&& b[b.len() - 1].1.right <= r.goto_rect.left
        }),
        forall|i: int|
            0 <= i < r.buttons@.len() ==> (#[trigger] r.buttons@[i]).1.top == 4 && r.buttons@[
                i
            ].1.bottom == 32 && r.buttons@[i].1.left < r.buttons@[i].1.right,
{
}

/// A switch that is on is filled with its colour, and the pointer and a press show on any
/// button.
pub proof fn law_buttons_show_their_state(
    act: ToolbarAction,
    hovered: bool,
    pressed: bool,
    case: bool,
    regex: bool,
    word: bool,
    theme: &ThemeColors,
    r: (Rgb, Rgb),
)
    requires
        call_ensures(btn_colors, (act, hovered, pressed, case, regex, word, theme), r),
    ensures
        pressed ==> r.0 == theme.bg_active,
        !pressed && hovered ==> r.0 == theme.bg_hover,
        !pressed && !hovered && ((act is Case && case) || (act is Regex && regex) || (act is Word
            && word)) ==> r.0 == theme.btn_primary,
        (act is Case && case) || (act is Regex && regex) || (act is Word && word) ==> r.1
            == theme.bg_primary,
        !((act is Case && case) || (act is Regex && regex) || (act is Word && word)) ==> r.1
            == theme.text_primary,
        !pressed && !hovered && act is Open ==> r.0 == theme.btn_primary,
        !pressed && !hovered && act is Find ==> r.0 == theme.btn_success,
        !pressed && !hovered && (act is Close || act is Stop) ==> r.0 == theme.btn_danger,
        !pressed && !hovered && (act is Reload || act is Clear || act is Prev || act is Next
            || act is Goto) ==> r.0 == theme.bg_tertiary,
{
}

} // verus!
