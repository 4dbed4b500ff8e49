//! Window messages: what wheel, keys, pointer, commands and the timer mean.

use vstd::prelude::*;

use crate::bounds::min_int;
use crate::native::app::{
    finish_search, font_dec, font_inc, larger, opened_status, opened_text, smaller, STATUSBAR_H,
    TOOLBAR_H,
};
use crate::native::engine_bridge::SearchState;
use crate::native::geom::Rect;
use crate::native::menu::{command_of, dispatch as menu_command, is_menu_id, wide, wide_text, Command};
use crate::native::scroll::{at_least_zero, ScrollState};
use crate::native::selection::Selection;
use crate::native::statusbar::PROGRESS_H;
use crate::native::toolbar::ToolbarAction;
use crate::text::{is_first_at, is_listed, position};

verus! {

broadcast use vstd::string::group_string_axioms;

pub const BTN_OPEN: u16 = 2001;

pub const BTN_CLOSE: u16 = 2002;

pub const BTN_RELOAD: u16 = 2003;

pub const EDIT_SEARCH: u16 = 2101;

pub const BTN_SEARCH: u16 = 2102;

pub const BTN_PREV: u16 = 2103;

pub const BTN_NEXT: u16 = 2104;

pub const EDIT_GOTO: u16 = 2201;

pub const BTN_GOTO: u16 = 2202;

pub const BTN_FONT_BIGGER: u16 = 2301;

pub const BTN_FONT_SMALLER: u16 = 2302;

/// Wheel units of one notch.
pub const WHEEL_NOTCH: i32 = 120;

/// Wheel units of one line.
pub const WHEEL_LINE: i32 = 40;

/// Pixels that a notch pans by.
pub const PAN_PX: i32 = 40;

/// Timer interval while work goes on in the background, in milliseconds.
pub const BUSY_INTERVAL: u32 = 100;

/// Timer interval otherwise.
pub const IDLE_INTERVAL: u32 = 500;

/// Name of the class of the main window, ended by a zero.
pub fn class_name_wide() -> (r: Vec<u16>)
    ensures
        r@ == wide_text("QLogNativeMain"@),
{
    wide("QLogNativeMain")
}

// ---------------------------------------------------------------------------
// Parameters of messages
// ---------------------------------------------------------------------------

/// A 16 bit number read as one with a sign.
pub open spec fn signed16(n: int) -> int {
    if n >= 0x8000 {
        n - 0x1_0000
    } else {
        n
    }
}

/// Wheel movement and keys held.
#[derive(Clone, Copy, PartialEq, Eq, Structural, Debug)]
pub struct Wheel {
    pub delta: i32,
    pub ctrl: bool,
    pub shift: bool,
}

/// Reads a wheel message: the movement stands in the upper half of 32 bits, the
/// keys in the lower, Shift with weight 4 and Ctrl with weight 8.
pub fn decode_wheel(wparam: u64) -> (r: Wheel)
    ensures
        r.delta == signed16((wparam as int / 0x1_0000) % 0x1_0000),
        r.shift == ((wparam as int / 4) % 2 == 1),
        r.ctrl == ((wparam as int / 8) % 2 == 1),
{
    let hi: i32 = ((wparam / 0x1_0000) % 0x1_0000) as i32;
    let delta: i32 = if hi >= 0x8000 {
        hi - 0x1_0000
    } else {
        hi
    };
    Wheel { delta, ctrl: (wparam / 8) % 2 == 1, shift: (wparam / 4) % 2 == 1 }
}

/// Reads the pixel of a pointer message: the column stands in the lower half of
/// 32 bits, the row in the upper.
pub fn decode_point(lparam: u32) -> (r: (i32, i32))
    ensures
        r.0 == lparam as int % 0x1_0000,
        r.1 == lparam as int / 0x1_0000,
{
    ((lparam % 0x1_0000) as i32, (lparam / 0x1_0000) as i32)
}

/// Reads a command message: the number and the notification.
pub fn decode_command(wparam: u32) -> (r: (u16, u16))
    ensures
        r.0 == wparam as int % 0x1_0000,
        r.1 == wparam as int / 0x1_0000,
{
    ((wparam % 0x1_0000) as u16, (wparam / 0x1_0000) as u16)
}

// ---------------------------------------------------------------------------
// Wheel
// ---------------------------------------------------------------------------

/// Division towards zero.
pub open spec fn trunc_div(a: int, b: int) -> int {
    if a >= 0 {
        a / b
    } else {
        -((-a) / b)
    }
}

pub fn trunc(a: i32, b: i32) -> (r: i32)
    requires
        a > i32::MIN,
        b > 0,
    ensures
        r == trunc_div(a as int, b as int),
{
    if a >= 0 {
        a / b
    } else {
        let m: i32 = -a;
        let q: i32 = m / b;
        assert(0 <= q <= m) by (nonlinear_arith)
            requires
                q == (m as int) / (b as int),
                m >= 0,
                b > 0,
        ;
        -q
    }
}

/// What the wheel does.
#[derive(Clone, Copy, PartialEq, Eq, Structural, Debug)]
pub enum WheelAction {
    /// Sets the font size.
    Font(i32),
    /// Pans by pixels, to the right where positive.
    Pan(i32),
    /// Scrolls by lines, down where positive.
    Lines(i32),
}

/// What a wheel movement does: with Ctrl it changes the font size, with Shift
/// it pans, otherwise it scrolls three lines per notch. Turning it up goes up
/// and to the left.
pub open spec fn wheel_action_of(w: Wheel, font_px: int) -> WheelAction {
    if w.ctrl {
        WheelAction::Font(
            (if w.delta > 0 {
                larger(font_px)
            } else if w.delta < 0 {
                smaller(font_px)
            } else {
                font_px
            }) as i32,
        )
    } else if w.shift {
        WheelAction::Pan((-(trunc_div(w.delta as int, WHEEL_NOTCH as int) * PAN_PX)) as i32)
    } else {
        WheelAction::Lines((-trunc_div(w.delta as int, WHEEL_LINE as int)) as i32)
    }
}

/// What a wheel movement does.
pub fn wheel_action(w: &Wheel, font_px: i32) -> (r: WheelAction)
    requires
        font_px < i32::MAX,
        -0x8000 <= w.delta < 0x8000,
    ensures
        r == wheel_action_of(*w, font_px as int),
{
    if w.ctrl {
        if w.delta > 0 {
            WheelAction::Font(font_inc(font_px))
        } else if w.delta < 0 {
            WheelAction::Font(font_dec(font_px))
        } else {
            WheelAction::Font(font_px)
        }
    } else if w.shift {
        let px: i32 = trunc(w.delta, WHEEL_NOTCH) * PAN_PX;
        WheelAction::Pan(-px)
    } else {
        let lines: i32 = trunc(w.delta, WHEEL_LINE);
        WheelAction::Lines(-lines)
    }
}

// ---------------------------------------------------------------------------
// Timer
// ---------------------------------------------------------------------------

/// What the background work has brought.
#[derive(Clone, Copy, Debug)]
pub struct Poll {
    pub search_done: bool,
    pub index_done: bool,
    pub file_open: bool,
    /// Matches of the finished search.
    pub matches: usize,
    pub line_count: u64,
    pub size: u64,
    /// Indexing goes on.
    pub indexing: bool,
}

/// What is left to do after a tick.
#[derive(Clone, Copy, Debug)]
pub struct TickResult {
    /// The search goes to the top of the view.
    pub anchor_search: bool,
    /// There is no current match any more.
    pub drop_hit: bool,
    pub repaint: bool,
    /// Milliseconds to the next tick.
    pub interval: u32,
}

/// Lines and size of the open file as the status bar shows them, and what it
/// says of the file.
pub struct FileStatus {
    pub lines: u64,
    pub size: u64,
    pub text: String,
}

/// Takes in what the background work has brought.
pub fn on_timer(search: &mut SearchState, file: &mut FileStatus, poll: &Poll) -> (r: TickResult)
    ensures
        r.anchor_search == (poll.search_done && poll.file_open && poll.matches > 0),
        r.drop_hit == (poll.search_done && poll.file_open && poll.matches == 0),
        r.repaint == (poll.search_done || poll.index_done),
        final(search).searching == (old(search).searching && !poll.search_done),
        r.interval == if final(search).searching || (poll.file_open && poll.indexing) {
            BUSY_INTERVAL
        } else {
            IDLE_INTERVAL
        },
        final(search).query == old(search).query,
        final(search).options() == old(search).options(),
        final(search).cursor == old(search).cursor,
        poll.search_done && poll.file_open ==> final(search).status@ == (if poll.matches > 0 {
            crate::decimal::decimal(poll.matches as nat) + " 条匹配"@
        } else {
            "无匹配"@
        }),
        !(poll.search_done && poll.file_open) ==> final(search).status == old(search).status,
        final(search).total == if poll.search_done && poll.file_open && poll.matches > 0 {
            poll.matches
        } else {
            old(search).total
        },
        poll.index_done ==> {
            &&& final(file).lines == poll.line_count
            &&& final(file).size == poll.size
            &&& final(file).text@ == opened_text(false, poll.line_count, poll.size)
        },
        !poll.index_done ==> *final(file) == *old(file),
{
    let mut anchor: bool = false;
    let mut drop_hit: bool = false;
    if poll.search_done {
        search.searching = false;
        if poll.file_open {
            let found: bool = finish_search(search, poll.matches);
            anchor = found;
            drop_hit = !found;
        }
    }
    if poll.index_done {
        file.lines = poll.line_count;
        file.size = poll.size;
        file.text = opened_status(false, poll.line_count, poll.size);
    }
    let active: bool = search.searching || (poll.file_open && poll.indexing);
    TickResult {
        anchor_search: anchor,
        drop_hit,
        repaint: poll.search_done || poll.index_done,
        interval: if active {
            BUSY_INTERVAL
        } else {
            IDLE_INTERVAL
        },
    }
}

// ---------------------------------------------------------------------------
// Keys
// ---------------------------------------------------------------------------

pub const VK_RETURN: u16 = 0x0D;

pub const VK_ESCAPE: u16 = 0x1B;

pub const VK_PRIOR: u16 = 0x21;

pub const VK_NEXT: u16 = 0x22;

pub const VK_END: u16 = 0x23;

pub const VK_HOME: u16 = 0x24;

pub const VK_UP: u16 = 0x26;

pub const VK_DOWN: u16 = 0x28;

pub const VK_0: u16 = 0x30;

pub const VK_C: u16 = 0x43;

pub const VK_F: u16 = 0x46;

pub const VK_G: u16 = 0x47;

pub const VK_I: u16 = 0x49;

pub const VK_L: u16 = 0x4C;

pub const VK_O: u16 = 0x4F;

pub const VK_R: u16 = 0x52;

pub const VK_T: u16 = 0x54;

pub const VK_W: u16 = 0x57;

pub const VK_F1: u16 = 0x70;

pub const VK_F3: u16 = 0x72;

pub const VK_OEM_PLUS: u16 = 0xBB;

pub const VK_OEM_MINUS: u16 = 0xBD;

/// What a key asks the application to do.
#[derive(Clone, Copy, PartialEq, Eq, Structural, Debug)]
pub enum KeyCommand {
    PickFile,
    ReopenFile,
    FocusSearch,
    FocusGoto,
    ShowProperties,
    CloseFile,
    CycleTheme,
    JumpNext,
    JumpPrev,
    CopySelection,
    FontBigger,
    FontSmaller,
    FontReset,
    ClearSearch,
    ScrollTop,
    ScrollBottom,
    /// Scrolls by lines, down where positive.
    ScrollLines(i32),
    PageDown,
    ShowHelp,
}

/// Command of a key that is pressed with Ctrl.
pub open spec fn ctrl_key(vk: u16, shift: bool) -> Option<KeyCommand> {
    if vk == VK_O {
        Some(KeyCommand::PickFile)
    } else if vk == VK_R {
        Some(KeyCommand::ReopenFile)
    } else if vk == VK_F {
        Some(KeyCommand::FocusSearch)
    } else if vk == VK_L {
        Some(KeyCommand::FocusGoto)
    } else if vk == VK_I {
        Some(KeyCommand::ShowProperties)
    } else if vk == VK_W {
        Some(KeyCommand::CloseFile)
    } else if vk == VK_T && shift {
        Some(KeyCommand::CycleTheme)
    } else if vk == VK_G {
        Some(
            if shift {
                KeyCommand::JumpPrev
            } else {
                KeyCommand::JumpNext
            },
        )
    } else if vk == VK_C {
        Some(KeyCommand::CopySelection)
    } else if vk == VK_OEM_PLUS {
        Some(KeyCommand::FontBigger)
    } else if vk == VK_OEM_MINUS {
        Some(KeyCommand::FontSmaller)
    } else if vk == VK_0 {
        Some(KeyCommand::FontReset)
    } else {
        None
    }
}

/// Command of a key by itself. A page of `page` lines keeps a quarter in view.
pub open spec fn plain_key(vk: u16, ctrl: bool, shift: bool, page: int) -> Option<KeyCommand> {
    if vk == VK_ESCAPE {
        Some(KeyCommand::ClearSearch)
    } else if vk == VK_HOME {
        Some(KeyCommand::ScrollTop)
    } else if vk == VK_END {
        Some(KeyCommand::ScrollBottom)
    } else if vk == VK_PRIOR && !ctrl {
        Some(KeyCommand::ScrollLines((-page + page / 4) as i32))
    } else if vk == VK_NEXT && !ctrl {
        Some(KeyCommand::PageDown)
    } else if vk == VK_UP && !ctrl {
        Some(KeyCommand::ScrollLines((-1int) as i32))
    } else if vk == VK_DOWN && !ctrl {
        Some(KeyCommand::ScrollLines(1))
    } else if vk == VK_F3 {
        Some(
            if shift {
                KeyCommand::JumpPrev
            } else {
                KeyCommand::JumpNext
            },
        )
    } else if vk == VK_F1 {
        Some(KeyCommand::ShowHelp)
    } else {
        None
    }
}

/// Lines on a page for paging: at least one.
pub open spec fn page_lines(page: int) -> int {
    if page >= 1 {
        page
    } else {
        1
    }
}

/// What a key does: the command that it has with Ctrl, where Ctrl is held, and
/// the one that it has by itself. Where both are `None` the key goes on to the
/// system.
pub fn on_key(vk: u16, ctrl: bool, shift: bool, page_size_lines: i64) -> (r: (
    Option<KeyCommand>,
    Option<KeyCommand>,
))
    requires
        page_size_lines <= i32::MAX,
    ensures
        r.0 == if ctrl {
            ctrl_key(vk, shift)
        } else {
            None
        },
        r.1 == plain_key(vk, ctrl, shift, page_lines(page_size_lines as int)),
{
    let with_ctrl: Option<KeyCommand> = if ctrl {
        match vk {
            VK_O => Some(KeyCommand::PickFile),
            VK_R => Some(KeyCommand::ReopenFile),
            VK_F => Some(KeyCommand::FocusSearch),
            VK_L => Some(KeyCommand::FocusGoto),
            VK_I => Some(KeyCommand::ShowProperties),
            VK_W => Some(KeyCommand::CloseFile),
            VK_T => if shift {
                Some(KeyCommand::CycleTheme)
            } else {
                None
            },
            VK_G => if shift {
                Some(KeyCommand::JumpPrev)
            } else {
                Some(KeyCommand::JumpNext)
            },
            VK_C => Some(KeyCommand::CopySelection),
            VK_OEM_PLUS => Some(KeyCommand::FontBigger),
            VK_OEM_MINUS => Some(KeyCommand::FontSmaller),
            VK_0 => Some(KeyCommand::FontReset),
            _ => None,
        }
    } else {
        None
    };
    let page: i32 = if page_size_lines >= 1 {
        page_size_lines as i32
    } else {
        1
    };
    let plain: Option<KeyCommand> = match vk {
        VK_ESCAPE => Some(KeyCommand::ClearSearch),
        VK_HOME => Some(KeyCommand::ScrollTop),
        VK_END => Some(KeyCommand::ScrollBottom),
        VK_PRIOR => if ctrl {
            None
        } else {
            Some(KeyCommand::ScrollLines(-page + page / 4))
        },
        VK_NEXT => if ctrl {
            None
        } else {
            Some(KeyCommand::PageDown)
        },
        VK_UP => if ctrl {
            None
        } else {
            Some(KeyCommand::ScrollLines(-1))
        },
        VK_DOWN => if ctrl {
            None
        } else {
            Some(KeyCommand::ScrollLines(1))
        },
        VK_F3 => if shift {
            Some(KeyCommand::JumpPrev)
        } else {
            Some(KeyCommand::JumpNext)
        },
        VK_F1 => Some(KeyCommand::ShowHelp),
        _ => None,
    };
    (with_ctrl, plain)
}

/// Moves the view as a key command says, over a file of `total` lines. Returns whether
/// the command is one that moves it.
pub fn scroll_by_key(scroll: &mut ScrollState, cmd: KeyCommand, total: u64) -> (r: bool)
    requires
        old(scroll).wf(),
    ensures
        r == (cmd is ScrollTop || cmd is ScrollBottom || cmd is ScrollLines || cmd is PageDown),
        match cmd {
            KeyCommand::ScrollTop => *final(scroll) == (ScrollState { y: 0, ..*old(scroll) }),
            KeyCommand::ScrollBottom => *final(scroll) == (ScrollState {
                y: old(scroll).last_top(total) as i64,
                ..*old(scroll)
            }),
            KeyCommand::ScrollLines(n) => *final(scroll) == (ScrollState {
                y: at_least_zero(old(scroll).y + n) as i64,
                ..*old(scroll)
            }),
            KeyCommand::PageDown => *final(scroll) == (ScrollState {
                y: min_int(
                    old(scroll).y + old(scroll).page_size_lines - old(scroll).page_size_lines / 4,
                    old(scroll).last_top(total),
                ) as i64,
                ..*old(scroll)
            }),
            _ => *final(scroll) == *old(scroll),
        },
{
    match cmd {
        KeyCommand::ScrollTop => {
            scroll.top();
            true
        },
        KeyCommand::ScrollBottom => {
            scroll.bottom(total);
            true
        },
        KeyCommand::ScrollLines(n) => {
            scroll.scroll_by_lines(n);
            true
        },
        KeyCommand::PageDown => {
            scroll.page_down(total);
            true
        },
        _ => false,
    }
}

// ---------------------------------------------------------------------------
// Commands
// ---------------------------------------------------------------------------

/// What a command message asks for.
#[derive(Clone, Copy, PartialEq, Eq, Structural, Debug)]
pub enum WindowCommand {
    /// A command of the menus.
    Menu(Command),
    PickFile,
    CloseFile,
    ReopenFile,
    SubmitSearch,
    JumpPrev,
    JumpNext,
    SubmitGoto,
    FontBigger,
    FontSmaller,
    Nothing,
}

/// Command of a button or input box.
pub open spec fn control_command(id: u16) -> WindowCommand {
    if id == BTN_OPEN {
        WindowCommand::PickFile
    } else if id == BTN_CLOSE {
        WindowCommand::CloseFile
    } else if id == BTN_RELOAD {
        WindowCommand::ReopenFile
    } else if id == BTN_SEARCH {
        WindowCommand::SubmitSearch
    } else if id == BTN_PREV {
        WindowCommand::JumpPrev
    } else if id == BTN_NEXT {
        WindowCommand::JumpNext
    } else if id == BTN_GOTO {
        WindowCommand::SubmitGoto
    } else if id == BTN_FONT_BIGGER {
        WindowCommand::FontBigger
    } else if id == BTN_FONT_SMALLER {
        WindowCommand::FontSmaller
    } else {
        WindowCommand::Nothing
    }
}

/// What a command message asks for: without notification a number of the menus
/// is a command of theirs; otherwise the number is that of a button.
pub fn on_command(id: u16, code: u16) -> (r: WindowCommand)
    ensures
        r == if code == 0 && is_menu_id(id) {
            WindowCommand::Menu(command_of(id))
        } else {
            control_command(id)
        },
{
    if code == 0 && crate::native::menu::matches(id) {
        return WindowCommand::Menu(menu_command(id));
    }
    match id {
        BTN_OPEN => WindowCommand::PickFile,
        BTN_CLOSE => WindowCommand::CloseFile,
        BTN_RELOAD => WindowCommand::ReopenFile,
        BTN_SEARCH => WindowCommand::SubmitSearch,
        BTN_PREV => WindowCommand::JumpPrev,
        BTN_NEXT => WindowCommand::JumpNext,
        BTN_GOTO => WindowCommand::SubmitGoto,
        BTN_FONT_BIGGER => WindowCommand::FontBigger,
        BTN_FONT_SMALLER => WindowCommand::FontSmaller,
        _ => WindowCommand::Nothing,
    }
}

// ---------------------------------------------------------------------------
// Pointer
// ---------------------------------------------------------------------------

/// Places that a press can hit.
#[derive(Clone, Copy, Debug)]
pub struct HitAreas {
    pub vsb_thumb: Rect,
    pub hsb_thumb: Rect,
    pub progress_cancel: Rect,
    pub encoding: Rect,
    pub annotations: Rect,
    /// Height of the window.
    pub client_h: i32,
    /// Right edge of the text.
    pub text_right: i32,
}

/// What a press hits.
#[derive(Clone, Copy, PartialEq, Eq, Structural, Debug)]
pub enum PressTarget {
    Toolbar(ToolbarAction),
    VerticalThumb,
    HorizontalThumb,
    CancelProgress,
    EncodingLabel,
    AnnotationLabel,
    Text,
    Nothing,
}

/// What a press at a pixel hits; `button` is the button of the toolbar there.
pub open spec fn press_target_of(
    x: i32,
    y: i32,
    button: Option<ToolbarAction>,
    areas: HitAreas,
) -> PressTarget {
    if y < TOOLBAR_H && button is Some {
        PressTarget::Toolbar(button->0)
    } else if areas.vsb_thumb.holds(x, y) {
        PressTarget::VerticalThumb
    } else if areas.hsb_thumb.holds(x, y) {
        PressTarget::HorizontalThumb
    } else if y >= areas.client_h - STATUSBAR_H - PROGRESS_H && areas.progress_cancel.holds(x, y) {
        PressTarget::CancelProgress
    } else if y >= areas.client_h - STATUSBAR_H && areas.encoding.holds(x, y) {
        PressTarget::EncodingLabel
    } else if y >= areas.client_h - STATUSBAR_H && areas.annotations.holds(x, y) {
        PressTarget::AnnotationLabel
    } else if y >= TOOLBAR_H + 2 && x < areas.text_right {
        PressTarget::Text
    } else {
        PressTarget::Nothing
    }
}

/// What a press at a pixel hits.
pub fn press_target(x: i32, y: i32, button: Option<ToolbarAction>, areas: &HitAreas) -> (r:
    PressTarget)
    requires
        areas.client_h >= i32::MIN + 100,
    ensures
        r == press_target_of(x, y, button, *areas),
{
    if y < TOOLBAR_H {
        match button {
            Some(act) => {
                return PressTarget::Toolbar(act);
            },
            None => {},
        }
    }
    if areas.vsb_thumb.contains(x, y) {
        return PressTarget::VerticalThumb;
    }
    if areas.hsb_thumb.contains(x, y) {
        return PressTarget::HorizontalThumb;
    }
    if y >= areas.client_h - STATUSBAR_H - PROGRESS_H && areas.progress_cancel.contains(x, y) {
        return PressTarget::CancelProgress;
    }
    if y >= areas.client_h - STATUSBAR_H {
        if areas.encoding.contains(x, y) {
            return PressTarget::EncodingLabel;
        }
        if areas.annotations.contains(x, y) {
            return PressTarget::AnnotationLabel;
        }
    }
    if y >= TOOLBAR_H + 2 && x < areas.text_right {
        return PressTarget::Text;
    }
    PressTarget::Nothing
}

/// What the pointer has taken hold of.
#[derive(Clone, Copy, Debug)]
pub struct Capture {
    pub toolbar_pressed: Option<ToolbarAction>,
    pub toolbar_hover: Option<ToolbarAction>,
    pub selecting: bool,
    pub thumb_dragging: bool,
    pub selection: Option<Selection>,
}

/// The selection of a single place.
pub open spec fn point_selection(line: u64, col: usize) -> Selection {
    Selection { start_line: line, start_col: col, end_line: line, end_col: col }
}

impl Capture {
    /// Starts a selection at a place of the text.
    pub fn press_text(&mut self, line: u64, col: usize)
        ensures
            *final(self) == (Capture {
                selecting: true,
                selection: Some(point_selection(line, col)),
                ..*old(self)
            }),
    {
        self.selection = Some(
            Selection { start_line: line, start_col: col, end_line: line, end_col: col },
        );
        self.selecting = true;
    }

    /// The selection after the pointer was dragged to a place: its start stays.
    pub open spec fn dragged(self, line: u64, col: usize) -> Selection {
        match self.selection {
            Some(s) => Selection { end_line: line, end_col: col, ..s },
            None => point_selection(line, col),
        }
    }

    /// Extends the selection to a place.
    pub fn drag_text(&mut self, line: u64, col: usize)
        ensures
            *final(self) == (Capture {
                selection: Some(old(self).dragged(line, col)),
                ..*old(self)
            }),
    {
        self.selection = match self.selection {
            Some(s) => Some(
                Selection {
                    start_line: s.start_line,
                    start_col: s.start_col,
                    end_line: line,
                    end_col: col,
                },
            ),
            None => Some(
                Selection { start_line: line, start_col: col, end_line: line, end_col: col },
            ),
        };
    }

    /// Takes in the button under the pointer. Returns whether the toolbar has to
    /// be painted anew.
    pub fn hover(&mut self, y: i32, button: Option<ToolbarAction>) -> (r: bool)
        ensures
            *final(self) == (Capture {
                toolbar_hover: if y < TOOLBAR_H {
                    button
                } else {
                    None
                },
                ..*old(self)
            }),
            r == (final(self).toolbar_hover != old(self).toolbar_hover),
    {
        let next: Option<ToolbarAction> = if y < TOOLBAR_H {
            button
        } else {
            None
        };
        let changed: bool = match (next, self.toolbar_hover) {
            (Some(a), Some(b)) => a != b,
            (None, None) => false,
            _ => true,
        };
        self.toolbar_hover = next;
        changed
    }

    /// Lets the pointer go: a pressed button acts, a selection or a drag ends.
    pub fn release(&mut self) -> (r: ReleaseAction)
        ensures
            match old(self).toolbar_pressed {
                Some(act) => {
                    &&& r == ReleaseAction::Click(act)
                    &&& *final(self) == (Capture { toolbar_pressed: None, ..*old(self) })
                },
                None => if old(self).selecting {
                    &&& r == ReleaseAction::EndSelection
                    &&& *final(self) == (Capture { selecting: false, ..*old(self) })
                } else {
                    &&& r == ReleaseAction::EndDrag
                    &&& *final(self) == (Capture { thumb_dragging: false, ..*old(self) })
                },
            },
    {
        match self.toolbar_pressed {
            Some(act) => {
                self.toolbar_pressed = None;
                ReleaseAction::Click(act)
            },
            None => {
                if self.selecting {
                    self.selecting = false;
                    ReleaseAction::EndSelection
                } else {
                    self.thumb_dragging = false;
                    ReleaseAction::EndDrag
                }
            },
        }
    }
}

/// What letting the pointer go means.
#[derive(Clone, Copy, PartialEq, Eq, Structural, Debug)]
pub enum ReleaseAction {
    Click(ToolbarAction),
    EndSelection,
    EndDrag,
}

/// What a movement of the pointer is about.
#[derive(Clone, Copy, PartialEq, Eq, Structural, Debug)]
pub enum MoveTarget {
    Toolbar,
    Selection,
    Thumb,
    Nothing,
}

impl Capture {
    /// What a movement to a pixel row is about: over the toolbar its buttons,
    /// else the selection or the thumb that is held.
    pub fn move_target(&self, y: i32) -> (r: MoveTarget)
        ensures
            r == if y < TOOLBAR_H {
                MoveTarget::Toolbar
            } else if self.selecting {
                MoveTarget::Selection
            } else if self.thumb_dragging {
                MoveTarget::Thumb
            } else {
                MoveTarget::Nothing
            },
    {
        if y < TOOLBAR_H {
            MoveTarget::Toolbar
        } else if self.selecting {
            MoveTarget::Selection
        } else if self.thumb_dragging {
            MoveTarget::Thumb
        } else {
            MoveTarget::Nothing
        }
    }

    /// Whether a right click at a pixel row opens the menu of the selection.
    pub fn opens_context_menu(&self, y: i32) -> (r: bool)
        ensures
            r == (y >= TOOLBAR_H + 2 && self.selection is Some),
    {
        y >= TOOLBAR_H + 2 && self.selection.is_some()
    }
}

/// Entries of the menu of the selection, by the numbers that the system gives
/// back for them.
#[derive(Clone, Copy, PartialEq, Eq, Structural, Debug)]
pub enum ContextCommand {
    CopySelection,
    AddAnnotation,
    Nothing,
}

/// Entry of the menu of the selection for a number.
pub fn context_command(cmd: i32) -> (r: ContextCommand)
    ensures
        r == if cmd == 1 {
            ContextCommand::CopySelection
        } else if cmd == 2 {
            ContextCommand::AddAnnotation
        } else {
            ContextCommand::Nothing
        },
{
    match cmd {
        1 => ContextCommand::CopySelection,
        2 => ContextCommand::AddAnnotation,
        _ => ContextCommand::Nothing,
    }
}

/// Part of a window of the given size below the toolbar: the text and the status
/// bar, painted anew when the text or its place changes.
pub fn view_area(w: i32, h: i32) -> (r: Rect)
    ensures
        r == (Rect { left: 0, top: (TOOLBAR_H + 2) as i32, right: w, bottom: h }),
{
    Rect { left: 0, top: TOOLBAR_H + 2, right: w, bottom: h }
}

/// Distance scrolled per message while a selection is dragged `d` pixels beyond
/// an edge: 12 hundredths of it, whole units only.
pub open spec fn auto_scroll(d: int) -> int {
    (12 * d) / 100
}

/// Where a drag is held at the edges of the text, and how far the text scrolls:
/// the pixel, then lines down and pixels to the right.
pub struct DragStep {
    pub x: i32,
    pub y: i32,
    pub lines: i32,
    pub pan: i64,
}

/// Keeps a drag at the edges of the text and scrolls it. Sideways the text
/// scrolls only where lines are not wrapped and there is something to the right.
pub fn drag_step(
    x: i32,
    y: i32,
    view_top: i32,
    view_bottom: i32,
    content_x: i32,
    text_right: i32,
    can_pan: bool,
) -> (r: DragStep)
    requires
        view_top - y <= i32::MAX,
        y - view_bottom <= i32::MAX,
        content_x - x <= i32::MAX,
        x - text_right <= i32::MAX,
    ensures
        y < view_top ==> r.y == view_top && r.lines == -auto_scroll(view_top - y),
        y >= view_top && y > view_bottom ==> r.y == view_bottom && r.lines == auto_scroll(
            y - view_bottom,
        ),
        view_top <= y <= view_bottom ==> r.y == y && r.lines == 0,
        !can_pan ==> r.x == x && r.pan == 0,
        can_pan && x < content_x ==> r.x == content_x && r.pan == auto_scroll(content_x - x),
        can_pan && x >= content_x && x > text_right ==> r.x == text_right && r.pan == auto_scroll(
            x - text_right,
        ),
        can_pan && content_x <= x <= text_right ==> r.x == x && r.pan == 0,
{
    let mut mx: i32 = x;
    let mut my: i32 = y;
    let mut lines: i32 = 0;
    let mut pan: i64 = 0;
    if my < view_top {
        let d: i64 = (view_top - my) as i64;
        lines = -((12 * d / 100) as i32);
        my = view_top;
    } else if my > view_bottom {
        let d: i64 = (my - view_bottom) as i64;
        lines = (12 * d / 100) as i32;
        my = view_bottom;
    }
    if can_pan {
        if mx < content_x {
            let d: i64 = (content_x - mx) as i64;
            pan = 12 * d / 100;
            mx = content_x;
        } else if mx > text_right {
            let d: i64 = (mx - text_right) as i64;
            pan = 12 * d / 100;
            mx = text_right;
        }
    }
    DragStep { x: mx, y: my, lines, pan }
}

// ---------------------------------------------------------------------------
// Input boxes
// ---------------------------------------------------------------------------

/// An input box of the toolbar.
#[derive(Clone, Copy, PartialEq, Eq, Structural, Debug)]
pub enum EditKind {
    Search,
    Goto,
}

/// What a key does in an input box.
#[derive(Clone, Copy, PartialEq, Eq, Structural, Debug)]
pub enum EditAction {
    /// Posts the command of this number to the window.
    Post(u16),
    /// Puts the next query of the history in.
    NextHistory,
    /// Goes on to the box itself.
    PassOn,
}

/// What a key does in an input box: Enter searches or goes to a line, and with
/// Shift it puts a line break into a query; Alt and the arrow down go through
/// the history.
pub fn edit_key(kind: EditKind, vk: u16, shift: bool, alt: bool) -> (r: EditAction)
    ensures
        r == if vk == VK_RETURN {
            match kind {
                EditKind::Search => if shift {
                    EditAction::PassOn
                } else {
                    EditAction::Post(BTN_SEARCH)
                },
                EditKind::Goto => EditAction::Post(BTN_GOTO),
            }
        } else if vk == VK_DOWN && kind == EditKind::Search && alt {
            EditAction::NextHistory
        } else {
            EditAction::PassOn
        },
{
    if vk == VK_RETURN {
        match kind {
            EditKind::Search => if shift {
                EditAction::PassOn
            } else {
                EditAction::Post(BTN_SEARCH)
            },
            EditKind::Goto => EditAction::Post(BTN_GOTO),
        }
    } else if vk == VK_DOWN && kind == EditKind::Search && alt {
        EditAction::NextHistory
    } else {
        EditAction::PassOn
    }
}

/// Place of the query that follows the current one in the history: the first
/// one behind the last, and for a query that is not in it. `None` where the
/// history is empty.
pub fn next_history(history: &Vec<String>, current: &str) -> (r: Option<usize>)
    ensures
        history@.len() == 0 <==> r is None,
        history@.len() > 0 && !is_listed(history@, current@) ==> r == Some(0usize),
        forall|i: int| #[trigger]
            is_first_at(history@, current@, i) ==> r == Some(
                (if i + 1 < history@.len() {
                    i + 1
                } else {
                    0
                }) as usize,
            ),
{
    if history.len() == 0 {
        return None;
    }
    match position(history, current) {
        Some(i) => {
            assert forall|k: int| #[trigger] is_first_at(history@, current@, k) implies k == i by {
                if k < i {
                    assert(history@[k]@ != current@);
                } else if k > i {
                    assert(history@[i as int]@ != current@);
                }
            }
            if i + 1 < history.len() {
                Some(i + 1)
            } else {
                Some(0)
            }
        },
        None => Some(0),
    }
}

// ---------------------------------------------------------------------------
// Laws
// ---------------------------------------------------------------------------

/// Turning the wheel one way and as far the other way scrolls back.
pub proof fn law_wheel_is_symmetric(delta: int)
    ensures
        trunc_div(-delta, WHEEL_LINE as int) == -trunc_div(delta, WHEEL_LINE as int),
        trunc_div(-delta, WHEEL_NOTCH as int) == -trunc_div(delta, WHEEL_NOTCH as int),
{
}

/// Dragging keeps the start of a selection.
pub proof fn law_drag_keeps_the_start(c: Capture, line: u64, col: usize)
    requires
        c.selection is Some,
    ensures
        c.dragged(line, col).start_line == c.selection->0.start_line,
        c.dragged(line, col).start_col == c.selection->0.start_col,
        c.dragged(line, col).end_line == line,
        c.dragged(line, col).end_col == col,
{
}

/// The keys move the view the way that they say. Home (0x24) goes to the first row and
/// End (0x23) to the last page; the arrow up (0x26) goes up by one row and the arrow down
/// (0x28) down by one; Page Up (0x21) never goes down and Page Down (0x22) never up, each
/// by three quarters of a page where there is room.
pub proof fn law_keys_move_the_view(
    vk: u16,
    ctrl: bool,
    shift: bool,
    scroll: &mut ScrollState,
    total: u64,
    r: (Option<KeyCommand>, Option<KeyCommand>),
    cmd: KeyCommand,
    moved: bool,
)
    requires
        call_ensures(on_key, (vk, ctrl, shift, old(scroll).page_size_lines), r),
        call_ensures(scroll_by_key, (scroll, cmd, total), moved),
        r.1 == Some(cmd),
        old(scroll).wf(),
        1 <= old(scroll).page_size_lines <= i32::MAX,
        old(scroll).y + old(scroll).page_size_lines <= old(scroll).rows(total),
    ensures
        vk == 0x24 ==> moved && final(scroll).y == 0,
        vk == 0x23 ==> moved && final(scroll).y + old(scroll).page_size_lines == old(scroll).rows(
            total,
        ),
        vk == 0x26 && !ctrl ==> moved && final(scroll).y == if old(scroll).y > 0 {
            old(scroll).y - 1
        } else {
            0
        },
        vk == 0x28 && !ctrl ==> moved && final(scroll).y == old(scroll).y + 1,
        vk == 0x21 && !ctrl ==> {
            &&& moved
            &&& 0 <= final(scroll).y <= old(scroll).y
            &&& 4 * (old(scroll).y - final(scroll).y) <= 3 * old(scroll).page_size_lines + 3
            &&& final(scroll).y > 0 ==> 4 * (old(scroll).y - final(scroll).y) >= 3 * old(scroll).page_size_lines
        },
        vk == 0x22 && !ctrl ==> {
            &&& moved
            &&& old(scroll).y <= final(scroll).y
            &&& final(scroll).y + old(scroll).page_size_lines <= old(scroll).rows(total)
            &&& final(scroll).y + old(scroll).page_size_lines < old(scroll).rows(total) ==> 4 * (
            final(scroll).y - old(scroll).y) >= 3 * old(scroll).page_size_lines
        },
        final(scroll).h_scroll == old(scroll).h_scroll,
{
}

/// The keys that move the view have a command, by themselves or, but for Home and End,
/// without Ctrl only.
pub proof fn law_moving_keys_have_commands(
    vk: u16,
    ctrl: bool,
    shift: bool,
    page: i64,
    r: (Option<KeyCommand>, Option<KeyCommand>),
)
    requires
        call_ensures(on_key, (vk, ctrl, shift, page), r),
        page <= i32::MAX,
    ensures
        vk == 0x24 || vk == 0x23 ==> r.1 is Some,
        (vk == 0x21 || vk == 0x22 || vk == 0x26 || vk == 0x28) ==> (r.1 is Some) == !ctrl,
        !ctrl ==> r.0 is None,
{
}

/// Each letter has its command with Ctrl: O opens a file, R reads it again, W closes it, F
/// searches, L goes to a line, I shows what the file is, C copies, G goes to the next
/// match and with Shift to the one before, T with Shift takes the next theme; plus, minus
/// and 0 change the font size.
pub proof fn law_ctrl_keys_have_their_commands(
    vk: u16,
    shift: bool,
    page: i64,
    r: (Option<KeyCommand>, Option<KeyCommand>),
)
    requires
        call_ensures(on_key, (vk, true, shift, page), r),
        page <= i32::MAX,
    ensures
        vk == 'O' as u32 ==> r.0 == Some(KeyCommand::PickFile),
        vk == 'R' as u32 ==> r.0 == Some(KeyCommand::ReopenFile),
        vk == 'W' as u32 ==> r.0 == Some(KeyCommand::CloseFile),
        vk == 'F' as u32 ==> r.0 == Some(KeyCommand::FocusSearch),
        vk == 'L' as u32 ==> r.0 == Some(KeyCommand::FocusGoto),
        vk == 'I' as u32 ==> r.0 == Some(KeyCommand::ShowProperties),
        vk == 'C' as u32 ==> r.0 == Some(KeyCommand::CopySelection),
        vk == 'G' as u32 && !shift ==> r.0 == Some(KeyCommand::JumpNext),
        vk == 'G' as u32 && shift ==> r.0 == Some(KeyCommand::JumpPrev),
        vk == 'T' as u32 && shift ==> r.0 == Some(KeyCommand::CycleTheme),
        vk == '0' as u32 ==> r.0 == Some(KeyCommand::FontReset),
        vk == 0xBB ==> r.0 == Some(KeyCommand::FontBigger),
        vk == 0xBD ==> r.0 == Some(KeyCommand::FontSmaller),
        'A' as u32 <= vk <= 'Z' as u32 ==> r.1 is None,
{
}

/// F3 goes to the next match and with Shift to the one before, as Ctrl and G do; Escape
/// forgets the search, and F1 shows the help.
pub proof fn law_function_keys_have_their_commands(
    ctrl: bool,
    shift: bool,
    page: i64,
    f3: (Option<KeyCommand>, Option<KeyCommand>),
    g: (Option<KeyCommand>, Option<KeyCommand>),
    escape: (Option<KeyCommand>, Option<KeyCommand>),
    f1: (Option<KeyCommand>, Option<KeyCommand>),
)
    requires
        call_ensures(on_key, (0x72u16, ctrl, shift, page), f3),
        call_ensures(on_key, (0x47u16, true, shift, page), g),
        call_ensures(on_key, (0x1Bu16, ctrl, shift, page), escape),
        call_ensures(on_key, (0x70u16, ctrl, shift, page), f1),
    ensures
        f3.1 == g.0,
        f3.1 == Some(
            if shift {
                KeyCommand::JumpPrev
            } else {
                KeyCommand::JumpNext
            },
        ),
        escape.1 == Some(KeyCommand::ClearSearch),
        f1.1 == Some(KeyCommand::ShowHelp),
{
}

/// A point comes back from the number that it is sent as, and so does a command with its
/// notification.
pub proof fn law_points_come_back(x: u16, y: u16, n: u32, point: (i32, i32), command: (u16, u16))
    requires
        n == y * 0x1_0000 + x,
        call_ensures(decode_point, (n,), point),
        call_ensures(decode_command, (n,), command),
    ensures
        point == (x as i32, y as i32),
        command == (x, y),
{
}

/// A movement of the wheel comes back from the number that it is sent as, with its sign
/// and with the keys that are held.
pub proof fn law_wheel_movements_come_back(
    delta: i16,
    shift: bool,
    ctrl: bool,
    others: u16,
    n: u64,
    r: Wheel,
)
    requires
        others < 4 || others % 16 < 4,
        n == (if delta >= 0 {
            delta as int
        } else {
            delta + 0x1_0000
        }) * 0x1_0000 + (if shift {
            4int
        } else {
            0
        }) + (if ctrl {
            8int
        } else {
            0
        }) + others,
        others <= 0xFFF0,
        call_ensures(decode_wheel, (n,), r),
    ensures
        r.delta == delta,
        r.shift == shift,
        r.ctrl == ctrl,
{
}

/// Turning the wheel up goes up and to the left, and turning it down the other way, by a
/// line for every 40 units and 40 pixels for every 120; with Ctrl the font grows and
/// shrinks by a pixel between 8 and 36.
pub proof fn law_the_wheel_goes_its_way(w: &Wheel, font_px: i32, r: WheelAction)
    requires
        call_ensures(wheel_action, (w, font_px), r),
        -0x8000 <= w.delta < 0x8000,
        8 <= font_px <= 36,
    ensures
        w.ctrl ==> r is Font && 8 <= r->Font_0 <= 36,
        w.ctrl && w.delta > 0 && font_px < 36 ==> r->Font_0 == font_px + 1,
        w.ctrl && w.delta < 0 && font_px > 8 ==> r->Font_0 == font_px - 1,
        w.ctrl && w.delta == 0 ==> r->Font_0 == font_px,
        !w.ctrl && w.shift ==> r is Pan,
        !w.ctrl && w.shift && w.delta >= 0 ==> r->Pan_0 <= 0 && 3 * -r->Pan_0 <= w.delta < 3 * -r->Pan_0
            + 120,
        !w.ctrl && w.shift && w.delta < 0 ==> r->Pan_0 >= 0 && 3 * r->Pan_0 <= -w.delta < 3 * r->Pan_0
            + 120,
        !w.ctrl && !w.shift ==> r is Lines,
        !w.ctrl && !w.shift && w.delta >= 0 ==> 40 * -r->Lines_0 <= w.delta < 40 * -r->Lines_0 + 40,
        !w.ctrl && !w.shift && w.delta < 0 ==> 40 * r->Lines_0 <= -w.delta < 40 * r->Lines_0 + 40,
{
}

/// A division towards zero leaves less than the divisor over, with the sign of what was
/// divided.
pub proof fn law_division_goes_towards_zero(a: i32, b: i32, r: i32)
    requires
        call_ensures(trunc, (a, b), r),
        b > 0,
    ensures
        a >= 0 ==> r >= 0 && b * r <= a < b * (r + 1),
        a < 0 ==> r <= 0 && b * r >= a > b * (r - 1),
{
    if a >= 0 {
        assert(r >= 0 && b * r <= a < b * (r + 1)) by (nonlinear_arith)
            requires
                r == (a as int) / (b as int),
                b > 0,
                a >= 0,
        ;
    } else {
        let q = (-a) / (b as int);
        assert(q >= 0 && b * q <= -a < b * (q + 1)) by (nonlinear_arith)
            requires
                q == (-a) / (b as int),
                b > 0,
                a < 0,
        ;
        assert(b * r == -(b * q) && b * (r - 1) == -(b * (q + 1))) by (nonlinear_arith)
            requires
                r == -q,
        ;
    }
}

/// A search that is done no longer runs, and goes to the top of the view where it found
/// something; an index that is done brings the number of lines; while something goes on
/// the timer is faster.
pub proof fn law_background_work_arrives(
    search: &mut SearchState,
    file: &mut FileStatus,
    poll: &Poll,
    r: TickResult,
)
    requires
        call_ensures(on_timer, (search, file, poll), r),
        poll.file_open,
    ensures
        poll.search_done ==> !final(search).searching && r.repaint,
        poll.search_done && poll.matches > 0 ==> r.anchor_search && !r.drop_hit && final(search).total == poll.matches,
        poll.search_done && poll.matches == 0 ==> !r.anchor_search && r.drop_hit,
        !poll.search_done ==> final(search).searching == old(search).searching && !r.anchor_search
            && !r.drop_hit,
        poll.index_done ==> r.repaint && final(file).lines == poll.line_count && final(file).size
            == poll.size,
        !poll.index_done ==> final(file).lines == old(file).lines,
        !poll.index_done && !poll.search_done ==> !r.repaint,
        r.interval == if poll.indexing || (old(search).searching && !poll.search_done) {
            100int
        } else {
            500
        },
{
}

/// The buttons have their commands, by their numbers.
pub proof fn law_buttons_have_their_commands(id: u16, code: u16, r: WindowCommand)
    requires
        call_ensures(on_command, (id, code), r),
        code != 0,
    ensures
        id == 2001 ==> r == WindowCommand::PickFile,
        id == 2002 ==> r == WindowCommand::CloseFile,
        id == 2003 ==> r == WindowCommand::ReopenFile,
        id == 2102 ==> r == WindowCommand::SubmitSearch,
        id == 2103 ==> r == WindowCommand::JumpPrev,
        id == 2104 ==> r == WindowCommand::JumpNext,
        id == 2202 ==> r == WindowCommand::SubmitGoto,
        id == 2301 ==> r == WindowCommand::FontBigger,
        id == 2302 ==> r == WindowCommand::FontSmaller,
        !(2001 <= id <= 2302) ==> r == WindowCommand::Nothing,
{
}

/// Enter in the box of the search searches and in that of the line goes to it: the number
/// that it posts is one that means that. With Shift it is left to the box of the search.
pub proof fn law_enter_submits(
    kind: EditKind,
    shift: bool,
    alt: bool,
    r: EditAction,
    id: u16,
    cmd: WindowCommand,
)
    requires
        call_ensures(edit_key, (kind, 0x0Du16, shift, alt), r),
        call_ensures(on_command, (id, 1u16), cmd),
    ensures
        r == EditAction::Post(id) ==> cmd == match kind {
            EditKind::Search => WindowCommand::SubmitSearch,
            EditKind::Goto => WindowCommand::SubmitGoto,
        },
        (r is Post) == !(kind == EditKind::Search && shift),
        !(r is Post) ==> r == EditAction::PassOn,
{
}

/// Alt and the arrow down take the next query of the history in the box of the search;
/// every other key but Enter is left to the box.
pub proof fn law_other_keys_are_left_to_the_box(
    kind: EditKind,
    vk: u16,
    shift: bool,
    alt: bool,
    r: EditAction,
)
    requires
        call_ensures(edit_key, (kind, vk, shift, alt), r),
        vk != 0x0D,
    ensures
        (r == EditAction::NextHistory) == (vk == 0x28 && alt && kind == EditKind::Search),
        r == EditAction::NextHistory || r == EditAction::PassOn,
{
}

/// The history is gone through one by one and from its end to its start.
pub proof fn law_the_history_is_gone_through(
    history: &Vec<String>,
    current: &str,
    i: int,
    r: Option<usize>,
)
    requires
        call_ensures(next_history, (history, current), r),
        0 <= i < history@.len(),
        history@[i]@ == current@,
        forall|k: int| 0 <= k < i ==> (#[trigger] history@[k])@ != current@,
    ensures
        i + 1 < history@.len() ==> r == Some((i + 1) as usize),
        i + 1 == history@.len() ==> r == Some(0usize),
{
    assert(is_first_at(history@, current@, i));
}

/// A press on the thumb of a scroll bar takes hold of it, one on a label of the status
/// bar or on the cancel button of the progress row hits that, and one in the text selects.
pub proof fn law_presses_hit_what_is_there(
    x: i32,
    y: i32,
    areas: &HitAreas,
    r: PressTarget,
)
    requires
        call_ensures(press_target, (x, y, None, areas), r),
        38 <= y < areas.client_h,
        areas.client_h >= 100,
    ensures
        inside(areas.vsb_thumb, x, y) ==> r == PressTarget::VerticalThumb,
        inside(areas.hsb_thumb, x, y) && !inside(areas.vsb_thumb, x, y) ==> r
            == PressTarget::HorizontalThumb,
        !inside(areas.vsb_thumb, x, y) && !inside(areas.hsb_thumb, x, y) ==> {
            &&& y < areas.client_h - 40 && x < areas.text_right ==> r == PressTarget::Text
            &&& y >= areas.client_h - 24 && inside(areas.progress_cancel, x, y) ==> r
                == PressTarget::CancelProgress
            &&& y >= areas.client_h - 24 && !inside(areas.progress_cancel, x, y) && inside(
                areas.encoding,
                x,
                y,
            ) ==> r == PressTarget::EncodingLabel
            &&& y >= areas.client_h - 24 && !inside(areas.progress_cancel, x, y) && !inside(
                areas.encoding,
                x,
                y,
            ) && inside(areas.annotations, x, y) ==> r == PressTarget::AnnotationLabel
            &&& y < areas.client_h - 40 && x >= areas.text_right ==> r == PressTarget::Nothing
        },
{
}

/// A pixel lies in a rectangle or on its edges.
pub open spec fn inside(r: Rect, x: i32, y: i32) -> bool {
    r.left <= x <= r.right && r.top <= y <= r.bottom
}

/// A press on a button of the toolbar hits that button.
pub proof fn law_toolbar_buttons_are_hit(
    x: i32,
    y: i32,
    button: ToolbarAction,
    areas: &HitAreas,
    r: PressTarget,
)
    requires
        call_ensures(press_target, (x, y, Some(button), areas), r),
        y < 36,
    ensures
        r == PressTarget::Toolbar(button),
{
}

/// What is pressed and dragged over is selected: the selection goes from the place of the
/// press to that of the drag, and letting go ends it and keeps it.
pub proof fn law_dragging_selects(
    a: &mut Capture,
    b: &mut Capture,
    c: &mut Capture,
    from: (u64, usize),
    to: (u64, usize),
    pressed: (),
    dragged: (),
    r: ReleaseAction,
    y: i32,
    target: MoveTarget,
)
    requires
        call_ensures(Capture::press_text, (a, from.0, from.1), pressed),
        *old(b) == *final(a),
        call_ensures(Capture::drag_text, (b, to.0, to.1), dragged),
        *old(c) == *final(b),
        call_ensures(Capture::release, (c,), r),
        call_ensures(Capture::move_target, (&*final(a), y), target),
        old(a).toolbar_pressed is None,
        y >= 36,
    ensures
        target == MoveTarget::Selection,
        final(c).selection == Some(
            Selection { start_line: from.0, start_col: from.1, end_line: to.0, end_col: to.1 },
        ),
        r == ReleaseAction::EndSelection,
        !final(c).selecting,
        final(c).thumb_dragging == old(a).thumb_dragging,
{
}

/// A button that was pressed acts once it is let go of, and only once.
pub proof fn law_pressed_buttons_act_once(
    a: &mut Capture,
    b: &mut Capture,
    first: ReleaseAction,
    second: ReleaseAction,
    button: ToolbarAction,
)
    requires
        old(a).toolbar_pressed == Some(button),
        call_ensures(Capture::release, (a,), first),
        *old(b) == *final(a),
        call_ensures(Capture::release, (b,), second),
    ensures
        first == ReleaseAction::Click(button),
        !(second is Click),
        final(a).selection == old(a).selection,
{
}

/// A thumb that is held is moved by the pointer, unless a selection is made, and letting
/// go ends that.
pub proof fn law_thumbs_are_dragged(a: &mut Capture, y: i32, target: MoveTarget, r: ReleaseAction)
    requires
        old(a).thumb_dragging && !old(a).selecting && old(a).toolbar_pressed is None,
        call_ensures(Capture::move_target, (&*old(a), y), target),
        call_ensures(Capture::release, (a,), r),
        y >= 36,
    ensures
        target == MoveTarget::Thumb,
        r == ReleaseAction::EndDrag,
        !final(a).thumb_dragging,
{
}

/// The button under the pointer is the one that lights up; away from the toolbar none does.
pub proof fn law_the_pointer_lights_buttons(
    a: &mut Capture,
    b: &mut Capture,
    y: i32,
    button: Option<ToolbarAction>,
    changed: bool,
    again: bool,
)
    requires
        call_ensures(Capture::hover, (a, y, button), changed),
        *old(b) == *final(a),
        call_ensures(Capture::hover, (b, y, button), again),
    ensures
        y < 36 ==> final(a).toolbar_hover == button,
        y >= 36 ==> final(a).toolbar_hover is None,
        !again,
        !changed ==> *final(a) == *old(a),
{
}

/// The menu of the selection opens over the text where something is selected; its first
/// entry copies and its second annotates.
pub proof fn law_the_menu_of_the_selection(
    c: &Capture,
    y: i32,
    opens: bool,
    first: ContextCommand,
    second: ContextCommand,
    cancelled: ContextCommand,
)
    requires
        call_ensures(Capture::opens_context_menu, (c, y), opens),
        call_ensures(context_command, (1i32,), first),
        call_ensures(context_command, (2i32,), second),
        call_ensures(context_command, (0i32,), cancelled),
    ensures
        opens == (y >= 38 && c.selection is Some),
        first == ContextCommand::CopySelection,
        second == ContextCommand::AddAnnotation,
        cancelled == ContextCommand::Nothing,
{
}

/// A drag is held at the edges of the text. Above it the text scrolls up and below it
/// down, by 12 lines for every 100 pixels, and the farther the faster.
pub proof fn law_drags_scroll_the_text(
    x: i32,
    y: i32,
    far: i32,
    top: i32,
    bottom: i32,
    left: i32,
    right: i32,
    can_pan: bool,
    r: DragStep,
    q: DragStep,
)
    requires
        call_ensures(drag_step, (x, y, top, bottom, left, right, can_pan), r),
        call_ensures(drag_step, (x, far, top, bottom, left, right, can_pan), q),
        top <= bottom,
        left <= right,
    ensures
        top <= r.y <= bottom,
        top <= y <= bottom ==> r.y == y && r.lines == 0,
        y < top ==> r.lines <= 0 && 100 * -r.lines <= 12 * (top - y) < 100 * -r.lines + 100,
        y > bottom ==> r.lines >= 0 && 100 * r.lines <= 12 * (y - bottom) < 100 * r.lines + 100,
        far <= y ==> q.lines <= r.lines,
        can_pan ==> left <= r.x <= right,
        !can_pan ==> r.x == x && r.pan == 0,
        left <= x <= right ==> r.x == x && r.pan == 0,
        can_pan && x > right ==> r.pan >= 0 && 100 * r.pan <= 12 * (x - right) < 100 * r.pan + 100,
{
}

/// Below the toolbar and its edge the whole window is the view.
pub proof fn law_the_view_reaches_to_the_edges(w: i32, h: i32, r: Rect)
    requires
        call_ensures(view_area, (w, h), r),
    ensures
        r.left == 0 && r.right == w && r.bottom == h && r.top == 38,
{
}

} // verus!
