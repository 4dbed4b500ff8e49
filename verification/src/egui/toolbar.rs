//! The toolbar: what it shows, and what its buttons and keys do.

use vstd::prelude::*;

use crate::egui::viewer::Color;

verus! {

broadcast use vstd::string::group_string_axioms;

/// Most rows that the search box grows to.
pub const MAX_SEARCH_ROWS: usize = 3;

/// A button, box or label of the toolbar.
#[derive(Clone, Copy, Debug, PartialEq, Eq, Structural)]
pub enum ToolbarItem {
    New,
    Open,
    Close,
    CaseSensitive,
    Regex,
    WholeWord,
    SearchBox,
    Find,
    Clear,
    Stop,
    Prev,
    Next,
    SearchStatus,
    Edit,
    ModifiedMark,
    Save,
    SaveAs,
    Agent,
    Goto,
    GotoBox,
}

/// What decides on the items of the toolbar.
#[derive(Clone, Copy, Debug)]
pub struct ToolbarState {
    pub file_open: bool,
    pub searching: bool,
    pub has_status: bool,
    pub edit_mode: bool,
    pub modified: bool,
    pub is_new_file: bool,
}

/// An item where a condition holds.
pub open spec fn item_if(shown: bool, item: ToolbarItem) -> Seq<ToolbarItem> {
    if shown {
        seq![item]
    } else {
        Seq::empty()
    }
}

impl ToolbarState {
    /// Items of the toolbar, from left to right.
    pub open spec fn items(self) -> Seq<ToolbarItem> {
        let editing = self.file_open && self.edit_mode;
        seq![ToolbarItem::New, ToolbarItem::Open] + item_if(self.file_open, ToolbarItem::Close)
            + seq![
            ToolbarItem::CaseSensitive,
            ToolbarItem::Regex,
            ToolbarItem::WholeWord,
            ToolbarItem::SearchBox,
            ToolbarItem::Find,
            ToolbarItem::Clear,
        ] + item_if(self.file_open && self.searching, ToolbarItem::Stop) + seq![
            ToolbarItem::Prev,
            ToolbarItem::Next,
        ] + item_if(self.has_status, ToolbarItem::SearchStatus) + item_if(
            self.file_open,
            ToolbarItem::Edit,
        ) + item_if(editing && self.modified, ToolbarItem::ModifiedMark) + item_if(
            editing,
            ToolbarItem::Save,
        ) + item_if(editing && !self.is_new_file, ToolbarItem::SaveAs) + seq![
            ToolbarItem::Agent,
            ToolbarItem::GotoBox,
            ToolbarItem::Goto,
        ]
    }

    /// Items of the toolbar, from left to right. A new file has no place yet,
    /// so that saving asks for one, and there is no separate save-as for it.
    pub fn toolbar_items(&self) -> (r: Vec<ToolbarItem>)
        ensures
            r@ == self.items(),
    {
        let mut v: Vec<ToolbarItem> = Vec::new();
        v.push(ToolbarItem::New);
        v.push(ToolbarItem::Open);
        if self.file_open {
            v.push(ToolbarItem::Close);
        }
        v.push(ToolbarItem::CaseSensitive);
        v.push(ToolbarItem::Regex);
        v.push(ToolbarItem::WholeWord);
        v.push(ToolbarItem::SearchBox);
        v.push(ToolbarItem::Find);
        v.push(ToolbarItem::Clear);
        if self.file_open && self.searching {
            v.push(ToolbarItem::Stop);
        }
        v.push(ToolbarItem::Prev);
        v.push(ToolbarItem::Next);
        if self.has_status {
            v.push(ToolbarItem::SearchStatus);
        }
        if self.file_open {
            v.push(ToolbarItem::Edit);
            if self.edit_mode {
                if self.modified {
                    v.push(ToolbarItem::ModifiedMark);
                }
                v.push(ToolbarItem::Save);
                if !self.is_new_file {
                    v.push(ToolbarItem::SaveAs);
                }
            }
        }
        v.push(ToolbarItem::Agent);
        v.push(ToolbarItem::GotoBox);
        v.push(ToolbarItem::Goto);
        assert(v@ =~= self.items());
        v
    }
}

/// Options of a search.
#[derive(Clone, Copy, Debug, PartialEq, Eq, Structural)]
pub struct SearchFlags {
    pub case_sensitive: bool,
    pub use_regex: bool,
    pub whole_word: bool,
}

/// What a click asks the application to do.
#[derive(Clone, Copy, Debug, PartialEq, Eq, Structural)]
pub enum ToolbarAction {
    NewFile,
    PickFile,
    CloseFile,
    RunSearch,
    ClearSearch,
    CancelSearch,
    /// To the match before the current one.
    JumpPrev,
    /// To the match behind the current one.
    JumpNext,
    ToggleEdit,
    SaveFile,
    SaveFileAs,
    ToggleAgent,
    GotoLine,
    /// Nothing beyond what the click changed.
    Nothing,
}

/// What a click on an item asks for.
pub open spec fn action_of(item: ToolbarItem) -> ToolbarAction {
    match item {
        ToolbarItem::New => ToolbarAction::NewFile,
        ToolbarItem::Open => ToolbarAction::PickFile,
        ToolbarItem::Close => ToolbarAction::CloseFile,
        ToolbarItem::Find => ToolbarAction::RunSearch,
        ToolbarItem::Clear => ToolbarAction::ClearSearch,
        ToolbarItem::Stop => ToolbarAction::CancelSearch,
        ToolbarItem::Prev => ToolbarAction::JumpPrev,
        ToolbarItem::Next => ToolbarAction::JumpNext,
        ToolbarItem::Edit => ToolbarAction::ToggleEdit,
        ToolbarItem::Save => ToolbarAction::SaveFile,
        ToolbarItem::SaveAs => ToolbarAction::SaveFileAs,
        ToolbarItem::Agent => ToolbarAction::ToggleAgent,
        ToolbarItem::Goto => ToolbarAction::GotoLine,
        _ => ToolbarAction::Nothing,
    }
}

/// Search options after a click: an option's button flips the option, and
/// nothing else changes.
pub open spec fn flags_after(flags: SearchFlags, item: ToolbarItem) -> SearchFlags {
    match item {
        ToolbarItem::CaseSensitive => SearchFlags {
            case_sensitive: !flags.case_sensitive,
            ..flags
        },
        ToolbarItem::Regex => SearchFlags { use_regex: !flags.use_regex, ..flags },
        ToolbarItem::WholeWord => SearchFlags { whole_word: !flags.whole_word, ..flags },
        _ => flags,
    }
}

/// Handles a click on an item. Flipping an option does not search: the next
/// search applies it.
pub fn on_click(item: ToolbarItem, flags: &mut SearchFlags) -> (r: ToolbarAction)
    ensures
        r == action_of(item),
        *final(flags) == flags_after(*old(flags), item),
{
    match item {
        ToolbarItem::New => ToolbarAction::NewFile,
        ToolbarItem::Open => ToolbarAction::PickFile,
        ToolbarItem::Close => ToolbarAction::CloseFile,
        ToolbarItem::CaseSensitive => {
            flags.case_sensitive = !flags.case_sensitive;
            ToolbarAction::Nothing
        },
        ToolbarItem::Regex => {
            flags.use_regex = !flags.use_regex;
            ToolbarAction::Nothing
        },
        ToolbarItem::WholeWord => {
            flags.whole_word = !flags.whole_word;
            ToolbarAction::Nothing
        },
        ToolbarItem::Find => ToolbarAction::RunSearch,
        ToolbarItem::Clear => ToolbarAction::ClearSearch,
        ToolbarItem::Stop => ToolbarAction::CancelSearch,
        ToolbarItem::Prev => ToolbarAction::JumpPrev,
        ToolbarItem::Next => ToolbarAction::JumpNext,
        ToolbarItem::Edit => ToolbarAction::ToggleEdit,
        ToolbarItem::Save => ToolbarAction::SaveFile,
        ToolbarItem::SaveAs => ToolbarAction::SaveFileAs,
        ToolbarItem::Agent => ToolbarAction::ToggleAgent,
        ToolbarItem::Goto => ToolbarAction::GotoLine,
        ToolbarItem::SearchBox | ToolbarItem::SearchStatus | ToolbarItem::ModifiedMark
        | ToolbarItem::GotoBox => ToolbarAction::Nothing,
    }
}

/// What the Enter key does in the search box.
#[derive(Clone, Copy, Debug, PartialEq, Eq, Structural)]
pub enum SearchEnter {
    /// Nothing: the box does not have the focus, or the key is not pressed.
    Ignore,
    /// A line break is put in at the caret.
    InsertNewline,
    /// The search runs, and the key goes no further.
    RunSearch,
}

/// What the Enter key does in the search box: it searches, and with Shift, Ctrl
/// or Command it puts a line break in.
pub fn search_enter(focused: bool, enter: bool, shift: bool, ctrl: bool, command: bool) -> (r:
    SearchEnter)
    ensures
        r == if !(focused && enter) {
            SearchEnter::Ignore
        } else if shift || ctrl || command {
            SearchEnter::InsertNewline
        } else {
            SearchEnter::RunSearch
        },
{
    if !(focused && enter) {
        SearchEnter::Ignore
    } else if shift || ctrl || command {
        SearchEnter::InsertNewline
    } else {
        SearchEnter::RunSearch
    }
}

/// Keys that are held with another.
#[derive(Clone, Copy, Debug, PartialEq, Eq, Structural)]
pub struct KeyMods {
    pub shift: bool,
    pub ctrl: bool,
    pub command: bool,
    pub alt: bool,
    pub mac_cmd: bool,
}

/// What is left of a pressed Enter for the search box: nothing where it
/// searches, and no held keys where it puts a line break in.
pub fn enter_for_box(what: SearchEnter, mods: KeyMods) -> (r: Option<KeyMods>)
    ensures
        r == match what {
            SearchEnter::Ignore => Some(mods),
            SearchEnter::InsertNewline => Some(
                KeyMods { shift: false, ctrl: false, command: false, alt: false, mac_cmd: false },
            ),
            SearchEnter::RunSearch => None,
        },
{
    match what {
        SearchEnter::Ignore => Some(mods),
        SearchEnter::InsertNewline => Some(
            KeyMods { shift: false, ctrl: false, command: false, alt: false, mac_cmd: false },
        ),
        SearchEnter::RunSearch => None,
    }
}

/// Whether leaving the line number box goes to the line: only with Enter.
pub fn goto_enter(lost_focus: bool, enter: bool) -> (r: bool)
    ensures
        r == (lost_focus && enter),
{
    lost_focus && enter
}

/// Number of line breaks in the first `n` characters.
pub open spec fn newlines(s: Seq<char>, n: int) -> nat
    decreases n,
{
    if n <= 0 {
        0
    } else {
        newlines(s, n - 1) + (if s[n - 1] == '\n' {
            1nat
        } else {
            0nat
        })
    }
}

/// Rows of the search box: one for each line of the query, at most three.
pub fn search_rows(input: &str) -> (r: usize)
    ensures
        r == if newlines(input@, input@.len() as int) + 1 <= MAX_SEARCH_ROWS {
            newlines(input@, input@.len() as int) + 1
        } else {
            MAX_SEARCH_ROWS as nat
        },
{
    let mut rows: usize = 1;
    for c in it: input.chars()
        invariant
            it.seq() == input@,
            1 <= rows <= MAX_SEARCH_ROWS,
            rows == if newlines(input@, it.index() as int) + 1 <= MAX_SEARCH_ROWS {
                newlines(input@, it.index() as int) + 1
            } else {
                MAX_SEARCH_ROWS as nat
            },
    {
        if c == '\n' && rows < MAX_SEARCH_ROWS {
            rows = rows + 1;
        }
    }
    rows
}

/// Fill colour of an item's button; `active` tells whether what it switches is
/// on.
pub open spec fn fill_of(item: ToolbarItem, active: bool) -> Option<Color> {
    match item {
        ToolbarItem::New | ToolbarItem::Find | ToolbarItem::Save => Some(
            Color { r: 15, g: 157, b: 89, a: 255 },
        ),
        ToolbarItem::Open => Some(Color { r: 33, g: 115, b: 237, a: 255 }),
        ToolbarItem::Close | ToolbarItem::Stop => Some(Color { r: 218, g: 67, b: 74, a: 255 }),
        ToolbarItem::CaseSensitive | ToolbarItem::Regex | ToolbarItem::WholeWord => if active {
            Some(Color { r: 33, g: 115, b: 237, a: 255 })
        } else {
            Some(Color { r: 58, g: 66, b: 82, a: 255 })
        },
        ToolbarItem::Clear => Some(Color { r: 110, g: 118, b: 130, a: 255 }),
        ToolbarItem::Prev | ToolbarItem::Next => Some(Color { r: 70, g: 80, b: 96, a: 255 }),
        ToolbarItem::Edit => if active {
            Some(Color { r: 15, g: 157, b: 89, a: 255 })
        } else {
            Some(Color { r: 58, g: 66, b: 82, a: 255 })
        },
        ToolbarItem::SaveAs | ToolbarItem::Goto => Some(Color { r: 133, g: 93, b: 204, a: 255 }),
        ToolbarItem::Agent => if active {
            Some(Color { r: 88, g: 70, b: 160, a: 255 })
        } else {
            Some(Color { r: 58, g: 66, b: 82, a: 255 })
        },
        _ => None,
    }
}

/// Fill colour of an item's button, `None` for what is not a button.
pub fn item_fill(item: ToolbarItem, active: bool) -> (r: Option<Color>)
    ensures
        r == fill_of(item, active),
{
    let green: Color = Color { r: 15, g: 157, b: 89, a: 255 };
    let blue: Color = Color { r: 33, g: 115, b: 237, a: 255 };
    let red: Color = Color { r: 218, g: 67, b: 74, a: 255 };
    let idle: Color = Color { r: 58, g: 66, b: 82, a: 255 };
    let violet: Color = Color { r: 133, g: 93, b: 204, a: 255 };
    match item {
        ToolbarItem::New | ToolbarItem::Find | ToolbarItem::Save => Some(green),
        ToolbarItem::Open => Some(blue),
        ToolbarItem::Close | ToolbarItem::Stop => Some(red),
        ToolbarItem::CaseSensitive | ToolbarItem::Regex | ToolbarItem::WholeWord => if active {
            Some(blue)
        } else {
            Some(idle)
        },
        ToolbarItem::Clear => Some(Color { r: 110, g: 118, b: 130, a: 255 }),
        ToolbarItem::Prev | ToolbarItem::Next => Some(Color { r: 70, g: 80, b: 96, a: 255 }),
        ToolbarItem::Edit => if active {
            Some(green)
        } else {
            Some(idle)
        },
        ToolbarItem::SaveAs | ToolbarItem::Goto => Some(violet),
        ToolbarItem::Agent => if active {
            Some(Color { r: 88, g: 70, b: 160, a: 255 })
        } else {
            Some(idle)
        },
        ToolbarItem::SearchBox | ToolbarItem::SearchStatus | ToolbarItem::ModifiedMark
        | ToolbarItem::GotoBox => None,
    }
}

/// Text on an item: the label of a button, the hint in an empty box. The
/// search status brings its own text.
pub open spec fn label_of(item: ToolbarItem) -> Seq<char> {
    match item {
        ToolbarItem::New => "新建"@,
        ToolbarItem::Open => "打开"@,
        ToolbarItem::Close => "关闭"@,
        ToolbarItem::CaseSensitive => "Aa"@,
        ToolbarItem::Regex => ".*"@,
        ToolbarItem::WholeWord => "\\b"@,
        ToolbarItem::SearchBox => "输入关键词...  Enter 搜索 / Shift+Enter 换行"@,
        ToolbarItem::Find => "查找"@,
        ToolbarItem::Clear => "清空"@,
        ToolbarItem::Stop => "停止"@,
        ToolbarItem::Prev => "<"@,
        ToolbarItem::Next => ">"@,
        ToolbarItem::SearchStatus => ""@,
        ToolbarItem::Edit => "🖊 编辑"@,
        ToolbarItem::ModifiedMark => "● 已修改"@,
        ToolbarItem::Save => "保存"@,
        ToolbarItem::SaveAs => "另存为"@,
        ToolbarItem::Agent => "☯ 器灵小Q"@,
        ToolbarItem::Goto => "跳转"@,
        ToolbarItem::GotoBox => "行号"@,
    }
}

/// Text on an item: the label of a button, the hint in an empty box.
pub fn item_label(item: ToolbarItem) -> (r: &'static str)
    ensures
        r@ == label_of(item),
{
    match item {
        ToolbarItem::New => "新建",
        ToolbarItem::Open => "打开",
        ToolbarItem::Close => "关闭",
        ToolbarItem::CaseSensitive => "Aa",
        ToolbarItem::Regex => ".*",
        ToolbarItem::WholeWord => "\\b",
        ToolbarItem::SearchBox => "输入关键词...  Enter 搜索 / Shift+Enter 换行",
        ToolbarItem::Find => "查找",
        ToolbarItem::Clear => "清空",
        ToolbarItem::Stop => "停止",
        ToolbarItem::Prev => "<",
        ToolbarItem::Next => ">",
        ToolbarItem::SearchStatus => "",
        ToolbarItem::Edit => "🖊 编辑",
        ToolbarItem::ModifiedMark => "● 已修改",
        ToolbarItem::Save => "保存",
        ToolbarItem::SaveAs => "另存为",
        ToolbarItem::Agent => "☯ 器灵小Q",
        ToolbarItem::Goto => "跳转",
        ToolbarItem::GotoBox => "行号",
    }
}

/// What is shown while the pointer rests on an item.
pub fn item_tip(item: ToolbarItem) -> (r: Option<&'static str>)
    ensures
        match r {
            Some(tip) => tip@ == match item {
                ToolbarItem::CaseSensitive => "大小写敏感"@,
                ToolbarItem::Regex => "正则表达式"@,
                ToolbarItem::WholeWord => "整词匹配"@,
                ToolbarItem::Prev => "上一个匹配"@,
                ToolbarItem::Next => "下一个匹配"@,
                _ => "器灵 AI 助手 — 浮动聊天窗口"@,
            },
            None => true,
        },
        r is Some == (item == ToolbarItem::CaseSensitive || item == ToolbarItem::Regex || item
            == ToolbarItem::WholeWord || item == ToolbarItem::Prev || item == ToolbarItem::Next
            || item == ToolbarItem::Agent),
{
    match item {
        ToolbarItem::CaseSensitive => Some("大小写敏感"),
        ToolbarItem::Regex => Some("正则表达式"),
        ToolbarItem::WholeWord => Some("整词匹配"),
        ToolbarItem::Prev => Some("上一个匹配"),
        ToolbarItem::Next => Some("下一个匹配"),
        ToolbarItem::Agent => Some("器灵 AI 助手 — 浮动聊天窗口"),
        _ => None,
    }
}

/// Least width of a button, or width of a box.
pub open spec fn width_of(item: ToolbarItem) -> u16 {
    match item {
        ToolbarItem::New | ToolbarItem::Open | ToolbarItem::Clear | ToolbarItem::SaveAs => 56,
        ToolbarItem::Close | ToolbarItem::Agent => 64,
        ToolbarItem::CaseSensitive | ToolbarItem::Regex | ToolbarItem::WholeWord
        | ToolbarItem::Prev | ToolbarItem::Next => 28,
        ToolbarItem::Find | ToolbarItem::Stop | ToolbarItem::Goto => 48,
        ToolbarItem::Edit => 60,
        ToolbarItem::Save => 44,
        ToolbarItem::SearchBox => 220,
        ToolbarItem::GotoBox => 90,
        ToolbarItem::SearchStatus | ToolbarItem::ModifiedMark => 0,
    }
}

/// Least width of a button, or width of a box.
pub fn item_width(item: ToolbarItem) -> (r: u16)
    ensures
        r == width_of(item),
{
    match item {
        ToolbarItem::New | ToolbarItem::Open | ToolbarItem::Clear | ToolbarItem::SaveAs => 56,
        ToolbarItem::Close | ToolbarItem::Agent => 64,
        ToolbarItem::CaseSensitive | ToolbarItem::Regex | ToolbarItem::WholeWord
        | ToolbarItem::Prev | ToolbarItem::Next => 28,
        ToolbarItem::Find | ToolbarItem::Stop | ToolbarItem::Goto => 48,
        ToolbarItem::Edit => 60,
        ToolbarItem::Save => 44,
        ToolbarItem::SearchBox => 220,
        ToolbarItem::GotoBox => 90,
        ToolbarItem::SearchStatus | ToolbarItem::ModifiedMark => 0,
    }
}

// ---------------------------------------------------------------------------
// Laws
// ---------------------------------------------------------------------------

/// Clicking an option twice leaves the options as they were.
pub proof fn law_toggling_twice_is_nothing(flags: SearchFlags, item: ToolbarItem)
    ensures
        flags_after(flags_after(flags, item), item) == flags,
{
}

/// Without an open file nothing offers to close, edit or save one.
pub proof fn law_no_file_no_file_buttons(state: ToolbarState)
    requires
        !state.file_open,
    ensures
        !state.items().contains(ToolbarItem::Close),
        !state.items().contains(ToolbarItem::Edit),
        !state.items().contains(ToolbarItem::Save),
        !state.items().contains(ToolbarItem::SaveAs),
        !state.items().contains(ToolbarItem::Stop),
{
    let items = state.items();
    assert forall|i: int| 0 <= i < items.len() implies items[i] != ToolbarItem::Close && items[i]
        != ToolbarItem::Edit && items[i] != ToolbarItem::Save && items[i] != ToolbarItem::SaveAs
        && items[i] != ToolbarItem::Stop by {}
}

/// The buttons that are shown are those that can be used.
pub proof fn law_buttons_that_can_be_used_are_shown(s: &ToolbarState, r: Vec<ToolbarItem>)
    requires
        call_ensures(ToolbarState::toolbar_items, (s,), r),
    ensures
        r@.contains(ToolbarItem::New) && r@.contains(ToolbarItem::Open) && r@.contains(
            ToolbarItem::SearchBox,
        ) && r@.contains(ToolbarItem::Find) && r@.contains(ToolbarItem::Clear) && r@.contains(
            ToolbarItem::Prev,
        ) && r@.contains(ToolbarItem::Next) && r@.contains(ToolbarItem::GotoBox) && r@.contains(
            ToolbarItem::Goto,
        ) && r@.contains(ToolbarItem::Agent),
        r@.contains(ToolbarItem::Close) == s.file_open,
        r@.contains(ToolbarItem::Stop) == (s.file_open && s.searching),
        r@.contains(ToolbarItem::SearchStatus) == s.has_status,
        r@.contains(ToolbarItem::Edit) == s.file_open,
        r@.contains(ToolbarItem::Save) == (s.file_open && s.edit_mode),
        r@.contains(ToolbarItem::SaveAs) == (s.file_open && s.edit_mode && !s.is_new_file),
        r@.contains(ToolbarItem::ModifiedMark) == (s.file_open && s.edit_mode && s.modified),
{
    lemma_shown(*s, ToolbarItem::New);
    lemma_shown(*s, ToolbarItem::Open);
    lemma_shown(*s, ToolbarItem::SearchBox);
    lemma_shown(*s, ToolbarItem::Find);
    lemma_shown(*s, ToolbarItem::Clear);
    lemma_shown(*s, ToolbarItem::Prev);
    lemma_shown(*s, ToolbarItem::Next);
    lemma_shown(*s, ToolbarItem::GotoBox);
    lemma_shown(*s, ToolbarItem::Goto);
    lemma_shown(*s, ToolbarItem::Agent);
    lemma_shown(*s, ToolbarItem::Close);
    lemma_shown(*s, ToolbarItem::Stop);
    lemma_shown(*s, ToolbarItem::SearchStatus);
    lemma_shown(*s, ToolbarItem::Edit);
    lemma_shown(*s, ToolbarItem::Save);
    lemma_shown(*s, ToolbarItem::SaveAs);
    lemma_shown(*s, ToolbarItem::ModifiedMark);
}

/// Which items are shown.
proof fn lemma_shown(s: ToolbarState, x: ToolbarItem)
    ensures
        s.items().contains(x) == match x {
            ToolbarItem::Close | ToolbarItem::Edit => s.file_open,
            ToolbarItem::Stop => s.file_open && s.searching,
            ToolbarItem::SearchStatus => s.has_status,
            ToolbarItem::Save => s.file_open && s.edit_mode,
            ToolbarItem::SaveAs => s.file_open && s.edit_mode && !s.is_new_file,
            ToolbarItem::ModifiedMark => s.file_open && s.edit_mode && s.modified,
            _ => true,
        },
{
    let editing = s.file_open && s.edit_mode;
    let p1 = seq![ToolbarItem::New, ToolbarItem::Open];
    let p2 = item_if(s.file_open, ToolbarItem::Close);
    let p3 = seq![
        ToolbarItem::CaseSensitive,
        ToolbarItem::Regex,
        ToolbarItem::WholeWord,
        ToolbarItem::SearchBox,
        ToolbarItem::Find,
        ToolbarItem::Clear,
    ];
    let p4 = item_if(s.file_open && s.searching, ToolbarItem::Stop);
    let p5 = seq![ToolbarItem::Prev, ToolbarItem::Next];
    let p6 = item_if(s.has_status, ToolbarItem::SearchStatus);
    let p7 = item_if(s.file_open, ToolbarItem::Edit);
    let p8 = item_if(editing && s.modified, ToolbarItem::ModifiedMark);
    let p9 = item_if(editing, ToolbarItem::Save);
    let p10 = item_if(editing && !s.is_new_file, ToolbarItem::SaveAs);
    let p11 = seq![ToolbarItem::Agent, ToolbarItem::GotoBox, ToolbarItem::Goto];
    lemma_in_either(p1, p2, x);
    lemma_in_either(p1 + p2, p3, x);
    lemma_in_either(p1 + p2 + p3, p4, x);
    lemma_in_either(p1 + p2 + p3 + p4, p5, x);
    lemma_in_either(p1 + p2 + p3 + p4 + p5, p6, x);
    lemma_in_either(p1 + p2 + p3 + p4 + p5 + p6, p7, x);
    lemma_in_either(p1 + p2 + p3 + p4 + p5 + p6 + p7, p8, x);
    lemma_in_either(p1 + p2 + p3 + p4 + p5 + p6 + p7 + p8, p9, x);
    lemma_in_either(p1 + p2 + p3 + p4 + p5 + p6 + p7 + p8 + p9, p10, x);
    lemma_in_either(p1 + p2 + p3 + p4 + p5 + p6 + p7 + p8 + p9 + p10, p11, x);
    assert(p1.contains(x) == (x is New || x is Open)) by {
        assert(p1[0] is New && p1[1] is Open);
    }
    assert(p3.contains(x) == (x is CaseSensitive || x is Regex || x is WholeWord || x is SearchBox
        || x is Find || x is Clear)) by {
        assert(p3[0] is CaseSensitive && p3[1] is Regex && p3[2] is WholeWord && p3[3] is SearchBox
            && p3[4] is Find && p3[5] is Clear);
    }
    assert(p5.contains(x) == (x is Prev || x is Next)) by {
        assert(p5[0] is Prev && p5[1] is Next);
    }
    assert(p11.contains(x) == (x is Agent || x is GotoBox || x is Goto)) by {
        assert(p11[0] is Agent && p11[1] is GotoBox && p11[2] is Goto);
    }
    lemma_item_if(s.file_open, ToolbarItem::Close, x);
    lemma_item_if(s.file_open && s.searching, ToolbarItem::Stop, x);
    lemma_item_if(s.has_status, ToolbarItem::SearchStatus, x);
    lemma_item_if(s.file_open, ToolbarItem::Edit, x);
    lemma_item_if(editing && s.modified, ToolbarItem::ModifiedMark, x);
    lemma_item_if(editing, ToolbarItem::Save, x);
    lemma_item_if(editing && !s.is_new_file, ToolbarItem::SaveAs, x);
}

proof fn lemma_item_if(shown: bool, item: ToolbarItem, x: ToolbarItem)
    ensures
        item_if(shown, item).contains(x) == (shown && x == item),
{
    if shown {
        assert(item_if(shown, item)[0] == item);
    }
}

proof fn lemma_in_either(a: Seq<ToolbarItem>, b: Seq<ToolbarItem>, x: ToolbarItem)
    ensures
        (a + b).contains(x) == (a.contains(x) || b.contains(x)),
{
    if a.contains(x) {
        let i = a.index_of(x);
        assert((a + b)[i] == x);
    }
    if b.contains(x) {
        let i = b.index_of(x);
        assert((a + b)[a.len() + i] == x);
    }
}

/// A click does what the button says and nothing else, and the three switches turn their
/// option.
pub proof fn law_clicks_do_what_the_button_says(
    item: ToolbarItem,
    flags: &mut SearchFlags,
    r: ToolbarAction,
)
    requires
        call_ensures(on_click, (item, flags), r),
    ensures
        (r is NewFile) == (item is New),
        (r is PickFile) == (item is Open),
        (r is CloseFile) == (item is Close),
        (r is RunSearch) == (item is Find),
        (r is ClearSearch) == (item is Clear),
        (r is CancelSearch) == (item is Stop),
        (r is JumpPrev) == (item is Prev),
        (r is JumpNext) == (item is Next),
        (r is ToggleEdit) == (item is Edit),
        (r is SaveFile) == (item is Save),
        (r is SaveFileAs) == (item is SaveAs),
        (r is ToggleAgent) == (item is Agent),
        (r is GotoLine) == (item is Goto),
        (final(flags).case_sensitive != old(flags).case_sensitive) == (item is CaseSensitive),
        (final(flags).use_regex != old(flags).use_regex) == (item is Regex),
        (final(flags).whole_word != old(flags).whole_word) == (item is WholeWord),
{
}

/// Enter in the search box searches, and makes a new line together with any of the keys
/// for that; without the focus or another key it is nothing.
pub proof fn law_enter_searches(
    focused: bool,
    enter: bool,
    shift: bool,
    ctrl: bool,
    command: bool,
    r: SearchEnter,
    mods: KeyMods,
    left: Option<KeyMods>,
    lost: bool,
    goes: bool,
)
    requires
        call_ensures(search_enter, (focused, enter, shift, ctrl, command), r),
        call_ensures(enter_for_box, (r, mods), left),
        call_ensures(goto_enter, (lost, enter), goes),
    ensures
        (r is Ignore) == (!focused || !enter),
        (r is RunSearch) == (focused && enter && !shift && !ctrl && !command),
        r is RunSearch ==> left is None,
        r is Ignore ==> left == Some(mods),
        r is InsertNewline ==> left is Some && !left->0.shift && !left->0.ctrl && !left->0.command
            && !left->0.alt && !left->0.mac_cmd,
        goes == (lost && enter),
{
}

proof fn lemma_newlines(a: Seq<char>, b: Seq<char>, n: int)
    requires
        0 <= n <= a.len(),
        n <= b.len(),
        forall|i: int| 0 <= i < n ==> #[trigger] a[i] == b[i],
    ensures
        newlines(a, n) == newlines(b, n),
    decreases n,
{
    if n > 0 {
        lemma_newlines(a, b, n - 1);
        assert(a[n - 1] == b[n - 1]);
    }
}

/// The search box has a row for each line of what is typed, and three at most.
pub proof fn law_the_search_box_grows(before: &str, c: char, input: &str, q: usize, r: usize)
    requires
        call_ensures(search_rows, (before,), q),
        call_ensures(search_rows, (input,), r),
        input@ == before@.push(c),
    ensures
        1 <= q <= 3,
        c == '\n' && q < 3 ==> r == q + 1,
        c == '\n' && q == 3 ==> r == 3,
        c != '\n' ==> r == q,
        before@.len() == 0 ==> q == 1,
{
    lemma_newlines(before@, input@, before@.len() as int);
}

/// A switch that is on looks otherwise than one that is off.
pub proof fn law_switches_that_are_on_stand_out(
    item: ToolbarItem,
    on: Option<Color>,
    off: Option<Color>,
    tip: Option<&'static str>,
    label: &'static str,
)
    requires
        call_ensures(item_fill, (item, true), on),
        call_ensures(item_fill, (item, false), off),
        call_ensures(item_tip, (item,), tip),
        call_ensures(item_label, (item,), label),
    ensures
        (on != off) == (item is CaseSensitive || item is Regex || item is WholeWord || item is Edit
            || item is Agent),
        on is Some == off is Some,
        item is CaseSensitive ==> tip is Some && tip->0@ == "大小写敏感"@ && label@ == "Aa"@,
        item is Regex ==> tip is Some && tip->0@ == "正则表达式"@ && label@ == ".*"@,
        item is WholeWord ==> tip is Some && tip->0@ == "整词匹配"@ && label@ == "\\b"@,
        item is Prev ==> tip is Some && tip->0@ == "上一个匹配"@ && label@ == "<"@,
        item is Next ==> tip is Some && tip->0@ == "下一个匹配"@ && label@ == ">"@,
        item is Find ==> tip is None && label@ == "查找"@,
        item is Clear ==> label@ == "清空"@,
        item is Stop ==> label@ == "停止"@,
{
}

} // verus!
