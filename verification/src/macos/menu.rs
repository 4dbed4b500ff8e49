//! The menu bar as a table of rows.

use vstd::prelude::*;

use crate::palettes::{theme_name, theme_name_text, THEMES};
use crate::text::same_text;

verus! {

broadcast use vstd::string::group_string_axioms;

/// What an item does.
#[derive(Clone, Copy, PartialEq, Eq, Structural, Debug)]
pub enum Action {
    Nothing,
    ShowAbout,
    ShowSettings,
    Terminate,
    OpenDocument,
    OpenRecent,
    ReloadDocument,
    CloseDocument,
    ShowProperties,
    ManageIndexes,
    Copy,
    SelectAll,
    Find,
    FindNext,
    FindPrevious,
    GoTop,
    GoEnd,
    GotoLine,
    SelectTheme,
    SwitchTheme,
    ToggleLineNumbers,
    ToggleWordWrap,
    ToggleWhitespace,
    ToggleLevelColoring,
    ToggleIndentGuides,
    PageUp,
    PageDown,
    ToggleCaseSensitive,
    ToggleRegex,
    ToggleWholeWord,
    FontBigger,
    FontSmaller,
    FontReset,
    OpenConfigDir,
    ShowHelp,
    ShowShortcuts,
    CancelTasks,
    SubmitSearch,
    GotoSubmit,
}

/// Who acts.
#[derive(Clone, Copy, PartialEq, Eq, Structural, Debug)]
pub enum Target {
    /// The delegate of the application.
    Delegate,
    /// The application itself.
    Application,
    /// Whoever has the keyboard.
    Responder,
}

/// Keys that are held with the key of an item.
#[derive(Clone, Copy, PartialEq, Eq, Structural, Debug)]
pub enum Mods {
    Plain,
    Cmd,
    CmdShift,
    Shift,
}

/// What a row is.
#[derive(Clone, Copy, PartialEq, Eq, Structural, Debug)]
pub enum RowKind {
    /// A menu; the rows of the next level that follow are in it.
    Menu,
    Item,
    Separator,
    /// An item that cannot be chosen.
    Disabled,
}

/// A row of the menu bar.
pub struct MenuRow {
    pub level: u8,
    pub kind: RowKind,
    pub title: String,
    pub action: Action,
    pub target: Target,
    pub key: String,
    pub mods: Mods,
    /// A check mark stands beside it.
    pub on: bool,
    /// The path that an item opens.
    pub path: String,
}

/// A row as contracts speak of it.
pub struct RowView {
    pub level: u8,
    pub kind: RowKind,
    pub title: Seq<char>,
    pub action: Action,
    pub target: Target,
    pub key: Seq<char>,
    pub mods: Mods,
    pub on: bool,
    pub path: Seq<char>,
}

pub open spec fn row_view(r: MenuRow) -> RowView {
    RowView {
        level: r.level,
        kind: r.kind,
        title: r.title@,
        action: r.action,
        target: r.target,
        key: r.key@,
        mods: r.mods,
        on: r.on,
        path: r.path@,
    }
}

pub open spec fn rows_view(rows: Seq<MenuRow>) -> Seq<RowView> {
    rows.map(|i: int, r: MenuRow| row_view(r))
}

/// A menu.
pub open spec fn menu(level: u8, title: &str) -> RowView {
    RowView {
        level,
        kind: RowKind::Menu,
        title: title@,
        action: Action::Nothing,
        target: Target::Responder,
        key: Seq::empty(),
        mods: Mods::Plain,
        on: false,
        path: Seq::empty(),
    }
}

/// A line between items.
pub open spec fn separator(level: u8) -> RowView {
    RowView {
        level,
        kind: RowKind::Separator,
        title: Seq::empty(),
        action: Action::Nothing,
        target: Target::Responder,
        key: Seq::empty(),
        mods: Mods::Plain,
        on: false,
        path: Seq::empty(),
    }
}

/// An item that the delegate acts on.
pub open spec fn item(title: &str, action: Action, key: &str, mods: Mods) -> RowView {
    RowView {
        level: 1,
        kind: RowKind::Item,
        title: title@,
        action,
        target: Target::Delegate,
        key: key@,
        mods,
        on: false,
        path: Seq::empty(),
    }
}

/// An item with a check mark.
pub open spec fn check(title: &str, action: Action, on: bool) -> RowView {
    RowView { on, ..item(title, action, "", Mods::Plain) }
}

/// An item that another than the delegate acts on.
pub open spec fn item_for(
    title: &str,
    action: Action,
    key: &str,
    mods: Mods,
    target: Target,
) -> RowView {
    RowView { target, ..item(title, action, key, mods) }
}

/// An item for a theme.
pub open spec fn theme_row(i: int, current: Seq<char>) -> RowView {
    RowView {
        level: 2,
        kind: RowKind::Item,
        title: theme_name_text(i),
        action: Action::SelectTheme,
        target: Target::Delegate,
        key: ""@,
        mods: Mods::Plain,
        on: theme_name_text(i) == current,
        path: Seq::empty(),
    }
}

/// A file that was open lately.
pub struct RecentFile {
    pub path: String,
    /// Name without directories, where the path has one.
    pub name: Option<String>,
}

/// An item for a file that was open lately.
pub open spec fn recent_row(f: RecentFile) -> RowView {
    RowView {
        level: 2,
        kind: RowKind::Item,
        title: match f.name {
            Some(n) => n@,
            None => f.path@,
        },
        action: Action::OpenRecent,
        target: Target::Delegate,
        key: ""@,
        mods: Mods::Plain,
        on: false,
        path: f.path@,
    }
}

/// Items for the files that were open lately.
pub open spec fn recent_rows(files: Seq<RecentFile>) -> Seq<RowView> {
    if files.len() == 0 {
        seq![
            RowView {
                level: 2,
                kind: RowKind::Disabled,
                title: "（无）"@,
                action: Action::Nothing,
                target: Target::Responder,
                key: Seq::empty(),
                mods: Mods::Plain,
                on: false,
                path: Seq::empty(),
            },
        ]
    } else {
        Seq::new(files.len(), |i: int| recent_row(files[i]))
    }
}

/// What the menu bar shows.
pub struct MenuState {
    pub recent: Vec<RecentFile>,
    pub theme: String,
    pub show_line_numbers: bool,
    pub word_wrap: bool,
    pub show_whitespace: bool,
    pub level_coloring: bool,
    pub show_indent_guides: bool,
    pub case_sensitive: bool,
    pub use_regex: bool,
    pub whole_word: bool,
}

pub open spec fn app_rows() -> Seq<RowView> {
    seq![
        menu(0, "qview"),
        item("关于 qview", Action::ShowAbout, "", Mods::Plain),
        separator(1),
        item("设置…", Action::ShowSettings, ",", Mods::Cmd),
        separator(1),
        item_for("退出 qview", Action::Terminate, "q", Mods::Cmd, Target::Application),
    ]
}

pub open spec fn file_rows(files: Seq<RecentFile>) -> Seq<RowView> {
    seq![
        menu(0, "文件"),
        item("打开…", Action::OpenDocument, "o", Mods::Cmd),
        menu(1, "最近打开"),
    ] + recent_rows(files) + seq![
        separator(1),
        item("重新加载", Action::ReloadDocument, "r", Mods::Cmd),
        item("关闭", Action::CloseDocument, "w", Mods::Cmd),
        item("文件属性", Action::ShowProperties, "i", Mods::Cmd),
    ]
}

pub open spec fn edit_rows() -> Seq<RowView> {
    seq![
        menu(0, "工具"),
        item("缓存管理…", Action::ManageIndexes, "", Mods::Plain),
        menu(0, "编辑"),
        item_for("复制", Action::Copy, "c", Mods::Cmd, Target::Responder),
        item_for("全选", Action::SelectAll, "a", Mods::Cmd, Target::Responder),
        separator(1),
        item("查找", Action::Find, "f", Mods::Cmd),
        item("查找下一个", Action::FindNext, "\u{F706}", Mods::Plain),
        item("查找上一个", Action::FindPrevious, "\u{F706}", Mods::Shift),
        item("查找下一个 (⌘G)", Action::FindNext, "g", Mods::Cmd),
        item("查找上一个 (⇧⌘G)", Action::FindPrevious, "g", Mods::CmdShift),
    ]
}

pub open spec fn theme_rows(current: Seq<char>) -> Seq<RowView> {
    Seq::new(THEMES as nat, |i: int| theme_row(i, current))
}

pub open spec fn view_head_rows() -> Seq<RowView> {
    seq![
        menu(0, "视图"),
        item("到顶部", Action::GoTop, "\u{F729}", Mods::Plain),
        item("到底部", Action::GoEnd, "\u{F72B}", Mods::Plain),
        item("跳到行…", Action::GotoLine, "l", Mods::Cmd),
        separator(1),
        menu(1, "主题"),
    ]
}

pub open spec fn view_tail_rows(s: MenuState) -> Seq<RowView> {
    seq![
        item("切换主题", Action::SwitchTheme, "t", Mods::CmdShift),
        separator(1),
        check("显示行号", Action::ToggleLineNumbers, s.show_line_numbers),
        check("自动换行", Action::ToggleWordWrap, s.word_wrap),
        check("显示空白", Action::ToggleWhitespace, s.show_whitespace),
        check("级别着色", Action::ToggleLevelColoring, s.level_coloring),
        check("缩进参考线", Action::ToggleIndentGuides, s.show_indent_guides),
        separator(1),
        item("上一页", Action::PageUp, "\u{F72C}", Mods::Plain),
        item("下一页", Action::PageDown, "\u{F72D}", Mods::Plain),
    ]
}

pub open spec fn view_rows(s: MenuState) -> Seq<RowView> {
    view_head_rows() + theme_rows(s.theme@) + view_tail_rows(s)
}

pub open spec fn search_rows(case: bool, regex: bool, word: bool) -> Seq<RowView> {
    seq![
        menu(0, "搜索"),
        item("查找", Action::Find, "f", Mods::Cmd),
        item("查找下一个", Action::FindNext, "\u{F706}", Mods::Plain),
        item("查找上一个", Action::FindPrevious, "\u{F706}", Mods::Shift),
        separator(1),
        check("区分大小写", Action::ToggleCaseSensitive, case),
        check("正则表达式", Action::ToggleRegex, regex),
        check("整词匹配", Action::ToggleWholeWord, word),
    ]
}

pub open spec fn settings_rows() -> Seq<RowView> {
    seq![
        menu(0, "设置"),
        item("字体加大", Action::FontBigger, "=", Mods::Cmd),
        item("字体减小", Action::FontSmaller, "-", Mods::Cmd),
        item("字体重置", Action::FontReset, "0", Mods::Cmd),
        separator(1),
        item("打开配置目录", Action::OpenConfigDir, "", Mods::Plain),
        menu(0, "帮助"),
        item("帮助", Action::ShowHelp, "\u{F704}", Mods::Plain),
        item("快捷键", Action::ShowShortcuts, "", Mods::Plain),
        separator(1),
        item("关于", Action::ShowAbout, "", Mods::Plain),
    ]
}

impl MenuState {
    /// Rows of the menu bar, each menu followed by its rows.
    pub open spec fn bar(self) -> Seq<RowView> {
        app_rows() + file_rows(self.recent@) + edit_rows() + view_rows(self) + search_rows(
            self.case_sensitive,
            self.use_regex,
            self.whole_word,
        ) + settings_rows()
    }
}

fn push(rows: &mut Vec<MenuRow>, r: MenuRow)
    ensures
        rows_view(final(rows)@) == rows_view(old(rows)@).push(row_view(r)),
{
    let ghost before = rows@;
    rows.push(r);
    assert(rows_view(rows@) =~= rows_view(before).push(row_view(r)));
}

fn push_plain(rows: &mut Vec<MenuRow>, level: u8, kind: RowKind, title: &str)
    ensures
        rows_view(final(rows)@) == rows_view(old(rows)@).push(
            RowView {
                level,
                kind,
                title: title@,
                action: Action::Nothing,
                target: Target::Responder,
                key: Seq::empty(),
                mods: Mods::Plain,
                on: false,
                path: Seq::empty(),
            },
        ),
{
    let r = MenuRow {
        level,
        kind,
        title: title.to_owned(),
        action: Action::Nothing,
        target: Target::Responder,
        key: String::new(),
        mods: Mods::Plain,
        on: false,
        path: String::new(),
    };
    assert(r.key@ =~= Seq::empty() && r.path@ =~= Seq::empty());
    push(rows, r);
}

fn push_menu(rows: &mut Vec<MenuRow>, level: u8, title: &str)
    ensures
        rows_view(final(rows)@) == rows_view(old(rows)@).push(menu(level, title)),
{
    push_plain(rows, level, RowKind::Menu, title);
}

fn push_separator(rows: &mut Vec<MenuRow>, level: u8)
    ensures
        rows_view(final(rows)@) == rows_view(old(rows)@).push(separator(level)),
{
    proof {
        reveal_strlit("");
        assert(""@ =~= Seq::empty());
    }
    push_plain(rows, level, RowKind::Separator, "");
}

fn push_item_for(
    rows: &mut Vec<MenuRow>,
    title: &str,
    action: Action,
    key: &str,
    mods: Mods,
    target: Target,
    on: bool,
)
    ensures
        rows_view(final(rows)@) == rows_view(old(rows)@).push(
            RowView { target, on, ..item(title, action, key, mods) },
        ),
{
    let r = MenuRow {
        level: 1,
        kind: RowKind::Item,
        title: title.to_owned(),
        action,
        target,
        key: key.to_owned(),
        mods,
        on,
        path: String::new(),
    };
    assert(r.path@ =~= Seq::empty());
    push(rows, r);
}

fn push_item(rows: &mut Vec<MenuRow>, title: &str, action: Action, key: &str, mods: Mods)
    ensures
        rows_view(final(rows)@) == rows_view(old(rows)@).push(item(title, action, key, mods)),
{
    push_item_for(rows, title, action, key, mods, Target::Delegate, false);
}

fn push_check(rows: &mut Vec<MenuRow>, title: &str, action: Action, on: bool)
    ensures
        rows_view(final(rows)@) == rows_view(old(rows)@).push(check(title, action, on)),
{
    push_item_for(rows, title, action, "", Mods::Plain, Target::Delegate, on);
}

/// Appends the items for the files that were open lately.
fn push_recent(rows: &mut Vec<MenuRow>, files: &Vec<RecentFile>)
    ensures
        rows_view(final(rows)@) == rows_view(old(rows)@) + recent_rows(files@),
{
    let ghost before = rows_view(rows@);
    if files.len() == 0 {
        push_plain(rows, 2, RowKind::Disabled, "（无）");
        assert(rows_view(rows@) =~= before + recent_rows(files@));
        return;
    }
    let ghost all = recent_rows(files@);
    let mut i: usize = 0;
    assert(before + all.take(0) =~= before);
    while i < files.len()
        invariant
            i <= files@.len(),
            files@.len() > 0,
            all == recent_rows(files@),
            rows_view(rows@) == before + all.take(i as int),
        decreases files@.len() - i,
    {
        let f: &RecentFile = &files[i];
        let title: String = match &f.name {
            Some(n) => n.as_str().to_owned(),
            None => f.path.as_str().to_owned(),
        };
        let r = MenuRow {
            level: 2,
            kind: RowKind::Item,
            title,
            action: Action::OpenRecent,
            target: Target::Delegate,
            key: "".to_owned(),
            mods: Mods::Plain,
            on: false,
            path: f.path.as_str().to_owned(),
        };
        assert(row_view(r) == all[i as int]);
        push(rows, r);
        i = i + 1;
        assert(rows_view(rows@) =~= before + all.take(i as int));
    }
    assert(all.take(all.len() as int) =~= all);
}

/// The menu of the text.
pub fn build_context_menu() -> (r: Vec<MenuRow>)
    ensures
        rows_view(r@) == seq![
            item_for("复制", Action::Copy, "c", Mods::Cmd, Target::Responder),
            item_for("全选", Action::SelectAll, "a", Mods::Cmd, Target::Responder),
        ],
{
    let mut rows: Vec<MenuRow> = Vec::new();
    push_item_for(&mut rows, "复制", Action::Copy, "c", Mods::Cmd, Target::Responder, false);
    push_item_for(&mut rows, "全选", Action::SelectAll, "a", Mods::Cmd, Target::Responder, false);
    assert(rows_view(rows@) =~= seq![
        item_for("复制", Action::Copy, "c", Mods::Cmd, Target::Responder),
        item_for("全选", Action::SelectAll, "a", Mods::Cmd, Target::Responder),
    ]);
    rows
}

/// The menu of the files that were open lately.
pub fn sync_recent_menu(files: &Vec<RecentFile>) -> (r: Vec<MenuRow>)
    ensures
        rows_view(r@) == recent_rows(files@),
{
    let mut rows: Vec<MenuRow> = Vec::new();
    push_recent(&mut rows, files);
    assert(rows_view(rows@) =~= recent_rows(files@));
    rows
}

fn push_themes(rows: &mut Vec<MenuRow>, current: &str)
    ensures
        rows_view(final(rows)@) == rows_view(old(rows)@) + theme_rows(current@),
{
    let ghost before = rows_view(rows@);
    let ghost all = theme_rows(current@);
    let mut i: usize = 0;
    assert(before + all.take(0) =~= before);
    while i < THEMES
        invariant
            i <= THEMES,
            all == theme_rows(current@),
            rows_view(rows@) == before + all.take(i as int),
        decreases THEMES - i,
    {
        let r = MenuRow {
            level: 2,
            kind: RowKind::Item,
            title: theme_name(i).to_owned(),
            action: Action::SelectTheme,
            target: Target::Delegate,
            key: "".to_owned(),
            mods: Mods::Plain,
            on: same_text(theme_name(i), current),
            path: String::new(),
        };
        assert(r.path@ =~= Seq::empty());
        assert(row_view(r) == all[i as int]);
        push(rows, r);
        i = i + 1;
        assert(rows_view(rows@) =~= before + all.take(i as int));
    }
    assert(all.take(all.len() as int) =~= all);
}

fn push_app_menu(rows: &mut Vec<MenuRow>)
    ensures
        rows_view(final(rows)@) == rows_view(old(rows)@) + app_rows(),
{
    let ghost before = rows_view(rows@);
    push_menu(rows, 0, "qview");
    push_item(rows, "关于 qview", Action::ShowAbout, "", Mods::Plain);
    push_separator(rows, 1);
    push_item(rows, "设置…", Action::ShowSettings, ",", Mods::Cmd);
    push_separator(rows, 1);
    push_item_for(
        rows,
        "退出 qview",
        Action::Terminate,
        "q",
        Mods::Cmd,
        Target::Application,
        false,
    );
    assert(rows_view(rows@) =~= before + app_rows());
}

fn push_file_menu(rows: &mut Vec<MenuRow>, files: &Vec<RecentFile>)
    ensures
        rows_view(final(rows)@) == rows_view(old(rows)@) + file_rows(files@),
{
    let ghost before = rows_view(rows@);
    push_menu(rows, 0, "文件");
    push_item(rows, "打开…", Action::OpenDocument, "o", Mods::Cmd);
    push_menu(rows, 1, "最近打开");
    push_recent(rows, files);
    push_separator(rows, 1);
    push_item(rows, "重新加载", Action::ReloadDocument, "r", Mods::Cmd);
    push_item(rows, "关闭", Action::CloseDocument, "w", Mods::Cmd);
    push_item(rows, "文件属性", Action::ShowProperties, "i", Mods::Cmd);
    assert(rows_view(rows@) =~= before + file_rows(files@));
}

fn push_edit_menu(rows: &mut Vec<MenuRow>)
    ensures
        rows_view(final(rows)@) == rows_view(old(rows)@) + edit_rows(),
{
    let ghost before = rows_view(rows@);
    push_menu(rows, 0, "工具");
    push_item(rows, "缓存管理…", Action::ManageIndexes, "", Mods::Plain);
    push_menu(rows, 0, "编辑");
    push_item_for(rows, "复制", Action::Copy, "c", Mods::Cmd, Target::Responder, false);
    push_item_for(rows, "全选", Action::SelectAll, "a", Mods::Cmd, Target::Responder, false);
    push_separator(rows, 1);
    push_item(rows, "查找", Action::Find, "f", Mods::Cmd);
    push_item(rows, "查找下一个", Action::FindNext, "\u{F706}", Mods::Plain);
    push_item(rows, "查找上一个", Action::FindPrevious, "\u{F706}", Mods::Shift);
    push_item(rows, "查找下一个 (⌘G)", Action::FindNext, "g", Mods::Cmd);
    push_item(rows, "查找上一个 (⇧⌘G)", Action::FindPrevious, "g", Mods::CmdShift);
    assert(rows_view(rows@) =~= before + edit_rows());
}

fn push_view_head(rows: &mut Vec<MenuRow>)
    ensures
        rows_view(final(rows)@) == rows_view(old(rows)@) + view_head_rows(),
{
    let ghost before = rows_view(rows@);
    push_menu(rows, 0, "视图");
    push_item(rows, "到顶部", Action::GoTop, "\u{F729}", Mods::Plain);
    push_item(rows, "到底部", Action::GoEnd, "\u{F72B}", Mods::Plain);
    push_item(rows, "跳到行…", Action::GotoLine, "l", Mods::Cmd);
    push_separator(rows, 1);
    push_menu(rows, 1, "主题");
    assert(rows_view(rows@) =~= before + view_head_rows());
}

fn push_view_tail(rows: &mut Vec<MenuRow>, s: &MenuState)
    ensures
        rows_view(final(rows)@) == rows_view(old(rows)@) + view_tail_rows(*s),
{
    let ghost before = rows_view(rows@);
    push_item(rows, "切换主题", Action::SwitchTheme, "t", Mods::CmdShift);
    push_separator(rows, 1);
    push_check(rows, "显示行号", Action::ToggleLineNumbers, s.show_line_numbers);
    push_check(rows, "自动换行", Action::ToggleWordWrap, s.word_wrap);
    push_check(rows, "显示空白", Action::ToggleWhitespace, s.show_whitespace);
    push_check(rows, "级别着色", Action::ToggleLevelColoring, s.level_coloring);
    push_check(rows, "缩进参考线", Action::ToggleIndentGuides, s.show_indent_guides);
    push_separator(rows, 1);
    push_item(rows, "上一页", Action::PageUp, "\u{F72C}", Mods::Plain);
    push_item(rows, "下一页", Action::PageDown, "\u{F72D}", Mods::Plain);
    assert(rows_view(rows@) =~= before + view_tail_rows(*s));
}

fn push_view_menu(rows: &mut Vec<MenuRow>, s: &MenuState)
    ensures
        rows_view(final(rows)@) == rows_view(old(rows)@) + view_rows(*s),
{
    let ghost before = rows_view(rows@);
    push_view_head(rows);
    push_themes(rows, s.theme.as_str());
    push_view_tail(rows, s);
    assert(rows_view(rows@) =~= before + view_rows(*s));
}

fn push_search_menu(rows: &mut Vec<MenuRow>, case: bool, regex: bool, word: bool)
    ensures
        rows_view(final(rows)@) == rows_view(old(rows)@) + search_rows(case, regex, word),
{
    let ghost before = rows_view(rows@);
    push_menu(rows, 0, "搜索");
    push_item(rows, "查找", Action::Find, "f", Mods::Cmd);
    push_item(rows, "查找下一个", Action::FindNext, "\u{F706}", Mods::Plain);
    push_item(rows, "查找上一个", Action::FindPrevious, "\u{F706}", Mods::Shift);
    push_separator(rows, 1);
    push_check(rows, "区分大小写", Action::ToggleCaseSensitive, case);
    push_check(rows, "正则表达式", Action::ToggleRegex, regex);
    push_check(rows, "整词匹配", Action::ToggleWholeWord, word);
    assert(rows_view(rows@) =~= before + search_rows(case, regex, word));
}

fn push_settings_menu(rows: &mut Vec<MenuRow>)
    ensures
        rows_view(final(rows)@) == rows_view(old(rows)@) + settings_rows(),
{
    let ghost before = rows_view(rows@);
    push_menu(rows, 0, "设置");
    push_item(rows, "字体加大", Action::FontBigger, "=", Mods::Cmd);
    push_item(rows, "字体减小", Action::FontSmaller, "-", Mods::Cmd);
    push_item(rows, "字体重置", Action::FontReset, "0", Mods::Cmd);
    push_separator(rows, 1);
    push_item(rows, "打开配置目录", Action::OpenConfigDir, "", Mods::Plain);
    push_menu(rows, 0, "帮助");
    push_item(rows, "帮助", Action::ShowHelp, "\u{F704}", Mods::Plain);
    push_item(rows, "快捷键", Action::ShowShortcuts, "", Mods::Plain);
    push_separator(rows, 1);
    push_item(rows, "关于", Action::ShowAbout, "", Mods::Plain);
    assert(rows_view(rows@) =~= before + settings_rows());
}

/// Rows of the menu bar.
pub fn build_main_menu(state: &MenuState) -> (r: Vec<MenuRow>)
    ensures
        rows_view(r@) == state.bar(),
{
    let mut rows: Vec<MenuRow> = Vec::new();
    assert(rows_view(rows@) =~= Seq::empty());
    push_app_menu(&mut rows);
    push_file_menu(&mut rows, &state.recent);
    push_edit_menu(&mut rows);
    push_view_menu(&mut rows, state);
    push_search_menu(&mut rows, state.case_sensitive, state.use_regex, state.whole_word);
    push_settings_menu(&mut rows);
    assert(rows_view(rows@) =~= state.bar());
    rows
}

/// `i` is the first row of a title.
pub open spec fn is_titled(rows: Seq<MenuRow>, title: Seq<char>, i: int) -> bool {
    &&& 0 <= i < rows.len()
    &&& rows[i].title@ == title
    &&& forall|k: int| 0 <= k < i ==> (#[trigger] rows[k]).title@ != title
}

/// Sets the check mark of the first row of a title; no other row changes.
pub fn set_check(rows: &mut Vec<MenuRow>, title: &str, on: bool)
    ensures
        final(rows)@.len() == old(rows)@.len(),
        forall|i: int|
            0 <= i < old(rows)@.len() ==> row_view(#[trigger] final(rows)@[i]) == if is_titled(
                old(rows)@,
                title@,
                i,
            ) {
                RowView { on, ..row_view(old(rows)@[i]) }
            } else {
                row_view(old(rows)@[i])
            },
{
    let ghost before = rows@;
    let mut i: usize = 0;
    while i < rows.len()
        invariant
            i <= rows@.len(),
            rows@ == before,
            before == old(rows)@,
            forall|k: int| 0 <= k < i ==> (#[trigger] rows@[k]).title@ != title@,
        decreases rows@.len() - i,
    {
        if same_text(rows[i].title.as_str(), title) {
            rows[i].on = on;
            proof {
                assert forall|k: int| 0 <= k < before.len() implies row_view(
                    #[trigger] rows@[k],
                ) == if is_titled(before, title@, k) {
                    RowView { on, ..row_view(before[k]) }
                } else {
                    row_view(before[k])
                } by {
                    if k == i {
                        assert(is_titled(before, title@, k));
                    } else if k > i {
                        assert(before[i as int].title@ == title@);
                    }
                }
            }
            return;
        }
        i = i + 1;
    }
}

/// Marks the theme in use in the menu of themes: the rows of its name, and no
/// others.
pub fn sync_theme_checks(rows: &mut Vec<MenuRow>, theme: &str)
    ensures
        final(rows)@.len() == old(rows)@.len(),
        forall|i: int|
            0 <= i < old(rows)@.len() ==> row_view(#[trigger] final(rows)@[i]) == (RowView {
                on: old(rows)@[i].title@ == theme@,
                ..row_view(old(rows)@[i])
            }),
{
    let ghost before = rows@;
    let mut i: usize = 0;
    while i < rows.len()
        invariant
            i <= rows@.len(),
            before == old(rows)@,
            rows@.len() == before.len(),
            forall|k: int|
                0 <= k < i ==> row_view(#[trigger] rows@[k]) == (RowView {
                    on: before[k].title@ == theme@,
                    ..row_view(before[k])
                }),
            forall|k: int| i <= k < before.len() ==> #[trigger] rows@[k] == before[k],
        decreases rows@.len() - i,
    {
        let on: bool = same_text(rows[i].title.as_str(), theme);
        rows[i].on = on;
        i = i + 1;
    }
}

/// The check mark of row `i` after some titles got theirs one after another: that
/// of the last title whose first row it is, its own where it is none.
pub open spec fn mark_after(rows: Seq<MenuRow>, marks: Seq<(Seq<char>, bool)>, i: int) -> bool
    decreases marks.len(),
{
    if marks.len() == 0 {
        rows[i].on
    } else if is_titled(rows, marks.last().0, i) {
        marks.last().1
    } else {
        mark_after(rows, marks.drop_last(), i)
    }
}

/// Rows with the check marks of some titles set.
pub open spec fn are_marked(
    rows: Seq<MenuRow>,
    marks: Seq<(Seq<char>, bool)>,
    after: Seq<MenuRow>,
) -> bool {
    &&& after.len() == rows.len()
    &&& forall|i: int|
        0 <= i < rows.len() ==> row_view(#[trigger] after[i]) == (RowView {
            on: mark_after(rows, marks, i),
            ..row_view(rows[i])
        })
}

fn set_next_check(
    rows: &mut Vec<MenuRow>,
    title: &str,
    on: bool,
    Ghost(start): Ghost<Seq<MenuRow>>,
    Ghost(marks): Ghost<Seq<(Seq<char>, bool)>>,
)
    requires
        are_marked(start, marks, old(rows)@),
    ensures
        are_marked(start, marks.push((title@, on)), final(rows)@),
{
    let ghost before = rows@;
    set_check(rows, title, on);
    proof {
        let more = marks.push((title@, on));
        assert(more.drop_last() =~= marks);
        assert forall|i: int| 0 <= i < start.len() implies row_view(#[trigger] rows@[i]) == (
        RowView { on: mark_after(start, more, i), ..row_view(start[i]) }) by {
            assert(row_view(before[i]) == (RowView {
                on: mark_after(start, marks, i),
                ..row_view(start[i])
            }));
            assert(is_titled(before, title@, i) == is_titled(start, title@, i)) by {
                assert forall|k: int| 0 <= k < i implies (#[trigger] before[k]).title@
                    == start[k].title@ by {
                    assert(row_view(before[k]).title == row_view(start[k]).title);
                }
                assert(row_view(before[i]).title == row_view(start[i]).title);
                if is_titled(start, title@, i) {
                    assert forall|k: int| 0 <= k < i implies (#[trigger] before[k]).title@
                        != title@ by {
                        assert(start[k].title@ != title@);
                    }
                }
                if is_titled(before, title@, i) {
                    assert forall|k: int| 0 <= k < i implies (#[trigger] start[k]).title@
                        != title@ by {
                        assert(before[k].title@ != title@);
                    }
                }
            }
        }
    }
}

/// Sets the check marks of what is shown beside the text.
pub fn sync_view_checks(rows: &mut Vec<MenuRow>, state: &MenuState)
    ensures
        are_marked(
            old(rows)@,
            seq![
                ("显示行号"@, state.show_line_numbers),
                ("自动换行"@, state.word_wrap),
                ("显示空白"@, state.show_whitespace),
                ("级别着色"@, state.level_coloring),
                ("缩进参考线"@, state.show_indent_guides),
            ],
            final(rows)@,
        ),
{
    let ghost start = rows@;
    let ghost none: Seq<(Seq<char>, bool)> = Seq::empty();
    let ghost a = none.push(("显示行号"@, state.show_line_numbers));
    let ghost b = a.push(("自动换行"@, state.word_wrap));
    let ghost c = b.push(("显示空白"@, state.show_whitespace));
    let ghost d = c.push(("级别着色"@, state.level_coloring));
    set_next_check(rows, "显示行号", state.show_line_numbers, Ghost(start), Ghost(none));
    set_next_check(rows, "自动换行", state.word_wrap, Ghost(start), Ghost(a));
    set_next_check(rows, "显示空白", state.show_whitespace, Ghost(start), Ghost(b));
    set_next_check(rows, "级别着色", state.level_coloring, Ghost(start), Ghost(c));
    set_next_check(rows, "缩进参考线", state.show_indent_guides, Ghost(start), Ghost(d));
    assert(d.push(("缩进参考线"@, state.show_indent_guides)) =~= seq![
        ("显示行号"@, state.show_line_numbers),
        ("自动换行"@, state.word_wrap),
        ("显示空白"@, state.show_whitespace),
        ("级别着色"@, state.level_coloring),
        ("缩进参考线"@, state.show_indent_guides),
    ]);
}

/// Sets the check marks of the options of a search.
pub fn sync_search_checks(rows: &mut Vec<MenuRow>, state: &MenuState)
    ensures
        are_marked(
            old(rows)@,
            seq![
                ("区分大小写"@, state.case_sensitive),
                ("正则表达式"@, state.use_regex),
                ("整词匹配"@, state.whole_word),
            ],
            final(rows)@,
        ),
{
    let ghost start = rows@;
    let ghost none: Seq<(Seq<char>, bool)> = Seq::empty();
    let ghost a = none.push(("区分大小写"@, state.case_sensitive));
    let ghost b = a.push(("正则表达式"@, state.use_regex));
    set_next_check(rows, "区分大小写", state.case_sensitive, Ghost(start), Ghost(none));
    set_next_check(rows, "正则表达式", state.use_regex, Ghost(start), Ghost(a));
    set_next_check(rows, "整词匹配", state.whole_word, Ghost(start), Ghost(b));
    assert(b.push(("整词匹配"@, state.whole_word)) =~= seq![
        ("区分大小写"@, state.case_sensitive),
        ("正则表达式"@, state.use_regex),
        ("整词匹配"@, state.whole_word),
    ]);
}

// ---------------------------------------------------------------------------
// Laws
// ---------------------------------------------------------------------------

/// A check mark stands at each option that is on and at the theme that is shown.
pub proof fn law_options_that_are_on_are_checked(s: &MenuState, r: Vec<MenuRow>, v: int, t: int)
    requires
        call_ensures(build_main_menu, (s,), r),
        v == 24 + (if s.recent@.len() == 0 {
            1
        } else {
            s.recent@.len() as int
        }),
        0 <= t < 6,
    ensures
        r@.len() == v + 41,
        r@[v + 6 + t].action is SelectTheme && r@[v + 6 + t].on == (r@[v + 6 + t].title@
            == s.theme@),
        r@[v + 14].action is ToggleLineNumbers && r@[v + 14].on == s.show_line_numbers,
        r@[v + 15].action is ToggleWordWrap && r@[v + 15].on == s.word_wrap,
        r@[v + 16].action is ToggleWhitespace && r@[v + 16].on == s.show_whitespace,
        r@[v + 17].action is ToggleLevelColoring && r@[v + 17].on == s.level_coloring,
        r@[v + 18].action is ToggleIndentGuides && r@[v + 18].on == s.show_indent_guides,
        r@[v + 27].action is ToggleCaseSensitive && r@[v + 27].on == s.case_sensitive,
        r@[v + 28].action is ToggleRegex && r@[v + 28].on == s.use_regex,
        r@[v + 29].action is ToggleWholeWord && r@[v + 29].on == s.whole_word,
{
    let rv = rows_view(r@);
    let a = app_rows() + file_rows(s.recent@) + edit_rows();
    let b = view_rows(*s);
    let c = search_rows(s.case_sensitive, s.use_regex, s.whole_word);
    let d = settings_rows();
    assert(a.len() == v);
    assert(b.len() == 22 && c.len() == 8 && d.len() == 11);
    assert(rv.len() == r@.len());
    assert forall|i: int| 0 <= i < rv.len() implies #[trigger] rv[i] == row_view(r@[i]) by {}
    assert(rv[v + 6 + t] == b[6 + t]);
    assert(b[6 + t] == theme_row(t, s.theme@));
    assert(rv[v + 14] == b[14]);
    assert(rv[v + 15] == b[15]);
    assert(rv[v + 16] == b[16]);
    assert(rv[v + 17] == b[17]);
    assert(rv[v + 18] == b[18]);
    assert(rv[v + 27] == c[5]);
    assert(rv[v + 28] == c[6]);
    assert(rv[v + 29] == c[7]);
}

/// The keys of the menus do what is known of them.
pub proof fn law_menu_keys_do_their_work(s: &MenuState, r: Vec<MenuRow>, n: int)
    requires
        call_ensures(build_main_menu, (s,), r),
        n == if s.recent@.len() == 0 {
            1
        } else {
            s.recent@.len() as int
        },
    ensures
        r@[3].action is ShowSettings && r@[3].key@ == ","@ && r@[3].mods is Cmd,
        r@[5].action is Terminate && r@[5].key@ == "q"@ && r@[5].mods is Cmd,
        r@[7].action is OpenDocument && r@[7].key@ == "o"@ && r@[7].mods is Cmd,
        r@[10 + n].action is ReloadDocument && r@[10 + n].key@ == "r"@ && r@[10 + n].mods is Cmd,
        r@[11 + n].action is CloseDocument && r@[11 + n].key@ == "w"@ && r@[11 + n].mods is Cmd,
        r@[16 + n].action is Copy && r@[16 + n].key@ == "c"@ && r@[16 + n].mods is Cmd,
        r@[17 + n].action is SelectAll && r@[17 + n].key@ == "a"@ && r@[17 + n].mods is Cmd,
        r@[19 + n].action is Find && r@[19 + n].key@ == "f"@ && r@[19 + n].mods is Cmd,
        r@[22 + n].action is FindNext && r@[22 + n].key@ == "g"@ && r@[22 + n].mods is Cmd,
        r@[23 + n].action is FindPrevious && r@[23 + n].key@ == "g"@ && r@[23 + n].mods is CmdShift,
        r@[27 + n].action is GotoLine && r@[27 + n].key@ == "l"@ && r@[27 + n].mods is Cmd,
{
    let rv = rows_view(r@);
    let a = app_rows();
    let f = file_rows(s.recent@);
    let e = edit_rows();
    let h = view_head_rows();
    assert(a.len() == 6 && f.len() == 7 + n && e.len() == 11 && h.len() == 6);
    assert(rv.len() == r@.len());
    assert forall|i: int| 0 <= i < rv.len() implies #[trigger] rv[i] == row_view(r@[i]) by {}
    assert(rv[3] == a[3] && rv[5] == a[5]);
    assert(rv[7] == f[1]);
    assert(rv[10 + n] == f[4 + n] && rv[11 + n] == f[5 + n]);
    assert(rv[16 + n] == e[3] && rv[17 + n] == e[4] && rv[19 + n] == e[6] && rv[22 + n] == e[9]
        && rv[23 + n] == e[10]);
    assert(rv[27 + n] == h[3]);
}

/// The files that were opened last are listed by their names, or by their paths where they
/// have none, and each row opens its file.
pub proof fn law_recent_files_are_listed(files: &Vec<RecentFile>, r: Vec<MenuRow>, i: int)
    requires
        call_ensures(sync_recent_menu, (files,), r),
    ensures
        files@.len() > 0 ==> r@.len() == files@.len(),
        0 <= i < files@.len() ==> r@[i].action is OpenRecent && r@[i].path@ == files@[i].path@ && (
        files@[i].name is Some ==> r@[i].title@ == files@[i].name->0@) && (files@[i].name is None
            ==> r@[i].title@ == files@[i].path@),
        files@.len() == 0 ==> r@.len() == 1 && r@[0].kind is Disabled && r@[0].title@
            == "（无）"@,
{
    let rv = rows_view(r@);
    assert(rv.len() == r@.len());
    if files@.len() == 0 {
        assert(rv[0] == row_view(r@[0]));
    } else if 0 <= i < files@.len() {
        assert(rv[i] == row_view(r@[i]));
    }
}

/// Setting a check mark changes the first row with that title and no other, and the check
/// mark of the themes goes to the one that is shown.
pub proof fn law_check_marks_are_set(
    a: &mut Vec<MenuRow>,
    title: &str,
    on: bool,
    done: (),
    b: &mut Vec<MenuRow>,
    theme: &str,
    i: int,
)
    requires
        call_ensures(set_check, (a, title, on), done),
        call_ensures(sync_theme_checks, (b, theme), done),
    ensures
        0 <= i < old(a)@.len() && old(a)@[i].title@ == title@ && (forall|k: int|
            0 <= k < i ==> (#[trigger] old(a)@[k]).title@ != title@) ==> final(a)@[i].on == on,
        0 <= i < old(a)@.len() && old(a)@[i].title@ != title@ ==> final(a)@[i].on == old(a)@[i].on,
        0 <= i < old(a)@.len() ==> final(a)@[i].title@ == old(a)@[i].title@ && final(a)@[i].action
            == old(a)@[i].action,
        0 <= i < old(b)@.len() ==> final(b)@[i].on == (old(b)@[i].title@ == theme@)
            && final(b)@[i].title@ == old(b)@[i].title@,
{
    if 0 <= i < old(a)@.len() {
        let v = row_view(final(a)@[i]);
        if old(a)@[i].title@ == title@ && (forall|k: int|
            0 <= k < i ==> (#[trigger] old(a)@[k]).title@ != title@) {
            assert(is_titled(old(a)@, title@, i));
        }
    }
    if 0 <= i < old(b)@.len() {
        let v = row_view(final(b)@[i]);
    }
}

/// The check marks of the options follow the options, and other rows stay.
pub proof fn law_check_marks_follow_the_options(
    a: &mut Vec<MenuRow>,
    s: &MenuState,
    done: (),
    b: &mut Vec<MenuRow>,
    i: int,
)
    requires
        call_ensures(sync_view_checks, (a, s), done),
        call_ensures(sync_search_checks, (b, s), done),
        0 <= i < old(a)@.len(),
        0 <= i < old(b)@.len(),
        forall|k: int| 0 <= k < i ==> (#[trigger] old(a)@[k]).title@ != old(a)@[i].title@,
        forall|k: int| 0 <= k < i ==> (#[trigger] old(b)@[k]).title@ != old(b)@[i].title@,
    ensures
        old(a)@[i].title@ == "显示行号"@ ==> final(a)@[i].on == s.show_line_numbers,
        old(a)@[i].title@ == "自动换行"@ ==> final(a)@[i].on == s.word_wrap,
        old(a)@[i].title@ == "显示空白"@ ==> final(a)@[i].on == s.show_whitespace,
        old(a)@[i].title@ == "级别着色"@ ==> final(a)@[i].on == s.level_coloring,
        old(a)@[i].title@ == "缩进参考线"@ ==> final(a)@[i].on == s.show_indent_guides,
        old(b)@[i].title@ == "区分大小写"@ ==> final(b)@[i].on == s.case_sensitive,
        old(b)@[i].title@ == "正则表达式"@ ==> final(b)@[i].on == s.use_regex,
        old(b)@[i].title@ == "整词匹配"@ ==> final(b)@[i].on == s.whole_word,
        final(a)@[i].action == old(a)@[i].action && final(b)@[i].action == old(b)@[i].action,
{
    reveal_strlit("显示行号");
    reveal_strlit("自动换行");
    reveal_strlit("显示空白");
    reveal_strlit("级别着色");
    reveal_strlit("缩进参考线");
    reveal_strlit("区分大小写");
    reveal_strlit("正则表达式");
    reveal_strlit("整词匹配");
    assert("显示行号"@[2] == '行' && "显示空白"@[2] == '空' && "自动换行"@[0] == '自'
        && "级别着色"@[0] == '级' && "缩进参考线"@[0] == '缩' && "显示行号"@[0] == '显'
        && "显示空白"@[0] == '显');
    assert("区分大小写"@[0] == '区' && "正则表达式"@[0] == '正' && "整词匹配"@[0] == '整');
    reveal_with_fuel(mark_after, 6);
    let m5 = seq![
        ("显示行号"@, s.show_line_numbers),
        ("自动换行"@, s.word_wrap),
        ("显示空白"@, s.show_whitespace),
        ("级别着色"@, s.level_coloring),
        ("缩进参考线"@, s.show_indent_guides),
    ];
    let m3 = seq![
        ("区分大小写"@, s.case_sensitive),
        ("正则表达式"@, s.use_regex),
        ("整词匹配"@, s.whole_word),
    ];
    let va = row_view(final(a)@[i]);
    let vb = row_view(final(b)@[i]);
    assert(va.on == mark_after(old(a)@, m5, i));
    assert(vb.on == mark_after(old(b)@, m3, i));
    assert(is_titled(old(a)@, old(a)@[i].title@, i));
    assert(is_titled(old(b)@, old(b)@[i].title@, i));
}

} // verus!
