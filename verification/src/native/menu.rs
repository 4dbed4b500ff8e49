//! The menu bar: its rows under the current state, and what its commands are.
//!
//! The bar is built anew whenever a state that it shows changes, so that checks
//! and submenus always agree with it.

use vstd::prelude::*;

use crate::decimal::{decimal, push_decimal};
use crate::fields::{keep_end, shorten_front};
use crate::native::app::{SearchFlag, ViewFlag, ViewFlags};
use crate::palettes::{theme_name, theme_name_text, THEMES};
use crate::utf16::{encode, encode_utf16};

verus! {

broadcast use vstd::string::group_string_axioms;

pub const IDM_FILE_OPEN: u16 = 1001;

pub const IDM_FILE_CLOSE: u16 = 1002;

pub const IDM_FILE_RELOAD: u16 = 1003;

pub const IDM_FILE_EXIT: u16 = 1004;

pub const IDM_FILE_PROPERTIES: u16 = 1005;

/// First of the ten recent files.
pub const IDM_RECENT_BASE: u16 = 1100;

pub const IDM_VIEW_TOP: u16 = 1201;

pub const IDM_VIEW_BOTTOM: u16 = 1202;

pub const IDM_VIEW_GOTO: u16 = 1203;

/// First of the six themes.
pub const IDM_THEME_BASE: u16 = 1210;

pub const IDM_VIEW_LINENUMS: u16 = 1221;

pub const IDM_VIEW_WORDWRAP: u16 = 1222;

pub const IDM_VIEW_WHITESPACE: u16 = 1223;

pub const IDM_VIEW_INDENTGUIDE: u16 = 1224;

pub const IDM_VIEW_LEVELCOLOR: u16 = 1225;

pub const IDM_VIEW_FONT_BIGGER: u16 = 1226;

pub const IDM_VIEW_FONT_SMALLER: u16 = 1227;

pub const IDM_VIEW_FONT_RESET: u16 = 1228;

pub const IDM_SEARCH_FIND: u16 = 1301;

pub const IDM_SEARCH_NEXT: u16 = 1302;

pub const IDM_SEARCH_PREV: u16 = 1303;

pub const IDM_SEARCH_CASE: u16 = 1304;

pub const IDM_SEARCH_REGEX: u16 = 1305;

pub const IDM_SEARCH_WORD: u16 = 1306;

pub const IDM_TOOLS_CACHE: u16 = 1401;

pub const IDM_TOOLS_SETTINGS: u16 = 1402;

pub const IDM_DONATE: u16 = 1501;

pub const IDM_HELP_HELP: u16 = 1601;

pub const IDM_HELP_SHORTCUTS: u16 = 1602;

pub const IDM_HELP_ABOUT: u16 = 1603;

/// Longest path that a menu shows whole.
pub const MAX_PATH_CHARS: usize = 48;

/// Most recent files that the menu lists.
pub const MAX_RECENT: usize = 10;

/// Code units of a text, with a zero behind them.
pub open spec fn wide_text(s: Seq<char>) -> Seq<u16> {
    encode(s).push(0)
}

/// Code units of a text, with a zero behind them.
pub fn wide(s: &str) -> (r: Vec<u16>)
    ensures
        r@ == wide_text(s@),
{
    let mut v: Vec<u16> = encode_utf16(s);
    v.push(0);
    v
}

/// A path as a menu shows it: at most 48 characters, the last ones.
pub fn short_path(p: &str) -> (r: String)
    ensures
        r@ == keep_end(p@, MAX_PATH_CHARS as nat),
{
    shorten_front(p, MAX_PATH_CHARS)
}

// ---------------------------------------------------------------------------
// Commands
// ---------------------------------------------------------------------------

/// What a command asks the application to do.
#[derive(Clone, Copy, PartialEq, Eq, Debug, Structural)]
pub enum Command {
    PickFile,
    CloseFile,
    /// Opens the current file again.
    ReopenFile,
    ShowProperties,
    Exit,
    /// Opens a file of the list of recent files.
    OpenRecent(usize),
    FocusSearch,
    JumpNext,
    JumpPrev,
    ToggleSearch(SearchFlag),
    ScrollTop,
    ScrollBottom,
    FocusGoto,
    SwitchTheme(usize),
    ToggleView(ViewFlag),
    FontBigger,
    FontSmaller,
    FontReset,
    ShowCache,
    ShowSettings,
    ShowDonate,
    ShowHelp,
    ShowShortcuts,
    ShowAbout,
    /// Nothing: the number is that of no command.
    Nothing,
}

/// The command of a menu number.
pub open spec fn command_of(id: u16) -> Command {
    if id == IDM_FILE_OPEN {
        Command::PickFile
    } else if id == IDM_FILE_CLOSE {
        Command::CloseFile
    } else if id == IDM_FILE_RELOAD {
        Command::ReopenFile
    } else if id == IDM_FILE_PROPERTIES {
        Command::ShowProperties
    } else if id == IDM_FILE_EXIT {
        Command::Exit
    } else if id == IDM_SEARCH_FIND {
        Command::FocusSearch
    } else if id == IDM_SEARCH_NEXT {
        Command::JumpNext
    } else if id == IDM_SEARCH_PREV {
        Command::JumpPrev
    } else if id == IDM_SEARCH_CASE {
        Command::ToggleSearch(SearchFlag::Case)
    } else if id == IDM_SEARCH_REGEX {
        Command::ToggleSearch(SearchFlag::Regex)
    } else if id == IDM_SEARCH_WORD {
        Command::ToggleSearch(SearchFlag::Word)
    } else if id == IDM_VIEW_TOP {
        Command::ScrollTop
    } else if id == IDM_VIEW_BOTTOM {
        Command::ScrollBottom
    } else if id == IDM_VIEW_GOTO {
        Command::FocusGoto
    } else if id == IDM_VIEW_LINENUMS {
        Command::ToggleView(ViewFlag::LineNumbers)
    } else if id == IDM_VIEW_WORDWRAP {
        Command::ToggleView(ViewFlag::WordWrap)
    } else if id == IDM_VIEW_WHITESPACE {
        Command::ToggleView(ViewFlag::Whitespace)
    } else if id == IDM_VIEW_INDENTGUIDE {
        Command::ToggleView(ViewFlag::IndentGuides)
    } else if id == IDM_VIEW_LEVELCOLOR {
        Command::ToggleView(ViewFlag::LevelColoring)
    } else if id == IDM_VIEW_FONT_BIGGER {
        Command::FontBigger
    } else if id == IDM_VIEW_FONT_SMALLER {
        Command::FontSmaller
    } else if id == IDM_VIEW_FONT_RESET {
        Command::FontReset
    } else if id == IDM_TOOLS_CACHE {
        Command::ShowCache
    } else if id == IDM_TOOLS_SETTINGS {
        Command::ShowSettings
    } else if id == IDM_DONATE {
        Command::ShowDonate
    } else if id == IDM_HELP_HELP {
        Command::ShowHelp
    } else if id == IDM_HELP_SHORTCUTS {
        Command::ShowShortcuts
    } else if id == IDM_HELP_ABOUT {
        Command::ShowAbout
    } else if IDM_RECENT_BASE <= id < IDM_RECENT_BASE + 10 {
        Command::OpenRecent((id - IDM_RECENT_BASE) as usize)
    } else if IDM_THEME_BASE <= id < IDM_THEME_BASE + 6 {
        Command::SwitchTheme((id - IDM_THEME_BASE) as usize)
    } else {
        Command::Nothing
    }
}

/// The command of a menu number.
pub fn dispatch(id: u16) -> (r: Command)
    ensures
        r == command_of(id),
{
    match id {
        IDM_FILE_OPEN => Command::PickFile,
        IDM_FILE_CLOSE => Command::CloseFile,
        IDM_FILE_RELOAD => Command::ReopenFile,
        IDM_FILE_PROPERTIES => Command::ShowProperties,
        IDM_FILE_EXIT => Command::Exit,
        IDM_SEARCH_FIND => Command::FocusSearch,
        IDM_SEARCH_NEXT => Command::JumpNext,
        IDM_SEARCH_PREV => Command::JumpPrev,
        IDM_SEARCH_CASE => Command::ToggleSearch(SearchFlag::Case),
        IDM_SEARCH_REGEX => Command::ToggleSearch(SearchFlag::Regex),
        IDM_SEARCH_WORD => Command::ToggleSearch(SearchFlag::Word),
        IDM_VIEW_TOP => Command::ScrollTop,
        IDM_VIEW_BOTTOM => Command::ScrollBottom,
        IDM_VIEW_GOTO => Command::FocusGoto,
        IDM_VIEW_LINENUMS => Command::ToggleView(ViewFlag::LineNumbers),
        IDM_VIEW_WORDWRAP => Command::ToggleView(ViewFlag::WordWrap),
        IDM_VIEW_WHITESPACE => Command::ToggleView(ViewFlag::Whitespace),
        IDM_VIEW_INDENTGUIDE => Command::ToggleView(ViewFlag::IndentGuides),
        IDM_VIEW_LEVELCOLOR => Command::ToggleView(ViewFlag::LevelColoring),
        IDM_VIEW_FONT_BIGGER => Command::FontBigger,
        IDM_VIEW_FONT_SMALLER => Command::FontSmaller,
        IDM_VIEW_FONT_RESET => Command::FontReset,
        IDM_TOOLS_CACHE => Command::ShowCache,
        IDM_TOOLS_SETTINGS => Command::ShowSettings,
        IDM_DONATE => Command::ShowDonate,
        IDM_HELP_HELP => Command::ShowHelp,
        IDM_HELP_SHORTCUTS => Command::ShowShortcuts,
        IDM_HELP_ABOUT => Command::ShowAbout,
        _ => {
            if id >= IDM_RECENT_BASE && id < IDM_RECENT_BASE + 10 {
                Command::OpenRecent((id - IDM_RECENT_BASE) as usize)
            } else if id >= IDM_THEME_BASE && id < IDM_THEME_BASE + 6 {
                Command::SwitchTheme((id - IDM_THEME_BASE) as usize)
            } else {
                Command::Nothing
            }
        },
    }
}

/// A number lies in the ranges that the menus of the application use.
pub open spec fn is_menu_id(id: u16) -> bool {
    ||| 1001 <= id <= 1005
    ||| IDM_RECENT_BASE <= id < IDM_RECENT_BASE + 10
    ||| 1201 <= id <= 1228
    ||| IDM_THEME_BASE <= id < IDM_THEME_BASE + 6
    ||| 1301 <= id <= 1306
    ||| 1401 <= id <= 1402
    ||| id == IDM_DONATE
    ||| 1601 <= id <= 1603
}

/// Whether a number lies in the ranges that the menus of the application use.
pub fn matches(id: u16) -> (r: bool)
    ensures
        r == is_menu_id(id),
{
    (1001 <= id && id <= 1005) || (id >= IDM_RECENT_BASE && id < IDM_RECENT_BASE + 10) || (1201
        <= id && id <= 1228) || (id >= IDM_THEME_BASE && id < IDM_THEME_BASE + 6) || (1301 <= id
        && id <= 1306) || (1401 <= id && id <= 1402) || id == IDM_DONATE || (1601 <= id && id
        <= 1603)
}

// ---------------------------------------------------------------------------
// The menu bar
// ---------------------------------------------------------------------------

/// What a row of a menu is.
#[derive(Clone, Copy, PartialEq, Eq, Debug, Structural)]
pub enum RowKind {
    /// A menu, whose rows follow one level deeper.
    Menu,
    /// A command.
    Item,
    /// A command with a check mark.
    Checked,
    /// A row that cannot be chosen.
    Grayed,
    /// A line between rows.
    Separator,
}

/// A row of the menu bar.
pub struct MenuRow {
    /// 0 in the bar, 1 in its menus, 2 in their submenus.
    pub level: u8,
    pub kind: RowKind,
    pub id: u16,
    pub label: String,
}

/// What a row shows and does.
pub struct RowView {
    pub level: u8,
    pub kind: RowKind,
    pub id: u16,
    pub label: Seq<char>,
}

pub open spec fn row_view(r: MenuRow) -> RowView {
    RowView { level: r.level, kind: r.kind, id: r.id, label: r.label@ }
}

/// What some rows show and do.
pub open spec fn rows_view(rows: Seq<MenuRow>) -> Seq<RowView> {
    Seq::new(rows.len(), |i: int| row_view(rows[i]))
}

/// State that the menus show.
pub struct MenuState {
    pub recent_files: Vec<String>,
    pub theme_idx: usize,
    pub view: ViewFlags,
    pub case_sensitive: bool,
    pub use_regex: bool,
    pub whole_word: bool,
}

pub open spec fn menu(level: u8, label: &str) -> RowView {
    RowView { level, kind: RowKind::Menu, id: 0, label: label@ }
}

pub open spec fn item(level: u8, id: u16, label: &str) -> RowView {
    RowView { level, kind: RowKind::Item, id, label: label@ }
}

pub open spec fn check(level: u8, id: u16, label: &str, on: bool) -> RowView {
    RowView {
        level,
        kind: if on {
            RowKind::Checked
        } else {
            RowKind::Item
        },
        id,
        label: label@,
    }
}

pub open spec fn separator(level: u8) -> RowView {
    RowView { level, kind: RowKind::Separator, id: 0, label: Seq::empty() }
}

/// Row of recent file `i`: its number, counted from 1, and its path.
pub open spec fn recent_row(files: Seq<String>, i: int) -> RowView {
    RowView {
        level: 2,
        kind: RowKind::Item,
        id: (IDM_RECENT_BASE + i) as u16,
        label: seq!['&'] + decimal((i + 1) as nat) + seq![' '] + keep_end(
            files[i]@,
            MAX_PATH_CHARS as nat,
        ),
    }
}

/// Rows of the recent files: at most ten, and a note where there is none.
pub open spec fn recent_rows(files: Seq<String>) -> Seq<RowView> {
    if files.len() == 0 {
        seq![RowView { level: 2, kind: RowKind::Grayed, id: 0, label: "（无）"@ }]
    } else {
        Seq::new(
            if files.len() <= MAX_RECENT {
                files.len()
            } else {
                MAX_RECENT as nat
            },
            |i: int| recent_row(files, i),
        )
    }
}

/// Rows of the themes, the current one checked.
pub open spec fn theme_rows(current: usize) -> Seq<RowView> {
    Seq::new(
        THEMES as nat,
        |i: int|
            RowView {
                level: 2,
                kind: if i == current {
                    RowKind::Checked
                } else {
                    RowKind::Item
                },
                id: (IDM_THEME_BASE + i) as u16,
                label: theme_name_text(i),
            },
    )
}

pub open spec fn file_rows(files: Seq<String>) -> Seq<RowView> {
    seq![
        menu(0, "&文件"),
        item(1, IDM_FILE_OPEN, "&打开文件...\tCtrl+O"),
        item(1, IDM_FILE_CLOSE, "&关闭\tCtrl+W"),
        item(1, IDM_FILE_RELOAD, "&重新加载\tCtrl+R"),
        menu(1, "最近打开 ▸"),
    ] + recent_rows(files) + seq![
        separator(1),
        item(1, IDM_FILE_PROPERTIES, "文件属性...\tCtrl+I"),
        separator(1),
        item(1, IDM_FILE_EXIT, "&退出\tAlt+F4"),
    ]
}

pub open spec fn view_rows(theme_idx: usize, v: ViewFlags) -> Seq<RowView> {
    seq![
        menu(0, "视图(&V)"),
        item(1, IDM_VIEW_TOP, "跳转到顶部\tHome"),
        item(1, IDM_VIEW_BOTTOM, "跳转到底部\tEnd"),
        item(1, IDM_VIEW_GOTO, "跳转到行...\tCtrl+L"),
        separator(1),
        menu(1, "主题 ▸"),
    ] + theme_rows(theme_idx) + seq![
        separator(1),
        check(1, IDM_VIEW_LINENUMS, "显示行号", v.show_line_numbers),
        check(1, IDM_VIEW_WORDWRAP, "自动换行", v.word_wrap),
        check(1, IDM_VIEW_WHITESPACE, "显示空白字符", v.show_whitespace),
        check(1, IDM_VIEW_INDENTGUIDE, "缩进参考线", v.show_indent_guides),
        check(1, IDM_VIEW_LEVELCOLOR, "日志级别着色", v.level_coloring),
        separator(1),
        item(1, IDM_VIEW_FONT_BIGGER, "字体放大\tCtrl++"),
        item(1, IDM_VIEW_FONT_SMALLER, "字体缩小\tCtrl+-"),
        item(1, IDM_VIEW_FONT_RESET, "字体重置\tCtrl+0"),
    ]
}

pub open spec fn search_rows(case: bool, regex: bool, word: bool) -> Seq<RowView> {
    seq![
        menu(0, "搜索(&S)"),
        item(1, IDM_SEARCH_FIND, "查找...\tCtrl+F"),
        item(1, IDM_SEARCH_NEXT, "下一个\tF3"),
        item(1, IDM_SEARCH_PREV, "上一个\tShift+F3"),
        separator(1),
        check(1, IDM_SEARCH_CASE, "大小写敏感", case),
        check(1, IDM_SEARCH_REGEX, "正则表达式", regex),
        check(1, IDM_SEARCH_WORD, "整词匹配", word),
    ]
}

pub open spec fn other_rows() -> Seq<RowView> {
    seq![
        menu(0, "工具(&T)"),
        item(1, IDM_TOOLS_CACHE, "缓存管理..."),
        separator(1),
        item(1, IDM_TOOLS_SETTINGS, "设置..."),
        item(0, IDM_DONATE, "❤ 捐赠"),
        menu(0, "帮助(&H)"),
        item(1, IDM_HELP_HELP, "使用说明\tF1"),
        item(1, IDM_HELP_SHORTCUTS, "快捷键一览"),
        separator(1),
        item(1, IDM_HELP_ABOUT, "关于 qview"),
    ]
}

impl MenuState {
    /// The rows of the menu bar, each menu followed by its rows.
    pub open spec fn bar(self) -> Seq<RowView> {
        file_rows(self.recent_files@) + view_rows(self.theme_idx, self.view) + search_rows(
            self.case_sensitive,
            self.use_regex,
            self.whole_word,
        ) + other_rows()
    }
}

fn push_row(rows: &mut Vec<MenuRow>, level: u8, kind: RowKind, id: u16, label: &str)
    ensures
        rows_view(final(rows)@) == rows_view(old(rows)@).push(
            RowView { level, kind, id, label: label@ },
        ),
{
    let ghost before = rows@;
    rows.push(MenuRow { level, kind, id, label: label.to_owned() });
    assert(rows_view(rows@) =~= rows_view(before).push(RowView { level, kind, id, label: label@ }));
}

fn push_menu(rows: &mut Vec<MenuRow>, level: u8, label: &str)
    ensures
        rows_view(final(rows)@) == rows_view(old(rows)@).push(menu(level, label)),
{
    push_row(rows, level, RowKind::Menu, 0, label);
}

fn push_item(rows: &mut Vec<MenuRow>, level: u8, id: u16, label: &str)
    ensures
        rows_view(final(rows)@) == rows_view(old(rows)@).push(item(level, id, label)),
{
    push_row(rows, level, RowKind::Item, id, label);
}

fn push_check(rows: &mut Vec<MenuRow>, level: u8, id: u16, label: &str, on: bool)
    ensures
        rows_view(final(rows)@) == rows_view(old(rows)@).push(check(level, id, label, on)),
{
    let kind: RowKind = if on {
        RowKind::Checked
    } else {
        RowKind::Item
    };
    push_row(rows, level, kind, id, label);
}

fn push_separator(rows: &mut Vec<MenuRow>, level: u8)
    ensures
        rows_view(final(rows)@) == rows_view(old(rows)@).push(separator(level)),
{
    let ghost before = rows@;
    rows.push(MenuRow { level, kind: RowKind::Separator, id: 0, label: String::new() });
    assert(rows_view(rows@) =~= rows_view(before).push(separator(level)));
}

fn push_recent(rows: &mut Vec<MenuRow>, files: &Vec<String>)
    ensures
        rows_view(final(rows)@) == rows_view(old(rows)@) + recent_rows(files@),
{
    let ghost before = rows_view(rows@);
    if files.len() == 0 {
        push_row(rows, 2, RowKind::Grayed, 0, "（无）");
        assert(rows_view(rows@) =~= before + recent_rows(files@));
        return ;
    }
    let n: usize = if files.len() <= MAX_RECENT {
        files.len()
    } else {
        MAX_RECENT
    };
    let mut i: usize = 0;
    assert(before + recent_rows(files@).take(0) =~= before);
    while i < n
        invariant
            i <= n <= files@.len(),
            n <= MAX_RECENT,
            files@.len() > 0,
            n == recent_rows(files@).len(),
            rows_view(rows@) == before + recent_rows(files@).take(i as int),
        decreases n - i,
    {
        let mut label = String::new();
        label.push('&');
        push_decimal(&mut label, i as u64 + 1);
        label.push(' ');
        let path: String = short_path(files[i].as_str());
        label.append(path.as_str());
        assert(label@ =~= recent_row(files@, i as int).label);
        push_row(rows, 2, RowKind::Item, IDM_RECENT_BASE + i as u16, label.as_str());
        assert(recent_rows(files@).take(i + 1) =~= recent_rows(files@).take(i as int).push(
            recent_row(files@, i as int),
        ));
        assert(rows_view(rows@) =~= before + recent_rows(files@).take(i + 1));
        i = i + 1;
    }
    assert(recent_rows(files@).take(n as int) =~= recent_rows(files@));
}

fn push_themes(rows: &mut Vec<MenuRow>, current: usize)
    ensures
        rows_view(final(rows)@) == rows_view(old(rows)@) + theme_rows(current),
{
    let ghost before = rows_view(rows@);
    let mut i: usize = 0;
    assert(before + theme_rows(current).take(0) =~= before);
    while i < THEMES
        invariant
            i <= THEMES,
            rows_view(rows@) == before + theme_rows(current).take(i as int),
        decreases THEMES - i,
    {
        let kind: RowKind = if i == current {
            RowKind::Checked
        } else {
            RowKind::Item
        };
        push_row(rows, 2, kind, IDM_THEME_BASE + i as u16, theme_name(i));
        assert(theme_rows(current).take(i + 1) =~= theme_rows(current).take(i as int).push(
            theme_rows(current)[i as int],
        ));
        assert(rows_view(rows@) =~= before + theme_rows(current).take(i + 1));
        i = i + 1;
    }
    assert(theme_rows(current).take(THEMES as int) =~= theme_rows(current));
}

fn push_file_menu(rows: &mut Vec<MenuRow>, files: &Vec<String>)
    ensures
        rows_view(final(rows)@) == rows_view(old(rows)@) + file_rows(files@),
{
    let ghost before = rows_view(rows@);
    push_menu(rows, 0, "&文件");
    push_item(rows, 1, IDM_FILE_OPEN, "&打开文件...\tCtrl+O");
    push_item(rows, 1, IDM_FILE_CLOSE, "&关闭\tCtrl+W");
    push_item(rows, 1, IDM_FILE_RELOAD, "&重新加载\tCtrl+R");
    push_menu(rows, 1, "最近打开 ▸");
    push_recent(rows, files);
    push_separator(rows, 1);
    push_item(rows, 1, IDM_FILE_PROPERTIES, "文件属性...\tCtrl+I");
    push_separator(rows, 1);
    push_item(rows, 1, IDM_FILE_EXIT, "&退出\tAlt+F4");
    assert(rows_view(rows@) =~= before + file_rows(files@));
}

fn push_view_menu(rows: &mut Vec<MenuRow>, theme_idx: usize, v: &ViewFlags)
    ensures
        rows_view(final(rows)@) == rows_view(old(rows)@) + view_rows(theme_idx, *v),
{
    let ghost before = rows_view(rows@);
    push_menu(rows, 0, "视图(&V)");
    push_item(rows, 1, IDM_VIEW_TOP, "跳转到顶部\tHome");
    push_item(rows, 1, IDM_VIEW_BOTTOM, "跳转到底部\tEnd");
    push_item(rows, 1, IDM_VIEW_GOTO, "跳转到行...\tCtrl+L");
    push_separator(rows, 1);
    push_menu(rows, 1, "主题 ▸");
    push_themes(rows, theme_idx);
    push_separator(rows, 1);
    push_check(rows, 1, IDM_VIEW_LINENUMS, "显示行号", v.show_line_numbers);
    push_check(rows, 1, IDM_VIEW_WORDWRAP, "自动换行", v.word_wrap);
    push_check(rows, 1, IDM_VIEW_WHITESPACE, "显示空白字符", v.show_whitespace);
    push_check(rows, 1, IDM_VIEW_INDENTGUIDE, "缩进参考线", v.show_indent_guides);
    push_check(rows, 1, IDM_VIEW_LEVELCOLOR, "日志级别着色", v.level_coloring);
    push_separator(rows, 1);
    push_item(rows, 1, IDM_VIEW_FONT_BIGGER, "字体放大\tCtrl++");
    push_item(rows, 1, IDM_VIEW_FONT_SMALLER, "字体缩小\tCtrl+-");
    push_item(rows, 1, IDM_VIEW_FONT_RESET, "字体重置\tCtrl+0");
    assert(rows_view(rows@) =~= before + view_rows(theme_idx, *v));
}

fn push_search_menu(rows: &mut Vec<MenuRow>, case: bool, regex: bool, word: bool)
    ensures
        rows_view(final(rows)@) == rows_view(old(rows)@) + search_rows(case, regex, word),
{
    let ghost before = rows_view(rows@);
    push_menu(rows, 0, "搜索(&S)");
    push_item(rows, 1, IDM_SEARCH_FIND, "查找...\tCtrl+F");
    push_item(rows, 1, IDM_SEARCH_NEXT, "下一个\tF3");
    push_item(rows, 1, IDM_SEARCH_PREV, "上一个\tShift+F3");
    push_separator(rows, 1);
    push_check(rows, 1, IDM_SEARCH_CASE, "大小写敏感", case);
    push_check(rows, 1, IDM_SEARCH_REGEX, "正则表达式", regex);
    push_check(rows, 1, IDM_SEARCH_WORD, "整词匹配", word);
    assert(rows_view(rows@) =~= before + search_rows(case, regex, word));
}

fn push_other_menus(rows: &mut Vec<MenuRow>)
    ensures
        rows_view(final(rows)@) == rows_view(old(rows)@) + other_rows(),
{
    let ghost before = rows_view(rows@);
    push_menu(rows, 0, "工具(&T)");
    push_item(rows, 1, IDM_TOOLS_CACHE, "缓存管理...");
    push_separator(rows, 1);
    push_item(rows, 1, IDM_TOOLS_SETTINGS, "设置...");
    push_item(rows, 0, IDM_DONATE, "❤ 捐赠");
    push_menu(rows, 0, "帮助(&H)");
    push_item(rows, 1, IDM_HELP_HELP, "使用说明\tF1");
    push_item(rows, 1, IDM_HELP_SHORTCUTS, "快捷键一览");
    push_separator(rows, 1);
    push_item(rows, 1, IDM_HELP_ABOUT, "关于 qview");
    assert(rows_view(rows@) =~= before + other_rows());
}

/// Builds the rows of the menu bar from the current state.
pub fn build_menu_bar(state: &MenuState) -> (r: Vec<MenuRow>)
    ensures
        rows_view(r@) == state.bar(),
{
    let mut rows: Vec<MenuRow> = Vec::new();
    push_file_menu(&mut rows, &state.recent_files);
    push_view_menu(&mut rows, state.theme_idx, &state.view);
    push_search_menu(&mut rows, state.case_sensitive, state.use_regex, state.whole_word);
    push_other_menus(&mut rows);
    assert(rows_view(rows@) =~= state.bar());
    rows
}

// ---------------------------------------------------------------------------
// Laws
// ---------------------------------------------------------------------------

/// Every number that has a command is accepted as a menu number.
pub proof fn law_commands_are_accepted(id: u16)
    requires
        command_of(id) != Command::Nothing,
    ensures
        is_menu_id(id),
{
}

/// Every row of the menu bar that can be chosen has a command.
pub proof fn law_rows_have_commands(state: MenuState, i: int)
    requires
        0 <= i < state.bar().len(),
        state.bar()[i].kind == RowKind::Item || state.bar()[i].kind == RowKind::Checked,
    ensures
        command_of(state.bar()[i].id) != Command::Nothing,
{
    let a = file_rows(state.recent_files@);
    let b = view_rows(state.theme_idx, state.view);
    let c = search_rows(state.case_sensitive, state.use_regex, state.whole_word);
    let row = state.bar()[i];
    if i < a.len() {
        assert(row == a[i]);
        lemma_file_rows(state.recent_files@, i);
    } else if i < a.len() + b.len() {
        assert(row == b[i - a.len()]);
    } else if i < a.len() + b.len() + c.len() {
        assert(row == c[i - a.len() - b.len()]);
    } else {
        assert(row == other_rows()[i - a.len() - b.len() - c.len()]);
    }
}

proof fn lemma_file_rows(files: Seq<String>, i: int)
    requires
        0 <= i < file_rows(files).len(),
        file_rows(files)[i].kind == RowKind::Item || file_rows(files)[i].kind == RowKind::Checked,
    ensures
        command_of(file_rows(files)[i].id) != Command::Nothing,
{
    let r = recent_rows(files);
    if 5 <= i < 5 + r.len() {
        assert(file_rows(files)[i] == r[i - 5]);
    } else if i >= 5 + r.len() {
        let tail = seq![
            separator(1),
            item(1, IDM_FILE_PROPERTIES, "文件属性...\tCtrl+I"),
            separator(1),
            item(1, IDM_FILE_EXIT, "&退出\tAlt+F4"),
        ];
        assert(file_rows(files)[i] == tail[i - 5 - r.len()]);
    }
}

/// The commands of the menus have their numbers.
pub proof fn law_menu_commands_have_their_numbers(id: u16, r: Command, known: bool)
    requires
        call_ensures(dispatch, (id,), r),
        call_ensures(matches, (id,), known),
    ensures
        id == 1001 ==> r is PickFile,
        id == 1002 ==> r is CloseFile,
        id == 1003 ==> r is ReopenFile,
        id == 1004 ==> r is Exit,
        id == 1005 ==> r is ShowProperties,
        1100 <= id < 1110 ==> r == Command::OpenRecent((id - 1100) as usize),
        id == 1201 ==> r is ScrollTop,
        id == 1202 ==> r is ScrollBottom,
        id == 1203 ==> r is FocusGoto,
        1210 <= id < 1216 ==> r == Command::SwitchTheme((id - 1210) as usize),
        id == 1221 ==> r == Command::ToggleView(ViewFlag::LineNumbers),
        id == 1222 ==> r == Command::ToggleView(ViewFlag::WordWrap),
        id == 1223 ==> r == Command::ToggleView(ViewFlag::Whitespace),
        id == 1224 ==> r == Command::ToggleView(ViewFlag::IndentGuides),
        id == 1225 ==> r == Command::ToggleView(ViewFlag::LevelColoring),
        id == 1226 ==> r is FontBigger,
        id == 1227 ==> r is FontSmaller,
        id == 1228 ==> r is FontReset,
        id == 1301 ==> r is FocusSearch,
        id == 1302 ==> r is JumpNext,
        id == 1303 ==> r is JumpPrev,
        id == 1304 ==> r == Command::ToggleSearch(SearchFlag::Case),
        id == 1305 ==> r == Command::ToggleSearch(SearchFlag::Regex),
        id == 1306 ==> r == Command::ToggleSearch(SearchFlag::Word),
        id == 1401 ==> r is ShowCache,
        id == 1402 ==> r is ShowSettings,
        id == 1501 ==> r is ShowDonate,
        id == 1601 ==> r is ShowHelp,
        id == 1602 ==> r is ShowShortcuts,
        id == 1603 ==> r is ShowAbout,
        !(r is Nothing) ==> known,
        id < 1001 || id > 1603 ==> r is Nothing && !known,
{
}

/// A check mark stands at each option that is on, and at the theme that is shown.
pub proof fn law_options_that_are_on_are_checked(s: &MenuState, r: Vec<MenuRow>, v: int, t: int)
    requires
        call_ensures(build_menu_bar, (s,), r),
        v == 9 + (if s.recent_files@.len() == 0 {
            1
        } else if s.recent_files@.len() <= 10 {
            s.recent_files@.len() as int
        } else {
            10
        }),
        0 <= t < 6,
    ensures
        ({
            let b = r@;
            &&& b.len() == v + 40
            &&& b[v + 6 + t].id == 1210 + t && (b[v + 6 + t].kind is Checked) == (s.theme_idx == t)
            &&& b[v + 13].id == 1221 && (b[v + 13].kind is Checked) == s.view.show_line_numbers
            &&& b[v + 14].id == 1222 && (b[v + 14].kind is Checked) == s.view.word_wrap
            &&& b[v + 15].id == 1223 && (b[v + 15].kind is Checked) == s.view.show_whitespace
            &&& b[v + 16].id == 1224 && (b[v + 16].kind is Checked) == s.view.show_indent_guides
            &&& b[v + 17].id == 1225 && (b[v + 17].kind is Checked) == s.view.level_coloring
            &&& b[v + 27].id == 1304 && (b[v + 27].kind is Checked) == s.case_sensitive
            &&& b[v + 28].id == 1305 && (b[v + 28].kind is Checked) == s.use_regex
            &&& b[v + 29].id == 1306 && (b[v + 29].kind is Checked) == s.whole_word
        }),
{
    let rv = rows_view(r@);
    let a = file_rows(s.recent_files@);
    let b = view_rows(s.theme_idx, s.view);
    let c = search_rows(s.case_sensitive, s.use_regex, s.whole_word);
    assert(a.len() == v);
    assert(b.len() == 22);
    assert(c.len() == 8);
    assert(rv.len() == r@.len());
    assert(rv[v + 6 + t] == b[6 + t]);
    assert(rv[v + 13] == b[13]);
    assert(rv[v + 14] == b[14]);
    assert(rv[v + 15] == b[15]);
    assert(rv[v + 16] == b[16]);
    assert(rv[v + 17] == b[17]);
    assert(rv[v + 27] == c[5]);
    assert(rv[v + 28] == c[6]);
    assert(rv[v + 29] == c[7]);
}

/// The files that were opened last are listed with their numbers, ten at most, the end of
/// the path where it is long.
pub proof fn law_recent_files_are_listed(
    s: &MenuState,
    r: Vec<MenuRow>,
    i: int,
    number: String,
    whole: &str,
    path: String,
)
    requires
        call_ensures(build_menu_bar, (s,), r),
        0 <= i < 10,
        i < s.recent_files@.len(),
        call_ensures(crate::decimal::decimal_string, ((i + 1) as u64,), number),
        whole@ == s.recent_files@[i]@,
        call_ensures(short_path, (whole,), path),
    ensures
        r@[5 + i].id == 1100 + i,
        r@[5 + i].label@ == seq!['&'] + number@ + seq![' '] + path@,
        r@[5 + i].kind is Item,
        s.recent_files@[i]@.len() <= 48 ==> path@ == s.recent_files@[i]@,
        s.recent_files@[i]@.len() > 48 ==> path@.len() == 48 && path@[0] == '…',
{
    let rv = rows_view(r@);
    let a = file_rows(s.recent_files@);
    assert(a.len() > 5 + i);
    assert(rv.len() == r@.len());
    assert(rv[5 + i] == a[5 + i]);
    assert(a[5 + i] == recent_row(s.recent_files@, i));
    assert(rv[5 + i] == row_view(r@[5 + i]));
}

/// A text for the system is its units with a zero behind them.
pub proof fn law_texts_end_with_a_zero(
    s: &str,
    r: Vec<u16>,
    q: Vec<u16>,
    units: Vec<u16>,
)
    requires
        call_ensures(wide, (s,), r),
        call_ensures(crate::native::app::str_wide, (s,), q),
        call_ensures(crate::utf16::encode_utf16, (s,), units),
    ensures
        r@.len() == units@.len() + 1,
        r@.last() == 0,
        r@.drop_last() == units@,
        q@ == r@,
{
    assert(r@.drop_last() =~= units@);
}

} // verus!
