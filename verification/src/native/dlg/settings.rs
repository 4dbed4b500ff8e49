//! The settings dialog: its parts, and what its parts mean for the settings.

use vstd::prelude::*;

use crate::decimal::{signed_decimal, signed_string};
use crate::encodings::{find, is_encoding, key, key_text, ENCODINGS};
use crate::numbers::{bounded_size, parse_size, Number, NumberView};
use crate::native::app::{StoredSearchFlags, ViewFlags};
use crate::native::geom::Rect;
use crate::native::widgets::{BtnKind, BtnState, Button};
use crate::palettes::{theme_name, theme_name_text, THEMES};
use crate::text::{is_first_at, is_listed, position, views};

verus! {

broadcast use vstd::string::group_string_axioms;

pub const WIDTH: i32 = 520;

pub const HEIGHT: i32 = 400;

/// Pixel row at which the parts of a tab begin.
pub const TOP: i32 = 70;

/// Pixel row of the strip of tabs.
pub const TAB_Y: i32 = 38;

/// Height of the strip of tabs.
pub const TAB_H: i32 = 26;

pub const TABS: i32 = 4;

pub const ID_FONT_COMBO: u16 = 2101;

pub const ID_FONT_SIZE: u16 = 2102;

pub const ID_ROW_H: u16 = 2103;

pub const ID_CB_LINENUM: u16 = 2201;

pub const ID_CB_WRAP: u16 = 2202;

pub const ID_CB_WS: u16 = 2203;

pub const ID_CB_INDENT: u16 = 2204;

pub const ID_CB_COLOR: u16 = 2205;

pub const ID_CB_CASE: u16 = 2301;

pub const ID_CB_REGEX: u16 = 2302;

pub const ID_CB_WORD: u16 = 2303;

pub const ID_ENC_COMBO: u16 = 2401;

pub const ID_SMALL_COMBO: u16 = 2402;

pub const ID_CACHE_COMBO: u16 = 2403;

pub const ID_CB_INDEXCACHE: u16 = 2404;

pub const ID_SCANW_COMBO: u16 = 2405;

/// Number of the first button that chooses a theme.
pub const ID_THEME_BASE: u16 = 2600;

/// Smallest and largest font size and row height.
pub const FONT_MIN: u32 = 8;

pub const FONT_MAX: u32 = 36;

pub const ROW_MIN: u32 = 14;

pub const ROW_MAX: u32 = 36;

/// Binary digits that a font size is kept with.
pub const FONT_BITS: u32 = 24;

/// Binary digits that a row height is kept with.
pub const ROW_BITS: u32 = 53;

// ---------------------------------------------------------------------------
// Choices
// ---------------------------------------------------------------------------

/// Place that a list reports, the first where it reports none.
pub open spec fn at_least_first(sel: i32) -> int {
    if sel >= 0 {
        sel as int
    } else {
        0
    }
}

/// Size below which a file is small, for a place in its list.
pub open spec fn small_of(sel: int) -> u64 {
    if sel == 0 {
        0x10_0000
    } else if sel == 1 {
        0x50_0000
    } else if sel == 2 {
        0xA0_0000
    } else if sel == 3 {
        0x320_0000
    } else if sel == 4 {
        0x640_0000
    } else {
        0xA0_0000
    }
}

/// Lines that are kept, for a place in their list.
pub open spec fn cache_of(sel: int) -> usize {
    if sel == 0 {
        5000
    } else if sel == 1 {
        10000
    } else if sel == 2 {
        20000
    } else if sel == 3 {
        50000
    } else {
        10000
    }
}

/// Megabytes that are scanned at a time, for a place in their list.
pub open spec fn scan_of(sel: int) -> u32 {
    if sel == 0 {
        16
    } else if sel == 1 {
        32
    } else if sel == 2 {
        64
    } else if sel == 3 {
        128
    } else if sel == 4 {
        256
    } else {
        64
    }
}

/// Place of a size in its list, that of 10 MB for a size that is not in it.
pub open spec fn small_place(value: u64) -> int {
    if value == 0x10_0000 {
        0
    } else if value == 0x50_0000 {
        1
    } else if value == 0x320_0000 {
        3
    } else if value == 0x640_0000 {
        4
    } else {
        2
    }
}

/// Place of a number of lines in its list, that of 10000 for another number.
pub open spec fn cache_place(value: usize) -> int {
    if value == 5000 {
        0
    } else if value == 20000 {
        2
    } else if value == 50000 {
        3
    } else {
        1
    }
}

/// Place of a number of megabytes in its list, the last for another number.
pub open spec fn scan_place(value: u32) -> int {
    if value == 16 {
        0
    } else if value == 32 {
        1
    } else if value == 64 {
        2
    } else if value == 128 {
        3
    } else {
        4
    }
}

pub fn small_value(sel: i32) -> (r: u64)
    ensures
        r == small_of(at_least_first(sel)),
{
    match sel {
        1 => 0x50_0000,
        2 => 0xA0_0000,
        3 => 0x320_0000,
        4 => 0x640_0000,
        _ => if sel <= 0 {
            0x10_0000
        } else {
            0xA0_0000
        },
    }
}

pub fn cache_value(sel: i32) -> (r: usize)
    ensures
        r == cache_of(at_least_first(sel)),
{
    match sel {
        1 => 10000,
        2 => 20000,
        3 => 50000,
        _ => if sel <= 0 {
            5000
        } else {
            10000
        },
    }
}

pub fn scan_value(sel: i32) -> (r: u32)
    ensures
        r == scan_of(at_least_first(sel)),
{
    match sel {
        1 => 32,
        2 => 64,
        3 => 128,
        4 => 256,
        _ => if sel <= 0 {
            16
        } else {
            64
        },
    }
}

pub fn small_index(value: u64) -> (r: i32)
    ensures
        r == small_place(value),
{
    match value {
        0x10_0000 => 0,
        0x50_0000 => 1,
        0x320_0000 => 3,
        0x640_0000 => 4,
        _ => 2,
    }
}

pub fn cache_index(value: usize) -> (r: i32)
    ensures
        r == cache_place(value),
{
    match value {
        5000 => 0,
        20000 => 2,
        50000 => 3,
        _ => 1,
    }
}

pub fn scan_index(value: u32) -> (r: i32)
    ensures
        r == scan_place(value),
{
    match value {
        16 => 0,
        32 => 1,
        64 => 2,
        128 => 3,
        _ => 4,
    }
}

// ---------------------------------------------------------------------------
// Settings
// ---------------------------------------------------------------------------

/// How files are read.
pub struct EngineOptions {
    pub encoding: String,
    pub small_file_threshold: u64,
    pub line_cache_capacity: usize,
    pub scan_window_mb: u32,
    pub index_cache_enabled: bool,
}

/// What the settings dialog changes.
pub struct Options {
    pub font_family: String,
    /// In pixels.
    pub font_size: Number,
    /// In pixels.
    pub row_height: Number,
    pub view: ViewFlags,
    pub search: StoredSearchFlags,
    pub engine: EngineOptions,
}

/// What the parts of the dialog hold when it is agreed to.
pub struct SettingsForm {
    pub font_sel: i32,
    pub font_size: String,
    pub row_height: String,
    pub view: ViewFlags,
    pub search: StoredSearchFlags,
    pub enc_sel: i32,
    pub small_sel: i32,
    pub cache_sel: i32,
    pub scan_sel: i32,
    pub index_cache: bool,
}

/// A size after an edit: the number in a field, the old size where the field
/// holds no number.
pub open spec fn edited_size(
    field: Seq<char>,
    lo: u32,
    hi: u32,
    precision: u32,
    old_size: NumberView,
) -> NumberView {
    match bounded_size(field, lo as nat, hi as nat, precision as int) {
        Some(n) => n,
        None => old_size,
    }
}

fn edit_size(field: &str, lo: u32, hi: u32, precision: u32, size: &mut Number)
    requires
        lo <= hi <= 2 * precision <= 1000,
    ensures
        final(size)@ == edited_size(field@, lo, hi, precision, old(size)@),
{
    match parse_size(field, lo, hi, precision) {
        Some(n) => {
            *size = n;
        },
        None => {},
    }
}

/// A size in whole pixels, at least `lo`.
pub open spec fn drawn_size(size: Number, lo: u32) -> int {
    if size.rounded() >= lo {
        size.rounded()
    } else {
        lo as int
    }
}

/// Takes the dialog into the settings. Returns the font size and the row height
/// that are drawn with.
pub fn apply_settings(options: &mut Options, form: &SettingsForm, fonts: &Vec<String>) -> (r: (
    i32,
    i32,
))
    ensures
        final(options).font_family@ == if at_least_first(form.font_sel) < fonts@.len() {
            fonts@[at_least_first(form.font_sel)]@
        } else {
            old(options).font_family@
        },
        final(options).font_size@ == edited_size(
            form.font_size@,
            FONT_MIN,
            FONT_MAX,
            FONT_BITS,
            old(options).font_size@,
        ),
        final(options).row_height@ == edited_size(
            form.row_height@,
            ROW_MIN,
            ROW_MAX,
            ROW_BITS,
            old(options).row_height@,
        ),
        final(options).view == form.view,
        final(options).search == form.search,
        final(options).engine.encoding@ == if at_least_first(form.enc_sel) < ENCODINGS {
            key_text(at_least_first(form.enc_sel))
        } else {
            old(options).engine.encoding@
        },
        final(options).engine.small_file_threshold == small_of(at_least_first(form.small_sel)),
        final(options).engine.line_cache_capacity == cache_of(at_least_first(form.cache_sel)),
        final(options).engine.scan_window_mb == scan_of(at_least_first(form.scan_sel)),
        final(options).engine.index_cache_enabled == form.index_cache,
        r.0 == drawn_size(final(options).font_size, FONT_MIN),
        r.1 == drawn_size(final(options).row_height, ROW_MIN),
{
    let fi: usize = if form.font_sel >= 0 {
        form.font_sel as usize
    } else {
        0
    };
    if fi < fonts.len() {
        options.font_family = fonts[fi].as_str().to_owned();
    }
    edit_size(form.font_size.as_str(), FONT_MIN, FONT_MAX, FONT_BITS, &mut options.font_size);
    edit_size(form.row_height.as_str(), ROW_MIN, ROW_MAX, ROW_BITS, &mut options.row_height);
    options.view = form.view;
    options.search = form.search;
    let ei: usize = if form.enc_sel >= 0 {
        form.enc_sel as usize
    } else {
        0
    };
    if ei < ENCODINGS {
        options.engine.encoding = key(ei).to_owned();
    }
    options.engine.small_file_threshold = small_value(form.small_sel);
    options.engine.line_cache_capacity = cache_value(form.cache_sel);
    options.engine.scan_window_mb = scan_value(form.scan_sel);
    options.engine.index_cache_enabled = form.index_cache;
    let size: i32 = options.font_size.to_whole();
    let px: i32 = if size >= FONT_MIN as i32 {
        size
    } else {
        FONT_MIN as i32
    };
    let height: i32 = options.row_height.to_whole();
    let row_h: i32 = if height >= ROW_MIN as i32 {
        height
    } else {
        ROW_MIN as i32
    };
    (px, row_h)
}

/// Place of the font in use in a list, the first where it is not in it.
pub fn font_index(fonts: &Vec<String>, current: &str) -> (r: usize)
    ensures
        is_listed(fonts@, current@) ==> is_first_at(fonts@, current@, r as int),
        !is_listed(fonts@, current@) ==> r == 0,
{
    match position(fonts, current) {
        Some(i) => i,
        None => 0,
    }
}

/// Place of the encoding in use in the list, the first where it is not in it.
pub fn encoding_index(current: &str) -> (r: usize)
    ensures
        (exists|i: int| 0 <= i < ENCODINGS && #[trigger] key_text(i) == current@) ==> is_encoding(
            current@,
            r as int,
        ),
        (forall|i: int| 0 <= i < ENCODINGS ==> #[trigger] key_text(i) != current@) ==> r == 0,
{
    match find(current) {
        Some(i) => {
            assert(key_text(i as int) == current@);
            i
        },
        None => 0,
    }
}

// ---------------------------------------------------------------------------
// Tabs and buttons
// ---------------------------------------------------------------------------

/// Tab at a pixel column, of four that share the width of the dialog.
pub open spec fn tab_of(x: int, width: int) -> int {
    if x < 8 {
        0
    } else {
        let i = (x - 8) / (width / 4);
        if i > 3 {
            3
        } else {
            i
        }
    }
}

/// Tab that a press chooses, if it hits the strip of tabs.
pub fn tab_at(x: i32, y: i32, width: i32) -> (r: Option<i32>)
    requires
        4 <= width,
    ensures
        r == if TAB_Y <= y < TAB_Y + TAB_H {
            Some(tab_of(x as int, width as int) as i32)
        } else {
            None
        },
{
    if y < TAB_Y || y >= TAB_Y + TAB_H {
        return None;
    }
    if x < 8 {
        return Some(0);
    }
    let tw: i32 = width / 4;
    let i: i32 = (x - 8) / tw;
    if i > 3 {
        Some(3)
    } else {
        assert(i >= 0) by (nonlinear_arith)
            requires
                i == ((x - 8) as int) / (tw as int),
                x >= 8,
                tw > 0,
        ;
        Some(i)
    }
}

/// Place of a tab.
pub fn tab_rect(i: i32, width: i32) -> (r: Rect)
    requires
        0 <= i < TABS,
        0 <= width,
    ensures
        r == (Rect {
            left: (i * (width as int / 4) + 8) as i32,
            top: TAB_Y,
            right: ((i + 1) * (width as int / 4) - 8) as i32,
            bottom: (TAB_Y + TAB_H) as i32,
        }),
{
    let tw: i32 = width / 4;
    assert(0 <= i * tw <= 3 * tw && 0 <= (i + 1) * tw <= 4 * tw) by (nonlinear_arith)
        requires
            0 <= i < 4,
            tw >= 0,
    ;
    Rect { left: i * tw + 8, top: TAB_Y, right: (i + 1) * tw - 8, bottom: TAB_Y + TAB_H }
}

/// Name of a tab.
pub fn tab_label(i: i32) -> (r: &'static str)
    ensures
        r@ == if i == 0 {
            "显示"@
        } else if i == 1 {
            "搜索"@
        } else if i == 2 {
            "主题"@
        } else {
            "引擎"@
        },
{
    match i {
        0 => "显示",
        1 => "搜索",
        2 => "主题",
        _ => "引擎",
    }
}

/// The buttons of the dialog.
pub fn settings_buttons() -> (r: Vec<Button>)
    ensures
        r@.len() == 2,
        r@[0].rect == (Rect { left: 370, top: 356, right: 440, bottom: 386 }),
        r@[0].kind == BtnKind::Primary && r@[0].label@ == "应用"@,
        r@[1].rect == (Rect { left: 448, top: 356, right: 504, bottom: 386 }),
        r@[1].kind == BtnKind::Neutral && r@[1].label@ == "取消"@,
        r@[0].state == BtnState::Normal && r@[1].state == BtnState::Normal,
{
    let y: i32 = HEIGHT - 44;
    let mut v: Vec<Button> = Vec::new();
    v.push(
        Button::new(
            Rect { left: WIDTH - 150, top: y, right: WIDTH - 80, bottom: y + 30 },
            BtnKind::Primary,
            "应用",
        ),
    );
    v.push(
        Button::new(
            Rect { left: WIDTH - 72, top: y, right: WIDTH - 16, bottom: y + 30 },
            BtnKind::Neutral,
            "取消",
        ),
    );
    v
}

/// Theme that a button of the dialog chooses.
pub fn theme_of_radio(id: u16) -> (r: Option<usize>)
    ensures
        r == if ID_THEME_BASE <= id < ID_THEME_BASE + THEMES {
            Some((id - ID_THEME_BASE) as usize)
        } else {
            None
        },
{
    if id >= ID_THEME_BASE && id < ID_THEME_BASE + THEMES as u16 {
        Some((id - ID_THEME_BASE) as usize)
    } else {
        None
    }
}

// ---------------------------------------------------------------------------
// Parts
// ---------------------------------------------------------------------------

/// What a part of the dialog is.
#[derive(Clone, Copy, PartialEq, Eq, Structural, Debug)]
pub enum ControlKind {
    Label,
    /// A list to choose from.
    Combo,
    /// A field for a number.
    Edit,
    Check,
    Radio,
}

/// A part of the dialog.
pub struct Control {
    pub tab: u8,
    pub kind: ControlKind,
    pub rect: (i32, i32, i32, i32),
    pub id: u16,
    pub text: String,
    /// A box or button is set.
    pub on: bool,
    /// Entries of a list, and the one that is chosen.
    pub entries: Vec<String>,
    pub selected: i32,
}

/// A part of the dialog as contracts speak of it.
pub struct ControlView {
    pub tab: u8,
    pub kind: ControlKind,
    pub rect: (i32, i32, i32, i32),
    pub id: u16,
    pub text: Seq<char>,
    pub on: bool,
    pub entries: Seq<Seq<char>>,
    pub selected: i32,
}

pub open spec fn control_view(c: Control) -> ControlView {
    ControlView {
        tab: c.tab,
        kind: c.kind,
        rect: c.rect,
        id: c.id,
        text: c.text@,
        on: c.on,
        entries: views(c.entries@),
        selected: c.selected,
    }
}

pub open spec fn controls_view(list: Seq<Control>) -> Seq<ControlView> {
    list.map(|i: int, c: Control| control_view(c))
}

pub open spec fn label(tab: u8, text: &str, x: int, y: int, w: int) -> ControlView {
    ControlView {
        tab,
        kind: ControlKind::Label,
        rect: (x as i32, y as i32, w as i32, 20),
        id: 0,
        text: text@,
        on: false,
        entries: Seq::empty(),
        selected: 0,
    }
}

pub open spec fn check(tab: u8, id: u16, text: &str, x: int, y: int, w: int, on: bool) -> ControlView {
    ControlView {
        tab,
        kind: ControlKind::Check,
        rect: (x as i32, y as i32, w as i32, 20),
        id,
        text: text@,
        on,
        entries: Seq::empty(),
        selected: 0,
    }
}

pub open spec fn radio(i: int, on: bool) -> ControlView {
    ControlView {
        tab: 2,
        kind: ControlKind::Radio,
        rect: (24, (TOP + 8 + i * 26) as i32, 220, 20),
        id: (ID_THEME_BASE + i) as u16,
        text: theme_name_text(i),
        on,
        entries: Seq::empty(),
        selected: 0,
    }
}

pub open spec fn edit(id: u16, text: Seq<char>, x: int, y: int) -> ControlView {
    ControlView {
        tab: 0,
        kind: ControlKind::Edit,
        rect: (x as i32, y as i32, 50, 22),
        id,
        text,
        on: false,
        entries: Seq::empty(),
        selected: 0,
    }
}

pub open spec fn combo(
    tab: u8,
    id: u16,
    rect: (i32, i32, i32, i32),
    entries: Seq<Seq<char>>,
    selected: int,
) -> ControlView {
    ControlView {
        tab,
        kind: ControlKind::Combo,
        rect,
        id,
        text: Seq::empty(),
        on: false,
        entries,
        selected: selected as i32,
    }
}

pub open spec fn encoding_entries() -> Seq<Seq<char>> {
    Seq::new(ENCODINGS as nat, |i: int| key_text(i))
}

pub open spec fn small_entries() -> Seq<Seq<char>> {
    seq!["1 MB"@, "5 MB"@, "10 MB"@, "50 MB"@, "100 MB"@]
}

pub open spec fn cache_entries() -> Seq<Seq<char>> {
    seq!["5000"@, "10000"@, "20000"@, "50000"@]
}

pub open spec fn scan_entries() -> Seq<Seq<char>> {
    seq!["16 MB"@, "32 MB"@, "64 MB"@, "128 MB"@, "256 MB"@]
}

/// Parts of the tab on the display; `font_sel` is the place of the font in use.
pub open spec fn display_tab(o: Options, fonts: Seq<Seq<char>>, font_sel: int) -> Seq<ControlView> {
    seq![
        label(0, "字体：", 24, TOP + 2, 50),
        combo(0, ID_FONT_COMBO, (78, TOP, 180, 200), fonts, font_sel),
        label(0, "字号：", 280, TOP + 2, 50),
        edit(ID_FONT_SIZE, signed_decimal(o.font_size.rounded()), 330, TOP as int),
        label(0, "行高：", 24, TOP + 32, 50),
        edit(ID_ROW_H, signed_decimal(o.row_height.rounded()), 78, TOP + 30),
        check(0, ID_CB_LINENUM, "显示行号", 24, TOP + 66, 140, o.view.show_line_numbers),
        check(0, ID_CB_WRAP, "自动换行", 24, TOP + 90, 140, o.view.word_wrap),
        check(0, ID_CB_WS, "显示空白字符", 24, TOP + 114, 140, o.view.show_whitespace),
        check(0, ID_CB_INDENT, "缩进参考线", 24, TOP + 138, 140, o.view.show_indent_guides),
        check(0, ID_CB_COLOR, "日志级别着色", 178, TOP + 66, 140, o.view.level_coloring),
    ]
}

/// Parts of the tab on searching.
pub open spec fn search_tab(s: StoredSearchFlags) -> Seq<ControlView> {
    seq![
        check(1, ID_CB_CASE, "大小写敏感", 24, TOP + 8, 160, s.case_sensitive),
        check(1, ID_CB_REGEX, "正则表达式", 24, TOP + 34, 160, s.use_regex),
        check(1, ID_CB_WORD, "整词匹配", 24, TOP + 60, 160, s.whole_word),
        label(1, "搜索历史（最多 20 条，自动保存）", 24, TOP + 92, 300),
    ]
}

/// Parts of the tab on themes.
pub open spec fn theme_tab(theme_idx: usize) -> Seq<ControlView> {
    Seq::new(THEMES as nat, |i: int| radio(i, i == theme_idx)).push(
        label(2, "主题即时生效并自动保存", 24, TOP + 8 + 6 * 26 + 8, 220),
    )
}

/// Parts of the tab on reading; `enc_sel` is the place of the encoding in use.
pub open spec fn engine_tab(e: EngineOptions, enc_sel: int) -> Seq<ControlView> {
    seq![
        label(3, "文本编码：", 24, TOP + 4, 90),
        combo(3, ID_ENC_COMBO, (118, TOP, 200, 300), encoding_entries(), enc_sel),
        label(3, "小文件阈值：", 24, TOP + 32, 90),
        combo(
            3,
            ID_SMALL_COMBO,
            (118, (TOP + 30) as i32, 200, 300),
            small_entries(),
            small_place(e.small_file_threshold),
        ),
        label(3, "行缓存条目：", 24, TOP + 60, 90),
        combo(
            3,
            ID_CACHE_COMBO,
            (118, (TOP + 58) as i32, 200, 300),
            cache_entries(),
            cache_place(e.line_cache_capacity),
        ),
        label(3, "扫描窗口：", 24, TOP + 88, 90),
        combo(
            3,
            ID_SCANW_COMBO,
            (118, (TOP + 86) as i32, 200, 300),
            scan_entries(),
            scan_place(e.scan_window_mb),
        ),
        check(3, ID_CB_INDEXCACHE, "索引缓存（.qli）", 24, TOP + 116, 160, e.index_cache_enabled),
        label(3, "引擎参数在下次打开文件时生效", 24, TOP + 144, 260),
    ]
}

fn push(list: &mut Vec<Control>, c: Control)
    ensures
        controls_view(final(list)@) == controls_view(old(list)@).push(control_view(c)),
{
    let ghost before = list@;
    list.push(c);
    assert(controls_view(list@) =~= controls_view(before).push(control_view(c)));
}

fn push_label(list: &mut Vec<Control>, tab: u8, text: &str, x: i32, y: i32, w: i32)
    ensures
        controls_view(final(list)@) == controls_view(old(list)@).push(
            label(tab, text, x as int, y as int, w as int),
        ),
{
    let c = Control {
        tab,
        kind: ControlKind::Label,
        rect: (x, y, w, 20),
        id: 0,
        text: text.to_owned(),
        on: false,
        entries: Vec::new(),
        selected: 0,
    };
    assert(views(c.entries@) =~= Seq::empty());
    push(list, c);
}

fn push_check(
    list: &mut Vec<Control>,
    tab: u8,
    id: u16,
    text: &str,
    x: i32,
    y: i32,
    w: i32,
    on: bool,
)
    ensures
        controls_view(final(list)@) == controls_view(old(list)@).push(
            check(tab, id, text, x as int, y as int, w as int, on),
        ),
{
    let c = Control {
        tab,
        kind: ControlKind::Check,
        rect: (x, y, w, 20),
        id,
        text: text.to_owned(),
        on,
        entries: Vec::new(),
        selected: 0,
    };
    assert(views(c.entries@) =~= Seq::empty());
    push(list, c);
}

fn push_edit(list: &mut Vec<Control>, id: u16, text: String, x: i32, y: i32)
    ensures
        controls_view(final(list)@) == controls_view(old(list)@).push(
            edit(id, text@, x as int, y as int),
        ),
{
    let c = Control {
        tab: 0,
        kind: ControlKind::Edit,
        rect: (x, y, 50, 22),
        id,
        text,
        on: false,
        entries: Vec::new(),
        selected: 0,
    };
    assert(views(c.entries@) =~= Seq::empty());
    push(list, c);
}

fn push_combo(
    list: &mut Vec<Control>,
    tab: u8,
    id: u16,
    rect: (i32, i32, i32, i32),
    entries: Vec<String>,
    selected: i32,
)
    ensures
        controls_view(final(list)@) == controls_view(old(list)@).push(
            combo(tab, id, rect, views(entries@), selected as int),
        ),
{
    let c = Control {
        tab,
        kind: ControlKind::Combo,
        rect,
        id,
        text: String::new(),
        on: false,
        entries,
        selected,
    };
    assert(c.text@ =~= Seq::empty());
    push(list, c);
}

fn copy_names(names: &Vec<String>) -> (r: Vec<String>)
    ensures
        views(r@) == views(names@),
{
    let mut out: Vec<String> = Vec::new();
    let mut i: usize = 0;
    while i < names.len()
        invariant
            i <= names@.len(),
            views(out@) == views(names@).take(i as int),
        decreases names@.len() - i,
    {
        let ghost before = out@;
        let s: String = names[i].as_str().to_owned();
        let ghost text = s@;
        out.push(s);
        assert(views(out@) =~= views(before).push(text));
        i = i + 1;
        assert(views(out@) =~= views(names@).take(i as int));
    }
    assert(views(names@).take(names@.len() as int) =~= views(names@));
    out
}

fn encoding_names() -> (r: Vec<String>)
    ensures
        views(r@) == encoding_entries(),
{
    let mut out: Vec<String> = Vec::new();
    let mut i: usize = 0;
    while i < ENCODINGS
        invariant
            i <= ENCODINGS,
            views(out@) == encoding_entries().take(i as int),
        decreases ENCODINGS - i,
    {
        let ghost before = out@;
        let s: String = key(i).to_owned();
        let ghost text = s@;
        out.push(s);
        assert(views(out@) =~= views(before).push(text));
        i = i + 1;
        assert(views(out@) =~= encoding_entries().take(i as int));
    }
    assert(encoding_entries().take(ENCODINGS as int) =~= encoding_entries());
    out
}

fn five(a: &str, b: &str, c: &str, d: &str, e: &str) -> (r: Vec<String>)
    ensures
        views(r@) == seq![a@, b@, c@, d@, e@],
{
    let mut v: Vec<String> = four(a, b, c, d);
    v.push(e.to_owned());
    assert(views(v@) =~= seq![a@, b@, c@, d@, e@]);
    v
}

fn four(a: &str, b: &str, c: &str, d: &str) -> (r: Vec<String>)
    ensures
        views(r@) == seq![a@, b@, c@, d@],
        r@.len() == 4,
        r@[0]@ == a@ && r@[1]@ == b@ && r@[2]@ == c@ && r@[3]@ == d@,
{
    let mut v: Vec<String> = Vec::new();
    v.push(a.to_owned());
    v.push(b.to_owned());
    v.push(c.to_owned());
    v.push(d.to_owned());
    assert(views(v@) =~= seq![a@, b@, c@, d@]);
    v
}

fn push_display(list: &mut Vec<Control>, o: &Options, fonts: &Vec<String>, font_sel: usize)
    requires
        font_sel <= i32::MAX,
    ensures
        controls_view(final(list)@) == controls_view(old(list)@) + display_tab(
            *o,
            views(fonts@),
            font_sel as int,
        ),
{
    let ghost before = controls_view(list@);
    push_label(list, 0, "字体：", 24, TOP + 2, 50);
    push_combo(
        list,
        0,
        ID_FONT_COMBO,
        (78, TOP, 180, 200),
        copy_names(fonts),
        font_sel as i32,
    );
    push_label(list, 0, "字号：", 280, TOP + 2, 50);
    push_edit(list, ID_FONT_SIZE, signed_string(o.font_size.to_whole()), 330, TOP);
    push_label(list, 0, "行高：", 24, TOP + 32, 50);
    push_edit(list, ID_ROW_H, signed_string(o.row_height.to_whole()), 78, TOP + 30);
    push_check(list, 0, ID_CB_LINENUM, "显示行号", 24, TOP + 66, 140, o.view.show_line_numbers);
    push_check(list, 0, ID_CB_WRAP, "自动换行", 24, TOP + 90, 140, o.view.word_wrap);
    push_check(list, 0, ID_CB_WS, "显示空白字符", 24, TOP + 114, 140, o.view.show_whitespace);
    push_check(list, 0, ID_CB_INDENT, "缩进参考线", 24, TOP + 138, 140, o.view.show_indent_guides);
    push_check(list, 0, ID_CB_COLOR, "日志级别着色", 178, TOP + 66, 140, o.view.level_coloring);
    assert(controls_view(list@) =~= before + display_tab(*o, views(fonts@), font_sel as int));
}

fn push_search(list: &mut Vec<Control>, s: &StoredSearchFlags)
    ensures
        controls_view(final(list)@) == controls_view(old(list)@) + search_tab(*s),
{
    let ghost before = controls_view(list@);
    push_check(list, 1, ID_CB_CASE, "大小写敏感", 24, TOP + 8, 160, s.case_sensitive);
    push_check(list, 1, ID_CB_REGEX, "正则表达式", 24, TOP + 34, 160, s.use_regex);
    push_check(list, 1, ID_CB_WORD, "整词匹配", 24, TOP + 60, 160, s.whole_word);
    push_label(list, 1, "搜索历史（最多 20 条，自动保存）", 24, TOP + 92, 300);
    assert(controls_view(list@) =~= before + search_tab(*s));
}

fn push_themes(list: &mut Vec<Control>, theme_idx: usize)
    ensures
        controls_view(final(list)@) == controls_view(old(list)@) + theme_tab(theme_idx),
{
    let ghost before = controls_view(list@);
    let ghost tab = theme_tab(theme_idx);
    let mut i: usize = 0;
    assert(before + tab.take(0) =~= before);
    while i < THEMES
        invariant
            i <= THEMES,
            tab == theme_tab(theme_idx),
            controls_view(list@) == before + tab.take(i as int),
        decreases THEMES - i,
    {
        let c = Control {
            tab: 2,
            kind: ControlKind::Radio,
            rect: (24, TOP + 8 + i as i32 * 26, 220, 20),
            id: ID_THEME_BASE + i as u16,
            text: theme_name(i).to_owned(),
            on: i == theme_idx,
            entries: Vec::new(),
            selected: 0,
        };
        assert(views(c.entries@) =~= Seq::empty());
        assert(control_view(c) == tab[i as int]);
        push(list, c);
        i = i + 1;
        assert(controls_view(list@) =~= before + tab.take(i as int));
    }
    push_label(list, 2, "主题即时生效并自动保存", 24, TOP + 8 + 6 * 26 + 8, 220);
    assert(controls_view(list@) =~= before + tab);
}

fn push_engine(list: &mut Vec<Control>, e: &EngineOptions, enc_sel: usize)
    requires
        enc_sel <= i32::MAX,
    ensures
        controls_view(final(list)@) == controls_view(old(list)@) + engine_tab(*e, enc_sel as int),
{
    let ghost before = controls_view(list@);
    push_label(list, 3, "文本编码：", 24, TOP + 4, 90);
    push_combo(list, 3, ID_ENC_COMBO, (118, TOP, 200, 300), encoding_names(), enc_sel as i32);
    push_label(list, 3, "小文件阈值：", 24, TOP + 32, 90);
    push_combo(
        list,
        3,
        ID_SMALL_COMBO,
        (118, TOP + 30, 200, 300),
        five("1 MB", "5 MB", "10 MB", "50 MB", "100 MB"),
        small_index(e.small_file_threshold),
    );
    push_label(list, 3, "行缓存条目：", 24, TOP + 60, 90);
    push_combo(
        list,
        3,
        ID_CACHE_COMBO,
        (118, TOP + 58, 200, 300),
        four("5000", "10000", "20000", "50000"),
        cache_index(e.line_cache_capacity),
    );
    push_label(list, 3, "扫描窗口：", 24, TOP + 88, 90);
    push_combo(
        list,
        3,
        ID_SCANW_COMBO,
        (118, TOP + 86, 200, 300),
        five("16 MB", "32 MB", "64 MB", "128 MB", "256 MB"),
        scan_index(e.scan_window_mb),
    );
    push_check(
        list,
        3,
        ID_CB_INDEXCACHE,
        "索引缓存（.qli）",
        24,
        TOP + 116,
        160,
        e.index_cache_enabled,
    );
    push_label(list, 3, "引擎参数在下次打开文件时生效", 24, TOP + 144, 260);
    assert(controls_view(list@) =~= before + engine_tab(*e, enc_sel as int));
}

/// `sel` is the place of the font in use, the first where it is not offered.
pub open spec fn is_font_place(fonts: Seq<String>, current: Seq<char>, sel: int) -> bool {
    if is_listed(fonts, current) {
        is_first_at(fonts, current, sel)
    } else {
        sel == 0
    }
}

/// `sel` is the place of the encoding in use, the first where it is not offered.
pub open spec fn is_encoding_place(current: Seq<char>, sel: int) -> bool {
    is_encoding(current, sel) || (sel == 0 && (forall|i: int|
        0 <= i < ENCODINGS ==> #[trigger] key_text(i) != current))
}

/// The controls show the options.
pub open spec fn are_settings(
    o: Options,
    theme_idx: usize,
    fonts: Seq<String>,
    controls: Seq<ControlView>,
) -> bool {
    exists|f: int, e: int|
        #![trigger display_tab(o, views(fonts), f), engine_tab(o.engine, e)]
        is_font_place(fonts, o.font_family@, f) && is_encoding_place(o.engine.encoding@, e)
            && controls == display_tab(o, views(fonts), f) + search_tab(o.search) + theme_tab(
            theme_idx,
        ) + engine_tab(o.engine, e)
}

/// The parts of the settings dialog, which show the settings as they are.
pub fn show_settings(o: &Options, theme_idx: usize, fonts: &Vec<String>) -> (r: Vec<Control>)
    requires
        fonts@.len() <= i32::MAX,
    ensures
        are_settings(*o, theme_idx, fonts@, controls_view(r@)),
{
    let f: usize = font_index(fonts, o.font_family.as_str());
    let e: usize = encoding_index(o.engine.encoding.as_str());
    let mut list: Vec<Control> = Vec::new();
    assert(controls_view(list@) =~= Seq::empty());
    push_display(&mut list, o, fonts, f);
    push_search(&mut list, &o.search);
    push_themes(&mut list, theme_idx);
    push_engine(&mut list, &o.engine, e);
    proof {
        assert(controls_view(list@) =~= display_tab(*o, views(fonts@), f as int) + search_tab(
            o.search,
        ) + theme_tab(theme_idx) + engine_tab(o.engine, e as int));
        assert(is_encoding_place(o.engine.encoding@, e as int)) by {
            if exists|i: int|
                0 <= i < ENCODINGS && #[trigger] key_text(i) == o.engine.encoding@ {
            } else {
                assert(forall|i: int|
                    0 <= i < ENCODINGS ==> #[trigger] key_text(i) != o.engine.encoding@);
            }
        }
    }
    list
}

// ---------------------------------------------------------------------------
// Laws
// ---------------------------------------------------------------------------

/// A value that a list offers is still set when the dialog is agreed to without
/// a change.
pub proof fn law_offered_values_come_back(small: u64, cache: usize, scan: u32, k: int)
    ensures
        small == small_of(k) && 0 <= k < 5 ==> small_of(small_place(small)) == small,
        cache == cache_of(k) && 0 <= k < 4 ==> cache_of(cache_place(cache)) == cache,
        scan == scan_of(k) && 0 <= k < 5 ==> scan_of(scan_place(scan)) == scan,
{
}

/// Each button that chooses a theme chooses the theme that it names.
pub proof fn law_radio_chooses_its_theme(theme_idx: usize, i: int)
    requires
        0 <= i < THEMES,
    ensures
        theme_tab(theme_idx)[i].id == ID_THEME_BASE + i,
        theme_tab(theme_idx)[i].text == theme_name_text(i),
        theme_tab(theme_idx)[i].on == (i == theme_idx),
{
}

/// Every pixel of a tab chooses that tab.
pub proof fn law_tab_pixels(x: int, i: int, width: int)
    requires
        0 <= i < 4,
        32 <= width,
        i * (width / 4) + 8 <= x < (i + 1) * (width / 4) + 8,
    ensures
        tab_of(x, width) == i,
{
    let w = width / 4;
    assert((x - 8) / w == i) by (nonlinear_arith)
        requires
            i * w <= x - 8 < (i + 1) * w,
            w > 0,
    ;
    assert(i * w >= 0) by (nonlinear_arith)
        requires
            i >= 0,
            w > 0,
    ;
}

/// The values that are offered are those that the entries name, and each is found again.
pub proof fn law_entries_stand_for_their_values(
    i: i32,
    small: u64,
    cache: usize,
    scan: u32,
    s: i32,
    c: i32,
    w: i32,
)
    requires
        call_ensures(small_value, (i,), small),
        call_ensures(cache_value, (i,), cache),
        call_ensures(scan_value, (i,), scan),
        call_ensures(small_index, (small,), s),
        call_ensures(cache_index, (cache,), c),
        call_ensures(scan_index, (scan,), w),
    ensures
        i == 0 ==> small == 1024 * 1024 && cache == 5000 && scan == 16,
        i == 1 ==> small == 5 * 1024 * 1024 && cache == 10000 && scan == 32,
        i == 2 ==> small == 10 * 1024 * 1024 && cache == 20000 && scan == 64,
        i == 3 ==> small == 50 * 1024 * 1024 && cache == 50000 && scan == 128,
        i == 4 ==> small == 100 * 1024 * 1024 && scan == 256,
        0 <= i < 5 ==> s == i && w == i,
        0 <= i < 4 ==> c == i,
        i < 0 ==> s == 0 && c == 0 && w == 0,
{
}

/// What is entered is applied: sizes between their bounds, the font and the encoding that
/// are chosen, and the switches as they stand; a size that cannot be read stays.
pub proof fn law_what_is_entered_is_applied(
    o: &mut Options,
    form: &SettingsForm,
    fonts: &Vec<String>,
    r: (i32, i32),
    font_text: &str,
    size: Option<Number>,
    enc: &'static str,
    small: u64,
    cache: usize,
    scan: u32,
)
    requires
        call_ensures(apply_settings, (o, form, fonts), r),
        font_text@ == form.font_size@,
        call_ensures(parse_size, (font_text, 8, 36, 24), size),
        0 <= form.enc_sel < 11,
        call_ensures(key, (form.enc_sel as usize,), enc),
        call_ensures(small_value, (form.small_sel,), small),
        call_ensures(cache_value, (form.cache_sel,), cache),
        call_ensures(scan_value, (form.scan_sel,), scan),
    ensures
        size is Some ==> final(o).font_size@ == size->0@,
        size is None ==> final(o).font_size@ == old(o).font_size@,
        0 <= form.font_sel < fonts@.len() ==> final(o).font_family@ == fonts@[
            form.font_sel as int
        ]@,
        fonts@.len() == 0 ==> final(o).font_family@ == old(o).font_family@,
        final(o).view == form.view && final(o).search == form.search,
        final(o).engine.encoding@ == enc@,
        final(o).engine.small_file_threshold == small,
        final(o).engine.line_cache_capacity == cache,
        final(o).engine.scan_window_mb == scan,
        final(o).engine.index_cache_enabled == form.index_cache,
        r.0 >= 8 && r.1 >= 14,
        !final(o).font_size.is_nan && final(o).font_size.whole >= 8 ==> r.0
            == final(o).font_size.whole,
{
}

/// The place of the current font and of the current encoding is the first one that has its
/// name, and the first of all where none has.
pub proof fn law_current_choices_are_found(
    fonts: &Vec<String>,
    font: &str,
    f: usize,
    k: int,
    i: usize,
    enc: &'static str,
    e: usize,
)
    requires
        call_ensures(font_index, (fonts, font), f),
        i < 11,
        call_ensures(key, (i,), enc),
        call_ensures(encoding_index, (enc,), e),
        0 <= k < fonts@.len(),
    ensures
        fonts@[k]@ == font@ ==> f <= k && fonts@[f as int]@ == font@,
        (forall|j: int| 0 <= j < fonts@.len() ==> (#[trigger] fonts@[j])@ != font@) ==> f == 0,
        e == i,
{
    assert(key_text(i as int) == enc@);
    assert(is_encoding(enc@, e as int));
    crate::encodings::lemma_keys_differ(i as int, e as int);
}

/// A point on a tab chooses that tab.
pub proof fn law_tabs_are_chosen(i: i32, width: i32, rect: Rect, x: i32, y: i32, r: Option<i32>)
    requires
        0 <= i < 4,
        64 <= width <= 10000,
        call_ensures(tab_rect, (i, width), rect),
        call_ensures(tab_at, (x, y, width), r),
        rect.left <= x < rect.right,
    ensures
        38 <= y < 64 ==> r == Some(i),
        y < 38 || y >= 64 ==> r is None,
        rect.top == 38 && rect.bottom == 64,
{
    let w = width as int / 4;
    assert(0 <= i * w && (i + 1) * w == i * w + w && (i + 1) * w <= 4 * w) by (nonlinear_arith)
        requires
            0 <= i < 4,
            w > 0,
    ;
    law_tab_pixels(x as int, i as int, width as int);
}

/// The buttons for themes choose them by their numbers, and every tab has its name.
pub proof fn law_radios_choose_their_theme(id: u16, r: Option<usize>, i: i32, text: &'static str)
    requires
        call_ensures(theme_of_radio, (id,), r),
        call_ensures(tab_label, (i,), text),
    ensures
        2600 <= id < 2606 ==> r == Some((id - 2600) as usize),
        id < 2600 || id >= 2606 ==> r is None,
        i == 0 ==> text@ == "显示"@,
        i == 1 ==> text@ == "搜索"@,
        i == 2 ==> text@ == "主题"@,
        i == 3 ==> text@ == "引擎"@,
{
}

/// The switches are shown as they stand, and the sizes as whole numbers.
pub proof fn law_options_are_shown(
    o: &Options,
    theme_idx: usize,
    fonts: &Vec<String>,
    r: Vec<Control>,
    size: i32,
    text: String,
    t: int,
)
    requires
        call_ensures(show_settings, (o, theme_idx, fonts), r),
        call_ensures(Number::to_whole, (&o.font_size,), size),
        call_ensures(crate::decimal::signed_string, (size,), text),
        0 <= t < 6,
    ensures
        r@.len() == 32,
        r@[3].text@ == text@ && r@[3].id == 2102,
        r@[6].id == 2201 && r@[6].on == o.view.show_line_numbers,
        r@[7].id == 2202 && r@[7].on == o.view.word_wrap,
        r@[8].id == 2203 && r@[8].on == o.view.show_whitespace,
        r@[9].id == 2204 && r@[9].on == o.view.show_indent_guides,
        r@[10].id == 2205 && r@[10].on == o.view.level_coloring,
        r@[11].id == 2301 && r@[11].on == o.search.case_sensitive,
        r@[12].id == 2302 && r@[12].on == o.search.use_regex,
        r@[13].id == 2303 && r@[13].on == o.search.whole_word,
        r@[15 + t].id == 2600 + t && r@[15 + t].on == (theme_idx == t),
        r@[30].id == 2404 && r@[30].on == o.engine.index_cache_enabled,
{
    let v = controls_view(r@);
    let (f, e) = choose|f: int, e: int|
        #![trigger display_tab(*o, views(fonts@), f), engine_tab(o.engine, e)]
        is_font_place(fonts@, o.font_family@, f) && is_encoding_place(o.engine.encoding@, e) && v
            == display_tab(*o, views(fonts@), f) + search_tab(o.search) + theme_tab(theme_idx)
            + engine_tab(o.engine, e);
    let a = display_tab(*o, views(fonts@), f);
    let b = search_tab(o.search);
    let c = theme_tab(theme_idx);
    let d = engine_tab(o.engine, e);
    assert(a.len() == 11 && b.len() == 4 && c.len() == 7 && d.len() == 10);
    assert(v.len() == r@.len());
    assert forall|i: int| 0 <= i < v.len() implies #[trigger] v[i] == control_view(r@[i]) by {}
    assert(v[3] == a[3] && v[6] == a[6] && v[7] == a[7] && v[8] == a[8] && v[9] == a[9] && v[10]
        == a[10]);
    assert(v[11] == b[0] && v[12] == b[1] && v[13] == b[2]);
    assert(v[15 + t] == c[t]);
    assert(v[30] == d[8]);
}

} // verus!
