//! Dialogs that show a text.

use vstd::prelude::*;

use crate::decimal::{decimal, human_text, push_decimal};
use crate::native::geom::Rect;
use crate::native::paint::{human_bytes, TOP_UNIT};
use crate::native::widgets::{BtnKind, BtnState, Button, TITLE_H};

verus! {

broadcast use vstd::string::group_string_axioms;

/// What the help says.
pub open spec fn help_body() -> Seq<char> {
    "## 快速上手\nCtrl+O — 打开文件\nCtrl+F — 聚焦搜索框，Enter 搜索\nF3 / Shift+F3 — 下一个 / 上一个匹配\nCtrl+L — 跳到指定行\nCtrl+R — 重新加载\nHome / End — 顶部 / 底部\nPgUp / PgDn — 上下翻页\nCtrl+滚轮 / Ctrl± — 缩放字体\nCtrl+Shift+T — 循环切换主题\n\n提示：直接把文件拖进窗口即可打开；大文件自动后台建索引，可随时取消。"@
}

/// What the list of shortcuts says.
pub open spec fn shortcuts_body() -> Seq<char> {
    "## 文件操作\nCtrl+O — 打开文件\nCtrl+R — 重新加载\nCtrl+W — 关闭文件\nCtrl+I — 文件属性\n\n## 搜索\nCtrl+F — 聚焦搜索\nEnter — 执行搜索\nF3 / Ctrl+G — 下一个\nShift+F3 / Ctrl+Shift+G — 上一个\nEsc — 清除搜索\n\n## 导航\nHome / End — 顶部 / 底部\nPgUp / PgDn — 翻页\n↑ / ↓ — 上一行 / 下一行\nCtrl+L — 跳行\n\n## 显示\nCtrl+Plus — 放大字体\nCtrl+Minus — 缩小字体\nCtrl+0 — 重置字体\nCtrl+Shift+T — 循环主题\n\n## 选择\nCtrl+C — 复制选中内容"@
}

/// What is said about the program, of the given version.
pub open spec fn about_body(version: Seq<char>) -> Seq<char> {
    "## qview\n基于 Rust + Win32/GDI 构建的高性能文本浏览器\n支持 GB 级超大文件的快速浏览与搜索\n内存映射 · 按需加载 · 极低占用（空载 ≈ 12 MiB）\n\n版本 "@
        + version + "\n\n作者：qinwh\n许可证：GPL-3.0\n\n© 2026 Qinwh"@
}

/// A dialog that shows a text.
pub struct TextDialog {
    pub title: String,
    pub body: String,
    pub w: i32,
    pub h: i32,
}

/// Help.
pub fn show_help() -> (r: TextDialog)
    ensures
        r.title@ == "使用说明"@,
        r.body@ == help_body(),
        r.w == 460 && r.h == 380,
{
    TextDialog {
        title: "使用说明".to_owned(),
        body: "## 快速上手\nCtrl+O — 打开文件\nCtrl+F — 聚焦搜索框，Enter 搜索\nF3 / Shift+F3 — 下一个 / 上一个匹配\nCtrl+L — 跳到指定行\nCtrl+R — 重新加载\nHome / End — 顶部 / 底部\nPgUp / PgDn — 上下翻页\nCtrl+滚轮 / Ctrl± — 缩放字体\nCtrl+Shift+T — 循环切换主题\n\n提示：直接把文件拖进窗口即可打开；大文件自动后台建索引，可随时取消。".to_owned(),
        w: 460,
        h: 380,
    }
}

/// List of shortcuts.
pub fn show_shortcuts() -> (r: TextDialog)
    ensures
        r.title@ == "快捷键"@,
        r.body@ == shortcuts_body(),
        r.w == 440 && r.h == 460,
{
    TextDialog {
        title: "快捷键".to_owned(),
        body: "## 文件操作\nCtrl+O — 打开文件\nCtrl+R — 重新加载\nCtrl+W — 关闭文件\nCtrl+I — 文件属性\n\n## 搜索\nCtrl+F — 聚焦搜索\nEnter — 执行搜索\nF3 / Ctrl+G — 下一个\nShift+F3 / Ctrl+Shift+G — 上一个\nEsc — 清除搜索\n\n## 导航\nHome / End — 顶部 / 底部\nPgUp / PgDn — 翻页\n↑ / ↓ — 上一行 / 下一行\nCtrl+L — 跳行\n\n## 显示\nCtrl+Plus — 放大字体\nCtrl+Minus — 缩小字体\nCtrl+0 — 重置字体\nCtrl+Shift+T — 循环主题\n\n## 选择\nCtrl+C — 复制选中内容".to_owned(),
        w: 440,
        h: 460,
    }
}

/// About the program.
pub fn show_about(version: &str) -> (r: TextDialog)
    ensures
        r.title@ == "关于 qview"@,
        r.body@ == about_body(version@),
        r.w == 460 && r.h == 360,
{
    let mut body: String = "## qview\n基于 Rust + Win32/GDI 构建的高性能文本浏览器\n支持 GB 级超大文件的快速浏览与搜索\n内存映射 · 按需加载 · 极低占用（空载 ≈ 12 MiB）\n\n版本 ".to_owned();
    body.append(version);
    body.append("\n\n作者：qinwh\n许可证：GPL-3.0\n\n© 2026 Qinwh");
    TextDialog { title: "关于 qview".to_owned(), body, w: 460, h: 360 }
}

/// What the properties of the open file are read from.
pub struct FileFacts {
    /// Name without directories; empty where it cannot be read.
    pub file_name: String,
    pub path: String,
    pub size: u64,
    pub line_count: u64,
    pub encoding: String,
    pub crlf: bool,
    pub index_cache_enabled: bool,
    pub index_path: String,
    /// Size of the stored index, where there is one.
    pub index_size: Option<u64>,
}

impl FileFacts {
    /// What is said of the index.
    pub open spec fn index_status(self) -> Seq<char> {
        if !self.index_cache_enabled {
            "索引缓存已禁用"@
        } else {
            match self.index_size {
                Some(n) => "已缓存（"@ + human_text(n as nat, TOP_UNIT as nat) + "）"@,
                None => "尚未创建"@,
            }
        }
    }

    /// What is said of the file of the index.
    pub open spec fn index_file(self) -> Seq<char> {
        if !self.index_cache_enabled || self.index_path@.len() == 0 {
            "（未启用）"@
        } else {
            self.index_path@
        }
    }

    /// What the properties say.
    pub open spec fn text(self) -> Seq<char> {
        "文件名: "@ + self.file_name@ + "\n路径: "@ + self.path@ + "\n大小: "@ + human_text(
            self.size as nat,
            TOP_UNIT as nat,
        ) + "\n行数: "@ + decimal(self.line_count as nat) + "\n编码: "@ + self.encoding@
            + "\n行尾: "@ + (if self.crlf {
            "CRLF"@
        } else {
            "LF"@
        }) + "\n索引状态: "@ + self.index_status() + "\n索引文件: "@ + self.index_file()
    }
}

/// Properties of the open file, if any.
pub fn build_properties_info(file: Option<&FileFacts>) -> (r: String)
    ensures
        r@ == match file {
            Some(f) => f.text(),
            None => "未打开文件"@,
        },
{
    match file {
        Some(f) => {
            let mut out: String = "文件名: ".to_owned();
            out.append(f.file_name.as_str());
            out.append("\n路径: ");
            out.append(f.path.as_str());
            out.append("\n大小: ");
            out.append(human_bytes(f.size).as_str());
            out.append("\n行数: ");
            push_decimal(&mut out, f.line_count);
            out.append("\n编码: ");
            out.append(f.encoding.as_str());
            out.append("\n行尾: ");
            if f.crlf {
                out.append("CRLF");
            } else {
                out.append("LF");
            }
            out.append("\n索引状态: ");
            let ghost head = out@;
            if !f.index_cache_enabled {
                out.append("索引缓存已禁用");
            } else {
                match f.index_size {
                    Some(n) => {
                        out.append("已缓存（");
                        out.append(human_bytes(n).as_str());
                        out.append("）");
                    },
                    None => {
                        out.append("尚未创建");
                    },
                }
            }
            assert(out@ =~= head + f.index_status());
            out.append("\n索引文件: ");
            if !f.index_cache_enabled || f.index_path.as_str().is_empty() {
                out.append("（未启用）");
            } else {
                out.append(f.index_path.as_str());
            }
            assert(out@ =~= f.text());
            out
        },
        None => "未打开文件".to_owned(),
    }
}

/// Properties of the open file.
pub fn show_properties(file: Option<&FileFacts>) -> (r: TextDialog)
    ensures
        r.title@ == "文件属性"@,
        r.body@ == match file {
            Some(f) => f.text(),
            None => "未打开文件"@,
        },
        r.w == 560 && r.h == 380,
{
    TextDialog { title: "文件属性".to_owned(), body: build_properties_info(file), w: 560, h: 380 }
}

/// Place of the panel in a dialog of the given size.
pub fn panel_rect(w: i32, h: i32) -> (r: Rect)
    requires
        w >= i32::MIN + 16,
        h >= i32::MIN + 56,
    ensures
        r == (Rect {
            left: 16,
            top: (TITLE_H + 14) as i32,
            right: (w - 16) as i32,
            bottom: (h - 56) as i32,
        }),
{
    Rect { left: 16, top: TITLE_H + 14, right: w - 16, bottom: h - 56 }
}

/// Width that the text of a panel is broken at.
pub fn panel_text_width(panel: &Rect) -> (r: i32)
    requires
        i32::MIN + 24 <= panel.right - panel.left <= i32::MAX,
    ensures
        r == {
            let w = panel.right - panel.left - 24;
            if w >= 40 {
                w
            } else {
                40
            }
        },
{
    let w: i32 = panel.right - panel.left - 24;
    if w >= 40 {
        w
    } else {
        40
    }
}

/// The button of a dialog that shows a text.
pub fn ok_button(w: i32, h: i32) -> (r: Button)
    requires
        0 <= w,
        h >= i32::MIN + 44,
    ensures
        r.rect == (Rect {
            left: (w as int / 2 - 40) as i32,
            top: (h - 44) as i32,
            right: (w as int / 2 + 40) as i32,
            bottom: (h - 14) as i32,
        }),
        r.kind == BtnKind::Primary,
        r.state == BtnState::Normal,
        r.label@ == "确定"@,
{
    Button::new(
        Rect { left: w / 2 - 40, top: h - 44, right: w / 2 + 40, bottom: h - 14 },
        BtnKind::Primary,
        "确定",
    )
}

// ---------------------------------------------------------------------------
// Laws
// ---------------------------------------------------------------------------

/// The properties of a file tell its name, its path, its size, its lines, its encoding, how
/// its lines end and what is known of its index.
pub proof fn law_properties_are_told(
    f: &FileFacts,
    r: String,
    d: TextDialog,
    none: String,
    size: String,
    lines: String,
    index: String,
)
    requires
        call_ensures(build_properties_info, (Some(f),), r),
        call_ensures(show_properties, (Some(f),), d),
        call_ensures(build_properties_info, (None,), none),
        call_ensures(crate::native::paint::human_bytes, (f.size,), size),
        call_ensures(crate::decimal::decimal_string, (f.line_count,), lines),
        f.index_size is Some ==> call_ensures(
            crate::native::paint::human_bytes,
            (f.index_size->0,),
            index,
        ),
    ensures
        d.body@ == r@ && d.title@ == "文件属性"@,
        none@ == "未打开文件"@,
        ({
            let head = "文件名: "@ + f.file_name@ + "\n路径: "@ + f.path@ + "\n大小: "@ + size@
                + "\n行数: "@ + lines@ + "\n编码: "@ + f.encoding@ + "\n行尾: "@;
            let end = if f.crlf {
                "CRLF"@
            } else {
                "LF"@
            };
            let known = "已缓存（"@ + index@ + "）"@;
            &&& !f.index_cache_enabled ==> r@ == head + end + "\n索引状态: "@
                + "索引缓存已禁用"@ + "\n索引文件: "@ + "（未启用）"@
            &&& f.index_cache_enabled && f.index_size is Some && f.index_path@.len() > 0 ==> r@
                == head + end + "\n索引状态: "@ + known + "\n索引文件: "@ + f.index_path@
            &&& f.index_cache_enabled && f.index_size is None && f.index_path@.len() > 0 ==> r@
                == head + end + "\n索引状态: "@ + "尚未创建"@ + "\n索引文件: "@
                + f.index_path@
        }),
{
}

/// The version is told in the text about the program, and the text lies in its panel above
/// the button.
pub proof fn law_the_version_is_told(
    version: &str,
    r: TextDialog,
    w: i32,
    h: i32,
    panel: Rect,
    text_w: i32,
    ok: Button,
)
    requires
        call_ensures(show_about, (version,), r),
        call_ensures(panel_rect, (w, h), panel),
        call_ensures(panel_text_width, (&panel,), text_w),
        call_ensures(ok_button, (w, h), ok),
        100 <= w <= 10000,
        120 <= h <= 10000,
    ensures
        r.title@ == "关于 qview"@,
        exists|a: Seq<char>, b: Seq<char>| r.body@ == #[trigger] (a + version@ + b) && a.len() > 0
            && b.len() > 0,
        0 < panel.left && panel.right < w,
        36 < panel.top && panel.bottom < ok.rect.top,
        ok.rect.bottom < h,
        ok.rect.left + ok.rect.right - w <= 0 && ok.rect.left + ok.rect.right - w >= -1,
        text_w >= 40,
        text_w == 40 || text_w < panel.right - panel.left,
{
    let a = "## qview\n基于 Rust + Win32/GDI 构建的高性能文本浏览器\n支持 GB 级超大文件的快速浏览与搜索\n内存映射 · 按需加载 · 极低占用（空载 ≈ 12 MiB）\n\n版本 "@;
    let b = "\n\n作者：qinwh\n许可证：GPL-3.0\n\n© 2026 Qinwh"@;
    reveal_strlit("## qview\n基于 Rust + Win32/GDI 构建的高性能文本浏览器\n支持 GB 级超大文件的快速浏览与搜索\n内存映射 · 按需加载 · 极低占用（空载 ≈ 12 MiB）\n\n版本 ");
    reveal_strlit("\n\n作者：qinwh\n许可证：GPL-3.0\n\n© 2026 Qinwh");
    assert(r.body@ == a + version@ + b);
}

} // verus!
