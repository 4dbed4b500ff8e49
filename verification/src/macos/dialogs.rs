//! Dialogs.

use vstd::prelude::*;

use crate::decimal::{decimal, human_text, push_decimal};
use crate::fields::{keep_start, shorten_back};
use crate::macos::util::{human_bytes, TOP_UNIT};
use crate::sorting::{in_name_order, lemma_total_of_multiset, sort_by_name, sum_sizes, total_size};

verus! {

broadcast use vstd::string::group_string_axioms;

/// Indexes that are listed.
pub const LISTED: usize = 15;

/// Most characters of a file name in the list.
pub const NAME_CHARS: usize = 42;

/// A dialog that shows a text.
pub struct InfoDialog {
    pub title: String,
    pub text: String,
}

/// What the properties of the open file are read from.
pub struct FileFacts {
    pub path: String,
    pub size: u64,
    pub lines: u64,
    pub indexing: bool,
}

impl FileFacts {
    /// What the properties say.
    pub open spec fn text(self) -> Seq<char> {
        "文件: "@ + self.path@ + "\n大小: "@ + human_text(self.size as nat, TOP_UNIT as nat)
            + "\n行数: "@ + decimal(self.lines as nat) + "\n索引: "@ + (if self.indexing {
            "正在建立…"@
        } else {
            "就绪"@
        })
    }
}

/// Properties of the open file, if any.
pub fn show_properties(file: Option<&FileFacts>) -> (r: InfoDialog)
    ensures
        r.title@ == "文件属性"@,
        r.text@ == match file {
            Some(f) => f.text(),
            None => "未打开文件"@,
        },
{
    let text: String = match file {
        Some(f) => {
            let mut out: String = "文件: ".to_owned();
            out.append(f.path.as_str());
            out.append("\n大小: ");
            out.append(human_bytes(f.size).as_str());
            out.append("\n行数: ");
            push_decimal(&mut out, f.lines);
            out.append("\n索引: ");
            if f.indexing {
                out.append("正在建立…");
            } else {
                out.append("就绪");
            }
            out
        },
        None => "未打开文件".to_owned(),
    };
    InfoDialog { title: "文件属性".to_owned(), text }
}

/// About the program.
pub fn show_about() -> (r: InfoDialog)
    ensures
        r.title@ == "关于 qview"@,
        r.text@
            == "qview\n原生 AppKit / CoreText 文本浏览器\n基于 qview-core 引擎（mmap + 后台索引 + 快速搜索）"@,
{
    InfoDialog {
        title: "关于 qview".to_owned(),
        text: "qview\n原生 AppKit / CoreText 文本浏览器\n基于 qview-core 引擎（mmap + 后台索引 + 快速搜索）".to_owned(),
    }
}

/// Help.
pub fn show_help() -> (r: InfoDialog)
    ensures
        r.title@ == "帮助"@,
        r.text@
            == "qview 是一个本地日志文件查看器。\n\n· Cmd+O 打开文件\n· 支持超大文件（内存映射，不整读）\n· 后台建立行索引，可即时搜索\n· 菜单/快捷键见“快捷键”"@,
{
    InfoDialog {
        title: "帮助".to_owned(),
        text: "qview 是一个本地日志文件查看器。\n\n· Cmd+O 打开文件\n· 支持超大文件（内存映射，不整读）\n· 后台建立行索引，可即时搜索\n· 菜单/快捷键见“快捷键”".to_owned(),
    }
}

/// List of shortcuts.
pub fn show_shortcuts() -> (r: InfoDialog)
    ensures
        r.title@ == "快捷键"@,
        r.text@
            == "Cmd+O        打开\nCmd+R        重新加载\nCmd+W        关闭\n\nCmd+F        查找\nF3 / Cmd+G      下一个\nShift+F3 / Cmd+Shift+G  上一个\n\nCmd+L        跳到行\nHome/End     顶部 / 底部\nPageUp/PageDown  上一页 / 下一页\n\nCmd+= / Cmd+-  字体加大 / 减小\nCmd+0          字体重置\n\nCmd+Shift+T  切换主题\nEsc          取消搜索\n\n工具 → 缓存管理   查看/清空 .qli 索引缓存"@,
{
    InfoDialog {
        title: "快捷键".to_owned(),
        text: "Cmd+O        打开\nCmd+R        重新加载\nCmd+W        关闭\n\nCmd+F        查找\nF3 / Cmd+G      下一个\nShift+F3 / Cmd+Shift+G  上一个\n\nCmd+L        跳到行\nHome/End     顶部 / 底部\nPageUp/PageDown  上一页 / 下一页\n\nCmd+= / Cmd+-  字体加大 / 减小\nCmd+0          字体重置\n\nCmd+Shift+T  切换主题\nEsc          取消搜索\n\n工具 → 缓存管理   查看/清空 .qli 索引缓存".to_owned(),
    }
}

/// What the dialog says that asks for a line; `None` where there are no lines.
pub fn prompt_goto(total: u64) -> (r: Option<String>)
    ensures
        match r {
            Some(text) => total > 0 && text@ == "行号范围 1 - "@ + decimal(total as nat),
            None => total == 0,
        },
{
    if total == 0 {
        return None;
    }
    let mut out: String = "行号范围 1 - ".to_owned();
    push_decimal(&mut out, total);
    Some(out)
}

/// What is said where a file cannot be opened.
pub fn open_error(path: &str, error: &str) -> (r: String)
    ensures
        r@ == "无法打开文件:\n"@ + path@ + "\n\n"@ + error@,
{
    let mut out: String = "无法打开文件:\n".to_owned();
    out.append(path);
    out.append("\n\n");
    out.append(error);
    out
}

/// What is said where a search cannot be made.
pub fn search_error(error: &str) -> (r: String)
    ensures
        r@ == "搜索失败: "@ + error@,
{
    let mut out: String = "搜索失败: ".to_owned();
    out.append(error);
    out
}

// ---------------------------------------------------------------------------
// Stored indexes
// ---------------------------------------------------------------------------

/// The file is a stored index.
pub open spec fn is_index_name(name: Seq<char>) -> bool {
    ".qli"@.is_suffix_of(name)
}

/// Whether a file name is that of a stored index.
pub fn is_index(name: &str) -> (r: bool)
    ensures
        r == is_index_name(name@),
{
    let n: usize = name.unicode_len();
    proof {
        reveal_strlit(".qli");
    }
    if n < 4 {
        return false;
    }
    let tail: &str = name.substring_char(n - 4, n);
    let r: bool = crate::text::same_text(tail, ".qli");
    assert(r == is_index_name(name@)) by {
        assert(name@.subrange(n - 4, n as int) == tail@);
    }
    r
}

/// Line on one index.
pub open spec fn entry_line(f: (String, u64)) -> Seq<char> {
    " · "@ + keep_start(f.0@, NAME_CHARS as nat) + "  ("@ + human_text(f.1 as nat, TOP_UNIT as nat)
        + ")\n"@
}

/// Lines on the first `n` indexes.
pub open spec fn entry_lines(files: Seq<(String, u64)>, n: nat) -> Seq<char>
    decreases n,
{
    if n == 0 {
        Seq::empty()
    } else {
        entry_lines(files, (n - 1) as nat) + entry_line(files[n - 1])
    }
}

/// Lines on indexes: the first ones, and how many more there are.
pub open spec fn listed_text(files: Seq<(String, u64)>) -> Seq<char> {
    if files.len() <= LISTED {
        entry_lines(files, files.len())
    } else {
        entry_lines(files, LISTED as nat) + " · …其余 "@ + decimal((files.len() - LISTED) as nat)
            + " 个\n"@
    }
}

/// What is said of the indexes.
pub open spec fn files_text(files: Seq<(String, u64)>) -> Seq<char> {
    if files.len() == 0 {
        "\n没有索引缓存文件"@
    } else {
        "\n"@ + decimal(files.len()) + " 个缓存文件，共 "@ + human_text(
            total_size(files),
            TOP_UNIT as nat,
        ) + "\n"@ + listed_text(files)
    }
}

/// What the list of indexes says, its files being in order.
pub open spec fn indexes_text(dir: Seq<char>, indexing: bool, files: Seq<(String, u64)>) -> Seq<char> {
    "索引缓存目录:\n"@ + dir + "\n"@ + (if indexing {
        "\n⚠ 正在建立索引，请完成后清理\n"@
    } else {
        Seq::empty()
    }) + files_text(files)
}

fn push_entry(body: &mut String, name: &str, size: u64)
    ensures
        final(body)@ == old(body)@ + (" · "@ + keep_start(name@, NAME_CHARS as nat) + "  ("@
            + human_text(size as nat, TOP_UNIT as nat) + ")\n"@),
{
    let ghost before = body@;
    body.append(" · ");
    body.append(shorten_back(name, NAME_CHARS).as_str());
    body.append("  (");
    body.append(human_bytes(size).as_str());
    body.append(")\n");
    assert(body@ =~= before + (" · "@ + keep_start(name@, NAME_CHARS as nat) + "  ("@ + human_text(
        size as nat,
        TOP_UNIT as nat,
    ) + ")\n"@));
}

fn push_listed(body: &mut String, files: &Vec<(String, u64)>)
    ensures
        final(body)@ == old(body)@ + listed_text(files@),
{
    let ghost head = body@;
    let mut i: usize = 0;
    assert(head + entry_lines(files@, 0) =~= head);
    while i < files.len() && i < LISTED
        invariant
            i <= files@.len(),
            i <= LISTED,
            body@ == head + entry_lines(files@, i as nat),
        decreases files@.len() - i,
    {
        let ghost before = body@;
        push_entry(body, files[i].0.as_str(), files[i].1);
        assert(body@ == before + entry_line(files@[i as int]));
        i = i + 1;
        assert(body@ =~= head + entry_lines(files@, i as nat));
    }
    if files.len() > LISTED {
        body.append(" · …其余 ");
        push_decimal(body, (files.len() - LISTED) as u64);
        body.append(" 个\n");
    }
    assert(body@ =~= head + listed_text(files@));
}

fn push_files(body: &mut String, files: &Vec<(String, u64)>)
    requires
        total_size(files@) <= u64::MAX,
    ensures
        final(body)@ == old(body)@ + files_text(files@),
{
    let ghost head = body@;
    if files.len() == 0 {
        body.append("\n没有索引缓存文件");
    } else {
        let total: u64 = sum_sizes(files);
        body.append("\n");
        push_decimal(body, files.len() as u64);
        body.append(" 个缓存文件，共 ");
        body.append(human_bytes(total).as_str());
        body.append("\n");
        push_listed(body, files);
        assert(body@ =~= head + files_text(files@));
    }
}

/// What the list of indexes says, and whether they can be cleared away.
pub struct IndexDialog {
    pub body: String,
    pub can_delete: bool,
    /// The first button.
    pub button: String,
}

/// `text` tells the indexes by name.
pub open spec fn is_indexes_text(
    dir: Seq<char>,
    indexing: bool,
    files: Seq<(String, u64)>,
    text: Seq<char>,
) -> bool {
    exists|sorted: Seq<(String, u64)>| #[trigger]
        in_name_order(sorted) && sorted.to_multiset() == files.to_multiset() && text
            == indexes_text(dir, indexing, sorted)
}

/// The list of indexes: `files` are those of the directory that are indexes.
/// They can be cleared away where there are some and none is being made.
pub fn manage_indexes(dir: &str, indexing: bool, files: Vec<(String, u64)>) -> (r: IndexDialog)
    requires
        total_size(files@) <= u64::MAX,
    ensures
        is_indexes_text(dir@, indexing, files@, r.body@),
        r.can_delete == (files@.len() > 0 && !indexing),
        r.button@ == if r.can_delete {
            "清空缓存"@
        } else {
            "关闭"@
        },
{
    let ghost all = files@;
    let sorted: Vec<(String, u64)> = sort_by_name(files);
    proof {
        lemma_total_of_multiset(all, sorted@);
    }
    let mut body: String = "索引缓存目录:\n".to_owned();
    body.append(dir);
    body.append("\n");
    if indexing {
        body.append("\n⚠ 正在建立索引，请完成后清理\n");
    }
    push_files(&mut body, &sorted);
    assert(body@ =~= indexes_text(dir@, indexing, sorted@));
    let can_delete: bool = sorted.len() > 0 && !indexing;
    let button: String = if can_delete {
        "清空缓存".to_owned()
    } else {
        "关闭".to_owned()
    };
    IndexDialog { body, can_delete, button }
}

/// What is said after `n` indexes were cleared away.
pub fn deleted_text(n: usize) -> (r: String)
    ensures
        r@ == "已删除 "@ + decimal(n as nat) + " 个缓存文件。\n重新打开文件时索引会自动重建。"@,
{
    let mut out: String = "已删除 ".to_owned();
    push_decimal(&mut out, n as u64);
    out.append(" 个缓存文件。\n重新打开文件时索引会自动重建。");
    out
}

// ---------------------------------------------------------------------------
// Laws
// ---------------------------------------------------------------------------

/// The properties of a file tell its path, its size, its lines and whether it is indexed.
pub proof fn law_properties_are_told(
    f: &FileFacts,
    r: InfoDialog,
    none: InfoDialog,
    size: String,
    lines: String,
)
    requires
        call_ensures(show_properties, (Some(f),), r),
        call_ensures(show_properties, (None,), none),
        call_ensures(crate::macos::util::human_bytes, (f.size,), size),
        call_ensures(crate::decimal::decimal_string, (f.lines,), lines),
    ensures
        r.title@ == "文件属性"@,
        f.indexing ==> r.text@ == "文件: "@ + f.path@ + "\n大小: "@ + size@ + "\n行数: "@
            + lines@ + "\n索引: "@ + "正在建立…"@,
        !f.indexing ==> r.text@ == "文件: "@ + f.path@ + "\n大小: "@ + size@ + "\n行数: "@
            + lines@ + "\n索引: "@ + "就绪"@,
        none.text@ == "未打开文件"@,
{
}

/// Going to a line is asked for where there are lines, with their number; errors tell the
/// file and the reason.
pub proof fn law_questions_and_errors_are_told(
    total: u64,
    r: Option<String>,
    number: String,
    path: &str,
    error: &str,
    opened: String,
    searched: String,
    n: usize,
    deleted: String,
    count: String,
)
    requires
        call_ensures(prompt_goto, (total,), r),
        call_ensures(crate::decimal::decimal_string, (total,), number),
        call_ensures(open_error, (path, error), opened),
        call_ensures(search_error, (error,), searched),
        call_ensures(deleted_text, (n,), deleted),
        call_ensures(crate::decimal::decimal_string, (n as u64,), count),
    ensures
        total == 0 ==> r is None,
        total > 0 ==> r is Some && r->0@ == "行号范围 1 - "@ + number@,
        opened@ == "无法打开文件:\n"@ + path@ + "\n\n"@ + error@,
        searched@ == "搜索失败: "@ + error@,
        deleted@ == "已删除 "@ + count@ + " 个缓存文件。\n重新打开文件时索引会自动重建。"@,
{
}

/// A name is that of an index where it ends with the extension of indexes, and only there.
pub proof fn law_indexes_have_their_extension(stem: Seq<char>, name: &str, r: bool, other: &str, q: bool)
    requires
        call_ensures(is_index, (name,), r),
        name@ == stem + ".qli"@,
        call_ensures(is_index, (other,), q),
    ensures
        r,
        q ==> other@.len() >= 4 && other@.skip(other@.len() - 4) == ".qli"@,
        other@.len() >= 4 && other@.skip(other@.len() - 4) == ".qli"@ ==> q,
{
    reveal_strlit(".qli");
    assert(name@.subrange(name@.len() - 4, name@.len() as int) =~= ".qli"@);
    if other@.len() >= 4 {
        assert(other@.subrange(other@.len() - 4, other@.len() as int) =~= other@.skip(
            other@.len() - 4,
        ));
    }
}

/// Indexes can be deleted where there are any and none is being made.
pub proof fn law_indexes_can_be_deleted(
    dir: &str,
    indexing: bool,
    files: Vec<(String, u64)>,
    r: IndexDialog,
)
    requires
        call_ensures(manage_indexes, (dir, indexing, files), r),
    ensures
        r.can_delete == (files@.len() > 0 && !indexing),
        r.can_delete ==> r.button@ == "清空缓存"@,
        !r.can_delete ==> r.button@ == "关闭"@,
        files@.len() == 0 && !indexing ==> r.body@ == "索引缓存目录:\n"@ + dir@ + "\n"@
            + "\n没有索引缓存文件"@,
{
    let sorted = choose|sorted: Seq<(String, u64)>| #[trigger]
        in_name_order(sorted) && sorted.to_multiset() == files@.to_multiset() && r.body@
            == indexes_text(dir@, indexing, sorted);
    sorted.to_multiset_ensures();
    files@.to_multiset_ensures();
    assert(sorted.len() == files@.len());
    if files@.len() == 0 && !indexing {
        assert("索引缓存目录:\n"@ + dir@ + "\n"@ + Seq::<char>::empty() =~= "索引缓存目录:\n"@
            + dir@ + "\n"@);
    }
}

} // verus!
