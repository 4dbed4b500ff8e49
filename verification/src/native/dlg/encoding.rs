//! Choosing another encoding: a menu at the status bar, then a question.

use vstd::prelude::*;

use crate::encodings::{key, key_text, label, label_text, ENCODINGS};
use crate::native::dlg::settings::EngineOptions;
use crate::native::geom::Rect;
use crate::native::widgets::{BtnKind, BtnState, Button};
use crate::text::same_text;

verus! {

broadcast use vstd::string::group_string_axioms;

/// Number of the first encoding in the menu.
pub const ID_ENCODING_BASE: i32 = 3001;

pub const WIDTH: i32 = 400;

pub const HEIGHT: i32 = 180;

/// An entry of the menu.
pub struct EncodingEntry {
    pub id: usize,
    pub label: String,
    pub checked: bool,
}

/// The menu of encodings; that in use is checked.
pub fn show_encoding_menu(current: &str) -> (r: Vec<EncodingEntry>)
    ensures
        r@.len() == ENCODINGS,
        forall|i: int|
            0 <= i < ENCODINGS ==> (#[trigger] r@[i]).id == ID_ENCODING_BASE + i && r@[i].label@
                == label_text(i) && r@[i].checked == (key_text(i) == current@),
{
    let mut out: Vec<EncodingEntry> = Vec::new();
    let mut i: usize = 0;
    while i < ENCODINGS
        invariant
            i <= ENCODINGS,
            out@.len() == i,
            forall|k: int|
                0 <= k < i ==> (#[trigger] out@[k]).id == ID_ENCODING_BASE + k && out@[k].label@
                    == label_text(k) && out@[k].checked == (key_text(k) == current@),
        decreases ENCODINGS - i,
    {
        out.push(
            EncodingEntry {
                id: ID_ENCODING_BASE as usize + i,
                label: label(i).to_owned(),
                checked: same_text(key(i), current),
            },
        );
        i = i + 1;
    }
    out
}

/// Encoding that an entry of the menu asks for: none where the number is not
/// that of an encoding, or the encoding is in use already.
pub open spec fn asked_for(cmd: int, current: Seq<char>) -> Option<usize> {
    if ID_ENCODING_BASE <= cmd < ID_ENCODING_BASE + ENCODINGS && key_text(
        cmd - ID_ENCODING_BASE,
    ) != current {
        Some((cmd - ID_ENCODING_BASE) as usize)
    } else {
        None
    }
}

/// Encoding that an entry of the menu asks for.
pub fn chosen_encoding(cmd: i32, current: &str) -> (r: Option<usize>)
    ensures
        r == asked_for(cmd as int, current@),
{
    if cmd < ID_ENCODING_BASE {
        return None;
    }
    let i: usize = (cmd - ID_ENCODING_BASE) as usize;
    if i < ENCODINGS && !same_text(key(i), current) {
        Some(i)
    } else {
        None
    }
}

/// The question.
pub fn show_encoding_confirm(current: &str, target: &str) -> (r: String)
    ensures
        r@ == "将编码从 "@ + current@ + " 切换到 "@ + target@ + "？\n切换后重新加载文件。"@,
{
    let mut out: String = "将编码从 ".to_owned();
    out.append(current);
    out.append(" 切换到 ");
    out.append(target);
    out.append("？\n切换后重新加载文件。");
    out
}

/// What follows from the answer.
pub struct Switched {
    /// The settings have changed and are to be stored.
    pub save: bool,
    /// The file that is opened again.
    pub reopen: Option<String>,
}

/// Takes in the answer to the question. Agreeing sets the encoding that was
/// chosen, and the file that is open is opened again; refusing changes nothing.
pub fn switch_encoding(
    engine: &mut EngineOptions,
    target: &str,
    agreed: bool,
    open_path: Option<&str>,
) -> (r: Switched)
    ensures
        agreed ==> {
            &&& final(engine).encoding@ == target@
            &&& *final(engine) == (EngineOptions {
                encoding: final(engine).encoding,
                ..*old(engine)
            })
            &&& r.save
            &&& match open_path {
                Some(path) => r.reopen is Some && r.reopen->0@ == path@,
                None => r.reopen is None,
            }
        },
        !agreed ==> *final(engine) == *old(engine) && !r.save && r.reopen is None,
{
    if !agreed {
        return Switched { save: false, reopen: None };
    }
    engine.encoding = target.to_owned();
    let reopen: Option<String> = match open_path {
        Some(path) => Some(path.to_owned()),
        None => None,
    };
    Switched { save: true, reopen }
}

/// The buttons below the question.
pub fn confirm_buttons() -> (r: Vec<Button>)
    ensures
        r@.len() == 2,
        r@[0].rect == (Rect { left: 40, top: 130, right: 170, bottom: 162 }),
        r@[0].kind == BtnKind::Primary && r@[0].label@ == "切换并重新加载"@,
        r@[1].rect == (Rect { left: 190, top: 130, right: 270, bottom: 162 }),
        r@[1].kind == BtnKind::Neutral && r@[1].label@ == "取消"@,
        r@[0].state == BtnState::Normal && r@[1].state == BtnState::Normal,
{
    let mut v: Vec<Button> = Vec::new();
    v.push(
        Button::new(
            Rect { left: 40, top: HEIGHT - 50, right: 170, bottom: HEIGHT - 18 },
            BtnKind::Primary,
            "切换并重新加载",
        ),
    );
    v.push(
        Button::new(
            Rect { left: 190, top: HEIGHT - 50, right: 270, bottom: HEIGHT - 18 },
            BtnKind::Neutral,
            "取消",
        ),
    );
    v
}

/// An encoding that was chosen from the menu is the one in use once the question
/// was agreed to, so that choosing it again asks for nothing.
pub proof fn law_chosen_encoding_is_used(choice: int, encoding: Seq<char>)
    requires
        0 <= choice < ENCODINGS,
        encoding == key_text(choice),
    ensures
        asked_for(ID_ENCODING_BASE + choice, encoding) is None,
{
}

/// The menu lists every encoding with its label, the current one is checked, and choosing
/// an entry asks for that encoding unless it is the current one.
pub proof fn law_entries_ask_for_their_encoding(
    current: &str,
    r: Vec<EncodingEntry>,
    i: usize,
    key: &'static str,
    label: &'static str,
    cmd: i32,
    chosen: Option<usize>,
)
    requires
        call_ensures(show_encoding_menu, (current,), r),
        i < 11,
        call_ensures(crate::encodings::key, (i,), key),
        call_ensures(crate::encodings::label, (i,), label),
        cmd == r@[i as int].id,
        call_ensures(chosen_encoding, (cmd, current), chosen),
    ensures
        r@.len() == 11,
        r@[i as int].id == 3001 + i,
        r@[i as int].label@ == label@,
        r@[i as int].checked == (key@ == current@),
        key@ != current@ ==> chosen == Some(i),
        key@ == current@ ==> chosen is None,
{
}

/// An encoding that was agreed to is stored and the file is opened again; otherwise
/// nothing changes.
pub proof fn law_agreed_encodings_are_stored(
    engine: &mut EngineOptions,
    target: &str,
    agreed: bool,
    path: Option<&str>,
    r: Switched,
    current: &str,
    question: String,
)
    requires
        call_ensures(switch_encoding, (engine, target, agreed, path), r),
        call_ensures(show_encoding_confirm, (current, target), question),
    ensures
        agreed ==> final(engine).encoding@ == target@ && r.save && r.reopen is Some
            == path is Some && (path is Some ==> r.reopen->0@ == path->0@),
        !agreed ==> *final(engine) == *old(engine) && !r.save && r.reopen is None,
        final(engine).small_file_threshold == old(engine).small_file_threshold,
        final(engine).index_cache_enabled == old(engine).index_cache_enabled,
        question@ == "将编码从 "@ + current@ + " 切换到 "@ + target@
            + "？\n切换后重新加载文件。"@,
{
}

} // verus!
