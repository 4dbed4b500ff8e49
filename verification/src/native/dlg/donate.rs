//! The dialog that asks for a donation.

use vstd::prelude::*;

use crate::native::geom::Rect;
use crate::native::theme::{Rgb, ThemeColors};
use crate::native::widgets::{BtnKind, BtnState, Button, TITLE_H};
use crate::paths::{join_windows, windows_joined};
use crate::text::{maybe_text, views};

verus! {

broadcast use vstd::string::group_string_axioms;

pub const WIDTH: i32 = 500;

pub const HEIGHT: i32 = 420;

/// Paths of an asset below a directory.
pub open spec fn below(dir: Option<Seq<char>>, name: Seq<char>) -> Seq<Seq<char>> {
    match dir {
        Some(d) => seq![
            windows_joined(windows_joined(d, "assets"@), name),
            windows_joined(windows_joined(windows_joined(d, "gui"@), "assets"@), name),
        ],
        None => Seq::empty(),
    }
}

fn push_below(paths: &mut Vec<String>, dir: Option<&str>, name: &str)
    ensures
        views(final(paths)@) == views(old(paths)@) + below(maybe_text(dir), name@),
{
    let ghost before = views(paths@);
    match dir {
        Some(d) => {
            let a: String = join_windows(join_windows(d, "assets").as_str(), name);
            let gui: String = join_windows(d, "gui");
            let b: String = join_windows(join_windows(gui.as_str(), "assets").as_str(), name);
            let ghost first = a@;
            let ghost second = b@;
            paths.push(a);
            paths.push(b);
            assert(views(paths@) =~= before + seq![first, second]);
        },
        None => {
            assert(views(paths@) =~= before + below(None, name@));
        },
    }
}

/// Paths at which an asset is looked for: below the current directory, then
/// below that of the program.
pub fn asset_candidates(cwd: Option<&str>, exe_dir: Option<&str>, name: &str) -> (r: Vec<String>)
    ensures
        views(r@) == below(maybe_text(cwd), name@) + below(maybe_text(exe_dir), name@),
{
    let mut paths: Vec<String> = Vec::new();
    assert(views(paths@) =~= Seq::empty());
    push_below(&mut paths, cwd, name);
    assert(views(paths@) =~= below(maybe_text(cwd), name@));
    push_below(&mut paths, exe_dir, name);
    paths
}

/// Places of a picture, of the text in its stead, and of its name.
#[derive(Clone, Copy, Debug)]
pub struct PictureSlot {
    pub frame: Rect,
    pub missing_x: i32,
    pub label_x: i32,
}

/// Places of a picture in pixel column `x`.
pub fn picture_slot(x: i32) -> (r: PictureSlot)
    requires
        x <= i32::MAX - 180,
    ensures
        r.frame == (Rect { left: x, top: 100, right: (x + 180) as i32, bottom: 280 }),
        r.missing_x == x + 45,
        r.label_x == x + 50,
{
    PictureSlot {
        frame: Rect { left: x, top: 100, right: x + 180, bottom: 280 },
        missing_x: x + 45,
        label_x: x + 50,
    }
}

/// `r` is the first place from which something can be loaded.
pub open spec fn is_loaded_from<F: Fn(&String) -> bool>(
    paths: Seq<String>,
    load: F,
    r: Option<usize>,
) -> bool {
    match r {
        Some(i) => {
            &&& i < paths.len()
            &&& call_ensures(load, (&paths[i as int],), true)
            &&& forall|k: int| 0 <= k < i ==> call_ensures(load, (&#[trigger] paths[k],), false)
        },
        None => forall|k: int|
            0 <= k < paths.len() ==> call_ensures(load, (&#[trigger] paths[k],), false),
    }
}

/// The first of some paths at which a picture can be loaded.
pub fn loaded_from<F: Fn(&String) -> bool>(paths: &Vec<String>, load: &F) -> (r: Option<usize>)
    requires
        forall|p: &String| #[trigger] call_requires(load, (p,)),
    ensures
        is_loaded_from(paths@, *load, r),
{
    let mut i: usize = 0;
    while i < paths.len()
        invariant
            i <= paths@.len(),
            forall|p: &String| #[trigger] call_requires(load, (p,)),
            forall|k: int| 0 <= k < i ==> call_ensures(*load, (&#[trigger] paths@[k],), false),
        decreases paths@.len() - i,
    {
        let ok: bool = (*load)(&paths[i]);
        if ok {
            return Some(i);
        }
        i = i + 1;
    }
    None
}

/// A text of the dialog.
pub struct DonateText {
    pub x: i32,
    pub y: i32,
    pub color: Rgb,
    pub text: String,
}

/// A text as contracts speak of it.
pub open spec fn is_text(t: DonateText, x: int, y: int, color: Rgb, text: &str) -> bool {
    t.x == x && t.y == y && t.color == color && t.text@ == text@
}

fn text_at(x: i32, y: i32, color: Rgb, text: &str) -> (r: DonateText)
    ensures
        is_text(r, x as int, y as int, color, text),
{
    DonateText { x, y, color, text: text.to_owned() }
}

/// What stands for a picture.
pub enum Picture {
    /// The picture itself, with its corner at a pixel.
    Shown { x: i32, y: i32 },
    /// A box, and a text in it, where the picture could not be loaded.
    Missing { frame: Rect, fill: Rgb, note: DonateText },
}

/// A picture and its name below it.
pub struct DonateSlot {
    pub picture: Picture,
    pub label: DonateText,
}

/// A slot at pixel column `x` as contracts speak of it: the picture where it was
/// loaded, else a box that says that it is missing, and its name.
pub open spec fn is_slot(s: DonateSlot, x: int, loaded: bool, name: &str, theme: ThemeColors) -> bool {
    &&& is_text(s.label, x + 50, 290, theme.text_primary, name)
    &&& match s.picture {
        Picture::Shown { x: at, y } => loaded && at == x && y == 100,
        Picture::Missing { frame, fill, note } => {
            &&& !loaded
            &&& frame == (Rect { left: x as i32, top: 100, right: (x + 180) as i32, bottom: 280 })
            &&& fill == theme.bg_tertiary
            &&& is_text(note, x + 45, 180, theme.text_disabled, "二维码缺失")
        },
    }
}

fn slot_at(x: i32, loaded: bool, name: &str, theme: &ThemeColors) -> (r: DonateSlot)
    requires
        x <= i32::MAX - 180,
    ensures
        is_slot(r, x as int, loaded, name, *theme),
{
    let place: PictureSlot = picture_slot(x);
    let picture: Picture = if loaded {
        Picture::Shown { x, y: place.frame.top }
    } else {
        Picture::Missing {
            frame: place.frame,
            fill: theme.bg_tertiary,
            note: text_at(place.missing_x, 180, theme.text_disabled, "二维码缺失"),
        }
    };
    DonateSlot { picture, label: text_at(place.label_x, 290, theme.text_primary, name) }
}

/// What the dialog shows.
pub struct DonateView {
    pub title: String,
    pub heading: DonateText,
    pub slots: Vec<DonateSlot>,
    pub footer: DonateText,
}

/// What the dialog shows in a window `w` pixels wide. `can_draw` tells whether
/// pictures can be drawn at all, and the other two which of them were loaded.
pub fn show_donate(w: i32, theme: &ThemeColors, can_draw: bool, wechat: bool, alipay: bool) -> (r:
    DonateView)
    requires
        0 <= w,
    ensures
        r.title@ == "❤ 捐赠"@,
        is_text(r.heading, w as int / 2 - 60, 52, theme.error, "❤ 为作者续命 ❤"),
        r.slots@.len() == if can_draw {
            2nat
        } else {
            0nat
        },
        can_draw ==> is_slot(r.slots@[0], 60, wechat, "微信支付", *theme),
        can_draw ==> is_slot(r.slots@[1], 260, alipay, "支付宝", *theme),
        is_text(
            r.footer,
            w as int / 2 - 130,
            340,
            theme.text_secondary,
            "如果 qview 帮到了你，欢迎请作者喝杯咖啡",
        ),
{
    let mut slots: Vec<DonateSlot> = Vec::new();
    if can_draw {
        slots.push(slot_at(60, wechat, "微信支付", theme));
        slots.push(slot_at(260, alipay, "支付宝", theme));
    }
    DonateView {
        title: "❤ 捐赠".to_owned(),
        heading: text_at(w / 2 - 60, TITLE_H + 16, theme.error, "❤ 为作者续命 ❤"),
        slots,
        footer: text_at(
            w / 2 - 130,
            340,
            theme.text_secondary,
            "如果 qview 帮到了你，欢迎请作者喝杯咖啡",
        ),
    }
}

/// The button of the dialog.
pub fn donate_button() -> (r: Button)
    ensures
        r.rect == (Rect { left: 150, top: 370, right: 350, bottom: 402 }),
        r.kind == BtnKind::Primary,
        r.state == BtnState::Normal,
        r.label@ == "先白嫖着，下次一定"@,
{
    Button::new(
        Rect { left: 150, top: HEIGHT - 50, right: WIDTH - 150, bottom: HEIGHT - 18 },
        BtnKind::Primary,
        "先白嫖着，下次一定",
    )
}

// ---------------------------------------------------------------------------
// Laws
// ---------------------------------------------------------------------------

/// A picture is looked for below the current directory and then below that of the program,
/// and taken from the first place where there is one.
pub proof fn law_pictures_are_looked_for<F: Fn(&String) -> bool>(
    cwd: &str,
    exe: &str,
    name: &str,
    r: Vec<String>,
    load: &F,
    there: spec_fn(String) -> bool,
    found: Option<usize>,
    k: int,
)
    requires
        call_ensures(asset_candidates, (Some(cwd), Some(exe), name), r),
        call_ensures(loaded_from::<F>, (&r, load), found),
        forall|p: &String, b: bool| #[trigger] call_ensures(*load, (p,), b) ==> b == there(*p),
        cwd@.len() > 2 && cwd@.last() != '\\' && cwd@.last() != '/',
        exe@.len() > 2 && exe@.last() != '\\' && exe@.last() != '/',
    ensures
        r@.len() == 4,
        r@[0]@ == cwd@ + "\\assets\\"@ + name@,
        r@[1]@ == cwd@ + "\\gui\\assets\\"@ + name@,
        r@[2]@ == exe@ + "\\assets\\"@ + name@,
        r@[3]@ == exe@ + "\\gui\\assets\\"@ + name@,
        found is Some ==> found->0 < 4 && there(r@[found->0 as int]) && (0 <= k < found->0
            ==> !there(r@[k])),
        found is None ==> (0 <= k < 4 ==> !there(r@[k])),
{
    reveal_strlit("assets");
    reveal_strlit("gui");
    reveal_strlit("\\assets\\");
    reveal_strlit("\\gui\\assets\\");
    let v = views(r@);
    assert(v.len() == 4);
    assert(v[0] == r@[0]@ && v[1] == r@[1]@ && v[2] == r@[2]@ && v[3] == r@[3]@);
    assert(v[0] =~= cwd@ + "\\assets\\"@ + name@);
    assert(v[1] =~= cwd@ + "\\gui\\assets\\"@ + name@);
    assert(v[2] =~= exe@ + "\\assets\\"@ + name@);
    assert(v[3] =~= exe@ + "\\gui\\assets\\"@ + name@);
    if 0 <= k < 4 {
        let p = r@[k];
        assert(call_ensures(*load, (&r@[k],), false) || found is Some);
    }
}

/// A picture that was loaded is shown, and a missing one is told, each over the name of
/// what it stands for.
pub proof fn law_missing_pictures_are_told(
    w: i32,
    theme: &ThemeColors,
    wechat: bool,
    alipay: bool,
    r: DonateView,
    none: DonateView,
)
    requires
        call_ensures(show_donate, (w, theme, true, wechat, alipay), r),
        call_ensures(show_donate, (w, theme, false, wechat, alipay), none),
        0 <= w,
    ensures
        r.slots@.len() == 2 && none.slots@.len() == 0,
        (r.slots@[0].picture is Shown) == wechat,
        (r.slots@[1].picture is Shown) == alipay,
        r.slots@[0].label.text@ == "微信支付"@,
        r.slots@[1].label.text@ == "支付宝"@,
        r.slots@[0].picture is Missing ==> r.slots@[0].picture->note.text@ == "二维码缺失"@,
{
}

} // verus!
