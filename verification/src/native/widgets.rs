//! Buttons, labels and title bars that are drawn by the application itself.

use vstd::prelude::*;

use crate::native::geom::Rect;
use crate::native::theme::{Rgb, ThemeColors};

verus! {

broadcast use vstd::string::group_string_axioms;

/// Height of a title bar.
pub const TITLE_H: i32 = 36;

/// Height of a tooltip.
pub const TOOLTIP_H: i32 = 24;

/// Right edge beyond which a tooltip moves to the other side of the pointer.
pub const TOOLTIP_RIGHT: i32 = 1200;

/// Meaning of a button.
#[derive(Clone, Copy, PartialEq, Eq, Debug, Structural)]
pub enum BtnKind {
    Primary,
    Secondary,
    Danger,
    Neutral,
}

/// What the pointer does with a button.
#[derive(Clone, Copy, PartialEq, Eq, Debug, Structural)]
pub enum BtnState {
    Normal,
    Hover,
    Pressed,
    Disabled,
}

/// A button.
#[derive(Clone)]
pub struct Button {
    pub rect: Rect,
    pub kind: BtnKind,
    pub state: BtnState,
    pub label: String,
}

/// Colour of a button that is left alone.
pub open spec fn kind_color(kind: BtnKind, theme: ThemeColors) -> Rgb {
    match kind {
        BtnKind::Primary => theme.btn_primary,
        BtnKind::Secondary => theme.bg_tertiary,
        BtnKind::Danger => theme.btn_danger,
        BtnKind::Neutral => theme.btn_neutral,
    }
}

/// Colours of a button: background and text.
pub open spec fn state_colors(kind: BtnKind, state: BtnState, theme: ThemeColors) -> (Rgb, Rgb) {
    let base = kind_color(kind, theme);
    match state {
        BtnState::Normal => (base, theme.text_primary),
        BtnState::Hover => (base.blended(theme.bg_hover, 90), theme.text_primary),
        BtnState::Pressed => (base.blended(Rgb { r: 0, g: 0, b: 0 }, 40), theme.text_primary),
        BtnState::Disabled => (theme.bg_tertiary, theme.text_disabled),
    }
}

impl Button {
    pub fn new(rect: Rect, kind: BtnKind, label: &str) -> (r: Self)
        ensures
            r.rect == rect,
            r.kind == kind,
            r.state == BtnState::Normal,
            r.label@ == label@,
    {
        Self { rect, kind, state: BtnState::Normal, label: label.to_owned() }
    }

    /// Whether a pixel lies on the button.
    pub fn contains(&self, x: i32, y: i32) -> (r: bool)
        ensures
            r == self.rect.holds(x, y),
    {
        self.rect.contains(x, y)
    }

    /// Colour of the button when it is left alone.
    pub fn base_color(&self, theme: &ThemeColors) -> (r: Rgb)
        ensures
            r == kind_color(self.kind, *theme),
    {
        match self.kind {
            BtnKind::Primary => theme.btn_primary,
            BtnKind::Secondary => theme.bg_tertiary,
            BtnKind::Danger => theme.btn_danger,
            BtnKind::Neutral => theme.btn_neutral,
        }
    }

    /// Background and text colour under the button's state.
    pub fn colors(&self, theme: &ThemeColors) -> (r: (Rgb, Rgb))
        ensures
            r == state_colors(self.kind, self.state, *theme),
    {
        let base: Rgb = self.base_color(theme);
        match self.state {
            BtnState::Normal => (base, theme.text_primary),
            BtnState::Hover => (base.blend(theme.bg_hover, 90), theme.text_primary),
            BtnState::Pressed => (base.blend(Rgb { r: 0, g: 0, b: 0 }, 40), theme.text_primary),
            BtnState::Disabled => (theme.bg_tertiary, theme.text_disabled),
        }
    }
}

/// Half of a number, towards zero.
pub open spec fn half(n: int) -> int {
    if n >= 0 {
        n / 2
    } else {
        -((-n) / 2)
    }
}

/// Place of a text of the given size in the middle of a rectangle; it keeps two
/// pixels from the left edge.
pub fn centered(r: &Rect, text_w: i32, text_h: i32) -> (p: (i32, i32))
    requires
        i32::MIN <= r.right - r.left <= i32::MAX,
        i32::MIN <= r.bottom - r.top <= i32::MAX,
        i32::MIN < r.right - r.left - text_w <= i32::MAX,
        i32::MIN < r.bottom - r.top - text_h <= i32::MAX,
        i32::MIN <= r.left + half(r.right - r.left - text_w) <= i32::MAX,
        i32::MIN <= r.top + half(r.bottom - r.top - text_h) <= i32::MAX,
        r.left <= i32::MAX - 2,
    ensures
        p.0 == {
            let x = r.left + half(r.right - r.left - text_w);
            if x >= r.left + 2 {
                x
            } else {
                r.left + 2
            }
        },
        p.1 == r.top + half(r.bottom - r.top - text_h),
{
    let x: i32 = r.left + half_of(r.right - r.left - text_w);
    let y: i32 = r.top + half_of(r.bottom - r.top - text_h);
    if x >= r.left + 2 {
        (x, y)
    } else {
        (r.left + 2, y)
    }
}

fn half_of(n: i32) -> (r: i32)
    requires
        n > i32::MIN,
    ensures
        r == half(n as int),
{
    if n >= 0 {
        n / 2
    } else {
        let m: i32 = -n;
        -(m / 2)
    }
}

/// A line of text.
pub struct Label {
    pub x: i32,
    pub y: i32,
    pub w: i32,
    pub color: Rgb,
    pub text: String,
}

impl Label {
    pub fn new(x: i32, y: i32, w: i32, color: Rgb, text: &str) -> (r: Self)
        ensures
            r.x == x && r.y == y && r.w == w && r.color == color,
            r.text@ == text@,
    {
        Self { x, y, w, color, text: text.to_owned() }
    }
}

/// Place of the close button: 30 by 30 pixels, at the right of a title bar of
/// width `w`.
pub open spec fn close_area(w: i32) -> Rect {
    Rect { left: (w - 30) as i32, top: 4, right: w, bottom: 34 }
}

/// Place of the close button: 30 by 30 pixels, at the right of a title bar of
/// width `w`.
pub fn close_rect(w: i32) -> (r: Rect)
    requires
        w >= i32::MIN + 30,
    ensures
        r == close_area(w),
{
    Rect { left: w - 30, top: 4, right: w, bottom: 34 }
}

/// Whether a pixel lies on the close button.
pub fn hit_close(w: i32, x: i32, y: i32) -> (r: bool)
    requires
        w >= i32::MIN + 30,
    ensures
        r == close_area(w).holds(x, y),
{
    let c: Rect = close_rect(w);
    c.contains(x, y)
}

/// Whether a pixel row lies in the title bar, by which a dialog is moved.
pub fn hit_titlebar(y: i32) -> (r: bool)
    ensures
        r == (0 <= y < TITLE_H),
{
    y >= 0 && y < TITLE_H
}

/// Place of a tooltip for a text of width `text_w`: above the pointer, on its
/// right, or on its left near the right edge of the screen.
pub fn tooltip_rect(x: i32, y: i32, text_w: i32) -> (r: Rect)
    requires
        0 <= text_w <= i32::MAX - 16,
        x + text_w + 16 <= i32::MAX,
        x - (text_w + 16) - 8 >= i32::MIN,
        y >= i32::MIN + TOOLTIP_H + 8,
    ensures
        r.right == r.left + text_w + 16,
        r.top == y - TOOLTIP_H - 8,
        r.bottom == y - 8,
        r.left == if x + text_w + 16 > TOOLTIP_RIGHT {
            x - (text_w + 16) - 8
        } else {
            x + 12
        },
{
    let w: i32 = text_w + 16;
    let left: i32 = if x + w > TOOLTIP_RIGHT {
        x - w - 8
    } else {
        x + 12
    };
    Rect { left, top: y - TOOLTIP_H - 8, right: left + w, bottom: y - 8 }
}

// ---------------------------------------------------------------------------
// Laws
// ---------------------------------------------------------------------------

/// A button has the colour of its kind, which gives way where the pointer is on it, where
/// it is pressed and where it cannot be used.
pub proof fn law_buttons_have_the_colour_of_their_kind(
    b: &Button,
    theme: &ThemeColors,
    base: Rgb,
    r: (Rgb, Rgb),
    hover: Rgb,
    dark: Rgb,
)
    requires
        call_ensures(Button::base_color, (b, theme), base),
        call_ensures(Button::colors, (b, theme), r),
        call_ensures(Rgb::blend, (&base, theme.bg_hover, 90), hover),
        call_ensures(Rgb::blend, (&base, Rgb { r: 0, g: 0, b: 0 }, 40), dark),
    ensures
        b.kind is Primary ==> base == theme.btn_primary,
        b.kind is Secondary ==> base == theme.bg_tertiary,
        b.kind is Danger ==> base == theme.btn_danger,
        b.kind is Neutral ==> base == theme.btn_neutral,
        b.state is Normal ==> r.0 == base,
        b.state is Hover ==> r.0 == hover,
        b.state is Pressed ==> r.0 == dark,
        b.state is Disabled ==> r.0 == theme.bg_tertiary && r.1 == theme.text_disabled,
        !(b.state is Disabled) ==> r.1 == theme.text_primary,
{
}

/// A new button is neither pressed nor pointed at and is hit where it stands.
pub proof fn law_buttons_are_hit_where_they_stand(
    rect: Rect,
    kind: BtnKind,
    text: &str,
    b: Button,
    x: i32,
    y: i32,
    r: bool,
)
    requires
        call_ensures(Button::new, (rect, kind, text), b),
        call_ensures(Button::contains, (&b, x, y), r),
    ensures
        b.state is Normal && b.kind == kind && b.label@ == text@,
        r == (rect.left <= x && x <= rect.right && rect.top <= y && y <= rect.bottom),
{
}

/// A text stands in the middle of its place, with the same room on both sides, and is not
/// nearer than two pixels to its left edge.
pub proof fn law_texts_stand_in_the_middle(r: &Rect, text_w: i32, text_h: i32, p: (i32, i32))
    requires
        call_ensures(centered, (r, text_w, text_h), p),
        r.left + 4 + text_w <= r.right,
        r.top + text_h <= r.bottom,
        0 <= text_w && 0 <= text_h,
        r.right - r.left <= i32::MAX,
        r.bottom - r.top <= i32::MAX,
    ensures
        0 <= (r.right - (p.0 + text_w)) - (p.0 - r.left) <= 1,
        0 <= (r.bottom - (p.1 + text_h)) - (p.1 - r.top) <= 1,
        p.0 >= r.left + 2,
{
}

/// The button that closes a window stands in its upper right corner, and the bar with the
/// title is above everything else.
pub proof fn law_windows_are_closed_in_the_corner(
    w: i32,
    x: i32,
    y: i32,
    rect: Rect,
    r: bool,
    title: bool,
)
    requires
        call_ensures(close_rect, (w,), rect),
        call_ensures(hit_close, (w, x, y), r),
        call_ensures(hit_titlebar, (y,), title),
        w >= i32::MIN + 30,
    ensures
        rect.right == w && rect.left == w - 30 && rect.top == 4 && rect.bottom == 34,
        r == (w - 30 <= x && x <= w && 4 <= y && y <= 34),
        r ==> title,
        title == (0 <= y && y < 36),
{
}

/// A tip stands above the pointer and as wide as its text needs, right of the pointer or,
/// where there is no room, left of it.
pub proof fn law_tips_stand_beside_the_pointer(x: i32, y: i32, text_w: i32, r: Rect)
    requires
        call_ensures(tooltip_rect, (x, y, text_w), r),
        0 <= text_w <= 1000,
        -10000 <= x <= 10000,
        -10000 <= y <= 10000,
    ensures
        r.right - r.left == text_w + 16,
        r.bottom - r.top == 24,
        r.bottom < y,
        x + text_w + 16 <= 1200 ==> r.left > x,
        x + text_w + 16 > 1200 ==> r.right < x,
{
}

} // verus!
