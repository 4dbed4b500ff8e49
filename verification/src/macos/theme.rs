//! The six built-in themes, with an alpha channel in every colour.

use vstd::prelude::*;
use vstd::utf8::{encode_utf8, is_char_boundary};

use crate::hexcolor::{component, component_at, leading_hashes, skip_hashes, without_hashes};
use crate::palettes::{
    channel, channels, palette, theme_name, theme_name_text, DARK_HIGH_CONTRAST, DARK_PRO, DRACULA,
    LIGHT, MONOKAI, SOLARIZED_DARK, THEMES,
};
use crate::text::same_text;

verus! {

broadcast use vstd::string::group_string_axioms;

/// Colour of four channels: red, green, blue, alpha.
#[derive(Debug, Clone, Copy, PartialEq, Eq, Structural)]
pub struct Rgba(pub u8, pub u8, pub u8, pub u8);

impl Rgba {
    /// The colour of a palette entry.
    pub open spec fn of(color: u32) -> Rgba {
        Rgba(channel(color, 0), channel(color, 1), channel(color, 2), channel(color, 3))
    }

    /// The colour with another alpha channel.
    pub fn with_alpha(&self, a: u8) -> (r: Rgba)
        ensures
            r == Rgba(self.0, self.1, self.2, a),
    {
        Rgba(self.0, self.1, self.2, a)
    }
}

/// Reads `#RRGGBB` or `#RRGGBBAA`; hashes in front may be missing. A colour
/// channel that is not two hexadecimal digits becomes 0xAA, a missing or broken
/// alpha channel 0xFF.
pub fn hex(c: &str) -> (r: Rgba)
    requires
        ({
            let digits = without_hashes(encode_utf8(c@));
            let start = leading_hashes(encode_utf8(c@)) as int;
            &&& digits.len() >= 6
            &&& is_char_boundary(encode_utf8(c@), start + 2)
            &&& is_char_boundary(encode_utf8(c@), start + 4)
            &&& is_char_boundary(encode_utf8(c@), start + 6)
            &&& digits.len() >= 8 ==> is_char_boundary(encode_utf8(c@), start + 8)
        }),
    ensures
        ({
            let digits = without_hashes(encode_utf8(c@));
            r == Rgba(
                component(digits, 0, 0xAA),
                component(digits, 2, 0xAA),
                component(digits, 4, 0xAA),
                component(digits, 6, 0xFF),
            )
        }),
{
    let bytes: &[u8] = c.as_bytes();
    let skip: usize = skip_hashes(bytes);
    Rgba(
        component_at(bytes, skip, 0, 0xAA),
        component_at(bytes, skip, 2, 0xAA),
        component_at(bytes, skip, 4, 0xAA),
        component_at(bytes, skip, 6, 0xFF),
    )
}

/// A colour from its channels.
fn rgba(r: u8, g: u8, b: u8, a: u8) -> (c: Rgba)
    ensures
        c == Rgba(r, g, b, a),
{
    Rgba(r, g, b, a)
}

/// The colour of a palette entry.
fn from_palette(color: u32) -> (c: Rgba)
    ensures
        c == Rgba::of(color),
{
    let (r, g, b, a) = channels(color);
    rgba(r, g, b, a)
}

/// The colour slots from which everything is drawn.
#[derive(Debug, Clone, Copy)]
pub struct ThemeColors {
    pub bg_primary: Rgba,
    pub bg_secondary: Rgba,
    pub bg_tertiary: Rgba,
    pub bg_hover: Rgba,
    pub bg_active: Rgba,
    pub text_primary: Rgba,
    pub text_secondary: Rgba,
    pub text_disabled: Rgba,
    pub text_link: Rgba,
    pub line_number: Rgba,
    pub line_number_bg: Rgba,
    pub level_error: Rgba,
    pub level_warn: Rgba,
    pub level_info: Rgba,
    pub level_debug: Rgba,
    pub level_trace: Rgba,
    pub search_highlight: Rgba,
    pub search_current: Rgba,
    pub success: Rgba,
    pub warning: Rgba,
    pub error: Rgba,
    pub info: Rgba,
    pub scrollbar_track: Rgba,
    pub scrollbar_thumb: Rgba,
    pub scrollbar_hover: Rgba,
    pub selection_bg: Rgba,
    pub selection_border: Rgba,
    pub btn_primary: Rgba,
    pub btn_success: Rgba,
    pub btn_danger: Rgba,
    pub btn_neutral: Rgba,
    pub btn_purple: Rgba,
}

impl ThemeColors {
    /// The theme of a palette.
    pub open spec fn of(p: [u32; 32]) -> ThemeColors {
        ThemeColors {
            bg_primary: Rgba::of(p[0]),
            bg_secondary: Rgba::of(p[1]),
            bg_tertiary: Rgba::of(p[2]),
            bg_hover: Rgba::of(p[3]),
            bg_active: Rgba::of(p[4]),
            text_primary: Rgba::of(p[5]),
            text_secondary: Rgba::of(p[6]),
            text_disabled: Rgba::of(p[7]),
            text_link: Rgba::of(p[8]),
            line_number: Rgba::of(p[9]),
            line_number_bg: Rgba::of(p[10]),
            level_error: Rgba::of(p[11]),
            level_warn: Rgba::of(p[12]),
            level_info: Rgba::of(p[13]),
            level_debug: Rgba::of(p[14]),
            level_trace: Rgba::of(p[15]),
            search_highlight: Rgba::of(p[16]),
            search_current: Rgba::of(p[17]),
            success: Rgba::of(p[18]),
            warning: Rgba::of(p[19]),
            error: Rgba::of(p[20]),
            info: Rgba::of(p[21]),
            scrollbar_track: Rgba::of(p[22]),
            scrollbar_thumb: Rgba::of(p[23]),
            scrollbar_hover: Rgba::of(p[24]),
            selection_bg: Rgba::of(p[25]),
            selection_border: Rgba::of(p[26]),
            btn_primary: Rgba::of(p[27]),
            btn_success: Rgba::of(p[28]),
            btn_danger: Rgba::of(p[29]),
            btn_neutral: Rgba::of(p[30]),
            btn_purple: Rgba::of(p[31]),
        }
    }

    /// Makes a theme from a palette.
    fn new(p: &[u32; 32]) -> (r: Self)
        ensures
            r == Self::of(*p),
    {
        Self {
            bg_primary: from_palette(p[0]),
            bg_secondary: from_palette(p[1]),
            bg_tertiary: from_palette(p[2]),
            bg_hover: from_palette(p[3]),
            bg_active: from_palette(p[4]),
            text_primary: from_palette(p[5]),
            text_secondary: from_palette(p[6]),
            text_disabled: from_palette(p[7]),
            text_link: from_palette(p[8]),
            line_number: from_palette(p[9]),
            line_number_bg: from_palette(p[10]),
            level_error: from_palette(p[11]),
            level_warn: from_palette(p[12]),
            level_info: from_palette(p[13]),
            level_debug: from_palette(p[14]),
            level_trace: from_palette(p[15]),
            search_highlight: from_palette(p[16]),
            search_current: from_palette(p[17]),
            success: from_palette(p[18]),
            warning: from_palette(p[19]),
            error: from_palette(p[20]),
            info: from_palette(p[21]),
            scrollbar_track: from_palette(p[22]),
            scrollbar_thumb: from_palette(p[23]),
            scrollbar_hover: from_palette(p[24]),
            selection_bg: from_palette(p[25]),
            selection_border: from_palette(p[26]),
            btn_primary: from_palette(p[27]),
            btn_success: from_palette(p[28]),
            btn_danger: from_palette(p[29]),
            btn_neutral: from_palette(p[30]),
            btn_purple: from_palette(p[31]),
        }
    }
}

/// The default theme, low in contrast.
pub fn dark_pro() -> (r: ThemeColors)
    ensures
        r == ThemeColors::of(DARK_PRO),
{
    ThemeColors::new(&DARK_PRO)
}

/// A dark theme of high contrast.
pub fn dark_high_contrast() -> (r: ThemeColors)
    ensures
        r == ThemeColors::of(DARK_HIGH_CONTRAST),
{
    ThemeColors::new(&DARK_HIGH_CONTRAST)
}

/// A light theme.
pub fn light() -> (r: ThemeColors)
    ensures
        r == ThemeColors::of(LIGHT),
{
    ThemeColors::new(&LIGHT)
}

/// Solarized Dark.
pub fn solarized_dark() -> (r: ThemeColors)
    ensures
        r == ThemeColors::of(SOLARIZED_DARK),
{
    ThemeColors::new(&SOLARIZED_DARK)
}

/// Dracula.
pub fn dracula() -> (r: ThemeColors)
    ensures
        r == ThemeColors::of(DRACULA),
{
    ThemeColors::new(&DRACULA)
}

/// Monokai.
pub fn monokai() -> (r: ThemeColors)
    ensures
        r == ThemeColors::of(MONOKAI),
{
    ThemeColors::new(&MONOKAI)
}

/// The built-in themes with their names.
pub fn all_builtin_themes() -> (r: Vec<(&'static str, ThemeColors)>)
    ensures
        r@.len() == THEMES,
        forall|i: int|
            0 <= i < THEMES ==> (#[trigger] r@[i]).0@ == theme_name_text(i) && r@[i].1
                == ThemeColors::of(palette(i)),
{
    let mut v: Vec<(&'static str, ThemeColors)> = Vec::new();
    v.push((theme_name(0), dark_pro()));
    v.push((theme_name(1), dark_high_contrast()));
    v.push((theme_name(2), light()));
    v.push((theme_name(3), solarized_dark()));
    v.push((theme_name(4), dracula()));
    v.push((theme_name(5), monokai()));
    v
}

/// Theme `i` bears the name `name`.
pub open spec fn bears_name(i: int, name: Seq<char>) -> bool {
    0 <= i < THEMES && theme_name_text(i) == name
}

/// The theme of a name; the default theme for a name that none bears.
pub fn theme_by_name(name: &str) -> (r: ThemeColors)
    ensures
        forall|i: int| #[trigger]
            bears_name(i, name@) && (forall|k: int| 0 <= k < i ==> !bears_name(k, name@)) ==> r
                == ThemeColors::of(palette(i)),
        (forall|i: int| !bears_name(i, name@)) ==> r == ThemeColors::of(DARK_PRO),
{
    let themes: Vec<(&'static str, ThemeColors)> = all_builtin_themes();
    let mut i: usize = 0;
    while i < themes.len()
        invariant
            i <= themes@.len(),
            themes@.len() == THEMES,
            forall|k: int|
                0 <= k < THEMES ==> (#[trigger] themes@[k]).0@ == theme_name_text(k)
                    && themes@[k].1 == ThemeColors::of(palette(k)),
            forall|k: int| 0 <= k < i ==> !bears_name(k, name@),
        decreases themes@.len() - i,
    {
        if same_text(themes[i].0, name) {
            assert(bears_name(i as int, name@));
            return themes[i].1;
        }
        i = i + 1;
    }
    dark_pro()
}

/// Names of the built-in themes, in order.
pub fn theme_names() -> (r: Vec<&'static str>)
    ensures
        r@.len() == THEMES,
        forall|i: int| 0 <= i < THEMES ==> (#[trigger] r@[i])@ == theme_name_text(i),
{
    let mut v: Vec<&'static str> = Vec::new();
    let mut i: usize = 0;
    while i < THEMES
        invariant
            i <= THEMES,
            v@.len() == i,
            forall|k: int| 0 <= k < i ==> (#[trigger] v@[k])@ == theme_name_text(k),
        decreases THEMES - i,
    {
        v.push(theme_name(i));
        i = i + 1;
    }
    v
}

// ---------------------------------------------------------------------------
// Laws
// ---------------------------------------------------------------------------

/// A theme is found by its name, and any other name gives the first one.
pub proof fn law_themes_are_found_by_name(
    i: usize,
    name: &'static str,
    r: ThemeColors,
    all: Vec<(&'static str, ThemeColors)>,
    names: Vec<&'static str>,
)
    requires
        i < 6,
        call_ensures(theme_name, (i,), name),
        call_ensures(theme_by_name, (name,), r),
        call_ensures(all_builtin_themes, (), all),
        call_ensures(theme_names, (), names),
    ensures
        all@.len() == 6 && names@.len() == 6,
        all@[i as int].0@ == name@,
        all@[i as int].1 == r,
        names@[i as int]@ == name@,
{
    assert forall|k: int| 0 <= k < i implies !bears_name(k, name@) by {
        reveal_strlit("Dark Pro");
        reveal_strlit("Dark High Contrast");
        reveal_strlit("Light");
        reveal_strlit("Solarized Dark");
        reveal_strlit("Dracula");
        reveal_strlit("Monokai");
        if theme_name_text(k) == name@ {
            assert(theme_name_text(k).len() == name@.len());
            assert(theme_name_text(k)[0] == name@[0]);
        }
    }
    assert(bears_name(i as int, name@));
    assert(all@[i as int].0@ == theme_name_text(i as int));
    assert(names@[i as int]@ == theme_name_text(i as int));
}

/// A name that no theme has gives the first theme.
pub proof fn law_other_names_give_the_first_theme(name: &str, r: ThemeColors, first: ThemeColors)
    requires
        call_ensures(theme_by_name, (name,), r),
        call_ensures(dark_pro, (), first),
        forall|i: int| 0 <= i < 6 ==> #[trigger] theme_name_text(i) != name@,
    ensures
        r == first,
{
    assert forall|i: int| !bears_name(i, name@) by {}
}

/// The colours of a theme are those of its palette, each in its slot.
pub proof fn law_slots_hold_their_colours(t: ThemeColors, light_theme: ThemeColors)
    requires
        call_ensures(dark_pro, (), t),
        call_ensures(light, (), light_theme),
    ensures
        t.bg_primary == Rgba::of(0x1C1E22_FF),
        t.text_primary == Rgba::of(0xD2D2D2_FF),
        t.level_error == Rgba::of(0xE04754_FF),
        t.level_warn == Rgba::of(0xFEC81E_FF),
        t.level_info == Rgba::of(0x13C27E_FF),
        t.level_debug == Rgba::of(0x77ABEF_FF),
        t.level_trace == Rgba::of(0x9297A1_FF),
        t.search_highlight == Rgba::of(0xF6D48D_FF),
        t.search_current == Rgba::of(0xFF8C00_FF),
        t.selection_bg == Rgba::of(0x3A76DC_8C),
        light_theme.bg_primary == Rgba::of(0xFFFFFF_FF),
        light_theme.text_primary == Rgba::of(0x1A1A1A_FF),
{
    assert(DARK_PRO[0] == 0x1C1E22_FF && DARK_PRO[5] == 0xD2D2D2_FF && DARK_PRO[11] == 0xE04754_FF
        && DARK_PRO[12] == 0xFEC81E_FF && DARK_PRO[13] == 0x13C27E_FF && DARK_PRO[14]
        == 0x77ABEF_FF && DARK_PRO[15] == 0x9297A1_FF && DARK_PRO[16] == 0xF6D48D_FF
        && DARK_PRO[17] == 0xFF8C00_FF && DARK_PRO[25] == 0x3A76DC_8C);
    assert(LIGHT[0] == 0xFFFFFF_FF && LIGHT[5] == 0x1A1A1A_FF);
}

/// Only the opacity of a colour is changed.
pub proof fn law_only_the_opacity_changes(c: &Rgba, a: u8, r: Rgba)
    requires
        call_ensures(Rgba::with_alpha, (c, a), r),
    ensures
        r.0 == c.0 && r.1 == c.1 && r.2 == c.2 && r.3 == a,
{
}

/// A colour that is written in hexadecimal, with or without a hash and an opacity, is read
/// again.
pub proof fn law_written_colours_are_read(
    s: &str,
    bytes: &[u8],
    skip: usize,
    r: Rgba,
    red: u8,
    green: u8,
    blue: u8,
    alpha: u8,
)
    requires
        call_ensures(hex, (s,), r),
        bytes@ == encode_utf8(s@),
        call_ensures(skip_hashes, (bytes,), skip),
        call_ensures(component_at, (bytes, skip, 0, 0xAA), red),
        call_ensures(component_at, (bytes, skip, 2, 0xAA), green),
        call_ensures(component_at, (bytes, skip, 4, 0xAA), blue),
        call_ensures(component_at, (bytes, skip, 6, 0xFF), alpha),
    ensures
        r.0 == red && r.1 == green && r.2 == blue && r.3 == alpha,
{
}

/// Every theme has the colours of its own palette.
pub proof fn law_themes_have_their_palettes(
    a: ThemeColors,
    b: ThemeColors,
    c: ThemeColors,
    d: ThemeColors,
)
    requires
        call_ensures(dark_high_contrast, (), a),
        call_ensures(solarized_dark, (), b),
        call_ensures(dracula, (), c),
        call_ensures(monokai, (), d),
    ensures
        a == ThemeColors::of(DARK_HIGH_CONTRAST),
        b == ThemeColors::of(SOLARIZED_DARK),
        c == ThemeColors::of(DRACULA),
        d == ThemeColors::of(MONOKAI),
{
}

} // verus!
