//! Themes: the colour slots and the six built-in themes.
//!
//! The drawing surface has no alpha per pixel, so the colour of the selection is
//! blended with the background when a theme is made.

use vstd::prelude::*;
use vstd::utf8::{encode_utf8, is_ascii_chars, is_ascii_chars_encode_utf8};

use crate::hexcolor::{component, component_at, skip_hashes, without_hashes};
use crate::occurrences::starts_with;
use crate::palettes::{
    channel, channels, palette, theme_name, theme_name_text, DARK_HIGH_CONTRAST, DARK_PRO, DRACULA,
    LIGHT, MONOKAI, SOLARIZED_DARK, THEMES,
};

verus! {

broadcast use vstd::string::group_string_axioms;

/// Colour of three channels.
#[derive(Debug, Clone, Copy, PartialEq, Eq, Structural)]
pub struct Rgb {
    pub r: u8,
    pub g: u8,
    pub b: u8,
}

/// One channel of a colour `fg`, laid with opacity `alpha` over `bg`, rounded to
/// the nearest.
pub open spec fn blend_channel(fg: u8, bg: u8, alpha: u8) -> u8 {
    ((fg * alpha + bg * (255 - alpha) + 127) / 255) as u8
}

impl Rgb {
    /// The colour of a palette entry, without its alpha.
    pub open spec fn of(color: u32) -> Rgb {
        Rgb { r: channel(color, 0), g: channel(color, 1), b: channel(color, 2) }
    }

    /// The colour laid over `bg`.
    pub open spec fn blended(self, bg: Rgb, alpha: u8) -> Rgb {
        Rgb {
            r: blend_channel(self.r, bg.r, alpha),
            g: blend_channel(self.g, bg.g, alpha),
            b: blend_channel(self.b, bg.b, alpha),
        }
    }

    /// Reads `#RRGGBB`; hashes in front may be missing, and a channel that is
    /// not two hexadecimal digits becomes 0xAA.
    pub fn hex(s: &str) -> (r: Self)
        ensures
            ({
                let digits = without_hashes(encode_utf8(s@));
                r == (Rgb {
                    r: component(digits, 0, 0xAA),
                    g: component(digits, 2, 0xAA),
                    b: component(digits, 4, 0xAA),
                })
            }),
    {
        let bytes: &[u8] = s.as_bytes();
        let skip: usize = skip_hashes(bytes);
        Self {
            r: component_at(bytes, skip, 0, 0xAA),
            g: component_at(bytes, skip, 2, 0xAA),
            b: component_at(bytes, skip, 4, 0xAA),
        }
    }

    /// The colour as the drawing interface takes it: 0x00BBGGRR.
    pub fn as_u32(&self) -> (r: u32)
        ensures
            r == self.r + 0x100 * self.g + 0x1_0000 * self.b,
    {
        (self.r as u32) + 0x100 * (self.g as u32) + 0x1_0000 * (self.b as u32)
    }

    /// The colour laid over `bg` with opacity `alpha`.
    pub fn blend(&self, bg: Rgb, alpha: u8) -> (r: Self)
        ensures
            r == self.blended(bg, alpha),
    {
        proof {
            lemma_opaque(self.r, bg.r);
            lemma_opaque(self.g, bg.g);
            lemma_opaque(self.b, bg.b);
        }
        if alpha == 255 {
            return *self;
        }
        Self {
            r: blend_one(self.r, bg.r, alpha),
            g: blend_one(self.g, bg.g, alpha),
            b: blend_one(self.b, bg.b, alpha),
        }
    }
}

proof fn lemma_opaque(fg: u8, bg: u8)
    ensures
        blend_channel(fg, bg, 255) == fg,
{
    assert(fg * 255 + bg * (255 - 255) + 127 == fg * 255 + 127) by (nonlinear_arith);
}

proof fn lemma_blend_bound(fg: u8, bg: u8, alpha: u8)
    ensures
        0 <= fg * alpha + bg * (255 - alpha) <= 255 * 255,
        0 <= fg * alpha,
        0 <= bg * (255 - alpha),
{
    assert(fg * alpha <= 255 * alpha && bg * (255 - alpha) <= 255 * (255 - alpha) && 0 <= fg
        * alpha && 0 <= bg * (255 - alpha)) by (nonlinear_arith)
        requires
            0 <= fg <= 255,
            0 <= bg <= 255,
            0 <= alpha <= 255,
    ;
}

fn blend_one(fg: u8, bg: u8, alpha: u8) -> (r: u8)
    ensures
        r == blend_channel(fg, bg, alpha),
{
    proof {
        lemma_blend_bound(fg, bg, alpha);
    }
    let a: u32 = alpha as u32;
    let x: u32 = fg as u32 * a;
    let y: u32 = bg as u32 * (255 - a);
    let sum: u32 = x + y + 127;
    assert(sum / 255 <= 255);
    (sum / 255) as u8
}

/// The colour slots from which everything is drawn.
#[derive(Debug, Clone, Copy)]
pub struct ThemeColors {
    pub bg_primary: Rgb,
    pub bg_secondary: Rgb,
    pub bg_tertiary: Rgb,
    pub bg_hover: Rgb,
    pub bg_active: Rgb,
    pub text_primary: Rgb,
    pub text_secondary: Rgb,
    pub text_disabled: Rgb,
    pub text_link: Rgb,
    pub line_number: Rgb,
    pub line_number_bg: Rgb,
    pub level_error: Rgb,
    pub level_warn: Rgb,
    pub level_info: Rgb,
    pub level_debug: Rgb,
    pub level_trace: Rgb,
    pub search_highlight: Rgb,
    pub search_current: Rgb,
    pub success: Rgb,
    pub warning: Rgb,
    pub error: Rgb,
    pub info: Rgb,
    pub scrollbar_track: Rgb,
    pub scrollbar_thumb: Rgb,
    pub scrollbar_hover: Rgb,
    pub selection_bg: Rgb,
    pub selection_border: Rgb,
    pub btn_primary: Rgb,
    pub btn_success: Rgb,
    pub btn_danger: Rgb,
    pub btn_neutral: Rgb,
    pub btn_purple: Rgb,
    pub statusbar_bg: Rgb,
    pub statusbar_text: Rgb,
    pub whitespace_marker: Rgb,
    pub indent_guide: Rgb,
}

impl ThemeColors {
    /// The theme of a palette.
    pub open spec fn of(p: [u32; 32]) -> ThemeColors {
        ThemeColors {
            bg_primary: Rgb::of(p[0]),
            bg_secondary: Rgb::of(p[1]),
            bg_tertiary: Rgb::of(p[2]),
            bg_hover: Rgb::of(p[3]),
            bg_active: Rgb::of(p[4]),
            text_primary: Rgb::of(p[5]),
            text_secondary: Rgb::of(p[6]),
            text_disabled: Rgb::of(p[7]),
            text_link: Rgb::of(p[8]),
            line_number: Rgb::of(p[9]),
            line_number_bg: Rgb::of(p[10]),
            level_error: Rgb::of(p[11]),
            level_warn: Rgb::of(p[12]),
            level_info: Rgb::of(p[13]),
            level_debug: Rgb::of(p[14]),
            level_trace: Rgb::of(p[15]),
            search_highlight: Rgb::of(p[16]),
            search_current: Rgb::of(p[17]),
            success: Rgb::of(p[18]),
            warning: Rgb::of(p[19]),
            error: Rgb::of(p[20]),
            info: Rgb::of(p[21]),
            scrollbar_track: Rgb::of(p[22]),
            scrollbar_thumb: Rgb::of(p[23]),
            scrollbar_hover: Rgb::of(p[24]),
            selection_bg: Rgb::of(p[25]).blended(Rgb::of(p[0]), channel(p[25], 3)),
            selection_border: Rgb::of(p[26]),
            btn_primary: Rgb::of(p[27]),
            btn_success: Rgb::of(p[28]),
            btn_danger: Rgb::of(p[29]),
            btn_neutral: Rgb::of(p[30]),
            btn_purple: Rgb::of(p[31]),
            statusbar_bg: Rgb::of(p[1]),
            statusbar_text: Rgb::of(p[6]),
            whitespace_marker: Rgb::of(p[7]),
            indent_guide: Rgb::of(p[3]),
        }
    }

    /// Makes a theme from a palette: the selection is blended with the main
    /// background, and the slots that palettes do not have are filled.
    fn new(p: &[u32; 32]) -> (r: Self)
        ensures
            r == Self::of(*p),
    {
        let alpha: u8 = channels(p[25]).3;
        Self {
            bg_primary: rgb(p[0]),
            bg_secondary: rgb(p[1]),
            bg_tertiary: rgb(p[2]),
            bg_hover: rgb(p[3]),
            bg_active: rgb(p[4]),
            text_primary: rgb(p[5]),
            text_secondary: rgb(p[6]),
            text_disabled: rgb(p[7]),
            text_link: rgb(p[8]),
            line_number: rgb(p[9]),
            line_number_bg: rgb(p[10]),
            level_error: rgb(p[11]),
            level_warn: rgb(p[12]),
            level_info: rgb(p[13]),
            level_debug: rgb(p[14]),
            level_trace: rgb(p[15]),
            search_highlight: rgb(p[16]),
            search_current: rgb(p[17]),
            success: rgb(p[18]),
            warning: rgb(p[19]),
            error: rgb(p[20]),
            info: rgb(p[21]),
            scrollbar_track: rgb(p[22]),
            scrollbar_thumb: rgb(p[23]),
            scrollbar_hover: rgb(p[24]),
            selection_bg: rgb(p[25]).blend(rgb(p[0]), alpha),
            selection_border: rgb(p[26]),
            btn_primary: rgb(p[27]),
            btn_success: rgb(p[28]),
            btn_danger: rgb(p[29]),
            btn_neutral: rgb(p[30]),
            btn_purple: rgb(p[31]),
            statusbar_bg: rgb(p[1]),
            statusbar_text: rgb(p[6]),
            whitespace_marker: rgb(p[7]),
            indent_guide: rgb(p[3]),
        }
    }
}

fn rgb(color: u32) -> (r: Rgb)
    ensures
        r == Rgb::of(color),
{
    let (r, g, b, _a) = channels(color);
    Rgb { r, g, b }
}

/// The default theme, low in contrast.
fn dark_pro() -> (r: ThemeColors)
    ensures
        r == ThemeColors::of(DARK_PRO),
{
    ThemeColors::new(&DARK_PRO)
}

/// A dark theme of high contrast.
fn dark_high_contrast() -> (r: ThemeColors)
    ensures
        r == ThemeColors::of(DARK_HIGH_CONTRAST),
{
    ThemeColors::new(&DARK_HIGH_CONTRAST)
}

/// A light theme.
fn light() -> (r: ThemeColors)
    ensures
        r == ThemeColors::of(LIGHT),
{
    ThemeColors::new(&LIGHT)
}

/// Solarized Dark.
fn solarized_dark() -> (r: ThemeColors)
    ensures
        r == ThemeColors::of(SOLARIZED_DARK),
{
    ThemeColors::new(&SOLARIZED_DARK)
}

/// Dracula.
fn dracula() -> (r: ThemeColors)
    ensures
        r == ThemeColors::of(DRACULA),
{
    ThemeColors::new(&DRACULA)
}

/// Monokai.
fn monokai() -> (r: ThemeColors)
    ensures
        r == ThemeColors::of(MONOKAI),
{
    ThemeColors::new(&MONOKAI)
}

/// Colours of theme `i`; the last theme for any number beyond.
pub fn builtin(i: usize) -> (r: ThemeColors)
    ensures
        r == ThemeColors::of(palette(i as int)),
{
    match i {
        0 => dark_pro(),
        1 => dark_high_contrast(),
        2 => light(),
        3 => solarized_dark(),
        4 => dracula(),
        _ => monokai(),
    }
}

/// Lower case of an ASCII letter; any other byte stays.
pub open spec fn lower(b: u8) -> u8 {
    if 65 <= b <= 90 {
        (b + 32) as u8
    } else {
        b
    }
}

/// Lower case of the ASCII letters among some bytes.
pub open spec fn lowered(u: Seq<u8>) -> Seq<u8> {
    Seq::new(u.len(), |i: int| lower(u[i]))
}

/// Some bytes with their ASCII letters in lower case.
fn to_lower(u: &[u8]) -> (r: Vec<u8>)
    ensures
        r@ == lowered(u@),
{
    let mut v: Vec<u8> = Vec::new();
    let mut i: usize = 0;
    while i < u.len()
        invariant
            i <= u@.len(),
            v@.len() == i,
            forall|k: int| 0 <= k < i ==> #[trigger] v@[k] == lower(u@[k]),
        decreases u@.len() - i,
    {
        let b: u8 = u[i];
        v.push(
            if 65 <= b && b <= 90 {
                b + 32
            } else {
                b
            },
        );
        i = i + 1;
    }
    assert(v@ =~= lowered(u@));
    v
}

/// The name of theme `i` starts with `name`, whatever the case of ASCII letters.
pub open spec fn name_matches(i: int, name: Seq<char>) -> bool {
    lowered(encode_utf8(name)).is_prefix_of(lowered(encode_utf8(theme_name_text(i))))
}

/// Number of the first theme from `i` on whose name starts with `name`; 0 where
/// there is none.
pub open spec fn first_match(name: Seq<char>, i: int) -> int
    decreases THEMES - i,
{
    if i >= THEMES {
        0
    } else if name_matches(i, name) {
        i
    } else {
        first_match(name, i + 1)
    }
}

/// Number of the first theme whose name starts with `name`, whatever the case;
/// 0 where there is none.
pub fn find_index(name: &str) -> (r: usize)
    ensures
        r < THEMES,
        r == first_match(name@, 0),
{
    let wanted: Vec<u8> = to_lower(name.as_bytes());
    let mut i: usize = 0;
    while i < THEMES
        invariant
            i <= THEMES,
            wanted@ == lowered(encode_utf8(name@)),
            first_match(name@, i as int) == first_match(name@, 0),
        decreases THEMES - i,
    {
        let candidate: Vec<u8> = to_lower(theme_name(i).as_bytes());
        if starts_with(candidate.as_slice(), wanted.as_slice()) {
            assert(name_matches(i as int, name@));
            return i;
        }
        i = i + 1;
    }
    0
}

// ---------------------------------------------------------------------------
// Laws
// ---------------------------------------------------------------------------

/// A fully opaque colour hides what is below it, a fully transparent one leaves
/// it as it is.
pub proof fn law_blend_ends(fg: Rgb, bg: Rgb)
    ensures
        fg.blended(bg, 255) == fg,
        fg.blended(bg, 0) == bg,
{
    lemma_opaque(fg.r, bg.r);
    lemma_opaque(fg.g, bg.g);
    lemma_opaque(fg.b, bg.b);
    lemma_transparent(fg.r, bg.r);
    lemma_transparent(fg.g, bg.g);
    lemma_transparent(fg.b, bg.b);
}

proof fn lemma_transparent(fg: u8, bg: u8)
    ensures
        blend_channel(fg, bg, 0) == bg,
{
    assert(fg * 0 + bg * (255 - 0) + 127 == bg * 255 + 127) by (nonlinear_arith);
}

/// The bytes of a theme's name in lower case.
proof fn lemma_name_bytes(i: int)
    requires
        0 <= i < THEMES,
    ensures
        ({
            let name = theme_name_text(i);
            let bytes = lowered(encode_utf8(name));
            &&& bytes.len() == name.len()
            &&& forall|k: int|
                0 <= k < name.len() ==> #[trigger] bytes[k] == lower(name[k] as u8)
        }),
{
    reveal_strlit("Dark Pro");
    reveal_strlit("Dark High Contrast");
    reveal_strlit("Light");
    reveal_strlit("Solarized Dark");
    reveal_strlit("Dracula");
    reveal_strlit("Monokai");
    assert(is_ascii_chars(theme_name_text(i)));
    is_ascii_chars_encode_utf8(theme_name_text(i));
}

/// The place at which the names of two themes differ.
spec fn differ_at(i: int, j: int) -> int {
    if i == 1 && j == 0 {
        5
    } else if i == 4 && j <= 1 {
        2
    } else {
        0
    }
}

/// Every theme is found by its name in any casing: the name matches the theme, and
/// no theme before it.
pub proof fn law_names_find_their_themes(i: int, name: Seq<char>)
    requires
        0 <= i < THEMES,
        lowered(encode_utf8(name)) == lowered(encode_utf8(theme_name_text(i))),
    ensures
        name_matches(i, name),
        forall|j: int| 0 <= j < i ==> !#[trigger] name_matches(j, name),
        first_match(name, 0) == i,
{
    let wanted = lowered(encode_utf8(name));
    assert(wanted.take(wanted.len() as int) =~= wanted);
    assert forall|j: int| 0 <= j < i implies !#[trigger] name_matches(j, name) by {
        reveal_strlit("Dark Pro");
        reveal_strlit("Dark High Contrast");
        reveal_strlit("Light");
        reveal_strlit("Solarized Dark");
        reveal_strlit("Dracula");
        reveal_strlit("Monokai");
        lemma_name_bytes(i);
        lemma_name_bytes(j);
        let other = lowered(encode_utf8(theme_name_text(j)));
        let k = differ_at(i, j);
        assert(wanted[k] == lower(theme_name_text(i)[k] as u8));
        assert(other[k] == lower(theme_name_text(j)[k] as u8));
        assert(wanted[k] != other[k]);
        if wanted.is_prefix_of(other) {
            assert(other.take(wanted.len() as int)[k] == other[k]);
        }
    }
    let r = first_match(name, 0);
    lemma_first_match(name, 0);
    assert(name_matches(i, name));
    if r < i {
        assert(!name_matches(r, name));
    }
}

/// The theme found is the first whose name starts with the text, and the first of
/// all themes where no name does.
pub proof fn law_the_first_match_is_found(name: Seq<char>)
    ensures
        0 <= first_match(name, 0) < THEMES,
        forall|j: int| 0 <= j < first_match(name, 0) ==> !#[trigger] name_matches(j, name),
        (exists|j: int| 0 <= j < THEMES && #[trigger] name_matches(j, name)) ==> name_matches(
            first_match(name, 0),
            name,
        ),
        (forall|j: int| 0 <= j < THEMES ==> !#[trigger] name_matches(j, name)) ==> first_match(
            name,
            0,
        ) == 0,
{
    lemma_first_match(name, 0);
}

proof fn lemma_first_match(name: Seq<char>, i: int)
    requires
        0 <= i <= THEMES,
    ensures
        ({
            let r = first_match(name, i);
            ||| i <= r < THEMES && name_matches(r, name) && forall|j: int|
                i <= j < r ==> !#[trigger] name_matches(j, name)
            ||| r == 0 && forall|j: int| i <= j < THEMES ==> !#[trigger] name_matches(j, name)
        }),
    decreases THEMES - i,
{
    if i < THEMES && !name_matches(i, name) {
        lemma_first_match(name, i + 1);
    }
}

/// Any beginning of the first theme's name finds it, an empty text too.
pub proof fn law_the_first_theme_wins(name: Seq<char>)
    requires
        name.len() == 0 || name_matches(0, name),
    ensures
        first_match(name, 0) == 0,
{
    if name.len() == 0 {
        reveal_with_fuel(encode_utf8, 1);
        assert(lowered(encode_utf8(name)).is_prefix_of(lowered(encode_utf8(theme_name_text(0)))));
    }
}

/// A colour that is laid over another lies between the two: all of it where it is opaque,
/// nothing of it where it is not there at all, and the nearest value in between.
pub proof fn law_colours_are_laid_over_each_other(
    c: &Rgb,
    bg: Rgb,
    alpha: u8,
    r: Rgb,
    full: Rgb,
    none: Rgb,
)
    requires
        call_ensures(Rgb::blend, (c, bg, alpha), r),
        call_ensures(Rgb::blend, (c, bg, 255), full),
        call_ensures(Rgb::blend, (c, bg, 0), none),
    ensures
        full == *c,
        none == bg,
        -255 <= 2 * (255 * r.r - (c.r * alpha + bg.r * (255 - alpha))) <= 255,
        -255 <= 2 * (255 * r.g - (c.g * alpha + bg.g * (255 - alpha))) <= 255,
        -255 <= 2 * (255 * r.b - (c.b * alpha + bg.b * (255 - alpha))) <= 255,
{
    lemma_nearest(c.r, bg.r, alpha);
    lemma_nearest(c.g, bg.g, alpha);
    lemma_nearest(c.b, bg.b, alpha);
    lemma_nearest(c.r, bg.r, 255);
    lemma_nearest(c.g, bg.g, 255);
    lemma_nearest(c.b, bg.b, 255);
    lemma_nearest(c.r, bg.r, 0);
    lemma_nearest(c.g, bg.g, 0);
    lemma_nearest(c.b, bg.b, 0);
}

proof fn lemma_nearest(fg: u8, bg: u8, alpha: u8)
    ensures
        -255 <= 2 * (255 * blend_channel(fg, bg, alpha) - (fg * alpha + bg * (255 - alpha))) <= 255,
{
    let x = fg * alpha + bg * (255 - alpha);
    assert(0 <= x <= 255 * 255) by (nonlinear_arith)
        requires
            x == fg * alpha + bg * (255 - alpha),
            0 <= fg <= 255,
            0 <= bg <= 255,
            0 <= alpha <= 255,
    ;
}

/// A colour is given to the system with red first, then green, then blue.
pub proof fn law_colours_are_given_in_their_order(c: &Rgb, r: u32)
    requires
        call_ensures(Rgb::as_u32, (c,), r),
    ensures
        r % 256 == c.r,
        (r / 256) % 256 == c.g,
        r / 65536 == c.b,
{
}

/// A theme is found by its name, whatever its letters are capital or small.
pub proof fn law_themes_are_found_in_any_case(
    i: usize,
    own: &'static str,
    name: &str,
    r: usize,
    none: &str,
    first: usize,
)
    requires
        i < 6,
        call_ensures(theme_name, (i,), own),
        name@.len() == own@.len(),
        forall|k: int|
            0 <= k < own@.len() ==> same_but_for_case(#[trigger] name@[k], own@[k]),
        call_ensures(find_index, (name,), r),
        none@.len() == 0,
        call_ensures(find_index, (none,), first),
    ensures
        r == i,
        first == 0,
{
    let own_bytes = encode_utf8(own@);
    let bytes = encode_utf8(name@);
    lemma_name_bytes(i as int);
    assert(is_ascii_chars(own@)) by {
        reveal_strlit("Dark Pro");
        reveal_strlit("Dark High Contrast");
        reveal_strlit("Light");
        reveal_strlit("Solarized Dark");
        reveal_strlit("Dracula");
        reveal_strlit("Monokai");
    }
    assert forall|k: int| 0 <= k < own@.len() implies (#[trigger] own@[k] as nat) < 128 by {
        vstd::utf8::is_ascii_chars_nat_bound(own@);
    }
    assert(is_ascii_chars(name@)) by {
        assert forall|k: int| 0 <= k < name@.len() implies (#[trigger] name@[k] as nat) < 128 by {
            assert(same_but_for_case(name@[k], own@[k]));
            assert((own@[k] as nat) < 128);
        }
    }
    is_ascii_chars_encode_utf8(own@);
    is_ascii_chars_encode_utf8(name@);
    assert forall|k: int| 0 <= k < bytes.len() implies lowered(bytes)[k] == lowered(
        own_bytes,
    )[k] by {
        assert(same_but_for_case(name@[k], own@[k]));
        assert(name@[k] as u8 == bytes[k]);
        assert(own@[k] as u8 == own_bytes[k]);
    }
    assert(lowered(bytes) =~= lowered(own_bytes));
    law_names_find_their_themes(i as int, name@);
    law_the_first_theme_wins(none@);
}

/// Two characters are the same, or one letter in both cases.
pub open spec fn same_but_for_case(a: char, b: char) -> bool {
    ||| a == b
    ||| 'A' <= a <= 'Z' && b as int == a as int + 32
    ||| 'A' <= b <= 'Z' && a as int == b as int + 32
}

/// A colour that is written in hexadecimal, with or without a hash, is read again.
pub proof fn law_written_colours_are_read(
    s: &str,
    bytes: &[u8],
    skip: usize,
    r: Rgb,
    red: u8,
    green: u8,
    blue: u8,
)
    requires
        call_ensures(Rgb::hex, (s,), r),
        bytes@ == encode_utf8(s@),
        call_ensures(crate::hexcolor::skip_hashes, (bytes,), skip),
        call_ensures(crate::hexcolor::component_at, (bytes, skip, 0, 0xAA), red),
        call_ensures(crate::hexcolor::component_at, (bytes, skip, 2, 0xAA), green),
        call_ensures(crate::hexcolor::component_at, (bytes, skip, 4, 0xAA), blue),
    ensures
        r.r == red && r.g == green && r.b == blue,
{
}

/// The colours of a theme are those of its palette, each in its slot.
pub proof fn law_slots_hold_their_colours(i: usize, r: ThemeColors, p: [u32; 32])
    requires
        call_ensures(builtin, (i,), r),
        p == palette(i as int),
    ensures
        i == 0 ==> p == DARK_PRO,
        i == 1 ==> p == DARK_HIGH_CONTRAST,
        i == 2 ==> p == LIGHT,
        i == 3 ==> p == SOLARIZED_DARK,
        i == 4 ==> p == DRACULA,
        i == 5 ==> p == MONOKAI,
        r.bg_primary == Rgb::of(p[0]) && r.text_primary == Rgb::of(p[5]),
        r.level_error == Rgb::of(p[11]) && r.level_warn == Rgb::of(p[12]) && r.level_info
            == Rgb::of(p[13]) && r.level_debug == Rgb::of(p[14]) && r.level_trace == Rgb::of(p[15]),
        r.search_highlight == Rgb::of(p[16]) && r.search_current == Rgb::of(p[17]),
{
}

} // verus!
