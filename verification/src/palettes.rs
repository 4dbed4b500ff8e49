//! Colours of the built-in themes, in the order of the slots of a theme. A
//! colour is written as red, green, blue and alpha, two hexadecimal digits each.

use vstd::prelude::*;

verus! {

broadcast use vstd::string::group_string_axioms;

/// Number of built-in themes.
pub const THEMES: usize = 6;

/// Dark Pro: the default, low in contrast.
pub const DARK_PRO: [u32; 32] = [
    0x1C1E22_FF, 0x23262A_FF, 0x2D3136_FF, 0x383D45_FF, 0x272B31_FF, 0xD2D2D2_FF,
    0xA0A0A0_FF, 0x606060_FF, 0x58A6F5_FF, 0x848484_FF, 0x1C1E22_FF, 0xE04754_FF,
    0xFEC81E_FF, 0x13C27E_FF, 0x77ABEF_FF, 0x9297A1_FF, 0xF6D48D_FF, 0xFF8C00_FF,
    0x3FB950_FF, 0xFEC81E_FF, 0xE04754_FF, 0x58A6F5_FF, 0x2A2E32_FF, 0x888F9F_FF,
    0x9AA4AD_FF, 0x3A76DC_8C, 0x629EF8_FF, 0x2173ED_FF, 0x0F9D59_FF, 0xDA434A_FF,
    0x535B69_FF, 0x855DCC_FF,
];

/// Dark High Contrast.
pub const DARK_HIGH_CONTRAST: [u32; 32] = [
    0x0D0E11_FF, 0x16181D_FF, 0x1F2228_FF, 0x2C3038_FF, 0x1A1D23_FF, 0xF0F0F0_FF,
    0xC0C0C0_FF, 0x707070_FF, 0x6DB8FF_FF, 0x9A9A9A_FF, 0x0D0E11_FF, 0xFF5252_FF,
    0xFFD740_FF, 0x00E676_FF, 0x82B1FF_FF, 0xB0B7C3_FF, 0xFFF176_FF, 0xFF9800_FF,
    0x00E676_FF, 0xFFD740_FF, 0xFF5252_FF, 0x6DB8FF_FF, 0x1A1D23_FF, 0xA0A8B4_FF,
    0xC0C8D4_FF, 0x508CF0_A0, 0x80B8FF_FF, 0x2979FF_FF, 0x00C853_FF, 0xFF1744_FF,
    0x667080_FF, 0x9C6CE0_FF,
];

/// Light.
pub const LIGHT: [u32; 32] = [
    0xFFFFFF_FF, 0xF5F5F5_FF, 0xEBEBEB_FF, 0xE0E0E0_FF, 0xD6D6D6_FF, 0x1A1A1A_FF,
    0x555555_FF, 0x999999_FF, 0x1565C0_FF, 0x888888_FF, 0xFAFAFA_FF, 0xC62828_FF,
    0xF57F17_FF, 0x00695C_FF, 0x1565C0_FF, 0x757575_FF, 0xFFF176_FF, 0xFF8F00_FF,
    0x2E7D32_FF, 0xF57F17_FF, 0xC62828_FF, 0x1565C0_FF, 0xE8E8E8_FF, 0xB0B0B0_FF,
    0x909090_FF, 0x2196F3_50, 0x42A5F5_FF, 0x1976D2_FF, 0x388E3C_FF, 0xD32F2F_FF,
    0x757575_FF, 0x7B1FA2_FF,
];

/// Solarized Dark.
pub const SOLARIZED_DARK: [u32; 32] = [
    0x002B36_FF, 0x073642_FF, 0x0A3D4A_FF, 0x0E4956_FF, 0x05323F_FF, 0x839496_FF,
    0x657B83_FF, 0x586E75_FF, 0x268BD2_FF, 0x586E75_FF, 0x002B36_FF, 0xDC322F_FF,
    0xB58900_FF, 0x859900_FF, 0x268BD2_FF, 0x93A1A1_FF, 0xB58900_FF, 0xCB4B16_FF,
    0x859900_FF, 0xB58900_FF, 0xDC322F_FF, 0x268BD2_FF, 0x073642_FF, 0x586E75_FF,
    0x657B83_FF, 0x268BD2_64, 0x268BD2_FF, 0x268BD2_FF, 0x859900_FF, 0xDC322F_FF,
    0x586E75_FF, 0x6C71C4_FF,
];

/// Dracula.
pub const DRACULA: [u32; 32] = [
    0x282A36_FF, 0x313340_FF, 0x3B3D4D_FF, 0x46495B_FF, 0x343746_FF, 0xF8F8F2_FF,
    0xBFBFB5_FF, 0x6272A4_FF, 0x8BE9FD_FF, 0x6272A4_FF, 0x282A36_FF, 0xFF5555_FF,
    0xFFB86C_FF, 0x50FA7B_FF, 0x8BE9FD_FF, 0xBD93F9_FF, 0xF1FA8C_FF, 0xFFB86C_FF,
    0x50FA7B_FF, 0xFFB86C_FF, 0xFF5555_FF, 0x8BE9FD_FF, 0x313340_FF, 0x6272A4_FF,
    0x7A89C5_FF, 0x8BE9FD_64, 0x8BE9FD_FF, 0xBD93F9_FF, 0x50FA7B_FF, 0xFF5555_FF,
    0x44475A_FF, 0xBD93F9_FF,
];

/// Monokai.
pub const MONOKAI: [u32; 32] = [
    0x272822_FF, 0x2E2F29_FF, 0x383830_FF, 0x44453D_FF, 0x32332D_FF, 0xF8F8F2_FF,
    0xA6A68A_FF, 0x75715E_FF, 0x66D9EF_FF, 0x75715E_FF, 0x272822_FF, 0xF92672_FF,
    0xE6DB74_FF, 0xA6E22E_FF, 0x66D9EF_FF, 0xAE81FF_FF, 0xE6DB74_FF, 0xFD971F_FF,
    0xA6E22E_FF, 0xE6DB74_FF, 0xF92672_FF, 0x66D9EF_FF, 0x2E2F29_FF, 0x75715E_FF,
    0x8B8B70_FF, 0x66D9EF_64, 0x66D9EF_FF, 0x66D9EF_FF, 0xA6E22E_FF, 0xF92672_FF,
    0x49483E_FF, 0xAE81FF_FF,
];

/// Palette of theme `i`; the last one for any number beyond.
pub open spec fn palette(i: int) -> [u32; 32] {
    if i == 0 {
        DARK_PRO
    } else if i == 1 {
        DARK_HIGH_CONTRAST
    } else if i == 2 {
        LIGHT
    } else if i == 3 {
        SOLARIZED_DARK
    } else if i == 4 {
        DRACULA
    } else {
        MONOKAI
    }
}

/// Name of theme `i`; the last one for any number beyond.
pub open spec fn theme_name_text(i: int) -> Seq<char> {
    if i == 0 {
        "Dark Pro"@
    } else if i == 1 {
        "Dark High Contrast"@
    } else if i == 2 {
        "Light"@
    } else if i == 3 {
        "Solarized Dark"@
    } else if i == 4 {
        "Dracula"@
    } else {
        "Monokai"@
    }
}

/// Name of theme `i`.
pub fn theme_name(i: usize) -> (r: &'static str)
    ensures
        r@ == theme_name_text(i as int),
{
    match i {
        0 => "Dark Pro",
        1 => "Dark High Contrast",
        2 => "Light",
        3 => "Solarized Dark",
        4 => "Dracula",
        _ => "Monokai",
    }
}

/// One channel of a colour: 0 for red, 1 for green, 2 for blue, 3 for alpha.
pub open spec fn channel(color: u32, i: int) -> u8 {
    if i == 0 {
        (color / 0x100_0000) as u8
    } else if i == 1 {
        ((color / 0x1_0000) % 0x100) as u8
    } else if i == 2 {
        ((color / 0x100) % 0x100) as u8
    } else {
        (color % 0x100) as u8
    }
}

/// The channels of a colour.
pub fn channels(color: u32) -> (r: (u8, u8, u8, u8))
    ensures
        r == (channel(color, 0), channel(color, 1), channel(color, 2), channel(color, 3)),
{
    (
        (color / 0x100_0000) as u8,
        ((color / 0x1_0000) % 0x100) as u8,
        ((color / 0x100) % 0x100) as u8,
        (color % 0x100) as u8,
    )
}

// ---------------------------------------------------------------------------
// Laws
// ---------------------------------------------------------------------------

/// The six themes have their names, each its own.
pub proof fn law_themes_have_their_names(i: usize, j: usize, a: &'static str, b: &'static str)
    requires
        call_ensures(theme_name, (i,), a),
        call_ensures(theme_name, (j,), b),
        i < 6,
        j < 6,
    ensures
        i == 0 ==> a@ == "Dark Pro"@,
        i == 1 ==> a@ == "Dark High Contrast"@,
        i == 2 ==> a@ == "Light"@,
        i == 3 ==> a@ == "Solarized Dark"@,
        i == 4 ==> a@ == "Dracula"@,
        i == 5 ==> a@ == "Monokai"@,
        a@ == b@ ==> i == j,
{
    reveal_strlit("Dark Pro");
    reveal_strlit("Dark High Contrast");
    reveal_strlit("Light");
    reveal_strlit("Solarized Dark");
    reveal_strlit("Dracula");
    reveal_strlit("Monokai");
    if a@ == b@ {
        assert(a@.len() == b@.len());
        assert(a@[0] == b@[0]);
    }
}

/// A colour is put together from its channels again: red, green, blue and opacity.
pub proof fn law_colours_are_made_of_their_channels(color: u32, r: (u8, u8, u8, u8))
    requires
        call_ensures(channels, (color,), r),
    ensures
        color == r.0 * 0x100_0000 + r.1 * 0x1_0000 + r.2 * 0x100 + r.3,
{
}

} // verus!
