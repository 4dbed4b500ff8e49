//! Texts and colours that are painted.

use vstd::prelude::*;

use crate::decimal::{human, human_text};
use crate::native::geom::Rect;

verus! {

broadcast use vstd::string::group_string_axioms;

/// Largest unit that sizes are given in: GiB.
pub const TOP_UNIT: u64 = 3;

/// A number of bytes in the unit that fits it, such as `1.50 KiB`.
pub fn human_bytes(n: u64) -> (r: String)
    ensures
        r@ == human_text(n as nat, TOP_UNIT as nat),
{
    human(n, TOP_UNIT)
}

/// Place that a text is clipped to: at least one pixel wide.
pub fn clip_area(x: i32, y: i32, w: i32) -> (r: Rect)
    requires
        x + (if w >= 1 {
            w
        } else {
            1
        }) <= i32::MAX,
        y <= i32::MAX - 1000,
    ensures
        r.left == x && r.top == y,
        r.right == x + (if w >= 1 {
            w
        } else {
            1
        }),
        r.bottom == y + 1000,
{
    let width: i32 = if w >= 1 {
        w
    } else {
        1
    };
    Rect { left: x, top: y, right: x + width, bottom: y + 1000 }
}

// ---------------------------------------------------------------------------
// Laws
// ---------------------------------------------------------------------------

/// Sizes are told in the third unit at most, and a text is clipped to its width.
pub proof fn law_texts_are_clipped_to_their_width(
    n: u64,
    size: String,
    alike: String,
    x: i32,
    y: i32,
    w: i32,
    r: Rect,
)
    requires
        call_ensures(human_bytes, (n,), size),
        call_ensures(crate::decimal::human, (n, 3), alike),
        call_ensures(clip_area, (x, y, w), r),
        y <= i32::MAX - 1000,
        w >= 1,
        x + w <= i32::MAX,
    ensures
        size@ == alike@,
        r.left == x && r.right - r.left == w,
        r.top == y && r.bottom > r.top,
{
}

} // verus!
