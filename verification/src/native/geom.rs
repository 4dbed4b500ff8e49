//! Rectangles of the screen.

use vstd::prelude::*;

verus! {

/// A rectangle in pixels.
#[derive(Clone, Copy, Debug, PartialEq, Eq, Structural)]
pub struct Rect {
    pub left: i32,
    pub top: i32,
    pub right: i32,
    pub bottom: i32,
}

impl Rect {
    /// The pixel lies in the rectangle, its edges among it.
    pub open spec fn holds(self, x: i32, y: i32) -> bool {
        self.left <= x <= self.right && self.top <= y <= self.bottom
    }

    /// The rectangle without extent.
    pub fn empty() -> (r: Self)
        ensures
            r == (Rect { left: 0, top: 0, right: 0, bottom: 0 }),
    {
        Rect { left: 0, top: 0, right: 0, bottom: 0 }
    }

    /// Whether a pixel lies in the rectangle, its edges among it.
    pub fn contains(&self, x: i32, y: i32) -> (r: bool)
        ensures
            r == self.holds(x, y),
    {
        x >= self.left && x <= self.right && y >= self.top && y <= self.bottom
    }
}

/// A point lies in a rectangle where it is neither left nor right of it, nor above nor
/// below.
pub proof fn law_points_lie_in_rectangles(rect: &Rect, x: i32, y: i32, r: bool, e: Rect)
    requires
        call_ensures(Rect::contains, (rect, x, y), r),
        call_ensures(Rect::empty, (), e),
    ensures
        x < rect.left || x > rect.right || y < rect.top || y > rect.bottom ==> !r,
        rect.left <= x && x <= rect.right && rect.top <= y && y <= rect.bottom ==> r,
        e.left == 0 && e.top == 0 && e.right == 0 && e.bottom == 0,
{
}

} // verus!
