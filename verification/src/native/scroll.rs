//! Scroll state of the view.
//!
//! `y` counts visual rows: without wrapping they are the lines of the file, with
//! wrapping a line counts as `wrap_factor` rows. The factor is a whole number,
//! set with every paint.

use vstd::prelude::*;

use crate::bounds::min_int;

verus! {

/// Largest row number that is handled exactly.
pub const MAX_ROW: u64 = 0x20_0000_0000_0000;

#[derive(Clone, Copy, Debug)]
pub struct ScrollState {
    pub y: i64,
    pub h_scroll: i64,
    /// Rows on a page, set with every paint.
    pub page_size_lines: i64,
    pub wrap_factor: u32,
    pub thumb_dragging: bool,
}

impl Default for ScrollState {
    fn default() -> (r: Self)
        ensures
            r.y == 0 && r.h_scroll == 0 && r.page_size_lines == 0 && r.wrap_factor == 0
                && !r.thumb_dragging,
    {
        ScrollState { y: 0, h_scroll: 0, page_size_lines: 0, wrap_factor: 0, thumb_dragging: false }
    }
}

pub open spec fn at_least_zero(x: int) -> int {
    if x >= 0 {
        x
    } else {
        0
    }
}

impl ScrollState {
    /// Rows that a line counts as.
    pub open spec fn factor(self) -> int {
        if self.wrap_factor >= 1 {
            self.wrap_factor as int
        } else {
            1
        }
    }

    /// Rows of `total` lines, up to the largest that is handled exactly.
    pub open spec fn rows(self, total: u64) -> int {
        min_int(total * self.factor(), MAX_ROW as int)
    }

    /// Furthest row that can stand at the top.
    pub open spec fn last_top(self, total: u64) -> int {
        at_least_zero(self.rows(total) - self.page_size_lines)
    }

    /// Position and page size are in order, and lie in the range handled.
    pub open spec fn wf(self) -> bool {
        &&& 0 <= self.y <= MAX_ROW
        &&& 0 <= self.h_scroll <= MAX_ROW
        &&& 0 <= self.page_size_lines <= MAX_ROW
    }

    /// Rows of `total` lines, up to the largest that is handled exactly.
    fn effective_rows(&self, total: u64) -> (r: i64)
        ensures
            r == self.rows(total),
            0 <= r <= MAX_ROW,
    {
        let f: u64 = if self.wrap_factor >= 1 {
            self.wrap_factor as u64
        } else {
            1
        };
        assert(0 <= total * f <= u64::MAX * u32::MAX) by (nonlinear_arith)
            requires
                0 <= total <= u64::MAX,
                0 <= f <= u32::MAX,
        ;
        let rows: u128 = total as u128 * f as u128;
        if rows <= MAX_ROW as u128 {
            rows as i64
        } else {
            MAX_ROW as i64
        }
    }

    /// Back to the start of a file, without wrapping.
    pub fn reset(&mut self)
        ensures
            *final(self) == (ScrollState { y: 0, h_scroll: 0, wrap_factor: 1, ..*old(self) }),
    {
        self.y = 0;
        self.h_scroll = 0;
        self.wrap_factor = 1;
    }

    /// To the first row.
    pub fn top(&mut self)
        ensures
            *final(self) == (ScrollState { y: 0, ..*old(self) }),
    {
        self.y = 0;
    }

    /// To the last page.
    pub fn bottom(&mut self, total: u64)
        requires
            old(self).wf(),
        ensures
            *final(self) == (ScrollState { y: old(self).last_top(total) as i64, ..*old(self) }),
            final(self).wf(),
    {
        let rows: i64 = self.effective_rows(total);
        let top: i64 = rows - self.page_size_lines;
        self.y = if top >= 0 {
            top
        } else {
            0
        };
    }

    /// To a line.
    pub fn goto_line(&mut self, line: u64)
        ensures
            *final(self) == (ScrollState { y: old(self).rows(line) as i64, ..*old(self) }),
    {
        self.y = self.effective_rows(line);
    }

    /// Down by `delta` rows, up where it is negative; not beyond the start.
    pub fn scroll_by_lines(&mut self, delta: i32)
        requires
            old(self).y + delta <= i64::MAX,
            old(self).y + delta >= i64::MIN,
        ensures
            *final(self) == (ScrollState {
                y: at_least_zero(old(self).y + delta) as i64,
                ..*old(self)
            }),
    {
        let y: i64 = self.y + delta as i64;
        self.y = if y >= 0 {
            y
        } else {
            0
        };
    }

    /// Up by a page, of which a quarter stays in view.
    pub fn page_up(&mut self)
        requires
            old(self).wf(),
        ensures
            *final(self) == (ScrollState {
                y: at_least_zero(
                    old(self).y - old(self).page_size_lines + old(self).page_size_lines / 4,
                ) as i64,
                ..*old(self)
            }),
            final(self).wf(),
    {
        let y: i64 = self.y - self.page_size_lines + self.page_size_lines / 4;
        self.y = if y >= 0 {
            y
        } else {
            0
        };
    }

    /// Down by a page, of which a quarter stays in view; not beyond the last page.
    pub fn page_down(&mut self, total: u64)
        requires
            old(self).wf(),
        ensures
            ({
                let next = old(self).y + old(self).page_size_lines - old(self).page_size_lines / 4;
                *final(self) == (ScrollState {
                    y: (if next <= old(self).last_top(total) {
                        next
                    } else {
                        old(self).last_top(total)
                    }) as i64,
                    ..*old(self)
                })
            }),
            final(self).wf(),
    {
        let rows: i64 = self.effective_rows(total);
        let top: i64 = rows - self.page_size_lines;
        let max_scroll: i64 = if top >= 0 {
            top
        } else {
            0
        };
        let next: i64 = self.y + self.page_size_lines - self.page_size_lines / 4;
        self.y = if next <= max_scroll {
            next
        } else {
            max_scroll
        };
    }

    /// Right by `delta_px` pixels, left where it is negative; not beyond the
    /// left edge.
    pub fn h_scroll_by(&mut self, delta_px: i32)
        requires
            old(self).h_scroll + delta_px <= i64::MAX,
            old(self).h_scroll + delta_px >= i64::MIN,
        ensures
            *final(self) == (ScrollState {
                h_scroll: at_least_zero(old(self).h_scroll + delta_px) as i64,
                ..*old(self)
            }),
    {
        let h: i64 = self.h_scroll + delta_px as i64;
        self.h_scroll = if h >= 0 {
            h
        } else {
            0
        };
    }

    /// Puts a row a third of a page below the top.
    pub fn anchor_row(&mut self, row: i64)
        requires
            0 <= row <= MAX_ROW,
            old(self).wf(),
        ensures
            ({
                let page = if old(self).page_size_lines >= 1 {
                    old(self).page_size_lines as int
                } else {
                    1
                };
                *final(self) == (ScrollState {
                    y: at_least_zero(row - page / 3) as i64,
                    ..*old(self)
                })
            }),
            final(self).wf(),
    {
        let page: i64 = if self.page_size_lines >= 1 {
            self.page_size_lines
        } else {
            1
        };
        let y: i64 = row - page / 3;
        self.y = if y >= 0 {
            y
        } else {
            0
        };
    }
}

// ---------------------------------------------------------------------------
// Laws
// ---------------------------------------------------------------------------

/// Scrolling down and as far up again leads back.
pub proof fn law_scroll_down_and_up(y: int, delta: int)
    requires
        0 <= y,
        0 <= delta,
    ensures
        at_least_zero(at_least_zero(y + delta) - delta) == y,
{
}

/// No row behind the last page can be reached by paging down, and the last page
/// is full where the file is longer than a page.
pub proof fn law_last_page(s: ScrollState, total: u64)
    requires
        s.wf(),
        s.rows(total) >= s.page_size_lines,
    ensures
        s.last_top(total) + s.page_size_lines == s.rows(total),
{
}

/// The start of a file is its first row, and opening one goes there.
pub proof fn law_the_start_is_the_first_row(s: &mut ScrollState, t: &mut ScrollState, a: (), b: ())
    requires
        call_ensures(ScrollState::top, (s,), a),
        call_ensures(ScrollState::reset, (t,), b),
    ensures
        final(s).y == 0,
        final(s).h_scroll == old(s).h_scroll,
        final(s).page_size_lines == old(s).page_size_lines,
        final(t).y == 0,
        final(t).h_scroll == 0,
        final(t).wrap_factor == 1,
        final(t).page_size_lines == old(t).page_size_lines,
{
}

/// At the end of a file its last row is the last on the page; a file that fits on a page
/// is shown from its start.
pub proof fn law_the_end_shows_the_last_page(s: &mut ScrollState, total: u64, done: ())
    requires
        call_ensures(ScrollState::bottom, (s, total), done),
        old(s).wf(),
        old(s).wrap_factor >= 1,
        total * old(s).wrap_factor <= 0x20_0000_0000_0000,
    ensures
        ({
            let rows = total * old(s).wrap_factor;
            let page = old(s).page_size_lines;
            if rows >= page {
                final(s).y + page == rows
            } else {
                final(s).y == 0
            }
        }),
        final(s).h_scroll == old(s).h_scroll,
{
}

/// Going to a line puts it at the top: that many lines, each with its rows, stand above.
pub proof fn law_lines_are_gone_to(s: &mut ScrollState, line: u64, done: ())
    requires
        call_ensures(ScrollState::goto_line, (s, line), done),
        line * old(s).wrap_factor <= 0x20_0000_0000_0000,
    ensures
        old(s).wrap_factor >= 1 ==> final(s).y == line * old(s).wrap_factor,
        old(s).wrap_factor <= 1 && line <= 0x20_0000_0000_0000 ==> final(s).y == line,
        final(s).h_scroll == old(s).h_scroll,
        final(s).page_size_lines == old(s).page_size_lines,
{
    assert(line * 1 == line) by (nonlinear_arith);
}

/// Scrolling moves by as many rows as it says, down where the number is positive, and
/// stops at the start.
pub proof fn law_scrolling_moves_by_rows(s: &mut ScrollState, delta: i32, done: ())
    requires
        call_ensures(ScrollState::scroll_by_lines, (s, delta), done),
        old(s).wf(),
    ensures
        old(s).y + delta >= 0 ==> final(s).y - old(s).y == delta,
        old(s).y + delta < 0 ==> final(s).y == 0,
        final(s).h_scroll == old(s).h_scroll,
{
}

/// Panning moves by as many pixels as it says, and stops at the left edge.
pub proof fn law_panning_moves_by_pixels(s: &mut ScrollState, delta: i32, done: ())
    requires
        call_ensures(ScrollState::h_scroll_by, (s, delta), done),
        old(s).wf(),
    ensures
        old(s).h_scroll + delta >= 0 ==> final(s).h_scroll - old(s).h_scroll == delta,
        old(s).h_scroll + delta < 0 ==> final(s).h_scroll == 0,
        final(s).y == old(s).y,
{
}

/// A page down is three quarters of a page down, and not beyond the last page; a page up
/// from there leads back.
pub proof fn law_pages_keep_a_quarter(
    s: &mut ScrollState,
    total: u64,
    down: (),
    t: &mut ScrollState,
    up: (),
)
    requires
        call_ensures(ScrollState::page_down, (s, total), down),
        call_ensures(ScrollState::page_up, (t,), up),
        old(s).wf(),
        *old(t) == *final(s),
        old(s).y + old(s).page_size_lines <= old(s).rows(total),
    ensures
        old(s).y <= final(s).y,
        4 * (final(s).y - old(s).y) <= 3 * old(s).page_size_lines + 3,
        final(s).y + old(s).page_size_lines <= old(s).rows(total),
        final(s).y + old(s).page_size_lines < old(s).rows(total) ==> 4 * (final(s).y - old(s).y)
            >= 3 * old(s).page_size_lines,
        final(t).y <= old(s).y,
        final(s).y + old(s).page_size_lines < old(s).rows(total) ==> final(t).y == old(s).y,
{
}

/// A page up never goes down, and goes three quarters of a page where there is room.
pub proof fn law_pages_go_up(s: &mut ScrollState, up: ())
    requires
        call_ensures(ScrollState::page_up, (s,), up),
        old(s).wf(),
    ensures
        0 <= final(s).y <= old(s).y,
        4 * (old(s).y - final(s).y) <= 3 * old(s).page_size_lines + 3,
        final(s).y > 0 ==> 4 * (old(s).y - final(s).y) >= 3 * old(s).page_size_lines,
{
}

/// A row that is gone to stands in the upper third of the page, a third below its top
/// where that many rows stand above.
pub proof fn law_anchored_rows_are_in_view(s: &mut ScrollState, row: i64, done: ())
    requires
        call_ensures(ScrollState::anchor_row, (s, row), done),
        old(s).wf(),
        old(s).page_size_lines >= 1,
        0 <= row,
    ensures
        0 <= final(s).y <= row,
        3 * (row - final(s).y) <= old(s).page_size_lines,
        final(s).y > 0 ==> 3 * (row - final(s).y) + 3 > old(s).page_size_lines,
{
}

} // verus!
