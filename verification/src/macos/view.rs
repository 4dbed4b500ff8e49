//! What the pointer does in the text.

use vstd::prelude::*;

use crate::macos::selection::{Selection, TextPoint};

verus! {

/// The part of the state that the pointer changes.
#[derive(Clone, Copy, Debug)]
pub struct PointerState {
    pub selection: Selection,
    pub current_line: u64,
    pub hover_line: Option<u64>,
}

impl PointerState {
    /// Takes in the line under the pointer, if any. Returns whether it changed.
    pub fn mouse_moved(&mut self, line: Option<u64>) -> (r: bool)
        ensures
            *final(self) == (PointerState { hover_line: line, ..*old(self) }),
            r == (line != old(self).hover_line),
    {
        let changed: bool = match (line, self.hover_line) {
            (Some(a), Some(b)) => a != b,
            (None, None) => false,
            _ => true,
        };
        self.hover_line = line;
        changed
    }

    /// Takes in that the pointer left. Returns whether a line was under it.
    pub fn mouse_exited(&mut self) -> (r: bool)
        ensures
            *final(self) == (PointerState { hover_line: None, ..*old(self) }),
            r == old(self).hover_line is Some,
    {
        self.mouse_moved(None)
    }

    /// Takes in a press at a place: with Shift the selection is extended to it,
    /// else one begins there.
    pub fn mouse_down(&mut self, pt: TextPoint, shift: bool)
        ensures
            *final(self) == (PointerState {
                selection: Selection {
                    anchor: if shift && old(self).selection.active {
                        old(self).selection.anchor
                    } else {
                        pt
                    },
                    focus: pt,
                    active: true,
                },
                current_line: pt.line,
                ..*old(self)
            }),
    {
        if !(shift && self.selection.active) {
            self.selection.anchor = pt;
        }
        self.selection.focus = pt;
        self.selection.active = true;
        self.current_line = pt.line;
    }

    /// Takes in that the pointer was dragged to a place.
    pub fn mouse_dragged(&mut self, pt: TextPoint)
        ensures
            *final(self) == (PointerState {
                selection: Selection {
                    anchor: old(self).selection.anchor,
                    focus: pt,
                    active: true,
                },
                current_line: pt.line,
                ..*old(self)
            }),
    {
        self.selection.focus = pt;
        self.selection.active = true;
        self.current_line = pt.line;
    }

    /// Takes in a right click at a place: the word there is selected, nothing
    /// where there is none.
    pub fn right_mouse_down(&mut self, pt: TextPoint, word: Option<(usize, usize)>)
        ensures
            *final(self) == match word {
                Some((s, e)) => PointerState {
                    selection: Selection {
                        anchor: TextPoint { line: pt.line, byte: s },
                        focus: TextPoint { line: pt.line, byte: e },
                        active: true,
                    },
                    current_line: pt.line,
                    ..*old(self)
                },
                None => PointerState {
                    selection: Selection { active: false, ..old(self).selection },
                    ..*old(self)
                },
            },
    {
        match word {
            Some((s, e)) => {
                self.selection = Selection {
                    anchor: TextPoint { line: pt.line, byte: s },
                    focus: TextPoint { line: pt.line, byte: e },
                    active: true,
                };
                self.current_line = pt.line;
            },
            None => {
                self.selection.active = false;
            },
        }
    }

    /// Selects everything up to the end of the last line.
    pub fn select_all(&mut self, last_line: u64, last_len: usize)
        ensures
            *final(self) == (PointerState {
                selection: Selection {
                    anchor: TextPoint { line: 0, byte: 0 },
                    focus: TextPoint { line: last_line, byte: last_len },
                    active: true,
                },
                ..*old(self)
            }),
    {
        self.selection = Selection {
            anchor: TextPoint { line: 0, byte: 0 },
            focus: TextPoint { line: last_line, byte: last_len },
            active: true,
        };
    }
}

/// A click selects nothing that is seen; extending a selection keeps its anchor.
pub proof fn law_click_selects_nothing(sel: Selection, pt: TextPoint, line: u64, line_len: int)
    requires
        sel == (Selection { anchor: pt, focus: pt, active: true }),
    ensures
        sel.range_in_line(line, line_len) is None,
{
    crate::macos::selection::law_collapsed_selects_nothing(sel, line, line_len);
}

/// What is pressed and dragged over is selected, from the place of the press to that of
/// the drag, and the line of the drag is the current one.
pub proof fn law_dragging_selects(
    a: &mut PointerState,
    b: &mut PointerState,
    from: TextPoint,
    to: TextPoint,
    down: (),
    dragged: (),
)
    requires
        call_ensures(PointerState::mouse_down, (a, from, false), down),
        *old(b) == *final(a),
        call_ensures(PointerState::mouse_dragged, (b, to), dragged),
    ensures
        final(a).selection.active && final(a).selection.anchor == final(a).selection.focus,
        final(b).selection.active,
        final(b).selection.anchor == from,
        final(b).selection.focus == to,
        final(a).current_line == from.line,
        final(b).current_line == to.line,
{
}

/// With Shift a press extends the selection that is there as a drag would.
pub proof fn law_shift_extends_as_a_drag_does(
    a: &mut PointerState,
    b: &mut PointerState,
    to: TextPoint,
    down: (),
    dragged: (),
)
    requires
        *old(a) == *old(b),
        old(a).selection.active,
        call_ensures(PointerState::mouse_down, (a, to, true), down),
        call_ensures(PointerState::mouse_dragged, (b, to), dragged),
    ensures
        *final(a) == *final(b),
        final(a).selection.anchor == old(a).selection.anchor,
{
}

/// The line under the pointer is the one that lights up, until the pointer leaves.
pub proof fn law_the_pointer_lights_a_line(
    a: &mut PointerState,
    b: &mut PointerState,
    line: Option<u64>,
    moved: bool,
    left: bool,
)
    requires
        call_ensures(PointerState::mouse_moved, (a, line), moved),
        *old(b) == *final(a),
        call_ensures(PointerState::mouse_exited, (b,), left),
    ensures
        final(a).hover_line == line,
        final(b).hover_line is None,
        !moved ==> *final(a) == *old(a),
        left == line is Some,
        final(b).selection == old(a).selection,
{
}

/// A right click selects the word that it is on, and all of the text can be selected.
pub proof fn law_words_and_all_can_be_selected(
    a: &mut PointerState,
    pt: TextPoint,
    word: (usize, usize),
    clicked: (),
    b: &mut PointerState,
    last_line: u64,
    last_len: usize,
    all: (),
)
    requires
        call_ensures(PointerState::right_mouse_down, (a, pt, Some(word)), clicked),
        call_ensures(PointerState::select_all, (b, last_line, last_len), all),
    ensures
        final(a).selection.active,
        final(a).selection.anchor == (TextPoint { line: pt.line, byte: word.0 }),
        final(a).selection.focus == (TextPoint { line: pt.line, byte: word.1 }),
        final(b).selection.active,
        final(b).selection.anchor.line == 0 && final(b).selection.anchor.byte == 0,
        final(b).selection.focus.line == last_line && final(b).selection.focus.byte == last_len,
        final(b).current_line == old(b).current_line,
{
}

} // verus!
