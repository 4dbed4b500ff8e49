//! Frame of a dialog: title bar, close button, buttons, and the messages that
//! every dialog handles alike.

use vstd::prelude::*;

use crate::native::dlg::text_panel::TextViewState;
use crate::native::menu::{wide, wide_text};
use crate::native::msg::VK_ESCAPE;
use crate::native::widgets::{close_area, hit_close, BtnState, Button, TITLE_H};

verus! {

broadcast use vstd::string::group_string_axioms;

/// Place of the button that agrees.
pub const BTN_OK: usize = 0;

/// Place of the button that cancels.
pub const BTN_CANCEL: usize = 1;

/// Name of the class of dialogs, ended by a zero.
pub fn class_name() -> (r: Vec<u16>)
    ensures
        r@ == wide_text("QLogDlg"@),
{
    wide("QLogDlg")
}

/// A dialog that is open.
pub struct DlgCtx {
    pub title: String,
    pub w: i32,
    pub h: i32,
    pub buttons: Vec<Button>,
    /// The pointer is on the close button.
    pub close_hover: bool,
    /// The panel of a dialog that shows a text.
    pub text: Option<TextViewState>,
}

/// What a press in a dialog means.
#[derive(Clone, Copy, PartialEq, Eq, Structural, Debug)]
pub enum DlgPress {
    /// The dialog closes.
    Close,
    /// The text turned a page.
    Paged,
    /// The dialog itself decides.
    Forward,
}

/// All but the states of the buttons is the same.
pub open spec fn same_buttons(a: Seq<Button>, b: Seq<Button>) -> bool {
    &&& a.len() == b.len()
    &&& forall|i: int|
        #![trigger a[i]]
        #![trigger b[i]]
        0 <= i < a.len() ==> a[i].rect == b[i].rect && a[i].kind == b[i].kind && a[i].label
            == b[i].label
}

/// The states of buttons: one where the pixel lies on them, another elsewhere.
pub open spec fn states_by_place(
    buttons: Seq<Button>,
    x: i32,
    y: i32,
    on: BtnState,
    off: BtnState,
) -> bool {
    forall|i: int|
        0 <= i < buttons.len() ==> (#[trigger] buttons[i]).state == if buttons[i].rect.holds(x, y) {
            on
        } else {
            off
        }
}

/// `i` is the first button at a pixel.
pub open spec fn is_button_at(buttons: Seq<Button>, x: i32, y: i32, i: int) -> bool {
    &&& 0 <= i < buttons.len()
    &&& buttons[i].rect.holds(x, y)
    &&& forall|k: int| 0 <= k < i ==> !(#[trigger] buttons[k]).rect.holds(x, y)
}

/// No button holds the point.
pub open spec fn no_button_at(buttons: Seq<Button>, x: i32, y: i32) -> bool {
    forall|i: int| !is_button_at(buttons, x, y, i)
}

/// The button that holds the point, if one does, is not pressed.
pub open spec fn none_pressed_at(buttons: Seq<Button>, x: i32, y: i32) -> bool {
    forall|i: int| #[trigger]
        is_button_at(buttons, x, y, i) ==> buttons[i].state != BtnState::Pressed
}

/// A button has another state than before.
pub open spec fn any_changed(before: Seq<Button>, after: Seq<Button>) -> bool {
    exists|i: int| 0 <= i < before.len() && (#[trigger] after[i]).state != before[i].state
}

/// Sets the states of buttons by whether a pixel lies on them. Returns whether
/// one changed.
fn set_states(buttons: &mut Vec<Button>, x: i32, y: i32, on: BtnState, off: BtnState) -> (r: bool)
    ensures
        same_buttons(final(buttons)@, old(buttons)@),
        states_by_place(final(buttons)@, x, y, on, off),
        r == any_changed(old(buttons)@, final(buttons)@),
{
    let ghost before = buttons@;
    let mut changed: bool = false;
    let mut i: usize = 0;
    while i < buttons.len()
        invariant
            i <= buttons@.len(),
            same_buttons(buttons@, before),
            forall|k: int| i <= k < buttons@.len() ==> #[trigger] buttons@[k] == before[k],
            forall|k: int|
                0 <= k < i ==> (#[trigger] buttons@[k]).state == if before[k].rect.holds(x, y) {
                    on
                } else {
                    off
                },
            changed == exists|k: int|
                0 <= k < i && (#[trigger] buttons@[k]).state != before[k].state,
        decreases buttons@.len() - i,
    {
        let s: BtnState = if buttons[i].contains(x, y) {
            on
        } else {
            off
        };
        let ghost mid = buttons@;
        let ghost was = changed;
        if s != buttons[i].state {
            buttons[i].state = s;
            changed = true;
            assert(buttons@[i as int].state != before[i as int].state);
        }
        proof {
            if was {
                let k = choose|k: int| 0 <= k < i && (#[trigger] mid[k]).state != before[k].state;
                assert(buttons@[k].state != before[k].state);
            }
        }
        i = i + 1;
    }
    changed
}

impl DlgCtx {
    /// The close button has a place, and the text can be scrolled.
    pub open spec fn wf(self) -> bool {
        &&& self.w >= i32::MIN + 30
        &&& self.text is Some ==> self.text->0.wf()
    }

    /// A dialog with a title and buttons.
    pub fn new(title: &str, w: i32, h: i32, buttons: Vec<Button>, text: Option<TextViewState>) -> (r:
        Self)
        requires
            w >= i32::MIN + 30,
            text is Some ==> text->0.wf(),
        ensures
            r.wf(),
            r.title@ == title@,
            r.w == w && r.h == h,
            r.buttons == buttons,
            !r.close_hover,
            r.text == text,
    {
        DlgCtx { title: title.to_owned(), w, h, buttons, close_hover: false, text }
    }

    /// Takes in where the pointer is. Returns whether the dialog has to be
    /// painted anew.
    pub fn on_move(&mut self, x: i32, y: i32) -> (r: bool)
        requires
            old(self).wf(),
        ensures
            final(self).wf(),
            final(self).close_hover == close_area(old(self).w).holds(x, y),
            same_buttons(final(self).buttons@, old(self).buttons@),
            states_by_place(final(self).buttons@, x, y, BtnState::Hover, BtnState::Normal),
            r == (final(self).close_hover != old(self).close_hover || any_changed(
                old(self).buttons@,
                final(self).buttons@,
            )),
            final(self).title == old(self).title,
            final(self).w == old(self).w && final(self).h == old(self).h,
            final(self).text == old(self).text,
    {
        let over: bool = hit_close(self.w, x, y);
        let changed: bool = over != self.close_hover;
        self.close_hover = over;
        let states: bool = set_states(&mut self.buttons, x, y, BtnState::Hover, BtnState::Normal);
        changed || states
    }

    /// Takes in a press.
    pub fn on_press(&mut self, x: i32, y: i32) -> (r: DlgPress)
        requires
            old(self).wf(),
        ensures
            final(self).wf(),
            r == if close_area(old(self).w).holds(x, y) {
                DlgPress::Close
            } else if old(self).text is Some && old(self).text->0.turns_page(x, y) {
                DlgPress::Paged
            } else {
                DlgPress::Forward
            },
            r != DlgPress::Forward ==> final(self).buttons == old(self).buttons,
            r == DlgPress::Forward ==> same_buttons(final(self).buttons@, old(self).buttons@)
                && states_by_place(
                final(self).buttons@,
                x,
                y,
                BtnState::Pressed,
                BtnState::Hover,
            ),
            r != DlgPress::Paged ==> final(self).text == old(self).text,
            r == DlgPress::Paged ==> final(self).text is Some && final(self).text->0.scroll == old(
                self,
            ).text->0.page_turned(y) && final(self).text->0.lines == old(self).text->0.lines,
            final(self).title == old(self).title,
            final(self).w == old(self).w && final(self).h == old(self).h,
            final(self).close_hover == old(self).close_hover,
    {
        if hit_close(self.w, x, y) {
            return DlgPress::Close;
        }
        let mut paged: bool = false;
        let text: Option<TextViewState> = self.text.take();
        match text {
            Some(mut t) => {
                paged = t.press(x, y);
                self.text = Some(t);
            },
            None => {},
        }
        if paged {
            return DlgPress::Paged;
        }
        let _ = set_states(&mut self.buttons, x, y, BtnState::Pressed, BtnState::Hover);
        DlgPress::Forward
    }

    /// Scrolls the text by the wheel. Returns whether there is one.
    pub fn on_wheel(&mut self, delta: i32) -> (r: bool)
        requires
            old(self).wf(),
            -0x8000 <= delta < 0x8000,
        ensures
            final(self).wf(),
            r == old(self).text is Some,
            final(self).text is Some == old(self).text is Some,
            r ==> final(self).text->0.lines == old(self).text->0.lines && final(self).text->0.scroll
                == {
                let to = old(self).text->0.scroll - crate::native::msg::trunc_div(delta as int, 120)
                    * crate::native::dlg::text_panel::WHEEL_STEP;
                if to < 0 {
                    0
                } else if to > old(self).text->0.max_scroll {
                    old(self).text->0.max_scroll as int
                } else {
                    to
                }
            },
            final(self).title == old(self).title,
            final(self).w == old(self).w && final(self).h == old(self).h,
            final(self).buttons == old(self).buttons,
            final(self).close_hover == old(self).close_hover,
    {
        let text: Option<TextViewState> = self.text.take();
        match text {
            Some(mut t) => {
                t.wheel(delta);
                self.text = Some(t);
                true
            },
            None => false,
        }
    }

    /// The first button at a pixel.
    pub fn hit_btn(&self, x: i32, y: i32) -> (r: Option<usize>)
        ensures
            match r {
                Some(i) => is_button_at(self.buttons@, x, y, i as int),
                None => no_button_at(self.buttons@, x, y),
            },
    {
        let mut i: usize = 0;
        while i < self.buttons.len()
            invariant
                i <= self.buttons@.len(),
                forall|k: int| 0 <= k < i ==> !(#[trigger] self.buttons@[k]).rect.holds(x, y),
            decreases self.buttons@.len() - i,
        {
            if self.buttons[i].contains(x, y) {
                return Some(i);
            }
            i = i + 1;
        }
        None
    }

    /// Takes in that the pointer was let go: the button at the pixel acts where
    /// it was pressed, and all go back to normal. Returns the button that acts.
    pub fn on_release(&mut self, x: i32, y: i32) -> (r: Option<usize>)
        requires
            old(self).wf(),
        ensures
            final(self).wf(),
            match r {
                Some(i) => is_button_at(old(self).buttons@, x, y, i as int) && old(
                    self,
                ).buttons@[i as int].state == BtnState::Pressed,
                None => none_pressed_at(old(self).buttons@, x, y),
            },
            same_buttons(final(self).buttons@, old(self).buttons@),
            states_by_place(final(self).buttons@, x, y, BtnState::Normal, BtnState::Normal),
            final(self).title == old(self).title,
            final(self).w == old(self).w && final(self).h == old(self).h,
            final(self).close_hover == old(self).close_hover,
            final(self).text == old(self).text,
    {
        let hit: Option<usize> = self.hit_btn(x, y);
        let r: Option<usize> = match hit {
            Some(i) => if self.buttons[i].state == BtnState::Pressed {
                Some(i)
            } else {
                None
            },
            None => None,
        };
        let ghost before = self.buttons@;
        let _ = set_states(&mut self.buttons, x, y, BtnState::Normal, BtnState::Normal);
        proof {
            if hit is Some {
                assert forall|i: int| #[trigger] is_button_at(before, x, y, i) implies i
                    == hit->0 by {
                    if i < hit->0 {
                        assert(!before[i].rect.holds(x, y));
                    } else if i > hit->0 {
                        assert(!before[hit->0 as int].rect.holds(x, y));
                    }
                }
            }
        }
        r
    }
}

/// Whether a key closes a dialog: Escape, in the dialog or one of its parts.
pub fn key_closes(vk: u16, inside: bool) -> (r: bool)
    ensures
        r == (vk == VK_ESCAPE && inside),
{
    vk == VK_ESCAPE && inside
}

/// Whether a pixel is one by which a dialog of width `w` is moved: in the title
/// bar, beside the close button.
pub fn is_caption(w: i32, x: i32, y: i32) -> (r: bool)
    requires
        w >= i32::MIN + 30,
    ensures
        r == (0 <= y < TITLE_H && !close_area(w).holds(x, y)),
{
    y >= 0 && y < TITLE_H && !hit_close(w, x, y)
}

/// A button that is pressed and let go acts: after a press that a dialog gets at
/// a button, the button there is pressed.
pub proof fn law_pressed_button_acts(
    before: Seq<Button>,
    after: Seq<Button>,
    x: i32,
    y: i32,
    i: int,
)
    requires
        same_buttons(after, before),
        states_by_place(after, x, y, BtnState::Pressed, BtnState::Hover),
        is_button_at(before, x, y, i),
    ensures
        is_button_at(after, x, y, i),
        after[i].state == BtnState::Pressed,
{
    assert(after[i].rect == before[i].rect);
    assert forall|k: int| 0 <= k < i implies !(#[trigger] after[k]).rect.holds(x, y) by {
        assert(after[k].rect == before[k].rect);
    }
}

/// Pressing and letting go on a button acts, pressing elsewhere or letting go elsewhere
/// does not, and afterwards no button is pressed.
pub proof fn law_buttons_act_when_let_go(
    a: &mut DlgCtx,
    x: i32,
    y: i32,
    pressed: DlgPress,
    b: &mut DlgCtx,
    u: i32,
    v: i32,
    r: Option<usize>,
    i: int,
)
    requires
        call_ensures(DlgCtx::on_press, (a, x, y), pressed),
        pressed is Forward,
        *old(b) == *final(a),
        call_ensures(DlgCtx::on_release, (b, u, v), r),
        0 <= i < old(a).buttons@.len(),
        forall|k: int|
            #![trigger old(a).buttons@[k]]
            0 <= k < old(a).buttons@.len() ==> old(a).buttons@[k].rect.holds(x, y) == (k == i),
    ensures
        u == x && v == y ==> r == Some(i as usize),
        !old(a).buttons@[i].rect.holds(u, v) ==> r is None,
        r is Some ==> r->0 == i,
        forall|k: int|
            0 <= k < final(b).buttons@.len() ==> (#[trigger] final(b).buttons@[k]).state
                == BtnState::Normal,
        final(b).buttons@.len() == old(a).buttons@.len(),
{
    let mid = final(a).buttons@;
    let start = old(a).buttons@;
    assert(start.len() == old(a).buttons.len());
    assert(mid[i].rect == start[i].rect);
    assert(mid[i].state == BtnState::Pressed);
    assert forall|k: int| 0 <= k < mid.len() && k != i implies (#[trigger] mid[k]).state
        == BtnState::Hover by {
        assert(mid[k].rect == start[k].rect);
        assert(start[k].rect.holds(x, y) == (k == i));
    }
    if u == x && v == y {
        assert forall|k: int| 0 <= k < i implies !(#[trigger] mid[k]).rect.holds(x, y) by {
            assert(mid[k].rect == start[k].rect);
            assert(start[k].rect.holds(x, y) == (k == i));
        }
        assert(is_button_at(mid, x, y, i));
    }
    if r is Some {
        assert(mid[r->0 as int].state == BtnState::Pressed);
    }
}

/// The button under the pointer is lit and the others are not, and the corner lights up
/// where the pointer is in it.
pub proof fn law_the_pointer_lights_the_button(a: &mut DlgCtx, x: i32, y: i32, r: bool, i: int)
    requires
        call_ensures(DlgCtx::on_move, (a, x, y), r),
        0 <= i < old(a).buttons@.len(),
        old(a).w >= i32::MIN + 30,
    ensures
        final(a).buttons@.len() == old(a).buttons@.len(),
        final(a).buttons@[i].rect == old(a).buttons@[i].rect,
        old(a).buttons@[i].rect.holds(x, y) ==> final(a).buttons@[i].state == BtnState::Hover,
        !old(a).buttons@[i].rect.holds(x, y) ==> final(a).buttons@[i].state == BtnState::Normal,
        final(a).close_hover == (old(a).w - 30 <= x && x <= old(a).w && 4 <= y && y <= 34),
        final(a).buttons@[i].state != old(a).buttons@[i].state ==> r,
        final(a).close_hover != old(a).close_hover ==> r,
        final(a).text == old(a).text,
{
    assert(final(a).buttons@[i].rect == old(a).buttons@[i].rect);
}

/// A press in the corner closes the dialog, one beside the thumb turns a page, and any
/// other goes to the dialog; escape closes it, and it is dragged by its title.
pub proof fn law_presses_are_told_apart(
    a: &mut DlgCtx,
    x: i32,
    y: i32,
    r: DlgPress,
    vk: u16,
    inside: bool,
    closes: bool,
    caption: bool,
)
    requires
        call_ensures(DlgCtx::on_press, (a, x, y), r),
        call_ensures(key_closes, (vk, inside), closes),
        call_ensures(is_caption, (old(a).w, x, y), caption),
        old(a).w >= i32::MIN + 30,
    ensures
        (r is Close) == (old(a).w - 30 <= x && x <= old(a).w && 4 <= y && y <= 34),
        r is Paged ==> old(a).text is Some && old(a).text->0.max_scroll > 0 && old(
            a).text->0.track.holds(x, y) && !old(a).text->0.thumb.holds(x, y),
        r is Close || r is Forward ==> final(a).text == old(a).text,
        closes == (vk == 0x1B && inside),
        caption == (0 <= y && y < 36 && !(r is Close)),
{
}

/// The wheel scrolls the text of a dialog as it scrolls any text, and a button is hit where it
/// stands.
pub proof fn law_the_wheel_scrolls_the_text(
    a: &mut DlgCtx,
    notches: i32,
    r: bool,
    d: &DlgCtx,
    x: i32,
    y: i32,
    hit: Option<usize>,
    k: int,
)
    requires
        call_ensures(DlgCtx::on_wheel, (a, (120 * notches) as i32), r),
        -200 <= notches <= 200,
        call_ensures(DlgCtx::hit_btn, (d, x, y), hit),
        0 <= k < d.buttons@.len(),
    ensures
        r == old(a).text is Some,
        r ==> {
            let to = old(a).text->0.scroll - 36 * notches;
            &&& 0 <= to <= old(a).text->0.max_scroll ==> final(a).text->0.scroll == to
            &&& to < 0 ==> final(a).text->0.scroll == 0
        },
        d.buttons@[k].rect.holds(x, y) ==> hit is Some && hit->0 <= k,
        hit is Some ==> hit->0 < d.buttons@.len() && d.buttons@[hit->0 as int].rect.holds(x, y),
{
    assert(crate::native::msg::trunc_div(120 * notches as int, 120) == notches);
    if d.buttons@[k].rect.holds(x, y) && hit is None {
        lemma_first_button(d.buttons@, x, y, k);
    }
}

proof fn lemma_first_button(buttons: Seq<Button>, x: i32, y: i32, k: int)
    requires
        0 <= k < buttons.len(),
        buttons[k].rect.holds(x, y),
    ensures
        exists|i: int| is_button_at(buttons, x, y, i),
    decreases k,
{
    if exists|j: int| 0 <= j < k && (#[trigger] buttons[j]).rect.holds(x, y) {
        let j = choose|j: int| 0 <= j < k && (#[trigger] buttons[j]).rect.holds(x, y);
        lemma_first_button(buttons, x, y, j);
    } else {
        assert(is_button_at(buttons, x, y, k));
    }
}

} // verus!
