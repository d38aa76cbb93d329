use vstd::prelude::*;

use crate::gfx::input::Action;

verus! {

broadcast use vstd::seq_lib::group_seq_properties;

/// Specifies a mouse button.
#[derive(Copy, Clone, Debug, Eq, PartialEq, Structural)]
pub enum Button {
    Left,
    Middle,
    Right,
}

/// A mouse event's kind.
#[derive(Copy, Clone, Debug, PartialEq, Eq, Structural)]
pub enum Kind {
    /// A button was pressed or released.
    Button(Button, Action),
    Move,
}

/// Information about a mouse event. The position is in pixels.
#[derive(Copy, Clone, Debug, PartialEq, Eq)]
pub struct Info {
    pub position: (i64, i64),
}

impl Info {
    pub fn position(&self) -> (r: (i64, i64))
        ensures
            r == self.position,
    {
        self.position
    }
}

/// A mouse event.
pub type Event = (Kind, Info);

/// Holds mouse state: the pointer position and the buttons held down.
pub struct State {
    position: (i64, i64),
    pressed_buttons: Vec<Button>,
}

impl State {
    /// No button is listed twice.
    pub closed spec fn wf(&self) -> bool {
        self.pressed_buttons@.no_duplicates()
    }

    pub closed spec fn spec_position(&self) -> (i64, i64) {
        self.position
    }

    /// The held buttons, in press order.
    pub closed spec fn spec_pressed(&self) -> Seq<Button> {
        self.pressed_buttons@
    }

    /// A mouse at the origin with nothing pressed.
    pub fn new() -> (r: Self)
        ensures
            r.spec_position() == (0i64, 0i64),
            r.spec_pressed() =~= Seq::<Button>::empty(),
            r.wf(),
    {
        State { position: (0, 0), pressed_buttons: Vec::new() }
    }

    /// Gets the position of the mouse.
    pub fn position(&self) -> (r: (i64, i64))
        ensures
            r == self.spec_position(),
    {
        self.position
    }

    /// Checks if a button is pressed.
    pub fn pressed(&self, button: Button) -> (r: bool)
        ensures
            r == self.spec_pressed().contains(button),
    {
        let mut i: usize = 0;
        #[verifier::loop_isolation(false)]
        while i < self.pressed_buttons.len()
            invariant
                0 <= i <= self.pressed_buttons@.len(),
                forall|j: int| 0 <= j < i ==> self.pressed_buttons@[j] != button,
            decreases self.pressed_buttons@.len() - i,
        {
            if self.pressed_buttons[i] == button {
                return true;
            }
            i = i + 1;
        }
        false
    }

    /// The buttons that are pressed.
    pub fn pressed_buttons(&self) -> (r: &Vec<Button>)
        ensures
            r@ == self.spec_pressed(),
    {
        &self.pressed_buttons
    }

    /// Processes an event: the position is taken over; a press adds the
    /// button (it must not be held), a release removes it (it must be
    /// held).
    pub fn process(&mut self, event: Event)
        requires
            old(self).wf(),
            event.0 matches Kind::Button(b, a) ==> (a is Press ==> !old(self).spec_pressed().contains(
                b,
            )) && (a is Release ==> old(self).spec_pressed().contains(b)),
        ensures
            final (self).wf(),
            final (self).spec_position() == event.1.position,
            event.0 is Move ==> final (self).spec_pressed() == old(self).spec_pressed(),
            event.0 matches Kind::Button(b, a) ==> {
                &&& (a is Press ==> final (self).spec_pressed() == old(self).spec_pressed().push(
                    b,
                ))
                &&& (a is Release ==> final (self).spec_pressed() == old(
                    self,
                ).spec_pressed().remove(old(self).spec_pressed().index_of(b)))
            },
    {
        let (kind, info) = event;
        self.position = info.position;
        match kind {
            Kind::Move => {},
            Kind::Button(button, action) => {
                match action {
                    Action::Press => {
                        self.pressed_buttons.push(button);
                    },
                    Action::Release => {
                        let mut idx: usize = 0;
                        #[verifier::loop_isolation(false)]
                        while idx < self.pressed_buttons.len() && !(self.pressed_buttons[idx]
                            == button)
                            invariant
                                0 <= idx <= self.pressed_buttons@.len(),
                                forall|j: int|
                                    0 <= j < idx ==> self.pressed_buttons@[j] != button,
                                self.pressed_buttons@ == old(self).spec_pressed(),
                            decreases self.pressed_buttons@.len() - idx,
                        {
                            idx = idx + 1;
                        }
                        proof {
                            let s = self.pressed_buttons@;
                            assert(s.contains(button));
                            assert(idx < s.len());
                            assert(s[idx as int] == button);
                            let k = s.index_of(button);
                            assert(0 <= k < s.len() && s[k] == button);
                            assert(k == idx);
                        }
                        self.pressed_buttons.remove(idx);
                        proof {
                            let olds = old(self).spec_pressed();
                            let news = self.pressed_buttons@;
                            assert(news == olds.remove(idx as int));
                            assert forall|a: int, b2: int|
                                0 <= a < b2 < news.len() implies news[a] != news[b2] by {
                                let ia = if a < idx { a } else { a + 1 };
                                let ib = if b2 < idx { b2 } else { b2 + 1 };
                                assert(news[a] == olds[ia]);
                                assert(news[b2] == olds[ib]);
                            }
                            assert(news.no_duplicates());
                        }
                    },
                }
            },
        }
    }
}

} // verus!
