use vstd::prelude::*;

use crate::gfx::keyboard;
use crate::gfx::keyboard::Key;
use crate::gfx::mouse;

verus! {

/// A press or a release.
#[derive(Copy, Clone, Debug, PartialEq, Eq, Structural)]
pub enum Action {
    Press,
    Release,
}

/// An input event.
#[derive(Copy, Clone, Debug)]
pub enum Event {
    Key(Key, Action),
    /// A mouse event.
    Mouse(mouse::Event),
}

/// The current input device states. Key events are not handled yet;
/// only mouse events may be processed.
pub struct State {
    keyboard: keyboard::State,
    mouse: mouse::State,
}

impl State {
    pub closed spec fn spec_mouse(&self) -> &mouse::State {
        &self.mouse
    }

    pub closed spec fn spec_keyboard(&self) -> &keyboard::State {
        &self.keyboard
    }

    /// A fresh input state.
    pub fn new() -> (r: Self)
        ensures
            r.spec_keyboard().spec_pressed() =~= Seq::<Key>::empty(),
            r.spec_mouse().spec_pressed() =~= Seq::<mouse::Button>::empty(),
            r.spec_mouse().wf(),
    {
        State { keyboard: keyboard::State::new(), mouse: mouse::State::new() }
    }

    /// Gets the state of the keyboard.
    pub fn keyboard(&self) -> (r: &keyboard::State)
        ensures
            r == self.spec_keyboard(),
    {
        &self.keyboard
    }

    /// Gets the state of the mouse.
    pub fn mouse(&self) -> (r: &mouse::State)
        ensures
            r == self.spec_mouse(),
    {
        &self.mouse
    }

    /// Processes an event and updates the state accordingly.
    pub fn process(&mut self, event: &Event)
        requires
            old(self).spec_mouse().wf(),
            event matches Event::Mouse(e) ==> (e.0 matches mouse::Kind::Button(b, a) ==> (
            a is Press ==> !old(self).spec_mouse().spec_pressed().contains(b)) && (a is Release
                ==> old(self).spec_mouse().spec_pressed().contains(b))),
            !(event is Key),
        ensures
            final (self).spec_mouse().wf(),
            final (self).spec_keyboard().spec_pressed() == old(
                self,
            ).spec_keyboard().spec_pressed(),
            event matches Event::Mouse(e) ==> final (self).spec_mouse().spec_position()
                == e.1.position,
    {
        match event {
            Event::Mouse(e) => self.mouse.process(*e),
            Event::Key(_, _) => {
                proof {
                    assert(false);
                }
            },
        }
    }
}

} // verus!
