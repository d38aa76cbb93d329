use vstd::prelude::*;

verus! {

/// The source of a number-related key.
#[derive(Copy, Clone, Debug, PartialEq, Eq, Structural)]
pub enum NumberSource {
    /// The horizontal number row.
    Row,
    /// The number pad.
    Pad,
}

/// The side of the keyboard that was pressed.
#[derive(Copy, Clone, Debug, PartialEq, Eq, Structural)]
pub enum Side {
    Left,
    Right,
}

/// A key on the keyboard.
#[derive(Copy, Clone, Debug, PartialEq, Eq, Structural)]
pub enum Key {
    Space,
    Apostrophe,
    Comma,
    Minus,
    Period,
    Slash,
    Backslash,
    Semicolon,
    Equal,
    GraveAccent,
    /// A number key, from the row or the pad.
    Num(u8, NumberSource),
    A,
    B,
    C,
    D,
    E,
    F,
    G,
    H,
    I,
    J,
    K,
    L,
    M,
    N,
    O,
    P,
    Q,
    R,
    S,
    T,
    U,
    V,
    W,
    X,
    Y,
    Z,
    LeftBracket,
    RightBracket,
    Decimal,
    Divide,
    Multiply,
    Subtract,
    Add,
    Escape,
    Enter,
    Tab,
    Backspace,
    Insert,
    Delete,
    Up,
    Down,
    Left,
    Right,
    PageUp,
    PageDown,
    Home,
    End,
    CapsLock,
    ScrollLock,
    NumLock,
    PrintScreen,
    Pause,
    /// A function key.
    Function(u8),
    Shift(Side),
    Control(Side),
    Alt(Side),
    Super(Side),
    Menu,
}

/// Holds keyboard state.
pub struct State {
    pressed: Vec<Key>,
}

impl State {
    /// The pressed keys, in press order.
    pub closed spec fn spec_pressed(&self) -> Seq<Key> {
        self.pressed@
    }

    /// A keyboard with nothing pressed.
    pub fn new() -> (r: Self)
        ensures
            r.spec_pressed() =~= Seq::<Key>::empty(),
    {
        State { pressed: Vec::new() }
    }

    /// Checks if a key is pressed.
    pub fn pressed(&self, key: Key) -> (r: bool)
        ensures
            r == self.spec_pressed().contains(key),
    {
        let mut i: usize = 0;
        #[verifier::loop_isolation(false)]
        while i < self.pressed.len()
            invariant
                0 <= i <= self.pressed@.len(),
                forall|j: int| 0 <= j < i ==> self.pressed@[j] != key,
            decreases self.pressed@.len() - i,
        {
            if self.pressed[i] == key {
                return true;
            }
            i = i + 1;
        }
        false
    }

    /// The pressed keys.
    pub fn pressed_keys(&self) -> (r: &Vec<Key>)
        ensures
            r@ == self.spec_pressed(),
    {
        &self.pressed
    }
}

} // verus!
