use vstd::prelude::*;

use crate::num::Integer;

verus! {

/// A color value.
pub trait Color: Copy + Clone {

}

/// An RGBA value with integer channels.
#[derive(Copy, Clone, Debug, PartialEq, Eq)]
pub struct RGBA<T>(pub T, pub T, pub T, pub T);

impl<T: Copy> RGBA<T> {
    /// Maps every channel through a function.
    pub fn map<U, F: Fn(T) -> U>(self, f: F) -> (r: RGBA<U>)
        requires
            call_requires(f, (self.0,)),
            call_requires(f, (self.1,)),
            call_requires(f, (self.2,)),
            call_requires(f, (self.3,)),
        ensures
            call_ensures(f, (self.0,), r.0),
            call_ensures(f, (self.1,), r.1),
            call_ensures(f, (self.2,), r.2),
            call_ensures(f, (self.3,), r.3),
    {
        let nr = f(self.0);
        let ng = f(self.1);
        let nb = f(self.2);
        let na = f(self.3);
        RGBA(nr, ng, nb, na)
    }
}

impl<T: Integer> Color for RGBA<T> {

}

} // verus!
