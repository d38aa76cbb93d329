//! Input handling and small graphics-facing utilities: the key and
//! mouse models, coordinate mapping, and vertex format descriptions.

pub mod input;
pub mod keyboard;
pub mod mouse;
pub mod util;
pub mod vertex;

use vstd::prelude::*;

verus! {

/// Specifies which faces should be culled.
#[derive(Copy, Clone, Debug, PartialEq, Eq, Structural)]
pub enum CullingMode {
    /// Cull front-facing faces.
    Front,
    /// Cull back-facing faces.
    Back,
}

} // verus!
