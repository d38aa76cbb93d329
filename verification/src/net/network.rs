use vstd::prelude::*;

verus! {

/// A node identifier.
#[derive(Copy, Clone, Debug, PartialEq, Eq, Structural)]
pub struct Id(pub u32);

/// A node in a network.
pub trait Node {
    /// The ID, as contracts see it.
    spec fn spec_id(&self) -> Id;

    /// Gets the ID of the node.
    fn id(&self) -> (r: Id)
        ensures
            r == self.spec_id(),
    ;
}

/// A network.
pub trait Network {
    type Node: Node;
}

} // verus!
