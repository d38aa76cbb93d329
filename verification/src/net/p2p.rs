use vstd::prelude::*;

use crate::net::network;
use crate::net::network::Id;
use crate::net::network::Node as NetworkNode;

verus! {

broadcast use vstd::seq_lib::group_seq_properties;

/// A node of a peer-to-peer network: its ID, the IDs of its
/// neighbours, and an optional direct connection of the caller's
/// choosing.
pub struct Node<C> {
    id: Id,
    neighbours: Vec<Id>,
    connection: Option<C>,
}

impl<C> Node<C> {
    /// The neighbour IDs, in insertion order.
    pub closed spec fn spec_neighbours(&self) -> Seq<Id> {
        self.neighbours@
    }

    /// The connection, as contracts see it.
    pub closed spec fn spec_connection(&self) -> Option<C> {
        self.connection
    }

    /// Gets the ID of the node.
    pub fn id(&self) -> (r: Id)
        ensures
            r == self.spec_id(),
    {
        self.id
    }

    /// Creates a node with no connections.
    pub fn new(id: Id) -> (r: Self)
        ensures
            r.spec_id() == id,
            r.spec_neighbours() =~= Seq::<Id>::empty(),
            r.spec_connection() is None,
    {
        Node { id, neighbours: Vec::new(), connection: None }
    }

    /// Adds an adjacent node.
    pub fn connect(&mut self, id: Id)
        ensures
            final (self).spec_neighbours() == old(self).spec_neighbours().push(id),
            final (self).spec_id() == old(self).spec_id(),
            final (self).spec_connection() == old(self).spec_connection(),
    {
        self.neighbours.push(id);
    }

    /// Sets the connection.
    pub fn set_connection(&mut self, con: Option<C>)
        ensures
            final (self).spec_connection() == con,
            final (self).spec_id() == old(self).spec_id(),
            final (self).spec_neighbours() == old(self).spec_neighbours(),
    {
        self.connection = con;
    }

    /// The neighbour IDs.
    pub fn neighbour_ids(&self) -> (r: &Vec<Id>)
        ensures
            r@ == self.spec_neighbours(),
    {
        &self.neighbours
    }

    /// True iff this node lists `id` as a neighbour.
    pub fn is_neighbour_of(&self, id: Id) -> (r: bool)
        ensures
            r == self.spec_neighbours().contains(id),
    {
        let mut i: usize = 0;
        #[verifier::loop_isolation(false)]
        while i < self.neighbours.len()
            invariant
                0 <= i <= self.neighbours@.len(),
                forall|j: int| 0 <= j < i ==> self.neighbours@[j] != id,
            decreases self.neighbours@.len() - i,
        {
            if self.neighbours[i] == id {
                return true;
            }
            i = i + 1;
        }
        false
    }
}

impl<C> network::Node for Node<C> {
    closed spec fn spec_id(&self) -> Id {
        self.id
    }

    fn id(&self) -> Id {
        self.id
    }
}

/// A peer-to-peer network: the local node's ID and every known node.
pub struct Network<C> {
    local_id: Id,
    nodes: Vec<Node<C>>,
}

impl<C> Network<C> {
    /// The nodes, as contracts see them.
    pub closed spec fn spec_nodes(&self) -> Seq<Node<C>> {
        self.nodes@
    }

    /// The local node's ID, as contracts see it.
    pub closed spec fn spec_local_id(&self) -> Id {
        self.local_id
    }

    /// Creates an empty network.
    pub fn empty(local_id: Id) -> (r: Self)
        ensures
            r.spec_local_id() == local_id,
            r.spec_nodes() =~= Seq::<Node<C>>::empty(),
    {
        Network { local_id, nodes: Vec::new() }
    }

    /// Adds a node into the network.
    pub fn add(&mut self, node: Node<C>)
        ensures
            final (self).spec_nodes() == old(self).spec_nodes().push(node),
            final (self).spec_local_id() == old(self).spec_local_id(),
    {
        self.nodes.push(node);
    }

    /// The positions of the nodes that list `node` as a neighbour, in
    /// ascending order.
    pub fn neighbours(&self, node: &Node<C>) -> (r: Vec<usize>)
        ensures
            forall|m: int|
                0 <= m < r@.len() ==> (#[trigger] r@[m]) < self.spec_nodes().len()
                    && self.spec_nodes()[r@[m] as int].spec_neighbours().contains(
                    node.spec_id(),
                ),
            forall|w: usize|
                w < self.spec_nodes().len() && self.spec_nodes()[w as int].spec_neighbours().contains(
                    node.spec_id(),
                ) ==> #[trigger] r@.contains(w),
            forall|m1: int, m2: int| 0 <= m1 < m2 < r@.len() ==> r@[m1] < r@[m2],
    {
        let target = node.id();
        let mut r: Vec<usize> = Vec::new();
        let mut i: usize = 0;
        #[verifier::loop_isolation(false)]
        while i < self.nodes.len()
            invariant
                0 <= i <= self.nodes@.len(),
                forall|m: int|
                    0 <= m < r@.len() ==> (#[trigger] r@[m]) < i
                        && self.nodes@[r@[m] as int].spec_neighbours().contains(node.spec_id()),
                forall|w: usize|
                    w < i && self.nodes@[w as int].spec_neighbours().contains(node.spec_id())
                        ==> #[trigger] r@.contains(w),
                forall|m1: int, m2: int| 0 <= m1 < m2 < r@.len() ==> r@[m1] < r@[m2],
            decreases self.nodes@.len() - i,
        {
            if self.nodes[i].is_neighbour_of(target) {
                r.push(i);
            }
            i = i + 1;
        }
        r
    }

    /// The nodes inside the network.
    pub fn nodes(&self) -> (r: &Vec<Node<C>>)
        ensures
            r@ == self.spec_nodes(),
    {
        &self.nodes
    }

    /// Gets the ID of the local node.
    pub fn local_id(&self) -> (r: Id)
        ensures
            r == self.spec_local_id(),
    {
        self.local_id
    }

    /// Performs sanity checking on the graph: every node's ID must be
    /// unique.
    pub fn sanity_check(&self) -> (r: Result<(), String>)
        ensures
            r is Ok <==> forall|i: int, j: int|
                0 <= i < j < self.spec_nodes().len() ==> (#[trigger] self.spec_nodes()[i]).spec_id()
                    != (#[trigger] self.spec_nodes()[j]).spec_id(),
    {
        let n = self.nodes.len();
        let mut i: usize = 0;
        #[verifier::loop_isolation(false)]
        while i < n
            invariant
                0 <= i <= n,
                n == self.nodes@.len(),
                forall|a: int, b: int|
                    0 <= a < b < self.nodes@.len() && a < i ==> (
                    #[trigger] self.nodes@[a]).spec_id() != (#[trigger] self.nodes@[b]).spec_id(),
            decreases n - i,
        {
            let mut j: usize = i + 1;
            while j < n
                invariant
                    0 <= i < j <= n,
                    n == self.nodes@.len(),
                    forall|b: int| i < b < j ==> (#[trigger] self.nodes@[b]).spec_id()
                        != self.nodes@[i as int].spec_id(),
                decreases n - j,
            {
                if self.nodes[j].id() == self.nodes[i].id() {
                    proof {
                        let a = self.spec_nodes()[i as int];
                        let b = self.spec_nodes()[j as int];
                        assert(a.spec_id() == b.spec_id());
                    }
                    return Err(String::from_str("duplicate node id"));
                }
                j = j + 1;
            }
            i = i + 1;
        }
        Ok(())
    }
}

impl<C> network::Network for Network<C> {
    type Node = Node<C>;
}

} // verus!
