//! A small peer-to-peer network model: nodes, their neighbours, and a
//! network holding them. Transport is left to the caller: a node's
//! connection is any value the caller supplies.

pub mod network;
pub mod p2p;

pub use self::network::{Id, Network, Node};
