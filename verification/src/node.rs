//! The node identity held by the network core.
//!
//! The core of a network node carries its full identity; routing reads the
//! public half and the content-address-sized name derived from it.

use vstd::prelude::*;

verus! {

/// The public half of a node's identity: the name other nodes route by.
#[derive(Clone, Copy, PartialEq, Eq, Debug)]
pub struct PublicId {
    /// The node's name in the content-address space.
    pub name: [u8; 32],
}

impl PublicId {
    /// The node's name.
    pub fn name(&self) -> (r: &[u8; 32])
        ensures
            *r == self.name,
    {
        &self.name
    }
}

/// A node's full identity; only its public half is ever handed out.
#[derive(Clone, Copy, PartialEq, Eq, Debug)]
pub struct FullId {
    /// The public half.
    pub public_id: PublicId,
}

impl FullId {
    /// The public half of the identity.
    pub fn public_id(&self) -> (r: &PublicId)
        ensures
            *r == self.public_id,
    {
        &self.public_id
    }
}

/// Core components of a node: the identity the rest of the node reads.
pub struct Core {
    /// The node's full identity.
    pub full_id: FullId,
}

impl Core {
    /// The node's public identity.
    pub fn id(&self) -> (r: &PublicId)
        ensures
            *r == self.full_id.public_id,
    {
        self.full_id.public_id()
    }

    /// The node's name.
    pub fn name(&self) -> (r: &[u8; 32])
        ensures
            *r == self.full_id.public_id.name,
    {
        self.full_id.public_id().name()
    }
}

} // verus!
