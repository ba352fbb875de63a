//! The blob address model: a content-derived name tagged with the namespace
//! scope under which the blob was written.

use vstd::prelude::*;

verus! {

/// The namespace scope of a blob: open (public) or owner-encrypted (private)
/// addressing.
#[derive(Clone, Copy, PartialEq, Eq, Structural, Debug, Hash)]
pub enum Scope {
    /// Open addressing: the head chunk is stored in plaintext.
    Public,
    /// Confidential addressing: the head chunk is wrapped under the owner's
    /// encryption capability before it is stored.
    Private,
}

/// Address of a blob: the content-derived name of its head chunk, tagged with
/// the scope it was written under.
///
/// The total order and the hash are defined over (tag, name), so addresses
/// are usable as map keys. Two writes of identical bytes under the same scope
/// and owner yield the identical address: the name is derived from content
/// alone.
#[derive(Clone, Copy, Eq, PartialEq, Ord, PartialOrd, Hash, Debug)]
pub enum BlobAddress {
    /// Private namespace.
    Private([u8; 32]),
    /// Public namespace.
    Public([u8; 32]),
}

impl BlobAddress {
    /// The content-derived name, regardless of scope.
    pub open spec fn name_spec(&self) -> [u8; 32] {
        match *self {
            BlobAddress::Private(name) => name,
            BlobAddress::Public(name) => name,
        }
    }

    /// The scope encoded by the tag.
    pub open spec fn scope_spec(&self) -> Scope {
        match *self {
            BlobAddress::Private(_) => Scope::Private,
            BlobAddress::Public(_) => Scope::Public,
        }
    }

    /// The name of the head chunk this address points at.
    pub fn name(&self) -> (r: &[u8; 32])
        ensures
            *r == self.name_spec(),
    {
        match self {
            BlobAddress::Private(name) => name,
            BlobAddress::Public(name) => name,
        }
    }

    /// The namespace scope of the blob.
    pub fn scope(&self) -> (r: Scope)
        ensures
            r == self.scope_spec(),
    {
        if self.is_public() {
            Scope::Public
        } else {
            Scope::Private
        }
    }

    /// Returns true if public.
    pub fn is_public(self) -> (r: bool)
        ensures
            r == (self.scope_spec() is Public),
    {
        match self {
            BlobAddress::Public(_) => true,
            BlobAddress::Private(_) => false,
        }
    }

    /// Returns true if private.
    pub fn is_private(self) -> (r: bool)
        ensures
            r == (self.scope_spec() is Private),
    {
        !self.is_public()
    }
}

} // verus!
