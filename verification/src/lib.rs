//! Client-side logic for storing and retrieving large binary objects
//! ("blobs") on a content-addressed, chunk-based storage network, using a
//! self-encryption scheme that derives encrypted chunks from the content
//! itself.
//!
//! The library is organised around plain values and explicit state machines,
//! so that every decision the client makes is verified:
//!
//! - [`address`] holds the public/private blob address model.
//! - [`data`] holds the chunk, key and error types.
//! - [`model`] names the self-encryption collaborator's results and defines
//!   the reference semantics of key resolution.
//! - [`collaborator`] holds the trusted bridge to the self-encryption crate.
//! - [`shield`] implements the owner capability that wraps private head chunks.
//! - [`codec`] implements the head-chunk wire format.
//! - [`fetch`] implements the fan-in decision of the parallel chunk fetcher.
//! - [`decode`] reassembles and decodes a fetched chunk set.
//! - [`writer`] implements the write-side encoding pipeline.
//! - [`reader`] implements the read state machine (head resolution, data
//!   fetch, full and ranged decode).
//! - [`laws`] states and proves the library-wide properties.
//! - [`node`] holds the node identity used by the network core.
//! - [`section_keys`] holds the section's threshold-signing key material.
//! - [`util`] holds small verified byte-buffer helpers.

pub mod address;
pub mod codec;
pub mod collaborator;
pub mod data;
pub mod decode;
pub mod fetch;
pub mod laws;
pub mod node;
pub mod model;
pub mod reader;
pub mod section_keys;
pub mod shield;
pub mod util;
pub mod writer;

use vstd::prelude::*;

verus! {

/// The smallest byte length the self-encryption collaborator accepts.
pub const MIN_ENCRYPTABLE_BYTES: usize = 3;

/// Upper bound on the number of indirection levels the head-chunk resolver
/// follows before failing closed with `Error::IndirectionTooDeep`.
pub const MAX_INDIRECTION_LEVELS: usize = 32;

} // verus!
