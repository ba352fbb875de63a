//! The mathematical model of the self-encryption collaborator.
//!
//! The collaborator's results are named by uninterpreted spec functions: the
//! encoding of a byte sequence, the decryption of a single chunk, the
//! serialized form of a key record, and the content hash. The functions here
//! then define, over those names, what it means to resolve a decode key
//! against a store of chunks: the reference semantics that the read state
//! machine is proved to implement.

use vstd::prelude::*;

use crate::data::{ChunkKey, DecodeKeyView};

verus! {

/// Content hash of a byte sequence, as the collaborator computes it. The
/// result depends on the bytes alone.
pub uninterp spec fn hash_of(bytes: Seq<u8>) -> [u8; 32];

/// The encoding the self-encryption collaborator derives from a byte
/// sequence: the decode key of the outermost level, and the contents of
/// every encrypted chunk produced (all levels). The result depends on the
/// bytes alone.
pub uninterp spec fn se_encoding_of(bytes: Seq<u8>) -> (DecodeKeyView, Seq<Seq<u8>>);

/// Decryption of a single chunk, given its position in the chunk sequence,
/// its encrypted content, the pre-encryption hashes of the whole level, and
/// the indirection level. `None` means the collaborator rejects the chunk.
/// The result depends on the arguments alone.
pub uninterp spec fn se_plain(
    index: int,
    content: Seq<u8>,
    src_hashes: Seq<[u8; 32]>,
    child: usize,
) -> Option<Seq<u8>>;

/// The serialized form of a key record. The result depends on the key alone.
pub uninterp spec fn key_record_bytes(key: DecodeKeyView) -> Seq<u8>;

/// Deserialization of a key record; `None` means the bytes are malformed.
/// The result depends on the bytes alone.
pub uninterp spec fn parse_key_record(bytes: Seq<u8>) -> Option<DecodeKeyView>;

/// The decode key of the outermost level of the encoding of `bytes`.
pub open spec fn se_map_of(bytes: Seq<u8>) -> DecodeKeyView {
    se_encoding_of(bytes).0
}

/// The contents of every encrypted chunk of the encoding of `bytes`.
pub open spec fn se_chunks_of(bytes: Seq<u8>) -> Seq<Seq<u8>> {
    se_encoding_of(bytes).1
}

/// The pre-encryption hashes of a level, in chunk order.
pub open spec fn src_hashes_of(key: DecodeKeyView) -> Seq<[u8; 32]> {
    key.keys.map_values(|k: ChunkKey| k.src_hash)
}

/// The indirection level a key's chunks were encrypted at: 0 for a
/// first-level key.
pub open spec fn child_level_of(key: DecodeKeyView) -> usize {
    match key.child {
        Some(l) => l,
        None => 0,
    }
}

/// A store holds the canonical binding for every listed content: each one is
/// retrievable under its own content hash.
pub open spec fn stores_all(store: Map<[u8; 32], Seq<u8>>, contents: Seq<Seq<u8>>) -> bool {
    forall|i: int|
        0 <= i < contents.len() ==> {
            &&& store.dom().contains(hash_of(#[trigger] contents[i]))
            &&& store[hash_of(contents[i])] == contents[i]
        }
}

/// Every chunk the key names is present in the store.
pub open spec fn all_present(key: DecodeKeyView, store: Map<[u8; 32], Seq<u8>>) -> bool {
    forall|j: int|
        0 <= j < key.keys.len() ==> store.dom().contains((#[trigger] key.keys[j]).dst_hash)
}

/// The contents the store binds to the key's chunks, by position.
pub open spec fn drawn(key: DecodeKeyView, store: Map<[u8; 32], Seq<u8>>) -> Seq<Seq<u8>> {
    Seq::new(key.keys.len(), |j: int| store[key.keys[j].dst_hash])
}

/// Decode of the first `n` positions of one level, given contents by
/// position. Each content must carry the hash the key names for it, decrypt
/// successfully, and have its declared pre-encryption size; the decoded
/// pieces concatenate in position order.
pub open spec fn level_decode_prefix(
    key: DecodeKeyView,
    contents: Seq<Seq<u8>>,
    start: int,
    n: int,
) -> Option<Seq<u8>>
    decreases n,
{
    if n <= 0 {
        Some(Seq::empty())
    } else {
        match level_decode_prefix(key, contents, start, n - 1) {
            None => None,
            Some(acc) => {
                let pos = start + n - 1;
                if hash_of(contents[n - 1]) == key.keys[pos].dst_hash {
                    match se_plain(pos, contents[n - 1], src_hashes_of(key), child_level_of(key)) {
                        Some(p) => {
                            if p.len() == key.keys[pos].src_size {
                                Some(acc + p)
                            } else {
                                None
                            }
                        },
                        None => None,
                    }
                } else {
                    None
                }
            },
        }
    }
}

/// Decode of a whole level, given contents by position.
pub open spec fn level_decode(key: DecodeKeyView, contents: Seq<Seq<u8>>) -> Option<Seq<u8>> {
    if contents.len() == key.keys.len() {
        level_decode_prefix(key, contents, 0, key.keys.len() as int)
    } else {
        None
    }
}

/// Resolution of a decode key against a store of chunks: fetch every chunk
/// the key names, decode the level, and, while the key is tagged as an
/// additional indirection level, parse the decoded bytes as the next key
/// record and resolve that. Resolution fails closed on any missing chunk,
/// failed decode, malformed record, ill-formed key, or non-decreasing level
/// tag.
pub open spec fn se_resolve(key: DecodeKeyView, store: Map<[u8; 32], Seq<u8>>) -> Option<Seq<u8>>
    decreases child_level_of(key),
{
    if !all_present(key, store) {
        None
    } else {
        match level_decode(key, drawn(key, store)) {
            None => None,
            Some(bytes) => match key.child {
                None => Some(bytes),
                Some(l) => match parse_key_record(bytes) {
                    None => None,
                    Some(parent) => {
                        if parent.well_formed() && child_level_of(parent) < l {
                            se_resolve(parent, store)
                        } else {
                            None
                        }
                    },
                },
            },
        }
    }
}

} // verus!
