//! The trusted bridge to the self-encryption collaborator.
//!
//! Each function here wraps exactly one function of the `self_encryption`
//! crate; the contracts state what that crate's source shows, over the names
//! declared in [`crate::model`]. Nothing else in the library is trusted.

use vstd::prelude::*;

use crate::data::{ChunkKey, DecodeKey, Error};
use crate::model::{
    hash_of, key_record_bytes, parse_key_record, se_chunks_of, se_encoding_of, se_map_of,
    se_plain, se_resolve, stores_all,
};
use crate::MIN_ENCRYPTABLE_BYTES;

verus! {

/// Relies on `self_encryption::hash::content_hash`: the BLAKE3 content hash
/// of the bytes, a function of the bytes alone.
#[verifier::external_body]
pub fn content_hash32(bytes: &[u8]) -> (r: [u8; 32])
    ensures
        r == hash_of(bytes@),
{
    self_encryption::hash::content_hash(bytes).0
}

/// Relies on `self_encryption::encrypt`: it succeeds exactly on inputs of
/// at least `MIN_ENCRYPTABLE_BYTES` bytes — the size check is its only
/// failure path; the compression, cipher and key-record serialization
/// stages write into fresh in-memory buffers of at most chunk size and
/// cannot fail there — and returns the decode key of the outermost level
/// together with every encrypted chunk produced (the level of the data
/// itself plus every shrinking level), all derived from the input alone —
/// the scheme is deliberately convergent.
///
/// The last clause is the crate's core promise, stated over
/// [`se_resolve`]: resolving the returned key against any store that holds
/// each produced chunk under its own content hash yields the input bytes
/// again. Concretely: the key lists its chunks at their own indices with a
/// `dst_hash` that is the content hash of the produced chunk and sizes that
/// sum to the level's byte length; `decrypt_chunk` inverts the crate's
/// per-chunk encryption, piece lengths match the declared sizes, and the
/// chunks of a level tagged as shrunk decode to the serialization of the
/// one-level-lower key, down to the untagged root, whose chunks decode to
/// the input.
#[verifier::external_body]
pub fn se_encrypt(bytes: &Vec<u8>) -> (r: Result<(DecodeKey, Vec<Vec<u8>>), Error>)
    ensures
        r is Ok <==> bytes@.len() >= MIN_ENCRYPTABLE_BYTES,
        r matches Err(e) ==> e == Error::SelfEncryption,
        r matches Ok(enc) ==> {
            &&& (enc.0@, enc.1@.map_values(|c: Vec<u8>| c@)) == se_encoding_of(bytes@)
            &&& enc.0@ == se_map_of(bytes@)
            &&& enc.1@.map_values(|c: Vec<u8>| c@) == se_chunks_of(bytes@)
            &&& se_map_of(bytes@).well_formed()
            &&& forall|store: Map<[u8; 32], Seq<u8>>|
                stores_all(store, se_chunks_of(bytes@)) ==> se_resolve(
                    se_map_of(bytes@),
                    store,
                ) == Some(bytes@)
        },
{
    match self_encryption::encrypt(bytes::Bytes::from(bytes.clone())) {
        Ok((map, chunks)) => {
            let keys = map.infos().iter().map(|i| ChunkKey {
                index: i.index,
                dst_hash: i.dst_hash.0,
                src_hash: i.src_hash.0,
                src_size: i.src_size,
            }).collect();
            let contents = chunks.into_iter().map(|c| c.content.to_vec()).collect();
            Ok((DecodeKey { keys, child: map.child() }, contents))
        },
        Err(_) => Err(Error::SelfEncryption),
    }
}

/// Relies on `self_encryption::decrypt_chunk`: decryption of one chunk from
/// its position, content, the level's pre-encryption hashes and the
/// indirection level, a function of those arguments alone; it errors exactly
/// where the named result is `None`.
#[verifier::external_body]
pub fn se_decrypt_chunk(
    index: usize,
    content: &Vec<u8>,
    src_hashes: &Vec<[u8; 32]>,
    child: usize,
) -> (r: Result<Vec<u8>, Error>)
    ensures
        match se_plain(index as int, content@, src_hashes@, child) {
            Some(p) => r matches Ok(v) && v@ == p,
            None => r matches Err(e) && e == Error::SelfEncryption,
        },
{
    let hashes: Vec<xor_name::XorName> =
        src_hashes.iter().map(|h| xor_name::XorName(*h)).collect();
    match self_encryption::decrypt_chunk(
        index,
        &bytes::Bytes::from(content.clone()),
        &hashes,
        child,
    ) {
        Ok(b) => Ok(b.to_vec()),
        Err(_) => Err(Error::SelfEncryption),
    }
}

/// Relies on `self_encryption::DataMap::to_bytes`: the serialized form of a
/// key record, a function of the record alone. Serialization writes plain
/// integers and fixed arrays into a fresh vector and cannot fail, and what
/// it writes is what `DataMap::from_bytes` parses back to the same record.
#[verifier::external_body]
pub fn key_record_to_bytes(key: &DecodeKey) -> (r: Vec<u8>)
    ensures
        r@ == key_record_bytes(key@),
        parse_key_record(r@) == Some(key@),
{
    let infos: Vec<self_encryption::ChunkInfo> = key.keys.iter().map(|k| {
        self_encryption::ChunkInfo {
            index: k.index,
            dst_hash: xor_name::XorName(k.dst_hash),
            src_hash: xor_name::XorName(k.src_hash),
            src_size: k.src_size,
        }
    }).collect();
    let map = self_encryption::DataMap { chunk_identifiers: infos, child: key.child };
    map.to_bytes().unwrap_or_default()
}

/// Relies on `self_encryption::DataMap::from_bytes`: deserialization of a
/// key record, a function of the bytes alone; it errors exactly where the
/// named parse is `None`.
#[verifier::external_body]
pub fn key_record_from_bytes(bytes: &Vec<u8>) -> (r: Result<DecodeKey, Error>)
    ensures
        match parse_key_record(bytes@) {
            Some(v) => r matches Ok(k) && k@ == v,
            None => r matches Err(e) && e == Error::Serialization,
        },
{
    match self_encryption::DataMap::from_bytes(bytes) {
        Ok(map) => {
            let keys = map.infos().iter().map(|i| ChunkKey {
                index: i.index,
                dst_hash: i.dst_hash.0,
                src_hash: i.src_hash.0,
                src_size: i.src_size,
            }).collect();
            Ok(DecodeKey { keys, child: map.child() })
        },
        Err(_) => Err(Error::Serialization),
    }
}

} // verus!
