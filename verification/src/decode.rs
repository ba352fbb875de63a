//! Reassembly and decode of a fetched chunk set.
//!
//! A fetched set is decoded position by position: each chunk's content must
//! hash to the address its key names, decrypt successfully, and have its
//! declared pre-encryption size; the decoded pieces are concatenated in
//! position order. Any violation fails the whole decode — no partial or
//! garbled bytes are ever returned.

use vstd::prelude::*;

use crate::collaborator::{content_hash32, se_decrypt_chunk};
use crate::data::{DecodeKey, EncryptedChunk, Error};
use crate::model::{child_level_of, level_decode, level_decode_prefix, se_plain, src_hashes_of};
use crate::util::{bytes32_equal, extend_bytes};

verus! {

broadcast use vstd::array::group_array_axioms;

/// The contents of a chunk sequence, by position.
pub open spec fn contents_view(chunks: Seq<EncryptedChunk>) -> Seq<Seq<u8>> {
    chunks.map_values(|c: EncryptedChunk| c.content@)
}

/// Once a decode prefix has failed, every longer prefix fails too.
pub proof fn lemma_prefix_none(
    key: crate::data::DecodeKeyView,
    contents: Seq<Seq<u8>>,
    start: int,
    m: int,
    n: int,
)
    requires
        0 <= m <= n,
        level_decode_prefix(key, contents, start, m) is None,
    ensures
        level_decode_prefix(key, contents, start, n) is None,
    decreases n - m,
{
    if m < n {
        lemma_prefix_none(key, contents, start, m, n - 1);
    }
}

/// The level's pre-encryption hashes, in chunk order.
pub fn src_hashes_vec(key: &DecodeKey) -> (r: Vec<[u8; 32]>)
    ensures
        r@ == src_hashes_of(key@),
{
    let n = key.keys.len();
    let mut out: Vec<[u8; 32]> = Vec::new();
    let mut i: usize = 0;
    while i < n
        invariant
            0 <= i <= n,
            n == key@.keys.len(),
            out@.len() == i,
            forall|j: int| 0 <= j < i ==> out@[j] == key@.keys[j].src_hash,
        decreases n - i,
    {
        out.push(key.keys[i].src_hash);
        i = i + 1;
    }
    proof {
        assert(out@ =~= src_hashes_of(key@));
    }
    out
}

/// Decodes the chunks at positions `start ..` of the level described by
/// `key`, handed positionally in `chunks`, and returns the concatenation of
/// their decoded bytes. Fails with a self-encryption error exactly when any
/// position fails to verify, decrypt, or match its declared size.
pub fn decode_level_slice(key: &DecodeKey, start: usize, chunks: &Vec<EncryptedChunk>) -> (r:
    Result<Vec<u8>, Error>)
    requires
        start + chunks@.len() <= key@.keys.len(),
    ensures
        match level_decode_prefix(key@, contents_view(chunks@), start as int, chunks@.len() as int) {
            Some(b) => r matches Ok(v) && v@ == b,
            None => r == Err::<Vec<u8>, Error>(Error::SelfEncryption),
        },
{
    let m = chunks.len();
    let n = key.keys.len();
    let hashes = src_hashes_vec(key);
    let child: usize = match key.child {
        Some(l) => l,
        None => 0,
    };
    let ghost contents = contents_view(chunks@);
    let mut out: Vec<u8> = Vec::new();
    let mut j: usize = 0;
    while j < m
        invariant
            0 <= j <= m,
            m == chunks@.len(),
            n == key@.keys.len(),
            start + m <= n,
            contents == contents_view(chunks@),
            hashes@ == src_hashes_of(key@),
            child == child_level_of(key@),
            level_decode_prefix(key@, contents, start as int, j as int) == Some(out@),
        decreases m - j,
    {
        let c = &chunks[j];
        let h = content_hash32(c.content.as_slice());
        let k = key.keys[start + j];
        proof {
            assert(contents[j as int] == chunks@[j as int].content@);
        }
        if !bytes32_equal(&h, &k.dst_hash) {
            proof {
                assert(level_decode_prefix(key@, contents, start as int, j + 1) is None);
                lemma_prefix_none(key@, contents, start as int, j + 1, m as int);
            }
            return Err(Error::SelfEncryption);
        }
        match se_decrypt_chunk(start + j, &c.content, &hashes, child) {
            Ok(p) => {
                if p.len() != k.src_size {
                    proof {
                        assert(level_decode_prefix(key@, contents, start as int, j + 1) is None);
                        lemma_prefix_none(key@, contents, start as int, j + 1, m as int);
                    }
                    return Err(Error::SelfEncryption);
                }
                proof {
                    assert(h@ =~= k.dst_hash@);
                    assert(h == k.dst_hash);
                    let step = se_plain(start + j, contents[j as int], src_hashes_of(key@), child);
                    assert(level_decode_prefix(key@, contents, start as int, j + 1) == Some(
                        out@ + step->0,
                    ));
                }
                extend_bytes(&mut out, p.as_slice());
            },
            Err(_) => {
                proof {
                    assert(level_decode_prefix(key@, contents, start as int, j + 1) is None);
                    lemma_prefix_none(key@, contents, start as int, j + 1, m as int);
                }
                return Err(Error::SelfEncryption);
            },
        }
        j = j + 1;
    }
    Ok(out)
}

/// Decodes a whole level: the full chunk set of `key`, handed positionally.
pub fn decode_level(key: &DecodeKey, chunks: &Vec<EncryptedChunk>) -> (r: Result<Vec<u8>, Error>)
    requires
        chunks@.len() == key@.keys.len(),
    ensures
        match level_decode(key@, contents_view(chunks@)) {
            Some(b) => r matches Ok(v) && v@ == b,
            None => r == Err::<Vec<u8>, Error>(Error::SelfEncryption),
        },
{
    decode_level_slice(key, 0, chunks)
}

} // verus!
