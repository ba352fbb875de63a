//! The write-side encoding pipeline.
//!
//! Writing a blob derives its full chunk set and head chunk from the bytes
//! alone: the self-encryption collaborator yields the chunk set and the
//! outermost decode key; the key is framed as the head-chunk payload,
//! wrapped under the owner's capability for private scope, and named by its
//! content hash. Storage dispatch is the caller's concern: every chunk is
//! stored as an independent unit of work, individual store errors are
//! deliberately discarded (content addressing makes re-issuing the whole
//! write safe), and the address is returned once all dispatches have
//! settled — not after network-side durability confirmation.

use vstd::prelude::*;

use crate::address::{BlobAddress, Scope};
use crate::codec::{secret_key_payload, serialize_secret_key};
use crate::collaborator::{content_hash32, se_encrypt};
use crate::data::{Chunk, Error, SecretKey};
use crate::model::{
    hash_of, key_record_bytes, parse_key_record, se_chunks_of, se_map_of, se_resolve, stores_all,
};
use crate::shield::{wrap, wrap_spec, OwnerSecret};
use crate::MIN_ENCRYPTABLE_BYTES;

verus! {

/// The owner capability as a sequence of key bytes, if one was given.
pub open spec fn owner_view(owner: Option<&OwnerSecret>) -> Option<Seq<u8>> {
    match owner {
        Some(o) => Some(o@),
        None => None,
    }
}

/// The head-chunk record of `bytes` before any wrapping: the framed
/// outermost decode key.
pub open spec fn head_record_payload(bytes: Seq<u8>) -> Seq<u8> {
    secret_key_payload(se_map_of(bytes).child is None, se_map_of(bytes))
}

/// The head-chunk payload as stored: wrapped under the owner's capability
/// for private scope, bare for public scope.
pub open spec fn sealed_head_payload(bytes: Seq<u8>, scope: Scope, owner: Option<Seq<u8>>) -> Seq<
    u8,
> {
    if scope is Private {
        wrap_spec(owner->0, head_record_payload(bytes))
    } else {
        head_record_payload(bytes)
    }
}

/// The address a write of `bytes` under `scope` and `owner` yields: the
/// content hash of the sealed head payload, tagged with the scope. A
/// function of its arguments alone — identical inputs always yield the
/// identical address.
pub open spec fn blob_address_of(bytes: Seq<u8>, scope: Scope, owner: Option<Seq<u8>>) -> BlobAddress {
    if scope is Private {
        BlobAddress::Private(hash_of(sealed_head_payload(bytes, scope, owner)))
    } else {
        BlobAddress::Public(hash_of(sealed_head_payload(bytes, scope, owner)))
    }
}

/// Encodes a blob for storage: derives the encrypted chunk set, frames and
/// (for private scope) wraps the head-chunk payload, and returns the blob's
/// address together with every chunk to store, each named by its content
/// hash; the head chunk is last.
///
/// Succeeds exactly on inputs of at least `MIN_ENCRYPTABLE_BYTES` bytes
/// with the capability the scope demands: success depends on the input
/// alone, so a repeated write provably succeeds again and can never
/// conflict. The postconditions also carry the collaborator's promises out
/// to callers: the outermost key is well formed, its record parses back to
/// itself, and resolving it against any store that holds the returned
/// chunks yields the input bytes again.
pub fn encode_blob(bytes: &Vec<u8>, scope: Scope, owner: Option<&OwnerSecret>) -> (r: Result<
    (BlobAddress, Vec<Chunk>),
    Error,
>)
    ensures
        r is Ok <==> (bytes@.len() >= MIN_ENCRYPTABLE_BYTES && !(scope is Private && owner
            is None)),
        scope is Private && owner is None ==> r == Err::<(BlobAddress, Vec<Chunk>), Error>(
            Error::NoEncryptionCapability,
        ),
        bytes@.len() < MIN_ENCRYPTABLE_BYTES && !(scope is Private && owner is None) ==> r
            == Err::<(BlobAddress, Vec<Chunk>), Error>(Error::SelfEncryption),
        match r {
            Ok((addr, chunks)) => {
                &&& addr == blob_address_of(bytes@, scope, owner_view(owner))
                &&& addr.scope_spec() == scope
                &&& chunks@.len() == se_chunks_of(bytes@).len() + 1
                &&& forall|i: int|
                    0 <= i < se_chunks_of(bytes@).len() ==> {
                        &&& (#[trigger] chunks@[i]).value@ == se_chunks_of(bytes@)[i]
                        &&& chunks@[i].address == hash_of(se_chunks_of(bytes@)[i])
                    }
                &&& chunks@.last().value@ == sealed_head_payload(bytes@, scope, owner_view(owner))
                &&& chunks@.last().address == hash_of(
                    sealed_head_payload(bytes@, scope, owner_view(owner)),
                )
                &&& se_map_of(bytes@).well_formed()
                &&& parse_key_record(key_record_bytes(se_map_of(bytes@))) == Some(se_map_of(bytes@))
                &&& forall|store: Map<[u8; 32], Seq<u8>>|
                    stores_all(store, se_chunks_of(bytes@)) ==> se_resolve(se_map_of(bytes@), store)
                        == Some(bytes@)
            },
            Err(e) => {
                if scope is Private && owner is None {
                    e == Error::NoEncryptionCapability
                } else {
                    e == Error::SelfEncryption
                }
            },
        },
{
    if matches!(scope, Scope::Private) && owner.is_none() {
        return Err(Error::NoEncryptionCapability);
    }
    let (key, mut contents) = match se_encrypt(bytes) {
        Ok(enc) => enc,
        Err(e) => {
            return Err(e);
        },
    };
    let ghost stored = se_chunks_of(bytes@);
    let mut chunks: Vec<Chunk> = Vec::new();
    proof {
        assert(forall|i: int|
            0 <= i < contents@.len() ==> (#[trigger] contents@[i])@ == stored[i]);
    }
    while contents.len() > 0
        invariant
            chunks@.len() + contents@.len() == stored.len(),
            forall|i: int|
                0 <= i < contents@.len() ==> (#[trigger] contents@[i])@ == stored[chunks@.len()
                    + i],
            forall|i: int|
                0 <= i < chunks@.len() ==> {
                    &&& (#[trigger] chunks@[i]).value@ == stored[i]
                    &&& chunks@[i].address == hash_of(stored[i])
                },
        decreases contents@.len(),
    {
        let ghost pre = contents@;
        let c = contents.remove(0);
        proof {
            assert(contents@ =~= pre.skip(1));
        }
        let name = content_hash32(c.as_slice());
        chunks.push(Chunk { address: name, value: c });
    }
    let sk = if key.child.is_some() {
        SecretKey::AdditionalLevel(key)
    } else {
        SecretKey::FirstLevel(key)
    };
    let raw = serialize_secret_key(&sk);
    let sealed = match scope {
        Scope::Private => match owner {
            Some(o) => wrap(o, &raw),
            None => {
                return Err(Error::NoEncryptionCapability);
            },
        },
        Scope::Public => raw,
    };
    let name = content_hash32(sealed.as_slice());
    chunks.push(Chunk { address: name, value: sealed });
    let addr = match scope {
        Scope::Private => BlobAddress::Private(name),
        Scope::Public => BlobAddress::Public(name),
    };
    Ok((addr, chunks))
}

} // verus!
