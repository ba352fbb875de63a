//! The owner encryption capability that shields a private blob's head chunk.
//!
//! For private scope the head-chunk bytes on the wire are ciphertext under
//! the owner's capability; for public scope they are stored as-is. The
//! scheme here is deterministic (the same secret and payload always wrap to
//! the same bytes, so private writes stay content-addressed) and
//! authenticated (unwrapping with the wrong secret or over tampered bytes
//! fails): the payload is masked with a keystream derived from the secret
//! and the payload's own authentication tag, and the tag is re-checked on
//! unwrap.

use vstd::prelude::*;

use crate::collaborator::content_hash32;
use crate::data::Error;
use crate::model::hash_of;
use crate::util::{bytes32_equal, extend_bytes, extend_bytes32, read_bytes32};

verus! {

broadcast use vstd::array::group_array_axioms;

/// The blob owner's encryption capability: the secret key material that
/// wraps and unwraps private head chunks.
#[derive(PartialEq, Eq, Debug)]
pub struct OwnerSecret {
    /// The secret key material.
    pub bytes: Vec<u8>,
}

impl View for OwnerSecret {
    type V = Seq<u8>;

    open spec fn view(&self) -> Seq<u8> {
        self.bytes@
    }
}

impl OwnerSecret {
    /// Wraps raw key material.
    pub fn new(bytes: Vec<u8>) -> (r: OwnerSecret)
        ensures
            r@ == bytes@,
    {
        OwnerSecret { bytes }
    }
}

/// The authentication tag of a payload under a secret.
pub open spec fn mac_of(secret: Seq<u8>, payload: Seq<u8>) -> Seq<u8> {
    hash_of(secret + payload)@
}

/// The little-endian counter bytes that separate keystream blocks.
pub open spec fn ctr_bytes(j: int) -> Seq<u8> {
    seq![
        (j % 256) as u8,
        ((j / 256) % 256) as u8,
        ((j / 65536) % 256) as u8,
        ((j / 16777216) % 256) as u8,
    ]
}

/// Keystream block `j`, derived from the secret and the payload tag.
pub open spec fn ks_block(secret: Seq<u8>, mac: Seq<u8>, j: int) -> Seq<u8> {
    hash_of(secret + mac + ctr_bytes(j))@
}

/// Keystream byte `i`.
pub open spec fn ks_byte(secret: Seq<u8>, mac: Seq<u8>, i: int) -> u8 {
    ks_block(secret, mac, i / 32)[i % 32]
}

/// XOR of a byte sequence with the keystream.
pub open spec fn mask_ks(secret: Seq<u8>, mac: Seq<u8>, data: Seq<u8>) -> Seq<u8> {
    Seq::new(data.len(), |i: int| data[i] ^ ks_byte(secret, mac, i))
}

/// What wrapping yields: the payload's tag, then the masked payload.
pub open spec fn wrap_spec(secret: Seq<u8>, payload: Seq<u8>) -> Seq<u8> {
    mac_of(secret, payload) + mask_ks(secret, mac_of(secret, payload), payload)
}

/// What unwrapping yields: the unmasked payload, provided the stored tag
/// matches the payload under the given secret; `None` otherwise.
pub open spec fn unwrap_spec(secret: Seq<u8>, cipher: Seq<u8>) -> Option<Seq<u8>> {
    if cipher.len() < 32 {
        None
    } else {
        let mac = cipher.take(32);
        let plain = mask_ks(secret, mac, cipher.skip(32));
        if mac_of(secret, plain) == mac {
            Some(plain)
        } else {
            None
        }
    }
}

/// Computes the keystream block `j` for the given secret and tag.
fn compute_block(secret: &OwnerSecret, mac: &[u8; 32], j: usize) -> (r: [u8; 32])
    ensures
        r@ == ks_block(secret@, mac@, j as int),
{
    let mut input: Vec<u8> = Vec::new();
    extend_bytes(&mut input, secret.bytes.as_slice());
    extend_bytes32(&mut input, mac);
    input.push((j % 256) as u8);
    input.push(((j / 256) % 256) as u8);
    input.push(((j / 65536) % 256) as u8);
    input.push(((j / 16777216) % 256) as u8);
    proof {
        assert(input@ =~= secret@ + mac@ + ctr_bytes(j as int));
    }
    content_hash32(input.as_slice())
}

/// Masks `data` (taken from `src` starting at `from`) with the keystream for
/// the given secret and tag, appending the result to `out`.
fn mask_into(
    out: &mut Vec<u8>,
    secret: &OwnerSecret,
    mac: &[u8; 32],
    src: &Vec<u8>,
    from: usize,
)
    requires
        from <= src@.len(),
    ensures
        final(out)@ == old(out)@ + mask_ks(secret@, mac@, src@.skip(from as int)),
{
    let n = src.len();
    let ghost data = src@.skip(from as int);
    let mut blk: [u8; 32] = *mac;
    let mut i: usize = 0;
    while i < n - from
        invariant
            0 <= i <= n - from,
            from <= n,
            n == src@.len(),
            data == src@.skip(from as int),
            out@ == old(out)@ + mask_ks(secret@, mac@, data).take(i as int),
            i % 32 != 0 ==> blk@ == ks_block(secret@, mac@, i as int / 32),
        decreases n - from - i,
    {
        if i % 32 == 0 {
            blk = compute_block(secret, mac, i / 32);
        }
        let b = src[from + i] ^ blk[i % 32];
        proof {
            assert(data[i as int] == src@[from + i]);
            assert(b == data[i as int] ^ ks_byte(secret@, mac@, i as int));
            assert(mask_ks(secret@, mac@, data).take(i + 1) == mask_ks(
                secret@,
                mac@,
                data,
            ).take(i as int) + seq![mask_ks(secret@, mac@, data)[i as int]]);
        }
        out.push(b);
        i = i + 1;
    }
    proof {
        assert(mask_ks(secret@, mac@, data).take(n - from) == mask_ks(secret@, mac@, data));
    }
}

/// Computes the authentication tag of `payload` under `secret`.
fn compute_mac(secret: &OwnerSecret, payload: &Vec<u8>) -> (r: [u8; 32])
    ensures
        r@ == mac_of(secret@, payload@),
{
    let mut input: Vec<u8> = Vec::new();
    extend_bytes(&mut input, secret.bytes.as_slice());
    extend_bytes(&mut input, payload.as_slice());
    proof {
        assert(input@ =~= secret@ + payload@);
    }
    content_hash32(input.as_slice())
}

/// Wraps a payload under the owner's capability. Deterministic: identical
/// secret and payload always produce identical ciphertext.
pub fn wrap(secret: &OwnerSecret, payload: &Vec<u8>) -> (r: Vec<u8>)
    ensures
        r@ == wrap_spec(secret@, payload@),
{
    let mac = compute_mac(secret, payload);
    let mut out: Vec<u8> = Vec::new();
    extend_bytes32(&mut out, &mac);
    mask_into(&mut out, secret, &mac, payload, 0);
    proof {
        assert(payload@.skip(0) == payload@);
    }
    out
}

/// Unwraps a private payload. Fails with a decryption error when the bytes
/// are too short, were wrapped under a different secret, or were tampered
/// with — exactly when `unwrap_spec` is `None`.
pub fn unwrap(secret: &OwnerSecret, cipher: &Vec<u8>) -> (r: Result<Vec<u8>, Error>)
    ensures
        match unwrap_spec(secret@, cipher@) {
            Some(p) => r matches Ok(v) && v@ == p,
            None => r matches Err(e) && e == Error::Decryption,
        },
{
    if cipher.len() < 32 {
        return Err(Error::Decryption);
    }
    let mac = read_bytes32(cipher, 0);
    proof {
        assert(mac@ == cipher@.take(32));
    }
    let mut plain: Vec<u8> = Vec::new();
    mask_into(&mut plain, secret, &mac, cipher, 32);
    let check = compute_mac(secret, &plain);
    if bytes32_equal(&check, &mac) {
        Ok(plain)
    } else {
        Err(Error::Decryption)
    }
}

/// Unwrapping inverts wrapping: under the same secret, a wrapped payload
/// unwraps to exactly the original payload.
pub proof fn lemma_unwrap_wrap(secret: Seq<u8>, payload: Seq<u8>)
    ensures
        unwrap_spec(secret, wrap_spec(secret, payload)) == Some(payload),
{
    let mac = mac_of(secret, payload);
    let masked = mask_ks(secret, mac, payload);
    let c = wrap_spec(secret, payload);
    assert(mac.len() == 32);
    assert(c.take(32) =~= mac);
    assert(c.skip(32) =~= masked);
    let plain = mask_ks(secret, mac, masked);
    assert forall|i: int| 0 <= i < payload.len() implies plain[i] == payload[i] by {
        let k = ks_byte(secret, mac, i);
        let x = payload[i];
        assert((x ^ k) ^ k == x) by (bit_vector);
    }
    assert(plain =~= payload);
}

} // verus!
