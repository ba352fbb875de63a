//! The head-chunk wire format: a compact binary tagged union over a key
//! record.
//!
//! A head chunk's payload (after any unwrapping) is a four-byte
//! little-endian variant tag — 0 for `FirstLevel`, 1 for `AdditionalLevel` —
//! followed by the serialized key record. This framing is applied only to
//! the outermost head chunk; inner indirection levels carry bare key
//! records. The tag must agree with the record's own level marker; a
//! mismatch is treated as corruption.

use vstd::prelude::*;

use crate::collaborator::{key_record_from_bytes, key_record_to_bytes};
use crate::data::{DecodeKeyView, Error, SecretKey};
use crate::model::{key_record_bytes, parse_key_record};
use crate::util::{extend_bytes, tail_from};

verus! {

/// The four-byte variant tag.
pub open spec fn tag_bytes(first_level: bool) -> Seq<u8> {
    if first_level {
        seq![0u8, 0u8, 0u8, 0u8]
    } else {
        seq![1u8, 0u8, 0u8, 0u8]
    }
}

/// The serialized form of the head-chunk payload: tag, then key record.
pub open spec fn secret_key_payload(first_level: bool, key: DecodeKeyView) -> Seq<u8> {
    tag_bytes(first_level) + key_record_bytes(key)
}

/// Parse of a head-chunk payload: `None` on a short payload, an unknown
/// tag, or a malformed key record.
pub open spec fn parse_secret_key_payload(bytes: Seq<u8>) -> Option<(bool, DecodeKeyView)> {
    if bytes.len() < 4 {
        None
    } else if bytes.take(4) == tag_bytes(true) {
        match parse_key_record(bytes.skip(4)) {
            Some(k) => Some((true, k)),
            None => None,
        }
    } else if bytes.take(4) == tag_bytes(false) {
        match parse_key_record(bytes.skip(4)) {
            Some(k) => Some((false, k)),
            None => None,
        }
    } else {
        None
    }
}

/// Serializes a secret key into its head-chunk payload.
///
/// The second postcondition carries the collaborator's serialization
/// round-trip promise out to callers, so that what was written is known to
/// parse back to the same record.
pub fn serialize_secret_key(sk: &SecretKey) -> (r: Vec<u8>)
    ensures
        r@ == secret_key_payload(sk is FirstLevel, sk.key_spec()@),
        parse_key_record(key_record_bytes(sk.key_spec()@)) == Some(sk.key_spec()@),
{
    let mut out: Vec<u8> = Vec::new();
    let record = match sk {
        SecretKey::FirstLevel(key) => {
            out.push(0u8);
            key_record_to_bytes(key)
        },
        SecretKey::AdditionalLevel(key) => {
            out.push(1u8);
            key_record_to_bytes(key)
        },
    };
    out.push(0u8);
    out.push(0u8);
    out.push(0u8);
    proof {
        assert(out@ =~= tag_bytes(*sk is FirstLevel));
    }
    extend_bytes(&mut out, record.as_slice());
    out
}

/// Deserializes a head-chunk payload into the secret key tagged union.
///
/// Fails with a serialization error on a short payload, an unknown tag, a
/// malformed key record, or a tag that contradicts the record's own level
/// marker.
pub fn deserialize_secret_key(payload: &Vec<u8>) -> (r: Result<SecretKey, Error>)
    ensures
        match parse_secret_key_payload(payload@) {
            Some((first_level, k)) => {
                if first_level == (k.child is None) {
                    &&& r matches Ok(sk)
                    &&& (r->Ok_0 is FirstLevel) == first_level
                    &&& r->Ok_0.key_spec()@ == k
                } else {
                    r == Err::<SecretKey, Error>(Error::Serialization)
                }
            },
            None => r == Err::<SecretKey, Error>(Error::Serialization),
        },
{
    if payload.len() < 4 {
        return Err(Error::Serialization);
    }
    let t0 = payload[0];
    let t1 = payload[1];
    let t2 = payload[2];
    let t3 = payload[3];
    if t1 != 0 || t2 != 0 || t3 != 0 || (t0 != 0 && t0 != 1) {
        proof {
            assert(payload@.take(4)[0] == t0 && payload@.take(4)[1] == t1 && payload@.take(4)[2]
                == t2 && payload@.take(4)[3] == t3);
            assert(payload@.take(4) != tag_bytes(true) && payload@.take(4) != tag_bytes(false));
        }
        return Err(Error::Serialization);
    }
    let first_level = t0 == 0;
    proof {
        if first_level {
            assert(payload@.take(4) =~= tag_bytes(true));
            assert(tag_bytes(false)[0] == 1);
        } else {
            assert(payload@.take(4) =~= tag_bytes(false));
            assert(tag_bytes(true)[0] == 0);
        }
    }
    let record = tail_from(payload, 4);
    match key_record_from_bytes(&record) {
        Ok(key) => {
            if first_level == key.child.is_none() {
                if first_level {
                    Ok(SecretKey::FirstLevel(key))
                } else {
                    Ok(SecretKey::AdditionalLevel(key))
                }
            } else {
                Err(Error::Serialization)
            }
        },
        Err(e) => Err(e),
    }
}

} // verus!
