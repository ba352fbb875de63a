//! Unit tests of the library's pieces: the wire codec, the owner
//! capability, the fetch fan-in, the key arithmetic, the machine's guard
//! states, and the node identity.

use blob_client::address::{BlobAddress, Scope};
use blob_client::codec::{deserialize_secret_key, serialize_secret_key};
use blob_client::data::{Chunk, ChunkKey, DecodeKey, Error, SecretKey};
use blob_client::fetch::try_get_chunks;
use blob_client::node::{Core, FullId, PublicId};
use blob_client::reader::{BlobReader, Phase, ReadAction, ReadEvent, ReadMode};
use blob_client::section_keys::{KeyError, MiniKeyCache, SectionKeyShare, SectionKeysProvider};
use blob_client::shield::{unwrap, wrap, OwnerSecret};
use blob_client::MAX_INDIRECTION_LEVELS;

fn sample_key(child: Option<usize>) -> DecodeKey {
    let keys = (0..3)
        .map(|i| ChunkKey {
            index: i,
            dst_hash: [i as u8; 32],
            src_hash: [(10 + i) as u8; 32],
            src_size: 100 + i,
        })
        .collect();
    DecodeKey { keys, child }
}

#[test]
fn secret_key_framing_is_a_four_byte_tag_then_the_record() {
    let first = SecretKey::FirstLevel(sample_key(None));
    let bytes = serialize_secret_key(&first);
    assert_eq!(&bytes[0..4], &[0u8, 0, 0, 0]);

    let additional = SecretKey::AdditionalLevel(sample_key(Some(1)));
    let bytes = serialize_secret_key(&additional);
    assert_eq!(&bytes[0..4], &[1u8, 0, 0, 0]);
}

#[test]
fn secret_key_round_trips_through_the_codec() {
    let first = SecretKey::FirstLevel(sample_key(None));
    let decoded = deserialize_secret_key(&serialize_secret_key(&first)).unwrap();
    assert_eq!(decoded, first);

    let additional = SecretKey::AdditionalLevel(sample_key(Some(2)));
    let decoded = deserialize_secret_key(&serialize_secret_key(&additional)).unwrap();
    assert_eq!(decoded, additional);
}

#[test]
fn codec_rejects_short_unknown_and_inconsistent_payloads() {
    assert_eq!(deserialize_secret_key(&vec![0u8, 0]).unwrap_err(), Error::Serialization);
    assert_eq!(deserialize_secret_key(&vec![7u8, 0, 0, 0, 1]).unwrap_err(), Error::Serialization);
    // A first-level tag over a record that claims an indirection level.
    let inconsistent = SecretKey::FirstLevel(sample_key(Some(1)));
    let bytes = serialize_secret_key(&inconsistent);
    assert_eq!(deserialize_secret_key(&bytes).unwrap_err(), Error::Serialization);
}

#[test]
fn wrap_round_trips_and_authenticates() {
    let secret = OwnerSecret::new(vec![5u8; 32]);
    let payload = vec![1u8, 2, 3, 4, 5, 6, 7];
    let sealed = wrap(&secret, &payload);
    // The sealed bytes carry a 32-byte tag ahead of the masked payload.
    assert_eq!(sealed.len(), payload.len() + 32);
    assert_ne!(&sealed[32..], &payload[..]);
    // Wrapping is deterministic.
    assert_eq!(sealed, wrap(&OwnerSecret::new(vec![5u8; 32]), &payload));
    // It unwraps under the same secret,
    assert_eq!(unwrap(&secret, &sealed).unwrap(), payload);
    // fails under another,
    let other = OwnerSecret::new(vec![6u8; 32]);
    assert_eq!(unwrap(&other, &sealed).unwrap_err(), Error::Decryption);
    // and fails when tampered with.
    let mut forged = sealed.clone();
    forged[35] ^= 1;
    assert_eq!(unwrap(&secret, &forged).unwrap_err(), Error::Decryption);
    assert_eq!(unwrap(&secret, &vec![0u8; 10]).unwrap_err(), Error::Decryption);
}

#[test]
fn try_get_chunks_assembles_by_position_and_tags_by_index() {
    let key = sample_key(None);
    let fetched = vec![Some(vec![1u8]), Some(vec![2u8]), Some(vec![3u8])];
    let chunks = try_get_chunks(&key.keys, &fetched).unwrap();
    assert_eq!(chunks.len(), 3);
    for (j, chunk) in chunks.iter().enumerate() {
        assert_eq!(chunk.index, key.keys[j].index);
        assert_eq!(chunk.content, vec![(j + 1) as u8]);
    }
}

#[test]
fn try_get_chunks_reports_exact_accounting() {
    let key = sample_key(None);
    let fetched = vec![Some(vec![1u8]), None, Some(vec![3u8])];
    assert_eq!(try_get_chunks(&key.keys, &fetched).unwrap_err(), Error::NotEnoughChunks(3, 2));
    let nothing: Vec<Option<Vec<u8>>> = vec![];
    assert_eq!(try_get_chunks(&key.keys, &nothing).unwrap_err(), Error::NotEnoughChunks(3, 0));
}

#[test]
fn decode_key_size_arithmetic() {
    let key = sample_key(None);
    assert!(key.check_well_formed());
    assert_eq!(key.len(), 3);
    assert_eq!(key.file_size(), 100 + 101 + 102);

    let mut skewed = sample_key(None);
    skewed.keys[1].index = 5;
    assert!(!skewed.check_well_formed());
}

#[test]
fn blob_address_accessors() {
    let name = [9u8; 32];
    let public = BlobAddress::Public(name);
    let private = BlobAddress::Private(name);
    assert_eq!(*public.name(), name);
    assert_eq!(*private.name(), name);
    assert_eq!(public.scope(), Scope::Public);
    assert_eq!(private.scope(), Scope::Private);
    assert!(public.is_public() && !public.is_private());
    assert!(private.is_private() && !private.is_public());
    // Addresses order and hash over (tag, name): usable as map keys.
    let mut set = std::collections::BTreeSet::new();
    set.insert(public);
    set.insert(private);
    set.insert(public);
    assert_eq!(set.len(), 2);
}

#[test]
fn indirection_depth_is_bounded() {
    // A machine that has already followed the maximum number of levels
    // fails closed when the head names yet another one.
    let machine = BlobReader {
        scope: Scope::Public,
        owner: None,
        mode: ReadMode::Full,
        depth: MAX_INDIRECTION_LEVELS,
        phase: Phase::AwaitHead,
    };
    let key = DecodeKey { keys: vec![], child: Some(1) };
    let payload = serialize_secret_key(&SecretKey::AdditionalLevel(key));
    let head = Chunk { address: [0u8; 32], value: payload };
    let (_, action) = machine.step(ReadEvent::Head(Ok(head)));
    assert!(matches!(action, ReadAction::Fail(Error::IndirectionTooDeep)));
}

#[test]
fn mismatched_event_kind_is_rejected() {
    let blob: Vec<u8> = (0..4096u32).map(|i| i as u8).collect();
    let (address, _) = blob_client::writer::encode_blob(&blob, Scope::Public, None).unwrap();
    let (machine, action) = BlobReader::read_blob(&address, None);
    assert!(matches!(action, ReadAction::FetchHead(_)));
    let (_, action) = machine.step(ReadEvent::ChunkSet(vec![]));
    assert!(matches!(action, ReadAction::Fail(Error::UnexpectedResponse)));
}

#[test]
fn core_exposes_its_identity() {
    let core = Core { full_id: FullId { public_id: PublicId { name: [3u8; 32] } } };
    assert_eq!(*core.name(), [3u8; 32]);
    assert_eq!(core.id().name, [3u8; 32]);
}

#[test]
fn key_cache_caches_and_evicts_in_order() {
    let share = |tag: u8, index: usize| SectionKeyShare {
        public_key: vec![tag; 48],
        index,
        secret_key_share: vec![tag; 32],
    };
    let mut cache = MiniKeyCache::with_capacity(2);
    assert!(!cache.has_key_share());
    assert_eq!(cache.get_most_recent().unwrap_err(), KeyError::MissingSecretKeyShare);

    assert_eq!(cache.add(&vec![1u8; 48], share(1, 10)), None);
    assert_eq!(cache.add(&vec![2u8; 48], share(2, 20)), None);
    assert!(cache.has_key_share());
    assert_eq!(cache.get_most_recent().unwrap().index, 20);
    // A known key is not re-added.
    assert_eq!(cache.add(&vec![1u8; 48], share(1, 11)), None);
    assert_eq!(cache.key_share_for(&vec![1u8; 48]).unwrap().index, 10);
    // A third key evicts the oldest.
    assert_eq!(cache.add(&vec![3u8; 48], share(3, 30)), Some(vec![1u8; 48]));
    assert_eq!(cache.key_share_for(&vec![1u8; 48]).unwrap_err(), KeyError::MissingSecretKeyShare);
    assert_eq!(cache.key_share_for(&vec![3u8; 48]).unwrap().index, 30);
}

#[test]
fn section_keys_provider_finalises_pending_generations() {
    let share = |tag: u8, index: usize| SectionKeyShare {
        public_key: vec![tag; 48],
        index,
        secret_key_share: vec![tag; 32],
    };
    let mut provider = SectionKeysProvider::new(3, Some(share(1, 1)));
    assert!(provider.has_key_share());
    assert_eq!(provider.key_share().unwrap().index, 1);

    // A parked share is not visible until its generation is finalised.
    provider.insert_dkg_outcome(share(2, 2));
    assert_eq!(provider.key_share_for(&vec![2u8; 48]).unwrap_err(), KeyError::MissingSecretKeyShare);
    // Finalising an unknown generation changes nothing.
    provider.finalise_dkg(&vec![9u8; 48]);
    assert_eq!(provider.key_share().unwrap().index, 1);
    // Finalising the parked one makes it the most recent.
    provider.finalise_dkg(&vec![2u8; 48]);
    assert_eq!(provider.key_share().unwrap().index, 2);
    assert_eq!(provider.key_share_for(&vec![1u8; 48]).unwrap().index, 1);

    let provider = SectionKeysProvider::new(3, None);
    assert!(!provider.has_key_share());
    assert_eq!(provider.key_share().unwrap_err(), KeyError::MissingSecretKeyShare);
}
