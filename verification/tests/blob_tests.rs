//! End-to-end tests of the blob client: the write pipeline and the read
//! state machine driven against an in-memory chunk store.

use std::collections::HashMap;

use blob_client::address::{BlobAddress, Scope};
use blob_client::data::{Chunk, Error};
use blob_client::reader::{BlobReader, ReadAction, ReadEvent, ReadMode};
use blob_client::shield::OwnerSecret;
use blob_client::writer::encode_blob;

use rand::RngCore;

fn random_bytes(n: usize) -> Vec<u8> {
    let mut buf = vec![0u8; n];
    rand::thread_rng().fill_bytes(&mut buf);
    buf
}

fn owner_from(seed: u8) -> OwnerSecret {
    OwnerSecret::new(vec![seed; 32])
}

fn store_of(chunks: &[Chunk]) -> HashMap<[u8; 32], Vec<u8>> {
    let mut store = HashMap::new();
    for chunk in chunks {
        store.insert(chunk.address, chunk.value.clone());
    }
    store
}

fn drive(
    store: &HashMap<[u8; 32], Vec<u8>>,
    start: (BlobReader, ReadAction),
) -> Result<Vec<u8>, Error> {
    let (mut machine, mut action) = start;
    loop {
        let event = match action {
            ReadAction::Done(bytes) => return Ok(bytes),
            ReadAction::Fail(e) => return Err(e),
            ReadAction::FetchHead(name) => ReadEvent::Head(
                store
                    .get(&name)
                    .map(|value| Chunk { address: name, value: value.clone() })
                    .ok_or(Error::FetchFailed),
            ),
            ReadAction::FetchSet(names) => ReadEvent::ChunkSet(
                names.iter().map(|name| store.get(name).cloned()).collect(),
            ),
        };
        let (next, next_action) = machine.step(event);
        machine = next;
        action = next_action;
    }
}

fn read_all(store: &HashMap<[u8; 32], Vec<u8>>, address: BlobAddress, owner: Option<OwnerSecret>) -> Result<Vec<u8>, Error> {
    drive(store, BlobReader::read_blob(&address, owner))
}

fn read_from(
    store: &HashMap<[u8; 32], Vec<u8>>,
    address: BlobAddress,
    owner: Option<OwnerSecret>,
    pos: usize,
    len: usize,
) -> Result<Vec<u8>, Error> {
    drive(store, BlobReader::read_blob_from(&address, owner, pos, len))
}

fn store_and_read(size: usize, scope: Scope) {
    let blob = random_bytes(size);
    let owner = owner_from(11);
    let owner_arg = match scope {
        Scope::Private => Some(&owner),
        Scope::Public => None,
    };
    let (address, chunks) = encode_blob(&blob, scope, owner_arg).unwrap();
    let store = store_of(&chunks);
    let read_owner = match scope {
        Scope::Private => Some(owner_from(11)),
        Scope::Public => None,
    };
    let read_data = read_all(&store, address, read_owner).unwrap();
    assert_eq!(blob, read_data);
}

#[test]
fn deterministic_chunking() {
    let blob = random_bytes(self_encryption::MIN_ENCRYPTABLE_BYTES);
    let owner = owner_from(7);

    let (first_address, mut first_chunks) = encode_blob(&blob, Scope::Private, Some(&owner)).unwrap();
    first_chunks.sort();

    for _ in 0..100 {
        let owner = owner_from(7);
        let (head_address, mut all_chunks) = encode_blob(&blob, Scope::Private, Some(&owner)).unwrap();
        assert_eq!(first_address, head_address);
        all_chunks.sort();
        assert_eq!(first_chunks, all_chunks);
    }
}

// Store and read a min-size (3 KB) blob, under both scopes; a repeated
// private write must return the same address without conflict.
#[test]
fn store_and_read_3kb() {
    let blob = random_bytes(3072);
    let owner = owner_from(3);

    // Store private blob.
    let (private_address, chunks) = encode_blob(&blob, Scope::Private, Some(&owner)).unwrap();
    let store = store_of(&chunks);

    // Assert that the blob is stored.
    let read_data = read_all(&store, private_address, Some(owner_from(3))).unwrap();
    assert_eq!(blob, read_data);

    // Storing the same value again must not conflict and must return the
    // same address.
    let (address, _) = encode_blob(&blob, Scope::Private, Some(&owner)).unwrap();
    assert_eq!(address, private_address);

    // Storing the same value publicly must not conflict either.
    let (public_address, public_chunks) = encode_blob(&blob, Scope::Public, None).unwrap();
    let public_store = store_of(&public_chunks);

    let read_data = read_all(&public_store, public_address, None).unwrap();
    assert_eq!(blob, read_data);
}

#[test]
fn seek_in_data() {
    for i in 1..5 {
        let size = i * 3072;

        for divisor in 2..5 {
            let len = size / divisor;
            let data = random_bytes(size);

            let (address, chunks) = encode_blob(&data, Scope::Public, None).unwrap();
            let store = store_of(&chunks);

            // Read first part.
            let read_data_1 = read_from(&store, address, None, 0, len).unwrap();
            // Read second part.
            let read_data_2 = read_from(&store, address, None, len, len).unwrap();

            // Join parts.
            let mut read_data = read_data_1;
            read_data.extend_from_slice(&read_data_2);

            assert_eq!(&data[0..2 * len], &read_data[..]);
        }
    }
}

#[test]
fn store_and_read_1mb() {
    store_and_read(1024 * 1024, Scope::Public);
    store_and_read(1024 * 1024, Scope::Private);
}

#[test]
fn store_and_read_10mb() {
    store_and_read(10 * 1024 * 1024, Scope::Private);
}

// The machine and its actions must be usable from multithreaded executors:
// a read in flight has to be movable across threads.
#[test]
fn client_is_send() {
    fn require_send<T: Send>(_t: T) {}
    let blob = random_bytes(3072);
    let (address, chunks) = encode_blob(&blob, Scope::Public, None).unwrap();
    require_send(BlobReader::read_blob(&address, None));
    require_send(chunks);
}

// The example scenario: a 3 KB private blob reads back whole; the same
// bytes written publicly get a different address and read back whole; a
// ranged read of bytes 1024..2048 matches the original buffer.
#[test]
fn scenario_private_public_and_ranged() {
    let blob = random_bytes(3072);
    let owner = owner_from(42);

    let (private_address, private_chunks) = encode_blob(&blob, Scope::Private, Some(&owner)).unwrap();
    let private_store = store_of(&private_chunks);
    assert_eq!(blob, read_all(&private_store, private_address, Some(owner_from(42))).unwrap());

    let (public_address, public_chunks) = encode_blob(&blob, Scope::Public, None).unwrap();
    assert_ne!(public_address, private_address);
    assert!(public_address.is_public());
    assert!(private_address.is_private());
    let public_store = store_of(&public_chunks);
    assert_eq!(blob, read_all(&public_store, public_address, None).unwrap());

    let window = read_from(&public_store, public_address, None, 1024, 1024).unwrap();
    assert_eq!(&blob[1024..2048], &window[..]);
}

// Fault containment: with one data chunk unavailable the read fails with
// the exact accounting and never returns bytes.
#[test]
fn missing_chunk_fails_with_not_enough_chunks() {
    let blob = random_bytes(3072);
    let (address, chunks) = encode_blob(&blob, Scope::Public, None).unwrap();
    let mut store = store_of(&chunks);
    // Drop one data chunk (the head chunk is the last one).
    let dropped = chunks[0].address;
    assert_ne!(dropped, *address.name());
    store.remove(&dropped);

    // A 3 KB public blob has exactly three data chunks.
    let err = read_all(&store, address, None).unwrap_err();
    assert_eq!(err, Error::NotEnoughChunks(3, 2));
}

#[test]
fn missing_head_fails_with_fetch_failed() {
    let blob = random_bytes(3072);
    let (address, _chunks) = encode_blob(&blob, Scope::Public, None).unwrap();
    let empty: HashMap<[u8; 32], Vec<u8>> = HashMap::new();
    assert_eq!(read_all(&empty, address, None).unwrap_err(), Error::FetchFailed);
}

// Scope isolation: a private head chunk read without the owning capability
// does not yield a valid secret key.
#[test]
fn wrong_owner_fails_with_decryption_error() {
    let blob = random_bytes(3072);
    let owner = owner_from(1);
    let (address, chunks) = encode_blob(&blob, Scope::Private, Some(&owner)).unwrap();
    let store = store_of(&chunks);
    let err = read_all(&store, address, Some(owner_from(2))).unwrap_err();
    assert_eq!(err, Error::Decryption);
}

#[test]
fn private_read_without_capability_is_rejected() {
    let blob = random_bytes(3072);
    let owner = owner_from(1);
    let (address, chunks) = encode_blob(&blob, Scope::Private, Some(&owner)).unwrap();
    let store = store_of(&chunks);
    assert_eq!(read_all(&store, address, None).unwrap_err(), Error::NoEncryptionCapability);
}

#[test]
fn private_write_without_capability_is_rejected() {
    let blob = random_bytes(3072);
    assert_eq!(encode_blob(&blob, Scope::Private, None).unwrap_err(), Error::NoEncryptionCapability);
}

#[test]
fn too_small_write_is_rejected() {
    let blob = vec![1u8, 2u8];
    assert_eq!(encode_blob(&blob, Scope::Public, None).unwrap_err(), Error::SelfEncryption);
}

#[test]
fn corrupt_head_fails_with_serialization_error() {
    let blob = random_bytes(3072);
    let (address, chunks) = encode_blob(&blob, Scope::Public, None).unwrap();
    let mut store = store_of(&chunks);
    store.insert(*address.name(), vec![9u8; 64]);
    assert_eq!(read_all(&store, address, None).unwrap_err(), Error::Serialization);
}

#[test]
fn ranged_read_past_the_end_is_rejected() {
    let blob = random_bytes(3072);
    let (address, chunks) = encode_blob(&blob, Scope::Public, None).unwrap();
    let store = store_of(&chunks);
    assert_eq!(read_from(&store, address, None, 3000, 100).unwrap_err(), Error::OutOfRange);
    // An empty window is fine, and a window ending exactly at the end too.
    assert_eq!(read_from(&store, address, None, 3000, 0).unwrap(), Vec::<u8>::new());
    assert_eq!(read_from(&store, address, None, 3000, 72).unwrap(), &blob[3000..3072]);
}

// The head chunk is stored under the content hash of its payload, which is
// how the address is derived.
#[test]
fn head_chunk_is_content_addressed() {
    let blob = random_bytes(3072);
    let (address, chunks) = encode_blob(&blob, Scope::Public, None).unwrap();
    let head = chunks.last().unwrap();
    assert_eq!(*address.name(), head.address);
    assert_eq!(head.address, self_encryption::hash::content_hash(&head.value).0);
    // Data chunks are content-addressed too.
    for chunk in &chunks[..chunks.len() - 1] {
        assert_eq!(chunk.address, self_encryption::hash::content_hash(&chunk.value).0);
    }
}

// A blob of more than three chunks gets its decode key shrunk behind an
// additional indirection level: reading it exercises the head-chunk
// resolver's level loop.
#[test]
fn store_and_read_multi_level() {
    store_and_read(14 * 1024 * 1024, Scope::Public);
}
