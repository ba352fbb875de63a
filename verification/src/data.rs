//! The data model of the blob client: network chunks, decode keys and the
//! error taxonomy.

use vstd::prelude::*;

verus! {

/// The atomic network-stored unit: an opaque payload addressed by the hash of
/// its content.
#[derive(Clone, Eq, PartialEq, Ord, PartialOrd, Hash, Debug)]
pub struct Chunk {
    /// Content-derived address under which the chunk is stored.
    pub address: [u8; 32],
    /// The stored bytes.
    pub value: Vec<u8>,
}

impl Chunk {
    /// The stored bytes.
    pub fn value(&self) -> (r: &Vec<u8>)
        ensures
            r == &self.value,
    {
        &self.value
    }

    /// The content-derived address.
    pub fn name(&self) -> (r: &[u8; 32])
        ensures
            *r == self.address,
    {
        &self.address
    }
}

/// Identifies one chunk of a blob: its ordinal position in the original chunk
/// sequence, where to fetch it, and the decryption material tied to it.
///
/// Produced by the self-encryption collaborator; `index` defines where the
/// chunk belongs in reconstruction order, never the order of arrival.
#[derive(Clone, Copy, PartialEq, Eq, Debug)]
pub struct ChunkKey {
    /// Ordinal position in the original chunk sequence.
    pub index: usize,
    /// Content address of the encrypted chunk: where to fetch.
    pub dst_hash: [u8; 32],
    /// Hash of the chunk content before encryption; decryption key material.
    pub src_hash: [u8; 32],
    /// Byte length of the chunk content before encryption.
    pub src_size: usize,
}

/// Spec-level image of a [`DecodeKey`].
pub struct DecodeKeyView {
    /// The ordered chunk keys.
    pub keys: Seq<ChunkKey>,
    /// Indirection tag: `None` for a first-level key whose chunks decode to
    /// the blob itself, `Some(l)` for a key whose chunks decode to the next
    /// key record, `l` levels away from the first.
    pub child: Option<usize>,
}

/// Self-encryption chunk-layout metadata: the ordered chunk keys of one
/// indirection level, plus the level tag. This is not a cryptographic
/// identity key; it enumerates where the chunks live and how to decode them.
#[derive(Clone, PartialEq, Eq, Debug)]
pub struct DecodeKey {
    /// The ordered chunk keys.
    pub keys: Vec<ChunkKey>,
    /// Indirection tag; see [`DecodeKeyView::child`].
    pub child: Option<usize>,
}

impl View for DecodeKey {
    type V = DecodeKeyView;

    open spec fn view(&self) -> DecodeKeyView {
        DecodeKeyView { keys: self.keys@, child: self.child }
    }
}

impl DecodeKeyView {
    /// Total size in bytes of the content this key decodes to: the sum of the
    /// pre-encryption sizes of its chunks.
    pub open spec fn file_size(self) -> int {
        spec_size_sum(self.keys, self.keys.len() as int)
    }

    /// Byte offset of chunk `i` within the decoded content.
    pub open spec fn offset(self, i: int) -> int {
        spec_size_sum(self.keys, i)
    }

    /// A decode key is well formed when its chunk keys sit at their own
    /// indices (reconstruction order is authoritative by `index`) and the
    /// total decoded size fits in a machine word.
    pub open spec fn well_formed(self) -> bool {
        &&& forall|i: int| 0 <= i < self.keys.len() ==> (#[trigger] self.keys[i]).index == i
        &&& self.file_size() <= usize::MAX
    }
}

/// Sum of the `src_size` fields of the first `n` keys.
pub open spec fn spec_size_sum(keys: Seq<ChunkKey>, n: int) -> int
    decreases n,
{
    if n <= 0 {
        0
    } else {
        spec_size_sum(keys, n - 1) + keys[n - 1].src_size
    }
}

impl DecodeKey {
    /// Number of chunks this key names.
    pub fn len(&self) -> (r: usize)
        ensures
            r == self@.keys.len(),
    {
        self.keys.len()
    }

    /// Checks well-formedness: chunk keys must sit at their own indices and
    /// the total decoded size must fit in a machine word.
    pub fn check_well_formed(&self) -> (r: bool)
        ensures
            r == self@.well_formed(),
    {
        let n = self.keys.len();
        let mut sum: usize = 0;
        let mut i: usize = 0;
        while i < n
            invariant
                0 <= i <= n,
                n == self@.keys.len(),
                forall|j: int| 0 <= j < i ==> (#[trigger] self@.keys[j]).index == j,
                sum == spec_size_sum(self@.keys, i as int),
                sum <= usize::MAX,
            decreases n - i,
        {
            if self.keys[i].index != i {
                return false;
            }
            let sz = self.keys[i].src_size;
            if sum > usize::MAX - sz {
                assert(self@.file_size() > usize::MAX) by {
                    lemma_size_sum_monotonic(self@.keys, i + 1, self@.keys.len() as int);
                }
                return false;
            }
            sum = sum + sz;
            i = i + 1;
        }
        true
    }

    /// Total size in bytes of the content this key decodes to.
    pub fn file_size(&self) -> (r: usize)
        requires
            self@.well_formed(),
        ensures
            r == self@.file_size(),
    {
        let n = self.keys.len();
        let mut sum: usize = 0;
        let mut i: usize = 0;
        while i < n
            invariant
                0 <= i <= n,
                n == self@.keys.len(),
                sum == spec_size_sum(self@.keys, i as int),
                self@.file_size() <= usize::MAX,
            decreases n - i,
        {
            proof {
                lemma_size_sum_monotonic(self@.keys, i + 1, n as int);
            }
            sum = sum + self.keys[i].src_size;
            i = i + 1;
        }
        sum
    }
}

/// The partial sums of `src_size` are monotonic in the number of summands.
pub proof fn lemma_size_sum_monotonic(keys: Seq<ChunkKey>, m: int, n: int)
    requires
        0 <= m <= n,
    ensures
        spec_size_sum(keys, m) <= spec_size_sum(keys, n),
    decreases n - m,
{
    if m < n {
        lemma_size_sum_monotonic(keys, m, n - 1);
    }
}

/// An encrypted chunk assembled client-side from a fetched payload and the
/// chunk key it was fetched for. Downstream decode places it by `index`,
/// never by arrival order.
#[derive(Clone, PartialEq, Eq, Debug)]
pub struct EncryptedChunk {
    /// Ordinal position in the original chunk sequence.
    pub index: usize,
    /// The encrypted content as fetched.
    pub content: Vec<u8>,
}

/// The head-chunk payload, after any unwrapping: a tagged union over a decode
/// key.
///
/// `FirstLevel` terminates head resolution; its key decodes directly to the
/// blob. `AdditionalLevel` means the referenced chunks, once fetched and
/// decoded, yield the serialized bytes of the next key record, which must be
/// deserialized and resolved again.
#[derive(Clone, PartialEq, Eq, Debug)]
pub enum SecretKey {
    /// The key decodes directly to the blob content.
    FirstLevel(DecodeKey),
    /// The key decodes to the serialized bytes of the next key record.
    AdditionalLevel(DecodeKey),
}

impl SecretKey {
    /// The decode key carried by either variant.
    pub open spec fn key_spec(self) -> DecodeKey {
        match self {
            SecretKey::FirstLevel(k) => k,
            SecretKey::AdditionalLevel(k) => k,
        }
    }
}

/// The error taxonomy of the blob client.
///
/// Individual chunk-fetch failures are absorbed into absence accounting by
/// the fetcher and surface only as `NotEnoughChunks`; every other kind aborts
/// the whole operation.
#[derive(Clone, Copy, PartialEq, Eq, Structural, Debug)]
pub enum Error {
    /// Fewer chunks than required could be retrieved; carries
    /// (expected, actual). Fatal for the current read; no partial result is
    /// ever returned.
    NotEnoughChunks(usize, usize),
    /// Malformed head-chunk or indirection payload: corruption or a
    /// protocol-version mismatch.
    Serialization,
    /// Wrong owning key or tampered private payload.
    Decryption,
    /// A response did not match the kind the state machine awaited.
    UnexpectedResponse,
    /// The head chunk itself could not be fetched.
    FetchFailed,
    /// The self-encryption collaborator rejected the data (too small to
    /// encode, or a chunk failed to decode).
    SelfEncryption,
    /// A private-scope operation was attempted without the owner's
    /// encryption capability.
    NoEncryptionCapability,
    /// Head resolution exceeded the bounded indirection depth; failing
    /// closed rather than looping on adversarial data.
    IndirectionTooDeep,
    /// A ranged read asked for bytes beyond the end of the blob. This
    /// library rejects such reads explicitly rather than clamping.
    OutOfRange,
}

} // verus!
