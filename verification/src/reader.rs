//! The read state machine: head resolution, data fetch, full and ranged
//! decode.
//!
//! Reading is an explicit state machine so that every decision is verified
//! while the network stays outside: the machine emits fetch actions, the
//! caller performs them (dispatching one concurrently scheduled unit of work
//! per chunk and waiting for all of them), and feeds the outcome back as an
//! event. A whole read runs: fetch the head chunk; unwrap it (private scope)
//! and parse the secret-key union; while the key is an additional
//! indirection level, fetch and decode its chunk set and parse the next key
//! record, up to a bounded depth; then fetch the data chunks the first-level
//! key names — all of them for a full read, exactly the covering range for a
//! ranged read — decode them, and deliver the bytes. The first unrecoverable
//! error moves the machine to its terminal state and no bytes are returned.
//!
//! Every transition is mirrored by a spec-level twin (`step_spec`,
//! `start_spec`), which the library's laws are proved against.

use vstd::prelude::*;

use crate::address::{BlobAddress, Scope};
use crate::codec::{deserialize_secret_key, parse_secret_key_payload};
use crate::data::{Chunk, ChunkKey, DecodeKey, DecodeKeyView, Error, SecretKey};
use crate::data::spec_size_sum;
use crate::decode::{contents_view, decode_level_slice};
use crate::fetch::{collect_spec, count_present, fetched_contents, present_at, try_get_chunks};
use crate::model::{child_level_of, level_decode_prefix, parse_key_record};
use crate::shield::{unwrap, unwrap_spec, OwnerSecret};
use crate::util::sub_bytes;
use crate::MAX_INDIRECTION_LEVELS;

verus! {

/// What a read asks for: the whole blob, or `len` bytes from `pos`.
#[derive(Clone, Copy, PartialEq, Eq, Structural, Debug)]
pub enum ReadMode {
    /// The whole blob.
    Full,
    /// `len` bytes starting at byte `pos`.
    Range {
        /// First byte wanted; 0 reads from the start.
        pos: usize,
        /// Number of bytes wanted.
        len: usize,
    },
}

/// Spec-level image of a [`Phase`].
pub enum PhaseV {
    /// Waiting for the head chunk.
    AwaitHead,
    /// Waiting for the chunk set of an additional indirection level.
    AwaitLevel { key: DecodeKeyView },
    /// Waiting for the data chunks at positions `start .. start + count` of
    /// the first-level key; the answer's decode is cut at `skip` and `want`.
    AwaitData { key: DecodeKeyView, start: int, count: int, skip: int, want: int },
    /// The read has delivered its outcome; no further event is expected.
    Terminal,
}

/// Where the machine stands between events.
pub enum Phase {
    /// Waiting for the head chunk.
    AwaitHead,
    /// Waiting for the chunk set of an additional indirection level.
    AwaitLevel {
        /// The level's decode key.
        key: DecodeKey,
    },
    /// Waiting for the data chunks of the first-level key.
    AwaitData {
        /// The first-level decode key.
        key: DecodeKey,
        /// Position of the first fetched chunk within the key.
        start: usize,
        /// Number of fetched chunks.
        count: usize,
        /// Bytes to drop from the front of the decoded range.
        skip: usize,
        /// Bytes to deliver.
        want: usize,
    },
    /// The read has delivered its outcome.
    Terminal,
}

impl View for Phase {
    type V = PhaseV;

    open spec fn view(&self) -> PhaseV {
        match *self {
            Phase::AwaitHead => PhaseV::AwaitHead,
            Phase::AwaitLevel { key } => PhaseV::AwaitLevel { key: key@ },
            Phase::AwaitData { key, start, count, skip, want } => PhaseV::AwaitData {
                key: key@,
                start: start as int,
                count: count as int,
                skip: skip as int,
                want: want as int,
            },
            Phase::Terminal => PhaseV::Terminal,
        }
    }
}

/// Spec-level image of a [`BlobReader`].
pub struct ReaderV {
    /// The scope of the address being read.
    pub scope: Scope,
    /// The owner capability, for private scope.
    pub owner: Option<Seq<u8>>,
    /// What the read asks for.
    pub mode: ReadMode,
    /// Indirection levels already followed.
    pub depth: int,
    /// Where the machine stands.
    pub phase: PhaseV,
}

/// The read state machine. Drive it by performing each emitted action and
/// feeding the outcome back through [`BlobReader::step`].
pub struct BlobReader {
    /// The scope of the address being read.
    pub scope: Scope,
    /// The owner capability, for private scope.
    pub owner: Option<OwnerSecret>,
    /// What the read asks for.
    pub mode: ReadMode,
    /// Indirection levels already followed.
    pub depth: usize,
    /// Where the machine stands.
    pub phase: Phase,
}

/// The owner capability as key bytes, if one was given.
pub open spec fn owner_bytes(owner: Option<OwnerSecret>) -> Option<Seq<u8>> {
    match owner {
        Some(o) => Some(o@),
        None => None,
    }
}

impl View for BlobReader {
    type V = ReaderV;

    open spec fn view(&self) -> ReaderV {
        ReaderV {
            scope: self.scope,
            owner: owner_bytes(self.owner),
            mode: self.mode,
            depth: self.depth as int,
            phase: self.phase@,
        }
    }
}

/// What the caller must do next.
pub enum ReadAction {
    /// Fetch the head chunk stored under this name and feed it back as a
    /// `Head` event; a fetch error is fed back as the event's error.
    FetchHead([u8; 32]),
    /// Fetch the chunks stored under these names, one unit of work each,
    /// and feed the per-name outcomes back positionally as a `ChunkSet`
    /// event, with `None` where a unit failed.
    FetchSet(Vec<[u8; 32]>),
    /// The read is complete: these are the requested bytes.
    Done(Vec<u8>),
    /// The read failed as a whole; no bytes are returned.
    Fail(Error),
}

/// Spec-level image of a [`ReadAction`].
pub enum ActionV {
    /// Fetch the head chunk stored under this name.
    FetchHead([u8; 32]),
    /// Fetch the chunks stored under these names.
    FetchSet(Seq<[u8; 32]>),
    /// The read is complete.
    Done(Seq<u8>),
    /// The read failed as a whole.
    Fail(Error),
}

impl View for ReadAction {
    type V = ActionV;

    open spec fn view(&self) -> ActionV {
        match *self {
            ReadAction::FetchHead(name) => ActionV::FetchHead(name),
            ReadAction::FetchSet(ref names) => ActionV::FetchSet(names@),
            ReadAction::Done(ref bytes) => ActionV::Done(bytes@),
            ReadAction::Fail(e) => ActionV::Fail(e),
        }
    }
}

/// The outcome of a performed action, fed back into the machine.
pub enum ReadEvent {
    /// Outcome of a `FetchHead` action.
    Head(Result<Chunk, Error>),
    /// Outcome of a `FetchSet` action: one entry per requested name, in
    /// request order, `None` where that unit of work failed.
    ChunkSet(Vec<Option<Vec<u8>>>),
}

/// Spec-level image of a [`ReadEvent`].
pub enum EventV {
    /// Outcome of a head fetch: the head chunk's payload bytes.
    Head(Result<Seq<u8>, Error>),
    /// Outcome of a chunk-set fetch, by requested position.
    ChunkSet(Seq<Option<Seq<u8>>>),
}

/// The payload outcomes of a chunk-set event, as sequences.
pub open spec fn fetched_view(fetched: Seq<Option<Vec<u8>>>) -> Seq<Option<Seq<u8>>> {
    fetched.map_values(
        |o: Option<Vec<u8>>|
            match o {
                Some(v) => Some(v@),
                None => None::<Seq<u8>>,
            },
    )
}

impl View for ReadEvent {
    type V = EventV;

    open spec fn view(&self) -> EventV {
        match *self {
            ReadEvent::Head(Ok(ref chunk)) => EventV::Head(Ok(chunk.value@)),
            ReadEvent::Head(Err(e)) => EventV::Head(Err(e)),
            ReadEvent::ChunkSet(ref fetched) => EventV::ChunkSet(fetched_view(fetched@)),
        }
    }
}

/// The names to fetch for positions `start .. start + count` of a key.
pub open spec fn dst_hashes(keys: Seq<ChunkKey>, start: int, count: int) -> Seq<[u8; 32]> {
    Seq::new(count as nat, |j: int| keys[start + j].dst_hash)
}

/// The position of the chunk covering byte `p`, scanning from position `i`.
pub open spec fn chunk_at_from(keys: Seq<ChunkKey>, p: int, i: int) -> int
    decreases keys.len() - i,
{
    if i < 0 || i >= keys.len() {
        i
    } else if p < spec_size_sum(keys, i + 1) {
        i
    } else {
        chunk_at_from(keys, p, i + 1)
    }
}

/// The position of the chunk covering byte `p`.
pub open spec fn chunk_at(keys: Seq<ChunkKey>, p: int) -> int {
    chunk_at_from(keys, p, 0)
}

/// The chunk covering an in-bounds byte starts at or before it and ends
/// after it.
pub proof fn lemma_chunk_at_props(keys: Seq<ChunkKey>, p: int, i: int)
    requires
        0 <= i <= keys.len(),
        spec_size_sum(keys, i) <= p < spec_size_sum(keys, keys.len() as int),
    ensures
        i <= chunk_at_from(keys, p, i) < keys.len(),
        spec_size_sum(keys, chunk_at_from(keys, p, i)) <= p,
        p < spec_size_sum(keys, chunk_at_from(keys, p, i) + 1),
    decreases keys.len() - i,
{
    if i < keys.len() && p >= spec_size_sum(keys, i + 1) {
        lemma_chunk_at_props(keys, p, i + 1);
    }
}

/// The machine's terminal failure transition.
pub open spec fn fail_spec(s: ReaderV, e: Error) -> (ReaderV, ActionV) {
    (ReaderV { phase: PhaseV::Terminal, ..s }, ActionV::Fail(e))
}

/// Entering the data phase once the first-level key is known: a full read
/// fetches every chunk; a ranged read rejects an out-of-bounds window, then
/// fetches exactly the chunks covering it.
pub open spec fn enter_data_spec(s: ReaderV, key: DecodeKeyView) -> (ReaderV, ActionV) {
    let n = key.keys.len() as int;
    match s.mode {
        ReadMode::Full => (
            ReaderV {
                phase: PhaseV::AwaitData { key, start: 0, count: n, skip: 0, want: key.file_size() },
                ..s
            },
            ActionV::FetchSet(dst_hashes(key.keys, 0, n)),
        ),
        ReadMode::Range { pos, len } => {
            if len == 0 {
                (ReaderV { phase: PhaseV::Terminal, ..s }, ActionV::Done(Seq::empty()))
            } else if pos + len > key.file_size() {
                fail_spec(s, Error::OutOfRange)
            } else {
                let start = chunk_at(key.keys, pos as int);
                let end = chunk_at(key.keys, pos + len - 1);
                let count = end - start + 1;
                (
                    ReaderV {
                        phase: PhaseV::AwaitData {
                            key,
                            start,
                            count,
                            skip: pos - spec_size_sum(key.keys, start),
                            want: len as int,
                        },
                        ..s
                    },
                    ActionV::FetchSet(dst_hashes(key.keys, start, count)),
                )
            }
        },
    }
}

/// What follows once a key record has been parsed (from the head chunk or
/// from a decoded indirection level): reject an ill-formed record; descend
/// into a further indirection level while the bounded depth allows; or enter
/// the data phase.
pub open spec fn after_key_spec(s: ReaderV, key: DecodeKeyView) -> (ReaderV, ActionV) {
    if !key.well_formed() {
        fail_spec(s, Error::Serialization)
    } else {
        match key.child {
            None => enter_data_spec(s, key),
            Some(_) => {
                if s.depth + 1 > MAX_INDIRECTION_LEVELS {
                    fail_spec(s, Error::IndirectionTooDeep)
                } else {
                    (
                        ReaderV {
                            depth: s.depth + 1,
                            phase: PhaseV::AwaitLevel { key },
                            ..s
                        },
                        ActionV::FetchSet(dst_hashes(key.keys, 0, key.keys.len() as int)),
                    )
                }
            },
        }
    }
}

/// The head transition: unwrap the payload for private scope, parse the
/// secret-key union (its tag must agree with the record's level marker),
/// and hand the key on.
pub open spec fn head_step_spec(s: ReaderV, res: Result<Seq<u8>, Error>) -> (ReaderV, ActionV) {
    match res {
        Err(e) => fail_spec(s, e),
        Ok(value) => {
            let payload = if s.scope is Private {
                match s.owner {
                    Some(secret) => unwrap_spec(secret, value),
                    None => None,
                }
            } else {
                Some(value)
            };
            match payload {
                None => fail_spec(
                    s,
                    if s.owner is None && s.scope is Private {
                        Error::NoEncryptionCapability
                    } else {
                        Error::Decryption
                    },
                ),
                Some(bytes) => match parse_secret_key_payload(bytes) {
                    None => fail_spec(s, Error::Serialization),
                    Some((first_level, key)) => {
                        if first_level != (key.child is None) {
                            fail_spec(s, Error::Serialization)
                        } else {
                            after_key_spec(s, key)
                        }
                    },
                },
            }
        },
    }
}

/// The indirection transition: judge the fetched set, decode the level,
/// parse the decoded bytes as the next key record, and insist that its
/// level marker strictly decreases.
pub open spec fn level_step_spec(s: ReaderV, key: DecodeKeyView, fetched: Seq<Option<Seq<u8>>>) -> (
    ReaderV,
    ActionV,
) {
    let n = key.keys.len() as int;
    match collect_spec(n, fetched) {
        Err(e) => fail_spec(s, e),
        Ok(contents) => match level_decode_prefix(key, contents, 0, n) {
            None => fail_spec(s, Error::SelfEncryption),
            Some(bytes) => match parse_key_record(bytes) {
                None => fail_spec(s, Error::Serialization),
                Some(next) => {
                    if !(child_level_of(next) < child_level_of(key)) {
                        fail_spec(s, Error::Serialization)
                    } else {
                        after_key_spec(s, next)
                    }
                },
            },
        },
    }
}

/// The data transition: judge the fetched set, decode the covering range,
/// and deliver exactly the requested window.
pub open spec fn data_step_spec(
    s: ReaderV,
    key: DecodeKeyView,
    start: int,
    count: int,
    skip: int,
    want: int,
    fetched: Seq<Option<Seq<u8>>>,
) -> (ReaderV, ActionV) {
    if !(0 <= start && 0 <= count && start + count <= key.keys.len()) {
        fail_spec(s, Error::UnexpectedResponse)
    } else {
        match collect_spec(count, fetched) {
            Err(e) => fail_spec(s, e),
            Ok(contents) => match level_decode_prefix(key, contents, start, count) {
                None => fail_spec(s, Error::SelfEncryption),
                Some(bytes) => {
                    if !(0 <= skip && 0 <= want && skip + want <= bytes.len()) {
                        fail_spec(s, Error::OutOfRange)
                    } else {
                        (
                            ReaderV { phase: PhaseV::Terminal, ..s },
                            ActionV::Done(bytes.subrange(skip, skip + want)),
                        )
                    }
                },
            },
        }
    }
}

/// One transition of the machine: feed the outcome of the last action,
/// receive the next state and action. An event that does not match the
/// awaited kind fails the read with `UnexpectedResponse`.
pub open spec fn step_spec(s: ReaderV, e: EventV) -> (ReaderV, ActionV) {
    match s.phase {
        PhaseV::AwaitHead => match e {
            EventV::Head(res) => head_step_spec(s, res),
            EventV::ChunkSet(_) => fail_spec(s, Error::UnexpectedResponse),
        },
        PhaseV::AwaitLevel { key } => match e {
            EventV::ChunkSet(fetched) => level_step_spec(s, key, fetched),
            EventV::Head(_) => fail_spec(s, Error::UnexpectedResponse),
        },
        PhaseV::AwaitData { key, start, count, skip, want } => match e {
            EventV::ChunkSet(fetched) => data_step_spec(s, key, start, count, skip, want, fetched),
            EventV::Head(_) => fail_spec(s, Error::UnexpectedResponse),
        },
        PhaseV::Terminal => fail_spec(s, Error::UnexpectedResponse),
    }
}

/// A chunk-set event's payloads keep their presence pattern under `view`.
pub proof fn lemma_fetched_view_present(fetched: Seq<Option<Vec<u8>>>)
    ensures
        fetched_view(fetched).len() == fetched.len(),
        forall|j: int|
            #[trigger] present_at(fetched_view(fetched), j) == present_at(fetched, j),
{
    assert forall|j: int|
        #[trigger] present_at(fetched_view(fetched), j) == present_at(fetched, j) by {
        if 0 <= j < fetched.len() {
            assert(fetched_view(fetched)[j] is Some == fetched[j] is Some);
        }
    }
}

/// A chunk-set event's payloads keep their presence count under `view`.
pub proof fn lemma_fetched_view_count(fetched: Seq<Option<Vec<u8>>>, n: int)
    ensures
        count_present(fetched_view(fetched), n) == count_present(fetched, n),
    decreases n,
{
    lemma_fetched_view_present(fetched);
    if n > 0 {
        lemma_fetched_view_count(fetched, n - 1);
    }
}

/// Starting a read: a private address demands the owner capability up
/// front; then the head chunk is fetched by the address's name.
pub open spec fn start_spec(address: BlobAddress, owner: Option<Seq<u8>>, mode: ReadMode) -> (
    ReaderV,
    ActionV,
) {
    let s = ReaderV {
        scope: address.scope_spec(),
        owner,
        mode,
        depth: 0,
        phase: PhaseV::AwaitHead,
    };
    if address.scope_spec() is Private && owner is None {
        fail_spec(s, Error::NoEncryptionCapability)
    } else {
        (s, ActionV::FetchHead(address.name_spec()))
    }
}

/// The names to fetch for positions `start .. start + count` of a key.
fn dst_hashes_vec(keys: &Vec<ChunkKey>, start: usize, count: usize) -> (r: Vec<[u8; 32]>)
    requires
        start + count <= keys@.len(),
    ensures
        r@ == dst_hashes(keys@, start as int, count as int),
{
    let n = keys.len();
    let mut out: Vec<[u8; 32]> = Vec::new();
    let mut j: usize = 0;
    while j < count
        invariant
            0 <= j <= count,
            n == keys@.len(),
            start + count <= n,
            out@.len() == j,
            forall|i: int| 0 <= i < j ==> out@[i] == keys@[start + i].dst_hash,
        decreases count - j,
    {
        out.push(keys[start + j].dst_hash);
        j = j + 1;
    }
    proof {
        assert(out@ =~= dst_hashes(keys@, start as int, count as int));
    }
    out
}

/// The chunk keys at positions `start .. start + count`.
fn sub_keys(keys: &Vec<ChunkKey>, start: usize, count: usize) -> (r: Vec<ChunkKey>)
    requires
        start + count <= keys@.len(),
    ensures
        r@ == keys@.subrange(start as int, start + count),
{
    let n = keys.len();
    let mut out: Vec<ChunkKey> = Vec::new();
    let mut j: usize = 0;
    while j < count
        invariant
            0 <= j <= count,
            n == keys@.len(),
            start + count <= n,
            out@.len() == j,
            forall|i: int| 0 <= i < j ==> out@[i] == keys@[start + i],
        decreases count - j,
    {
        out.push(keys[start + j]);
        j = j + 1;
    }
    proof {
        assert(out@ =~= keys@.subrange(start as int, start + count));
    }
    out
}

/// The level marker a key's chunks were encrypted at.
fn child_level(key: &DecodeKey) -> (r: usize)
    ensures
        r == child_level_of(key@),
{
    match key.child {
        Some(l) => l,
        None => 0,
    }
}

/// Finds the chunk covering byte `p`: its position and its byte offset.
fn find_chunk(key: &DecodeKey, p: usize) -> (r: (usize, usize))
    requires
        key@.well_formed(),
        p < key@.file_size(),
    ensures
        r.0 == chunk_at(key@.keys, p as int),
        r.0 < key@.keys.len(),
        r.1 == spec_size_sum(key@.keys, r.0 as int),
        r.1 <= p,
{
    let n = key.keys.len();
    let mut i: usize = 0;
    let mut acc: usize = 0;
    while i < n
        invariant
            0 <= i <= n,
            n == key@.keys.len(),
            key@.well_formed(),
            p < key@.file_size(),
            acc == spec_size_sum(key@.keys, i as int),
            acc <= p,
            chunk_at(key@.keys, p as int) == chunk_at_from(key@.keys, p as int, i as int),
        decreases n - i,
    {
        let sz = key.keys[i].src_size;
        proof {
            crate::data::lemma_size_sum_monotonic(key@.keys, i + 1, n as int);
        }
        if p < acc + sz {
            proof {
                assert(chunk_at_from(key@.keys, p as int, i as int) == i);
            }
            return (i, acc);
        }
        acc = acc + sz;
        i = i + 1;
    }
    proof {
        assert(key@.file_size() == spec_size_sum(key@.keys, n as int));
        assert(false);
    }
    (0, 0)
}

impl BlobReader {
    /// Moves the machine to its terminal state with a failure.
    fn fail_with(
        scope: Scope,
        owner: Option<OwnerSecret>,
        mode: ReadMode,
        depth: usize,
        e: Error,
    ) -> (r: (BlobReader, ReadAction))
        ensures
            forall|ph: PhaseV|
                (r.0@, r.1@) == fail_spec(
                    ReaderV {
                        scope,
                        owner: owner_bytes(owner),
                        mode,
                        depth: depth as int,
                        phase: ph,
                    },
                    e,
                ),
    {
        (
            BlobReader { scope, owner, mode, depth, phase: Phase::Terminal },
            ReadAction::Fail(e),
        )
    }

    /// Enters the data phase for a first-level key.
    fn enter_data(
        scope: Scope,
        owner: Option<OwnerSecret>,
        mode: ReadMode,
        depth: usize,
        key: DecodeKey,
    ) -> (r: (BlobReader, ReadAction))
        requires
            key@.well_formed(),
        ensures
            forall|ph: PhaseV|
                (r.0@, r.1@) == enter_data_spec(
                    ReaderV {
                        scope,
                        owner: owner_bytes(owner),
                        mode,
                        depth: depth as int,
                        phase: ph,
                    },
                    key@,
                ),
    {
        match mode {
            ReadMode::Full => {
                let n = key.len();
                let fs = key.file_size();
                let hashes = dst_hashes_vec(&key.keys, 0, n);
                (
                    BlobReader {
                        scope,
                        owner,
                        mode,
                        depth,
                        phase: Phase::AwaitData { key, start: 0, count: n, skip: 0, want: fs },
                    },
                    ReadAction::FetchSet(hashes),
                )
            },
            ReadMode::Range { pos, len } => {
                if len == 0 {
                    (
                        BlobReader { scope, owner, mode, depth, phase: Phase::Terminal },
                        ReadAction::Done(Vec::new()),
                    )
                } else {
                    let fs = key.file_size();
                    if len > fs || pos > fs - len {
                        Self::fail_with(scope, owner, mode, depth, Error::OutOfRange)
                    } else {
                        let n = key.len();
                        let (start, off) = find_chunk(&key, pos);
                        let (end, _) = find_chunk(&key, pos + (len - 1));
                        proof {
                            lemma_chunk_at_props(key@.keys, pos as int, 0);
                            lemma_chunk_at_props(key@.keys, pos + len - 1, 0);
                            assert(end < n);
                            if end < start {
                                crate::data::lemma_size_sum_monotonic(
                                    key@.keys,
                                    end + 1,
                                    start as int,
                                );
                                assert(false);
                            }
                        }
                        let count = end - start + 1;
                        let skip = pos - off;
                        let hashes = dst_hashes_vec(&key.keys, start, count);
                        (
                            BlobReader {
                                scope,
                                owner,
                                mode,
                                depth,
                                phase: Phase::AwaitData { key, start, count, skip, want: len },
                            },
                            ReadAction::FetchSet(hashes),
                        )
                    }
                }
            },
        }
    }

    /// Hands a freshly parsed key record on: validate it, descend into a
    /// further indirection level, or enter the data phase.
    fn after_key(
        scope: Scope,
        owner: Option<OwnerSecret>,
        mode: ReadMode,
        depth: usize,
        key: DecodeKey,
    ) -> (r: (BlobReader, ReadAction))
        ensures
            forall|ph: PhaseV|
                (r.0@, r.1@) == after_key_spec(
                    ReaderV {
                        scope,
                        owner: owner_bytes(owner),
                        mode,
                        depth: depth as int,
                        phase: ph,
                    },
                    key@,
                ),
    {
        if !key.check_well_formed() {
            Self::fail_with(scope, owner, mode, depth, Error::Serialization)
        } else {
            match key.child {
                None => Self::enter_data(scope, owner, mode, depth, key),
                Some(_) => {
                    if depth >= MAX_INDIRECTION_LEVELS {
                        Self::fail_with(scope, owner, mode, depth, Error::IndirectionTooDeep)
                    } else {
                        let n = key.len();
                        let hashes = dst_hashes_vec(&key.keys, 0, n);
                        (
                            BlobReader {
                                scope,
                                owner,
                                mode,
                                depth: depth + 1,
                                phase: Phase::AwaitLevel { key },
                            },
                            ReadAction::FetchSet(hashes),
                        )
                    }
                },
            }
        }
    }

    /// Handles the head-chunk outcome.
    fn head_step(
        scope: Scope,
        owner: Option<OwnerSecret>,
        mode: ReadMode,
        depth: usize,
        res: Result<Chunk, Error>,
    ) -> (r: (BlobReader, ReadAction))
        ensures
            forall|ph: PhaseV|
                (r.0@, r.1@) == head_step_spec(
                    ReaderV {
                        scope,
                        owner: owner_bytes(owner),
                        mode,
                        depth: depth as int,
                        phase: ph,
                    },
                    match res {
                        Ok(chunk) => Ok(chunk.value@),
                        Err(e) => Err(e),
                    },
                ),
    {
        match res {
            Err(e) => Self::fail_with(scope, owner, mode, depth, e),
            Ok(chunk) => {
                let payload_res: Result<Vec<u8>, Error> = if matches!(scope, Scope::Private) {
                    match &owner {
                        Some(o) => unwrap(o, &chunk.value),
                        None => Err(Error::NoEncryptionCapability),
                    }
                } else {
                    Ok(chunk.value)
                };
                match payload_res {
                    Err(e) => Self::fail_with(scope, owner, mode, depth, e),
                    Ok(payload) => match deserialize_secret_key(&payload) {
                        Err(e) => Self::fail_with(scope, owner, mode, depth, e),
                        Ok(sk) => match sk {
                            SecretKey::FirstLevel(key) => Self::after_key(
                                scope, owner, mode, depth, key,
                            ),
                            SecretKey::AdditionalLevel(key) => Self::after_key(
                                scope, owner, mode, depth, key,
                            ),
                        },
                    },
                }
            },
        }
    }

    /// Handles the chunk-set outcome of an additional indirection level.
    fn level_step(
        scope: Scope,
        owner: Option<OwnerSecret>,
        mode: ReadMode,
        depth: usize,
        key: DecodeKey,
        fetched: Vec<Option<Vec<u8>>>,
    ) -> (r: (BlobReader, ReadAction))
        ensures
            forall|ph: PhaseV|
                (r.0@, r.1@) == level_step_spec(
                    ReaderV {
                        scope,
                        owner: owner_bytes(owner),
                        mode,
                        depth: depth as int,
                        phase: ph,
                    },
                    key@,
                    fetched_view(fetched@),
                ),
    {
        let ghost n = key@.keys.len() as int;
        proof {
            lemma_fetched_view_present(fetched@);
            lemma_fetched_view_count(fetched@, n);
        }
        match try_get_chunks(&key.keys, &fetched) {
            Err(e) => {
                proof {
                    let ghost j = choose|j: int| 0 <= j < n && !present_at(fetched@, j);
                    assert(!present_at(fetched_view(fetched@), j));
                    assert(!crate::fetch::all_present(fetched_view(fetched@), n));
                    assert(collect_spec(n, fetched_view(fetched@)) matches Err(e2) && e2 == e);
                }
                Self::fail_with(scope, owner, mode, depth, e)
            },
            Ok(chunks) => {
                proof {
                    assert(crate::fetch::all_present(fetched_view(fetched@), n)) by {
                        assert forall|j: int| 0 <= j < n implies present_at(
                            fetched_view(fetched@),
                            j,
                        ) by {
                            assert(present_at(fetched@, j));
                        }
                    }
                    assert(collect_spec(n, fetched_view(fetched@)) == Ok::<Seq<Seq<u8>>, Error>(
                        fetched_contents(fetched_view(fetched@), n),
                    ));
                    assert forall|j: int| 0 <= j < n implies contents_view(chunks@)[j]
                        == fetched_contents(fetched_view(fetched@), n)[j] by {
                        assert(present_at(fetched@, j));
                        assert(chunks@[j].content@ == fetched@[j]->0@);
                        assert(fetched_view(fetched@)[j] == Some(fetched@[j]->0@));
                    }
                    assert(contents_view(chunks@) =~= fetched_contents(fetched_view(fetched@), n));
                }
                match decode_level_slice(&key, 0, &chunks) {
                    Err(e) => Self::fail_with(scope, owner, mode, depth, e),
                    Ok(bytes) => match crate::collaborator::key_record_from_bytes(&bytes) {
                        Err(e) => Self::fail_with(scope, owner, mode, depth, e),
                        Ok(next) => {
                            if !(child_level(&next) < child_level(&key)) {
                                Self::fail_with(scope, owner, mode, depth, Error::Serialization)
                            } else {
                                Self::after_key(scope, owner, mode, depth, next)
                            }
                        },
                    },
                }
            },
        }
    }

    /// Handles the chunk-set outcome of the data phase.
    fn data_step(
        scope: Scope,
        owner: Option<OwnerSecret>,
        mode: ReadMode,
        depth: usize,
        key: DecodeKey,
        start: usize,
        count: usize,
        skip: usize,
        want: usize,
        fetched: Vec<Option<Vec<u8>>>,
    ) -> (r: (BlobReader, ReadAction))
        ensures
            forall|ph: PhaseV|
                (r.0@, r.1@) == data_step_spec(
                    ReaderV {
                        scope,
                        owner: owner_bytes(owner),
                        mode,
                        depth: depth as int,
                        phase: ph,
                    },
                    key@,
                    start as int,
                    count as int,
                    skip as int,
                    want as int,
                    fetched_view(fetched@),
                ),
    {
        let n = key.keys.len();
        if count > n || start > n - count {
            return Self::fail_with(scope, owner, mode, depth, Error::UnexpectedResponse);
        }
        let ghost cnt = count as int;
        proof {
            lemma_fetched_view_present(fetched@);
            lemma_fetched_view_count(fetched@, cnt);
        }
        let subk = sub_keys(&key.keys, start, count);
        match try_get_chunks(&subk, &fetched) {
            Err(e) => {
                proof {
                    let ghost j = choose|j: int| 0 <= j < cnt && !present_at(fetched@, j);
                    assert(!present_at(fetched_view(fetched@), j));
                    assert(!crate::fetch::all_present(fetched_view(fetched@), cnt));
                    assert(collect_spec(cnt, fetched_view(fetched@)) matches Err(e2) && e2 == e);
                }
                Self::fail_with(scope, owner, mode, depth, e)
            },
            Ok(chunks) => {
                proof {
                    assert(crate::fetch::all_present(fetched_view(fetched@), cnt)) by {
                        assert forall|j: int| 0 <= j < cnt implies present_at(
                            fetched_view(fetched@),
                            j,
                        ) by {
                            assert(present_at(fetched@, j));
                        }
                    }
                    assert(collect_spec(cnt, fetched_view(fetched@)) == Ok::<Seq<Seq<u8>>, Error>(
                        fetched_contents(fetched_view(fetched@), cnt),
                    ));
                    assert forall|j: int| 0 <= j < cnt implies contents_view(chunks@)[j]
                        == fetched_contents(fetched_view(fetched@), cnt)[j] by {
                        assert(present_at(fetched@, j));
                        assert(chunks@[j].content@ == fetched@[j]->0@);
                        assert(fetched_view(fetched@)[j] == Some(fetched@[j]->0@));
                    }
                    assert(contents_view(chunks@) =~= fetched_contents(
                        fetched_view(fetched@),
                        cnt,
                    ));
                }
                match decode_level_slice(&key, start, &chunks) {
                    Err(e) => Self::fail_with(scope, owner, mode, depth, e),
                    Ok(bytes) => {
                        let blen = bytes.len();
                        if skip > blen || want > blen - skip {
                            Self::fail_with(scope, owner, mode, depth, Error::OutOfRange)
                        } else {
                            (
                                BlobReader { scope, owner, mode, depth, phase: Phase::Terminal },
                                ReadAction::Done(sub_bytes(&bytes, skip, want)),
                            )
                        }
                    },
                }
            },
        }
    }

    /// Begins a full read of the blob at `address`. For a private address
    /// the owner's capability must be supplied. Returns the machine and its
    /// first action.
    pub fn read_blob(address: &BlobAddress, owner: Option<OwnerSecret>) -> (r: (
        BlobReader,
        ReadAction,
    ))
        ensures
            (r.0@, r.1@) == start_spec(*address, owner_bytes(owner), ReadMode::Full),
    {
        Self::start_with(address, owner, ReadMode::Full)
    }

    /// Begins a ranged read: `length` bytes starting at `position`.
    /// `position = 0` reads from the start. A window past the end of the
    /// blob is rejected with `OutOfRange` once the blob's size is known.
    pub fn read_blob_from(
        address: &BlobAddress,
        owner: Option<OwnerSecret>,
        position: usize,
        length: usize,
    ) -> (r: (BlobReader, ReadAction))
        ensures
            (r.0@, r.1@) == start_spec(
                *address,
                owner_bytes(owner),
                ReadMode::Range { pos: position, len: length },
            ),
    {
        Self::start_with(address, owner, ReadMode::Range { pos: position, len: length })
    }

    /// Begins a read in the given mode.
    fn start_with(address: &BlobAddress, owner: Option<OwnerSecret>, mode: ReadMode) -> (r: (
        BlobReader,
        ReadAction,
    ))
        ensures
            (r.0@, r.1@) == start_spec(*address, owner_bytes(owner), mode),
    {
        let name = *address.name();
        let scope = address.scope();
        if matches!(scope, Scope::Private) && owner.is_none() {
            (
                BlobReader { scope, owner, mode, depth: 0, phase: Phase::Terminal },
                ReadAction::Fail(Error::NoEncryptionCapability),
            )
        } else {
            (
                BlobReader { scope, owner, mode, depth: 0, phase: Phase::AwaitHead },
                ReadAction::FetchHead(name),
            )
        }
    }

    /// Feeds the outcome of the last action into the machine and returns
    /// the next state and action.
    pub fn step(self, event: ReadEvent) -> (r: (BlobReader, ReadAction))
        ensures
            (r.0@, r.1@) == step_spec(self@, event@),
    {
        let BlobReader { scope, owner, mode, depth, phase } = self;
        match (phase, event) {
            (Phase::AwaitHead, ReadEvent::Head(res)) => Self::head_step(
                scope, owner, mode, depth, res,
            ),
            (Phase::AwaitLevel { key }, ReadEvent::ChunkSet(fetched)) => Self::level_step(
                scope, owner, mode, depth, key, fetched,
            ),
            (Phase::AwaitData { key, start, count, skip, want }, ReadEvent::ChunkSet(fetched)) => Self::data_step(
                scope, owner, mode, depth, key, start, count, skip, want, fetched,
            ),
            (_, _) => (
                BlobReader { scope, owner, mode, depth, phase: Phase::Terminal },
                ReadAction::Fail(Error::UnexpectedResponse),
            ),
        }
    }
}

} // verus!
