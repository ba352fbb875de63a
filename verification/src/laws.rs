//! The library-wide properties, stated and proved.
//!
//! The laws here are proved against the spec functions that the executable
//! functions' contracts use: the write pipeline of [`crate::writer`] and the
//! read state machine of [`crate::reader`]. Facts about the self-encryption
//! collaborator enter only through the postconditions of
//! [`crate::writer::encode_blob`], which the round-trip laws take as
//! hypotheses — a caller that has performed a write holds exactly those
//! facts.

use vstd::prelude::*;

use crate::address::Scope;
use crate::data::{lemma_size_sum_monotonic, spec_size_sum, DecodeKeyView, Error};
use crate::fetch::{all_present, count_present, fetched_contents, present_at};
use crate::model::{
    child_level_of, drawn, hash_of, key_record_bytes, level_decode, level_decode_prefix,
    parse_key_record, se_plain, se_resolve, src_hashes_of, stores_all,
};
use crate::reader::{
    after_key_spec, chunk_at, dst_hashes, enter_data_spec, start_spec, step_spec, ActionV, EventV,
    PhaseV, ReadMode, ReaderV,
};
use crate::shield::lemma_unwrap_wrap;
use crate::writer::{blob_address_of, head_record_payload, sealed_head_payload};
use crate::model::{se_chunks_of, se_map_of};
use crate::MAX_INDIRECTION_LEVELS;

verus! {

/// Determinism of the write side: encoding identical bytes under an
/// identical scope and owner yields the identical blob address, the
/// identical head payload and the identical chunk set. The executable
/// pipeline returns exactly these values, and its success is an iff over
/// the input (`encode_blob`'s first postcondition), so two writes of the
/// same input provably succeed together and return the same result — a
/// repeated write can never fail as a conflict.
pub proof fn lemma_encode_deterministic(
    b1: Seq<u8>,
    scope1: Scope,
    owner1: Option<Seq<u8>>,
    b2: Seq<u8>,
    scope2: Scope,
    owner2: Option<Seq<u8>>,
)
    requires
        b1 == b2,
        scope1 == scope2,
        owner1 == owner2,
    ensures
        blob_address_of(b1, scope1, owner1) == blob_address_of(b2, scope2, owner2),
        sealed_head_payload(b1, scope1, owner1) == sealed_head_payload(b2, scope2, owner2),
        se_map_of(b1) == se_map_of(b2),
        se_chunks_of(b1) == se_chunks_of(b2),
{
}

/// Strictly fewer arrivals than requests means a strictly smaller count.
pub proof fn lemma_count_missing<T>(fetched: Seq<Option<T>>, n: int)
    requires
        0 <= n,
        !all_present(fetched, n),
    ensures
        count_present(fetched, n) < n,
    decreases n,
{
    if n > 0 {
        if present_at(fetched, n - 1) {
            assert(!all_present(fetched, n - 1)) by {
                let j = choose|j: int| 0 <= j < n && !present_at(fetched, j);
                assert(!present_at(fetched, j) && j < n - 1 + 1);
            }
            lemma_count_missing(fetched, n - 1);
        } else {
            crate::fetch::lemma_count_present_bounds(fetched, n - 1);
        }
    }
}

/// Fault containment: when the machine awaits a chunk set and strictly
/// fewer chunks than required are retrievable, the read fails as a whole
/// with `NotEnoughChunks(expected, actual)`, `actual < expected` — never a
/// truncated or corrupted result.
pub proof fn lemma_fault_containment(s: ReaderV, fetched: Seq<Option<Seq<u8>>>, n: int)
    requires
        match s.phase {
            PhaseV::AwaitLevel { key } => n == key.keys.len(),
            PhaseV::AwaitData { key, start, count, .. } => {
                &&& n == count
                &&& 0 <= start
                &&& 0 <= count
                &&& start + count <= key.keys.len()
            },
            _ => false,
        },
        !all_present(fetched, n),
    ensures
        step_spec(s, EventV::ChunkSet(fetched)).1 == ActionV::Fail(
            Error::NotEnoughChunks(n as usize, count_present(fetched, n) as usize),
        ),
        step_spec(s, EventV::ChunkSet(fetched)).0.phase is Terminal,
        count_present(fetched, n) < n,
{
    lemma_count_missing(fetched, n);
    crate::fetch::lemma_count_present_bounds(fetched, n);
}

/// A successful decode has exactly the declared sizes: its length is the
/// sum of the `src_size` fields over the decoded span.
pub proof fn lemma_decode_len(key: DecodeKeyView, contents: Seq<Seq<u8>>, start: int, n: int)
    requires
        0 <= start,
        0 <= n,
        level_decode_prefix(key, contents, start, n) is Some,
    ensures
        level_decode_prefix(key, contents, start, n)->0.len() == spec_size_sum(
            key.keys,
            start + n,
        ) - spec_size_sum(key.keys, start),
    decreases n,
{
    if n > 0 {
        lemma_decode_len(key, contents, start, n - 1);
    }
}

/// A decode prefix reads only the first `n` contents: sequences that agree
/// there decode alike.
pub proof fn lemma_prefix_congruent(
    key: DecodeKeyView,
    c1: Seq<Seq<u8>>,
    c2: Seq<Seq<u8>>,
    start: int,
    n: int,
)
    requires
        0 <= n,
        n <= c1.len(),
        n <= c2.len(),
        forall|j: int| 0 <= j < n ==> c1[j] == c2[j],
    ensures
        level_decode_prefix(key, c1, start, n) == level_decode_prefix(key, c2, start, n),
    decreases n,
{
    if n > 0 {
        lemma_prefix_congruent(key, c1, c2, start, n - 1);
    }
}

/// A successful decode succeeds on every shorter prefix, with the
/// corresponding prefix of the result.
pub proof fn lemma_prefix_take(
    key: DecodeKeyView,
    contents: Seq<Seq<u8>>,
    n: int,
    j: int,
    x: Seq<u8>,
)
    requires
        0 <= j <= n,
        level_decode_prefix(key, contents, 0, n) == Some(x),
    ensures
        level_decode_prefix(key, contents, 0, j) == Some(
            x.take(spec_size_sum(key.keys, j)),
        ),
    decreases n - j,
{
    if level_decode_prefix(key, contents, 0, j) is None {
        crate::decode::lemma_prefix_none(key, contents, 0, j, n);
    }
    assert(level_decode_prefix(key, contents, 0, j) is Some);
    lemma_decode_len(key, contents, 0, n);
    lemma_decode_len(key, contents, 0, j);
    lemma_size_sum_monotonic(key.keys, 0, j);
    lemma_size_sum_monotonic(key.keys, j, n);
    if j == n {
        assert(x.take(spec_size_sum(key.keys, n)) =~= x);
    } else {
        lemma_prefix_take(key, contents, n, j + 1, x);
        lemma_decode_len(key, contents, 0, j + 1);
        lemma_size_sum_monotonic(key.keys, j, j + 1);
        let sj = spec_size_sum(key.keys, j);
        let yj = level_decode_prefix(key, contents, 0, j)->0;
        let yj1 = level_decode_prefix(key, contents, 0, j + 1)->0;
        assert(yj1 == yj + se_plain(j, contents[j], src_hashes_of(key), child_level_of(key))->0);
        assert(yj =~= yj1.take(sj)) by {
            assert(forall|i: int|
                0 <= i < sj ==> yj[i] == #[trigger] (yj + se_plain(
                    j,
                    contents[j],
                    src_hashes_of(key),
                    child_level_of(key),
                )->0)[i]);
        }
        assert(yj1 == x.take(spec_size_sum(key.keys, j + 1)));
        lemma_size_sum_monotonic(key.keys, j + 1, n);
        assert(x.take(spec_size_sum(key.keys, j + 1)).take(sj) =~= x.take(sj));
    }
}

/// Decoding a window of a fully decodable level yields exactly the
/// corresponding byte range of the full decode.
pub proof fn lemma_decode_window(
    key: DecodeKeyView,
    contents: Seq<Seq<u8>>,
    a: int,
    m: int,
    n: int,
    x: Seq<u8>,
)
    requires
        0 <= a,
        0 <= m,
        a + m <= n,
        n <= contents.len(),
        level_decode_prefix(key, contents, 0, n) == Some(x),
    ensures
        level_decode_prefix(key, contents.subrange(a, a + m), a, m) == Some(
            x.subrange(spec_size_sum(key.keys, a), spec_size_sum(key.keys, a + m)),
        ),
    decreases m,
{
    lemma_decode_len(key, contents, 0, n);
    lemma_size_sum_monotonic(key.keys, 0, a);
    lemma_size_sum_monotonic(key.keys, a, a + m);
    lemma_size_sum_monotonic(key.keys, a + m, n);
    assert(x.len() == spec_size_sum(key.keys, n));
    if m == 0 {
        assert(x.subrange(spec_size_sum(key.keys, a), spec_size_sum(key.keys, a)) =~= Seq::<
            u8,
        >::empty());
    } else {
        lemma_decode_window(key, contents, a, m - 1, n, x);
        lemma_prefix_congruent(
            key,
            contents.subrange(a, a + m - 1),
            contents.subrange(a, a + m),
            a,
            m - 1,
        );
        let p = a + m - 1;
        // The step at global position p succeeds, with the piece being the
        // corresponding byte range of the full decode.
        lemma_prefix_take(key, contents, n, p + 1, x);
        lemma_prefix_take(key, contents, n, p, x);
        let piece = se_plain(p, contents[p], src_hashes_of(key), child_level_of(key))->0;
        let sp = spec_size_sum(key.keys, p);
        let sp1 = spec_size_sum(key.keys, p + 1);
        lemma_size_sum_monotonic(key.keys, 0, p);
        lemma_size_sum_monotonic(key.keys, p, p + 1);
        lemma_size_sum_monotonic(key.keys, p + 1, n);
        assert(level_decode_prefix(key, contents, 0, p + 1)->0 == level_decode_prefix(
            key,
            contents,
            0,
            p,
        )->0 + piece);
        assert(x.take(sp1) == x.take(sp) + piece);
        assert(x.take(sp).len() == sp);
        assert(piece =~= x.subrange(sp, sp1)) by {
            assert(piece.len() == sp1 - sp);
            assert forall|i: int| 0 <= i < sp1 - sp implies piece[i] == x[sp + i] by {
                assert((x.take(sp) + piece)[sp + i] == piece[i]);
                assert(x.take(sp1)[sp + i] == x[sp + i]);
            }
        }
        assert(contents.subrange(a, a + m)[m - 1] == contents[p]);
        let sa = spec_size_sum(key.keys, a);
        let sm1 = spec_size_sum(key.keys, a + m - 1);
        lemma_size_sum_monotonic(key.keys, a, a + m - 1);
        assert(level_decode_prefix(key, contents.subrange(a, a + m), a, m) == Some(x.subrange(
            sa,
            sm1,
        ) + piece));
        assert(x.subrange(sa, sm1) + x.subrange(sm1, sp1) =~= x.subrange(sa, sp1));
    }
}


/// The canonical answer a faithful store gives to a fetch action: the bytes
/// it holds under each requested name, absence where it holds none.
pub open spec fn answer(a: ActionV, store: Map<[u8; 32], Seq<u8>>) -> EventV {
    match a {
        ActionV::FetchHead(h) => EventV::Head(
            if store.dom().contains(h) {
                Ok(store[h])
            } else {
                Err(Error::FetchFailed)
            },
        ),
        ActionV::FetchSet(hs) => EventV::ChunkSet(
            Seq::new(
                hs.len(),
                |j: int|
                    if store.dom().contains(hs[j]) {
                        Some(store[hs[j]])
                    } else {
                        None::<Seq<u8>>
                    },
            ),
        ),
        ActionV::Done(_) => EventV::Head(Err(Error::UnexpectedResponse)),
        ActionV::Fail(_) => EventV::Head(Err(Error::UnexpectedResponse)),
    }
}

/// Driving the machine for up to `k` transitions against a faithful store,
/// stopping at the first terminal action.
pub open spec fn run_from(s: ReaderV, a: ActionV, store: Map<[u8; 32], Seq<u8>>, k: nat) -> (
    ReaderV,
    ActionV,
)
    decreases k,
{
    if k == 0 {
        (s, a)
    } else {
        match a {
            ActionV::Done(_) => (s, a),
            ActionV::Fail(_) => (s, a),
            _ => {
                let next = step_spec(s, answer(a, store));
                run_from(next.0, next.1, store, (k - 1) as nat)
            },
        }
    }
}

/// What a read in the given mode owes once the blob's bytes are `target`:
/// the whole blob for a full read; for a ranged read, nothing for an empty
/// window, an explicit out-of-range failure for a window past the end, and
/// exactly the windowed bytes otherwise.
pub open spec fn expected_outcome(mode: ReadMode, target: Seq<u8>) -> ActionV {
    match mode {
        ReadMode::Full => ActionV::Done(target),
        ReadMode::Range { pos, len } => {
            if len == 0 {
                ActionV::Done(Seq::empty())
            } else if pos + len > target.len() {
                ActionV::Fail(Error::OutOfRange)
            } else {
                ActionV::Done(target.subrange(pos as int, pos + len))
            }
        },
    }
}

/// The canonical chunk-set event for the chunks at positions
/// `start .. start + count` of a key delivers the store's bytes at every
/// position, and they are the drawn contents of the key.
proof fn lemma_canonical_set_event(
    key: DecodeKeyView,
    store: Map<[u8; 32], Seq<u8>>,
    start: int,
    count: int,
)
    requires
        0 <= start,
        0 <= count,
        start + count <= key.keys.len(),
        crate::model::all_present(key, store),
    ensures
        ({
            let ev = answer(ActionV::FetchSet(dst_hashes(key.keys, start, count)), store);
            &&& ev matches EventV::ChunkSet(fetched)
            &&& all_present(ev->ChunkSet_0, count)
            &&& fetched_contents(ev->ChunkSet_0, count) == drawn(key, store).subrange(
                start,
                start + count,
            )
        }),
{
    let hs = dst_hashes(key.keys, start, count);
    let ev = answer(ActionV::FetchSet(hs), store);
    let fetched = ev->ChunkSet_0;
    assert forall|j: int| 0 <= j < count implies present_at(fetched, j) by {
        assert(store.dom().contains(key.keys[start + j].dst_hash));
        assert(hs[j] == key.keys[start + j].dst_hash);
    }
    assert forall|j: int| 0 <= j < count implies fetched_contents(fetched, count)[j] == drawn(
        key,
        store,
    ).subrange(start, start + count)[j] by {
        assert(store.dom().contains(key.keys[start + j].dst_hash));
        assert(fetched[j] == Some(store[key.keys[start + j].dst_hash]));
    }
    assert(fetched_contents(fetched, count) =~= drawn(key, store).subrange(start, start + count));
}

/// Once the machine holds a well-formed key that resolves to `target`
/// against the store, driving it against that store delivers the read's
/// owed outcome.
proof fn lemma_after_key_runs(
    s: ReaderV,
    key: DecodeKeyView,
    store: Map<[u8; 32], Seq<u8>>,
    target: Seq<u8>,
    k: nat,
)
    requires
        key.well_formed(),
        se_resolve(key, store) == Some(target),
        0 <= s.depth,
        s.depth + child_level_of(key) <= MAX_INDIRECTION_LEVELS,
        k >= child_level_of(key) + 1,
    ensures
        ({
            let (s1, a1) = after_key_spec(s, key);
            run_from(s1, a1, store, k).1 == expected_outcome(s.mode, target)
        }),
    decreases child_level_of(key),
{
    let n = key.keys.len() as int;
    let dc = drawn(key, store);
    assert(crate::model::all_present(key, store));
    assert(level_decode(key, dc) is Some);
    let bytes = level_decode(key, dc)->0;
    assert(dc.len() == n);
    assert(level_decode_prefix(key, dc, 0, n) == Some(bytes));
    lemma_decode_len(key, dc, 0, n);
    assert(spec_size_sum(key.keys, 0) == 0);
    assert(bytes.len() == spec_size_sum(key.keys, n));
    match key.child {
        None => {
            assert(bytes == target);
            assert(bytes.len() == key.file_size());
            let (s1, a1) = enter_data_spec(s, key);
            assert(after_key_spec(s, key) == (s1, a1));
            match s.mode {
                ReadMode::Full => {
                    lemma_canonical_set_event(key, store, 0, n);
                    let ev = answer(a1, store);
                    let fetched = ev->ChunkSet_0;
                    assert(fetched_contents(fetched, n) =~= dc) by {
                        assert(dc.subrange(0, n) =~= dc);
                    }
                    let (s2, a2) = step_spec(s1, ev);
                    assert(a2 == ActionV::Done(bytes.subrange(0, key.file_size()))) by {
                        lemma_prefix_congruent(key, fetched_contents(fetched, n), dc, 0, n);
                    }
                    assert(bytes.subrange(0, key.file_size()) =~= target);
                    assert(run_from(s1, a1, store, k) == run_from(s2, a2, store, (k - 1) as nat));
                    assert(run_from(s2, a2, store, (k - 1) as nat).1 == a2);
                },
                ReadMode::Range { pos, len } => {
                    if len == 0 {
                        assert(a1 == ActionV::Done(Seq::<u8>::empty()));
                        assert(run_from(s1, a1, store, k).1 == a1);
                    } else if pos + len > key.file_size() {
                        assert(a1 == ActionV::Fail(Error::OutOfRange));
                        assert(run_from(s1, a1, store, k).1 == a1);
                    } else {
                        let start = chunk_at(key.keys, pos as int);
                        let end = chunk_at(key.keys, pos + len - 1);
                        crate::reader::lemma_chunk_at_props(key.keys, pos as int, 0);
                        crate::reader::lemma_chunk_at_props(key.keys, pos + len - 1, 0);
                        let sst = spec_size_sum(key.keys, start);
                        let sen = spec_size_sum(key.keys, end + 1);
                        if end < start {
                            lemma_size_sum_monotonic(key.keys, end + 1, start);
                            assert(false);
                        }
                        let count = end - start + 1;
                        let skip = pos - sst;
                        lemma_canonical_set_event(key, store, start, count);
                        let ev = answer(a1, store);
                        let fetched = ev->ChunkSet_0;
                        let sub = dc.subrange(start, start + count);
                        assert(fetched_contents(fetched, count) == sub);
                        lemma_decode_window(key, dc, start, count, n, bytes);
                        let mid = bytes.subrange(sst, sen);
                        assert(level_decode_prefix(key, sub, start, count) == Some(mid)) by {
                            lemma_prefix_congruent(key, sub, dc.subrange(start, start + count), start, count);
                        }
                        let (s2, a2) = step_spec(s1, ev);
                        assert(level_decode_prefix(key, fetched_contents(fetched, count), start, count) == Some(mid)) by {
                            lemma_prefix_congruent(key, fetched_contents(fetched, count), sub, start, count);
                        }
                        lemma_size_sum_monotonic(key.keys, 0, start);
                        lemma_size_sum_monotonic(key.keys, end + 1, n);
                        assert(skip + len <= mid.len());
                        assert(a2 == ActionV::Done(mid.subrange(skip, skip + len)));
                        assert(mid.subrange(skip, skip + len) =~= target.subrange(
                            pos as int,
                            pos + len,
                        ));
                        assert(run_from(s1, a1, store, k) == run_from(
                            s2,
                            a2,
                            store,
                            (k - 1) as nat,
                        ));
                        assert(run_from(s2, a2, store, (k - 1) as nat).1 == a2);
                    }
                },
            }
        },
        Some(level) => {
            let parent = parse_key_record(bytes)->0;
            assert(parse_key_record(bytes) is Some && parent.well_formed() && child_level_of(
                parent,
            ) < level && se_resolve(parent, store) == Some(target));
            assert(child_level_of(key) == level && level >= 1);
            let s2 = ReaderV { depth: s.depth + 1, phase: PhaseV::AwaitLevel { key }, ..s };
            let a2 = ActionV::FetchSet(dst_hashes(key.keys, 0, n));
            assert(after_key_spec(s, key) == (s2, a2));
            lemma_canonical_set_event(key, store, 0, n);
            let ev = answer(a2, store);
            let fetched = ev->ChunkSet_0;
            assert(fetched_contents(fetched, n) =~= dc) by {
                assert(dc.subrange(0, n) =~= dc);
            }
            let (s3, a3) = step_spec(s2, ev);
            assert((s3, a3) == after_key_spec(s2, parent)) by {
                lemma_prefix_congruent(key, fetched_contents(fetched, n), dc, 0, n);
            }
            lemma_after_key_runs(s2, parent, store, target, (k - 1) as nat);
            assert(run_from(s2, a2, store, k) == run_from(s3, a3, store, (k - 1) as nat));
        },
    }
}

/// Round trip, for full and ranged reads alike: after a write of `b`, a
/// read of the returned address against any store that answers every fetch
/// with the stored chunks delivers exactly what the mode owes — the whole
/// blob, or the requested byte window. The hypotheses about the
/// self-encryption collaborator are precisely the postconditions of
/// [`crate::writer::encode_blob`]; the store hypotheses say the written
/// chunks (the head chunk included) are retrievable under their own names.
///
/// The last hypothesis — the written key's indirection level is within the
/// resolver's cap — is the one fact no contract supplies, since the level
/// lives behind an uninterpreted name. It holds of every input a vector
/// can hold: each shrinking level divides the chunk count by tens of
/// thousands, so the level count grows logarithmically and stays far below
/// the cap of `MAX_INDIRECTION_LEVELS`.
pub proof fn lemma_write_read_round_trip(
    b: Seq<u8>,
    scope: Scope,
    owner: Option<Seq<u8>>,
    store: Map<[u8; 32], Seq<u8>>,
    mode: ReadMode,
)
    requires
        scope is Private ==> owner is Some,
        se_map_of(b).well_formed(),
        parse_key_record(key_record_bytes(se_map_of(b))) == Some(se_map_of(b)),
        forall|st: Map<[u8; 32], Seq<u8>>|
            stores_all(st, se_chunks_of(b)) ==> se_resolve(se_map_of(b), st) == Some(b),
        stores_all(store, se_chunks_of(b)),
        store.dom().contains(hash_of(sealed_head_payload(b, scope, owner))),
        store[hash_of(sealed_head_payload(b, scope, owner))] == sealed_head_payload(
            b,
            scope,
            owner,
        ),
        child_level_of(se_map_of(b)) <= MAX_INDIRECTION_LEVELS,
    ensures
        ({
            let (s0, a0) = start_spec(blob_address_of(b, scope, owner), owner, mode);
            run_from(s0, a0, store, (MAX_INDIRECTION_LEVELS + 2) as nat).1 == expected_outcome(
                mode,
                b,
            )
        }),
{
    let addr = blob_address_of(b, scope, owner);
    let sealed = sealed_head_payload(b, scope, owner);
    let record = head_record_payload(b);
    let map = se_map_of(b);
    assert(addr.scope_spec() == scope && addr.name_spec() == hash_of(sealed));
    let (s0, a0) = start_spec(addr, owner, mode);
    assert(a0 == ActionV::FetchHead(hash_of(sealed)));
    let ev = answer(a0, store);
    assert(ev == EventV::Head(Ok::<Seq<u8>, Error>(sealed)));
    // The head payload unwraps (private scope) or stands as-is (public),
    // and parses back to the written key record.
    if scope is Private {
        lemma_unwrap_wrap(owner->0, record);
    }
    let fl = map.child is None;
    assert(crate::codec::tag_bytes(fl).len() == 4);
    assert(record.take(4) =~= crate::codec::tag_bytes(fl));
    assert(record.skip(4) =~= key_record_bytes(map));
    assert(crate::codec::tag_bytes(true)[0] == 0 && crate::codec::tag_bytes(false)[0] == 1);
    assert(crate::codec::parse_secret_key_payload(record) == Some((fl, map)));
    let (s1, a1) = step_spec(s0, ev);
    assert((s1, a1) == after_key_spec(s0, map));
    assert(se_resolve(map, store) == Some(b));
    lemma_after_key_runs(s0, map, store, b, (MAX_INDIRECTION_LEVELS + 1) as nat);
    assert(run_from(s0, a0, store, (MAX_INDIRECTION_LEVELS + 2) as nat) == run_from(
        s1,
        a1,
        store,
        (MAX_INDIRECTION_LEVELS + 1) as nat,
    ));
}

/// Split/join equivalence: under the hypotheses of the round-trip law, a
/// ranged read of `len` bytes from 0 and a ranged read of `len` bytes from
/// `len` both deliver, and their results concatenate to exactly the first
/// `2 * len` bytes of the blob — what a full read delivers, cut there.
pub proof fn lemma_split_join(
    b: Seq<u8>,
    scope: Scope,
    owner: Option<Seq<u8>>,
    store: Map<[u8; 32], Seq<u8>>,
    len: usize,
)
    requires
        scope is Private ==> owner is Some,
        se_map_of(b).well_formed(),
        parse_key_record(key_record_bytes(se_map_of(b))) == Some(se_map_of(b)),
        forall|st: Map<[u8; 32], Seq<u8>>|
            stores_all(st, se_chunks_of(b)) ==> se_resolve(se_map_of(b), st) == Some(b),
        stores_all(store, se_chunks_of(b)),
        store.dom().contains(hash_of(sealed_head_payload(b, scope, owner))),
        store[hash_of(sealed_head_payload(b, scope, owner))] == sealed_head_payload(
            b,
            scope,
            owner,
        ),
        child_level_of(se_map_of(b)) <= MAX_INDIRECTION_LEVELS,
        0 < len,
        2 * len <= b.len(),
    ensures
        ({
            let addr = blob_address_of(b, scope, owner);
            let steps = (MAX_INDIRECTION_LEVELS + 2) as nat;
            let first = run_from(
                start_spec(addr, owner, ReadMode::Range { pos: 0, len }).0,
                start_spec(addr, owner, ReadMode::Range { pos: 0, len }).1,
                store,
                steps,
            ).1;
            let second = run_from(
                start_spec(addr, owner, ReadMode::Range { pos: len, len }).0,
                start_spec(addr, owner, ReadMode::Range { pos: len, len }).1,
                store,
                steps,
            ).1;
            &&& first == ActionV::Done(b.subrange(0, len as int))
            &&& second == ActionV::Done(b.subrange(len as int, 2 * len))
            &&& first->Done_0 + second->Done_0 == b.subrange(0, 2 * len)
        }),
{
    lemma_write_read_round_trip(b, scope, owner, store, ReadMode::Range { pos: 0, len });
    lemma_write_read_round_trip(b, scope, owner, store, ReadMode::Range { pos: len, len });
    assert(b.subrange(0, len as int) + b.subrange(len as int, 2 * len) =~= b.subrange(
        0,
        2 * len,
    ));
}

} // verus!
