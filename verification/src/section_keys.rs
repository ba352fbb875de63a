//! Threshold-signing key material for a network section.
//!
//! A section signs with key shares produced by distributed key generation.
//! This module keeps the current and a few previous shares in a small
//! bounded cache (most recent last, oldest evicted first) and parks the
//! shares of generations still in flight until they are finalised. Key
//! material is held as plain bytes: the public-key bytes identify a share,
//! and the secret-share bytes are what a signer uses. Producing an actual
//! threshold signature from a share is the threshold-cryptography
//! collaborator's work and stays outside this library; callers look the
//! share up here and sign with it there.

use vstd::prelude::*;

use crate::util::bytes_equal;

verus! {

/// Errors of the section-key store.
#[derive(Clone, Copy, PartialEq, Eq, Structural, Debug)]
pub enum KeyError {
    /// No key share is cached for the request.
    MissingSecretKeyShare,
}

/// All the key material needed to sign with a section key share.
#[derive(Clone, PartialEq, Eq, Debug)]
pub struct SectionKeyShare {
    /// Bytes of the section public key this share belongs to.
    pub public_key: Vec<u8>,
    /// Index of the owner of this share within the set of section elders.
    pub index: usize,
    /// Bytes of the secret key share.
    pub secret_key_share: Vec<u8>,
}

/// A keyed list of shares, most recently added last.
pub type ShareEntries = Seq<(Seq<u8>, SectionKeyShare)>;

/// The entries hold a share for key `k`.
pub open spec fn has_key(entries: ShareEntries, k: Seq<u8>) -> bool {
    exists|i: int| 0 <= i < entries.len() && entries[i].0 == k
}

/// Every entry is stored under its own share's public key.
pub open spec fn keyed(entries: ShareEntries) -> bool {
    forall|i: int|
        0 <= i < entries.len() ==> (#[trigger] entries[i]).0 == entries[i].1.public_key@
}

/// Keyed-ness transfers across equal entry lists; equality of sequences
/// does not re-instantiate a quantifier by itself.
proof fn lemma_keyed_equal(a: ShareEntries, b: ShareEntries)
    requires
        keyed(a),
        a == b,
    ensures
        keyed(b),
{
    assert forall|i: int| 0 <= i < b.len() implies (#[trigger] b[i]).0 == b[i].1.public_key@ by {
        assert(b[i] == a[i]);
    }
}

/// The first share stored under key `k`.
pub open spec fn lookup_share(entries: ShareEntries, k: Seq<u8>) -> Option<SectionKeyShare>
    decreases entries.len(),
{
    if entries.len() == 0 {
        None
    } else if entries[0].0 == k {
        Some(entries[0].1)
    } else {
        lookup_share(entries.drop_first(), k)
    }
}

/// Replaces the first share stored under the share's own key, or appends.
pub open spec fn insert_share(entries: ShareEntries, share: SectionKeyShare) -> ShareEntries
    decreases entries.len(),
{
    if entries.len() == 0 {
        seq![(share.public_key@, share)]
    } else if entries[0].0 == share.public_key@ {
        seq![(share.public_key@, share)] + entries.drop_first()
    } else {
        seq![entries[0]] + insert_share(entries.drop_first(), share)
    }
}

/// Removes the first share stored under key `k`, if any.
pub open spec fn remove_share(entries: ShareEntries, k: Seq<u8>) -> ShareEntries
    decreases entries.len(),
{
    if entries.len() == 0 {
        entries
    } else if entries[0].0 == k {
        entries.drop_first()
    } else {
        seq![entries[0]] + remove_share(entries.drop_first(), k)
    }
}

/// Dropping the first entry keeps a keyed list keyed.
proof fn lemma_keyed_drop_first(entries: ShareEntries)
    requires
        keyed(entries),
        entries.len() > 0,
    ensures
        keyed(entries.drop_first()),
{
    assert forall|i: int| 0 <= i < entries.drop_first().len() implies (#[trigger] entries
        .drop_first()[i]).0 == entries.drop_first()[i].1.public_key@ by {
        assert(entries.drop_first()[i] == entries[i + 1]);
    }
}

/// Inserting a share keeps a keyed list keyed.
proof fn lemma_insert_keeps_keyed(entries: ShareEntries, share: SectionKeyShare)
    requires
        keyed(entries),
    ensures
        keyed(insert_share(entries, share)),
    decreases entries.len(),
{
    let out = insert_share(entries, share);
    if entries.len() == 0 {
        assert forall|i: int| 0 <= i < out.len() implies (#[trigger] out[i]).0
            == out[i].1.public_key@ by {
            assert(out[i] == (share.public_key@, share));
        }
    } else if entries[0].0 == share.public_key@ {
        assert forall|i: int| 0 <= i < out.len() implies (#[trigger] out[i]).0
            == out[i].1.public_key@ by {
            if i == 0 {
                assert(out[0] == (share.public_key@, share));
            } else {
                assert(out[i] == entries.drop_first()[i - 1]);
                assert(entries.drop_first()[i - 1] == entries[i]);
            }
        }
    } else {
        lemma_keyed_drop_first(entries);
        lemma_insert_keeps_keyed(entries.drop_first(), share);
        assert forall|i: int| 0 <= i < out.len() implies (#[trigger] out[i]).0
            == out[i].1.public_key@ by {
            if i == 0 {
                assert(out[0] == entries[0]);
            } else {
                assert(out[i] == insert_share(entries.drop_first(), share)[i - 1]);
            }
        }
    }
}

/// Removing a key keeps a keyed list keyed.
proof fn lemma_remove_keeps_keyed(entries: ShareEntries, k: Seq<u8>)
    requires
        keyed(entries),
    ensures
        keyed(remove_share(entries, k)),
    decreases entries.len(),
{
    let out = remove_share(entries, k);
    if entries.len() == 0 {
    } else if entries[0].0 == k {
        lemma_keyed_drop_first(entries);
    } else {
        lemma_keyed_drop_first(entries);
        lemma_remove_keeps_keyed(entries.drop_first(), k);
        assert forall|i: int| 0 <= i < out.len() implies (#[trigger] out[i]).0
            == out[i].1.public_key@ by {
            if i == 0 {
                assert(out[0] == entries[0]);
            } else {
                assert(out[i] == remove_share(entries.drop_first(), k)[i - 1]);
            }
        }
    }
}

/// In a keyed list, a found share carries the key it was looked up by.
pub proof fn lemma_lookup_is_keyed(entries: ShareEntries, k: Seq<u8>)
    requires
        keyed(entries),
        lookup_share(entries, k) is Some,
    ensures
        lookup_share(entries, k)->0.public_key@ == k,
    decreases entries.len(),
{
    if entries.len() > 0 && entries[0].0 != k {
        lemma_keyed_drop_first(entries);
        lemma_lookup_is_keyed(entries.drop_first(), k);
    }
}

/// A cache for current and previous section key shares: insertion order
/// kept, at most `capacity` entries, the oldest evicted first.
///
/// The original backing store sized itself by its allocation; here the
/// bound is an explicit field, so eviction behaviour is exact.
pub struct MiniKeyCache {
    /// Bound on the number of cached shares.
    pub capacity: usize,
    /// Cached shares, keyed by public-key bytes, most recent last.
    pub list: Vec<(Vec<u8>, SectionKeyShare)>,
}

impl MiniKeyCache {
    /// The cached entries, as key/share pairs.
    pub open spec fn entries(&self) -> ShareEntries {
        self.list@.map_values(|e: (Vec<u8>, SectionKeyShare)| (e.0@, e.1))
    }

    /// Constructor for a capacity-bounded cache.
    pub fn with_capacity(capacity: usize) -> (r: MiniKeyCache)
        ensures
            r.entries() == Seq::<(Seq<u8>, SectionKeyShare)>::empty(),
            r.capacity == capacity,
    {
        let r = MiniKeyCache { capacity, list: Vec::new() };
        proof {
            assert(r.entries() =~= Seq::<(Seq<u8>, SectionKeyShare)>::empty());
        }
        r
    }

    /// Returns true if a key share exists.
    pub fn has_key_share(&self) -> (r: bool)
        ensures
            r == (self.entries().len() != 0),
    {
        self.list.len() != 0
    }

    /// Returns the most recently added key share.
    pub fn get_most_recent(&self) -> (r: Result<&SectionKeyShare, KeyError>)
        ensures
            self.entries().len() == 0 ==> r == Err::<&SectionKeyShare, KeyError>(
                KeyError::MissingSecretKeyShare,
            ),
            self.entries().len() > 0 ==> (r matches Ok(share) && *share
                == self.entries().last().1),
    {
        let n = self.list.len();
        if n == 0 {
            Err(KeyError::MissingSecretKeyShare)
        } else {
            Ok(&self.list[n - 1].1)
        }
    }

    /// Returns the share cached for the given public key, to sign with.
    pub fn key_share_for(&self, public_key: &Vec<u8>) -> (r: Result<&SectionKeyShare, KeyError>)
        ensures
            match lookup_share(self.entries(), public_key@) {
                Some(share) => r matches Ok(s) && *s == share,
                None => r == Err::<&SectionKeyShare, KeyError>(KeyError::MissingSecretKeyShare),
            },
    {
        let n = self.list.len();
        let mut i: usize = 0;
        proof {
            assert(self.entries().skip(0) =~= self.entries());
        }
        while i < n
            invariant
                0 <= i <= n,
                n == self.list@.len(),
                lookup_share(self.entries(), public_key@) == lookup_share(
                    self.entries().skip(i as int),
                    public_key@,
                ),
            decreases n - i,
        {
            proof {
                assert(self.entries().skip(i as int)[0] == self.entries()[i as int]);
            }
            if bytes_equal(&self.list[i].0, public_key) {
                return Ok(&self.list[i].1);
            }
            proof {
                assert(self.entries().skip(i as int).drop_first() =~= self.entries().skip(i + 1));
            }
            i = i + 1;
        }
        Err(KeyError::MissingSecretKeyShare)
    }

    /// Adds a new key share to the cache; if the key is already cached the
    /// cache is unchanged, and if the cache is full the oldest share is
    /// removed and its key returned.
    pub fn add(&mut self, public_key: &Vec<u8>, share: SectionKeyShare) -> (r: Option<Vec<u8>>)
        requires
            share.public_key@ == public_key@,
        ensures
            has_key(old(self).entries(), public_key@) ==> {
                &&& final(self).entries() == old(self).entries()
                &&& r is None
            },
            !has_key(old(self).entries(), public_key@) ==> {
                if old(self).entries().len() >= old(self).capacity && old(self).entries().len()
                    > 0 {
                    &&& final(self).entries() == old(self).entries().drop_first().push(
                        (public_key@, share),
                    )
                    &&& r matches Some(evicted) && evicted@ == old(self).entries().first().0
                } else {
                    &&& final(self).entries() == old(self).entries().push((public_key@, share))
                    &&& r is None
                }
            },
            final(self).capacity == old(self).capacity,
    {
        let n = self.list.len();
        let mut i: usize = 0;
        while i < n
            invariant
                0 <= i <= n,
                n == self.list@.len(),
                forall|j: int| 0 <= j < i ==> self.entries()[j].0 != public_key@,
            decreases n - i,
        {
            if bytes_equal(&self.list[i].0, public_key) {
                proof {
                    assert(self.entries()[i as int].0 == public_key@);
                    assert(has_key(self.entries(), public_key@));
                }
                return None;
            }
            i = i + 1;
        }
        proof {
            if has_key(self.entries(), public_key@) {
                let j = choose|j: int|
                    0 <= j < self.entries().len() && self.entries()[j].0 == public_key@;
                assert(self.entries()[j].0 != public_key@);
            }
        }
        let mut evicted: Option<Vec<u8>> = None;
        let ghost before = self.entries();
        if self.list.len() >= self.capacity && self.list.len() > 0 {
            let (key, _) = self.list.remove(0);
            proof {
                assert(self.entries() =~= before.drop_first());
            }
            evicted = Some(key);
        }
        let ghost mid = self.entries();
        self.list.push((crate::util::clone_bytes(public_key), share));
        proof {
            assert(self.entries() =~= mid.push((public_key@, share)));
        }
        evicted
    }
}

/// Holds the section's current key shares and helps with new key
/// generation: newly generated shares are parked as pending until their
/// generation is finalised, then move into the cache.
pub struct SectionKeysProvider {
    /// A cache for current and previous section key shares.
    pub cache: MiniKeyCache,
    /// The shares of key generations still in flight, keyed by public key.
    pub pending: Vec<(Vec<u8>, SectionKeyShare)>,
}

impl SectionKeysProvider {
    /// The pending entries, as key/share pairs.
    pub open spec fn pending_entries(&self) -> ShareEntries {
        self.pending@.map_values(|e: (Vec<u8>, SectionKeyShare)| (e.0@, e.1))
    }

    /// Well-formedness: every pending share is stored under its own public
    /// key. The constructor establishes it and every method preserves it.
    pub open spec fn wf(&self) -> bool {
        keyed(self.pending_entries())
    }

    /// A provider with the given cache size, primed with the current share
    /// if one is known.
    pub fn new(cache_size: u8, current: Option<SectionKeyShare>) -> (r: SectionKeysProvider)
        ensures
            r.wf(),
            r.cache.capacity == cache_size as usize,
            match current {
                Some(share) => {
                    &&& r.cache.entries() == Seq::<(Seq<u8>, SectionKeyShare)>::empty().push(
                        (share.public_key@, share),
                    )
                    &&& r.pending_entries() == Seq::<(Seq<u8>, SectionKeyShare)>::empty()
                },
                None => {
                    &&& r.cache.entries() == Seq::<(Seq<u8>, SectionKeyShare)>::empty()
                    &&& r.pending_entries() == Seq::<(Seq<u8>, SectionKeyShare)>::empty()
                },
            },
    {
        let mut provider = SectionKeysProvider {
            pending: Vec::new(),
            cache: MiniKeyCache::with_capacity(cache_size as usize),
        };
        proof {
            assert(provider.pending_entries() =~= Seq::<(Seq<u8>, SectionKeyShare)>::empty());
        }
        match current {
            Some(share) => {
                let public_key = crate::util::clone_bytes(&share.public_key);
                provider.insert_dkg_outcome(share);
                provider.finalise_dkg(&public_key);
            },
            None => {},
        }
        provider
    }

    /// The most recent section key share.
    pub fn key_share(&self) -> (r: Result<&SectionKeyShare, KeyError>)
        ensures
            self.cache.entries().len() == 0 ==> r == Err::<&SectionKeyShare, KeyError>(
                KeyError::MissingSecretKeyShare,
            ),
            self.cache.entries().len() > 0 ==> (r matches Ok(share) && *share
                == self.cache.entries().last().1),
    {
        self.cache.get_most_recent()
    }

    /// The share for the given public key, to sign with.
    pub fn key_share_for(&self, public_key: &Vec<u8>) -> (r: Result<&SectionKeyShare, KeyError>)
        ensures
            match lookup_share(self.cache.entries(), public_key@) {
                Some(share) => r matches Ok(s) && *s == share,
                None => r == Err::<&SectionKeyShare, KeyError>(KeyError::MissingSecretKeyShare),
            },
    {
        self.cache.key_share_for(public_key)
    }

    /// Returns true if a key share is cached.
    pub fn has_key_share(&self) -> (r: bool)
        ensures
            r == (self.cache.entries().len() != 0),
    {
        self.cache.has_key_share()
    }

    /// Parks a newly generated share until its generation is finalised.
    pub fn insert_dkg_outcome(&mut self, share: SectionKeyShare)
        requires
            old(self).wf(),
        ensures
            final(self).wf(),
            final(self).pending_entries() == insert_share(old(self).pending_entries(), share),
            final(self).cache == old(self).cache,
    {
        let n = self.pending.len();
        let mut i: usize = 0;
        proof {
            assert(self.pending_entries().skip(0) =~= self.pending_entries());
            assert(self.pending_entries().take(0int) + insert_share(
                self.pending_entries().skip(0),
                share,
            ) =~= insert_share(self.pending_entries(), share));
        }
        while i < n
            invariant
                0 <= i <= n,
                *self == *old(self),
                old(self).wf(),
                n == self.pending@.len(),
                insert_share(self.pending_entries(), share) == self.pending_entries().take(
                    i as int,
                ) + insert_share(self.pending_entries().skip(i as int), share),
            decreases n - i,
        {
            proof {
                assert(self.pending_entries().skip(i as int)[0] == self.pending_entries()[
                    i as int
                ]);
            }
            if bytes_equal(&self.pending[i].0, &share.public_key) {
                let ghost before = self.pending_entries();
                let key = crate::util::clone_bytes(&share.public_key);
                let _ = self.pending.remove(i);
                self.pending.insert(i, (key, share));
                proof {
                    assert(before.skip(i as int).len() > 0);
                    assert(insert_share(before.skip(i as int), share) == seq![
                        (share.public_key@, share),
                    ] + before.skip(i as int).drop_first());
                    assert(self.pending_entries() =~= before.take(i as int) + (seq![
                        (share.public_key@, share),
                    ] + before.skip(i as int).drop_first()));
                    assert(self.pending_entries() == insert_share(before, share));
                    lemma_keyed_equal(old(self).pending_entries(), before);
                    lemma_insert_keeps_keyed(before, share);
                    lemma_keyed_equal(insert_share(before, share), self.pending_entries());
                }
                return ;
            }
            proof {
                let e = self.pending_entries();
                assert(e.skip(i as int).drop_first() =~= e.skip(i + 1));
                assert(e.take(i as int).push(e[i as int]) =~= e.take(i + 1));
                assert(insert_share(e.skip(i as int), share) == seq![e[i as int]] + insert_share(
                    e.skip(i + 1),
                    share,
                ));
                assert(e.take(i as int) + (seq![e[i as int]] + insert_share(e.skip(i + 1), share))
                    =~= e.take(i + 1) + insert_share(e.skip(i + 1), share));
            }
            i = i + 1;
        }
        let ghost before = self.pending_entries();
        let key = crate::util::clone_bytes(&share.public_key);
        self.pending.push((key, share));
        proof {
            assert(before.skip(n as int) =~= Seq::<(Seq<u8>, SectionKeyShare)>::empty());
            assert(before.take(n as int) =~= before);
            assert(self.pending_entries() =~= before.take(n as int) + insert_share(
                before.skip(n as int),
                share,
            ));
            assert(self.pending_entries() == insert_share(before, share));
            lemma_keyed_equal(old(self).pending_entries(), before);
            lemma_insert_keeps_keyed(before, share);
            lemma_keyed_equal(insert_share(before, share), self.pending_entries());
        }
    }

    /// Finalises a key generation: moves the pending share for the given
    /// public key, if any, into the cache.
    pub fn finalise_dkg(&mut self, public_key: &Vec<u8>)
        requires
            old(self).wf(),
        ensures
            final(self).wf(),
            final(self).pending_entries() == remove_share(
                old(self).pending_entries(),
                public_key@,
            ),
            match lookup_share(old(self).pending_entries(), public_key@) {
                Some(share) => {
                    if has_key(old(self).cache.entries(), public_key@) {
                        final(self).cache.entries() == old(self).cache.entries()
                    } else if old(self).cache.entries().len() >= old(self).cache.capacity && old(
                        self,
                    ).cache.entries().len() > 0 {
                        final(self).cache.entries() == old(self).cache.entries().drop_first().push(
                            (public_key@, share),
                        )
                    } else {
                        final(self).cache.entries() == old(self).cache.entries().push(
                            (public_key@, share),
                        )
                    }
                },
                None => final(self).cache == old(self).cache,
            },
            final(self).cache.capacity == old(self).cache.capacity,
    {
        proof {
            if lookup_share(self.pending_entries(), public_key@) is Some {
                lemma_lookup_is_keyed(self.pending_entries(), public_key@);
            }
        }
        match self.take_pending(public_key) {
            Some(share) => {
                let _ = self.cache.add(public_key, share);
            },
            None => {},
        }
    }

    /// Removes and returns the pending share for the given public key.
    fn take_pending(&mut self, public_key: &Vec<u8>) -> (r: Option<SectionKeyShare>)
        requires
            old(self).wf(),
        ensures
            final(self).wf(),
            final(self).pending_entries() == remove_share(
                old(self).pending_entries(),
                public_key@,
            ),
            r == lookup_share(old(self).pending_entries(), public_key@),
            final(self).cache == old(self).cache,
    {
        let n = self.pending.len();
        let mut i: usize = 0;
        proof {
            assert(self.pending_entries().skip(0) =~= self.pending_entries());
            assert(self.pending_entries().take(0int) + remove_share(
                self.pending_entries().skip(0),
                public_key@,
            ) =~= remove_share(self.pending_entries(), public_key@));
        }
        while i < n
            invariant
                0 <= i <= n,
                *self == *old(self),
                old(self).wf(),
                n == self.pending@.len(),
                lookup_share(self.pending_entries(), public_key@) == lookup_share(
                    self.pending_entries().skip(i as int),
                    public_key@,
                ),
                remove_share(self.pending_entries(), public_key@) == self.pending_entries().take(
                    i as int,
                ) + remove_share(self.pending_entries().skip(i as int), public_key@),
            decreases n - i,
        {
            proof {
                assert(self.pending_entries().skip(i as int)[0] == self.pending_entries()[
                    i as int
                ]);
            }
            if bytes_equal(&self.pending[i].0, public_key) {
                let ghost before = self.pending_entries();
                let (_, share) = self.pending.remove(i);
                proof {
                    assert(before.skip(i as int).len() > 0);
                    assert(remove_share(before.skip(i as int), public_key@) == before.skip(
                        i as int,
                    ).drop_first());
                    assert(before.skip(i as int).drop_first() =~= before.skip(i + 1));
                    assert(self.pending_entries() =~= before.take(i as int) + before.skip(i + 1));
                    assert(self.pending_entries() == remove_share(before, public_key@));
                    lemma_keyed_equal(old(self).pending_entries(), before);
                    lemma_remove_keeps_keyed(before, public_key@);
                    lemma_keyed_equal(remove_share(before, public_key@), self.pending_entries());
                }
                return Some(share);
            }
            proof {
                let e = self.pending_entries();
                assert(e.skip(i as int).drop_first() =~= e.skip(i + 1));
                assert(e.take(i as int).push(e[i as int]) =~= e.take(i + 1));
                assert(remove_share(e.skip(i as int), public_key@) == seq![e[i as int]]
                    + remove_share(e.skip(i + 1), public_key@));
                assert(e.take(i as int) + (seq![e[i as int]] + remove_share(
                    e.skip(i + 1),
                    public_key@,
                )) =~= e.take(i + 1) + remove_share(e.skip(i + 1), public_key@));
            }
            i = i + 1;
        }
        proof {
            assert(self.pending_entries().skip(n as int) =~= Seq::<
                (Seq<u8>, SectionKeyShare),
            >::empty());
            assert(self.pending_entries().take(n as int) =~= self.pending_entries());
            assert(self.pending_entries() =~= self.pending_entries() + remove_share(
                self.pending_entries().skip(n as int),
                public_key@,
            ));
        }
        None
    }
}

} // verus!
