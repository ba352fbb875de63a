//! The fan-in decision of the parallel chunk fetcher.
//!
//! The fetch of a chunk set is dispatched as one concurrently scheduled unit
//! of work per key; each unit either delivers the fetched payload or, on any
//! network error, reports absence. After every unit has settled, the
//! manifest of per-key outcomes is judged here: either every requested chunk
//! arrived and the set is assembled (each chunk tagged with its key's
//! index), or the whole operation fails with `NotEnoughChunks` and no
//! partial result is returned.

use vstd::prelude::*;

use crate::data::{ChunkKey, EncryptedChunk, Error};
use crate::util::clone_bytes;

verus! {

/// The outcome manifest holds a payload at position `j`.
pub open spec fn present_at<T>(fetched: Seq<Option<T>>, j: int) -> bool {
    0 <= j < fetched.len() && fetched[j] is Some
}

/// Every one of the first `n` requested chunks arrived.
pub open spec fn all_present<T>(fetched: Seq<Option<T>>, n: int) -> bool {
    forall|j: int| 0 <= j < n ==> present_at(fetched, j)
}

/// How many of the first `n` requested chunks arrived.
pub open spec fn count_present<T>(fetched: Seq<Option<T>>, n: int) -> int
    decreases n,
{
    if n <= 0 {
        0
    } else {
        count_present(fetched, n - 1) + if present_at(fetched, n - 1) {
            1int
        } else {
            0int
        }
    }
}

/// The payloads of the first `n` outcomes, by position; meaningful when all
/// are present.
pub open spec fn fetched_contents<T>(fetched: Seq<Option<T>>, n: int) -> Seq<T> {
    Seq::new(n as nat, |j: int| fetched[j]->0)
}

/// The fan-in decision itself, over any payload representation: the
/// assembled contents when every requested chunk arrived, the
/// `NotEnoughChunks` accounting otherwise.
pub open spec fn collect_spec<T>(n: int, fetched: Seq<Option<T>>) -> Result<Seq<T>, Error> {
    if all_present(fetched, n) {
        Ok(fetched_contents(fetched, n))
    } else {
        Err(Error::NotEnoughChunks(n as usize, count_present(fetched, n) as usize))
    }
}

/// The count of arrived chunks never exceeds the number requested.
pub proof fn lemma_count_present_bounds<T>(fetched: Seq<Option<T>>, n: int)
    requires
        n >= 0,
    ensures
        0 <= count_present(fetched, n) <= n,
    decreases n,
{
    if n > 0 {
        lemma_count_present_bounds(fetched, n - 1);
    }
}

/// Judges the outcome manifest of one dispatched chunk-set fetch.
///
/// `fetched` holds, for each requested key (by position), the fetched
/// payload or `None` where that unit of work failed. If every chunk
/// arrived, returns the assembled set, positionally aligned with `keys` and
/// tagged with each key's `index`. Otherwise fails with
/// `NotEnoughChunks(expected, actual)`: no partial result is ever returned.
pub fn try_get_chunks(keys: &Vec<ChunkKey>, fetched: &Vec<Option<Vec<u8>>>) -> (r: Result<
    Vec<EncryptedChunk>,
    Error,
>)
    ensures
        match r {
            Ok(chunks) => {
                &&& all_present(fetched@, keys@.len() as int)
                &&& chunks@.len() == keys@.len()
                &&& forall|j: int|
                    0 <= j < keys@.len() ==> {
                        &&& (#[trigger] chunks@[j]).index == keys@[j].index
                        &&& chunks@[j].content@ == fetched@[j]->0@
                    }
            },
            Err(e) => {
                &&& !all_present(fetched@, keys@.len() as int)
                &&& e == Error::NotEnoughChunks(
                    keys@.len() as usize,
                    count_present(fetched@, keys@.len() as int) as usize,
                )
            },
        },
{
    let n = keys.len();
    let mut out: Vec<EncryptedChunk> = Vec::new();
    let mut count: usize = 0;
    let mut complete: bool = true;
    let mut j: usize = 0;
    while j < n
        invariant
            0 <= j <= n,
            n == keys@.len(),
            count == count_present(fetched@, j as int),
            0 <= count <= j,
            complete == all_present(fetched@, j as int),
            complete ==> out@.len() == j,
            complete ==> forall|i: int|
                0 <= i < j ==> {
                    &&& (#[trigger] out@[i]).index == keys@[i].index
                    &&& out@[i].content@ == fetched@[i]->0@
                },
        decreases n - j,
    {
        let ghost was_complete = complete;
        if j < fetched.len() {
            match &fetched[j] {
                Some(content) => {
                    proof {
                        assert(present_at(fetched@, j as int));
                    }
                    count = count + 1;
                    if complete {
                        out.push(EncryptedChunk { index: keys[j].index, content: clone_bytes(content) });
                    }
                },
                None => {
                    proof {
                        assert(!present_at(fetched@, j as int));
                    }
                    complete = false;
                },
            }
        } else {
            proof {
                assert(!present_at(fetched@, j as int));
            }
            complete = false;
        }
        proof {
            if complete {
                assert(all_present(fetched@, j + 1)) by {
                    assert(forall|i: int|
                        0 <= i < j + 1 ==> present_at(fetched@, i) == if i < j {
                            present_at(fetched@, i)
                        } else {
                            present_at(fetched@, j as int)
                        });
                }
            } else {
                if was_complete {
                    assert(!present_at(fetched@, j as int));
                } else {
                    let i = choose|i: int| 0 <= i < j && !present_at(fetched@, i);
                    assert(!present_at(fetched@, i));
                }
                assert(!all_present(fetched@, j + 1));
            }
        }
        j = j + 1;
    }
    if complete {
        Ok(out)
    } else {
        Err(Error::NotEnoughChunks(n, count))
    }
}

} // verus!
