use vstd::prelude::*;

use crate::batch::{Batch, BatchDigest};
use crate::processor::StoreContents;

verus! {

/// The answer to a peer's request for one batch.
#[derive(Debug, PartialEq, Eq)]
pub enum SyncReply {
    Found(BatchDigest, Batch),
    Missing(BatchDigest),
}

/// The reply for digest `d` given what the store lookup found.
pub open spec fn reply_for(d: BatchDigest, looked_up: Option<Batch>) -> SyncReply {
    match looked_up {
        Some(b) => SyncReply::Found(d, b),
        None => SyncReply::Missing(d),
    }
}

/// The lookup result at position `i`; none where no lookup was made.
pub open spec fn lookup_at(found: Seq<Option<Batch>>, i: int) -> Option<Batch> {
    if 0 <= i < found.len() {
        found[i]
    } else {
        None
    }
}

/// Answers a synchronisation request: for each requested digest, the batch
/// that the store lookup at the same position found, or an explicit absence
/// where it found none (or no lookup was made).
pub fn sync_replies(digests: &Vec<BatchDigest>, found: Vec<Option<Batch>>) -> (r: Vec<SyncReply>)
    ensures
        r@.len() == digests@.len(),
        forall|i: int|
            0 <= i < digests@.len() ==> #[trigger] r@[i] == reply_for(
                digests@[i],
                lookup_at(found@, i),
            ),
{
    let mut rest = found;
    let mut r: Vec<SyncReply> = Vec::new();
    let mut i: usize = 0;
    while i < digests.len()
        invariant
            i <= digests@.len(),
            r@.len() == i,
            rest@ == if i < found@.len() {
                found@.subrange(i as int, found@.len() as int)
            } else {
                Seq::empty()
            },
            forall|k: int|
                0 <= k < i ==> #[trigger] r@[k] == reply_for(digests@[k], lookup_at(found@, k)),
        decreases digests@.len() - i,
    {
        let d = digests[i];
        let looked_up = if rest.len() > 0 {
            rest.remove(0)
        } else {
            None
        };
        match looked_up {
            Some(b) => r.push(SyncReply::Found(d, b)),
            None => r.push(SyncReply::Missing(d)),
        }
        proof {
            if i < found@.len() {
                assert(found@.subrange(i as int, found@.len() as int).remove(0) =~= if i + 1
                    < found@.len() {
                    found@.subrange(i + 1, found@.len() as int)
                } else {
                    Seq::empty()
                });
            }
        }
        i = i + 1;
    }
    r
}

/// A request for a digest that the store does not hold is answered with an
/// explicit absence, never with a batch.
pub proof fn lemma_unstored_digest_is_missing(
    s: StoreContents,
    d: BatchDigest,
    looked_up: Option<Batch>,
)
    requires
        !s.contains_key(d@),
        looked_up matches Some(b) ==> s.contains_key(d@) && s[d@] == b@,
    ensures
        reply_for(d, looked_up) == SyncReply::Missing(d),
{
}

} // verus!
