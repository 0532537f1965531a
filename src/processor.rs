use vstd::prelude::*;

use crate::batch::{digest_of, Batch, BatchDigest, WorkerId};
use crate::committee::ReconfigureNotification;

verus! {

/// What a worker reports to its primary about a stored batch.
#[derive(Clone, Copy, Debug, PartialEq, Eq)]
pub enum WorkerPrimaryMessage {
    /// A batch this worker made, which the primary may propose.
    OurBatch(BatchDigest, WorkerId),
    /// A batch this worker stores for a peer.
    OthersBatch(BatchDigest, WorkerId),
}

/// A write to make in the batch store.
pub struct StoreWrite {
    pub digest: BatchDigest,
    pub batch: Batch,
}

/// The store's contents: each digest with the transactions stored under it.
pub type StoreContents = Map<Seq<u8>, Seq<Seq<u8>>>;

/// The store after `b` was written to it under its digest.
pub open spec fn store_after(s: StoreContents, b: Seq<Seq<u8>>) -> StoreContents {
    s.insert(digest_of(b), b)
}

/// Hashes and stores batches, then hands out the batch's digest.
pub struct Processor {
    /// Our worker's id.
    pub id: WorkerId,
    /// Whether the batches are our own or those of other nodes.
    pub own_digest: bool,
    pub shut_down: bool,
}

impl Processor {
    /// The message that announces a stored batch with digest `d`.
    pub open spec fn message_for(self, d: BatchDigest) -> WorkerPrimaryMessage {
        if self.own_digest {
            WorkerPrimaryMessage::OurBatch(d, self.id)
        } else {
            WorkerPrimaryMessage::OthersBatch(d, self.id)
        }
    }

    /// What is reported once the write of the batch with digest `d` ended:
    /// nothing unless it was written.
    pub open spec fn report(self, d: BatchDigest, written: bool) -> Option<WorkerPrimaryMessage> {
        if written {
            Some(self.message_for(d))
        } else {
            None
        }
    }

    pub fn new(id: WorkerId, own_digest: bool) -> (r: Processor)
        ensures
            r.id == id,
            r.own_digest == own_digest,
            !r.shut_down,
    {
        Processor { id, own_digest, shut_down: false }
    }

    /// Takes a batch from the input: the store write that keys it by its
    /// digest. Nothing once shut down.
    pub fn process(&self, batch: Batch) -> (r: Option<StoreWrite>)
        ensures
            r is None <==> self.shut_down,
            r matches Some(w) ==> w.digest@ == digest_of(batch@) && w.batch == batch,
    {
        if self.shut_down {
            return None;
        }
        let digest = batch.digest();
        Some(StoreWrite { digest, batch })
    }

    /// The message for the primary once the store write of `digest` has
    /// ended; none where the write failed, so that the primary never hears
    /// of a batch it cannot fetch. A write already under way completes, so
    /// this holds after a shutdown too.
    pub fn after_write(&self, digest: BatchDigest, written: bool) -> (r: Option<
        WorkerPrimaryMessage,
    >)
        ensures
            r == self.report(digest, written),
    {
        if !written {
            None
        } else if self.own_digest {
            Some(WorkerPrimaryMessage::OurBatch(digest, self.id))
        } else {
            Some(WorkerPrimaryMessage::OthersBatch(digest, self.id))
        }
    }

    /// Applies a reconfiguration notification: only a shutdown matters here,
    /// and it is final. Returns whether the processor keeps running.
    pub fn reconfigure(&mut self, n: &ReconfigureNotification) -> (running: bool)
        ensures
            final(self).id == old(self).id,
            final(self).own_digest == old(self).own_digest,
            final(self).shut_down == (old(self).shut_down || n is Shutdown),
            running == !final(self).shut_down,
    {
        if let ReconfigureNotification::Shutdown = n {
            self.shut_down = true;
        }
        !self.shut_down
    }
}

/// A batch reported as authored here is in the store, under the reported
/// digest, with exactly its transactions.
pub proof fn lemma_reported_batch_is_stored(
    p: Processor,
    s: StoreContents,
    b: Batch,
    d: BatchDigest,
    written: bool,
)
    requires
        d@ == digest_of(b@),
    ensures
        p.report(d, written) matches Some(WorkerPrimaryMessage::OurBatch(r, _)) ==> {
            &&& written
            &&& store_after(s, b@).contains_key(r@)
            &&& store_after(s, b@)[r@] == b@
        },
{
}

/// Storing the same contents twice, from a peer and from this worker, leaves
/// one entry under one digest; the two reports name that same digest, one as
/// a peer's batch and one as our own.
pub proof fn lemma_store_idempotent(
    s: StoreContents,
    ours: Processor,
    theirs: Processor,
    b1: Batch,
    b2: Batch,
    d1: BatchDigest,
    d2: BatchDigest,
)
    requires
        b1@ == b2@,
        d1@ == digest_of(b1@),
        d2@ == digest_of(b2@),
        ours.own_digest,
        !theirs.own_digest,
    ensures
        store_after(store_after(s, b1@), b2@) == store_after(s, b1@),
        d1@ == d2@,
        ours.report(d2, true) == Some(WorkerPrimaryMessage::OurBatch(d2, ours.id)),
        theirs.report(d1, true) == Some(WorkerPrimaryMessage::OthersBatch(d1, theirs.id)),
{
    assert(store_after(store_after(s, b1@), b2@) =~= store_after(s, b1@));
}

} // verus!
