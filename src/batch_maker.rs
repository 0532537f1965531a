use vstd::prelude::*;

use crate::batch::Batch;
use crate::committee::ReconfigureNotification;

verus! {

/// The number of bytes in a sequence of transactions.
pub open spec fn total_len(txs: Seq<Seq<u8>>) -> int
    decreases txs.len(),
{
    if txs.len() == 0 {
        0
    } else {
        total_len(txs.drop_last()) + txs.last().len()
    }
}

/// `now + delay`, or the largest time where that does not fit.
pub open spec fn deadline_after(now: u64, delay: u64) -> u64 {
    if now + delay <= u64::MAX {
        (now + delay) as u64
    } else {
        u64::MAX
    }
}

pub proof fn lemma_total_len_nonneg(txs: Seq<Seq<u8>>)
    ensures
        total_len(txs) >= 0,
    decreases txs.len(),
{
    if txs.len() > 0 {
        lemma_total_len_nonneg(txs.drop_last());
    }
}

/// Gathers client transactions into batches, sealing a batch once its size
/// reaches the threshold or once the delay since its first transaction has
/// passed. Times are in milliseconds.
pub struct BatchMaker {
    batch_size: usize,
    max_batch_delay: u64,
    current: Vec<Vec<u8>>,
    current_size: usize,
    deadline: u64,
    shut_down: bool,
}

impl BatchMaker {
    #[verifier::type_invariant]
    spec fn wf(&self) -> bool {
        self.current_size == total_len(self.current.deep_view())
    }

    /// The transactions of the batch under construction.
    pub closed spec fn pending(&self) -> Seq<Seq<u8>> {
        self.current.deep_view()
    }

    /// When the batch under construction is due, where it holds anything.
    pub closed spec fn due(&self) -> u64 {
        self.deadline
    }

    pub closed spec fn size_threshold(&self) -> usize {
        self.batch_size
    }

    pub closed spec fn delay(&self) -> u64 {
        self.max_batch_delay
    }

    pub closed spec fn is_shut_down(&self) -> bool {
        self.shut_down
    }

    /// The settings are unchanged from `self` to `other`.
    pub open spec fn same_settings(&self, other: &BatchMaker) -> bool {
        other.size_threshold() == self.size_threshold() && other.delay() == self.delay()
    }

    pub fn new(batch_size: usize, max_batch_delay: u64) -> (r: BatchMaker)
        ensures
            r.pending() == Seq::<Seq<u8>>::empty(),
            r.size_threshold() == batch_size,
            r.delay() == max_batch_delay,
            !r.is_shut_down(),
    {
        let r = BatchMaker {
            batch_size,
            max_batch_delay,
            current: Vec::new(),
            current_size: 0,
            deadline: 0,
            shut_down: false,
        };
        assert(r.current.deep_view() =~= Seq::<Seq<u8>>::empty());
        r
    }

    /// Accepts transaction `tx` at time `now`. The batch is sealed and
    /// returned as soon as its size reaches the threshold; the first
    /// transaction of a batch sets when it is due. Once shut down nothing is
    /// accepted.
    pub fn on_transaction(&mut self, tx: Vec<u8>, now: u64) -> (r: Option<Batch>)
        ensures
            final(self).same_settings(old(self)),
            final(self).is_shut_down() == old(self).is_shut_down(),
            old(self).is_shut_down() ==> r is None && final(self).pending() == old(self).pending()
                && final(self).due() == old(self).due(),
            !old(self).is_shut_down() ==> {
                let all = old(self).pending().push(tx@);
                let full = total_len(all) >= old(self).size_threshold();
                &&& r is Some <==> full
                &&& r matches Some(b) ==> b@ == all
                &&& full ==> final(self).pending() == Seq::<Seq<u8>>::empty()
                &&& !full ==> final(self).pending() == all
                &&& !full ==> final(self).due() == if old(self).pending().len() == 0 {
                    deadline_after(now, old(self).delay())
                } else {
                    old(self).due()
                }
            },
    {
        proof {
            use_type_invariant(&*self);
        }
        if self.shut_down {
            return None;
        }
        let mut taken = BatchMaker {
            batch_size: self.batch_size,
            max_batch_delay: self.max_batch_delay,
            current: Vec::new(),
            current_size: 0,
            deadline: self.deadline,
            shut_down: false,
        };
        assert(taken.current.deep_view() =~= Seq::<Seq<u8>>::empty());
        std::mem::swap(self, &mut taken);
        let BatchMaker { batch_size, max_batch_delay, mut current, current_size, deadline, shut_down } =
            taken;
        let ghost before = current.deep_view();
        let first = current.len() == 0;
        let ghost t = tx@;
        assert(tx.deep_view() =~= t);
        let size = current_size.saturating_add(tx.len());
        current.push(tx);
        proof {
            assert(current.deep_view() =~= before.push(t));
            assert(current.deep_view().drop_last() =~= before);
            assert(total_len(current.deep_view()) == current_size + t.len());
            lemma_total_len_nonneg(before);
        }
        if size >= batch_size {
            let empty = BatchMaker {
                batch_size,
                max_batch_delay,
                current: Vec::new(),
                current_size: 0,
                deadline,
                shut_down,
            };
            assert(empty.current.deep_view() =~= Seq::<Seq<u8>>::empty());
            *self = empty;
            Some(Batch { transactions: current })
        } else {
            let deadline = if first {
                now.saturating_add(max_batch_delay)
            } else {
                deadline
            };
            *self = BatchMaker {
                batch_size,
                max_batch_delay,
                current,
                current_size: size,
                deadline,
                shut_down,
            };
            None
        }
    }

    /// Seals the batch under construction where it holds anything and is due
    /// at time `now`; an empty batch is never sealed.
    pub fn on_tick(&mut self, now: u64) -> (r: Option<Batch>)
        ensures
            final(self).same_settings(old(self)),
            final(self).is_shut_down() == old(self).is_shut_down(),
            r is Some <==> (!old(self).is_shut_down() && old(self).pending().len() > 0 && now
                >= old(self).due()),
            r matches Some(b) ==> b@ == old(self).pending() && final(self).pending()
                == Seq::<Seq<u8>>::empty(),
            r is None ==> final(self).pending() == old(self).pending() && final(self).due()
                == old(self).due(),
    {
        if self.shut_down || self.current.len() == 0 || now < self.deadline {
            return None;
        }
        let mut taken = BatchMaker {
            batch_size: self.batch_size,
            max_batch_delay: self.max_batch_delay,
            current: Vec::new(),
            current_size: 0,
            deadline: self.deadline,
            shut_down: false,
        };
        assert(taken.current.deep_view() =~= Seq::<Seq<u8>>::empty());
        std::mem::swap(self, &mut taken);
        let BatchMaker { current, .. } = taken;
        Some(Batch { transactions: current })
    }

    /// When the batch under construction must be sealed; none while it is
    /// empty or once shut down.
    pub fn next_due(&self) -> (r: Option<u64>)
        ensures
            r is Some <==> (!self.is_shut_down() && self.pending().len() > 0),
            r matches Some(t) ==> t == self.due(),
    {
        if self.shut_down || self.current.len() == 0 {
            None
        } else {
            Some(self.deadline)
        }
    }

    /// Applies a reconfiguration notification: a shutdown is final, and a new
    /// committee changes nothing here. Returns whether the maker keeps running.
    pub fn reconfigure(&mut self, n: &ReconfigureNotification) -> (running: bool)
        ensures
            final(self).same_settings(old(self)),
            final(self).pending() == old(self).pending(),
            final(self).due() == old(self).due(),
            final(self).is_shut_down() == (old(self).is_shut_down() || n is Shutdown),
            running == !final(self).is_shut_down(),
    {
        proof {
            use_type_invariant(&*self);
        }
        if let ReconfigureNotification::Shutdown = n {
            self.shut_down = true;
        }
        !self.shut_down
    }
}

} // verus!
