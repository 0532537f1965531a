use vstd::prelude::*;

use crate::batch::Batch;
use crate::committee::{
    is_quorum, lemma_stake_upto_monotone, lemma_voted_upto_bounded, lemma_voted_upto_ext,
    lemma_voted_upto_set, peers_of, reaches_quorum, stake_upto, valid_authorities, voted_upto,
    Authority, Committee, ReconfigureNotification,
};

verus! {

/// The acknowledgements gathered for one broadcast batch, against the
/// committee that was current when the broadcast started.
pub struct QuorumTracker {
    authorities: Vec<Authority>,
    voted: Vec<bool>,
    stake: u64,
    total: u64,
}

impl QuorumTracker {
    #[verifier::type_invariant]
    spec fn wf(&self) -> bool {
        &&& valid_authorities(self.authorities@)
        &&& self.voted@.len() == self.authorities@.len()
        &&& self.total == stake_upto(self.authorities@, self.authorities@.len() as int)
        &&& self.stake == voted_upto(self.authorities@, self.voted@, self.voted@.len() as int)
    }

    /// The committee that the acknowledgements are counted against.
    pub closed spec fn members(&self) -> Seq<Authority> {
        self.authorities@
    }

    /// For each member, whether it holds the batch.
    pub closed spec fn acknowledged(&self) -> Seq<bool> {
        self.voted@
    }

    /// The stake of the members that hold the batch.
    pub open spec fn acknowledged_stake(&self) -> int {
        voted_upto(self.members(), self.acknowledged(), self.members().len() as int)
    }

    pub open spec fn reached(&self) -> bool {
        is_quorum(self.acknowledged_stake(), stake_upto(self.members(), self.members().len() as int))
    }

    /// Starts counting for a batch authored by `me`, which holds it already and
    /// so counts as the first acknowledgement.
    pub fn new(committee: &Committee, me: u64) -> (r: QuorumTracker)
        ensures
            r.members() == committee@,
            r.acknowledged().len() == committee@.len(),
            forall|i: int| 0 <= i < committee@.len() ==> r.acknowledged()[i] == (committee@[i].id == me),
    {
        let members = committee.members();
        let total = committee.total_stake();
        let n = members.len();
        let mut authorities: Vec<Authority> = Vec::new();
        let mut voted: Vec<bool> = Vec::new();
        let mut stake: u64 = 0;
        let mut i: usize = 0;
        while i < n
            invariant
                members@ == committee@,
                valid_authorities(members@),
                n == members@.len(),
                i <= n,
                authorities@ == members@.subrange(0, i as int),
                voted@.len() == i,
                forall|k: int| 0 <= k < i ==> voted@[k] == (members@[k].id == me),
                stake == voted_upto(members@, voted@, i as int),
            decreases n - i,
        {
            let a = members[i];
            let mine = a.id == me;
            proof {
                let nv = voted@.push(mine);
                lemma_voted_upto_ext(members@, voted@, nv, i as int);
                lemma_voted_upto_bounded(members@, nv, i + 1);
                lemma_stake_upto_monotone(members@, i + 1, n as int);
            }
            if mine {
                stake = stake + a.stake;
            }
            authorities.push(a);
            voted.push(mine);
            i = i + 1;
        }
        assert(authorities@ =~= members@);
        QuorumTracker { authorities, voted, stake, total }
    }

    /// Records that `from` holds the batch; acknowledgements from authorities
    /// outside the committee, or repeated ones, add nothing. Returns whether
    /// the acknowledged stake is now a quorum.
    pub fn acknowledge(&mut self, from: u64) -> (reached: bool)
        ensures
            final(self).members() == old(self).members(),
            final(self).acknowledged().len() == old(self).acknowledged().len(),
            forall|i: int|
                0 <= i < old(self).acknowledged().len() ==> final(self).acknowledged()[i] == (
                old(self).acknowledged()[i] || old(self).members()[i].id == from),
            reached == final(self).reached(),
    {
        proof {
            use_type_invariant(&*self);
        }
        let n = self.authorities.len();
        let mut k: usize = 0;
        while k < n
            invariant
                n == self.authorities@.len(),
                k <= n,
                forall|j: int| 0 <= j < k ==> self.authorities@[j].id != from,
            ensures
                k <= n,
                forall|j: int| 0 <= j < k ==> self.authorities@[j].id != from,
                k < n ==> self.authorities@[k as int].id == from,
            decreases n - k,
        {
            if self.authorities[k].id == from {
                break;
            }
            k = k + 1;
        }
        proof {
            if k < n {
                assert forall|i: int| 0 <= i < n && i != k implies self.authorities@[i].id
                    != from by {
                    if i < k {
                        assert(self.authorities@[i].id != self.authorities@[k as int].id);
                    } else {
                        assert(self.authorities@[k as int].id != self.authorities@[i].id);
                    }
                }
            }
        }
        let ghost before = self.voted@;
        if k < n && !self.voted[k] {
            let mut current = QuorumTracker {
                authorities: Vec::new(),
                voted: Vec::new(),
                stake: 0,
                total: 0,
            };
            std::mem::swap(self, &mut current);
            let QuorumTracker { authorities, mut voted, stake, total } = current;
            proof {
                let nv = voted@.update(k as int, true);
                lemma_voted_upto_set(authorities@, voted@, k as int, n as int);
                lemma_voted_upto_bounded(authorities@, nv, n as int);
            }
            let stake = stake + authorities[k].stake;
            voted.set(k, true);
            *self = QuorumTracker { authorities, voted, stake, total };
        }
        assert(forall|i: int|
            0 <= i < n ==> self.voted@[i] == (before[i] || self.authorities@[i].id == from));
        reaches_quorum(self.stake, self.total)
    }

    /// Whether the acknowledgements are counted against exactly the members of
    /// `committee`.
    pub fn counts_against(&self, committee: &Committee) -> (r: bool)
        ensures
            r == (self.members() == committee@),
    {
        let members = committee.members();
        let n = members.len();
        if self.authorities.len() != n {
            return false;
        }
        let mut i: usize = 0;
        while i < n
            invariant
                members@ == committee@,
                n == members@.len(),
                n == self.authorities@.len(),
                i <= n,
                forall|j: int| 0 <= j < i ==> self.authorities@[j] == members@[j],
            decreases n - i,
        {
            let a = self.authorities[i];
            let b = members[i];
            if a.id != b.id || a.stake != b.stake {
                assert(self.authorities@[i as int] != members@[i as int]);
                return false;
            }
            i = i + 1;
        }
        assert(self.authorities@ =~= members@);
        true
    }

    /// Whether the acknowledged stake is a quorum.
    pub fn has_quorum(&self) -> (r: bool)
        ensures
            r == self.reached(),
    {
        proof {
            use_type_invariant(self);
        }
        reaches_quorum(self.stake, self.total)
    }
}

/// The stage that broadcasts each batch to the other authorities and holds it
/// back until a quorum of stake has acknowledged it.
pub struct QuorumWaiter {
    /// The authority this worker belongs to.
    pub name: u64,
    pub committee: Committee,
    pub shut_down: bool,
}

impl QuorumWaiter {
    /// The waiter after it has seen `n`: a shutdown is final, and a new
    /// committee replaces the old one.
    pub open spec fn reconfigured(self, n: ReconfigureNotification) -> QuorumWaiter {
        if self.shut_down {
            self
        } else {
            match n {
                ReconfigureNotification::NewEpoch(c) => QuorumWaiter { committee: c, ..self },
                ReconfigureNotification::UpdateCommittee(c) => QuorumWaiter { committee: c, ..self },
                ReconfigureNotification::Shutdown => QuorumWaiter { shut_down: true, ..self },
            }
        }
    }

    pub fn new(name: u64, committee: Committee) -> (r: QuorumWaiter)
        ensures
            r.name == name,
            r.committee == committee,
            !r.shut_down,
    {
        QuorumWaiter { name, committee, shut_down: false }
    }

    /// Begins the broadcast of a new batch: the authorities to send it to and
    /// the tracker of their acknowledgements. Nothing once shut down.
    pub fn start(&self) -> (r: Option<(Vec<u64>, QuorumTracker)>)
        ensures
            r is None <==> self.shut_down,
            r matches Some((peers, t)) ==> {
                &&& peers@ == peers_of(self.committee@, self.name)
                &&& t.members() == self.committee@
                &&& t.acknowledged().len() == self.committee@.len()
                &&& forall|i: int|
                    0 <= i < self.committee@.len() ==> t.acknowledged()[i] == (
                    self.committee@[i].id == self.name)
            },
    {
        if self.shut_down {
            return None;
        }
        let peers = self.committee.peers(self.name);
        let tracker = QuorumTracker::new(&self.committee, self.name);
        Some((peers, tracker))
    }

    /// Hands the batch on where its acknowledgements, counted against the
    /// current committee, form a quorum; drops it otherwise, and always once
    /// shut down.
    pub fn release(&self, tracker: &QuorumTracker, batch: Batch) -> (r: Option<Batch>)
        ensures
            r is Some <==> (!self.shut_down && tracker.members() == self.committee@
                && tracker.reached()),
            r matches Some(b) ==> b == batch,
            r is Some ==> 3 * tracker.acknowledged_stake() > 2 * self.committee.total(),
    {
        if !self.shut_down && tracker.counts_against(&self.committee) && tracker.has_quorum() {
            Some(batch)
        } else {
            None
        }
    }

    /// Applies a reconfiguration notification.
    pub fn reconfigure(&mut self, n: ReconfigureNotification)
        ensures
            *final(self) == old(self).reconfigured(n),
    {
        if self.shut_down {
            return;
        }
        match n {
            ReconfigureNotification::NewEpoch(c) => {
                self.committee = c;
            },
            ReconfigureNotification::UpdateCommittee(c) => {
                self.committee = c;
            },
            ReconfigureNotification::Shutdown => {
                self.shut_down = true;
            },
        }
    }
}

/// After a committee update, a broadcast that starts afterwards reaches quorum
/// exactly when its acknowledged stake exceeds two thirds of the new
/// committee's total stake.
pub proof fn lemma_update_committee_rethresholds(
    w: QuorumWaiter,
    c: Committee,
    t: QuorumTracker,
)
    requires
        !w.shut_down,
        t.members() == w.reconfigured(ReconfigureNotification::UpdateCommittee(c)).committee@,
    ensures
        t.reached() <==> 3 * t.acknowledged_stake() > 2 * c.total(),
{
}

/// Once shut down, the waiter starts no broadcast and releases no batch,
/// whatever notifications follow.
pub proof fn lemma_quorum_waiter_shutdown_final(w: QuorumWaiter, n: ReconfigureNotification)
    requires
        w.shut_down,
    ensures
        w.reconfigured(n) == w,
{
}

} // verus!
