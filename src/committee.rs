use vstd::prelude::*;

verus! {

/// One member of a committee, with its voting weight.
#[derive(Clone, Copy, Debug, PartialEq, Eq)]
pub struct Authority {
    pub id: u64,
    pub stake: u64,
}

/// The authorities of one epoch, each with its stake. Identifiers are unique
/// and the total stake fits a `u64`, which `Committee::new` checks.
pub struct Committee {
    epoch: u64,
    authorities: Vec<Authority>,
}

/// What every pipeline stage is told when the configuration changes.
pub enum ReconfigureNotification {
    NewEpoch(Committee),
    UpdateCommittee(Committee),
    Shutdown,
}

/// No two authorities share an identifier.
pub open spec fn unique_ids(auths: Seq<Authority>) -> bool {
    forall|i: int, j: int| 0 <= i < j < auths.len() ==> auths[i].id != auths[j].id
}

/// A committee can be formed from these authorities.
pub open spec fn valid_authorities(auths: Seq<Authority>) -> bool {
    unique_ids(auths) && stake_upto(auths, auths.len() as int) <= u64::MAX
}

/// Sum of the stakes of the first `n` authorities.
pub open spec fn stake_upto(auths: Seq<Authority>, n: int) -> int
    decreases n,
{
    if n <= 0 {
        0
    } else {
        stake_upto(auths, n - 1) + auths[n - 1].stake
    }
}

/// Sum of the stakes of those among the first `n` authorities whose flag is set.
pub open spec fn voted_upto(auths: Seq<Authority>, voted: Seq<bool>, n: int) -> int
    decreases n,
{
    if n <= 0 {
        0
    } else {
        voted_upto(auths, voted, n - 1) + if voted[n - 1] {
            auths[n - 1].stake as int
        } else {
            0
        }
    }
}

/// Byzantine quorum: strictly more than two thirds of the total stake.
pub open spec fn is_quorum(stake: int, total: int) -> bool {
    3 * stake > 2 * total
}

/// Identifiers of the authorities other than `me`, in committee order.
pub open spec fn peers_of(auths: Seq<Authority>, me: u64) -> Seq<u64>
    decreases auths.len(),
{
    if auths.len() == 0 {
        Seq::empty()
    } else {
        let rest = peers_of(auths.drop_last(), me);
        if auths.last().id == me {
            rest
        } else {
            rest.push(auths.last().id)
        }
    }
}

pub proof fn lemma_stake_upto_monotone(auths: Seq<Authority>, m: int, n: int)
    requires
        0 <= m <= n <= auths.len(),
    ensures
        0 <= stake_upto(auths, m) <= stake_upto(auths, n),
    decreases n - m,
{
    if m < n {
        lemma_stake_upto_monotone(auths, m, n - 1);
    } else {
        lemma_stake_upto_nonneg(auths, m);
    }
}

pub proof fn lemma_stake_upto_nonneg(auths: Seq<Authority>, n: int)
    requires
        0 <= n <= auths.len(),
    ensures
        0 <= stake_upto(auths, n),
    decreases n,
{
    if n > 0 {
        lemma_stake_upto_nonneg(auths, n - 1);
    }
}

pub proof fn lemma_voted_upto_bounded(auths: Seq<Authority>, voted: Seq<bool>, n: int)
    requires
        0 <= n <= auths.len(),
        n <= voted.len(),
    ensures
        0 <= voted_upto(auths, voted, n) <= stake_upto(auths, n),
    decreases n,
{
    if n > 0 {
        lemma_voted_upto_bounded(auths, voted, n - 1);
    }
}

/// Setting one more flag adds exactly that authority's stake.
pub proof fn lemma_voted_upto_set(auths: Seq<Authority>, voted: Seq<bool>, k: int, n: int)
    requires
        0 <= k < voted.len(),
        !voted[k],
        0 <= n <= auths.len(),
        n <= voted.len(),
    ensures
        voted_upto(auths, voted.update(k, true), n) == voted_upto(auths, voted, n) + if k < n {
            auths[k].stake as int
        } else {
            0
        },
    decreases n,
{
    if n > 0 {
        lemma_voted_upto_set(auths, voted, k, n - 1);
    }
}

pub proof fn lemma_voted_upto_ext(auths: Seq<Authority>, a: Seq<bool>, b: Seq<bool>, n: int)
    requires
        0 <= n <= a.len(),
        n <= b.len(),
        forall|i: int| 0 <= i < n ==> a[i] == b[i],
    ensures
        voted_upto(auths, a, n) == voted_upto(auths, b, n),
    decreases n,
{
    if n > 0 {
        lemma_voted_upto_ext(auths, a, b, n - 1);
    }
}

impl View for Committee {
    type V = Seq<Authority>;

    closed spec fn view(&self) -> Seq<Authority> {
        self.authorities@
    }
}

impl Committee {
    #[verifier::type_invariant]
    spec fn wf(&self) -> bool {
        valid_authorities(self.authorities@)
    }

    pub open spec fn total(&self) -> int {
        stake_upto(self@, self@.len() as int)
    }

    /// Forms a committee; `None` where two authorities share an identifier or
    /// the stakes add up to more than a `u64` holds.
    pub fn new(epoch: u64, authorities: Vec<Authority>) -> (r: Option<Committee>)
        ensures
            r is Some <==> valid_authorities(authorities@),
            r matches Some(c) ==> c@ == authorities@ && c.epoch_number() == epoch,
    {
        let n = authorities.len();
        let mut i: usize = 0;
        while i < n
            invariant
                n == authorities@.len(),
                i <= n,
                forall|a: int, b: int| 0 <= a < b < n && a < i ==> authorities@[a].id != authorities@[b].id,
            decreases n - i,
        {
            let mut j: usize = i + 1;
            while j < n
                invariant
                    n == authorities@.len(),
                    i < n,
                    i < j <= n,
                    forall|b: int| i < b < j ==> authorities@[i as int].id != authorities@[b].id,
                decreases n - j,
            {
                if authorities[i].id == authorities[j].id {
                    return None;
                }
                j = j + 1;
            }
            i = i + 1;
        }
        let mut sum: u64 = 0;
        let mut k: usize = 0;
        while k < n
            invariant
                n == authorities@.len(),
                k <= n,
                sum == stake_upto(authorities@, k as int),
            decreases n - k,
        {
            match sum.checked_add(authorities[k].stake) {
                Some(s) => {
                    sum = s;
                },
                None => {
                    proof {
                        lemma_stake_upto_monotone(authorities@, k + 1, n as int);
                    }
                    return None;
                },
            }
            k = k + 1;
        }
        Some(Committee { epoch, authorities })
    }

    pub closed spec fn epoch_number(&self) -> u64 {
        self.epoch
    }

    pub fn epoch(&self) -> (r: u64)
        ensures
            r == self.epoch_number(),
    {
        self.epoch
    }

    /// The members, in committee order.
    pub fn members(&self) -> (r: &Vec<Authority>)
        ensures
            r@ == self@,
            valid_authorities(self@),
    {
        proof {
            use_type_invariant(self);
        }
        &self.authorities
    }

    /// The total stake of the committee.
    pub fn total_stake(&self) -> (r: u64)
        ensures
            r == self.total(),
    {
        proof {
            use_type_invariant(self);
        }
        let mut sum: u64 = 0;
        let mut i: usize = 0;
        while i < self.authorities.len()
            invariant
                valid_authorities(self.authorities@),
                i <= self.authorities@.len(),
                sum == stake_upto(self.authorities@, i as int),
            decreases self.authorities@.len() - i,
        {
            proof {
                lemma_stake_upto_monotone(
                    self.authorities@,
                    i + 1,
                    self.authorities@.len() as int,
                );
            }
            sum = sum + self.authorities[i].stake;
            i = i + 1;
        }
        sum
    }

    /// The authorities that a batch of `me` is broadcast to: all but `me`.
    pub fn peers(&self, me: u64) -> (r: Vec<u64>)
        ensures
            r@ == peers_of(self@, me),
    {
        let mut r: Vec<u64> = Vec::new();
        let mut i: usize = 0;
        while i < self.authorities.len()
            invariant
                i <= self.authorities@.len(),
                r@ == peers_of(self.authorities@.subrange(0, i as int), me),
            decreases self.authorities@.len() - i,
        {
            let a = self.authorities[i];
            assert(self.authorities@.subrange(0, i + 1).drop_last()
                =~= self.authorities@.subrange(0, i as int));
            if a.id != me {
                r.push(a.id);
            }
            i = i + 1;
        }
        assert(self.authorities@.subrange(0, i as int) =~= self.authorities@);
        r
    }
}

/// Whether `stake` is a Byzantine quorum of `total`.
pub fn reaches_quorum(stake: u64, total: u64) -> (r: bool)
    ensures
        r == is_quorum(stake as int, total as int),
{
    3 * (stake as u128) > 2 * (total as u128)
}

} // verus!
