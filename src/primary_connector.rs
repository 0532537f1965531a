use vstd::prelude::*;

use crate::committee::ReconfigureNotification;

verus! {

/// `base` doubled `n` times.
pub open spec fn doubled(base: int, n: nat) -> int
    decreases n,
{
    if n == 0 {
        base
    } else {
        2 * doubled(base, (n - 1) as nat)
    }
}

/// The wait before retry number `attempt`: exponential from `base`, never
/// above `cap`.
pub open spec fn backoff(base: u64, cap: u64, attempt: nat) -> int {
    if doubled(base as int, attempt) <= cap {
        doubled(base as int, attempt)
    } else {
        cap as int
    }
}

pub proof fn lemma_doubled_nonneg(base: int, n: nat)
    requires
        base >= 0,
    ensures
        doubled(base, n) >= 0,
    decreases n,
{
    if n > 0 {
        lemma_doubled_nonneg(base, (n - 1) as nat);
    }
}

/// What the connector does next with the message it holds.
#[derive(Clone, Copy, Debug, PartialEq, Eq)]
pub enum ConnectorAction {
    /// Take the next message from the input.
    Next,
    /// Send the same message again after this many milliseconds.
    RetryAfter(u64),
    /// Stop: the connector was shut down and holds no message.
    Exit,
}

/// Forwards worker messages to the primary in arrival order, retrying a
/// failed send after a capped exponential wait.
pub struct PrimaryConnector {
    pub base_delay: u64,
    pub max_delay: u64,
    pub shut_down: bool,
}

impl PrimaryConnector {
    pub fn new(base_delay: u64, max_delay: u64) -> (r: PrimaryConnector)
        ensures
            r.base_delay == base_delay,
            r.max_delay == max_delay,
            !r.shut_down,
    {
        PrimaryConnector { base_delay, max_delay, shut_down: false }
    }

    /// The wait before retry number `attempt`, counted from zero.
    pub fn backoff_delay(&self, attempt: u32) -> (r: u64)
        ensures
            r == backoff(self.base_delay, self.max_delay, attempt as nat),
    {
        let cap = self.max_delay;
        if self.base_delay > cap {
            proof {
                lemma_doubled_grows(self.base_delay as int, cap as int, attempt as nat);
            }
            return cap;
        }
        let mut d: u64 = self.base_delay;
        let mut i: u32 = 0;
        while i < attempt
            invariant
                i <= attempt,
                d <= cap,
                d == backoff(self.base_delay, cap, i as nat),
                cap == self.max_delay,
            decreases attempt - i,
        {
            proof {
                lemma_doubled_nonneg(self.base_delay as int, i as nat);
            }
            if d > cap / 2 {
                proof {
                    lemma_doubled_grows(
                        doubled(self.base_delay as int, (i + 1) as nat),
                        cap as int,
                        (attempt - i - 1) as nat,
                    );
                    lemma_doubled_shift(self.base_delay as int, (i + 1) as nat, (attempt - i - 1) as nat);
                }
                return cap;
            }
            d = 2 * d;
            i = i + 1;
        }
        d
    }

    /// Whether another message may be taken from the input: not once shut
    /// down.
    pub fn accepts(&self) -> (r: bool)
        ensures
            r == !self.shut_down,
    {
        !self.shut_down
    }

    /// Decides after send attempt number `attempt` of the message held: a
    /// delivered message makes room for the next one, or ends the connector
    /// once shut down; an undelivered one is sent again after the backoff,
    /// also after a shutdown, since it was already taken from the input.
    pub fn after_send(&self, delivered: bool, attempt: u32) -> (r: ConnectorAction)
        ensures
            delivered && !self.shut_down ==> r == ConnectorAction::Next,
            delivered && self.shut_down ==> r == ConnectorAction::Exit,
            !delivered ==> r == ConnectorAction::RetryAfter(
                backoff(self.base_delay, self.max_delay, attempt as nat) as u64,
            ),
    {
        if delivered {
            if self.shut_down {
                ConnectorAction::Exit
            } else {
                ConnectorAction::Next
            }
        } else {
            ConnectorAction::RetryAfter(self.backoff_delay(attempt))
        }
    }

    /// Applies a reconfiguration notification: only a shutdown matters here,
    /// and it is final. Returns whether the connector keeps running.
    pub fn reconfigure(&mut self, n: &ReconfigureNotification) -> (running: bool)
        ensures
            final(self).base_delay == old(self).base_delay,
            final(self).max_delay == old(self).max_delay,
            final(self).shut_down == (old(self).shut_down || n is Shutdown),
            running == !final(self).shut_down,
    {
        if let ReconfigureNotification::Shutdown = n {
            self.shut_down = true;
        }
        !self.shut_down
    }
}

/// Once above the cap, doubling stays above it.
pub proof fn lemma_doubled_grows(base: int, cap: int, n: nat)
    requires
        base > cap >= 0,
    ensures
        doubled(base, n) > cap,
    decreases n,
{
    if n > 0 {
        lemma_doubled_grows(base, cap, (n - 1) as nat);
    }
}

pub proof fn lemma_doubled_shift(base: int, m: nat, n: nat)
    ensures
        doubled(doubled(base, m), n) == doubled(base, m + n),
    decreases n,
{
    if n > 0 {
        lemma_doubled_shift(base, m, (n - 1) as nat);
        assert((m + n - 1) as nat == (m + (n - 1)) as nat);
    }
}

} // verus!
