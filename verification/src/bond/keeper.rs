//! Keeping a client's bond complete: the first connections, and the replacement of dead ones.

use crate::error::Error;
use vstd::prelude::*;

verus! {

/// How many of the attempts to connect succeeded.
pub open spec fn successes(attempts: Seq<bool>) -> nat
    decreases attempts.len(),
{
    if attempts.len() == 0 {
        0
    } else {
        successes(attempts.drop_last()) + if attempts.last() {
            1nat
        } else {
            0nat
        }
    }
}

/// What woke the task that looks after a bond.
#[derive(Clone, Copy, Debug, PartialEq, Eq, Structural)]
pub enum Wake {
    /// The group was closed.
    CloseNotified,
    /// A reader ended, so that a connection has to be replaced at once.
    ReaderDied,
    /// The interval between health checks has passed.
    Tick,
}

/// What a client keeps about its bond.
#[derive(Clone, Copy, Debug, PartialEq, Eq, Structural)]
pub struct BondKeeper {
    /// The number of connections aimed at.
    pub target: usize,
    /// The number that the next connection gets.
    pub next_id: usize,
}

impl BondKeeper {
    /// Takes in the first attempts: the bond stands if one of them succeeded.
    pub fn established(attempts: &Vec<bool>, target: usize) -> (r: Result<BondKeeper, Error>)
        ensures
            r is Ok <==> successes(attempts@) > 0,
            r matches Ok(k) ==> k.target == target && k.next_id == successes(attempts@),
            r matches Err(e) ==> e.is_unexpected("all bond connections failed"@),
    {
        let mut n: usize = 0;
        let mut i: usize = 0;
        while i < attempts.len()
            invariant
                i <= attempts@.len(),
                n <= i,
                n == successes(attempts@.take(i as int)),
            decreases attempts@.len() - i,
        {
            assert(attempts@.take(i + 1).drop_last() =~= attempts@.take(i as int));
            if attempts[i] {
                n += 1;
            }
            i += 1;
        }
        assert(attempts@.take(attempts@.len() as int) =~= attempts@);
        if n == 0 {
            return Err(Error::unexpected("all bond connections failed"));
        }
        Ok(BondKeeper { target, next_id: n })
    }

    /// Whether the task goes on after it was woken.
    pub fn goes_on(wake: Wake, closed: bool) -> (b: bool)
        ensures
            b == (wake != Wake::CloseNotified && !closed),
    {
        match wake {
            Wake::CloseNotified => false,
            _ => !closed,
        }
    }

    /// The number of the connection to be made, where fewer than aimed at are usable.
    pub fn replenish(&self, alive: usize) -> (r: Option<usize>)
        ensures
            alive < self.target ==> r == Some(self.next_id),
            alive >= self.target ==> r is None,
    {
        if alive < self.target {
            Some(self.next_id)
        } else {
            None
        }
    }

    /// Notes that the connection was made and its stream has joined the bond.
    pub fn joined(&mut self)
        requires
            old(self).next_id < usize::MAX,
        ensures
            *final(self) == (BondKeeper {
                next_id: (old(self).next_id + 1) as usize,
                ..*old(self)
            }),
    {
        self.next_id += 1;
    }
}

/// How long `accept` rests after an error, and how often it has failed in a row.
#[derive(Clone, Copy, Debug, PartialEq, Eq, Structural)]
pub struct AcceptBackoff {
    pub backoff_ms: u64,
    pub error_streak: u32,
}

/// What to do about an error of `accept`.
#[derive(Clone, Copy, Debug, PartialEq, Eq, Structural)]
pub struct AcceptRest {
    /// How long to rest, in milliseconds.
    pub rest_ms: u64,
    /// Whether the failure is reported as a lasting one.
    pub lasting: bool,
}

impl AcceptBackoff {
    /// A rest is between a tenth of a second and a second.
    pub open spec fn wf(self) -> bool {
        100 <= self.backoff_ms <= 1000
    }

    /// Nothing has failed.
    pub fn new() -> (b: AcceptBackoff)
        ensures
            b == (AcceptBackoff { backoff_ms: 100, error_streak: 0 }),
            b.wf(),
    {
        AcceptBackoff { backoff_ms: 100, error_streak: 0 }
    }

    /// A connection was accepted.
    pub fn accepted(&mut self)
        ensures
            *final(self) == (AcceptBackoff { backoff_ms: 100, error_streak: 0 }),
            final(self).wf(),
    {
        self.backoff_ms = 100;
        self.error_streak = 0;
    }

    /// `accept` failed: each rest is twice the last one, up to a second, and every sixteenth
    /// failure in a row is reported as a lasting one.
    pub fn failed(&mut self) -> (r: AcceptRest)
        requires
            old(self).wf(),
        ensures
            final(self).wf(),
            final(self).error_streak == if old(self).error_streak == u32::MAX {
                u32::MAX as int
            } else {
                old(self).error_streak + 1
            },
            final(self).backoff_ms == if old(self).backoff_ms * 2 > 1000 {
                1000
            } else {
                old(self).backoff_ms * 2
            },
            r.rest_ms == old(self).backoff_ms,
            r.lasting == (final(self).error_streak % 16 == 0),
    {
        let rest_ms: u64 = self.backoff_ms;
        self.error_streak = self.error_streak.saturating_add(1);
        let doubled: u64 = self.backoff_ms * 2;
        self.backoff_ms = if doubled > 1000 {
            1000
        } else {
            doubled
        };
        AcceptRest { rest_ms, lasting: self.error_streak % 16 == 0 }
    }
}

/// A bond stands if one attempt succeeded, and only then; it has as many connections as attempts
/// succeeded.
pub proof fn one_success_is_enough(attempts: Seq<bool>)
    ensures
        successes(attempts) > 0 <==> exists|i: int| 0 <= i < attempts.len() && #[trigger] attempts[i],
        successes(attempts) <= attempts.len(),
        successes(attempts) == attempts.len() <==> forall|i: int|
            0 <= i < attempts.len() ==> #[trigger] attempts[i],
    decreases attempts.len(),
{
    if attempts.len() > 0 {
        let rest = attempts.drop_last();
        one_success_is_enough(rest);
        let n = attempts.len() - 1;
        if exists|i: int| 0 <= i < rest.len() && #[trigger] rest[i] {
            let i = choose|i: int| 0 <= i < rest.len() && #[trigger] rest[i];
            assert(attempts[i]);
        }
        if exists|i: int| 0 <= i < attempts.len() && #[trigger] attempts[i] {
            let i = choose|i: int| 0 <= i < attempts.len() && #[trigger] attempts[i];
            if i < n {
                assert(rest[i]);
            }
        }
        if attempts[n] {
            assert(attempts[n]);
        }
        if successes(attempts) == attempts.len() {
            assert forall|i: int| 0 <= i < attempts.len() implies #[trigger] attempts[i] by {
                if i < n {
                    assert(rest[i]);
                }
            }
        }
        if forall|i: int| 0 <= i < attempts.len() ==> #[trigger] attempts[i] {
            assert forall|i: int| 0 <= i < rest.len() implies #[trigger] rest[i] by {
                assert(attempts[i]);
            }
        }
    }
}

} // verus!
