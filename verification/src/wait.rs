//! Bounded busy-waiting: how long to keep polling a busy flag before giving
//! up.
use vstd::prelude::*;

verus! {

/// The verdict after one poll of a busy flag.
#[derive(Clone, Copy, PartialEq, Eq, Structural)]
pub enum Poll {
    /// The flag is clear.
    Ready,
    /// Still busy; poll again with this spin count.
    Again(u32),
    /// Busy for more than the limit: give up.
    TimedOut,
}

/// After polling with `spins` earlier busy readings: clear means ready;
/// busy counts one more spin and gives up once the count passes `limit`.
pub open spec fn poll_spec(spins: u32, busy: bool, limit: u32) -> Poll {
    if !busy {
        Poll::Ready
    } else if spins + 1 > limit {
        Poll::TimedOut
    } else {
        Poll::Again((spins + 1) as u32)
    }
}

/// One poll of a busy flag (see `poll_spec`).
pub fn poll_busy(spins: u32, busy: bool, limit: u32) -> (r: Poll)
    requires
        spins <= limit,
        limit < u32::MAX,
    ensures
        r == poll_spec(spins, busy, limit),
        r matches Poll::Again(n) ==> n <= limit,
{
    if !busy {
        return Poll::Ready;
    }
    let n = spins + 1;
    if n > limit {
        Poll::TimedOut
    } else {
        Poll::Again(n)
    }
}

/// The spin count after `k` busy readings starting from zero, or `None` once
/// the wait has been given up.
pub open spec fn spins_after(k: nat, limit: u32) -> Option<u32>
    decreases k,
{
    if k == 0 {
        Some(0)
    } else {
        match spins_after((k - 1) as nat, limit) {
            Some(s) => match poll_spec(s, true, limit) {
                Poll::Again(n) => Some(n),
                _ => None,
            },
            None => None,
        }
    }
}

/// A flag that stays busy is given up on at exactly the `limit + 1`-th busy
/// reading, never sooner.
pub proof fn lemma_poll_gives_up(limit: u32, k: nat)
    ensures
        k <= limit ==> spins_after(k, limit) == Some(k as u32),
        k > limit ==> spins_after(k, limit) is None,
    decreases k,
{
    if k > 0 {
        lemma_poll_gives_up(limit, (k - 1) as nat);
    }
}

} // verus!
