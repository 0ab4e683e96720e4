//! The transmit side of a serial port: a byte pipe that a writer task drains
//! to the UART, filled without blocking.
use vstd::prelude::*;
use embassy_sync::blocking_mutex::raw::CriticalSectionRawMutex;
use embassy_sync::pipe::{Pipe, TryWriteError};

verus! {

#[verifier::external_type_specification]
#[verifier::external_body]
pub struct ExTryWriteError(TryWriteError);

/// A shared reference to a `Pipe` of capacity `N` that another task drains.
#[verifier::external_body]
pub struct PipeRef<'a, const N: usize> {
    pub pipe: &'a Pipe<CriticalSectionRawMutex, N>,
}

/// A writer's handle on the pipe. Besides the pipe it carries a record, for
/// proofs only, of the bytes the pipe has accepted through this handle and
/// of how many times it found the pipe full. What the pipe holds changes
/// under the draining task's hands, so the record says what was handed over,
/// not what is still there.
pub struct TxPipe<'a, const N: usize> {
    pub port: PipeRef<'a, N>,
    /// Bytes accepted through this handle, in order.
    pub sent: Ghost<Seq<u8>>,
    /// Writes refused because the pipe was full.
    pub refused: Ghost<nat>,
}

/// What a write of `data` did, by the record of `before` and `after`: on
/// success all of `data` was accepted; on failure (only for non-empty
/// `data`) a proper prefix of it was, and the pipe was found full once.
pub open spec fn delivered<'a, const N: usize>(
    before: TxPipe<'a, N>,
    after: TxPipe<'a, N>,
    data: Seq<u8>,
    ok: bool,
) -> bool {
    &&& after.port == before.port
    &&& if ok {
        after.sent@ == before.sent@ + data && after.refused@ == before.refused@
    } else {
        &&& data.len() > 0
        &&& after.refused@ == before.refused@ + 1
        &&& exists|k: int| 0 <= k < data.len() && after.sent@ == before.sent@ + data.take(k)
    }
}

/// A write of `data` whose outcome is not reported: either all of it was
/// accepted, or a proper prefix and the pipe was found full.
pub open spec fn sends<'a, const N: usize>(
    before: TxPipe<'a, N>,
    after: TxPipe<'a, N>,
    data: Seq<u8>,
) -> bool {
    delivered(before, after, data, true) || delivered(before, after, data, false)
}

impl<'a, const N: usize> TxPipe<'a, N> {
    /// A handle on `port` with an empty record.
    pub fn new(port: PipeRef<'a, N>) -> (r: TxPipe<'a, N>)
        ensures
            r.port == port,
            r.sent@ == Seq::<u8>::empty(),
            r.refused@ == 0,
    {
        TxPipe { port, sent: Ghost(Seq::empty()), refused: Ghost(0) }
    }

    /// `Pipe::try_write`: copies a nonzero prefix of `data` into the pipe and
    /// says how long it was, or fails with `Full` and copies nothing. How
    /// much fits depends on what the draining task has taken out, so only
    /// the bounds are stated; the record grows by the copied prefix, or
    /// counts the refusal.
    #[verifier::external_body]
    fn try_write(&mut self, data: &[u8]) -> (r: Result<usize, TryWriteError>)
        requires
            data@.len() > 0,
        ensures
            final(self).port == old(self).port,
            match r {
                Ok(n) => {
                    &&& 1 <= n <= data@.len()
                    &&& final(self).sent@ == old(self).sent@ + data@.take(n as int)
                    &&& final(self).refused@ == old(self).refused@
                },
                Err(_) => {
                    &&& final(self).sent@ == old(self).sent@
                    &&& final(self).refused@ == old(self).refused@ + 1
                },
            },
    {
        self.port.pipe.try_write(data)
    }
}

/// Copies all of `data` into the pipe without waiting; gives up with `Err`
/// as soon as the pipe is full, leaving the rest unsent (see `delivered`).
/// Whether the pipe has room depends on the task that drains it, so success
/// is promised only for empty `data`, where no write is attempted.
pub fn push<const N: usize>(tx: &mut TxPipe<'_, N>, data: &[u8]) -> (r: Result<(), ()>)
    ensures
        delivered(*old(tx), *final(tx), data@, r is Ok),
        data@.len() == 0 ==> r is Ok,
{
    let ghost before = *tx;
    let mut start: usize = 0;
    let mut full = false;
    proof {
        assert(before.sent@ + data@.take(0) =~= before.sent@);
    }
    while !full && start < data.len()
        invariant
            start <= data@.len(),
            tx.port == before.port,
            !full ==> tx.sent@ == before.sent@ + data@.take(start as int) && tx.refused@
                == before.refused@,
            full ==> delivered(before, *tx, data@, false),
        decreases data@.len() - start + (if full { 0int } else { 1int }),
    {
        let rest = vstd::slice::slice_subrange(data, start, data.len());
        let ghost sent0 = tx.sent@;
        let w = tx.try_write(rest);
        match w {
            Ok(n) => {
                proof {
                    assert(data@.take(start as int) + rest@.take(n as int) =~= data@.take(
                        start + n,
                    ));
                    assert(sent0 + rest@.take(n as int) =~= before.sent@ + data@.take(start + n));
                }
                start = start + n;
            },
            Err(_) => {
                proof {
                    let k = start as int;
                    assert(0 <= k < data@.len() && tx.sent@ == before.sent@ + data@.take(k));
                }
                full = true;
            },
        }
    }
    if full {
        Err(())
    } else {
        proof {
            assert(data@.take(data@.len() as int) =~= data@);
        }
        Ok(())
    }
}

} // verus!
