//! The pair of binary semaphores that orders each submission of a queue
//! after the one before it.

use crate::native::RawSemaphore;
use vstd::prelude::*;

verus! {

/// Semaphores that a given submission should wait on and signal.
#[derive(Clone, Copy, Debug, PartialEq, Eq, Structural)]
pub struct RelaySemaphoreState {
    pub wait: Option<RawSemaphore>,
    pub signal: RawSemaphore,
}

/// A pair of binary semaphores that are used to synchronize each submission
/// with the next.
#[derive(Debug)]
pub struct RelaySemaphores {
    pub wait: RawSemaphore,
    /// Signals if the wait semaphore should be waited on.
    ///
    /// Because nothing will signal the semaphore for the first submission,
    /// it must not be waited on then.
    pub should_wait: bool,
    pub signal: RawSemaphore,
}

impl RelaySemaphores {
    /// What `advance` hands out in the state `self`.
    pub open spec fn current(self) -> RelaySemaphoreState {
        RelaySemaphoreState {
            wait: if self.should_wait { Some(self.wait) } else { None },
            signal: self.signal,
        }
    }

    /// The state that `advance` leaves behind.
    pub open spec fn advanced(self) -> RelaySemaphores {
        RelaySemaphores { wait: self.signal, should_wait: true, signal: self.wait }
    }

    /// The pair after `n` calls of `advance`.
    pub open spec fn after(self, n: nat) -> RelaySemaphores
        decreases n,
    {
        if n == 0 {
            self
        } else {
            self.after((n - 1) as nat).advanced()
        }
    }

    /// What `advance` hands out when `n` calls went before.
    pub open spec fn handed(self, n: nat) -> RelaySemaphoreState {
        self.after(n).current()
    }

    /// Takes the two semaphores that the device created for a queue. The
    /// first submission waits on neither.
    pub fn new(wait: RawSemaphore, signal: RawSemaphore) -> (relay: Self)
        ensures
            relay == (RelaySemaphores { wait, should_wait: false, signal }),
    {
        RelaySemaphores { wait, should_wait: false, signal }
    }

    /// Advances the semaphores, returning the semaphores that should be used
    /// for a submission.
    #[must_use]
    pub fn advance(&mut self) -> (state: RelaySemaphoreState)
        ensures
            state == old(self).current(),
            *final(self) == old(self).advanced(),
    {
        let old_state = RelaySemaphoreState {
            wait: if self.should_wait { Some(self.wait) } else { None },
            signal: self.signal,
        };
        std::mem::swap(&mut self.wait, &mut self.signal);
        self.should_wait = true;
        old_state
    }

    /// The semaphores of the pair, which the device has to destroy with the
    /// queue.
    pub fn destroy(&self) -> (semaphores: Vec<RawSemaphore>)
        ensures
            semaphores@ == seq![self.wait, self.signal],
    {
        let mut semaphores: Vec<RawSemaphore> = Vec::new();
        semaphores.push(self.wait);
        semaphores.push(self.signal);
        semaphores
    }
}

/// The submissions of a queue form a chain: a call of `advance` has no wait
/// only where it is the first on a new pair, and every later call waits on
/// the semaphore that the call before it handed out to signal. However many
/// calls there are, the two semaphores of the pair are all that is handed
/// out.
pub proof fn lemma_relay_chain(relay: RelaySemaphores, n: nat)
    ensures
        relay.handed(0).wait is None <==> !relay.should_wait,
        n >= 1 ==> relay.handed(n).wait == Some(relay.handed((n - 1) as nat).signal),
        relay.handed(n).signal == if n % 2 == 0 {
            relay.signal
        } else {
            relay.wait
        },
    decreases n,
{
    if n >= 1 {
        lemma_relay_chain(relay, (n - 1) as nat);
        lemma_relay_after(relay, (n - 1) as nat);
        lemma_relay_after(relay, n);
    }
}

/// The pair swaps its two semaphores with every call.
proof fn lemma_relay_after(relay: RelaySemaphores, n: nat)
    ensures
        relay.after(n).signal == if n % 2 == 0 {
            relay.signal
        } else {
            relay.wait
        },
        relay.after(n).wait == if n % 2 == 0 {
            relay.wait
        } else {
            relay.signal
        },
        n >= 1 ==> relay.after(n).should_wait,
    decreases n,
{
    if n >= 1 {
        lemma_relay_after(relay, (n - 1) as nat);
    }
}

} // verus!
