//! A condition variable for cooperative coroutines: waiters queue up in
//! arrival order and are woken first-in first-out by `signal`, all at once
//! by `broadcast`, or abandoned by `cancel`.
//!
//! The waker payload `W` is whatever the runtime uses to reschedule a
//! coroutine; waking it is the caller's job, so `signal` and `broadcast`
//! hand the payloads back.

use vstd::prelude::*;

verus! {

broadcast use vstd::seq_lib::group_seq_properties;

/// The state of a coroutine at its yield point in `wait`.
#[derive(Clone, Copy, PartialEq, Eq, Structural, Debug)]
pub enum YieldState {
    /// Not yet suspended on the condition variable.
    Running,
    /// Suspended; the next poll after a signal resumes it.
    Yielded,
}

/// A condition variable: FIFO waiter queue plus a count of pending signals.
pub struct ConditionVariable<W> {
    /// Waiters in arrival order, each with the id of its yield point.
    waiters: Vec<(u64, W)>,
    /// Signals delivered but not yet consumed by a woken waiter.
    num_ready: usize,
    /// Last yield-point id handed out.
    last_id: u64,
}

/// A handle to a condition variable shared among coroutines; single
/// threaded, so the state is held directly.
pub struct SharedConditionVariable<W> {
    inner: ConditionVariable<W>,
}

impl<W> SharedConditionVariable<W> {
    /// The waiters in arrival order.
    pub closed spec fn waiters_spec(self) -> Seq<(u64, W)> {
        self.inner.waiters@
    }

    /// Signals delivered but not yet consumed.
    pub closed spec fn num_ready_spec(self) -> int {
        self.inner.num_ready as int
    }

    /// The last yield-point id handed out.
    pub closed spec fn last_id_spec(self) -> u64 {
        self.inner.last_id
    }

    /// Creates a condition variable with no waiters and no pending signal.
    pub fn new() -> (r: Self)
        ensures
            r.waiters_spec() == Seq::<(u64, W)>::empty(),
            r.num_ready_spec() == 0,
            r.last_id_spec() == 0,
    {
        SharedConditionVariable {
            inner: ConditionVariable { waiters: Vec::new(), num_ready: 0, last_id: 0 },
        }
    }

    /// Wakes the longest-waiting coroutine: removes the first waiter,
    /// records one pending signal, and returns the waiter's waker for the
    /// caller to invoke.  With no waiter queued, nothing changes.
    pub fn signal(&mut self) -> (r: Option<W>)
        requires
            old(self).num_ready_spec() < usize::MAX,
        ensures
            old(self).waiters_spec().len() == 0 ==> r is None && *final(self) == *old(self),
            old(self).waiters_spec().len() > 0 ==> {
                &&& r == Some(old(self).waiters_spec()[0].1)
                &&& final(self).waiters_spec() == old(self).waiters_spec().skip(1)
                &&& final(self).num_ready_spec() == old(self).num_ready_spec() + 1
                &&& final(self).last_id_spec() == old(self).last_id_spec()
            },
    {
        if self.inner.waiters.len() == 0 {
            return None;
        }
        let (_, waker) = self.inner.waiters.remove(0);
        self.inner.num_ready = self.inner.num_ready + 1;
        proof {
            assert(self.waiters_spec() =~= old(self).waiters_spec().skip(1));
        }
        Some(waker)
    }

    /// Wakes every waiting coroutine: empties the queue, records one
    /// pending signal per waiter, and returns their wakers in arrival
    /// order.
    pub fn broadcast(&mut self) -> (r: Vec<W>)
        requires
            old(self).num_ready_spec() + old(self).waiters_spec().len() <= usize::MAX,
        ensures
            r@.len() == old(self).waiters_spec().len(),
            forall|k: int|
                0 <= k < r@.len() ==> #[trigger] r@[k] == old(self).waiters_spec()[k].1,
            final(self).waiters_spec() == Seq::<(u64, W)>::empty(),
            final(self).num_ready_spec() == old(self).num_ready_spec() + old(
                self,
            ).waiters_spec().len(),
            final(self).last_id_spec() == old(self).last_id_spec(),
    {
        let n: usize = self.inner.waiters.len();
        self.inner.num_ready = self.inner.num_ready + n;
        let mut wakers: Vec<W> = Vec::new();
        while self.inner.waiters.len() > 0
            invariant
                n == old(self).waiters_spec().len(),
                wakers@.len() + self.inner.waiters@.len() == n,
                forall|k: int|
                    0 <= k < wakers@.len() ==> #[trigger] wakers@[k] == old(
                        self,
                    ).waiters_spec()[k].1,
                self.inner.waiters@ =~= old(self).waiters_spec().skip(wakers@.len() as int),
                self.inner.num_ready == old(self).num_ready_spec() + n,
                self.inner.last_id == old(self).last_id_spec(),
            decreases self.inner.waiters@.len(),
        {
            let ghost m = wakers@.len() as int;
            let pair: (u64, W) = self.inner.waiters.remove(0);
            proof {
                assert(pair == old(self).waiters_spec()[m]);
            }
            wakers.push(pair.1);
            proof {
                assert(wakers@[m] == old(self).waiters_spec()[m].1);
                assert(self.inner.waiters@ =~= old(self).waiters_spec().skip(
                    wakers@.len() as int,
                ));
            }
        }
        proof {
            assert(self.waiters_spec() =~= Seq::<(u64, W)>::empty());
        }
        wakers
    }

    /// Abandons every waiting coroutine: the queue and the pending signals
    /// are discarded, and the abandoned waiters are never woken.
    pub fn cancel(&mut self)
        ensures
            final(self).waiters_spec() == Seq::<(u64, W)>::empty(),
            final(self).num_ready_spec() == 0,
            final(self).last_id_spec() == old(self).last_id_spec(),
    {
        self.inner.waiters = Vec::new();
        self.inner.num_ready = 0;
    }

    /// Hands out a fresh yield-point id for a coroutine entering `wait`.
    pub fn next_waiter_id(&mut self) -> (r: u64)
        requires
            old(self).last_id_spec() < u64::MAX,
        ensures
            r == old(self).last_id_spec() + 1,
            final(self).last_id_spec() == r,
            final(self).waiters_spec() == old(self).waiters_spec(),
            final(self).num_ready_spec() == old(self).num_ready_spec(),
    {
        self.inner.last_id = self.inner.last_id + 1;
        self.inner.last_id
    }

    /// Queues a waiter at the back of the line.
    pub fn add_waiter(&mut self, id: u64, waker: W)
        ensures
            final(self).waiters_spec() == old(self).waiters_spec().push((id, waker)),
            final(self).num_ready_spec() == old(self).num_ready_spec(),
            final(self).last_id_spec() == old(self).last_id_spec(),
    {
        self.inner.waiters.push((id, waker));
    }

    /// Removes the waiter with yield-point id `id`, as a dropped yield
    /// point does; waiters with other ids keep their order.
    pub fn remove_waiter(&mut self, id: u64)
        ensures
            final(self).waiters_spec() == old(self).waiters_spec().filter(
                |w: (u64, W)| w.0 != id,
            ),
            final(self).num_ready_spec() == old(self).num_ready_spec(),
            final(self).last_id_spec() == old(self).last_id_spec(),
    {
        let n: usize = self.inner.waiters.len();
        let mut kept: Vec<(u64, W)> = Vec::new();
        let mut i: usize = 0;
        proof {
            reveal(Seq::filter);
            assert(old(self).waiters_spec().take(0int).filter(|w: (u64, W)| w.0 != id)
                =~= Seq::<(u64, W)>::empty());
        }
        while i < n
            invariant
                i <= n,
                n == old(self).waiters_spec().len(),
                self.inner.waiters@ =~= old(self).waiters_spec().skip(i as int),
                self.inner.num_ready == old(self).num_ready_spec(),
                self.inner.last_id == old(self).last_id_spec(),
                kept@ =~= old(self).waiters_spec().take(i as int).filter(
                    |w: (u64, W)| w.0 != id,
                ),
            decreases n - i,
        {
            let pair: (u64, W) = self.inner.waiters.remove(0);
            proof {
                reveal(Seq::filter);
                assert(pair == old(self).waiters_spec()[i as int]);
                let prefix = old(self).waiters_spec().take(i + 1);
                assert(prefix.drop_last() =~= old(self).waiters_spec().take(i as int));
                assert(prefix.last() == old(self).waiters_spec()[i as int]);
                assert(self.inner.waiters@ =~= old(self).waiters_spec().skip(i + 1));
            }
            let keep: bool = pair.0 != id;
            if keep {
                kept.push(pair);
            }
            i = i + 1;
        }
        proof {
            assert(old(self).waiters_spec().take(n as int) =~= old(self).waiters_spec());
        }
        self.inner.waiters = kept;
    }

    /// One poll of a coroutine's yield point.  On the first poll the
    /// coroutine queues itself and suspends; once suspended it resumes,
    /// consuming one pending signal, only after a signal has arrived.
    /// Returns the new yield state and whether the wait is over.
    pub fn yield_point_poll(&mut self, id: u64, state: YieldState, waker: W) -> (r: (
        YieldState,
        bool,
    ))
        ensures
            state is Running ==> {
                &&& r == (YieldState::Yielded, false)
                &&& final(self).waiters_spec() == old(self).waiters_spec().push((id, waker))
                &&& final(self).num_ready_spec() == old(self).num_ready_spec()
            },
            state is Yielded && old(self).num_ready_spec() > 0 ==> {
                &&& r == (YieldState::Running, true)
                &&& final(self).num_ready_spec() == old(self).num_ready_spec() - 1
                &&& final(self).waiters_spec() == old(self).waiters_spec()
            },
            state is Yielded && old(self).num_ready_spec() == 0 ==> r == (
                YieldState::Yielded,
                false,
            ) && *final(self) == *old(self),
            final(self).last_id_spec() == old(self).last_id_spec(),
    {
        match state {
            YieldState::Running => {
                self.add_waiter(id, waker);
                (YieldState::Yielded, false)
            },
            YieldState::Yielded => {
                if self.inner.num_ready > 0 {
                    self.inner.num_ready = self.inner.num_ready - 1;
                    (YieldState::Running, true)
                } else {
                    (YieldState::Yielded, false)
                }
            },
        }
    }
}

} // verus!
