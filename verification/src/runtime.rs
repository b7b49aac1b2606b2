//! The runtime: the monotonic clock and sleep timer, the socket-id table
//! used for demultiplexing and bind checks, the completion cache for
//! results that arrive before they are awaited, and the runtime object
//! wiring them to the scheduler's foreground and background groups.

use std::collections::HashMap;

use vstd::prelude::*;

use crate::fail::{Fail, EAGAIN};
use crate::id_map::Id64Map;
use crate::net::SocketAddress;
use crate::queue::{QDesc, QToken};
use crate::scheduler::{Scheduler, SchedulerId};

verus! {

/// How many poll iterations pass between samples of the real-time clock,
/// and the largest number of tasks one poll pass may run.
pub const TIMER_RESOLUTION: usize = 64;

/// The monotonic clock plus the sleeps scheduled against it, in
/// nanoseconds.
pub struct Timer {
    /// The current time.
    now: u64,
    /// Scheduled sleeps: wake time and sleeper id, in registration order.
    sleeps: Vec<(u64, u64)>,
}

impl Timer {
    /// The current time.
    pub closed spec fn now_spec(self) -> u64 {
        self.now
    }

    /// The scheduled sleeps in registration order.
    pub closed spec fn sleeps_spec(self) -> Seq<(u64, u64)> {
        self.sleeps@
    }

    /// Creates a clock reading `now` with no sleep scheduled.
    pub fn new(now: u64) -> (r: Self)
        ensures
            r.now_spec() == now,
            r.sleeps_spec() == Seq::<(u64, u64)>::empty(),
    {
        Timer { now, sleeps: Vec::new() }
    }

    /// The current time.
    pub fn get_now(&self) -> (r: u64)
        ensures
            r == self.now_spec(),
    {
        self.now
    }

    /// Moves time forward to `now`; the clock is monotonic, so an earlier
    /// time leaves it unchanged.
    pub fn advance_clock(&mut self, now: u64)
        ensures
            final(self).now_spec() == (if now > old(self).now_spec() {
                now
            } else {
                old(self).now_spec()
            }),
            final(self).sleeps_spec() == old(self).sleeps_spec(),
    {
        if now > self.now {
            self.now = now;
        }
    }

    /// Schedules sleeper `waiter` to wake at `deadline`.
    pub fn register_sleep(&mut self, deadline: u64, waiter: u64)
        ensures
            final(self).now_spec() == old(self).now_spec(),
            final(self).sleeps_spec() == old(self).sleeps_spec().push((deadline, waiter)),
    {
        self.sleeps.push((deadline, waiter));
    }

    /// Removes and returns every sleeper whose deadline has passed, in
    /// registration order.
    ///
    /// Law: clock determinism.  Due sleeps are exactly those with
    /// `deadline <= now`, so after `advance_clock(t)` every sleep scheduled
    /// for a time up to `t` wakes on the next poll, and no other does.
    pub fn pop_due(&mut self) -> (r: Vec<u64>)
        ensures
            final(self).now_spec() == old(self).now_spec(),
            final(self).sleeps_spec() == old(self).sleeps_spec().filter(
                |s: (u64, u64)| s.0 > old(self).now_spec(),
            ),
            r@ == old(self).sleeps_spec().filter(
                |s: (u64, u64)| s.0 <= old(self).now_spec(),
            ).map_values(|s: (u64, u64)| s.1),
    {
        let n: usize = self.sleeps.len();
        let mut kept: Vec<(u64, u64)> = Vec::new();
        let mut due: Vec<u64> = Vec::new();
        let mut i: usize = 0;
        proof {
            reveal(Seq::filter);
            assert(old(self).sleeps_spec().take(0int).filter(
                |s: (u64, u64)| s.0 > old(self).now_spec(),
            ) =~= Seq::<(u64, u64)>::empty());
            assert(old(self).sleeps_spec().take(0int).filter(
                |s: (u64, u64)| s.0 <= old(self).now_spec(),
            ) =~= Seq::<(u64, u64)>::empty());
        }
        while i < n
            invariant
                i <= n,
                n == old(self).sleeps_spec().len(),
                self.sleeps@ =~= old(self).sleeps_spec().skip(i as int),
                self.now == old(self).now_spec(),
                kept@ =~= old(self).sleeps_spec().take(i as int).filter(
                    |s: (u64, u64)| s.0 > old(self).now_spec(),
                ),
                due@ =~= old(self).sleeps_spec().take(i as int).filter(
                    |s: (u64, u64)| s.0 <= old(self).now_spec(),
                ).map_values(|s: (u64, u64)| s.1),
            decreases n - i,
        {
            let entry: (u64, u64) = self.sleeps.remove(0);
            proof {
                reveal(Seq::filter);
                assert(entry == old(self).sleeps_spec()[i as int]);
                let prefix = old(self).sleeps_spec().take(i + 1);
                assert(prefix.drop_last() =~= old(self).sleeps_spec().take(i as int));
                assert(prefix.last() == old(self).sleeps_spec()[i as int]);
                assert(self.sleeps@ =~= old(self).sleeps_spec().skip(i + 1));
            }
            if entry.0 <= self.now {
                due.push(entry.1);
                proof {
                    assert(due@ =~= old(self).sleeps_spec().take(i + 1).filter(
                        |s: (u64, u64)| s.0 <= old(self).now_spec(),
                    ).map_values(|s: (u64, u64)| s.1));
                }
            } else {
                kept.push(entry);
            }
            i = i + 1;
        }
        proof {
            assert(old(self).sleeps_spec().take(n as int) =~= old(self).sleeps_spec());
        }
        self.sleeps = kept;
        due
    }
}

/// A socket identity: the demultiplexing key for ingress segments and the
/// address-in-use check for bind.
#[derive(Clone, Copy, Hash, Debug)]
pub enum SocketId {
    /// A connected socket: local and remote addresses.
    Active(SocketAddress, SocketAddress),
    /// A bound, unconnected socket: the local address.
    Passive(SocketAddress),
}

/// Packs a socket address into the low 48 bits of a key.
pub open spec fn addr_key_spec(addr: SocketAddress) -> int {
    0x10000000000 * (addr.ip.bytes()[0] as int) + 0x100000000 * (addr.ip.bytes()[1] as int)
        + 0x1000000 * (addr.ip.bytes()[2] as int) + 0x10000 * (addr.ip.bytes()[3] as int) + (
    addr.port as int)
}

/// Packs a socket identity into one table key; distinct identities give
/// distinct keys.
pub open spec fn socket_id_key_spec(id: SocketId) -> u128 {
    match id {
        SocketId::Active(local, remote) => (0x1000000000000000000000000 + 0x1000000000000
            * addr_key_spec(local) + addr_key_spec(remote)) as u128,
        SocketId::Passive(local) => (0x1000000000000 * addr_key_spec(local)) as u128,
    }
}

/// Packs a socket address into the low 48 bits of a key.
fn addr_key(addr: &SocketAddress) -> (r: u64)
    ensures
        r == addr_key_spec(*addr),
{
    0x10000000000u64 * (addr.ip.octets[0] as u64) + 0x100000000u64 * (addr.ip.octets[1] as u64)
        + 0x1000000u64 * (addr.ip.octets[2] as u64) + 0x10000u64 * (addr.ip.octets[3] as u64) + (
    addr.port as u64)
}

/// Packs a socket identity into one table key.
pub fn socket_id_key(id: &SocketId) -> (r: u128)
    ensures
        r == socket_id_key_spec(*id),
{
    match id {
        SocketId::Active(local, remote) => 0x1000000000000000000000000u128 + 0x1000000000000u128
            * (addr_key(local) as u128) + (addr_key(remote) as u128),
        SocketId::Passive(local) => 0x1000000000000u128 * (addr_key(local) as u128),
    }
}

/// The bidirectional socket-id table: socket identity to queue descriptor.
pub struct SocketIdToQDescMap {
    table: HashMap<u128, QDesc>,
}

impl SocketIdToQDescMap {
    /// The table's contents.
    pub closed spec fn map_spec(self) -> Map<u128, QDesc> {
        self.table@
    }

    /// Creates an empty table.
    pub fn new() -> (r: Self)
        ensures
            r.map_spec() == Map::<u128, QDesc>::empty(),
    {
        SocketIdToQDescMap { table: HashMap::new() }
    }

    /// The descriptor registered for `id`, if any.
    pub fn get_qd(&self, id: &SocketId) -> (r: Option<QDesc>)
        ensures
            self.map_spec().contains_key(socket_id_key_spec(*id)) ==> r == Some(
                self.map_spec()[socket_id_key_spec(*id)],
            ),
            !self.map_spec().contains_key(socket_id_key_spec(*id)) ==> r is None,
    {
        let key: u128 = socket_id_key(id);
        match self.table.get(&key) {
            Some(qd) => Some(*qd),
            None => None,
        }
    }

    /// Registers `id` as belonging to `qd`, returning the descriptor it
    /// previously belonged to, if any.
    pub fn insert(&mut self, id: SocketId, qd: QDesc) -> (r: Option<QDesc>)
        ensures
            final(self).map_spec() == old(self).map_spec().insert(socket_id_key_spec(id), qd),
            old(self).map_spec().contains_key(socket_id_key_spec(id)) ==> r == Some(
                old(self).map_spec()[socket_id_key_spec(id)],
            ),
            !old(self).map_spec().contains_key(socket_id_key_spec(id)) ==> r is None,
    {
        let key: u128 = socket_id_key(&id);
        self.table.insert(key, qd)
    }

    /// Unregisters `id`, returning the descriptor it belonged to, if any.
    pub fn remove(&mut self, id: &SocketId) -> (r: Option<QDesc>)
        ensures
            final(self).map_spec() == old(self).map_spec().remove(socket_id_key_spec(*id)),
            old(self).map_spec().contains_key(socket_id_key_spec(*id)) ==> r == Some(
                old(self).map_spec()[socket_id_key_spec(*id)],
            ),
            !old(self).map_spec().contains_key(socket_id_key_spec(*id)) ==> r is None,
    {
        let key: u128 = socket_id_key(id);
        let r = self.table.remove(&key);
        proof {
            assert(self.table@ =~= old(self).map_spec().remove(key));
        }
        r
    }

    /// Whether `addr` is in use by a bound, unconnected socket.
    pub fn is_in_use(&self, addr: &SocketAddress) -> (r: bool)
        ensures
            r == self.map_spec().contains_key(socket_id_key_spec(SocketId::Passive(*addr))),
    {
        let key: u128 = socket_id_key(&SocketId::Passive(*addr));
        self.table.contains_key(&key)
    }
}

/// The runtime: the scheduler's two groups, the token-to-slot map, the
/// socket-id table, the clock, and the completion cache.  `T` is the task
/// type the scheduler stores; `R` is the result type stashed for tokens
/// completed before they are awaited.
pub struct SharedDemiRuntime<T, R> {
    /// The scheduler holding the two groups.
    scheduler: Scheduler<T>,
    /// Group of user-visible operation coroutines.
    foreground_group_id: SchedulerId,
    /// Group of protocol-engine coroutines, polled at most once per pass.
    background_group_id: SchedulerId,
    /// Maps external tokens to scheduler slots.
    qtoken_to_scheduler_id: Id64Map,
    /// The socket-id table.
    socket_id_to_qdesc_map: SocketIdToQDescMap,
    /// The clock and sleep timer.
    timer: Timer,
    /// Results whose tokens have not been awaited yet.
    completed_results: HashMap<u64, (QDesc, R)>,
}

impl<T, R> SharedDemiRuntime<T, R> {
    /// The scheduler's state.
    pub closed spec fn scheduler_spec(self) -> Scheduler<T> {
        self.scheduler
    }

    /// The foreground group's id.
    pub closed spec fn foreground_spec(self) -> SchedulerId {
        self.foreground_group_id
    }

    /// The background group's id.
    pub closed spec fn background_spec(self) -> SchedulerId {
        self.background_group_id
    }

    /// The completion cache.
    pub closed spec fn completed_spec(self) -> Map<u64, (QDesc, R)> {
        self.completed_results@
    }

    /// The clock.
    pub closed spec fn timer_spec(self) -> Timer {
        self.timer
    }

    /// The runtime's two groups exist, are distinct, and are consistent.
    pub closed spec fn wf(self) -> bool {
        &&& self.scheduler.wf()
        &&& self.scheduler.has_group(self.foreground_group_id.0 as int)
        &&& self.scheduler.has_group(self.background_group_id.0 as int)
        &&& self.foreground_group_id != self.background_group_id
    }

    /// Creates a runtime whose clock reads `now`, with empty foreground and
    /// background groups.
    pub fn new(now: u64) -> (r: Self)
        ensures
            r.wf(),
            r.timer_spec().now_spec() == now,
            r.completed_spec() == Map::<u64, (QDesc, R)>::empty(),
    {
        let mut scheduler: Scheduler<T> = Scheduler::new();
        let foreground_group_id: SchedulerId = scheduler.create_group();
        let background_group_id: SchedulerId = scheduler.create_group();
        SharedDemiRuntime {
            scheduler,
            foreground_group_id,
            background_group_id,
            qtoken_to_scheduler_id: Id64Map::new(),
            socket_id_to_qdesc_map: SocketIdToQDescMap::new(),
            timer: Timer::new(now),
            completed_results: HashMap::new(),
        }
    }

    /// Inserts a foreground coroutine — one whose completion the
    /// application awaits — returning its token.  On success the token's
    /// low 32 bits name the foreground slot that now holds the task, live
    /// and notified, so the next poll pass runs it.  Fails with `EAGAIN`
    /// when the scheduler cannot hold it.
    pub fn insert_nonpolling_coroutine(&mut self, task: T) -> (r: Result<QToken, Fail>)
        requires
            old(self).wf(),
        ensures
            final(self).wf(),
            final(self).foreground_spec() == old(self).foreground_spec(),
            final(self).background_spec() == old(self).background_spec(),
            old(self).scheduler_spec().group_at(
                old(self).foreground_spec().0 as int,
            ).num_task_slots() < crate::group::MAX_WAKER_PAGES * crate::group::SLOTS_PER_PAGE
                ==> r is Ok,
            r is Ok ==> {
                let ix = (r.unwrap().0 & 0xFFFF_FFFFu64) as int;
                let fg = old(self).foreground_spec().0 as int;
                &&& final(self).scheduler_spec().group_at(fg).occupied(ix)
                &&& final(self).scheduler_spec().group_at(fg).task_at(ix) == task
                &&& final(self).scheduler_spec().group_at(fg).notified_bit(ix)
                &&& final(self).scheduler_spec().group_at(fg).initialized_bit(ix)
            },
            r is Err ==> r.unwrap_err().errno == EAGAIN,
    {
        let group: SchedulerId = self.foreground_group_id;
        self.insert_coroutine(task, group)
    }

    /// Inserts a background coroutine — protocol engine work that is polled
    /// but never awaited — returning its token.  On success the token's low
    /// 32 bits name the background slot that now holds the task, live and
    /// notified.  Fails with `EAGAIN` when the scheduler cannot hold it.
    pub fn insert_io_polling_coroutine(&mut self, task: T) -> (r: Result<QToken, Fail>)
        requires
            old(self).wf(),
        ensures
            final(self).wf(),
            final(self).foreground_spec() == old(self).foreground_spec(),
            final(self).background_spec() == old(self).background_spec(),
            old(self).scheduler_spec().group_at(
                old(self).background_spec().0 as int,
            ).num_task_slots() < crate::group::MAX_WAKER_PAGES * crate::group::SLOTS_PER_PAGE
                ==> r is Ok,
            r is Ok ==> {
                let ix = (r.unwrap().0 & 0xFFFF_FFFFu64) as int;
                let bg = old(self).background_spec().0 as int;
                &&& final(self).scheduler_spec().group_at(bg).occupied(ix)
                &&& final(self).scheduler_spec().group_at(bg).task_at(ix) == task
                &&& final(self).scheduler_spec().group_at(bg).notified_bit(ix)
                &&& final(self).scheduler_spec().group_at(bg).initialized_bit(ix)
            },
            r is Err ==> r.unwrap_err().errno == EAGAIN,
    {
        let group: SchedulerId = self.background_group_id;
        self.insert_coroutine(task, group)
    }

    /// Inserts a coroutine into `group`, allocating a fresh token whose low
    /// 32 bits name the slot the task now occupies.
    fn insert_coroutine(&mut self, task: T, group: SchedulerId) -> (r: Result<QToken, Fail>)
        requires
            old(self).wf(),
            old(self).scheduler_spec().has_group(group.0 as int),
        ensures
            final(self).wf(),
            final(self).foreground_spec() == old(self).foreground_spec(),
            final(self).background_spec() == old(self).background_spec(),
            old(self).scheduler_spec().group_at(group.0 as int).num_task_slots()
                < crate::group::MAX_WAKER_PAGES * crate::group::SLOTS_PER_PAGE ==> r is Ok,
            r is Ok ==> {
                let ix = (r.unwrap().0 & 0xFFFF_FFFFu64) as int;
                &&& final(self).scheduler_spec().has_group(group.0 as int)
                &&& final(self).scheduler_spec().group_at(group.0 as int).occupied(ix)
                &&& final(self).scheduler_spec().group_at(group.0 as int).task_at(ix) == task
                &&& final(self).scheduler_spec().group_at(group.0 as int).notified_bit(ix)
                &&& final(self).scheduler_spec().group_at(group.0 as int).initialized_bit(ix)
            },
            r is Err ==> r.unwrap_err().errno == EAGAIN,
    {
        match self.scheduler.insert_task(group, task) {
            Some(task_id) => {
                if task_id.0 > u32::MAX as usize {
                    return Err(Fail::new(EAGAIN, "scheduler slot does not fit a token"));
                }
                match self.qtoken_to_scheduler_id.insert_with_new_id(task_id.0 as u64) {
                    Some(token) => Ok(QToken(token)),
                    None => Err(Fail::new(EAGAIN, "cannot allocate a token")),
                }
            },
            None => Err(Fail::new(EAGAIN, "cannot schedule coroutine")),
        }
    }

    /// The scheduler slot a token names: direct mapping keeps it in the
    /// token's low 32 bits.
    pub fn scheduler_id_of(&self, qt: QToken) -> (r: SchedulerId)
        ensures
            r.0 == qt.0 & 0xFFFF_FFFFu64,
    {
        proof {
            let token: u64 = qt.0;
            assert(token & 0xFFFF_FFFFu64 <= 0xFFFF_FFFFu64) by (bit_vector);
        }
        match self.qtoken_to_scheduler_id.get(qt.0) {
            Some(id) => SchedulerId(id as usize),
            None => SchedulerId(0),
        }
    }

    /// One pass over the background group: each runnable protocol coroutine
    /// is scheduled at most once.  Every returned slot holds a live task of
    /// the background group, and an empty result means no background task
    /// was runnable.
    pub fn poll_background_tasks(&mut self) -> (r: Vec<usize>)
        requires
            old(self).wf(),
        ensures
            final(self).wf(),
            final(self).foreground_spec() == old(self).foreground_spec(),
            final(self).background_spec() == old(self).background_spec(),
            forall|k: int|
                0 <= k < r@.len() ==> final(self).scheduler_spec().group_at(
                    old(self).background_spec().0 as int,
                ).occupied(#[trigger] r@[k] as int) && final(self).scheduler_spec().group_at(
                    old(self).background_spec().0 as int,
                ).initialized_bit(r@[k] as int),
            r@.len() == 0 ==> final(self).scheduler_spec().group_at(
                old(self).background_spec().0 as int,
            ).pending_ready().len() == 0,
    {
        let group: SchedulerId = self.background_group_id;
        self.scheduler.poll_group_once(group, Some(TIMER_RESOLUTION))
    }

    /// Polls the foreground group until no task is runnable.  Every
    /// returned slot holds a live task of the foreground group, and an
    /// empty result means no foreground task was runnable.
    pub fn poll_foreground_tasks(&mut self) -> (r: Vec<usize>)
        requires
            old(self).wf(),
        ensures
            final(self).wf(),
            final(self).foreground_spec() == old(self).foreground_spec(),
            final(self).background_spec() == old(self).background_spec(),
            forall|k: int|
                0 <= k < r@.len() ==> final(self).scheduler_spec().group_at(
                    old(self).foreground_spec().0 as int,
                ).occupied(#[trigger] r@[k] as int) && final(self).scheduler_spec().group_at(
                    old(self).foreground_spec().0 as int,
                ).initialized_bit(r@[k] as int),
            r@.len() == 0 ==> final(self).scheduler_spec().group_at(
                old(self).foreground_spec().0 as int,
            ).pending_ready().len() == 0,
    {
        let group: SchedulerId = self.foreground_group_id;
        self.scheduler.poll_group_until_unrunnable(group, Some(TIMER_RESOLUTION))
    }

    /// Stashes a completed operation's result for a token nobody has
    /// awaited yet.
    pub fn stash_completed_result(&mut self, qt: QToken, qd: QDesc, result: R)
        requires
            old(self).wf(),
        ensures
            final(self).wf(),
            final(self).completed_spec() == old(self).completed_spec().insert(qt.0, (qd, result)),
    {
        self.completed_results.insert(qt.0, (qd, result));
    }

    /// Takes the stashed result for the first of `qts` that has one; the
    /// result is consumed.  `None` when no listed token has completed, upon
    /// which the caller runs the scheduler and retries until its deadline.
    pub fn take_completed_result(&mut self, qts: &Vec<QToken>) -> (r: Option<(usize, QToken, QDesc, R)>)
        requires
            old(self).wf(),
        ensures
            final(self).wf(),
            r is Some ==> {
                let (i, qt, qd, result) = r.unwrap();
                &&& i < qts@.len()
                &&& qts@[i as int] == qt
                &&& old(self).completed_spec().contains_key(qt.0)
                &&& old(self).completed_spec()[qt.0] == (qd, result)
                &&& final(self).completed_spec() == old(self).completed_spec().remove(qt.0)
            },
            r is None ==> final(self).completed_spec() == old(self).completed_spec() && forall|
                i: int,
            |
                0 <= i < qts@.len() ==> !old(self).completed_spec().contains_key(
                    (#[trigger] qts@[i]).0,
                ),
    {
        let mut i: usize = 0;
        while i < qts.len()
            invariant
                old(self).wf(),
                i <= qts@.len(),
                self.scheduler == old(self).scheduler,
                self.foreground_group_id == old(self).foreground_group_id,
                self.background_group_id == old(self).background_group_id,
                self.qtoken_to_scheduler_id == old(self).qtoken_to_scheduler_id,
                self.socket_id_to_qdesc_map == old(self).socket_id_to_qdesc_map,
                self.timer == old(self).timer,
                self.completed_results@ =~= old(self).completed_spec(),
                forall|k: int|
                    0 <= k < i ==> !old(self).completed_spec().contains_key(
                        (#[trigger] qts@[k]).0,
                    ),
            decreases qts@.len() - i,
        {
            let qt: QToken = qts[i];
            let entry: Option<(QDesc, R)> = self.completed_results.remove(&qt.0);
            match entry {
                Some((qd, result)) => {
                    proof {
                        assert(self.completed_results@ =~= old(self).completed_spec().remove(
                            qt.0,
                        ));
                    }
                    return Some((i, qt, qd, result));
                },
                None => {
                    proof {
                        assert(self.completed_results@ =~= old(self).completed_spec());
                    }
                },
            }
            i = i + 1;
        }
        None
    }

    /// Moves the clock forward deterministically.
    pub fn advance_clock(&mut self, now: u64)
        requires
            old(self).wf(),
        ensures
            final(self).wf(),
            final(self).timer_spec().now_spec() == (if now > old(self).timer_spec().now_spec() {
                now
            } else {
                old(self).timer_spec().now_spec()
            }),
            final(self).timer_spec().sleeps_spec() == old(self).timer_spec().sleeps_spec(),
    {
        self.timer.advance_clock(now);
    }

    /// The current time according to the runtime's clock.
    pub fn get_now(&self) -> (r: u64)
        ensures
            r == self.timer_spec().now_spec(),
    {
        self.timer.get_now()
    }

    /// Schedules sleeper `waiter` to wake at `deadline`.
    pub fn register_sleep(&mut self, deadline: u64, waiter: u64)
        requires
            old(self).wf(),
        ensures
            final(self).wf(),
            final(self).timer_spec().sleeps_spec() == old(
                self,
            ).timer_spec().sleeps_spec().push((deadline, waiter)),
            final(self).timer_spec().now_spec() == old(self).timer_spec().now_spec(),
    {
        self.timer.register_sleep(deadline, waiter);
    }

    /// Removes and returns every sleeper whose deadline has passed.
    pub fn pop_due_sleeps(&mut self) -> (r: Vec<u64>)
        requires
            old(self).wf(),
        ensures
            final(self).wf(),
            r@ == old(self).timer_spec().sleeps_spec().filter(
                |s: (u64, u64)| s.0 <= old(self).timer_spec().now_spec(),
            ).map_values(|s: (u64, u64)| s.1),
            final(self).timer_spec().sleeps_spec() == old(self).timer_spec().sleeps_spec().filter(
                |s: (u64, u64)| s.0 > old(self).timer_spec().now_spec(),
            ),
    {
        self.timer.pop_due()
    }

    /// Looks up the queue descriptor registered for a socket identity.
    pub fn get_qd_from_socket_id(&self, id: &SocketId) -> (r: Option<QDesc>)
        ensures
            self.socket_map_spec().contains_key(socket_id_key_spec(*id)) ==> r == Some(
                self.socket_map_spec()[socket_id_key_spec(*id)],
            ),
            !self.socket_map_spec().contains_key(socket_id_key_spec(*id)) ==> r is None,
    {
        self.socket_id_to_qdesc_map.get_qd(id)
    }

    /// The socket-id table's contents.
    pub closed spec fn socket_map_spec(self) -> Map<u128, QDesc> {
        self.socket_id_to_qdesc_map.map_spec()
    }

    /// Registers a socket identity as belonging to `qd`.
    pub fn insert_socket_id_to_qd(&mut self, id: SocketId, qd: QDesc) -> (r: Option<QDesc>)
        requires
            old(self).wf(),
        ensures
            final(self).wf(),
            final(self).socket_map_spec() == old(self).socket_map_spec().insert(
                socket_id_key_spec(id),
                qd,
            ),
    {
        self.socket_id_to_qdesc_map.insert(id, qd)
    }

    /// Unregisters a socket identity, returning the descriptor it belonged
    /// to, if any.
    pub fn remove_socket_id_to_qd(&mut self, id: &SocketId) -> (r: Option<QDesc>)
        requires
            old(self).wf(),
        ensures
            final(self).wf(),
            final(self).socket_map_spec() == old(self).socket_map_spec().remove(
                socket_id_key_spec(*id),
            ),
            old(self).socket_map_spec().contains_key(socket_id_key_spec(*id)) ==> r == Some(
                old(self).socket_map_spec()[socket_id_key_spec(*id)],
            ),
            !old(self).socket_map_spec().contains_key(socket_id_key_spec(*id)) ==> r is None,
    {
        self.socket_id_to_qdesc_map.remove(id)
    }

    /// Whether `addr` is in use by a bound socket.
    pub fn is_addr_in_use(&self, addr: &SocketAddress) -> (r: bool)
        ensures
            r == self.socket_map_spec().contains_key(
                socket_id_key_spec(SocketId::Passive(*addr)),
            ),
    {
        self.socket_id_to_qdesc_map.is_in_use(addr)
    }
}

} // verus!
