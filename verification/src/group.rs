//! A task group: slab storage of tasks plus the waker pages that schedule
//! them.  A task in slot `i` is tracked by bit `i % 64` of page `i / 64`.
//!
//! Two properties of the poll cycle are proved here.  A slot notified since
//! the last drain is always in the next drained ready list — wakes coalesce
//! but are never lost (see `check_for_new_ready_tasks`).  And an index
//! handed out as runnable always names a live slot whose `initialized` bit
//! is set (see `get_next_runnable_task` and `poll_group`).

use vstd::prelude::*;

use crate::waker_page::{lemma_zero_bits, nth_bit, WakerPage};

verus! {

broadcast use vstd::seq_lib::lemma_seq_contains_after_push;

/// Number of task slots covered by one waker page.
pub const SLOTS_PER_PAGE: usize = 64;

/// Largest number of waker pages a group may grow to; keeps slot arithmetic
/// inside `usize`.
pub const MAX_WAKER_PAGES: usize = 0x1000000;

/// Splits a slot index into its page index and in-page offset.
proof fn lemma_slot_decomposition(i: int)
    requires
        i >= 0,
    ensures
        i == SLOTS_PER_PAGE * (i / (SLOTS_PER_PAGE as int)) + i % (SLOTS_PER_PAGE as int),
        0 <= i % (SLOTS_PER_PAGE as int) < SLOTS_PER_PAGE,
        i / (SLOTS_PER_PAGE as int) >= 0,
{
    vstd::arithmetic::div_mod::lemma_fundamental_div_mod(i, SLOTS_PER_PAGE as int);
    vstd::arithmetic::div_mod::lemma_mod_bound(i, SLOTS_PER_PAGE as int);
    vstd::arithmetic::div_mod::lemma_div_pos_is_pos(i, SLOTS_PER_PAGE as int);
}

/// A slot below `n` pages' coverage lies in a page below `n`.
proof fn lemma_quotient_bound(i: int, n: int)
    requires
        0 <= i < n * SLOTS_PER_PAGE,
    ensures
        0 <= i / (SLOTS_PER_PAGE as int) < n,
{
    lemma_slot_decomposition(i);
}

/// Distinct slots on the same page have distinct offsets.
proof fn lemma_distinct_offsets(i: int, k: int)
    requires
        i >= 0,
        k >= 0,
        i != k,
        i / (SLOTS_PER_PAGE as int) == k / (SLOTS_PER_PAGE as int),
    ensures
        i % (SLOTS_PER_PAGE as int) != k % (SLOTS_PER_PAGE as int),
{
    lemma_slot_decomposition(i);
    lemma_slot_decomposition(k);
}

/// A reference to one task slot, handed to whoever must be able to wake it.
#[derive(Clone, Copy, Debug)]
pub struct WakerRef {
    index: usize,
}

impl WakerRef {
    /// The slot this waker names.
    pub closed spec fn index_spec(self) -> int {
        self.index as int
    }

    /// Creates a waker for task slot `index`.
    pub fn new(index: usize) -> (r: Self)
        ensures
            r.index_spec() == index,
    {
        WakerRef { index }
    }

    /// The slot this waker names.
    pub fn index(&self) -> (r: usize)
        ensures
            r == self.index_spec(),
    {
        self.index
    }
}

/// A group of tasks: pinned slab storage plus waker pages.
pub struct TaskGroup<T> {
    /// Task slots; a task keeps its slot until removed.
    tasks: Vec<Option<T>>,
    /// Waker pages covering every slot.
    pages: Vec<WakerPage>,
    /// Ready list drained from the pages, consumed from `ready_pos` on.
    ready: Vec<usize>,
    /// Position of the next unconsumed ready entry.
    ready_pos: usize,
}

impl<T> TaskGroup<T> {
    /// Whether slot `i` holds a task.
    pub closed spec fn occupied(self, i: int) -> bool {
        0 <= i < self.tasks@.len() && self.tasks@[i] is Some
    }

    /// The task in slot `i`.
    pub closed spec fn task_at(self, i: int) -> T {
        self.tasks@[i]->Some_0
    }

    /// Number of slots covered by the waker pages.
    pub closed spec fn num_slots(self) -> int {
        self.pages@.len() * SLOTS_PER_PAGE
    }

    /// Number of task slots ever used.
    pub closed spec fn num_task_slots(self) -> int {
        self.tasks@.len() as int
    }

    /// The `initialized` bit of slot `i`.
    pub closed spec fn initialized_bit(self, i: int) -> bool {
        nth_bit(self.pages@[i / (SLOTS_PER_PAGE as int)].initialized_spec(), (i % (
        SLOTS_PER_PAGE as int)) as u64)
    }

    /// The `notified` bit of slot `i`.
    pub closed spec fn notified_bit(self, i: int) -> bool {
        nth_bit(self.pages@[i / (SLOTS_PER_PAGE as int)].notified_spec(), (i % (
        SLOTS_PER_PAGE as int)) as u64)
    }

    /// The drained ready entries not yet handed out.
    pub closed spec fn pending_ready(self) -> Seq<usize> {
        self.ready@.skip(self.ready_pos as int)
    }

    /// Internal consistency: pages cover the slab, every page obeys its
    /// invariant, and a slot's `initialized` bit is set exactly when the
    /// slot holds a task.
    pub closed spec fn wf(self) -> bool {
        &&& self.tasks@.len() <= self.pages@.len() * SLOTS_PER_PAGE
        &&& self.pages@.len() <= MAX_WAKER_PAGES
        &&& forall|p: int| 0 <= p < self.pages@.len() ==> (#[trigger] self.pages@[p]).inv()
        &&& forall|i: int|
            0 <= i < self.num_slots() ==> (#[trigger] self.initialized_bit(i) <==> self.occupied(
                i,
            ))
        &&& self.ready_pos <= self.ready@.len()
    }

    /// Creates an empty group.
    pub fn new() -> (r: Self)
        ensures
            r.wf(),
            r.num_task_slots() == 0,
            r.pending_ready() == Seq::<usize>::empty(),
            forall|i: int| !r.occupied(i),
    {
        let r = TaskGroup { tasks: Vec::new(), pages: Vec::new(), ready: Vec::new(), ready_pos: 0 };
        proof {
            assert(r.pending_ready() =~= Seq::<usize>::empty());
        }
        r
    }

    /// Number of waker pages backing this group; they cover every slot
    /// ever used.
    pub fn get_num_waker_pages(&self) -> (r: usize)
        requires
            self.wf(),
        ensures
            r * SLOTS_PER_PAGE == self.num_slots(),
            r * SLOTS_PER_PAGE >= self.num_task_slots(),
    {
        self.pages.len()
    }

    /// The page index and in-page offset of slot `ix`, or `None` when the
    /// slot does not hold a task.
    pub fn get_waker_page_index_and_offset(&self, ix: usize) -> (r: Option<(usize, usize)>)
        requires
            self.wf(),
        ensures
            self.occupied(ix as int) ==> r == Some(
                ((ix / SLOTS_PER_PAGE), (ix % SLOTS_PER_PAGE)),
            ),
            !self.occupied(ix as int) ==> r is None,
    {
        if ix < self.tasks.len() && self.slot_occupied(ix) {
            Some((ix / SLOTS_PER_PAGE, ix % SLOTS_PER_PAGE))
        } else {
            None
        }
    }

    /// Whether slot `ix` currently holds a task.
    pub fn slot_occupied(&self, ix: usize) -> (r: bool)
        requires
            ix < self.num_task_slots(),
        ensures
            r == self.occupied(ix as int),
    {
        self.tasks[ix].is_some()
    }

    /// Inserts `task` into the lowest free slot and marks that slot live
    /// and notified, so the task is polled on the next cycle.  Returns
    /// `None`, leaving the group unchanged, only when the slab cannot grow
    /// further.
    pub fn insert(&mut self, task: T) -> (r: Option<usize>)
        requires
            old(self).wf(),
        ensures
            final(self).wf(),
            r is None ==> *final(self) == *old(self),
            old(self).num_task_slots() < MAX_WAKER_PAGES * SLOTS_PER_PAGE ==> r is Some,
            r is Some ==> r.unwrap() < MAX_WAKER_PAGES * SLOTS_PER_PAGE,
            r is Some ==> {
                let ix = r.unwrap() as int;
                &&& !old(self).occupied(ix)
                &&& final(self).occupied(ix)
                &&& final(self).task_at(ix) == task
                &&& final(self).notified_bit(ix)
                &&& final(self).initialized_bit(ix)
                &&& ix < final(self).num_task_slots()
                &&& ix < final(self).num_slots()
                &&& forall|i: int|
                    0 <= i < final(self).num_task_slots() && i != ix ==> (
                    #[trigger] final(self).occupied(i) == old(self).occupied(i) && (old(
                        self,
                    ).occupied(i) ==> final(self).task_at(i) == old(self).task_at(i)))
            },
    {
        // Find the lowest free slot.
        let mut ix: usize = 0;
        while ix < self.tasks.len() && self.tasks[ix].is_some()
            invariant
                ix <= self.tasks@.len(),
                *self == *old(self),
            decreases self.tasks@.len() - ix,
        {
            ix = ix + 1;
        }
        // Refuse before mutating anything if the pages cannot cover the slot.
        if ix >= MAX_WAKER_PAGES * SLOTS_PER_PAGE {
            return None;
        }
        // Grow the waker pages to cover the slot.
        let target_pages: usize = ix / SLOTS_PER_PAGE + 1;
        proof {
            lemma_slot_decomposition(ix as int);
            lemma_quotient_bound(ix as int, MAX_WAKER_PAGES as int);
        }
        while self.pages.len() < target_pages
            invariant
                self.tasks == old(self).tasks,
                self.ready == old(self).ready,
                self.ready_pos == old(self).ready_pos,
                target_pages <= MAX_WAKER_PAGES,
                self.pages@.len() >= old(self).pages@.len(),
                self.pages@.len() <= target_pages || self.pages@.len() == old(
                    self,
                ).pages@.len(),
                forall|p: int|
                    0 <= p < old(self).pages@.len() ==> self.pages@[p] == old(self).pages@[p],
                forall|p: int|
                    old(self).pages@.len() <= p < self.pages@.len() ==> (
                    #[trigger] self.pages@[p]).initialized_spec() == 0 && self.pages@[p].inv()
                        && self.pages@[p].notified_spec() == 0,
            decreases target_pages - self.pages@.len(),
        {
            self.pages.push(WakerPage::new());
        }
        proof {
            if old(self).pages@.len() < target_pages {
                assert(self.pages@.len() == target_pages);
            }
            assert(self.pages@.len() <= MAX_WAKER_PAGES);
            assert(ix < self.pages@.len() * SLOTS_PER_PAGE) by {
                lemma_slot_decomposition(ix as int);
                vstd::arithmetic::mul::lemma_mul_inequality(
                    target_pages as int,
                    self.pages@.len() as int,
                    SLOTS_PER_PAGE as int,
                );
            }
            assert(self.tasks@.len() <= self.pages@.len() * SLOTS_PER_PAGE) by {
                vstd::arithmetic::mul::lemma_mul_inequality(
                    old(self).pages@.len() as int,
                    self.pages@.len() as int,
                    SLOTS_PER_PAGE as int,
                );
            }
        }
        proof {
            // A fresh page's bits are all clear, so the slots it covers are
            // seen as unoccupied, matching the slab.
            assert forall|i: int|
                0 <= i < self.pages@.len() * SLOTS_PER_PAGE implies (
            #[trigger] self.initialized_bit(i) <==> self.occupied(i)) by {
                lemma_quotient_bound(i, self.pages@.len() as int);
                lemma_slot_decomposition(i);
                if i / (SLOTS_PER_PAGE as int) < old(self).pages@.len() {
                    assert(self.initialized_bit(i) == old(self).initialized_bit(i));
                    vstd::arithmetic::mul::lemma_mul_inequality(
                        i / (SLOTS_PER_PAGE as int) + 1,
                        old(self).pages@.len() as int,
                        SLOTS_PER_PAGE as int,
                    );
                    assert(i < old(self).num_slots());
                } else {
                    assert(self.pages@[i / (SLOTS_PER_PAGE as int)].initialized_spec() == 0);
                    lemma_zero_bits();
                    assert(!self.initialized_bit(i));
                    vstd::arithmetic::mul::lemma_mul_inequality(
                        old(self).pages@.len() as int,
                        i / (SLOTS_PER_PAGE as int),
                        SLOTS_PER_PAGE as int,
                    );
                    assert(i >= self.tasks@.len());
                    assert(!self.occupied(i));
                }
            }
        }
        let ghost mid = *self;
        // Store the task.
        if ix == self.tasks.len() {
            self.tasks.push(Some(task));
        } else {
            self.tasks.set(ix, Some(task));
        }
        // Mark the slot live and notified.
        let p: usize = ix / SLOTS_PER_PAGE;
        let s: usize = ix % SLOTS_PER_PAGE;
        proof {
            lemma_quotient_bound(ix as int, self.pages@.len() as int);
        }
        let page: &mut WakerPage = &mut self.pages[p];
        page.initialize(s);
        proof {
            assert forall|i: int|
                0 <= i < self.pages@.len() * SLOTS_PER_PAGE implies (
            #[trigger] self.initialized_bit(i) <==> self.occupied(i)) by {
                lemma_quotient_bound(i, self.pages@.len() as int);
                lemma_slot_decomposition(i);
                if i == ix {
                    assert(self.initialized_bit(i));
                    assert(self.occupied(i));
                } else {
                    if i / (SLOTS_PER_PAGE as int) == p {
                        lemma_distinct_offsets(i, ix as int);
                        assert(self.initialized_bit(i) == mid.initialized_bit(i));
                    } else {
                        assert(self.initialized_bit(i) == mid.initialized_bit(i));
                    }
                    assert(mid.initialized_bit(i) <==> mid.occupied(i));
                    assert(self.occupied(i) == mid.occupied(i));
                }
            }
            assert forall|q: int| 0 <= q < self.pages@.len() implies (
            #[trigger] self.pages@[q]).inv() by {
                if q != p {
                    assert(self.pages@[q] == mid.pages@[q]);
                }
            }
            assert(self.notified_bit(ix as int));
        }
        Some(ix)
    }

    /// Removes and returns the task in slot `ix`, clearing the slot's
    /// liveness and notification bits; `None` when the slot holds no task.
    pub fn remove(&mut self, ix: usize) -> (r: Option<T>)
        requires
            old(self).wf(),
        ensures
            final(self).wf(),
            !old(self).occupied(ix as int) ==> {
                &&& r is None
                &&& final(self).num_task_slots() == old(self).num_task_slots()
                &&& final(self).num_slots() == old(self).num_slots()
                &&& forall|i: int| final(self).occupied(i) == old(self).occupied(i)
                &&& forall|i: int|
                    old(self).occupied(i) ==> #[trigger] final(self).task_at(i) == old(
                        self,
                    ).task_at(i)
                &&& forall|i: int|
                    0 <= i < old(self).num_slots() ==> #[trigger] final(self).notified_bit(i)
                        == old(self).notified_bit(i)
            },
            old(self).occupied(ix as int) ==> {
                &&& r == Some(old(self).task_at(ix as int))
                &&& !final(self).occupied(ix as int)
                &&& !final(self).notified_bit(ix as int)
                &&& final(self).num_task_slots() == old(self).num_task_slots()
                &&& forall|i: int|
                    0 <= i < final(self).num_task_slots() && i != ix ==> (
                    #[trigger] final(self).occupied(i) == old(self).occupied(i) && (old(
                        self,
                    ).occupied(i) ==> final(self).task_at(i) == old(self).task_at(i)))
            },
    {
        if ix >= self.tasks.len() {
            return None;
        }
        let slot: &mut Option<T> = &mut self.tasks[ix];
        let taken: Option<T> = slot.take();
        match taken {
            Some(task) => {
                let p: usize = ix / SLOTS_PER_PAGE;
                let s: usize = ix % SLOTS_PER_PAGE;
                proof {
                    lemma_quotient_bound(ix as int, self.pages@.len() as int);
                }
                let ghost mid = *self;
                let page: &mut WakerPage = &mut self.pages[p];
                page.clear(s);
                proof {
                    assert forall|i: int|
                        0 <= i < self.pages@.len() * SLOTS_PER_PAGE implies (
                    #[trigger] self.initialized_bit(i) <==> self.occupied(i)) by {
                        lemma_quotient_bound(i, self.pages@.len() as int);
                        lemma_slot_decomposition(i);
                        if i == ix {
                            assert(!self.initialized_bit(i));
                            assert(!self.occupied(i));
                        } else {
                            if i / (SLOTS_PER_PAGE as int) == p {
                                lemma_distinct_offsets(i, ix as int);
                            }
                            assert(self.initialized_bit(i) == mid.initialized_bit(i));
                            assert(mid.initialized_bit(i) == old(self).initialized_bit(i));
                            assert(self.occupied(i) == old(self).occupied(i));
                        }
                    }
                    assert forall|q: int| 0 <= q < self.pages@.len() implies (
                    #[trigger] self.pages@[q]).inv() by {
                        if q != p {
                            assert(self.pages@[q] == mid.pages@[q]);
                        }
                    }
                    assert(!self.notified_bit(ix as int));
                }
                Some(task)
            },
            None => {
                proof {
                    assert(self.tasks@ =~= old(self).tasks@);
                    assert forall|i: int|
                        0 <= i < self.num_slots() implies (#[trigger] self.initialized_bit(i)
                        <==> self.occupied(i)) by {
                        assert(self.initialized_bit(i) == old(self).initialized_bit(i));
                        assert(self.occupied(i) == old(self).occupied(i));
                    }
                    assert forall|q: int| 0 <= q < self.pages@.len() implies (
                    #[trigger] self.pages@[q]).inv() by {
                        assert(self.pages@[q] == old(self).pages@[q]);
                    }
                }
                None
            },
        }
    }

    /// Asks slot `ix` to wake.  A wake on a live slot sets its notification
    /// bit; one on a dead slot is coalesced away.  Nothing else changes.
    pub fn wake(&mut self, ix: usize)
        requires
            old(self).wf(),
        ensures
            final(self).wf(),
            final(self).num_task_slots() == old(self).num_task_slots(),
            final(self).num_slots() == old(self).num_slots(),
            forall|i: int| final(self).occupied(i) == old(self).occupied(i),
            forall|i: int|
                old(self).occupied(i) ==> #[trigger] final(self).task_at(i) == old(self).task_at(
                    i,
                ),
            old(self).occupied(ix as int) ==> final(self).notified_bit(ix as int),
            forall|i: int|
                0 <= i < old(self).num_slots() && i != ix ==> #[trigger] final(self).notified_bit(
                    i,
                ) == old(self).notified_bit(i),
    {
        proof {
            if old(self).occupied(ix as int) {
                // A live slot is always covered by a page.
                lemma_quotient_bound(ix as int, self.pages@.len() as int);
            }
        }
        let p: usize = ix / SLOTS_PER_PAGE;
        if p < self.pages.len() {
            let s: usize = ix % SLOTS_PER_PAGE;
            proof {
                lemma_slot_decomposition(ix as int);
            }
            let page: &mut WakerPage = &mut self.pages[p];
            page.notify(s);
            proof {
                assert forall|i: int|
                    0 <= i < old(self).num_slots() && i != ix implies #[trigger] self.notified_bit(
                    i,
                ) == old(self).notified_bit(i) by {
                    lemma_quotient_bound(i, self.pages@.len() as int);
                    lemma_slot_decomposition(i);
                    if i / (SLOTS_PER_PAGE as int) == p {
                        lemma_distinct_offsets(i, ix as int);
                    }
                }
                assert forall|i: int|
                    0 <= i < self.num_slots() implies (#[trigger] self.initialized_bit(i)
                    <==> self.occupied(i)) by {
                    lemma_quotient_bound(i, self.pages@.len() as int);
                    assert(self.initialized_bit(i) == old(self).initialized_bit(i));
                }
                if old(self).occupied(ix as int) {
                    assert(old(self).initialized_bit(ix as int));
                    assert(self.notified_bit(ix as int));
                }
            }
        }
    }

    /// Wakes the slot a `WakerRef` names.
    pub fn wake_ref(&mut self, waker: &WakerRef)
        requires
            old(self).wf(),
        ensures
            final(self).wf(),
            forall|i: int| final(self).occupied(i) == old(self).occupied(i),
            forall|i: int|
                old(self).occupied(i) ==> #[trigger] final(self).task_at(i) == old(self).task_at(
                    i,
                ),
            old(self).occupied(waker.index_spec()) ==> final(self).notified_bit(
                waker.index_spec(),
            ),
    {
        self.wake(waker.index());
    }

    /// Drains every waker page: each notification bit is cleared, and the
    /// ready list is replaced by the slots that were notified.
    ///
    /// Law: wakes are never lost.  Every slot notified before the drain is
    /// in the ready list after it, every entry of that list names a live
    /// slot, and no notification survives the drain.
    pub fn check_for_new_ready_tasks(&mut self)
        requires
            old(self).wf(),
        ensures
            final(self).wf(),
            final(self).num_task_slots() == old(self).num_task_slots(),
            final(self).num_slots() == old(self).num_slots(),
            forall|i: int| final(self).occupied(i) == old(self).occupied(i),
            forall|i: int|
                old(self).occupied(i) ==> #[trigger] final(self).task_at(i) == old(self).task_at(
                    i,
                ),
            forall|i: int|
                0 <= i < old(self).num_slots() && old(self).notified_bit(i) ==> final(
                    self).pending_ready().contains(i as usize),
            forall|k: int|
                0 <= k < final(self).pending_ready().len() ==> final(self).occupied(
                    #[trigger] final(self).pending_ready()[k] as int,
                ),
            forall|i: int|
                0 <= i < final(self).num_slots() ==> !#[trigger] final(self).notified_bit(i),
    {
        let mut new_ready: Vec<usize> = Vec::new();
        let mut p: usize = 0;
        let num_pages: usize = self.pages.len();
        while p < num_pages
            invariant
                p <= num_pages,
                num_pages == self.pages@.len(),
                self.tasks == old(self).tasks,
                self.ready == old(self).ready,
                self.ready_pos == old(self).ready_pos,
                self.pages@.len() == old(self).pages@.len(),
                old(self).wf(),
                forall|q: int| p <= q < num_pages ==> self.pages@[q] == old(self).pages@[q],
                forall|q: int|
                    0 <= q < p ==> (#[trigger] self.pages@[q]).notified_spec() == 0
                        && self.pages@[q].initialized_spec() == old(
                        self,
                    ).pages@[q].initialized_spec() && self.pages@[q].inv(),
                forall|i: int|
                    0 <= i < p * SLOTS_PER_PAGE && old(self).notified_bit(i)
                        ==> new_ready@.contains(i as usize),
                forall|k: int|
                    0 <= k < new_ready@.len() ==> old(self).occupied(
                        #[trigger] new_ready@[k] as int,
                    ),
            decreases num_pages - p,
        {
            let word: u64 = {
                let page: &mut WakerPage = &mut self.pages[p];
                page.take_notified()
            };
            let ghost pre_inner = new_ready@;
            let mut s: usize = 0;
            while s < SLOTS_PER_PAGE
                invariant
                    s <= SLOTS_PER_PAGE,
                    p < num_pages,
                    num_pages == self.pages@.len(),
                    self.pages@.len() == old(self).pages@.len(),
                    old(self).wf(),
                    word == old(self).pages@[p as int].notified_spec(),
                    forall|j: u64|
                        #[trigger] nth_bit(word, j) ==> nth_bit(
                            old(self).pages@[p as int].initialized_spec(),
                            j,
                        ),
                    forall|k: int|
                        0 <= k < pre_inner.len() ==> new_ready@.contains(#[trigger] pre_inner[k]),
                    forall|j: int|
                        0 <= j < s && #[trigger] nth_bit(word, j as u64) ==> new_ready@.contains(
                            (p * SLOTS_PER_PAGE + j) as usize,
                        ),
                    forall|k: int|
                        0 <= k < new_ready@.len() ==> pre_inner.contains(#[trigger] new_ready@[k])
                            || (p * SLOTS_PER_PAGE <= new_ready@[k] < p * SLOTS_PER_PAGE
                            + SLOTS_PER_PAGE && nth_bit(
                            word,
                            (new_ready@[k] - p * SLOTS_PER_PAGE) as u64,
                        )),
                decreases SLOTS_PER_PAGE - s,
            {
                if ((word >> (s as u64)) & 1u64) == 1u64 {
                    proof {
                        vstd::arithmetic::mul::lemma_mul_inequality(
                            p as int + 1,
                            num_pages as int,
                            SLOTS_PER_PAGE as int,
                        );
                    }
                    new_ready.push(p * SLOTS_PER_PAGE + s);
                }
                s = s + 1;
            }
            p = p + 1;
            proof {
                assert forall|i: int|
                    0 <= i < p * SLOTS_PER_PAGE && old(self).notified_bit(
                    i,
                ) implies new_ready@.contains(i as usize) by {
                    lemma_slot_decomposition(i);
                    lemma_quotient_bound(i, p as int);
                    if i / (SLOTS_PER_PAGE as int) == p - 1 {
                        assert(nth_bit(word, (i % (SLOTS_PER_PAGE as int)) as u64));
                        assert(i == (p - 1) * SLOTS_PER_PAGE + i % (SLOTS_PER_PAGE as int));
                        assert(new_ready@.contains(i as usize));
                    }
                }
                assert forall|k: int|
                    0 <= k < new_ready@.len() implies old(self).occupied(
                    #[trigger] new_ready@[k] as int,
                ) by {
                    let v = new_ready@[k] as int;
                    if !pre_inner.contains(new_ready@[k]) {
                        assert((p - 1) * SLOTS_PER_PAGE <= v < p * SLOTS_PER_PAGE);
                        assert(v / (SLOTS_PER_PAGE as int) == p - 1 && v % (SLOTS_PER_PAGE as int)
                            == v - (p - 1) * SLOTS_PER_PAGE) by {
                            vstd::arithmetic::div_mod::lemma_fundamental_div_mod_converse(
                                v,
                                SLOTS_PER_PAGE as int,
                                p - 1,
                                v - (p - 1) * SLOTS_PER_PAGE,
                            );
                        }
                        assert(nth_bit(
                            old(self).pages@[p - 1].notified_spec(),
                            (v % (SLOTS_PER_PAGE as int)) as u64,
                        ));
                        assert(old(self).notified_bit(v));
                        assert(v < old(self).num_slots()) by {
                            vstd::arithmetic::mul::lemma_mul_inequality(
                                p as int,
                                num_pages as int,
                                SLOTS_PER_PAGE as int,
                            );
                        }
                        assert(old(self).initialized_bit(v));
                    }
                }
            }
        }
        self.ready = new_ready;
        self.ready_pos = 0;
        proof {
            assert(self.pending_ready() =~= new_ready@);
            assert forall|i: int|
                0 <= i < self.num_slots() implies (#[trigger] self.initialized_bit(i)
                <==> self.occupied(i)) by {
                lemma_quotient_bound(i, self.pages@.len() as int);
                assert(self.initialized_bit(i) == old(self).initialized_bit(i));
            }
            assert forall|i: int|
                0 <= i < self.num_slots() implies !#[trigger] self.notified_bit(i) by {
                lemma_quotient_bound(i, self.pages@.len() as int);
                lemma_slot_decomposition(i);
                lemma_zero_bits();
            }
        }
    }

    /// Hands out the next runnable slot from the ready list, skipping
    /// entries whose task has since been removed.  When the list is
    /// exhausted and `check_for_new_tasks` is set, drains the pages once
    /// and tries again.
    ///
    /// Law: a returned slot always holds a live task — no task is polled
    /// while its slot's `initialized` bit is clear.
    pub fn get_next_runnable_task(&mut self, check_for_new_tasks: bool) -> (r: Option<usize>)
        requires
            old(self).wf(),
        ensures
            final(self).wf(),
            final(self).num_task_slots() == old(self).num_task_slots(),
            forall|i: int| final(self).occupied(i) == old(self).occupied(i),
            forall|i: int|
                old(self).occupied(i) ==> #[trigger] final(self).task_at(i) == old(self).task_at(
                    i,
                ),
            r is Some ==> final(self).occupied(r.unwrap() as int) && final(self).initialized_bit(
                r.unwrap() as int,
            ),
            r is None ==> final(self).pending_ready().len() == 0,
    {
        match self.pop_ready() {
            Some(ix) => Some(ix),
            None => {
                if check_for_new_tasks {
                    self.check_for_new_ready_tasks();
                    self.pop_ready()
                } else {
                    None
                }
            },
        }
    }

    /// In a consistent group, a notified slot holds a live task.
    proof fn lemma_notified_implies_occupied(self, i: int)
        requires
            self.wf(),
            0 <= i < self.num_slots(),
            self.notified_bit(i),
        ensures
            self.occupied(i),
    {
        lemma_quotient_bound(i, self.pages@.len() as int);
        lemma_slot_decomposition(i);
        assert(self.pages@[i / (SLOTS_PER_PAGE as int)].inv());
        assert(self.initialized_bit(i));
    }

    /// A group whose tasks and pages are unchanged keeps its invariant.
    proof fn lemma_same_storage_wf(pre: Self, post: Self)
        requires
            pre.wf(),
            post.tasks == pre.tasks,
            post.pages == pre.pages,
            post.ready_pos <= post.ready@.len(),
        ensures
            post.wf(),
    {
        assert forall|i: int|
            0 <= i < post.num_slots() implies (#[trigger] post.initialized_bit(i)
            <==> post.occupied(i)) by {
            assert(post.initialized_bit(i) == pre.initialized_bit(i));
            assert(post.occupied(i) == pre.occupied(i));
        }
        assert forall|q: int| 0 <= q < post.pages@.len() implies (
        #[trigger] post.pages@[q]).inv() by {
            assert(post.pages@[q] == pre.pages@[q]);
        }
    }

    /// Pops ready entries until one names a live slot; `None` when the
    /// list is exhausted.  Entries passed over on the way are exactly the
    /// ones whose task has since been removed.
    fn pop_ready(&mut self) -> (r: Option<usize>)
        requires
            old(self).wf(),
        ensures
            final(self).wf(),
            final(self).tasks == old(self).tasks,
            final(self).pages == old(self).pages,
            final(self).num_task_slots() == old(self).num_task_slots(),
            forall|i: int| final(self).occupied(i) == old(self).occupied(i),
            forall|i: int|
                old(self).occupied(i) ==> #[trigger] final(self).task_at(i) == old(self).task_at(
                    i,
                ),
            r is Some ==> final(self).occupied(r.unwrap() as int) && final(self).initialized_bit(
                r.unwrap() as int,
            ),
            r is Some ==> exists|k: int|
                {
                    &&& 0 <= k < old(self).pending_ready().len()
                    &&& old(self).pending_ready()[k] == r.unwrap()
                    &&& (forall|j: int|
                        0 <= j < k ==> !old(self).occupied(
                            #[trigger] old(self).pending_ready()[j] as int,
                        ))
                    &&& final(self).pending_ready() == old(self).pending_ready().skip(k + 1)
                },
            r is None ==> final(self).pending_ready().len() == 0 && forall|j: int|
                0 <= j < old(self).pending_ready().len() ==> !old(self).occupied(
                    #[trigger] old(self).pending_ready()[j] as int,
                ),
    {
        let ghost base = old(self).ready_pos as int;
        while self.ready_pos < self.ready.len()
            invariant
                old(self).wf(),
                self.tasks == old(self).tasks,
                self.pages == old(self).pages,
                self.ready == old(self).ready,
                base == old(self).ready_pos as int,
                base <= self.ready_pos <= self.ready@.len(),
                forall|j: int|
                    base <= j < self.ready_pos ==> !old(self).occupied(
                        #[trigger] old(self).ready@[j] as int,
                    ),
            decreases self.ready@.len() - self.ready_pos,
        {
            let ix: usize = self.ready[self.ready_pos];
            self.ready_pos = self.ready_pos + 1;
            if ix < self.tasks.len() && self.tasks[ix].is_some() {
                proof {
                    assert(self.occupied(ix as int));
                    lemma_quotient_bound(ix as int, self.pages@.len() as int);
                    Self::lemma_same_storage_wf(*old(self), *self);
                    let k = self.ready_pos - 1 - base;
                    assert(old(self).pending_ready()[k] == old(self).ready@[base + k]);
                    assert(old(self).pending_ready()[k] == ix);
                    assert forall|j: int| 0 <= j < k implies !old(self).occupied(
                        #[trigger] old(self).pending_ready()[j] as int,
                    ) by {
                        assert(old(self).pending_ready()[j] == old(self).ready@[base + j]);
                    }
                    assert(self.pending_ready() =~= old(self).pending_ready().skip(k + 1));
                }
                return Some(ix);
            }
        }
        proof {
            Self::lemma_same_storage_wf(*old(self), *self);
            assert forall|j: int| 0 <= j < old(self).pending_ready().len() implies !old(
                self,
            ).occupied(#[trigger] old(self).pending_ready()[j] as int) by {
                assert(old(self).pending_ready()[j] == old(self).ready@[base + j]);
            }
            assert(self.pending_ready().len() == 0);
        }
        None
    }

    /// One poll cycle: hands out runnable slots in order, up to
    /// `max_iterations` of them.  The list left from earlier cycles is
    /// consumed first; when it runs dry the pages are drained.  In
    /// poll-once mode (`keep_checking_for_new_tasks` clear) the drain
    /// happens only when the cycle began with a dry list; in
    /// poll-until-idle mode it happens whenever the list runs dry — and
    /// once is enough, since nothing can set a notification bit within the
    /// cycle: the polling itself happens at the caller.
    ///
    /// Laws: every slot in the returned schedule holds a live task; and,
    /// unbudgeted and starting from a consumed list, wakes are never lost —
    /// every slot notified at entry is in the schedule.
    pub fn poll_group(
        &mut self,
        max_iterations: Option<usize>,
        keep_checking_for_new_tasks: bool,
    ) -> (schedule: Vec<usize>)
        requires
            old(self).wf(),
        ensures
            final(self).wf(),
            final(self).num_task_slots() == old(self).num_task_slots(),
            forall|i: int| final(self).occupied(i) == old(self).occupied(i),
            forall|i: int|
                old(self).occupied(i) ==> #[trigger] final(self).task_at(i) == old(self).task_at(
                    i,
                ),
            forall|k: int|
                0 <= k < schedule@.len() ==> final(self).occupied(#[trigger] schedule@[k] as int)
                    && final(self).initialized_bit(schedule@[k] as int),
            (match max_iterations {
                Some(m) => m > 0,
                None => true,
            }) && schedule@.len() == 0 ==> final(self).pending_ready().len() == 0,
            max_iterations is None && old(self).pending_ready().len() == 0 ==> forall|i: int|
                0 <= i < old(self).num_slots() && old(self).notified_bit(i)
                    ==> schedule@.contains(i as usize),
    {
        let ghost unbudgeted = max_iterations is None && old(self).pending_ready().len() == 0;
        let mut schedule: Vec<usize> = Vec::new();
        let budget: usize = match max_iterations {
            Some(m) => m,
            None => usize::MAX,
        };
        let mut iterations: usize = 0;
        let entry_dry: bool = self.ready_pos == self.ready.len();
        let mut done: bool = false;
        // Consume the list left from earlier cycles.
        while !done && iterations < budget
            invariant
                self.wf(),
                self.pages == old(self).pages,
                self.num_task_slots() == old(self).num_task_slots(),
                self.num_slots() == old(self).num_slots(),
                forall|i: int| self.occupied(i) == old(self).occupied(i),
                forall|i: int|
                    old(self).occupied(i) ==> #[trigger] self.task_at(i) == old(self).task_at(i),
                forall|k: int|
                    0 <= k < schedule@.len() ==> self.occupied(#[trigger] schedule@[k] as int),
                schedule@.len() == iterations,
                done ==> self.pending_ready().len() == 0,
                unbudgeted ==> iterations == 0 && self.pending_ready().len() == 0,
            decreases budget - iterations, (if done {
                0int
            } else {
                1int
            }),
        {
            match self.pop_ready() {
                Some(ix) => {
                    schedule.push(ix);
                    iterations = iterations + 1;
                },
                None => {
                    done = true;
                },
            }
        }
        // The one drain of this cycle.
        let drain: bool = if keep_checking_for_new_tasks {
            done
        } else {
            done && entry_dry
        };
        if drain {
            proof {
                assert forall|i: int|
                    0 <= i < old(self).num_slots() implies #[trigger] self.notified_bit(i) == old(
                    self,
                ).notified_bit(i) by {
                    lemma_quotient_bound(i, self.pages@.len() as int);
                }
            }
            let ghost pre_drain = *self;
            self.check_for_new_ready_tasks();
            let remaining: usize = self.ready.len() - self.ready_pos;
            let ghost drained_len = remaining as int;
            proof {
                assert(drained_len == self.pending_ready().len());
                assert forall|i: int|
                    0 <= i < old(self).num_slots() && old(self).notified_bit(i) implies
                self.pending_ready().contains(i as usize) by {
                    assert(pre_drain.notified_bit(i));
                }
            }
            done = false;
            // Consume the drained list.
            while !done && iterations < budget
                invariant
                    old(self).wf(),
                    self.wf(),
                    budget == (match max_iterations {
                        Some(m) => m,
                        None => usize::MAX,
                    }),
                    self.num_task_slots() == old(self).num_task_slots(),
                    self.num_slots() == old(self).num_slots(),
                    forall|i: int| self.occupied(i) == old(self).occupied(i),
                    forall|i: int|
                        old(self).occupied(i) ==> #[trigger] self.task_at(i) == old(self).task_at(
                            i,
                        ),
                    forall|k: int|
                        0 <= k < schedule@.len() ==> self.occupied(#[trigger] schedule@[k] as int),
                    schedule@.len() == iterations,
                    done ==> self.pending_ready().len() == 0,
                    unbudgeted ==> iterations + self.pending_ready().len() <= drained_len,
                    drained_len <= usize::MAX,
                    unbudgeted ==> forall|i: int|
                        0 <= i < old(self).num_slots() && old(self).notified_bit(i)
                            ==> schedule@.contains(i as usize) || self.pending_ready().contains(
                            i as usize,
                        ),
                decreases budget - iterations, (if done {
                    0int
                } else {
                    1int
                }),
            {
                let ghost before = *self;
                match self.pop_ready() {
                    Some(ix) => {
                        proof {
                            if unbudgeted {
                                let k = choose|k: int|
                                    {
                                        &&& 0 <= k < before.pending_ready().len()
                                        &&& before.pending_ready()[k] == ix
                                        &&& (forall|j: int|
                                            0 <= j < k ==> !before.occupied(
                                                #[trigger] before.pending_ready()[j] as int,
                                            ))
                                        &&& self.pending_ready() == before.pending_ready().skip(
                                            k + 1,
                                        )
                                    };
                                assert forall|i: int|
                                    0 <= i < old(self).num_slots() && old(self).notified_bit(i)
                                        && !schedule@.push(ix).contains(i as usize) implies
                                self.pending_ready().contains(i as usize) by {
                                    assert(schedule@.push(ix).contains(ix));
                                    assert(before.pending_ready().contains(i as usize));
                                    let p = choose|p: int|
                                        0 <= p < before.pending_ready().len()
                                            && before.pending_ready()[p] == i as usize;
                                    old(self).lemma_notified_implies_occupied(i);
                                    assert(before.occupied(before.pending_ready()[p] as int));
                                    assert(p != k);
                                    assert(p > k);
                                    assert(self.pending_ready()[p - k - 1] == i as usize);
                                }
                            }
                        }
                        schedule.push(ix);
                        iterations = iterations + 1;
                    },
                    None => {
                        proof {
                            if unbudgeted {
                                assert forall|i: int|
                                    0 <= i < old(self).num_slots() && old(self).notified_bit(
                                    i,
                                ) implies schedule@.contains(i as usize) by {
                                    if !schedule@.contains(i as usize) {
                                        assert(before.pending_ready().contains(i as usize));
                                        let p = choose|p: int|
                                            0 <= p < before.pending_ready().len()
                                                && before.pending_ready()[p] == i as usize;
                                        old(self).lemma_notified_implies_occupied(i);
                                        assert(before.occupied(
                                            before.pending_ready()[p] as int,
                                        ));
                                        assert(!before.occupied(
                                            before.pending_ready()[p] as int,
                                        ));
                                    }
                                }
                            }
                        }
                        done = true;
                    },
                }
            }
            proof {
                if unbudgeted {
                    assert(budget == usize::MAX);
                    assert(self.pending_ready().len() == 0);
                    assert forall|i: int|
                        0 <= i < old(self).num_slots() && old(self).notified_bit(i) implies
                    schedule@.contains(i as usize) by {
                        assert(!self.pending_ready().contains(i as usize));
                    }
                }
            }
        }
        proof {
            assert forall|k: int|
                0 <= k < schedule@.len() implies self.occupied(#[trigger] schedule@[k] as int)
                    && self.initialized_bit(schedule@[k] as int) by {
                assert(schedule@[k] < self.num_task_slots());
            }
        }
        schedule
    }
}

} // verus!
