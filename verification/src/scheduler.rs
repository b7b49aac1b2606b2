//! The scheduler: a collection of task groups addressed by internal ids.
//! The runtime keeps one foreground and one background group; polling a
//! group yields the slots whose tasks are runnable.

use vstd::prelude::*;

use crate::group::TaskGroup;

verus! {

/// An internal scheduler id: a group or a task slot.  Never exposed to the
/// application without going through the runtime's id map.
#[derive(Clone, Copy, PartialEq, Eq, Structural, Hash, Debug)]
pub struct SchedulerId(pub usize);

/// A set of task groups.
pub struct Scheduler<T> {
    /// The groups, addressed directly by slot.
    groups: Vec<Option<TaskGroup<T>>>,
}

impl<T> Scheduler<T> {
    /// Whether `g` names a live group.
    pub closed spec fn has_group(self, g: int) -> bool {
        0 <= g < self.groups@.len() && self.groups@[g] is Some
    }

    /// The group `g` names.
    pub closed spec fn group_at(self, g: int) -> TaskGroup<T> {
        self.groups@[g]->Some_0
    }

    /// Every live group is internally consistent.
    pub closed spec fn wf(self) -> bool {
        forall|g: int| #[trigger] self.has_group(g) ==> self.group_at(g).wf()
    }

    /// Creates a scheduler with no groups.
    pub fn new() -> (r: Self)
        ensures
            r.wf(),
            forall|g: int| !r.has_group(g),
    {
        Scheduler { groups: Vec::new() }
    }

    /// Creates a fresh, empty task group and returns its id.
    pub fn create_group(&mut self) -> (r: SchedulerId)
        requires
            old(self).wf(),
        ensures
            final(self).wf(),
            final(self).has_group(r.0 as int),
            !old(self).has_group(r.0 as int),
            final(self).group_at(r.0 as int).num_task_slots() == 0,
            forall|g: int|
                g != r.0 ==> #[trigger] final(self).has_group(g) == old(self).has_group(g) && (old(self).has_group(g) ==> final(self).group_at(g) == old(self).group_at(g)),
    {
        let id: usize = self.groups.len();
        let fresh: TaskGroup<T> = TaskGroup::new();
        let ghost gfresh = fresh;
        self.groups.push(Some(fresh));
        proof {
            assert forall|h: int| #[trigger] self.has_group(h) implies self.group_at(h).wf() by {
                if h != id {
                    assert(self.groups@[h] == old(self).groups@[h]);
                    assert(self.has_group(h) == old(self).has_group(h));
                } else {
                    assert(self.group_at(h) == gfresh);
                }
            }
            assert forall|h: int|
                h != id implies #[trigger] self.has_group(h) == old(self).has_group(h) && (old(
                self,
            ).has_group(h) ==> self.group_at(h) == old(self).group_at(h)) by {
                if 0 <= h < old(self).groups@.len() {
                    assert(self.groups@[h] == old(self).groups@[h]);
                }
            }
        }
        SchedulerId(id)
    }

    /// Inserts `task` into group `group_id`; the result names the task's
    /// slot within the group.  `None` only when the group's slab cannot
    /// grow further.
    pub fn insert_task(&mut self, group_id: SchedulerId, task: T) -> (r: Option<SchedulerId>)
        requires
            old(self).wf(),
            old(self).has_group(group_id.0 as int),
        ensures
            final(self).wf(),
            final(self).has_group(group_id.0 as int),
            forall|g: int|
                g != group_id.0 ==> #[trigger] final(self).has_group(g) == old(self).has_group(g)
                    && (old(self).has_group(g) ==> final(self).group_at(g) == old(self).group_at(
                    g,
                )),
            old(self).group_at(group_id.0 as int).num_task_slots()
                < crate::group::MAX_WAKER_PAGES * crate::group::SLOTS_PER_PAGE ==> r is Some,
            r is Some ==> r.unwrap().0 < crate::group::MAX_WAKER_PAGES
                * crate::group::SLOTS_PER_PAGE,
            r is Some ==> {
                let ix = r.unwrap().0 as int;
                &&& !old(self).group_at(group_id.0 as int).occupied(ix)
                &&& final(self).group_at(group_id.0 as int).occupied(ix)
                &&& final(self).group_at(group_id.0 as int).task_at(ix) == task
                &&& final(self).group_at(group_id.0 as int).notified_bit(ix)
                &&& final(self).group_at(group_id.0 as int).initialized_bit(ix)
                &&& ix < final(self).group_at(group_id.0 as int).num_task_slots()
                &&& forall|i: int|
                    0 <= i < final(self).group_at(group_id.0 as int).num_task_slots() && i != ix
                        ==> (#[trigger] final(self).group_at(group_id.0 as int).occupied(i) == old(
                        self,
                    ).group_at(group_id.0 as int).occupied(i) && (old(self).group_at(
                        group_id.0 as int,
                    ).occupied(i) ==> final(self).group_at(group_id.0 as int).task_at(i) == old(
                        self,
                    ).group_at(group_id.0 as int).task_at(i)))
            },
    {
        let g: usize = group_id.0;
        let mut taken: Option<TaskGroup<T>> = self.groups[g].take();
        let r: Option<SchedulerId> = match &mut taken {
            Some(group) => {
                match group.insert(task) {
                    Some(ix) => Some(SchedulerId(ix)),
                    None => None,
                }
            },
            None => None,
        };
        let ghost gtaken = taken;
        self.groups.set(g, taken);
        proof {
            assert forall|h: int| #[trigger] self.has_group(h) implies self.group_at(h).wf() by {
                if h == g {
                    assert(self.groups@[h] == gtaken);
                } else {
                    assert(self.groups@[h] == old(self).groups@[h]);
                    assert(self.has_group(h) == old(self).has_group(h));
                }
            }
        }
        r
    }

    /// Removes and returns the task in slot `task_id` of group `group_id`;
    /// `None` when that slot holds no task.
    pub fn remove_task(&mut self, group_id: SchedulerId, task_id: SchedulerId) -> (r: Option<T>)
        requires
            old(self).wf(),
            old(self).has_group(group_id.0 as int),
        ensures
            final(self).wf(),
            final(self).has_group(group_id.0 as int),
            forall|g: int|
                g != group_id.0 ==> #[trigger] final(self).has_group(g) == old(self).has_group(g)
                    && (old(self).has_group(g) ==> final(self).group_at(g) == old(self).group_at(
                    g,
                )),
            old(self).group_at(group_id.0 as int).occupied(task_id.0 as int) ==> r == Some(
                old(self).group_at(group_id.0 as int).task_at(task_id.0 as int),
            ) && !final(self).group_at(group_id.0 as int).occupied(task_id.0 as int),
            !old(self).group_at(group_id.0 as int).occupied(task_id.0 as int) ==> r is None,
    {
        let g: usize = group_id.0;
        let mut taken: Option<TaskGroup<T>> = self.groups[g].take();
        let r: Option<T> = match &mut taken {
            Some(group) => group.remove(task_id.0),
            None => None,
        };
        let ghost gtaken = taken;
        self.groups.set(g, taken);
        proof {
            assert forall|h: int| #[trigger] self.has_group(h) implies self.group_at(h).wf() by {
                if h == g {
                    assert(self.groups@[h] == gtaken);
                } else {
                    assert(self.groups@[h] == old(self).groups@[h]);
                    assert(self.has_group(h) == old(self).has_group(h));
                }
            }
        }
        r
    }

    /// Wakes slot `task_id` of group `group_id`.
    pub fn wake_task(&mut self, group_id: SchedulerId, task_id: SchedulerId)
        requires
            old(self).wf(),
            old(self).has_group(group_id.0 as int),
        ensures
            final(self).wf(),
            final(self).has_group(group_id.0 as int),
            old(self).group_at(group_id.0 as int).occupied(task_id.0 as int) ==> final(self).group_at(group_id.0 as int).notified_bit(task_id.0 as int),
    {
        let g: usize = group_id.0;
        let mut taken: Option<TaskGroup<T>> = self.groups[g].take();
        match &mut taken {
            Some(group) => {
                group.wake(task_id.0);
            },
            None => {},
        }
        let ghost gtaken = taken;
        self.groups.set(g, taken);
        proof {
            assert forall|h: int| #[trigger] self.has_group(h) implies self.group_at(h).wf() by {
                if h == g {
                    assert(self.groups@[h] == gtaken);
                } else {
                    assert(self.groups@[h] == old(self).groups@[h]);
                    assert(self.has_group(h) == old(self).has_group(h));
                }
            }
        }
    }

    /// One poll pass over group `group_id`: drains its pages once and hands
    /// out up to `max_iterations` runnable slots.  Every returned slot
    /// holds a live task.
    pub fn poll_group_once(&mut self, group_id: SchedulerId, max_iterations: Option<usize>) -> (r:
        Vec<usize>)
        requires
            old(self).wf(),
            old(self).has_group(group_id.0 as int),
        ensures
            final(self).wf(),
            final(self).has_group(group_id.0 as int),
            forall|g: int|
                g != group_id.0 ==> #[trigger] final(self).has_group(g) == old(self).has_group(g)
                    && (old(self).has_group(g) ==> final(self).group_at(g) == old(self).group_at(
                    g,
                )),
            forall|k: int|
                0 <= k < r@.len() ==> final(self).group_at(group_id.0 as int).occupied(
                    #[trigger] r@[k] as int,
                ) && final(self).group_at(group_id.0 as int).initialized_bit(r@[k] as int),
            (match max_iterations {
                Some(m) => m > 0,
                None => true,
            }) && r@.len() == 0 ==> final(self).group_at(
                group_id.0 as int,
            ).pending_ready().len() == 0,
            max_iterations is None && old(self).group_at(group_id.0 as int).pending_ready().len()
                == 0 ==> forall|i: int|
                0 <= i < old(self).group_at(group_id.0 as int).num_slots() && old(self).group_at(
                    group_id.0 as int,
                ).notified_bit(i) ==> r@.contains(i as usize),
    {
        let g: usize = group_id.0;
        let mut taken: Option<TaskGroup<T>> = self.groups[g].take();
        let r: Vec<usize> = match &mut taken {
            Some(group) => group.poll_group(max_iterations, false),
            None => Vec::new(),
        };
        let ghost gtaken = taken;
        self.groups.set(g, taken);
        proof {
            assert forall|h: int| #[trigger] self.has_group(h) implies self.group_at(h).wf() by {
                if h == g {
                    assert(self.groups@[h] == gtaken);
                } else {
                    assert(self.groups@[h] == old(self).groups@[h]);
                    assert(self.has_group(h) == old(self).has_group(h));
                }
            }
        }
        r
    }

    /// Polls group `group_id` until no task is runnable, draining its pages
    /// whenever the ready list runs dry, up to `max_iterations` slots.
    /// Every returned slot holds a live task.
    pub fn poll_group_until_unrunnable(
        &mut self,
        group_id: SchedulerId,
        max_iterations: Option<usize>,
    ) -> (r: Vec<usize>)
        requires
            old(self).wf(),
            old(self).has_group(group_id.0 as int),
        ensures
            final(self).wf(),
            final(self).has_group(group_id.0 as int),
            forall|g: int|
                g != group_id.0 ==> #[trigger] final(self).has_group(g) == old(self).has_group(g)
                    && (old(self).has_group(g) ==> final(self).group_at(g) == old(self).group_at(
                    g,
                )),
            forall|k: int|
                0 <= k < r@.len() ==> final(self).group_at(group_id.0 as int).occupied(
                    #[trigger] r@[k] as int,
                ) && final(self).group_at(group_id.0 as int).initialized_bit(r@[k] as int),
            (match max_iterations {
                Some(m) => m > 0,
                None => true,
            }) && r@.len() == 0 ==> final(self).group_at(
                group_id.0 as int,
            ).pending_ready().len() == 0,
            max_iterations is None && old(self).group_at(group_id.0 as int).pending_ready().len()
                == 0 ==> forall|i: int|
                0 <= i < old(self).group_at(group_id.0 as int).num_slots() && old(self).group_at(
                    group_id.0 as int,
                ).notified_bit(i) ==> r@.contains(i as usize),
    {
        let g: usize = group_id.0;
        let mut taken: Option<TaskGroup<T>> = self.groups[g].take();
        let r: Vec<usize> = match &mut taken {
            Some(group) => group.poll_group(max_iterations, true),
            None => Vec::new(),
        };
        let ghost gtaken = taken;
        self.groups.set(g, taken);
        proof {
            assert forall|h: int| #[trigger] self.has_group(h) implies self.group_at(h).wf() by {
                if h == g {
                    assert(self.groups@[h] == gtaken);
                } else {
                    assert(self.groups@[h] == old(self).groups@[h]);
                    assert(self.has_group(h) == old(self).has_group(h));
                }
            }
        }
        r
    }
}

} // verus!
