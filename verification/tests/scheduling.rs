//! Scheduler behavior: the ring, the waker words and pages, task groups,
//! the scheduler, tasks, and the condition variable.

use demikernel::condition_variable::{SharedConditionVariable, YieldState};
use demikernel::demibuffer::{BufferPool, DemiBuffer, DemiMemoryAllocator};
use demikernel::fail::{
    should_retry, EAGAIN, EALREADY, EBADF, EINPROGRESS, EINVAL, ENOBUFS, ETIMEDOUT, EWOULDBLOCK,
};
use demikernel::group::{TaskGroup, WakerRef};
use demikernel::id_map::{Id32Map, Id64Map};
use demikernel::shared::SharedObject;
use demikernel::ring::RingBuffer;
use demikernel::scheduler::{Scheduler, SchedulerId};
use demikernel::task::{Task, TaskWithResult};
use demikernel::waker64::Waker64;
use demikernel::waker_page::WakerPage;

// Messages pass through the ring in order and exactly once; is_empty and
// is_full reflect the number in flight.
#[test]
fn ring_delivers_in_order_exactly_once() {
    let mut ring: RingBuffer<u8> = RingBuffer::new(16, 0);
    assert!(ring.is_empty());
    assert!(!ring.is_full());
    for i in 0..ring.capacity() {
        ring.enqueue((i & 255) as u8);
    }
    assert!(!ring.is_empty());
    assert!(ring.is_full());
    assert!(!ring.try_enqueue(99));
    for i in 0..ring.capacity() {
        let item: u8 = ring.dequeue();
        assert_eq!(item, (i & 255) as u8);
    }
    assert!(ring.is_empty());
    assert!(!ring.is_full());
    assert!(ring.try_dequeue().is_none());
}

// The ring wraps around its storage without disturbing order.
#[test]
fn ring_wraps_around() {
    let mut ring: RingBuffer<u16> = RingBuffer::new(4, 0);
    for round in 0..10u16 {
        assert!(ring.try_enqueue(round * 2));
        assert!(ring.try_enqueue(round * 2 + 1));
        assert_eq!(ring.dequeue(), round * 2);
        assert_eq!(ring.dequeue(), round * 2 + 1);
    }
}

// The waker word implements the fetch-style operations.
#[test]
fn waker64_operations() {
    let mut w: Waker64 = Waker64::new(0);
    w.fetch_or(0b1010);
    assert_eq!(w.load(), 0b1010);
    w.fetch_and(0b0010);
    assert_eq!(w.load(), 0b0010);
    let old: u64 = w.fetch_add(5);
    assert_eq!(old, 2);
    assert_eq!(w.load(), 7);
    assert_eq!(w.fetch_sub(3), Some(7));
    assert_eq!(w.load(), 4);
    assert_eq!(w.fetch_sub(100), None);
    assert_eq!(w.load(), 4);
    assert_eq!(w.swap(11), 4);
    assert_eq!(w.load(), 11);
}

// A page drains exactly the notified live slots and clears them.
#[test]
fn waker_page_drains_notified_live_slots() {
    let mut page: WakerPage = WakerPage::new();
    assert_eq!(page.refcount_get(), 1);
    page.initialize(0);
    page.initialize(31);
    page.initialize(15);
    // Fresh slots come up notified; drain them away.
    let _ = page.take_notified();
    page.notify(15);
    page.notify(31);
    // A wake on a dead slot is coalesced away.
    page.notify(40);
    let word: u64 = page.take_notified();
    assert_eq!(word, 1 << 15 | 1 << 31);
    assert_eq!(page.take_notified(), 0);
    assert!(!page.was_notified(15));
    page.refcount_inc();
    assert_eq!(page.refcount_get(), 2);
    assert_eq!(page.refcount_dec(), 1);
}

// A task inserted into a group is runnable on the next poll cycle.
#[test]
fn group_polls_fresh_task() {
    let mut group: TaskGroup<&'static str> = TaskGroup::new();
    let ix: usize = group.insert("testing").unwrap();
    let schedule: Vec<usize> = group.poll_group(None, false);
    assert_eq!(schedule, vec![ix]);
}

// A woken task is in the next drained ready list; wakes on removed tasks
// are lost without harm.
#[test]
fn group_wake_is_delivered_once() {
    let mut group: TaskGroup<u64> = TaskGroup::new();
    let a: usize = group.insert(1).unwrap();
    let b: usize = group.insert(2).unwrap();
    // Drain away the insertion notifications.
    let first: Vec<usize> = group.poll_group(None, false);
    assert_eq!(first, vec![a, b]);
    // Nothing is runnable until a wake arrives.
    assert_eq!(group.get_next_runnable_task(true), None);
    let waker: WakerRef = WakerRef::new(b);
    group.wake_ref(&waker);
    assert_eq!(group.get_next_runnable_task(true), Some(b));
    assert_eq!(group.get_next_runnable_task(true), None);
    // A removed task's slot is never handed out again.
    assert_eq!(group.remove(a), Some(1));
    group.wake(a);
    assert_eq!(group.get_next_runnable_task(true), None);
}

// Slots are assigned lowest-free-first and reused after removal.
#[test]
fn group_reuses_freed_slots() {
    let mut group: TaskGroup<u32> = TaskGroup::new();
    let a: usize = group.insert(10).unwrap();
    let b: usize = group.insert(20).unwrap();
    assert_ne!(a, b);
    assert_eq!(group.remove(a), Some(10));
    assert_eq!(group.remove(a), None);
    let c: usize = group.insert(30).unwrap();
    assert_eq!(c, a);
    assert_eq!(group.get_waker_page_index_and_offset(b), Some((b / 64, b % 64)));
    assert!(group.get_num_waker_pages() >= 1);
}

// Distinct tasks inserted into a scheduler group get distinct slots.
#[test]
fn scheduler_insert_creates_unique_task_slots() {
    let mut scheduler: Scheduler<&'static str> = Scheduler::new();
    let group_id: SchedulerId = scheduler.create_group();
    let first: SchedulerId = scheduler.insert_task(group_id, "testing").unwrap();
    let second: SchedulerId = scheduler.insert_task(group_id, "testing").unwrap();
    assert_ne!(first, second);
    let schedule: Vec<usize> = scheduler.poll_group_once(group_id, None);
    assert_eq!(schedule, vec![first.0, second.0]);
    assert_eq!(scheduler.remove_task(group_id, first), Some("testing"));
}

// A task's result is recorded once and consumed once.
#[test]
fn task_result_consumed_once() {
    let mut task: TaskWithResult<u32> = TaskWithResult::new("testing");
    assert_eq!(task.get_name(), "testing");
    assert_eq!(task.get_id(), None);
    task.set_id(7);
    assert_eq!(task.get_id(), Some(7));
    assert!(!task.is_terminated());
    assert_eq!(task.get_result(), None);
    task.set_result(99);
    assert!(task.is_terminated());
    assert_eq!(task.get_result(), Some(99));
    assert_eq!(task.get_result(), None);
}

// Waiters are woken first-in first-out by signal and all at once by
// broadcast; cancel abandons them.
#[test]
fn condition_variable_wakes_fifo() {
    let mut cv: SharedConditionVariable<u64> = SharedConditionVariable::new();
    assert_eq!(cv.signal(), None);
    cv.add_waiter(1, 101);
    cv.add_waiter(2, 102);
    cv.add_waiter(3, 103);
    assert_eq!(cv.signal(), Some(101));
    assert_eq!(cv.signal(), Some(102));
    let rest: Vec<u64> = cv.broadcast();
    assert_eq!(rest, vec![103]);
    cv.add_waiter(4, 104);
    cv.cancel();
    assert_eq!(cv.signal(), None);
}

// A yield point suspends on its first poll and resumes only after a signal.
#[test]
fn yield_point_resumes_after_signal() {
    let mut cv: SharedConditionVariable<u64> = SharedConditionVariable::new();
    let id: u64 = cv.next_waiter_id();
    let (state, done) = cv.yield_point_poll(id, YieldState::Running, 500);
    assert_eq!(state, YieldState::Yielded);
    assert!(!done);
    // No signal yet: stays suspended.
    let (state, done) = cv.yield_point_poll(id, state, 500);
    assert_eq!(state, YieldState::Yielded);
    assert!(!done);
    let woken: Option<u64> = cv.signal();
    assert_eq!(woken, Some(500));
    let (state, done) = cv.yield_point_poll(id, state, 500);
    assert_eq!(state, YieldState::Running);
    assert!(done);
}

// remove_waiter drops exactly the dropped yield point's entry.
#[test]
fn remove_waiter_keeps_others_in_order() {
    let mut cv: SharedConditionVariable<u32> = SharedConditionVariable::new();
    cv.add_waiter(1, 11);
    cv.add_waiter(2, 22);
    cv.add_waiter(3, 33);
    cv.remove_waiter(2);
    assert_eq!(cv.signal(), Some(11));
    assert_eq!(cv.signal(), Some(33));
    assert_eq!(cv.signal(), None);
}

// The retry predicate holds exactly for the would-block family.
#[test]
fn should_retry_errnos() {
    assert!(should_retry(EINPROGRESS));
    assert!(should_retry(EWOULDBLOCK));
    assert!(should_retry(EAGAIN));
    assert!(should_retry(EALREADY));
    assert!(!should_retry(EINVAL));
    assert!(!should_retry(EBADF));
    assert!(!should_retry(ETIMEDOUT));
}

// Direct-mapped id tables shift 32-bit ids and tag 64-bit ids.
#[test]
fn id_maps_direct_mapping() {
    let mut small: Id32Map = Id32Map::new();
    assert_eq!(small.insert_with_new_id(3), Some(503));
    assert_eq!(small.get(503), Some(3));
    assert_eq!(small.remove(503), Some(3));
    assert_eq!(small.get(7), None);

    let mut large: Id64Map = Id64Map::new();
    let first: u64 = large.insert_with_new_id(9).unwrap();
    let second: u64 = large.insert_with_new_id(9).unwrap();
    assert_eq!(large.get(first), Some(9));
    assert_eq!(large.remove(second), Some(9));
    // Reused slots still produce fresh tokens.
    assert_ne!(first, second);
}

// A shared handle hands out the object it wraps.
#[test]
fn shared_object_handles() {
    let handle: SharedObject<u32> = SharedObject::new(7);
    let other: SharedObject<u32> = handle.clone();
    assert_eq!(*handle.as_ref(), 7);
    assert_eq!(*other.as_ref(), 7);
}

// A pool-backed allocator refuses oversized requests and reports
// exhaustion.
#[test]
fn pool_allocator_errors() {
    let mut pool: BufferPool = BufferPool::new(1, 64);
    pool.populate(1);
    let too_big = pool.allocate_demi_buffer(65);
    assert_eq!(too_big.unwrap_err().errno, EINVAL);
    let ok: DemiBuffer = pool.allocate_demi_buffer(64).unwrap();
    assert_eq!(ok.len(), 64);
    let empty = pool.allocate_demi_buffer(64);
    assert_eq!(empty.unwrap_err().errno, ENOBUFS);
}

// A waker names the slot it was built for.
#[test]
fn waker_ref_names_its_slot() {
    let waker: WakerRef = WakerRef::new(9);
    assert_eq!(waker.index(), 9);
}
