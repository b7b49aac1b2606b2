//! A waker page: 64 task slots tracked by three 64-bit words — outstanding
//! waker references, notification bits, and liveness bits.
//!
//! The page's invariant is the scheduler's safety net: a notification bit
//! may be set only while the slot's `initialized` bit is set, so a drain of
//! the notification word never names a dead slot.

use vstd::prelude::*;

use crate::waker64::Waker64;

verus! {

/// Whether bit `i` of `w` is set; false for `i` outside the word.
pub open spec fn nth_bit(w: u64, i: u64) -> bool {
    i < 64 && ((w >> i) & 1u64) == 1u64
}

/// Setting bit `s` leaves every other bit alone.
proof fn lemma_or_mask(w: u64, s: u64)
    by (bit_vector)
    requires
        s < 64,
    ensures
        forall|j: u64| j < 64 ==> #[trigger] nth_bit(w | (1u64 << s), j) == (j == s || nth_bit(
            w,
            j,
        )),
{
}

/// Clearing bit `s` leaves every other bit alone.
proof fn lemma_andnot_mask(w: u64, s: u64)
    by (bit_vector)
    requires
        s < 64,
    ensures
        forall|j: u64| j < 64 ==> #[trigger] nth_bit(w & !(1u64 << s), j) == (j != s && nth_bit(
            w,
            j,
        )),
{
}

/// ORing in bit `s` masked by `m` sets it only when `m` has it set.
proof fn lemma_masked_or(w: u64, m: u64, s: u64)
    by (bit_vector)
    requires
        s < 64,
    ensures
        forall|j: u64| j < 64 ==> #[trigger] nth_bit(w | ((1u64 << s) & m), j) == (nth_bit(w, j)
            || (j == s && nth_bit(m, s))),
{
}

/// The zero word has no bit set.
pub proof fn lemma_zero_bits()
    by (bit_vector)
    ensures
        forall|j: u64| #[trigger] nth_bit(0u64, j) == false,
{
}

/// One 64-slot waker page.
pub struct WakerPage {
    /// Outstanding waker references on this page.
    refcount: Waker64,
    /// Slots asked to wake since the last drain.
    notified: Waker64,
    /// Slots that hold a live task.
    initialized: Waker64,
}

impl WakerPage {
    /// The notification word.
    pub closed spec fn notified_spec(self) -> u64 {
        self.notified.value_spec()
    }

    /// The liveness word.
    pub closed spec fn initialized_spec(self) -> u64 {
        self.initialized.value_spec()
    }

    /// The reference count word.
    pub closed spec fn refcount_spec(self) -> u64 {
        self.refcount.value_spec()
    }

    /// A notification bit may be set only while the slot is live.
    pub open spec fn inv(self) -> bool {
        forall|j: u64| #[trigger] nth_bit(self.notified_spec(), j) ==> nth_bit(
            self.initialized_spec(),
            j,
        )
    }

    /// Creates a page with no live slot, no notification, and one page
    /// reference.
    pub fn new() -> (r: Self)
        ensures
            r.inv(),
            r.notified_spec() == 0,
            r.initialized_spec() == 0,
            r.refcount_spec() == 1,
            forall|j: u64| !nth_bit(r.notified_spec(), j) && !nth_bit(r.initialized_spec(), j),
    {
        let r = WakerPage {
            refcount: Waker64::new(1),
            notified: Waker64::new(0),
            initialized: Waker64::new(0),
        };
        proof {
            lemma_zero_bits();
        }
        r
    }

    /// Marks slot `s` live and notified, so a fresh task is polled on the
    /// next drain.  Other slots are untouched.
    pub fn initialize(&mut self, s: usize)
        requires
            old(self).inv(),
            s < 64,
        ensures
            final(self).inv(),
            final(self).refcount_spec() == old(self).refcount_spec(),
            forall|j: u64|
                j < 64 ==> #[trigger] nth_bit(final(self).initialized_spec(), j) == (j == s
                    || nth_bit(old(self).initialized_spec(), j)),
            forall|j: u64|
                j < 64 ==> #[trigger] nth_bit(final(self).notified_spec(), j) == (j == s
                    || nth_bit(old(self).notified_spec(), j)),
    {
        let mask: u64 = 1u64 << (s as u64);
        self.initialized.fetch_or(mask);
        self.notified.fetch_or(mask);
        proof {
            lemma_or_mask(old(self).initialized_spec(), s as u64);
            lemma_or_mask(old(self).notified_spec(), s as u64);
        }
    }

    /// Clears slot `s`: not live, not notified.  Other slots are untouched.
    pub fn clear(&mut self, s: usize)
        requires
            old(self).inv(),
            s < 64,
        ensures
            final(self).inv(),
            final(self).refcount_spec() == old(self).refcount_spec(),
            forall|j: u64|
                j < 64 ==> #[trigger] nth_bit(final(self).initialized_spec(), j) == (j != s
                    && nth_bit(old(self).initialized_spec(), j)),
            forall|j: u64|
                j < 64 ==> #[trigger] nth_bit(final(self).notified_spec(), j) == (j != s
                    && nth_bit(old(self).notified_spec(), j)),
    {
        let mask: u64 = !(1u64 << (s as u64));
        self.initialized.fetch_and(mask);
        self.notified.fetch_and(mask);
        proof {
            lemma_andnot_mask(old(self).initialized_spec(), s as u64);
            lemma_andnot_mask(old(self).notified_spec(), s as u64);
        }
    }

    /// Asks slot `s` to wake: its notification bit is set exactly when the
    /// slot is live; a wake on a dead slot is coalesced away.  Other slots
    /// are untouched.
    pub fn notify(&mut self, s: usize)
        requires
            old(self).inv(),
            s < 64,
        ensures
            final(self).inv(),
            final(self).refcount_spec() == old(self).refcount_spec(),
            final(self).initialized_spec() == old(self).initialized_spec(),
            forall|j: u64|
                j < 64 ==> #[trigger] nth_bit(final(self).notified_spec(), j) == (nth_bit(
                    old(self).notified_spec(),
                    j,
                ) || (j == s && nth_bit(old(self).initialized_spec(), s as u64))),
    {
        let live: u64 = self.initialized.load();
        let mask: u64 = (1u64 << (s as u64)) & live;
        self.notified.fetch_or(mask);
        proof {
            lemma_masked_or(old(self).notified_spec(), old(self).initialized_spec(), s as u64);
        }
    }

    /// Drains the notification word: returns it and zeroes it.  Every bit
    /// of the result names a live slot.
    pub fn take_notified(&mut self) -> (r: u64)
        requires
            old(self).inv(),
        ensures
            final(self).inv(),
            r == old(self).notified_spec(),
            final(self).notified_spec() == 0,
            final(self).initialized_spec() == old(self).initialized_spec(),
            final(self).refcount_spec() == old(self).refcount_spec(),
            forall|j: u64| #[trigger] nth_bit(r, j) ==> nth_bit(final(self).initialized_spec(), j),
    {
        let r: u64 = self.notified.swap(0);
        proof {
            lemma_zero_bits();
        }
        r
    }

    /// Whether slot `s` has been asked to wake since the last drain.
    pub fn was_notified(&self, s: usize) -> (r: bool)
        requires
            s < 64,
        ensures
            r == nth_bit(self.notified_spec(), s as u64),
    {
        let w: u64 = self.notified.load();
        ((w >> (s as u64)) & 1u64) == 1u64
    }

    /// The number of outstanding waker references on this page.
    pub fn refcount_get(&self) -> (r: u64)
        ensures
            r == self.refcount_spec(),
    {
        self.refcount.load()
    }

    /// Records one more outstanding waker reference.
    pub fn refcount_inc(&mut self)
        requires
            old(self).refcount_spec() < u64::MAX,
        ensures
            final(self).refcount_spec() == old(self).refcount_spec() + 1,
            final(self).notified_spec() == old(self).notified_spec(),
            final(self).initialized_spec() == old(self).initialized_spec(),
            final(self).inv() == old(self).inv(),
    {
        let _: u64 = self.refcount.fetch_add(1);
    }

    /// Drops one outstanding waker reference.
    pub fn refcount_dec(&mut self) -> (r: u64)
        requires
            old(self).refcount_spec() > 0,
        ensures
            r == old(self).refcount_spec() - 1,
            final(self).refcount_spec() == old(self).refcount_spec() - 1,
            final(self).notified_spec() == old(self).notified_spec(),
            final(self).initialized_spec() == old(self).initialized_spec(),
            final(self).inv() == old(self).inv(),
    {
        let old_val: Option<u64> = self.refcount.fetch_sub(1);
        self.refcount.load()
    }
}

} // verus!
