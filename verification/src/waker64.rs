//! A 64-bit word manipulated with fetch-style operations; three of these
//! back each waker page (reference counts, notification bits, liveness
//! bits).  The scheduler is single-threaded, so plain mutation suffices.

use vstd::prelude::*;

verus! {

/// Log2 of [`WAKER_BIT_LENGTH`].
pub const WAKER_BIT_LENGTH_SHIFT: usize = 6;

/// Number of task slots covered by one 64-bit waker word.
pub const WAKER_BIT_LENGTH: usize = 64;

/// A 64-bit waker word.
pub struct Waker64 {
    value: u64,
}

impl Waker64 {
    /// The current contents of the word.
    pub closed spec fn value_spec(self) -> u64 {
        self.value
    }

    /// Creates a word holding `val`.
    pub fn new(val: u64) -> (r: Self)
        ensures
            r.value_spec() == val,
    {
        Waker64 { value: val }
    }

    /// ORs `val` into the word.
    pub fn fetch_or(&mut self, val: u64)
        ensures
            final(self).value_spec() == (old(self).value_spec() | val),
    {
        self.value = self.value | val;
    }

    /// ANDs `val` into the word.
    pub fn fetch_and(&mut self, val: u64)
        ensures
            final(self).value_spec() == (old(self).value_spec() & val),
    {
        self.value = self.value & val;
    }

    /// Adds `val` to the word and returns the old value; the sum must not
    /// overflow.
    pub fn fetch_add(&mut self, val: u64) -> (r: u64)
        requires
            old(self).value_spec() + val <= u64::MAX,
        ensures
            r == old(self).value_spec(),
            final(self).value_spec() == old(self).value_spec() + val,
    {
        let old_val: u64 = self.value;
        self.value = self.value + val;
        old_val
    }

    /// Subtracts `val` from the word and returns the old value, or `None`,
    /// leaving the word unchanged, when the subtraction would underflow.
    pub fn fetch_sub(&mut self, val: u64) -> (r: Option<u64>)
        ensures
            val > old(self).value_spec() ==> r is None && final(self).value_spec() == old(
                self).value_spec(),
            val <= old(self).value_spec() ==> r == Some(old(self).value_spec()) && final(
                self).value_spec() == old(self).value_spec() - val,
    {
        let old_val: u64 = self.value;
        if val > self.value {
            return None;
        }
        self.value = self.value - val;
        Some(old_val)
    }

    /// Reads the word.
    pub fn load(&self) -> (r: u64)
        ensures
            r == self.value_spec(),
    {
        self.value
    }

    /// Replaces the word with `val` and returns the old value.
    pub fn swap(&mut self, val: u64) -> (r: u64)
        ensures
            r == old(self).value_spec(),
            final(self).value_spec() == val,
    {
        let old_val: u64 = self.value;
        self.value = val;
        old_val
    }
}

} // verus!
