//! Direct-mapped id tables: the externally visible id of a slab entry is
//! computed from its offset, so no table of live mappings is kept.
//!
//! A 32-bit external id is the internal offset shifted up by [`ID_OFFSET`],
//! which keeps the low range free for POSIX file descriptors.  A 64-bit
//! external id carries the internal id in its low 32 bits and a
//! monotonically increasing counter in its high 32 bits, so reused slots
//! still produce fresh tokens.

use vstd::prelude::*;

verus! {

/// Offset added to 32-bit internal ids, leaving room for a small default
/// set of POSIX file descriptors.
pub const ID_OFFSET: u32 = 500;

/// A direct-mapped table of 32-bit ids.
pub struct Id32Map {}

impl Id32Map {
    /// Creates the (stateless) 32-bit id table.
    pub fn new() -> (r: Self)
    {
        Id32Map {}
    }

    /// The internal id behind `external_id`: external ids below the offset
    /// map to nothing.
    pub fn get(&self, external_id: u32) -> (r: Option<u32>)
        ensures
            external_id >= ID_OFFSET ==> r == Some((external_id - ID_OFFSET) as u32),
            external_id < ID_OFFSET ==> r is None,
    {
        if external_id >= ID_OFFSET {
            Some(external_id - ID_OFFSET)
        } else {
            None
        }
    }

    /// Removes the mapping for `external_id`; direct mapping keeps no
    /// state, so this returns what `get` would.
    pub fn remove(&mut self, external_id: u32) -> (r: Option<u32>)
        ensures
            external_id >= ID_OFFSET ==> r == Some((external_id - ID_OFFSET) as u32),
            external_id < ID_OFFSET ==> r is None,
    {
        self.get(external_id)
    }

    /// The external id for a new entry at `internal_id`; the id space must
    /// not be exhausted.
    pub fn insert_with_new_id(&mut self, internal_id: u32) -> (r: Option<u32>)
        requires
            internal_id + ID_OFFSET <= u32::MAX,
        ensures
            r == Some((internal_id + ID_OFFSET) as u32),
    {
        Some(internal_id + ID_OFFSET)
    }
}

/// A direct-mapped table of 64-bit ids with a freshness counter.
pub struct Id64Map {
    /// Counter placed in the high 32 bits of each id handed out.
    current_id: u64,
}

impl Id64Map {
    /// The freshness counter.
    pub closed spec fn current_id_spec(self) -> u64 {
        self.current_id
    }

    /// Creates the 64-bit id table.
    pub fn new() -> (r: Self)
        ensures
            r.current_id_spec() == 1,
    {
        Id64Map { current_id: 1 }
    }

    /// The internal id behind `external_id`: its low 32 bits.
    pub fn get(&self, external_id: u64) -> (r: Option<u64>)
        ensures
            r == Some(external_id & 0xFFFF_FFFFu64),
    {
        Some(external_id & 0xFFFF_FFFFu64)
    }

    /// Removes the mapping for `external_id`; direct mapping keeps no
    /// state, so this returns what `get` would.
    pub fn remove(&mut self, external_id: u64) -> (r: Option<u64>)
        ensures
            r == Some(external_id & 0xFFFF_FFFFu64),
    {
        Some(external_id & 0xFFFF_FFFFu64)
    }

    /// The external id for a new entry at `internal_id`: the internal id in
    /// the low 32 bits, a fresh counter value in the high 32 bits.
    pub fn insert_with_new_id(&mut self, internal_id: u64) -> (r: Option<u64>)
        requires
            internal_id <= u32::MAX,
        ensures
            r is Some,
            (r.unwrap() & 0xFFFF_FFFFu64) == internal_id,
            final(self).current_id_spec() == wrap_inc64(old(self).current_id_spec()),
    {
        self.current_id = crate::id_map::wrapping_inc(self.current_id);
        let external_id: u64 = (self.current_id << 32u64) | internal_id;
        proof {
            let newc = self.current_id;
            assert(((newc << 32u64) | internal_id) & 0xFFFF_FFFFu64 == internal_id)
                by (bit_vector)
                requires
                    internal_id <= u32::MAX,
            ;
        }
        Some(external_id)
    }
}

/// `x + 1`, wrapping at the top of the 64-bit range.
pub open spec fn wrap_inc64(x: u64) -> u64 {
    if x == u64::MAX {
        0u64
    } else {
        (x + 1) as u64
    }
}

/// Adds one to `x`, wrapping at the top of the 64-bit range.
pub fn wrapping_inc(x: u64) -> (r: u64)
    ensures
        r == wrap_inc64(x),
{
    if x == u64::MAX {
        0
    } else {
        x + 1
    }
}

} // verus!
