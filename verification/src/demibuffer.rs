//! The packet buffer: the sole currency between the layers of the stack.
//!
//! A `DemiBuffer` is a window `[data_off, data_off + data_len)` into a backing
//! byte region of at most 64 KiB.  Headroom in front of the window lets a
//! lower layer prepend its header without copying the payload.  Splitting and
//! cloning hand out sibling views of the same bytes; a view produced that way
//! is marked indirect.

use vstd::prelude::*;

use crate::fail::{Fail, EINVAL, ENOBUFS};

verus! {

/// Largest backing region a single buffer may own, in bytes.
pub const MAX_BUFFER_CAPACITY: usize = 65535;

/// A packet buffer: a window into an owned byte region with headroom.
#[derive(Debug)]
pub struct DemiBuffer {
    /// Backing byte region; its length is the buffer's capacity.
    data: Vec<u8>,
    /// Offset from the base of the region to the first valid byte.
    data_off: u16,
    /// Number of valid payload bytes starting at `data_off`.
    data_len: u16,
    /// Clear when this buffer is a view created by `clone` or a split.
    direct: bool,
    /// Identity of the pool this buffer was drawn from, if any.
    pool_id: Option<u64>,
}

/// An opaque token standing for ownership of a buffer moved across an
/// interface boundary; `DemiBuffer::from_raw` turns it back into the buffer.
pub struct DemiBufferToken {
    buf: DemiBuffer,
}

impl DemiBufferToken {
    /// The buffer this token stands for.
    pub closed spec fn buffer(self) -> DemiBuffer {
        self.buf
    }
}

impl DemiBuffer {
    /// Well-formedness: the window lies inside the region and the region
    /// fits the 16-bit length fields.
    pub closed spec fn wf(self) -> bool {
        &&& self.data_off + self.data_len <= self.data@.len()
        &&& self.data@.len() <= MAX_BUFFER_CAPACITY
    }

    /// The payload bytes visible through the window.
    pub closed spec fn bytes(self) -> Seq<u8> {
        self.data@.subrange(self.data_off as int, self.data_off + self.data_len)
    }

    /// Payload length in bytes.
    pub closed spec fn len_spec(self) -> int {
        self.data_len as int
    }

    /// Headroom in front of the window.
    pub closed spec fn headroom_spec(self) -> int {
        self.data_off as int
    }

    /// Capacity of the backing region.
    pub closed spec fn capacity_spec(self) -> int {
        self.data@.len() as int
    }

    /// Whether this buffer owns its bytes rather than viewing another's.
    pub closed spec fn is_direct_spec(self) -> bool {
        self.direct
    }

    /// The pool identity recorded at allocation, if the buffer is pool-backed.
    pub closed spec fn pool_id_spec(self) -> Option<u64> {
        self.pool_id
    }

    /// The bytes of the backing region that lie in the headroom, just in
    /// front of the window; `prepend` exposes them again.
    pub closed spec fn headroom_bytes(self) -> Seq<u8> {
        self.data@.subrange(0, self.data_off as int)
    }

    /// A well-formed buffer's byte view has exactly `len` bytes.
    pub proof fn lemma_bytes_len(self)
        requires
            self.wf(),
        ensures
            self.bytes().len() == self.len_spec(),
            self.headroom_bytes().len() == self.headroom_spec(),
            self.len_spec() <= MAX_BUFFER_CAPACITY,
            self.headroom_spec() <= MAX_BUFFER_CAPACITY,
            self.len_spec() + self.headroom_spec() <= self.capacity_spec(),
    {
    }

    /// Creates a heap-backed buffer of `capacity` zeroed bytes, no headroom.
    pub fn new(capacity: u16) -> (r: Self)
        ensures
            r.wf(),
            r.len_spec() == capacity,
            r.headroom_spec() == 0,
            r.capacity_spec() == capacity,
            r.is_direct_spec(),
            r.pool_id_spec() is None,
            r.bytes() == Seq::new(capacity as nat, |i: int| 0u8),
    {
        let data: Vec<u8> = zeroed_vec(capacity as usize);
        let r = DemiBuffer { data, data_off: 0, data_len: capacity, direct: true, pool_id: None };
        proof {
            assert(r.bytes() =~= Seq::new(capacity as nat, |i: int| 0u8));
        }
        r
    }

    /// Creates a heap-backed buffer of `capacity` zeroed bytes with
    /// `headroom` bytes reserved in front for headers.
    pub fn new_with_headroom(capacity: u16, headroom: u16) -> (r: Self)
        requires
            capacity + headroom <= MAX_BUFFER_CAPACITY,
        ensures
            r.wf(),
            r.len_spec() == capacity,
            r.headroom_spec() == headroom,
            r.capacity_spec() == capacity + headroom,
            r.is_direct_spec(),
            r.pool_id_spec() is None,
            r.bytes() == Seq::new(capacity as nat, |i: int| 0u8),
    {
        let total: usize = capacity as usize + headroom as usize;
        let data: Vec<u8> = zeroed_vec(total);
        let r = DemiBuffer {
            data,
            data_off: headroom,
            data_len: capacity,
            direct: true,
            pool_id: None,
        };
        proof {
            assert(r.bytes() =~= Seq::new(capacity as nat, |i: int| 0u8));
        }
        r
    }

    /// Copies a slice into a fresh buffer.  Fails with `EINVAL` when the
    /// slice does not fit a single buffer.
    pub fn from_slice(slice: &[u8]) -> (r: Result<Self, Fail>)
        ensures
            slice@.len() < MAX_BUFFER_CAPACITY ==> {
                &&& r is Ok
                &&& r.unwrap().wf()
                &&& r.unwrap().bytes() == slice@
                &&& r.unwrap().headroom_spec() == 0
                &&& r.unwrap().is_direct_spec()
            },
            slice@.len() >= MAX_BUFFER_CAPACITY ==> r is Err && r.unwrap_err().errno == EINVAL,
    {
        if slice.len() >= MAX_BUFFER_CAPACITY {
            return Err(Fail::new(EINVAL, "slice is larger than a DemiBuffer can hold"));
        }
        let data: Vec<u8> = copy_slice(slice);
        let r = DemiBuffer {
            data_off: 0,
            data_len: data.len() as u16,
            data,
            direct: true,
            pool_id: None,
        };
        proof {
            assert(r.bytes() =~= slice@);
        }
        Ok(r)
    }

    /// Copies a slice into a fresh buffer that also reserves `headroom`
    /// bytes in front.  Fails with `EINVAL` when the total does not fit.
    pub fn from_slice_with_headroom(slice: &[u8], headroom: usize) -> (r: Result<Self, Fail>)
        ensures
            slice@.len() + headroom < MAX_BUFFER_CAPACITY ==> {
                &&& r is Ok
                &&& r.unwrap().wf()
                &&& r.unwrap().bytes() == slice@
                &&& r.unwrap().headroom_spec() == headroom
                &&& r.unwrap().is_direct_spec()
            },
            slice@.len() + headroom >= MAX_BUFFER_CAPACITY ==> r is Err && r.unwrap_err().errno
                == EINVAL,
    {
        if slice.len() >= MAX_BUFFER_CAPACITY || headroom >= MAX_BUFFER_CAPACITY - slice.len() {
            return Err(Fail::new(EINVAL, "slice is larger than a DemiBuffer can hold"));
        }
        let mut data: Vec<u8> = zeroed_vec(headroom);
        let mut i: usize = 0;
        while i < slice.len()
            invariant
                i <= slice@.len(),
                slice@.len() + headroom < MAX_BUFFER_CAPACITY,
                data@.len() == headroom + i,
                data@.subrange(headroom as int, headroom + i) =~= slice@.subrange(0, i as int),
            decreases slice@.len() - i,
        {
            data.push(slice[i]);
            i = i + 1;
        }
        let r = DemiBuffer {
            data_off: headroom as u16,
            data_len: slice.len() as u16,
            data,
            direct: true,
            pool_id: None,
        };
        proof {
            assert(r.bytes() =~= slice@);
        }
        Ok(r)
    }

    /// Draws a chunk from `pool`; `None` when the pool is empty.
    pub fn new_in_pool(pool: &mut BufferPool) -> (r: Option<Self>)
        requires
            old(pool).wf(),
        ensures
            final(pool).wf(),
            final(pool).id_spec() == old(pool).id_spec(),
            final(pool).chunk_size_spec() == old(pool).chunk_size_spec(),
            old(pool).num_free() == 0 ==> r is None && final(pool).num_free() == 0,
            old(pool).num_free() > 0 ==> {
                &&& r is Some
                &&& final(pool).num_free() == old(pool).num_free() - 1
                &&& r.unwrap().wf()
                &&& r.unwrap().len_spec() == final(pool).chunk_size_spec()
                &&& r.unwrap().headroom_spec() == 0
                &&& r.unwrap().is_direct_spec()
                &&& r.unwrap().pool_id_spec() == Some(final(pool).id_spec())
            },
    {
        match pool.take_chunk() {
            Some(chunk) => {
                let r = DemiBuffer {
                    data_off: 0,
                    data_len: chunk.len() as u16,
                    data: chunk,
                    direct: true,
                    pool_id: Some(pool.id()),
                };
                Some(r)
            },
            None => None,
        }
    }

    /// Whether this buffer was drawn from `pool`.
    pub fn is_from_pool(&self, pool: &BufferPool) -> (r: bool)
        ensures
            r == (self.pool_id_spec() == Some(pool.id_spec())),
    {
        match &self.pool_id {
            Some(id) => *id == pool.id(),
            None => false,
        }
    }

    /// Whether the buffer lives on the heap; this holds of every buffer,
    /// pool-backed ones included.
    pub fn is_heap_allocated(&self) -> (r: bool)
        ensures
            r,
    {
        true
    }

    /// Payload length; never exceeds 64 KiB.
    pub fn len(&self) -> (r: usize)
        ensures
            r == self.len_spec(),
            self.wf() ==> r == self.bytes().len(),
    {
        self.data_len as usize
    }

    /// Headroom available in front of the payload.
    pub fn headroom(&self) -> (r: u16)
        ensures
            r == self.headroom_spec(),
    {
        self.data_off
    }

    /// Whether this buffer owns its bytes (it is not a clone or split view).
    pub fn is_direct(&self) -> (r: bool)
        ensures
            r == self.is_direct_spec(),
    {
        self.direct
    }

    /// Reads the payload byte at `i`.
    pub fn byte_at(&self, i: usize) -> (r: u8)
        requires
            self.wf(),
            i < self.len_spec(),
        ensures
            r == self.bytes()[i as int],
    {
        self.data[self.data_off as usize + i]
    }

    /// Copies the payload out as a vector.
    pub fn to_bytes(&self) -> (r: Vec<u8>)
        requires
            self.wf(),
        ensures
            r@ == self.bytes(),
    {
        let mut r: Vec<u8> = Vec::new();
        let mut i: usize = 0;
        while i < self.data_len as usize
            invariant
                self.wf(),
                i <= self.data_len,
                r@ =~= self.bytes().subrange(0, i as int),
            decreases self.data_len - i,
        {
            r.push(self.data[self.data_off as usize + i]);
            i = i + 1;
        }
        proof {
            assert(r@ =~= self.bytes());
        }
        r
    }

    /// Overwrites the payload byte at `i`.
    pub fn write_byte(&mut self, i: usize, v: u8)
        requires
            old(self).wf(),
            i < old(self).len_spec(),
        ensures
            final(self).wf(),
            final(self).bytes() == old(self).bytes().update(i as int, v),
            final(self).len_spec() == old(self).len_spec(),
            final(self).headroom_spec() == old(self).headroom_spec(),
            final(self).is_direct_spec() == old(self).is_direct_spec(),
            final(self).pool_id_spec() == old(self).pool_id_spec(),
    {
        let idx: usize = self.data_off as usize + i;
        self.data.set(idx, v);
        proof {
            assert(self.bytes() =~= old(self).bytes().update(i as int, v));
        }
    }

    /// Removes `nbytes` bytes from the front of the payload, turning them
    /// into headroom.  Fails with `EINVAL`, leaving the buffer unchanged,
    /// when `nbytes` exceeds the payload length.
    pub fn adjust(&mut self, nbytes: usize) -> (r: Result<(), Fail>)
        requires
            old(self).wf(),
        ensures
            final(self).wf(),
            nbytes > old(self).len_spec() ==> {
                &&& r is Err
                &&& r.unwrap_err().errno == EINVAL
                &&& *final(self) == *old(self)
            },
            nbytes <= old(self).len_spec() ==> {
                &&& r is Ok
                &&& final(self).bytes() == old(self).bytes().skip(nbytes as int)
                &&& final(self).len_spec() == old(self).len_spec() - nbytes
                &&& final(self).headroom_spec() == old(self).headroom_spec() + nbytes
                &&& final(self).headroom_bytes() == old(self).headroom_bytes() + old(
                    self,
                ).bytes().take(nbytes as int)
                &&& final(self).is_direct_spec() == old(self).is_direct_spec()
                &&& final(self).pool_id_spec() == old(self).pool_id_spec()
                &&& final(self).capacity_spec() == old(self).capacity_spec()
            },
    {
        if nbytes > self.data_len as usize {
            return Err(Fail::new(EINVAL, "tried to remove more bytes than are present"));
        }
        self.data_off = self.data_off + nbytes as u16;
        self.data_len = self.data_len - nbytes as u16;
        proof {
            assert(self.bytes() =~= old(self).bytes().skip(nbytes as int));
            assert(self.headroom_bytes() =~= old(self).headroom_bytes() + old(self).bytes().take(
                nbytes as int,
            ));
        }
        Ok(())
    }

    /// Removes `nbytes` bytes from the end of the payload.  Fails with
    /// `EINVAL`, leaving the buffer unchanged, when `nbytes` exceeds the
    /// payload length.
    pub fn trim(&mut self, nbytes: usize) -> (r: Result<(), Fail>)
        requires
            old(self).wf(),
        ensures
            final(self).wf(),
            nbytes > old(self).len_spec() ==> {
                &&& r is Err
                &&& r.unwrap_err().errno == EINVAL
                &&& *final(self) == *old(self)
            },
            nbytes <= old(self).len_spec() ==> {
                &&& r is Ok
                &&& final(self).bytes() == old(self).bytes().take(old(self).len_spec() - nbytes)
                &&& final(self).len_spec() == old(self).len_spec() - nbytes
                &&& final(self).headroom_spec() == old(self).headroom_spec()
                &&& final(self).is_direct_spec() == old(self).is_direct_spec()
                &&& final(self).pool_id_spec() == old(self).pool_id_spec()
            },
    {
        if nbytes > self.data_len as usize {
            return Err(Fail::new(EINVAL, "tried to remove more bytes than are present"));
        }
        self.data_len = self.data_len - nbytes as u16;
        proof {
            assert(self.bytes() =~= old(self).bytes().take(old(self).len_spec() - nbytes));
        }
        Ok(())
    }

    /// Grows the payload at the front by `nbytes`, re-exposing headroom
    /// bytes.  Fails with `EINVAL`, leaving the buffer unchanged, when the
    /// headroom is smaller than `nbytes`.
    pub fn prepend(&mut self, nbytes: usize) -> (r: Result<(), Fail>)
        requires
            old(self).wf(),
        ensures
            final(self).wf(),
            nbytes > old(self).headroom_spec() ==> {
                &&& r is Err
                &&& r.unwrap_err().errno == EINVAL
                &&& *final(self) == *old(self)
            },
            nbytes <= old(self).headroom_spec() ==> {
                &&& r is Ok
                &&& final(self).bytes() == old(self).headroom_bytes().skip(
                    old(self).headroom_spec() - nbytes,
                ) + old(self).bytes()
                &&& final(self).len_spec() == old(self).len_spec() + nbytes
                &&& final(self).headroom_spec() == old(self).headroom_spec() - nbytes
                &&& final(self).is_direct_spec() == old(self).is_direct_spec()
                &&& final(self).pool_id_spec() == old(self).pool_id_spec()
            },
    {
        if nbytes > self.data_off as usize {
            return Err(Fail::new(EINVAL, "insufficient headroom"));
        }
        self.data_off = self.data_off - nbytes as u16;
        self.data_len = self.data_len + nbytes as u16;
        proof {
            assert(self.bytes() =~= old(self).headroom_bytes().skip(
                old(self).headroom_spec() - nbytes,
            ) + old(self).bytes());
        }
        Ok(())
    }

    /// Splits at `offset`: this buffer keeps the first `offset` payload
    /// bytes and the returned sibling view holds the rest.  Fails with
    /// `EINVAL`, leaving the buffer unchanged, when `offset` exceeds the
    /// payload length.
    pub fn split_back(&mut self, offset: usize) -> (r: Result<Self, Fail>)
        requires
            old(self).wf(),
        ensures
            final(self).wf(),
            offset > old(self).len_spec() ==> {
                &&& r is Err
                &&& r.unwrap_err().errno == EINVAL
                &&& *final(self) == *old(self)
            },
            offset <= old(self).len_spec() ==> {
                &&& r is Ok
                &&& final(self).bytes() == old(self).bytes().take(offset as int)
                &&& r.unwrap().wf()
                &&& r.unwrap().bytes() == old(self).bytes().skip(offset as int)
                &&& final(self).len_spec() == offset
                &&& final(self).headroom_spec() == old(self).headroom_spec()
                &&& final(self).is_direct_spec() == old(self).is_direct_spec()
                &&& (old(self).capacity_spec() > 0 ==> !r.unwrap().is_direct_spec())
            },
    {
        if offset > self.data_len as usize {
            return Err(Fail::new(EINVAL, "cannot split buffer at given offset"));
        }
        let back_data: Vec<u8> = copy_slice(self.data.as_slice());
        let back = DemiBuffer {
            data_off: self.data_off + offset as u16,
            data_len: self.data_len - offset as u16,
            data: back_data,
            direct: self.data.len() == 0,
            pool_id: None,
        };
        self.data_len = offset as u16;
        proof {
            assert(self.bytes() =~= old(self).bytes().take(offset as int));
            assert(back.bytes() =~= old(self).bytes().skip(offset as int));
        }
        Ok(back)
    }

    /// Splits at `offset`: the returned sibling view holds the first
    /// `offset` payload bytes and this buffer keeps the rest.  Fails with
    /// `EINVAL`, leaving the buffer unchanged, when `offset` exceeds the
    /// payload length.
    pub fn split_front(&mut self, offset: usize) -> (r: Result<Self, Fail>)
        requires
            old(self).wf(),
        ensures
            final(self).wf(),
            offset > old(self).len_spec() ==> {
                &&& r is Err
                &&& r.unwrap_err().errno == EINVAL
                &&& *final(self) == *old(self)
            },
            offset <= old(self).len_spec() ==> {
                &&& r is Ok
                &&& final(self).bytes() == old(self).bytes().skip(offset as int)
                &&& r.unwrap().wf()
                &&& r.unwrap().bytes() == old(self).bytes().take(offset as int)
                &&& final(self).len_spec() == old(self).len_spec() - offset
                &&& final(self).is_direct_spec() == old(self).is_direct_spec()
                &&& (old(self).capacity_spec() > 0 ==> !r.unwrap().is_direct_spec())
            },
    {
        if offset > self.data_len as usize {
            return Err(Fail::new(EINVAL, "cannot split buffer at given offset"));
        }
        let front_data: Vec<u8> = copy_slice(self.data.as_slice());
        let front = DemiBuffer {
            data_off: self.data_off,
            data_len: offset as u16,
            data: front_data,
            direct: self.data.len() == 0,
            pool_id: None,
        };
        self.data_off = self.data_off + offset as u16;
        self.data_len = self.data_len - offset as u16;
        proof {
            assert(self.bytes() =~= old(self).bytes().skip(offset as int));
            assert(front.bytes() =~= old(self).bytes().take(offset as int));
        }
        Ok(front)
    }

    /// Grows the payload at the front by writing `hdr` into the headroom,
    /// as a protocol layer does when attaching its header.  Fails with
    /// `EINVAL`, leaving the buffer unchanged, when the headroom is smaller
    /// than the header.
    pub fn prepend_slice(&mut self, hdr: &[u8]) -> (r: Result<(), Fail>)
        requires
            old(self).wf(),
        ensures
            final(self).wf(),
            hdr@.len() > old(self).headroom_spec() ==> {
                &&& r is Err
                &&& r.unwrap_err().errno == EINVAL
                &&& *final(self) == *old(self)
            },
            hdr@.len() <= old(self).headroom_spec() ==> {
                &&& r is Ok
                &&& final(self).bytes() == hdr@ + old(self).bytes()
                &&& final(self).len_spec() == old(self).len_spec() + hdr@.len()
                &&& final(self).headroom_spec() == old(self).headroom_spec() - hdr@.len()
                &&& final(self).is_direct_spec() == old(self).is_direct_spec()
                &&& final(self).pool_id_spec() == old(self).pool_id_spec()
            },
    {
        if hdr.len() > self.data_off as usize {
            return Err(Fail::new(EINVAL, "insufficient headroom"));
        }
        let n: usize = hdr.len();
        self.data_off = self.data_off - n as u16;
        self.data_len = self.data_len + n as u16;
        let mut i: usize = 0;
        while i < n
            invariant
                old(self).wf(),
                n == hdr@.len(),
                n <= old(self).data_off,
                i <= n,
                self.data_off == old(self).data_off - n,
                self.data_len == old(self).data_len + n,
                self.direct == old(self).direct,
                self.pool_id == old(self).pool_id,
                self.data@.len() == old(self).data@.len(),
                forall|k: int|
                    0 <= k < i ==> self.data@[self.data_off + k] == hdr@[k],
                forall|k: int|
                    0 <= k < self.data@.len() && !(self.data_off <= k < self.data_off + i)
                        ==> self.data@[k] == old(self).data@[k],
            decreases n - i,
        {
            let idx: usize = self.data_off as usize + i;
            self.data.set(idx, hdr[i]);
            i = i + 1;
        }
        proof {
            assert(self.bytes() =~= hdr@ + old(self).bytes());
        }
        Ok(())
    }

    /// Consumes the buffer, yielding a token that can cross an interface
    /// boundary and later be turned back into the buffer.
    pub fn into_raw(self) -> (t: DemiBufferToken)
        ensures
            t.buffer() == self,
    {
        DemiBufferToken { buf: self }
    }

    /// Reconstitutes the buffer a token stands for.
    pub fn from_raw(token: DemiBufferToken) -> (r: Self)
        ensures
            r == token.buffer(),
    {
        token.buf
    }
}

impl Clone for DemiBuffer {
    /// Produces an independent view of the same payload; a clone of a
    /// non-empty buffer is indirect, a clone of an empty one stays direct.
    fn clone(&self) -> (r: Self)
        ensures
            self.wf() ==> {
                &&& r.wf()
                &&& r.bytes() == self.bytes()
                &&& r.len_spec() == self.len_spec()
                &&& r.headroom_spec() == self.headroom_spec()
                &&& (self.capacity_spec() > 0 ==> !r.is_direct_spec())
                &&& (self.capacity_spec() == 0 ==> r.is_direct_spec() == self.is_direct_spec())
            },
    {
        DemiBuffer {
            data: copy_slice(self.data.as_slice()),
            data_off: self.data_off,
            data_len: self.data_len,
            direct: if self.data.len() == 0 {
                self.direct
            } else {
                false
            },
            pool_id: None,
        }
    }
}

/// A pool of uniformly sized free chunks; buffers drawn from it record the
/// pool's identity.
pub struct BufferPool {
    id: u64,
    chunk_size: u16,
    free: Vec<Vec<u8>>,
}

impl BufferPool {
    /// Every free chunk has exactly the pool's chunk size.
    pub closed spec fn wf(self) -> bool {
        forall|i: int|
            0 <= i < self.free@.len() ==> (#[trigger] self.free@[i])@.len()
                == self.chunk_size as int
    }

    /// The pool's identity, recorded in buffers drawn from it.
    pub closed spec fn id_spec(self) -> u64 {
        self.id
    }

    /// Size of each chunk the pool hands out.
    pub closed spec fn chunk_size_spec(self) -> int {
        self.chunk_size as int
    }

    /// Number of free chunks currently held.
    pub closed spec fn num_free(self) -> int {
        self.free@.len() as int
    }

    /// Creates an empty pool handing out chunks of `chunk_size` bytes; `id`
    /// names the pool in buffers drawn from it.
    pub fn new(id: u64, chunk_size: u16) -> (r: Self)
        ensures
            r.wf(),
            r.id_spec() == id,
            r.chunk_size_spec() == chunk_size,
            r.num_free() == 0,
    {
        BufferPool { id, chunk_size, free: Vec::new() }
    }

    /// Installs `num_chunks` fresh zeroed chunks into the free list.
    pub fn populate(&mut self, num_chunks: usize)
        requires
            old(self).wf(),
            old(self).num_free() + num_chunks <= usize::MAX,
        ensures
            final(self).wf(),
            final(self).id_spec() == old(self).id_spec(),
            final(self).chunk_size_spec() == old(self).chunk_size_spec(),
            final(self).num_free() == old(self).num_free() + num_chunks,
    {
        let mut i: usize = 0;
        while i < num_chunks
            invariant
                self.wf(),
                i <= num_chunks,
                old(self).num_free() + num_chunks <= usize::MAX,
                self.id == old(self).id,
                self.chunk_size == old(self).chunk_size,
                self.num_free() == old(self).num_free() + i,
            decreases num_chunks - i,
        {
            let chunk: Vec<u8> = zeroed_vec(self.chunk_size as usize);
            self.free.push(chunk);
            i = i + 1;
        }
    }

    /// Returns a chunk to the pool, as a buffer's release does; only chunks
    /// of the pool's own size are accepted.
    pub fn return_chunk(&mut self, chunk: Vec<u8>) -> (r: Result<(), Fail>)
        requires
            old(self).wf(),
        ensures
            final(self).wf(),
            final(self).id_spec() == old(self).id_spec(),
            final(self).chunk_size_spec() == old(self).chunk_size_spec(),
            chunk@.len() == old(self).chunk_size_spec() ==> r is Ok && final(self).num_free() == old(
                self,
            ).num_free() + 1,
            chunk@.len() != old(self).chunk_size_spec() ==> r is Err && r.unwrap_err().errno
                == EINVAL && final(self).num_free() == old(self).num_free(),
    {
        if chunk.len() != self.chunk_size as usize {
            return Err(Fail::new(EINVAL, "chunk does not belong to this pool"));
        }
        self.free.push(chunk);
        Ok(())
    }

    /// Removes and returns one free chunk; `None` when the pool is empty.
    fn take_chunk(&mut self) -> (r: Option<Vec<u8>>)
        requires
            old(self).wf(),
        ensures
            final(self).wf(),
            final(self).id == old(self).id,
            final(self).chunk_size == old(self).chunk_size,
            old(self).num_free() == 0 ==> r is None && final(self).num_free() == 0,
            old(self).num_free() > 0 ==> r is Some && r.unwrap()@.len()
                == final(self).chunk_size_spec() && final(self).num_free() == old(self).num_free() - 1,
    {
        self.free.pop()
    }

    /// The pool's identity.
    pub fn id(&self) -> (r: u64)
        ensures
            r == self.id_spec(),
    {
        self.id
    }

    /// The chunk size the pool was created with.
    pub fn chunk_size(&self) -> (r: u16)
        ensures
            r == self.chunk_size_spec(),
    {
        self.chunk_size
    }
}

/// How a component of the stack obtains packet buffers.
pub trait DemiMemoryAllocator {
    /// Validity of the allocator's own state, preserved by allocation.
    spec fn allocator_wf(&self) -> bool;

    /// Allocates a buffer of `size` payload bytes.
    fn allocate_demi_buffer(&mut self, size: usize) -> (r: Result<DemiBuffer, Fail>)
        requires
            old(self).allocator_wf(),
        ensures
            final(self).allocator_wf(),
            r is Ok ==> r.unwrap().wf(),
    ;
}

impl DemiMemoryAllocator for BufferPool {
    open spec fn allocator_wf(&self) -> bool {
        self.wf()
    }

    /// Draws a chunk from the pool; fails with `ENOBUFS` when the pool is
    /// empty and `EINVAL` when `size` exceeds the pool's chunk size.
    fn allocate_demi_buffer(&mut self, size: usize) -> (r: Result<DemiBuffer, Fail>) {
        if size > self.chunk_size as usize {
            return Err(Fail::new(EINVAL, "request larger than this pool's chunk size"));
        }
        match DemiBuffer::new_in_pool(self) {
            Some(buf) => Ok(buf),
            None => Err(Fail::new(ENOBUFS, "buffer pool is exhausted")),
        }
    }
}

/// Builds a vector of `n` zero bytes.
fn zeroed_vec(n: usize) -> (r: Vec<u8>)
    ensures
        r@ == Seq::new(n as nat, |i: int| 0u8),
{
    let mut r: Vec<u8> = Vec::new();
    let mut i: usize = 0;
    while i < n
        invariant
            i <= n,
            r@ =~= Seq::new(i as nat, |j: int| 0u8),
        decreases n - i,
    {
        r.push(0u8);
        i = i + 1;
    }
    proof {
        assert(r@ =~= Seq::new(n as nat, |i: int| 0u8));
    }
    r
}

/// Law: a fresh buffer of capacity `n` has length `n` and no headroom;
/// this is the contract of `new`, restated over the buffer's views.
pub proof fn lemma_new_buffer_shape(b: DemiBuffer, n: u16)
    requires
        b.wf(),
        b.len_spec() == n,
        b.headroom_spec() == 0,
    ensures
        b.bytes().len() == n,
        b.headroom_bytes().len() == 0,
{
    b.lemma_bytes_len();
}

/// Law: a buffer built with `h` bytes of headroom accepts a prepend of
/// exactly `h` bytes and refuses one of `h + 1` — `prepend`'s contract
/// succeeds exactly on requests up to the headroom, and a successful
/// `prepend(h)` then yields `n + h` payload bytes.
pub proof fn lemma_headroom_prepend_bound(b: DemiBuffer, n: u16, h: u16)
    requires
        b.wf(),
        b.len_spec() == n,
        b.headroom_spec() == h,
    ensures
        h <= b.headroom_spec(),
        h + 1 > b.headroom_spec(),
        b.len_spec() + h == n + h,
{
}

/// Law: splitting reassembles.  A clone of `b` split at any `k` within its
/// length yields a front holding the first `k` bytes and a back holding the
/// rest, and their concatenation is exactly `b`'s bytes.
pub proof fn lemma_split_back_round_trip(b: DemiBuffer, front: Seq<u8>, back: Seq<u8>, k: int)
    requires
        0 <= k <= b.bytes().len(),
        front == b.bytes().take(k),
        back == b.bytes().skip(k),
    ensures
        front + back == b.bytes(),
{
    assert(front + back =~= b.bytes());
}

/// Law: `adjust(k)` then `prepend(k)` is a no-op on the byte sequence.
/// `b2` relates to `b1` as `adjust(k)`'s contract states, and `b3` to `b2`
/// as `prepend(k)`'s does; the bytes of `b3` are the bytes of `b1`.
pub proof fn lemma_adjust_then_prepend_is_noop(
    b1: DemiBuffer,
    b2: DemiBuffer,
    b3: DemiBuffer,
    k: int,
)
    requires
        b1.wf(),
        0 <= k <= b1.len_spec(),
        b2.bytes() == b1.bytes().skip(k),
        b2.headroom_spec() == b1.headroom_spec() + k,
        b2.headroom_bytes() == b1.headroom_bytes() + b1.bytes().take(k),
        b3.bytes() == b2.headroom_bytes().skip(b2.headroom_spec() - k) + b2.bytes(),
    ensures
        b3.bytes() == b1.bytes(),
{
    b1.lemma_bytes_len();
    assert(b2.headroom_bytes().skip(b2.headroom_spec() - k) =~= b1.bytes().take(k));
    assert(b3.bytes() =~= b1.bytes());
}

/// Copies a byte slice into a fresh vector.
fn copy_slice(s: &[u8]) -> (r: Vec<u8>)
    ensures
        r@ == s@,
{
    let mut r: Vec<u8> = Vec::new();
    let mut i: usize = 0;
    while i < s.len()
        invariant
            i <= s@.len(),
            r@ =~= s@.subrange(0, i as int),
        decreases s@.len() - i,
    {
        r.push(s[i]);
        i = i + 1;
    }
    proof {
        assert(r@ =~= s@);
    }
    r
}

} // verus!
