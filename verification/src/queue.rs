//! I/O queue descriptors: the kind of each queue, the external descriptor
//! and token types, and the table that maps descriptors to queues.

use vstd::prelude::*;

use crate::fail::{Fail, EBADF};
use crate::id_map::{Id32Map, ID_OFFSET};
use crate::net::SocketAddress;

verus! {

/// The kind of an I/O queue.
#[derive(Clone, Copy, PartialEq, Eq, Structural, Hash, Debug)]
pub enum QType {
    UdpSocket,
    TcpSocket,
    MemoryQueue,
    TestQueue,
}

impl QType {
    /// The wire value of this queue kind.
    pub fn to_u32(self) -> (r: u32)
        ensures
            self is UdpSocket ==> r == 1,
            self is TcpSocket ==> r == 2,
            self is MemoryQueue ==> r == 3,
            self is TestQueue ==> r == 4,
    {
        match self {
            QType::UdpSocket => 1,
            QType::TcpSocket => 2,
            QType::MemoryQueue => 3,
            QType::TestQueue => 4,
        }
    }

    /// The queue kind a wire value names; values outside 1 through 4 are
    /// rejected.
    pub fn try_from(value: u32) -> (r: Result<QType, &'static str>)
        ensures
            value == 1 ==> r == Ok::<QType, &'static str>(QType::UdpSocket),
            value == 2 ==> r == Ok::<QType, &'static str>(QType::TcpSocket),
            value == 3 ==> r == Ok::<QType, &'static str>(QType::MemoryQueue),
            value == 4 ==> r == Ok::<QType, &'static str>(QType::TestQueue),
            !(1 <= value <= 4) ==> r is Err,
    {
        match value {
            1u32 => Ok(QType::UdpSocket),
            2u32 => Ok(QType::TcpSocket),
            3u32 => Ok(QType::MemoryQueue),
            4u32 => Ok(QType::TestQueue),
            _ => Err("invalid qtype"),
        }
    }
}

/// An external I/O queue descriptor.
#[derive(Clone, Copy, PartialEq, Eq, Structural, Hash, Debug)]
pub struct QDesc(pub u32);

/// An opaque token naming a pending asynchronous operation.
#[derive(Clone, Copy, PartialEq, Eq, Structural, Hash, Debug)]
pub struct QToken(pub u64);

/// What a queue must tell the table about itself.
pub trait IoQueue {
    /// The kind of this queue.
    fn get_qtype(&self) -> QType;
}

/// The result of a completed queue operation.
pub enum OperationResult {
    /// A connect completed.
    Connect,
    /// An accept completed: the new queue and the peer's address.
    Accept((QDesc, SocketAddress)),
    /// A push completed.
    Push,
    /// A pop completed: the payload, with the sender's address for
    /// unconnected sockets.
    Pop(Option<SocketAddress>, crate::demibuffer::DemiBuffer),
    /// A close completed.
    Close,
    /// The operation failed.
    Failed(Fail),
}

/// The I/O queue table: maps external descriptors to queues.
pub struct IoQueueTable<Q> {
    /// Translates external descriptors to slab offsets.
    qd_to_offset: Id32Map,
    /// The queues, addressed by slab offset.
    table: Vec<Option<Q>>,
}

impl<Q> IoQueueTable<Q> {
    /// Whether `qd` names a live queue.
    pub closed spec fn has_queue(self, qd: QDesc) -> bool {
        &&& qd.0 >= ID_OFFSET
        &&& 0 <= qd.0 - ID_OFFSET < self.table@.len()
        &&& self.table@[qd.0 - ID_OFFSET] is Some
    }

    /// The queue `qd` names.
    pub closed spec fn queue_at(self, qd: QDesc) -> Q {
        self.table@[qd.0 - ID_OFFSET]->Some_0
    }

    /// Number of slab slots ever used.
    pub closed spec fn num_slots(self) -> int {
        self.table@.len() as int
    }

    /// Creates an empty table.
    pub fn new() -> (r: Self)
        ensures
            forall|qd: QDesc| !r.has_queue(qd),
            r.num_slots() == 0,
    {
        IoQueueTable { qd_to_offset: Id32Map::new(), table: Vec::new() }
    }

    /// Allocates a slot for `queue` and returns its fresh descriptor; the
    /// descriptor space must not be exhausted.
    pub fn allocate(&mut self, queue: Q) -> (r: QDesc)
        requires
            old(self).num_slots() + ID_OFFSET < u32::MAX,
        ensures
            final(self).has_queue(r),
            final(self).queue_at(r) == queue,
            !old(self).has_queue(r),
            forall|qd: QDesc|
                qd != r ==> #[trigger] final(self).has_queue(qd) == old(self).has_queue(qd) && (
                old(self).has_queue(qd) ==> final(self).queue_at(qd) == old(self).queue_at(qd)),
    {
        // Find the lowest free slot.
        let mut ix: usize = 0;
        while ix < self.table.len() && self.table[ix].is_some()
            invariant
                ix <= self.table@.len(),
                *self == *old(self),
            decreases self.table@.len() - ix,
        {
            ix = ix + 1;
        }
        if ix == self.table.len() {
            self.table.push(Some(queue));
        } else {
            self.table.set(ix, Some(queue));
        }
        let external: Option<u32> = self.qd_to_offset.insert_with_new_id(ix as u32);
        let qd: QDesc = match external {
            Some(id) => QDesc(id),
            None => QDesc(0),
        };
        qd
    }

    /// A reference to the queue `qd` names; `EBADF` when there is none.
    pub fn get(&self, qd: QDesc) -> (r: Result<&Q, Fail>)
        ensures
            self.has_queue(qd) ==> r is Ok && *(r->Ok_0) == self.queue_at(qd),
            !self.has_queue(qd) ==> r is Err && r->Err_0.errno == EBADF,
    {
        if qd.0 >= ID_OFFSET {
            let ix: usize = (qd.0 - ID_OFFSET) as usize;
            if ix < self.table.len() {
                match &self.table[ix] {
                    Some(queue) => {
                        return Ok(queue);
                    },
                    None => {},
                }
            }
        }
        Err(Fail::new(EBADF, "invalid queue descriptor"))
    }

    /// Removes and returns the queue `qd` names; `EBADF` when there is
    /// none.
    pub fn free(&mut self, qd: QDesc) -> (r: Result<Q, Fail>)
        ensures
            old(self).has_queue(qd) ==> {
                &&& r is Ok
                &&& r->Ok_0 == old(self).queue_at(qd)
                &&& !final(self).has_queue(qd)
                &&& forall|other: QDesc|
                    other != qd ==> #[trigger] final(self).has_queue(other) == old(
                        self,
                    ).has_queue(other) && (old(self).has_queue(other) ==> final(self).queue_at(
                        other,
                    ) == old(self).queue_at(other))
            },
            !old(self).has_queue(qd) ==> r is Err && r->Err_0.errno == EBADF && forall|
                other: QDesc,
            |
                #[trigger] final(self).has_queue(other) == old(self).has_queue(other) && (old(
                    self,
                ).has_queue(other) ==> final(self).queue_at(other) == old(self).queue_at(other)),
    {
        if qd.0 >= ID_OFFSET {
            let ix: usize = (qd.0 - ID_OFFSET) as usize;
            if ix < self.table.len() {
                let slot: &mut Option<Q> = &mut self.table[ix];
                let taken: Option<Q> = slot.take();
                match taken {
                    Some(queue) => {
                        return Ok(queue);
                    },
                    None => {
                        proof {
                            assert(self.table@ =~= old(self).table@);
                        }
                    },
                }
            }
        }
        Err(Fail::new(EBADF, "invalid queue descriptor"))
    }

    /// Replaces the queue `qd` names and returns the old one; `EBADF`,
    /// leaving the table unchanged, when there is none.  This is how a
    /// caller updates a queue's state.
    pub fn replace(&mut self, qd: QDesc, queue: Q) -> (r: Result<Q, Fail>)
        ensures
            old(self).has_queue(qd) ==> {
                &&& r is Ok
                &&& r->Ok_0 == old(self).queue_at(qd)
                &&& final(self).has_queue(qd)
                &&& final(self).queue_at(qd) == queue
                &&& forall|other: QDesc|
                    other != qd ==> #[trigger] final(self).has_queue(other) == old(
                        self,
                    ).has_queue(other) && (old(self).has_queue(other) ==> final(self).queue_at(
                        other,
                    ) == old(self).queue_at(other))
            },
            !old(self).has_queue(qd) ==> r is Err && r->Err_0.errno == EBADF,
    {
        if qd.0 >= ID_OFFSET {
            let ix: usize = (qd.0 - ID_OFFSET) as usize;
            if ix < self.table.len() {
                let slot: &mut Option<Q> = &mut self.table[ix];
                let taken: Option<Q> = slot.take();
                match taken {
                    Some(old_queue) => {
                        self.table.set(ix, Some(queue));
                        return Ok(old_queue);
                    },
                    None => {},
                }
            }
        }
        Err(Fail::new(EBADF, "invalid queue descriptor"))
    }
}

impl<Q: IoQueue> IoQueueTable<Q> {
    /// The kind of the queue `qd` names; `EBADF` when there is none.
    pub fn get_type(&self, qd: QDesc) -> (r: Result<QType, Fail>)
        ensures
            self.has_queue(qd) ==> r is Ok,
            !self.has_queue(qd) ==> r is Err && r->Err_0.errno == EBADF,
    {
        match self.get(qd) {
            Ok(queue) => Ok(queue.get_qtype()),
            Err(e) => Err(e),
        }
    }
}

} // verus!
