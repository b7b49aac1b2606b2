//! The ARP resolver: a cache of IPv4-to-MAC bindings and a table of pending
//! queries.  Overlapping queries for one address coalesce onto a single
//! on-wire request: only the query that creates the pending entry emits a
//! request; later ones wait on the same condition variable, and the reply
//! wakes them all with the same binding.

use std::collections::HashMap;

use vstd::prelude::*;

use crate::condition_variable::SharedConditionVariable;
use crate::demibuffer::DemiBuffer;
use crate::fail::{Fail, EINVAL, ENOTSUP};
use crate::net::{Ipv4Address, MacAddress};

verus! {

/// Size of an ARP packet for IPv4 over Ethernet, in bytes.
pub const ARP_MESSAGE_SIZE: usize = 28;

/// The ARP operations.
#[derive(Clone, Copy, PartialEq, Eq, Structural, Hash, Debug)]
pub enum ArpOperation {
    Request,
    Reply,
}

impl ArpOperation {
    /// The operation's wire value.
    pub open spec fn value_spec(self) -> int {
        match self {
            ArpOperation::Request => 1,
            ArpOperation::Reply => 2,
        }
    }
}

/// An ARP packet for IPv4 over Ethernet.
#[derive(Clone, Copy, Debug)]
pub struct ArpHeader {
    pub operation: ArpOperation,
    pub sender_hardware_addr: MacAddress,
    pub sender_protocol_addr: Ipv4Address,
    pub target_hardware_addr: MacAddress,
    pub target_protocol_addr: Ipv4Address,
}

impl ArpHeader {
    /// The packet's bytes in wire order: hardware and protocol types and
    /// lengths for IPv4 over Ethernet, the operation, then the sender and
    /// target bindings.
    pub open spec fn wire_bytes(self) -> Seq<u8> {
        seq![0u8, 1u8, 8u8, 0u8, 6u8, 4u8, 0u8, (self.operation.value_spec() as u8)]
            + self.sender_hardware_addr.bytes() + self.sender_protocol_addr.bytes()
            + self.target_hardware_addr.bytes() + self.target_protocol_addr.bytes()
    }

    /// Builds a packet.
    pub fn new(
        operation: ArpOperation,
        sender_hardware_addr: MacAddress,
        sender_protocol_addr: Ipv4Address,
        target_hardware_addr: MacAddress,
        target_protocol_addr: Ipv4Address,
    ) -> (r: Self)
        ensures
            r.operation == operation,
            r.sender_hardware_addr == sender_hardware_addr,
            r.sender_protocol_addr == sender_protocol_addr,
            r.target_hardware_addr == target_hardware_addr,
            r.target_protocol_addr == target_protocol_addr,
    {
        ArpHeader {
            operation,
            sender_hardware_addr,
            sender_protocol_addr,
            target_hardware_addr,
            target_protocol_addr,
        }
    }

    /// Parses an ARP packet.  Rejected with `EINVAL` when too short and
    /// with `ENOTSUP` when it is not an IPv4-over-Ethernet request or
    /// reply.
    pub fn parse(pkt: &DemiBuffer) -> (r: Result<ArpHeader, Fail>)
        requires
            pkt.wf(),
        ensures
            r is Ok ==> {
                &&& pkt.bytes().len() >= ARP_MESSAGE_SIZE
                &&& (r.unwrap().operation is Request <==> pkt.bytes()[7] == 1)
                &&& r.unwrap().sender_hardware_addr.bytes() == pkt.bytes().subrange(8, 14)
                &&& r.unwrap().sender_protocol_addr.bytes() == pkt.bytes().subrange(14, 18)
                &&& r.unwrap().target_hardware_addr.bytes() == pkt.bytes().subrange(18, 24)
                &&& r.unwrap().target_protocol_addr.bytes() == pkt.bytes().subrange(24, 28)
            },
            r is Ok <==> pkt.bytes().len() >= ARP_MESSAGE_SIZE && pkt.bytes().take(6) == seq![
                0u8,
                1u8,
                8u8,
                0u8,
                6u8,
                4u8,
            ] && pkt.bytes()[6] == 0 && (pkt.bytes()[7] == 1 || pkt.bytes()[7] == 2),
    {
        if pkt.len() < ARP_MESSAGE_SIZE {
            proof {
                pkt.lemma_bytes_len();
            }
            return Err(Fail::new(EINVAL, "packet too small for an ARP message"));
        }
        proof {
            pkt.lemma_bytes_len();
        }
        if !(pkt.byte_at(0) == 0 && pkt.byte_at(1) == 1 && pkt.byte_at(2) == 8 && pkt.byte_at(3)
            == 0 && pkt.byte_at(4) == 6 && pkt.byte_at(5) == 4) {
            proof {
                if pkt.bytes().take(6) == seq![0u8, 1u8, 8u8, 0u8, 6u8, 4u8] {
                    assert(pkt.bytes()[0] == 0 && pkt.bytes()[1] == 1 && pkt.bytes()[2] == 8
                        && pkt.bytes()[3] == 0 && pkt.bytes()[4] == 6 && pkt.bytes()[5] == 4) by {
                        assert(pkt.bytes().take(6)[0] == pkt.bytes()[0]);
                        assert(pkt.bytes().take(6)[1] == pkt.bytes()[1]);
                        assert(pkt.bytes().take(6)[2] == pkt.bytes()[2]);
                        assert(pkt.bytes().take(6)[3] == pkt.bytes()[3]);
                        assert(pkt.bytes().take(6)[4] == pkt.bytes()[4]);
                        assert(pkt.bytes().take(6)[5] == pkt.bytes()[5]);
                    }
                }
            }
            return Err(Fail::new(ENOTSUP, "not an IPv4-over-Ethernet ARP message"));
        }
        let operation: ArpOperation = if pkt.byte_at(6) == 0 && pkt.byte_at(7) == 1 {
            ArpOperation::Request
        } else if pkt.byte_at(6) == 0 && pkt.byte_at(7) == 2 {
            ArpOperation::Reply
        } else {
            return Err(Fail::new(ENOTSUP, "unsupported ARP operation"));
        };
        let header = ArpHeader {
            operation,
            sender_hardware_addr: MacAddress::new(
                [pkt.byte_at(8), pkt.byte_at(9), pkt.byte_at(10), pkt.byte_at(11), pkt.byte_at(12),
                    pkt.byte_at(13)],
            ),
            sender_protocol_addr: Ipv4Address::new(
                pkt.byte_at(14),
                pkt.byte_at(15),
                pkt.byte_at(16),
                pkt.byte_at(17),
            ),
            target_hardware_addr: MacAddress::new(
                [pkt.byte_at(18), pkt.byte_at(19), pkt.byte_at(20), pkt.byte_at(21), pkt.byte_at(
                    22,
                ), pkt.byte_at(23)],
            ),
            target_protocol_addr: Ipv4Address::new(
                pkt.byte_at(24),
                pkt.byte_at(25),
                pkt.byte_at(26),
                pkt.byte_at(27),
            ),
        };
        proof {
            assert(header.sender_hardware_addr.bytes() =~= pkt.bytes().subrange(8, 14));
            assert(header.sender_protocol_addr.bytes() =~= pkt.bytes().subrange(14, 18));
            assert(header.target_hardware_addr.bytes() =~= pkt.bytes().subrange(18, 24));
            assert(header.target_protocol_addr.bytes() =~= pkt.bytes().subrange(24, 28));
            assert(pkt.bytes().take(6) =~= seq![0u8, 1u8, 8u8, 0u8, 6u8, 4u8]);
        }
        Ok(header)
    }

    /// Serializes the packet into a fresh buffer with `headroom` bytes in
    /// front for the Ethernet header.
    pub fn serialize(&self, headroom: usize) -> (r: Result<DemiBuffer, Fail>)
        requires
            headroom + ARP_MESSAGE_SIZE < crate::demibuffer::MAX_BUFFER_CAPACITY,
        ensures
            r is Ok,
            r.unwrap().wf(),
            r.unwrap().bytes() == self.wire_bytes(),
            r.unwrap().headroom_spec() == headroom,
    {
        let op: u8 = match self.operation {
            ArpOperation::Request => 1,
            ArpOperation::Reply => 2,
        };
        let message: Vec<u8> = vec![0u8, 1u8, 8u8, 0u8, 6u8, 4u8, 0u8, op,
            self.sender_hardware_addr.octets[0], self.sender_hardware_addr.octets[1],
            self.sender_hardware_addr.octets[2], self.sender_hardware_addr.octets[3],
            self.sender_hardware_addr.octets[4], self.sender_hardware_addr.octets[5],
            self.sender_protocol_addr.octets[0], self.sender_protocol_addr.octets[1],
            self.sender_protocol_addr.octets[2], self.sender_protocol_addr.octets[3],
            self.target_hardware_addr.octets[0], self.target_hardware_addr.octets[1],
            self.target_hardware_addr.octets[2], self.target_hardware_addr.octets[3],
            self.target_hardware_addr.octets[4], self.target_hardware_addr.octets[5],
            self.target_protocol_addr.octets[0], self.target_protocol_addr.octets[1],
            self.target_protocol_addr.octets[2], self.target_protocol_addr.octets[3]];
        proof {
            assert(message@ =~= self.wire_bytes());
        }
        let buf: Result<DemiBuffer, Fail> = DemiBuffer::from_slice_with_headroom(
            message.as_slice(),
            headroom,
        );
        match buf {
            Ok(buf) => Ok(buf),
            Err(_) => Err(Fail::new(EINVAL, "ARP message does not fit a buffer")),
        }
    }
}

/// Answers an ARP request: a request asking for `local_ip` is answered with
/// a reply carrying the local binding, addressed to the asker; anything
/// else is ignored.
pub fn reply_for(local_mac: &MacAddress, local_ip: &Ipv4Address, request: &ArpHeader) -> (r:
    Option<ArpHeader>)
    ensures
        (request.operation is Request && request.target_protocol_addr.bytes() == local_ip.bytes())
            ==> r == Some(
            ArpHeader {
                operation: ArpOperation::Reply,
                sender_hardware_addr: *local_mac,
                sender_protocol_addr: *local_ip,
                target_hardware_addr: request.sender_hardware_addr,
                target_protocol_addr: request.sender_protocol_addr,
            },
        ),
        !(request.operation is Request && request.target_protocol_addr.bytes()
            == local_ip.bytes()) ==> r is None,
{
    let is_request: bool = match request.operation {
        ArpOperation::Request => true,
        ArpOperation::Reply => false,
    };
    if is_request && request.target_protocol_addr == *local_ip {
        Some(
            ArpHeader {
                operation: ArpOperation::Reply,
                sender_hardware_addr: *local_mac,
                sender_protocol_addr: *local_ip,
                target_hardware_addr: request.sender_hardware_addr,
                target_protocol_addr: request.sender_protocol_addr,
            },
        )
    } else {
        None
    }
}

/// Packs an IPv4 address into a cache key; distinct addresses give
/// distinct keys.
pub open spec fn ip_key_spec(ip: Ipv4Address) -> u32 {
    (0x1000000 * (ip.bytes()[0] as int) + 0x10000 * (ip.bytes()[1] as int) + 0x100 * (
    ip.bytes()[2] as int) + (ip.bytes()[3] as int)) as u32
}

/// Packs an IPv4 address into a cache key.
pub fn ip_key(ip: &Ipv4Address) -> (r: u32)
    ensures
        r == ip_key_spec(*ip),
{
    0x1000000u32 * (ip.octets[0] as u32) + 0x10000u32 * (ip.octets[1] as u32) + 0x100u32 * (
    ip.octets[2] as u32) + (ip.octets[3] as u32)
}

/// Distinct addresses pack to distinct keys.
pub proof fn lemma_ip_key_injective(a: Ipv4Address, b: Ipv4Address)
    ensures
        ip_key_spec(a) == ip_key_spec(b) ==> a.bytes()[0] == b.bytes()[0] && a.bytes()[1]
            == b.bytes()[1] && a.bytes()[2] == b.bytes()[2] && a.bytes()[3] == b.bytes()[3],
{
}

/// What a new query must do next.
#[derive(Clone, Copy, Debug)]
pub enum ArpQueryStep {
    /// The cache holds the binding; the query returns it at once.
    Hit(MacAddress),
    /// Another query for this address is already inflight: queue on its
    /// pending entry, emitting nothing.
    Coalesce,
    /// No binding and no inflight query: emit one on-wire request and wait.
    SendRequest,
}

/// The ARP resolver state: the cache and the pending queries.
pub struct SharedArpPeer<W> {
    /// Resolved bindings, keyed by packed IPv4 address, each with the time
    /// it expires.
    cache: HashMap<u32, (MacAddress, u64)>,
    /// Condition variables of inflight queries, keyed by packed address.
    pending: HashMap<u32, SharedConditionVariable<W>>,
    /// How long a binding stays valid, in nanoseconds.
    ttl: u64,
}

impl<W> SharedArpPeer<W> {
    /// The cache: address key to binding and expiry time.
    pub closed spec fn cache_spec(self) -> Map<u32, (MacAddress, u64)> {
        self.cache@
    }

    /// The pending queries.
    pub closed spec fn pending_spec(self) -> Map<u32, SharedConditionVariable<W>> {
        self.pending@
    }

    /// The configured binding lifetime.
    pub closed spec fn ttl_spec(self) -> u64 {
        self.ttl
    }

    /// Creates a resolver with an empty cache and no pending query.
    pub fn new(ttl: u64) -> (r: Self)
        ensures
            r.cache_spec() == Map::<u32, (MacAddress, u64)>::empty(),
            r.pending_spec() == Map::<u32, SharedConditionVariable<W>>::empty(),
            r.ttl_spec() == ttl,
    {
        SharedArpPeer { cache: HashMap::new(), pending: HashMap::new(), ttl }
    }

    /// Looks up an unexpired binding for `ip` at time `now`.
    pub fn cache_lookup(&self, ip: &Ipv4Address, now: u64) -> (r: Option<MacAddress>)
        ensures
            (self.cache_spec().contains_key(ip_key_spec(*ip)) && now <= self.cache_spec()[ip_key_spec(*ip)].1) ==> r == Some(self.cache_spec()[ip_key_spec(*ip)].0),
            !(self.cache_spec().contains_key(ip_key_spec(*ip)) && now <= self.cache_spec()[ip_key_spec(*ip)].1) ==> r is None,
    {
        let key: u32 = ip_key(ip);
        match self.cache.get(&key) {
            Some(entry) => {
                if now <= entry.1 {
                    Some(entry.0)
                } else {
                    None
                }
            },
            None => None,
        }
    }

    /// Decides what a `query(ip)` call does at time `now`, registering a
    /// pending entry when a request must be emitted.
    ///
    /// Law: overlapping queries coalesce — a request goes on the wire only
    /// when no query for that address is already pending, so two
    /// overlapping queries produce exactly one request.
    pub fn query_begin(
        &mut self,
        ip: &Ipv4Address,
        now: u64,
        fresh_cond_var: SharedConditionVariable<W>,
    ) -> (r: ArpQueryStep)
        ensures
            final(self).cache_spec() == old(self).cache_spec(),
            final(self).ttl_spec() == old(self).ttl_spec(),
            (old(self).cache_spec().contains_key(ip_key_spec(*ip)) && now <= old(
                self,
            ).cache_spec()[ip_key_spec(*ip)].1) ==> r == ArpQueryStep::Hit(
                old(self).cache_spec()[ip_key_spec(*ip)].0,
            ) && final(self).pending_spec() == old(self).pending_spec(),
            !(old(self).cache_spec().contains_key(ip_key_spec(*ip)) && now <= old(
                self,
            ).cache_spec()[ip_key_spec(*ip)].1) ==> {
                &&& old(self).pending_spec().contains_key(ip_key_spec(*ip)) ==> r
                    == ArpQueryStep::Coalesce && final(self).pending_spec() == old(
                    self,
                ).pending_spec()
                &&& !old(self).pending_spec().contains_key(ip_key_spec(*ip)) ==> r
                    == ArpQueryStep::SendRequest && final(self).pending_spec() == old(
                    self,
                ).pending_spec().insert(ip_key_spec(*ip), fresh_cond_var)
            },
    {
        if let Some(mac) = self.cache_lookup(ip, now) {
            return ArpQueryStep::Hit(mac);
        }
        let key: u32 = ip_key(ip);
        if self.pending.contains_key(&key) {
            return ArpQueryStep::Coalesce;
        }
        self.pending.insert(key, fresh_cond_var);
        ArpQueryStep::SendRequest
    }

    /// Queues a waiter on the pending entry for `ip`; the entry must exist
    /// (a `Coalesce` step or an emitted request put it there).
    pub fn pending_add_waiter(&mut self, ip: &Ipv4Address, id: u64, waker: W)
        requires
            old(self).pending_spec().contains_key(ip_key_spec(*ip)),
        ensures
            final(self).cache_spec() == old(self).cache_spec(),
            final(self).ttl_spec() == old(self).ttl_spec(),
            final(self).pending_spec().contains_key(ip_key_spec(*ip)),
            final(self).pending_spec()[ip_key_spec(*ip)].waiters_spec() == old(
                self,
            ).pending_spec()[ip_key_spec(*ip)].waiters_spec().push((id, waker)),
            forall|k: u32|
                k != ip_key_spec(*ip) ==> (#[trigger] final(self).pending_spec().contains_key(k)
                    == old(self).pending_spec().contains_key(k)) && (old(
                    self,
                ).pending_spec().contains_key(k) ==> final(self).pending_spec()[k] == old(
                    self,
                ).pending_spec()[k]),
    {
        let key: u32 = ip_key(ip);
        let entry: Option<SharedConditionVariable<W>> = self.pending.remove(&key);
        match entry {
            Some(mut cond_var) => {
                cond_var.add_waiter(id, waker);
                self.pending.insert(key, cond_var);
                proof {
                    assert(self.pending@ =~= old(self).pending_spec().insert(
                        key,
                        self.pending@[key],
                    ));
                }
            },
            None => {
                proof {
                    assert(false);
                }
            },
        }
    }

    /// Handles an ARP reply binding `ip` to `mac` at time `now`: the cache
    /// learns the binding until `now + ttl`, and the pending entry, if any,
    /// is removed and returned so the caller can broadcast to every waiting
    /// query — all of them then read the same binding from the cache.
    pub fn process_reply(&mut self, ip: &Ipv4Address, mac: MacAddress, now: u64) -> (r: Option<
        SharedConditionVariable<W>,
    >)
        requires
            now + old(self).ttl_spec() <= u64::MAX,
        ensures
            final(self).cache_spec() == old(self).cache_spec().insert(
                ip_key_spec(*ip),
                (mac, (now + old(self).ttl_spec()) as u64),
            ),
            final(self).pending_spec() == old(self).pending_spec().remove(ip_key_spec(*ip)),
            final(self).ttl_spec() == old(self).ttl_spec(),
            old(self).pending_spec().contains_key(ip_key_spec(*ip)) ==> r == Some(
                old(self).pending_spec()[ip_key_spec(*ip)],
            ),
            !old(self).pending_spec().contains_key(ip_key_spec(*ip)) ==> r is None,
    {
        let key: u32 = ip_key(ip);
        self.cache.insert(key, (mac, now + self.ttl));
        let waiters: Option<SharedConditionVariable<W>> = self.pending.remove(&key);
        proof {
            assert(self.pending@ =~= old(self).pending_spec().remove(key));
        }
        waiters
    }
}

} // verus!
