//! ICMPv4 echo: the message header, the inflight-ping table, and the ping
//! identifier computation.  A reply carrying an inflight `(id, seq)` pair
//! completes that ping and wakes its waiter; a reply for a pair no longer
//! inflight — say, one whose ping already timed out — is ignored.

use std::collections::HashMap;

use vstd::prelude::*;

use rand::rngs::SmallRng;

use crate::condition_variable::SharedConditionVariable;
use crate::demibuffer::DemiBuffer;
use crate::fail::{Fail, EINVAL, ENOTSUP};
use crate::checksum::{internet_checksum, internet_checksum_spec};
use crate::net::Ipv4Address;

verus! {

/// Size of an ICMPv4 echo header, in bytes.
pub const ICMPV4_HEADER_SIZE: usize = 8;

/// Payload size of the echo requests this stack sends.
pub const ICMPV4_ECHO_REQUEST_MESSAGE_SIZE: usize = 56;

/// Declares rand's `SmallRng` so the peer can hold its nonce generator;
/// the generator's values are never relied on.
#[verifier::external_type_specification]
#[verifier::external_body]
pub struct ExSmallRng(SmallRng);

/// Relies on rand's `SeedableRng::from_seed` for `SmallRng`: builds a
/// generator from a 32-byte seed, never failing.
#[verifier::external_body]
fn rng_from_seed(seed: [u8; 32]) -> (r: SmallRng) {
    <SmallRng as rand::SeedableRng>::from_seed(seed)
}

/// Relies on rand's `Rng::gen`: draws a pseudo-random 16-bit value.  Nothing
/// is promised of the value; callers treat every outcome alike.
#[verifier::external_body]
fn gen_nonce(rng: &mut SmallRng) -> (r: u16) {
    rand::Rng::gen(rng)
}

/// The ICMPv4 messages the stack speaks.
#[derive(Clone, Copy, PartialEq, Eq, Structural, Debug)]
pub enum Icmpv4Type2 {
    EchoRequest { id: u16, seq_num: u16 },
    EchoReply { id: u16, seq_num: u16 },
}

impl Icmpv4Type2 {
    /// The message's type byte.
    pub open spec fn type_value_spec(self) -> int {
        match self {
            Icmpv4Type2::EchoRequest { .. } => 8,
            Icmpv4Type2::EchoReply { .. } => 0,
        }
    }

    /// The message's identifier.
    pub open spec fn id_spec(self) -> u16 {
        match self {
            Icmpv4Type2::EchoRequest { id, .. } => id,
            Icmpv4Type2::EchoReply { id, .. } => id,
        }
    }

    /// The message's sequence number.
    pub open spec fn seq_num_spec(self) -> u16 {
        match self {
            Icmpv4Type2::EchoRequest { seq_num, .. } => seq_num,
            Icmpv4Type2::EchoReply { seq_num, .. } => seq_num,
        }
    }
}

/// An ICMPv4 echo header.
#[derive(Clone, Copy, Debug)]
pub struct Icmpv4Header {
    pub protocol: Icmpv4Type2,
    pub code: u8,
}

impl Icmpv4Header {
    /// The header's bytes in wire order with the checksum field holding
    /// `cksum`: type, code, checksum, identifier, sequence number.
    pub open spec fn wire_bytes_with_checksum(self, cksum: int) -> Seq<u8> {
        seq![
            (self.protocol.type_value_spec() as u8),
            self.code,
            ((cksum / 256) as u8),
            ((cksum % 256) as u8),
            ((self.protocol.id_spec() as int / 256) as u8),
            ((self.protocol.id_spec() as int % 256) as u8),
            ((self.protocol.seq_num_spec() as int / 256) as u8),
            ((self.protocol.seq_num_spec() as int % 256) as u8),
        ]
    }

    /// The header's bytes in wire order when attached in front of
    /// `payload`: the checksum covers the header, taken with a zero
    /// checksum field, followed by the payload.
    pub open spec fn wire_bytes(self, payload: Seq<u8>) -> Seq<u8> {
        self.wire_bytes_with_checksum(
            internet_checksum_spec(self.wire_bytes_with_checksum(0) + payload),
        )
    }

    /// Builds a header.
    pub fn new(protocol: Icmpv4Type2, code: u8) -> (r: Self)
        ensures
            r.protocol == protocol,
            r.code == code,
    {
        Icmpv4Header { protocol, code }
    }

    /// The message kind carried by this header.
    pub fn get_protocol(&self) -> (r: Icmpv4Type2)
        ensures
            r == self.protocol,
    {
        self.protocol
    }

    /// Parses the echo header at the front of `pkt` and strips it.  Fails
    /// with `EINVAL`, leaving the packet unchanged, when the packet is too
    /// short or the checksum is bad, and with `ENOTSUP` for ICMP messages
    /// other than echo request and reply.
    pub fn parse_and_strip(pkt: &mut DemiBuffer) -> (r: Result<Icmpv4Header, Fail>)
        requires
            old(pkt).wf(),
        ensures
            final(pkt).wf(),
            r is Ok <==> {
                &&& old(pkt).bytes().len() >= ICMPV4_HEADER_SIZE
                &&& internet_checksum_spec(old(pkt).bytes()) == 0
                &&& (old(pkt).bytes()[0] == 8 || old(pkt).bytes()[0] == 0)
            },
            r is Ok ==> {
                &&& r.unwrap().protocol.type_value_spec() == old(pkt).bytes()[0]
                &&& r.unwrap().code == old(pkt).bytes()[1]
                &&& r.unwrap().protocol.id_spec() == 256 * (old(pkt).bytes()[4] as int) + (old(
                    pkt,
                ).bytes()[5] as int)
                &&& r.unwrap().protocol.seq_num_spec() == 256 * (old(pkt).bytes()[6] as int) + (
                old(pkt).bytes()[7] as int)
                &&& final(pkt).bytes() == old(pkt).bytes().skip(ICMPV4_HEADER_SIZE as int)
            },
            r is Err ==> *final(pkt) == *old(pkt),
    {
        if pkt.len() < ICMPV4_HEADER_SIZE {
            return Err(Fail::new(EINVAL, "message too small for an ICMPv4 header"));
        }
        // Validate the checksum over the whole message.
        proof {
            pkt.lemma_bytes_len();
        }
        let message: Vec<u8> = pkt.to_bytes();
        let cksum: u16 = internet_checksum(message.as_slice());
        if cksum != 0 {
            return Err(Fail::new(EINVAL, "bad ICMPv4 checksum"));
        }
        let id: u16 = 256 * (pkt.byte_at(4) as u16) + (pkt.byte_at(5) as u16);
        let seq_num: u16 = 256 * (pkt.byte_at(6) as u16) + (pkt.byte_at(7) as u16);
        let protocol: Icmpv4Type2 = match pkt.byte_at(0) {
            8u8 => Icmpv4Type2::EchoRequest { id, seq_num },
            0u8 => Icmpv4Type2::EchoReply { id, seq_num },
            _ => {
                return Err(Fail::new(ENOTSUP, "unsupported ICMPv4 message"));
            },
        };
        let code: u8 = pkt.byte_at(1);
        let hdr = Icmpv4Header { protocol, code };
        let adjusted: Result<(), Fail> = pkt.adjust(ICMPV4_HEADER_SIZE);
        proof {
            assert(adjusted is Ok);
        }
        Ok(hdr)
    }

    /// Writes the header, checksum included, into the headroom in front of
    /// `pkt`'s payload; the checksum covers the header and the payload.
    /// The packet must carry 8 bytes of headroom.
    pub fn serialize_and_attach(&self, pkt: &mut DemiBuffer) -> (r: Result<(), Fail>)
        requires
            old(pkt).wf(),
            old(pkt).len_spec() + ICMPV4_HEADER_SIZE < 0x10000,
        ensures
            final(pkt).wf(),
            old(pkt).headroom_spec() < ICMPV4_HEADER_SIZE ==> r is Err && r.unwrap_err().errno
                == EINVAL && *final(pkt) == *old(pkt),
            old(pkt).headroom_spec() >= ICMPV4_HEADER_SIZE ==> r is Ok && final(pkt).bytes()
                == self.wire_bytes(old(pkt).bytes()) + old(pkt).bytes(),
    {
        proof {
            old(pkt).lemma_bytes_len();
        }
        let type_value: u8 = match self.protocol {
            Icmpv4Type2::EchoRequest { .. } => 8,
            Icmpv4Type2::EchoReply { .. } => 0,
        };
        let id: u16 = match self.protocol {
            Icmpv4Type2::EchoRequest { id, .. } => id,
            Icmpv4Type2::EchoReply { id, .. } => id,
        };
        let seq_num: u16 = match self.protocol {
            Icmpv4Type2::EchoRequest { seq_num, .. } => seq_num,
            Icmpv4Type2::EchoReply { seq_num, .. } => seq_num,
        };
        let mut message: Vec<u8> = vec![type_value, self.code, 0u8, 0u8, (id / 256) as u8, (id
            % 256) as u8, (seq_num / 256) as u8, (seq_num % 256) as u8];
        proof {
            assert(message@ =~= self.wire_bytes_with_checksum(0));
        }
        let payload: Vec<u8> = pkt.to_bytes();
        let mut i: usize = 0;
        let n: usize = payload.len();
        while i < n
            invariant
                i <= n,
                n == payload@.len(),
                message@ =~= self.wire_bytes_with_checksum(0) + payload@.take(i as int),
            decreases n - i,
        {
            message.push(payload[i]);
            i = i + 1;
        }
        proof {
            assert(message@ =~= self.wire_bytes_with_checksum(0) + old(pkt).bytes());
        }
        let cksum: u16 = internet_checksum(message.as_slice());
        let hdr: Vec<u8> = vec![type_value, self.code, (cksum / 256) as u8, (cksum % 256) as u8, (
        id / 256) as u8, (id % 256) as u8, (seq_num / 256) as u8, (seq_num % 256) as u8];
        proof {
            assert(hdr@ =~= self.wire_bytes(old(pkt).bytes()));
        }
        let r = pkt.prepend_slice(hdr.as_slice());
        r
    }
}

/// Folds a 32-bit accumulator into 16 bits by repeated ones'-complement
/// carry wrap-around.
pub open spec fn oc_fold(state: int) -> int
    decreases state,
{
    if state > 0xFFFF {
        oc_fold(state - 0xFFFF)
    } else {
        state
    }
}

/// The ping identifier derived from the local address, the process id, and
/// a nonce, per the original identifier computation: a folded
/// ones'-complement sum, complemented.
pub open spec fn ping_id_spec(local: Ipv4Address, pid: u32, nonce: u16) -> int {
    0xFFFF - oc_fold(
        0xFFFF + 256 * (local.bytes()[0] as int) + (local.bytes()[1] as int) + 256 * (
        local.bytes()[2] as int) + (local.bytes()[3] as int) + ((pid as int) / 0x10000) + (
        (pid as int) % 0x10000) + nonce as int,
    )
}

/// Computes the ping identifier from the local address, the process id
/// (an environment input the caller supplies), and a nonce.
pub fn compute_ping_id(local: &Ipv4Address, pid: u32, nonce: u16) -> (r: u16)
    ensures
        r == ping_id_spec(*local, pid, nonce),
{
    let mut state: u32 = 0xFFFF;
    state = state + 256 * (local.octets[0] as u32) + (local.octets[1] as u32);
    state = state + 256 * (local.octets[2] as u32) + (local.octets[3] as u32);
    state = state + pid / 0x10000;
    state = state + pid % 0x10000;
    state = state + nonce as u32;
    while state > 0xFFFF
        invariant
            state >= 0,
            oc_fold(state as int) == oc_fold(
                0xFFFF + 256 * (local.bytes()[0] as int) + (local.bytes()[1] as int) + 256 * (
                local.bytes()[2] as int) + (local.bytes()[3] as int) + ((pid as int) / 0x10000) + (
                (pid as int) % 0x10000) + nonce as int,
            ),
        decreases state,
    {
        state = state - 0xFFFF;
    }
    0xFFFFu16 - (state as u16)
}

/// The fate of an inflight ping.
pub enum InflightRequest<W> {
    /// The ping is waiting; its waiter queues on this condition variable.
    Inflight(SharedConditionVariable<W>),
    /// A matching reply arrived; the ping returns on its next poll.
    Complete,
}

/// The ICMP peer: the inflight-ping table, the sequence counter, and the
/// nonce generator.  `W` is the runtime's waker payload.
pub struct SharedIcmpv4Peer<W> {
    /// The local interface address.
    local_ipv4_addr: Ipv4Address,
    /// Sequence number for the next ping, wrapping.
    seq: u16,
    /// Nonce generator for ping identifiers.
    rng: SmallRng,
    /// Inflight pings keyed by packed `(id, seq)`.
    inflight: HashMap<u32, InflightRequest<W>>,
}

/// Packs a ping's `(id, seq)` pair into one table key; distinct pairs give
/// distinct keys.
pub open spec fn ping_key(id: u16, seq: u16) -> u32 {
    (0x10000 * (id as int) + (seq as int)) as u32
}

/// Distinct `(id, seq)` pairs pack to distinct keys.
pub proof fn lemma_ping_key_injective(id1: u16, seq1: u16, id2: u16, seq2: u16)
    ensures
        ping_key(id1, seq1) == ping_key(id2, seq2) ==> id1 == id2 && seq1 == seq2,
{
}

impl<W> SharedIcmpv4Peer<W> {
    /// The inflight table.
    pub closed spec fn inflight_spec(self) -> Map<u32, InflightRequest<W>> {
        self.inflight@
    }

    /// The next ping's sequence number.
    pub closed spec fn seq_spec(self) -> u16 {
        self.seq
    }

    /// The local interface address.
    pub closed spec fn local_addr_spec(self) -> Ipv4Address {
        self.local_ipv4_addr
    }

    /// Creates a peer with no inflight ping; `rng_seed` seeds the nonce
    /// generator.
    pub fn new(local_ipv4_addr: Ipv4Address, rng_seed: [u8; 32]) -> (r: Self)
        ensures
            r.inflight_spec() == Map::<u32, InflightRequest<W>>::empty(),
            r.seq_spec() == 0,
            r.local_addr_spec() == local_ipv4_addr,
    {
        SharedIcmpv4Peer {
            local_ipv4_addr,
            seq: 0,
            rng: rng_from_seed(rng_seed),
            inflight: HashMap::new(),
        }
    }

    /// Computes an identifier for the next ping from the local address, the
    /// process id the caller supplies, and a fresh nonce.
    pub fn make_id(&mut self, pid: u32) -> (r: u16)
        ensures
            final(self).inflight_spec() == old(self).inflight_spec(),
            final(self).seq_spec() == old(self).seq_spec(),
            final(self).local_addr_spec() == old(self).local_addr_spec(),
            exists|nonce: u16| r == ping_id_spec(old(self).local_addr_spec(), pid, nonce),
    {
        let nonce: u16 = gen_nonce(&mut self.rng);
        let r = compute_ping_id(&self.local_ipv4_addr, pid, nonce);
        proof {
            assert(r == ping_id_spec(old(self).local_addr_spec(), pid, nonce));
        }
        r
    }

    /// Hands out the next ping sequence number, wrapping.
    pub fn make_seq_num(&mut self) -> (r: u16)
        ensures
            r == old(self).seq_spec(),
            final(self).seq_spec() == (if old(self).seq_spec() == u16::MAX {
                0u16
            } else {
                (old(self).seq_spec() + 1) as u16
            }),
            final(self).inflight_spec() == old(self).inflight_spec(),
            final(self).local_addr_spec() == old(self).local_addr_spec(),
    {
        let seq_num: u16 = self.seq;
        self.seq = if self.seq == u16::MAX {
            0
        } else {
            self.seq + 1
        };
        seq_num
    }

    /// Registers a ping as inflight under `(id, seq_num)`, waiting on
    /// `cond_var`.
    pub fn register_inflight(&mut self, id: u16, seq_num: u16, cond_var: SharedConditionVariable<W>)
        ensures
            final(self).inflight_spec() == old(self).inflight_spec().insert(
                ping_key(id, seq_num),
                InflightRequest::Inflight(cond_var),
            ),
            final(self).seq_spec() == old(self).seq_spec(),
            final(self).local_addr_spec() == old(self).local_addr_spec(),
    {
        let key: u32 = pack_ping_key(id, seq_num);
        self.inflight.insert(key, InflightRequest::Inflight(cond_var));
    }

    /// Handles an incoming echo reply carrying `(id, seq_num)`.
    ///
    /// Law: a reply for an inflight ping marks it complete and returns its
    /// condition variable so the waiter is woken; a reply for a pair not
    /// inflight — unknown, already complete, or timed out and removed — is
    /// ignored and changes nothing.
    pub fn process_reply(&mut self, id: u16, seq_num: u16) -> (r: Option<
        SharedConditionVariable<W>,
    >)
        ensures
            final(self).seq_spec() == old(self).seq_spec(),
            final(self).local_addr_spec() == old(self).local_addr_spec(),
            (old(self).inflight_spec().contains_key(ping_key(id, seq_num)) && old(self).inflight_spec()[ping_key(id, seq_num)] is Inflight) ==> {
                &&& r == Some(
                    old(self).inflight_spec()[ping_key(id, seq_num)]->Inflight_0,
                )
                &&& final(self).inflight_spec() == old(self).inflight_spec().insert(
                    ping_key(id, seq_num),
                    InflightRequest::Complete,
                )
            },
            !(old(self).inflight_spec().contains_key(ping_key(id, seq_num)) && old(self).inflight_spec()[ping_key(id, seq_num)] is Inflight) ==> r is None && final(self).inflight_spec() == old(self).inflight_spec(),
    {
        let key: u32 = pack_ping_key(id, seq_num);
        let entry: Option<InflightRequest<W>> = self.inflight.remove(&key);
        match entry {
            Some(InflightRequest::Inflight(cond_var)) => {
                self.inflight.insert(key, InflightRequest::Complete);
                proof {
                    assert(self.inflight@ =~= old(self).inflight_spec().insert(
                        key,
                        InflightRequest::Complete,
                    ));
                }
                Some(cond_var)
            },
            Some(InflightRequest::Complete) => {
                self.inflight.insert(key, InflightRequest::Complete);
                proof {
                    assert(self.inflight@ =~= old(self).inflight_spec());
                }
                None
            },
            None => {
                proof {
                    assert(self.inflight@ =~= old(self).inflight_spec());
                }
                None
            },
        }
    }

    /// Whether the ping registered under `(id, seq_num)` has completed.
    pub fn is_complete(&self, id: u16, seq_num: u16) -> (r: bool)
        ensures
            r == (self.inflight_spec().contains_key(ping_key(id, seq_num))
                && self.inflight_spec()[ping_key(id, seq_num)] is Complete),
    {
        let key: u32 = pack_ping_key(id, seq_num);
        match self.inflight.get(&key) {
            Some(InflightRequest::Complete) => true,
            _ => false,
        }
    }

    /// Forgets the ping registered under `(id, seq_num)`, as `ping` does on
    /// return or timeout; later matching replies then change nothing.
    pub fn remove_inflight(&mut self, id: u16, seq_num: u16)
        ensures
            final(self).inflight_spec() == old(self).inflight_spec().remove(ping_key(id, seq_num)),
            final(self).seq_spec() == old(self).seq_spec(),
            final(self).local_addr_spec() == old(self).local_addr_spec(),
    {
        let key: u32 = pack_ping_key(id, seq_num);
        let removed: Option<InflightRequest<W>> = self.inflight.remove(&key);
        proof {
            assert(self.inflight@ =~= old(self).inflight_spec().remove(key));
        }
    }
}

impl<W> SharedIcmpv4Peer<W> {
    /// One step of the background poll loop, given a parsed echo message.
    /// An echo request is answered with an echo reply carrying the same
    /// identifier and sequence number; an echo reply completes the matching
    /// inflight ping, whose waiters come back for the caller to wake.
    pub fn poll_step(&mut self, message: Icmpv4Type2) -> (r: (
        Option<Icmpv4Type2>,
        Option<SharedConditionVariable<W>>,
    ))
        ensures
            final(self).seq_spec() == old(self).seq_spec(),
            final(self).local_addr_spec() == old(self).local_addr_spec(),
            message matches Icmpv4Type2::EchoRequest { id, seq_num } ==> r == (
                Some(Icmpv4Type2::EchoReply { id, seq_num }),
                None::<SharedConditionVariable<W>>,
            ) && final(self).inflight_spec() == old(self).inflight_spec(),
            message matches Icmpv4Type2::EchoReply { id, seq_num } ==> {
                &&& r.0 is None
                &&& (old(self).inflight_spec().contains_key(ping_key(id, seq_num)) && old(self).inflight_spec()[ping_key(id, seq_num)] is Inflight) ==> r.1 == Some(
                    old(self).inflight_spec()[ping_key(id, seq_num)]->Inflight_0,
                ) && final(self).inflight_spec() == old(self).inflight_spec().insert(
                    ping_key(id, seq_num),
                    InflightRequest::Complete,
                )
                &&& !(old(self).inflight_spec().contains_key(ping_key(id, seq_num)) && old(self).inflight_spec()[ping_key(id, seq_num)] is Inflight) ==> r.1 is None && final(self).inflight_spec() == old(self).inflight_spec()
            },
    {
        match message {
            Icmpv4Type2::EchoRequest { id, seq_num } => (
                Some(Icmpv4Type2::EchoReply { id, seq_num }),
                None,
            ),
            Icmpv4Type2::EchoReply { id, seq_num } => (None, self.process_reply(id, seq_num)),
        }
    }

    /// Whether a polling `ping(id, seq_num)` returns now: it does exactly
    /// when its entry is gone or marked complete; while the entry is still
    /// inflight the ping keeps waiting.
    pub fn ping_wait_done(&self, id: u16, seq_num: u16) -> (r: bool)
        ensures
            r == !(self.inflight_spec().contains_key(ping_key(id, seq_num))
                && self.inflight_spec()[ping_key(id, seq_num)] is Inflight),
    {
        let key: u32 = pack_ping_key(id, seq_num);
        match self.inflight.get(&key) {
            Some(InflightRequest::Inflight(_)) => false,
            _ => true,
        }
    }
}

/// Builds the echo-request packet a ping transmits: a fixed-size payload
/// behind the echo header, with headroom left for the IPv4 and Ethernet
/// headers below.
pub fn build_ping_request(id: u16, seq_num: u16, headroom: u16) -> (r: Result<DemiBuffer, Fail>)
    requires
        ICMPV4_ECHO_REQUEST_MESSAGE_SIZE + headroom <= crate::demibuffer::MAX_BUFFER_CAPACITY,
        headroom >= ICMPV4_HEADER_SIZE,
    ensures
        r is Ok,
        r.unwrap().wf(),
        r.unwrap().bytes() == (Icmpv4Header {
            protocol: Icmpv4Type2::EchoRequest { id, seq_num },
            code: 0,
        }).wire_bytes(Seq::new(ICMPV4_ECHO_REQUEST_MESSAGE_SIZE as nat, |i: int| 0u8)) + Seq::new(
            ICMPV4_ECHO_REQUEST_MESSAGE_SIZE as nat,
            |i: int| 0u8,
        ),
{
    let mut pkt: DemiBuffer = DemiBuffer::new_with_headroom(
        ICMPV4_ECHO_REQUEST_MESSAGE_SIZE as u16,
        headroom,
    );
    let header: Icmpv4Header = Icmpv4Header::new(Icmpv4Type2::EchoRequest { id, seq_num }, 0);
    match header.serialize_and_attach(&mut pkt) {
        Ok(()) => Ok(pkt),
        Err(e) => Err(e),
    }
}

/// Packs a ping's `(id, seq)` pair into one table key.
pub fn pack_ping_key(id: u16, seq_num: u16) -> (r: u32)
    ensures
        r == ping_key(id, seq_num),
{
    0x10000u32 * (id as u32) + (seq_num as u32)
}

} // verus!
