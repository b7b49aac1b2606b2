//! The IPv4 header: validated on ingress (version, header length, checksum,
//! total length) and built with a fresh checksum on egress.

use vstd::prelude::*;

use crate::checksum::{internet_checksum, internet_checksum_spec};
use crate::demibuffer::DemiBuffer;
use crate::fail::{Fail, EINVAL, ENOTSUP};
use crate::net::Ipv4Address;

verus! {

/// Size of an IPv4 header without options, in bytes.
pub const IPV4_HEADER_MIN_SIZE: usize = 20;

/// Time-to-live set on egress datagrams.
pub const DEFAULT_TTL: u8 = 64;

/// The transport protocols the stack demultiplexes.
#[derive(Clone, Copy, PartialEq, Eq, Structural, Hash, Debug)]
pub enum IpProtocol {
    Icmpv4,
    Tcp,
    Udp,
}

impl IpProtocol {
    /// The protocol's wire value.
    pub open spec fn value_spec(self) -> int {
        match self {
            IpProtocol::Icmpv4 => 1,
            IpProtocol::Tcp => 6,
            IpProtocol::Udp => 17,
        }
    }

    /// The protocol's wire value.
    pub fn value(self) -> (r: u8)
        ensures
            r == self.value_spec(),
    {
        match self {
            IpProtocol::Icmpv4 => 1,
            IpProtocol::Tcp => 6,
            IpProtocol::Udp => 17,
        }
    }
}

/// An IPv4 header without options.
#[derive(Clone, Copy, Debug)]
pub struct Ipv4Header {
    pub src_addr: Ipv4Address,
    pub dst_addr: Ipv4Address,
    pub protocol: IpProtocol,
    pub ttl: u8,
}

impl Ipv4Header {
    /// The header's bytes in wire order for a datagram of `total_len`
    /// bytes, with the checksum field holding `cksum`.
    pub open spec fn wire_bytes_with_checksum(self, total_len: int, cksum: int) -> Seq<u8> {
        seq![
            0x45u8,
            0x00u8,
            ((total_len / 256) as u8),
            ((total_len % 256) as u8),
            0x00u8,
            0x00u8,
            0x00u8,
            0x00u8,
            self.ttl,
            (self.protocol.value_spec() as u8),
            ((cksum / 256) as u8),
            ((cksum % 256) as u8),
        ] + self.src_addr.bytes() + self.dst_addr.bytes()
    }

    /// The header's bytes in wire order for a datagram of `total_len`
    /// bytes: the checksum field holds the internet checksum of the header
    /// taken with that field zeroed.
    pub open spec fn wire_bytes(self, total_len: int) -> Seq<u8> {
        self.wire_bytes_with_checksum(
            total_len,
            internet_checksum_spec(self.wire_bytes_with_checksum(total_len, 0)),
        )
    }

    /// Builds a header with the default time-to-live.
    pub fn new(src_addr: Ipv4Address, dst_addr: Ipv4Address, protocol: IpProtocol) -> (r: Self)
        ensures
            r.src_addr == src_addr,
            r.dst_addr == dst_addr,
            r.protocol == protocol,
            r.ttl == DEFAULT_TTL,
    {
        Ipv4Header { src_addr, dst_addr, protocol, ttl: DEFAULT_TTL }
    }

    /// The source address.
    pub fn get_src_addr(&self) -> (r: Ipv4Address)
        ensures
            r == self.src_addr,
    {
        self.src_addr
    }

    /// The destination address.
    pub fn get_dst_addr(&self) -> (r: Ipv4Address)
        ensures
            r == self.dst_addr,
    {
        self.dst_addr
    }

    /// The transport protocol.
    pub fn get_protocol(&self) -> (r: IpProtocol)
        ensures
            r == self.protocol,
    {
        self.protocol
    }

    /// Parses and validates the header at the front of `pkt` and strips
    /// it.  Rejected with `EINVAL`: a packet shorter than the header, a
    /// version other than 4, a total length that disagrees with the packet,
    /// or a bad header checksum.  Rejected with `ENOTSUP`: header options
    /// and unknown transport protocols.  The packet is unchanged on error.
    pub fn parse_and_strip(pkt: &mut DemiBuffer) -> (r: Result<Ipv4Header, Fail>)
        requires
            old(pkt).wf(),
        ensures
            final(pkt).wf(),
            r is Ok <==> {
                &&& old(pkt).bytes().len() >= IPV4_HEADER_MIN_SIZE
                &&& old(pkt).bytes()[0] == 0x45u8
                &&& 256 * (old(pkt).bytes()[2] as int) + (old(pkt).bytes()[3] as int) == old(
                    pkt,
                ).bytes().len()
                &&& internet_checksum_spec(old(pkt).bytes().take(IPV4_HEADER_MIN_SIZE as int))
                    == 0
                &&& (old(pkt).bytes()[9] == 1 || old(pkt).bytes()[9] == 6 || old(pkt).bytes()[9]
                    == 17)
            },
            r is Ok ==> {
                &&& old(pkt).bytes().len() >= IPV4_HEADER_MIN_SIZE
                &&& final(pkt).bytes() == old(pkt).bytes().skip(IPV4_HEADER_MIN_SIZE as int)
                &&& r.unwrap().src_addr.bytes() == old(pkt).bytes().subrange(12, 16)
                &&& r.unwrap().dst_addr.bytes() == old(pkt).bytes().subrange(16, 20)
                &&& r.unwrap().protocol.value_spec() == old(pkt).bytes()[9]
                &&& r.unwrap().ttl == old(pkt).bytes()[8]
                &&& internet_checksum_spec(old(pkt).bytes().take(IPV4_HEADER_MIN_SIZE as int))
                    == 0
                &&& 256 * (old(pkt).bytes()[2] as int) + (old(pkt).bytes()[3] as int) == old(
                    pkt,
                ).bytes().len()
            },
            r is Err ==> *final(pkt) == *old(pkt),
    {
        if pkt.len() < IPV4_HEADER_MIN_SIZE {
            return Err(Fail::new(EINVAL, "datagram too small for an IPv4 header"));
        }
        let version_ihl: u8 = pkt.byte_at(0);
        if version_ihl / 16 != 4 {
            return Err(Fail::new(EINVAL, "not an IPv4 datagram"));
        }
        if version_ihl % 16 != 5 {
            return Err(Fail::new(ENOTSUP, "IPv4 options are not supported"));
        }
        let total_len: usize = 256 * (pkt.byte_at(2) as usize) + (pkt.byte_at(3) as usize);
        if total_len != pkt.len() {
            return Err(Fail::new(EINVAL, "IPv4 total length disagrees with the packet"));
        }
        // Validate the header checksum: summing the header with its
        // checksum field in place must complement to zero.
        let header: Vec<u8> = take_front(pkt, IPV4_HEADER_MIN_SIZE);
        let cksum: u16 = internet_checksum(header.as_slice());
        proof {
            assert(header@ =~= old(pkt).bytes().take(IPV4_HEADER_MIN_SIZE as int));
        }
        if cksum != 0 {
            return Err(Fail::new(EINVAL, "bad IPv4 header checksum"));
        }
        let protocol: IpProtocol = match pkt.byte_at(9) {
            1u8 => IpProtocol::Icmpv4,
            6u8 => IpProtocol::Tcp,
            17u8 => IpProtocol::Udp,
            _ => {
                return Err(Fail::new(ENOTSUP, "unsupported transport protocol"));
            },
        };
        let src_addr = Ipv4Address::new(
            pkt.byte_at(12),
            pkt.byte_at(13),
            pkt.byte_at(14),
            pkt.byte_at(15),
        );
        let dst_addr = Ipv4Address::new(
            pkt.byte_at(16),
            pkt.byte_at(17),
            pkt.byte_at(18),
            pkt.byte_at(19),
        );
        let ttl: u8 = pkt.byte_at(8);
        let hdr = Ipv4Header { src_addr, dst_addr, protocol, ttl };
        let adjusted: Result<(), Fail> = pkt.adjust(IPV4_HEADER_MIN_SIZE);
        proof {
            assert(adjusted is Ok);
            assert(hdr.src_addr.bytes() =~= old(pkt).bytes().subrange(12, 16));
            assert(hdr.dst_addr.bytes() =~= old(pkt).bytes().subrange(16, 20));
        }
        Ok(hdr)
    }

    /// Writes the header, checksum included, into the headroom in front of
    /// `pkt`'s payload.  The packet must carry 20 bytes of headroom and the
    /// resulting datagram must fit the 16-bit total-length field.
    pub fn serialize_and_attach(&self, pkt: &mut DemiBuffer) -> (r: Result<(), Fail>)
        requires
            old(pkt).wf(),
            old(pkt).len_spec() + IPV4_HEADER_MIN_SIZE < 0x10000,
        ensures
            final(pkt).wf(),
            old(pkt).headroom_spec() < IPV4_HEADER_MIN_SIZE ==> r is Err && r.unwrap_err().errno
                == EINVAL && *final(pkt) == *old(pkt),
            old(pkt).headroom_spec() >= IPV4_HEADER_MIN_SIZE ==> r is Ok && final(pkt).bytes()
                == self.wire_bytes(old(pkt).bytes().len() + IPV4_HEADER_MIN_SIZE) + old(
                pkt,
            ).bytes(),
    {
        let total_len: u16 = (pkt.len() + IPV4_HEADER_MIN_SIZE) as u16;
        let mut hdr: Vec<u8> = vec![0x45u8, 0x00u8, (total_len / 256) as u8, (
        total_len % 256) as u8, 0x00u8, 0x00u8, 0x00u8, 0x00u8, self.ttl, self.protocol.value(),
            0x00u8, 0x00u8, self.src_addr.octets[0], self.src_addr.octets[1],
            self.src_addr.octets[2], self.src_addr.octets[3], self.dst_addr.octets[0],
            self.dst_addr.octets[1], self.dst_addr.octets[2], self.dst_addr.octets[3]];
        proof {
            assert(hdr@ =~= self.wire_bytes_with_checksum(total_len as int, 0));
        }
        let cksum: u16 = internet_checksum(hdr.as_slice());
        hdr.set(10, (cksum / 256) as u8);
        hdr.set(11, (cksum % 256) as u8);
        proof {
            assert(hdr@ =~= self.wire_bytes(total_len as int));
        }
        let r = pkt.prepend_slice(hdr.as_slice());
        r
    }
}

/// Copies the first `n` payload bytes of `pkt` out as a vector; the packet
/// itself is unchanged.
pub fn take_front(pkt: &DemiBuffer, n: usize) -> (r: Vec<u8>)
    requires
        pkt.wf(),
        n <= pkt.len_spec(),
    ensures
        r@ == pkt.bytes().take(n as int),
{
    proof {
        pkt.lemma_bytes_len();
    }
    let mut r: Vec<u8> = Vec::new();
    let mut i: usize = 0;
    while i < n
        invariant
            pkt.wf(),
            i <= n,
            n <= pkt.len_spec(),
            pkt.bytes().len() == pkt.len_spec(),
            r@ =~= pkt.bytes().take(i as int),
        decreases n - i,
    {
        r.push(pkt.byte_at(i));
        i = i + 1;
    }
    proof {
        assert(r@ =~= pkt.bytes().take(n as int));
    }
    r
}

} // verus!
