//! Ethernet II framing: the 14-byte header is parsed and stripped from
//! ingress frames and prepended to egress frames, and ingress frames are
//! filtered by destination MAC.

use vstd::prelude::*;

use crate::demibuffer::DemiBuffer;
use crate::fail::{Fail, EINVAL, ENOTSUP};
use crate::net::MacAddress;

verus! {

/// Size of an Ethernet II header, in bytes.
pub const ETHERNET2_HEADER_SIZE: usize = 14;

/// Smallest Ethernet II payload; shorter frames are padded on the wire.
pub const MIN_PAYLOAD_SIZE: usize = 46;

/// The EtherType values the stack speaks.
#[derive(Clone, Copy, PartialEq, Eq, Structural, Hash, Debug)]
pub enum EtherType2 {
    Arp,
    Ipv4,
}

impl EtherType2 {
    /// The wire value of this EtherType.
    pub open spec fn value_spec(self) -> int {
        match self {
            EtherType2::Arp => 0x0806,
            EtherType2::Ipv4 => 0x0800,
        }
    }

    /// The wire value of this EtherType.
    pub fn value(self) -> (r: u16)
        ensures
            r == self.value_spec(),
    {
        match self {
            EtherType2::Arp => 0x0806,
            EtherType2::Ipv4 => 0x0800,
        }
    }
}

/// An Ethernet II header.
#[derive(Clone, Copy, Debug)]
pub struct Ethernet2Header {
    pub dst_addr: MacAddress,
    pub src_addr: MacAddress,
    pub ether_type: EtherType2,
}

impl Ethernet2Header {
    /// The header's bytes in wire order: destination, source, EtherType.
    pub open spec fn wire_bytes(self) -> Seq<u8> {
        self.dst_addr.bytes() + self.src_addr.bytes() + seq![
            ((self.ether_type.value_spec() / 256) as u8),
            ((self.ether_type.value_spec() % 256) as u8),
        ]
    }

    /// Builds a header.
    pub fn new(dst_addr: MacAddress, src_addr: MacAddress, ether_type: EtherType2) -> (r: Self)
        ensures
            r.dst_addr == dst_addr,
            r.src_addr == src_addr,
            r.ether_type == ether_type,
    {
        Ethernet2Header { dst_addr, src_addr, ether_type }
    }

    /// The destination MAC.
    pub fn dst_addr(&self) -> (r: MacAddress)
        ensures
            r == self.dst_addr,
    {
        self.dst_addr
    }

    /// The source MAC.
    pub fn src_addr(&self) -> (r: MacAddress)
        ensures
            r == self.src_addr,
    {
        self.src_addr
    }

    /// The EtherType.
    pub fn ether_type(&self) -> (r: EtherType2)
        ensures
            r == self.ether_type,
    {
        self.ether_type
    }

    /// Parses the header from the front of `pkt` and strips it.  Fails
    /// with `EINVAL`, leaving the packet unchanged, when the packet is too
    /// short, and with `ENOTSUP` when the EtherType is not spoken here.
    pub fn parse_and_strip(pkt: &mut DemiBuffer) -> (r: Result<Ethernet2Header, Fail>)
        requires
            old(pkt).wf(),
        ensures
            final(pkt).wf(),
            old(pkt).bytes().len() < ETHERNET2_HEADER_SIZE ==> r is Err && r.unwrap_err().errno
                == EINVAL && *final(pkt) == *old(pkt),
            old(pkt).bytes().len() >= ETHERNET2_HEADER_SIZE ==> {
                let ethertype = 256 * (old(pkt).bytes()[12] as int) + (old(pkt).bytes()[13] as int);
                &&& (ethertype == 0x0800 || ethertype == 0x0806) ==> {
                    &&& r is Ok
                    &&& r.unwrap().wire_bytes() == old(pkt).bytes().take(
                        ETHERNET2_HEADER_SIZE as int,
                    )
                    &&& r.unwrap().dst_addr.bytes() == old(pkt).bytes().take(6)
                    &&& r.unwrap().src_addr.bytes() == old(pkt).bytes().subrange(6, 12)
                    &&& (r.unwrap().ether_type is Ipv4 <==> ethertype == 0x0800)
                    &&& final(pkt).bytes() == old(pkt).bytes().skip(ETHERNET2_HEADER_SIZE as int)
                }
                &&& !(ethertype == 0x0800 || ethertype == 0x0806) ==> r is Err
                    && r.unwrap_err().errno == ENOTSUP && *final(pkt) == *old(pkt)
            },
    {
        if pkt.len() < ETHERNET2_HEADER_SIZE {
            return Err(Fail::new(EINVAL, "frame too small for an Ethernet header"));
        }
        let dst_addr = MacAddress::new(
            [pkt.byte_at(0), pkt.byte_at(1), pkt.byte_at(2), pkt.byte_at(3), pkt.byte_at(4),
                pkt.byte_at(5)],
        );
        let src_addr = MacAddress::new(
            [pkt.byte_at(6), pkt.byte_at(7), pkt.byte_at(8), pkt.byte_at(9), pkt.byte_at(10),
                pkt.byte_at(11)],
        );
        let ethertype_value: u16 = 256 * (pkt.byte_at(12) as u16) + (pkt.byte_at(13) as u16);
        let ether_type: EtherType2 = if ethertype_value == 0x0800 {
            EtherType2::Ipv4
        } else if ethertype_value == 0x0806 {
            EtherType2::Arp
        } else {
            return Err(Fail::new(ENOTSUP, "unsupported ethertype"));
        };
        let hdr = Ethernet2Header { dst_addr, src_addr, ether_type };
        let adjusted: Result<(), Fail> = pkt.adjust(ETHERNET2_HEADER_SIZE);
        proof {
            assert(adjusted is Ok);
            assert(hdr.dst_addr.bytes() =~= old(pkt).bytes().take(6));
            assert(hdr.src_addr.bytes() =~= old(pkt).bytes().subrange(6, 12));
            assert(hdr.wire_bytes() =~= old(pkt).bytes().take(ETHERNET2_HEADER_SIZE as int));
        }
        Ok(hdr)
    }

    /// Writes the header into the headroom in front of `pkt`'s payload.
    /// The packet must carry enough headroom for the 14 header bytes.
    pub fn serialize_and_attach(&self, pkt: &mut DemiBuffer) -> (r: Result<(), Fail>)
        requires
            old(pkt).wf(),
        ensures
            final(pkt).wf(),
            old(pkt).headroom_spec() < ETHERNET2_HEADER_SIZE ==> r is Err && r.unwrap_err().errno
                == EINVAL && *final(pkt) == *old(pkt),
            old(pkt).headroom_spec() >= ETHERNET2_HEADER_SIZE ==> r is Ok && final(pkt).bytes()
                == self.wire_bytes() + old(pkt).bytes(),
    {
        let tv: u16 = self.ether_type.value();
        let hdr: [u8; 14] = [self.dst_addr.octets[0], self.dst_addr.octets[1],
            self.dst_addr.octets[2], self.dst_addr.octets[3], self.dst_addr.octets[4],
            self.dst_addr.octets[5], self.src_addr.octets[0], self.src_addr.octets[1],
            self.src_addr.octets[2], self.src_addr.octets[3], self.src_addr.octets[4],
            self.src_addr.octets[5], (tv / 256) as u8, (tv % 256) as u8];
        proof {
            assert(hdr@ =~= self.wire_bytes());
        }
        let r = pkt.prepend_slice(hdr.as_slice());
        r
    }
}

/// Whether a frame's bytes begin with a parseable Ethernet header whose
/// EtherType the stack speaks.
pub open spec fn frame_parses(bytes: Seq<u8>) -> bool {
    &&& bytes.len() >= ETHERNET2_HEADER_SIZE
    &&& {
        let ethertype = 256 * (bytes[12] as int) + (bytes[13] as int);
        ethertype == 0x0800 || ethertype == 0x0806
    }
}

/// Whether a frame's destination MAC passes the ingress filter for a node
/// with address `local`: the local MAC itself, broadcast, or multicast.
pub open spec fn frame_accepted(local: MacAddress, bytes: Seq<u8>) -> bool {
    ||| bytes.take(6) == local.bytes()
    ||| bytes.take(6) == seq![0xffu8, 0xffu8, 0xffu8, 0xffu8, 0xffu8, 0xffu8]
    ||| bytes[0] & 0x01u8 == 0x01u8
}

/// Whether the layer-2 endpoint keeps an ingress frame: the destination is
/// the local MAC, broadcast, or multicast; anything else is dropped.
pub fn should_accept_frame(local: &MacAddress, dst: &MacAddress) -> (r: bool)
    ensures
        r == (local.bytes() == dst.bytes() || dst.bytes() == seq![
            0xffu8,
            0xffu8,
            0xffu8,
            0xffu8,
            0xffu8,
            0xffu8,
        ] || dst.bytes()[0] & 0x01u8 == 0x01u8),
{
    if local == dst {
        return true;
    }
    if dst.is_broadcast() {
        return true;
    }
    dst.is_multicast()
}

} // verus!

verus! {

/// The layer-2 endpoint: frames egress frames with the cached local MAC
/// and parses, filters, and strips ingress frames.
pub struct SharedLayer2Endpoint {
    /// The local interface's MAC address, cached for egress.
    local_link_addr: MacAddress,
}

impl SharedLayer2Endpoint {
    /// The cached local MAC.
    pub closed spec fn local_link_addr_spec(self) -> MacAddress {
        self.local_link_addr
    }

    /// Creates an endpoint for the interface with MAC `local_link_addr`.
    pub fn new(local_link_addr: MacAddress) -> (r: Self)
        ensures
            r.local_link_addr_spec() == local_link_addr,
    {
        SharedLayer2Endpoint { local_link_addr }
    }

    /// The local MAC used on egress frames.
    pub fn get_local_link_addr(&self) -> (r: MacAddress)
        ensures
            r == self.local_link_addr_spec(),
    {
        self.local_link_addr
    }

    /// Handles one ingress frame: parses and strips the Ethernet header and
    /// filters by destination MAC.  Exactly one of three things happens: a
    /// well-formed frame addressed here comes back as its EtherType and
    /// payload; a well-formed frame meant for someone else is dropped as
    /// `Ok(None)`; anything else is the parse error.
    pub fn receive(&mut self, pkt: DemiBuffer) -> (r: Result<
        Option<(EtherType2, DemiBuffer)>,
        Fail,
    >)
        requires
            pkt.wf(),
        ensures
            frame_parses(pkt.bytes()) && frame_accepted(
                old(self).local_link_addr_spec(),
                pkt.bytes(),
            ) ==> {
                &&& r matches Ok(Some((ether_type, payload)))
                &&& r.unwrap().unwrap().1.wf()
                &&& r.unwrap().unwrap().1.bytes() == pkt.bytes().skip(ETHERNET2_HEADER_SIZE as int)
                &&& (r.unwrap().unwrap().0 is Ipv4 <==> 256 * (pkt.bytes()[12] as int) + (
                pkt.bytes()[13] as int) == 0x0800)
            },
            frame_parses(pkt.bytes()) && !frame_accepted(
                old(self).local_link_addr_spec(),
                pkt.bytes(),
            ) ==> r matches Ok(None),
            !frame_parses(pkt.bytes()) ==> r is Err && (pkt.bytes().len() < ETHERNET2_HEADER_SIZE
                ==> r.unwrap_err().errno == EINVAL) && (pkt.bytes().len() >= ETHERNET2_HEADER_SIZE
                ==> r.unwrap_err().errno == ENOTSUP),
    {
        let mut frame = pkt;
        let header: Ethernet2Header = match Ethernet2Header::parse_and_strip(&mut frame) {
            Ok(header) => header,
            Err(e) => {
                return Err(e);
            },
        };
        let dst: MacAddress = header.dst_addr();
        proof {
            assert(dst.bytes()[0] == pkt.bytes().take(6)[0]);
        }
        if !should_accept_frame(&self.local_link_addr, &dst) {
            return Ok(None);
        }
        Ok(Some((header.ether_type(), frame)))
    }

    /// Frames one egress packet: the Ethernet header — remote, local,
    /// EtherType — goes into the packet's headroom, which must hold it.
    pub fn transmit(&mut self, remote_link_addr: MacAddress, ether_type: EtherType2, pkt:
        DemiBuffer) -> (r: Result<DemiBuffer, Fail>)
        requires
            pkt.wf(),
        ensures
            pkt.headroom_spec() >= ETHERNET2_HEADER_SIZE ==> {
                &&& r is Ok
                &&& r.unwrap().wf()
                &&& r.unwrap().bytes() == Ethernet2Header {
                    dst_addr: remote_link_addr,
                    src_addr: old(self).local_link_addr_spec(),
                    ether_type,
                }.wire_bytes() + pkt.bytes()
            },
            pkt.headroom_spec() < ETHERNET2_HEADER_SIZE ==> r is Err && r.unwrap_err().errno
                == EINVAL,
    {
        let header: Ethernet2Header = Ethernet2Header::new(
            remote_link_addr,
            self.local_link_addr,
            ether_type,
        );
        let mut framed = pkt;
        match header.serialize_and_attach(&mut framed) {
            Ok(()) => Ok(framed),
            Err(e) => Err(e),
        }
    }
}

} // verus!
