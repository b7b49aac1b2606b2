//! UDP: the 8-byte header and the per-socket state — a bound local address
//! and a FIFO receive queue of datagrams.  `push` builds the outgoing
//! datagram for the network layer to transmit; `pop` hands out the oldest
//! received one, truncated to the caller's size.

use vstd::prelude::*;

use crate::checksum::{internet_checksum, internet_checksum_spec};
use crate::demibuffer::DemiBuffer;
use crate::fail::{Fail, EINVAL, ENOTSUP};
use crate::net::{Ipv4Address, SocketAddress};

verus! {

/// Size of a UDP header, in bytes.
pub const UDP_HEADER_SIZE: usize = 8;

/// A UDP header.
#[derive(Clone, Copy, Debug)]
pub struct UdpHeader {
    pub src_port: u16,
    pub dst_port: u16,
}

impl UdpHeader {
    /// The header's bytes in wire order for a datagram carrying
    /// `payload_len` payload bytes, with the checksum field holding
    /// `cksum`.
    pub open spec fn wire_bytes_with_checksum(self, payload_len: int, cksum: int) -> Seq<u8> {
        seq![
            ((self.src_port as int / 256) as u8),
            ((self.src_port as int % 256) as u8),
            ((self.dst_port as int / 256) as u8),
            ((self.dst_port as int % 256) as u8),
            (((payload_len + UDP_HEADER_SIZE) / 256) as u8),
            (((payload_len + UDP_HEADER_SIZE) % 256) as u8),
            ((cksum / 256) as u8),
            ((cksum % 256) as u8),
        ]
    }

    /// The pseudo-header the UDP checksum covers: addresses, protocol, and
    /// datagram length.
    pub open spec fn pseudo_header(src: Ipv4Address, dst: Ipv4Address, length: int) -> Seq<u8> {
        src.bytes() + dst.bytes() + seq![
            0u8,
            17u8,
            ((length / 256) as u8),
            ((length % 256) as u8),
        ]
    }

    /// The checksum carried by a datagram with `payload` sent from `src` to
    /// `dst`: zero when left to hardware offload, else the internet
    /// checksum over the pseudo-header and the datagram, a computed zero
    /// sent as all ones.
    pub open spec fn checksum_value(
        self,
        payload: Seq<u8>,
        src: Ipv4Address,
        dst: Ipv4Address,
        checksum_offload: bool,
    ) -> int {
        if checksum_offload {
            0
        } else {
            let computed = internet_checksum_spec(
                Self::pseudo_header(src, dst, payload.len() + UDP_HEADER_SIZE)
                    + self.wire_bytes_with_checksum(payload.len() as int, 0) + payload,
            );
            if computed == 0 {
                0xFFFF
            } else {
                computed
            }
        }
    }

    /// The header's bytes in wire order in front of `payload`, sent from
    /// `src` to `dst`.
    pub open spec fn wire_bytes(
        self,
        payload: Seq<u8>,
        src: Ipv4Address,
        dst: Ipv4Address,
        checksum_offload: bool,
    ) -> Seq<u8> {
        self.wire_bytes_with_checksum(
            payload.len() as int,
            self.checksum_value(payload, src, dst, checksum_offload),
        )
    }

    /// Builds a header.
    pub fn new(src_port: u16, dst_port: u16) -> (r: Self)
        ensures
            r.src_port == src_port,
            r.dst_port == dst_port,
    {
        UdpHeader { src_port, dst_port }
    }

    /// Parses the header at the front of `pkt` and strips it.  Fails with
    /// `EINVAL`, leaving the packet unchanged, when the packet is shorter
    /// than the header or its length field disagrees with the packet.
    pub fn parse_and_strip(pkt: &mut DemiBuffer) -> (r: Result<UdpHeader, Fail>)
        requires
            old(pkt).wf(),
        ensures
            final(pkt).wf(),
            r is Ok <==> old(pkt).bytes().len() >= UDP_HEADER_SIZE && 256 * (old(
                pkt,
            ).bytes()[4] as int) + (old(pkt).bytes()[5] as int) == old(pkt).bytes().len(),
            r is Ok ==> {
                &&& r.unwrap().src_port == 256 * (old(pkt).bytes()[0] as int) + (old(
                    pkt,
                ).bytes()[1] as int)
                &&& r.unwrap().dst_port == 256 * (old(pkt).bytes()[2] as int) + (old(
                    pkt,
                ).bytes()[3] as int)
                &&& final(pkt).bytes() == old(pkt).bytes().skip(UDP_HEADER_SIZE as int)
            },
            r is Err ==> r.unwrap_err().errno == EINVAL && *final(pkt) == *old(pkt),
    {
        if pkt.len() < UDP_HEADER_SIZE {
            return Err(Fail::new(EINVAL, "datagram too small for a UDP header"));
        }
        let length: usize = 256 * (pkt.byte_at(4) as usize) + (pkt.byte_at(5) as usize);
        if length != pkt.len() {
            return Err(Fail::new(EINVAL, "UDP length disagrees with the packet"));
        }
        let src_port: u16 = 256 * (pkt.byte_at(0) as u16) + (pkt.byte_at(1) as u16);
        let dst_port: u16 = 256 * (pkt.byte_at(2) as u16) + (pkt.byte_at(3) as u16);
        let adjusted: Result<(), Fail> = pkt.adjust(UDP_HEADER_SIZE);
        proof {
            assert(adjusted is Ok);
        }
        Ok(UdpHeader { src_port, dst_port })
    }

    /// Writes the header into the headroom in front of `pkt`'s payload,
    /// computing the checksum over the pseudo-header and datagram unless it
    /// is left to hardware offload.  The datagram, header included, must
    /// fit the 16-bit length field, and the packet must carry 8 bytes of
    /// headroom.
    pub fn serialize_and_attach(
        &self,
        pkt: &mut DemiBuffer,
        src: &Ipv4Address,
        dst: &Ipv4Address,
        checksum_offload: bool,
    ) -> (r: Result<(), Fail>)
        requires
            old(pkt).wf(),
            old(pkt).len_spec() + UDP_HEADER_SIZE < 0x10000,
        ensures
            final(pkt).wf(),
            old(pkt).headroom_spec() < UDP_HEADER_SIZE ==> r is Err && r.unwrap_err().errno
                == EINVAL && *final(pkt) == *old(pkt),
            old(pkt).headroom_spec() >= UDP_HEADER_SIZE ==> r is Ok && final(pkt).bytes()
                == self.wire_bytes(old(pkt).bytes(), *src, *dst, checksum_offload) + old(
                pkt,
            ).bytes(),
    {
        proof {
            old(pkt).lemma_bytes_len();
        }
        let length: u16 = (pkt.len() + UDP_HEADER_SIZE) as u16;
        let cksum: u16 = if checksum_offload {
            0
        } else {
            // The checksum covers the pseudo-header, the header with a zero
            // checksum field, and the payload.
            let mut covered: Vec<u8> = vec![src.octets[0], src.octets[1], src.octets[2],
                src.octets[3], dst.octets[0], dst.octets[1], dst.octets[2], dst.octets[3], 0u8,
                17u8, (length / 256) as u8, (length % 256) as u8, (self.src_port / 256) as u8, (
            self.src_port % 256) as u8, (self.dst_port / 256) as u8, (self.dst_port % 256) as u8, (
            length / 256) as u8, (length % 256) as u8, 0u8, 0u8];
            proof {
                assert(covered@ =~= Self::pseudo_header(
                    *src,
                    *dst,
                    old(pkt).bytes().len() + UDP_HEADER_SIZE,
                ) + self.wire_bytes_with_checksum(old(pkt).bytes().len() as int, 0));
            }
            let payload: Vec<u8> = pkt.to_bytes();
            let mut i: usize = 0;
            let n: usize = payload.len();
            while i < n
                invariant
                    i <= n,
                    n == payload@.len(),
                    covered@ =~= Self::pseudo_header(
                        *src,
                        *dst,
                        old(pkt).bytes().len() + UDP_HEADER_SIZE,
                    ) + self.wire_bytes_with_checksum(old(pkt).bytes().len() as int, 0)
                        + payload@.take(i as int),
                decreases n - i,
            {
                covered.push(payload[i]);
                i = i + 1;
            }
            proof {
                assert(covered@ =~= Self::pseudo_header(
                    *src,
                    *dst,
                    old(pkt).bytes().len() + UDP_HEADER_SIZE,
                ) + self.wire_bytes_with_checksum(old(pkt).bytes().len() as int, 0) + old(
                    pkt,
                ).bytes());
            }
            let computed: u16 = internet_checksum(covered.as_slice());
            if computed == 0 {
                0xFFFF
            } else {
                computed
            }
        };
        let hdr: Vec<u8> = vec![(self.src_port / 256) as u8, (self.src_port % 256) as u8, (
        self.dst_port / 256) as u8, (self.dst_port % 256) as u8, (length / 256) as u8, (length
            % 256) as u8, (cksum / 256) as u8, (cksum % 256) as u8];
        proof {
            assert(hdr@ =~= self.wire_bytes(old(pkt).bytes(), *src, *dst, checksum_offload));
        }
        let r = pkt.prepend_slice(hdr.as_slice());
        r
    }
}

/// A UDP socket: its bound address and its receive queue, oldest first.
pub struct SharedUdpSocket {
    /// The local interface address the socket sends from.
    local_ipv4_addr: Ipv4Address,
    /// The address the socket is bound to, if any.
    bound: Option<SocketAddress>,
    /// Received datagrams not yet popped, oldest first.
    recv_queue: Vec<(SocketAddress, DemiBuffer)>,
    /// Whether checksum computation is left to the hardware.
    checksum_offload: bool,
}

impl SharedUdpSocket {
    /// The address the socket is bound to, if any.
    pub closed spec fn bound_spec(self) -> Option<SocketAddress> {
        self.bound
    }

    /// Received datagrams not yet popped, oldest first.
    pub closed spec fn recv_queue_spec(self) -> Seq<(SocketAddress, DemiBuffer)> {
        self.recv_queue@
    }

    /// The local interface address.
    pub closed spec fn local_addr_spec(self) -> Ipv4Address {
        self.local_ipv4_addr
    }

    /// Whether checksum computation is left to the hardware.
    pub closed spec fn checksum_offload_spec(self) -> bool {
        self.checksum_offload
    }

    /// Every queued datagram is a well-formed buffer.
    pub open spec fn wf(self) -> bool {
        forall|k: int|
            0 <= k < self.recv_queue_spec().len() ==> (#[trigger] self.recv_queue_spec()[k]).1.wf()
    }

    /// Creates an unbound socket with an empty receive queue.
    pub fn new(local_ipv4_addr: Ipv4Address, checksum_offload: bool) -> (r: Self)
        ensures
            r.wf(),
            r.bound_spec() is None,
            r.recv_queue_spec() == Seq::<(SocketAddress, DemiBuffer)>::empty(),
            r.local_addr_spec() == local_ipv4_addr,
    {
        SharedUdpSocket { local_ipv4_addr, bound: None, recv_queue: Vec::new(), checksum_offload }
    }

    /// Binds the socket to `local`.
    pub fn bind(&mut self, local: SocketAddress) -> (r: Result<(), Fail>)
        ensures
            r is Ok,
            final(self).bound_spec() == Some(local),
            final(self).recv_queue_spec() == old(self).recv_queue_spec(),
            final(self).local_addr_spec() == old(self).local_addr_spec(),
            final(self).wf() == old(self).wf(),
    {
        self.bound = Some(local);
        Ok(())
    }

    /// Whether the socket is bound.
    pub fn is_bound(&self) -> (r: bool)
        ensures
            r == (self.bound_spec() is Some),
    {
        self.bound.is_some()
    }

    /// The address the socket is bound to.
    pub fn local(&self) -> (r: Option<SocketAddress>)
        ensures
            r == self.bound_spec(),
    {
        self.bound
    }

    /// The peer address; always `None`, as these sockets are unconnected.
    pub fn remote(&self) -> (r: Option<SocketAddress>)
        ensures
            r is None,
    {
        None
    }

    /// Builds the outgoing datagram for a send of `buf` to `remote`: the
    /// UDP header is attached in front of the payload, ready for the
    /// network layer.  Fails with `ENOTSUP` when no remote is given or the
    /// socket is not bound, and with `EINVAL` when the datagram cannot be
    /// framed; the payload must leave room for the header.
    pub fn push(&mut self, remote: Option<SocketAddress>, buf: DemiBuffer) -> (r: Result<
        DemiBuffer,
        Fail,
    >)
        requires
            buf.wf(),
            buf.len_spec() + UDP_HEADER_SIZE < 0x10000,
        ensures
            *final(self) == *old(self),
            remote is None ==> r is Err && r.unwrap_err().errno == ENOTSUP,
            remote is Some && old(self).bound_spec() is None ==> r is Err && r.unwrap_err().errno
                == ENOTSUP,
            remote is Some && old(self).bound_spec() is Some ==> {
                &&& buf.headroom_spec() >= UDP_HEADER_SIZE ==> {
                    &&& r is Ok
                    &&& r.unwrap().wf()
                    &&& r.unwrap().bytes() == UdpHeader {
                        src_port: old(self).bound_spec().unwrap().port,
                        dst_port: remote.unwrap().port,
                    }.wire_bytes(
                        buf.bytes(),
                        old(self).local_addr_spec(),
                        remote.unwrap().ip,
                        old(self).checksum_offload_spec(),
                    ) + buf.bytes()
                }
                &&& buf.headroom_spec() < UDP_HEADER_SIZE ==> r is Err && r.unwrap_err().errno
                    == EINVAL
            },
    {
        let remote: SocketAddress = match remote {
            Some(remote) => remote,
            None => {
                return Err(Fail::new(ENOTSUP, "udp socket requires a remote address"));
            },
        };
        let port: u16 = match &self.bound {
            Some(addr) => addr.port,
            None => {
                return Err(Fail::new(ENOTSUP, "queue is not bound"));
            },
        };
        let udp_header: UdpHeader = UdpHeader::new(port, remote.port);
        let mut datagram: DemiBuffer = buf;
        match udp_header.serialize_and_attach(
            &mut datagram,
            &self.local_ipv4_addr,
            &remote.ip,
            self.checksum_offload,
        ) {
            Ok(()) => Ok(datagram),
            Err(e) => Err(e),
        }
    }

    /// Hands out the oldest received datagram, truncated to at most `size`
    /// bytes; `None` when nothing has been received, upon which the caller
    /// suspends until `receive` runs.
    pub fn pop(&mut self, size: usize) -> (r: Option<(SocketAddress, DemiBuffer)>)
        requires
            old(self).wf(),
        ensures
            final(self).wf(),
            final(self).bound_spec() == old(self).bound_spec(),
            final(self).local_addr_spec() == old(self).local_addr_spec(),
            old(self).recv_queue_spec().len() == 0 ==> r is None && final(self).recv_queue_spec()
                == old(self).recv_queue_spec(),
            old(self).recv_queue_spec().len() > 0 ==> {
                &&& final(self).recv_queue_spec() == old(self).recv_queue_spec().skip(1)
                &&& r is Some
                &&& r.unwrap().0 == old(self).recv_queue_spec()[0].0
                &&& r.unwrap().1.wf()
                &&& r.unwrap().1.bytes() == old(self).recv_queue_spec()[0].1.bytes().take(
                    vstd::math::min(size as int, old(self).recv_queue_spec()[0].1.bytes().len() as int),
                )
            },
    {
        if self.recv_queue.len() == 0 {
            return None;
        }
        let (remote, mut buf) = self.recv_queue.remove(0);
        proof {
            assert(self.recv_queue@ =~= old(self).recv_queue_spec().skip(1));
            assert forall|k: int|
                0 <= k < self.recv_queue_spec().len() implies (
            #[trigger] self.recv_queue_spec()[k]).1.wf() by {
                assert(self.recv_queue_spec()[k] == old(self).recv_queue_spec()[k + 1]);
            }
            buf.lemma_bytes_len();
        }
        if size < buf.len() {
            let excess: usize = buf.len() - size;
            let trimmed: Result<(), Fail> = buf.trim(excess);
            proof {
                assert(trimmed is Ok);
            }
        } else {
            proof {
                assert(buf.bytes() =~= buf.bytes().take(buf.bytes().len() as int));
            }
        }
        Some((remote, buf))
    }

    /// Queues a received datagram behind the ones already waiting.
    pub fn receive(&mut self, remote: SocketAddress, buf: DemiBuffer)
        requires
            old(self).wf(),
            buf.wf(),
        ensures
            final(self).wf(),
            final(self).recv_queue_spec() == old(self).recv_queue_spec().push((remote, buf)),
            final(self).bound_spec() == old(self).bound_spec(),
            final(self).local_addr_spec() == old(self).local_addr_spec(),
    {
        self.recv_queue.push((remote, buf));
        proof {
            assert forall|k: int|
                0 <= k < self.recv_queue_spec().len() implies (
            #[trigger] self.recv_queue_spec()[k]).1.wf() by {
                if k < old(self).recv_queue_spec().len() {
                    assert(self.recv_queue_spec()[k] == old(self).recv_queue_spec()[k]);
                } else {
                    assert(self.recv_queue_spec()[k] == (remote, buf));
                }
            }
        }
    }
}

} // verus!
