//! Protocol behavior: checksums, Ethernet and IPv4 framing, UDP, ICMP
//! echo, ARP coalescing, the TCP shutdown machine, the RTO estimator, and
//! the runtime's clock and tables.

use demikernel::arp::{reply_for, ArpHeader, ArpOperation, ArpQueryStep, SharedArpPeer};
use demikernel::checksum::internet_checksum;
use demikernel::condition_variable::SharedConditionVariable;
use demikernel::demibuffer::DemiBuffer;
use demikernel::eth::{
    should_accept_frame, EtherType2, Ethernet2Header, SharedLayer2Endpoint, ETHERNET2_HEADER_SIZE,
};
use demikernel::fail::{EBADF, EINVAL, ENOTSUP};
use demikernel::icmp::{
    build_ping_request, compute_ping_id, Icmpv4Header, Icmpv4Type2, SharedIcmpv4Peer,
};
use demikernel::ipv4::{IpProtocol, Ipv4Header, IPV4_HEADER_MIN_SIZE};
use demikernel::net::{Ipv4Address, MacAddress, SocketAddress};
use demikernel::queue::{IoQueueTable, QDesc, QType};
use demikernel::runtime::{SharedDemiRuntime, SocketId, Timer};
use demikernel::scheduler::SchedulerId;
use demikernel::tcp::{
    transition, validate_window, Receiver, RtoCalculator, Sender, SharedEstablishedSocket, State,
    TcpAction, TcpEvent,
};
use demikernel::udp::SharedUdpSocket;

// The internet checksum of a textbook example, and its self-check to zero.
#[test]
fn checksum_known_value() {
    // Example header from the checksum literature.
    let header: [u8; 20] = [
        0x45, 0x00, 0x00, 0x73, 0x00, 0x00, 0x40, 0x00, 0x40, 0x11, 0x00, 0x00, 0xc0, 0xa8, 0x00,
        0x01, 0xc0, 0xa8, 0x00, 0xc7,
    ];
    let cksum: u16 = internet_checksum(&header);
    assert_eq!(cksum, 0xb861);
    let mut with_cksum: [u8; 20] = header;
    with_cksum[10] = 0xb8;
    with_cksum[11] = 0x61;
    assert_eq!(internet_checksum(&with_cksum), 0);
}

// An Ethernet header round-trips through attach and parse.
#[test]
fn ethernet_header_round_trip() {
    let dst: MacAddress = MacAddress::new([2, 2, 2, 2, 2, 2]);
    let src: MacAddress = MacAddress::new([4, 4, 4, 4, 4, 4]);
    let hdr: Ethernet2Header = Ethernet2Header::new(dst, src, EtherType2::Ipv4);
    let mut pkt: DemiBuffer =
        DemiBuffer::from_slice_with_headroom(&[9u8, 8, 7], ETHERNET2_HEADER_SIZE).unwrap();
    assert!(hdr.serialize_and_attach(&mut pkt).is_ok());
    assert_eq!(pkt.len(), 17);
    let parsed: Ethernet2Header = Ethernet2Header::parse_and_strip(&mut pkt).unwrap();
    assert_eq!(parsed.dst_addr(), dst);
    assert_eq!(parsed.src_addr(), src);
    assert_eq!(parsed.ether_type(), EtherType2::Ipv4);
    assert_eq!(pkt.to_bytes(), vec![9u8, 8, 7]);
}

// Frames are kept for the local MAC, broadcast, and multicast, and dropped
// otherwise.
#[test]
fn frame_filter() {
    let local: MacAddress = MacAddress::new([2, 0, 0, 0, 0, 1]);
    assert!(should_accept_frame(&local, &MacAddress::new([2, 0, 0, 0, 0, 1])));
    assert!(should_accept_frame(&local, &MacAddress::new([0xff; 6])));
    assert!(should_accept_frame(&local, &MacAddress::new([0x01, 0, 0x5e, 0, 0, 1])));
    assert!(!should_accept_frame(&local, &MacAddress::new([2, 0, 0, 0, 0, 2])));
}

// An IPv4 header round-trips through attach and parse, checksum included;
// tampering breaks the checksum.
#[test]
fn ipv4_header_round_trip() {
    let src: Ipv4Address = Ipv4Address::new(10, 0, 0, 1);
    let dst: Ipv4Address = Ipv4Address::new(10, 0, 0, 2);
    let hdr: Ipv4Header = Ipv4Header::new(src, dst, IpProtocol::Udp);
    let payload: [u8; 4] = [0xde, 0xad, 0xbe, 0xef];
    let mut pkt: DemiBuffer =
        DemiBuffer::from_slice_with_headroom(&payload, IPV4_HEADER_MIN_SIZE).unwrap();
    assert!(hdr.serialize_and_attach(&mut pkt).is_ok());
    assert_eq!(pkt.len(), 24);
    let mut tampered: DemiBuffer = pkt.clone();

    let parsed: Ipv4Header = Ipv4Header::parse_and_strip(&mut pkt).unwrap();
    assert_eq!(parsed.get_src_addr(), src);
    assert_eq!(parsed.get_dst_addr(), dst);
    assert_eq!(parsed.get_protocol(), IpProtocol::Udp);
    assert_eq!(pkt.to_bytes().as_slice(), &payload);

    tampered.write_byte(8, 7);
    let r = Ipv4Header::parse_and_strip(&mut tampered);
    assert!(r.is_err());
    assert_eq!(r.unwrap_err().errno, EINVAL);
}

// UDP push refuses an unbound socket and a missing remote, then frames the
// datagram; pop truncates to the asked size.
#[test]
fn udp_push_and_pop() {
    let local_ip: Ipv4Address = Ipv4Address::new(10, 0, 0, 1);
    let mut socket: SharedUdpSocket = SharedUdpSocket::new(local_ip, true);
    let remote: SocketAddress = SocketAddress::new(Ipv4Address::new(10, 0, 0, 2), 4000);

    let payload: DemiBuffer = DemiBuffer::from_slice_with_headroom(&[0x65u8; 8], 8).unwrap();
    let r = socket.push(Some(remote), payload.clone());
    assert!(r.is_err());
    assert_eq!(r.unwrap_err().errno, ENOTSUP);

    assert!(socket.bind(SocketAddress::new(local_ip, 4000)).is_ok());
    assert!(socket.is_bound());
    let r = socket.push(None, payload.clone());
    assert!(r.is_err());
    assert_eq!(r.unwrap_err().errno, ENOTSUP);

    let datagram: DemiBuffer = socket.push(Some(remote), payload).unwrap();
    // 8 header bytes in front of 8 payload bytes; ports and length in place.
    let bytes: Vec<u8> = datagram.to_bytes();
    assert_eq!(bytes.len(), 16);
    assert_eq!(&bytes[0..2], &[0x0f, 0xa0]);
    assert_eq!(&bytes[2..4], &[0x0f, 0xa0]);
    assert_eq!(&bytes[4..6], &[0x00, 0x10]);
    assert_eq!(&bytes[8..], &[0x65u8; 8]);

    // Receive two datagrams and pop them back in order, truncated.
    assert!(socket.pop(100).is_none());
    let first: DemiBuffer = DemiBuffer::from_slice(&[1u8, 2, 3, 4]).unwrap();
    let second: DemiBuffer = DemiBuffer::from_slice(&[5u8, 6]).unwrap();
    socket.receive(remote, first);
    socket.receive(remote, second);
    let (from, data) = socket.pop(3).unwrap();
    assert_eq!(from, remote);
    assert_eq!(data.to_bytes(), vec![1u8, 2, 3]);
    let (_, data) = socket.pop(100).unwrap();
    assert_eq!(data.to_bytes(), vec![5u8, 6]);
}

// The UDP echo exchange: 64 datagrams of 64 bytes of 0x65 pass through a
// socket's receive queue and come back out intact.
#[test]
fn udp_ping_pong_datagrams() {
    let client_ip: Ipv4Address = Ipv4Address::new(10, 0, 0, 1);
    let server: SocketAddress = SocketAddress::new(Ipv4Address::new(10, 0, 0, 2), 4000);
    let mut socket: SharedUdpSocket = SharedUdpSocket::new(client_ip, true);
    assert!(socket.bind(SocketAddress::new(client_ip, 4000)).is_ok());
    for _ in 0..64 {
        let echoed: DemiBuffer = DemiBuffer::from_slice(&[0x65u8; 64]).unwrap();
        socket.receive(server, echoed);
    }
    for _ in 0..64 {
        let (from, data) = socket.pop(64).unwrap();
        assert_eq!(from, server);
        assert_eq!(data.to_bytes(), vec![0x65u8; 64]);
    }
    assert!(socket.pop(64).is_none());
}

// An ICMP echo header round-trips through attach and parse.
#[test]
fn icmp_header_round_trip() {
    let hdr: Icmpv4Header =
        Icmpv4Header::new(Icmpv4Type2::EchoRequest { id: 0x1234, seq_num: 7 }, 0);
    let mut pkt: DemiBuffer = DemiBuffer::from_slice_with_headroom(&[0xaau8; 4], 8).unwrap();
    assert!(hdr.serialize_and_attach(&mut pkt).is_ok());
    let parsed: Icmpv4Header = Icmpv4Header::parse_and_strip(&mut pkt).unwrap();
    match parsed.get_protocol() {
        Icmpv4Type2::EchoRequest { id, seq_num } => {
            assert_eq!(id, 0x1234);
            assert_eq!(seq_num, 7);
        },
        _ => panic!("parsed the wrong ICMP message"),
    }
    assert_eq!(pkt.to_bytes(), vec![0xaau8; 4]);
}

// The ping identifier folds the address, process id, and nonce; a changed
// nonce changes the identifier.
#[test]
fn ping_id_depends_on_nonce() {
    let local: Ipv4Address = Ipv4Address::new(192, 168, 0, 1);
    let a: u16 = compute_ping_id(&local, 4242, 0);
    let b: u16 = compute_ping_id(&local, 4242, 1);
    assert_ne!(a, b);
    // The peer's identifier generator runs the real nonce source.
    let mut peer: SharedIcmpv4Peer<u64> = SharedIcmpv4Peer::new(local, [9u8; 32]);
    let _ = peer.make_id(4242);
}

// A reply carrying an inflight (id, seq) completes the ping and wakes the
// waiter; a late or unknown reply is ignored without harm.
#[test]
fn ping_reply_completes_inflight_and_ignores_unknown() {
    let local: Ipv4Address = Ipv4Address::new(10, 0, 0, 1);
    let mut peer: SharedIcmpv4Peer<u64> = SharedIcmpv4Peer::new(local, [1u8; 32]);
    let seq: u16 = peer.make_seq_num();
    assert_eq!(seq, 0);
    assert_eq!(peer.make_seq_num(), 1);

    let mut cv: SharedConditionVariable<u64> = SharedConditionVariable::new();
    cv.add_waiter(1, 777);
    peer.register_inflight(55, seq, cv);
    assert!(!peer.is_complete(55, seq));

    // An unrelated reply changes nothing.
    assert!(peer.process_reply(55, 999).is_none());

    // The matching reply completes the ping and hands back the waiters.
    let mut woken: SharedConditionVariable<u64> = peer.process_reply(55, seq).unwrap();
    assert_eq!(woken.signal(), Some(777));
    assert!(peer.is_complete(55, seq));

    // A duplicate reply after completion is ignored.
    assert!(peer.process_reply(55, seq).is_none());

    // After the ping returns and forgets the entry, replies stay harmless.
    peer.remove_inflight(55, seq);
    assert!(!peer.is_complete(55, seq));
    assert!(peer.process_reply(55, seq).is_none());
}

// Two overlapping queries for one address put exactly one request on the
// wire; the reply wakes the waiters and both see the same binding.
#[test]
fn arp_overlapping_queries_coalesce() {
    let mut arp: SharedArpPeer<u64> = SharedArpPeer::new(1_000_000_000);
    let ip: Ipv4Address = Ipv4Address::new(10, 0, 0, 2);
    let mac: MacAddress = MacAddress::new([2, 0, 0, 0, 0, 2]);

    let first: ArpQueryStep = arp.query_begin(&ip, 0, SharedConditionVariable::new());
    assert!(matches!(first, ArpQueryStep::SendRequest));
    arp.pending_add_waiter(&ip, 1, 100);

    // The overlapping query emits nothing.
    let second: ArpQueryStep = arp.query_begin(&ip, 5, SharedConditionVariable::new());
    assert!(matches!(second, ArpQueryStep::Coalesce));
    arp.pending_add_waiter(&ip, 2, 200);

    // The reply hands back both waiters and caches the binding.
    let mut waiters: SharedConditionVariable<u64> = arp.process_reply(&ip, mac, 10).unwrap();
    let woken: Vec<u64> = waiters.broadcast();
    assert_eq!(woken, vec![100, 200]);
    assert_eq!(arp.cache_lookup(&ip, 10), Some(mac));

    // Both queries now hit the same cached binding; the entry expires after
    // its lifetime.
    let third: ArpQueryStep = arp.query_begin(&ip, 20, SharedConditionVariable::new());
    assert!(matches!(third, ArpQueryStep::Hit(m) if m == mac));
    assert_eq!(arp.cache_lookup(&ip, 2_000_000_000), None);
}

// The close protocol reaches Closed on the active, passive, and
// simultaneous paths, and a second close is refused.
#[test]
fn tcp_close_paths_reach_closed() {
    // Active close.
    let (s, a) = transition(State::Established, TcpEvent::LocalClose).unwrap();
    assert_eq!((s, a), (State::FinWait1, TcpAction::SendFin));
    let (s, _) = transition(s, TcpEvent::RecvAckOfFin).unwrap();
    assert_eq!(s, State::FinWait2);
    let (s, a) = transition(s, TcpEvent::RecvFin).unwrap();
    assert_eq!((s, a), (State::TimeWait, TcpAction::AckStartMslTimer));
    let (s, _) = transition(s, TcpEvent::MslTimerExpired).unwrap();
    assert_eq!(s, State::Closed);

    // A close on a closing socket is refused.
    let second_close = transition(State::FinWait1, TcpEvent::LocalClose);
    assert_eq!(second_close.unwrap_err().errno, EBADF);

    // Passive close.
    let (s, a) = transition(State::Established, TcpEvent::RecvFin).unwrap();
    assert_eq!((s, a), (State::CloseWait, TcpAction::AckAndSignalEof));
    let (s, _) = transition(s, TcpEvent::LocalClose).unwrap();
    assert_eq!(s, State::LastAck);
    let (s, _) = transition(s, TcpEvent::RecvAckOfFin).unwrap();
    assert_eq!(s, State::Closed);

    // Simultaneous close.
    let (s, _) = transition(State::FinWait1, TcpEvent::RecvFin).unwrap();
    assert_eq!(s, State::Closing);
    let (s, _) = transition(s, TcpEvent::RecvAckOfFin).unwrap();
    assert_eq!(s, State::TimeWait);
}

// Window sizes beyond 64 KiB need scaling; beyond 1 GiB nothing helps.
#[test]
fn window_validation() {
    assert!(validate_window(65535, 0).is_ok());
    let r = validate_window(65536, 0);
    assert_eq!(r.unwrap_err().errno, EINVAL);
    assert!(validate_window(65536, 4).is_ok());
    assert!(validate_window(1073741824, 10).is_ok());
    assert!(validate_window(1073741825, 10).is_err());
}

// The estimator follows Jacobson/Karn and backs off exponentially, capped.
#[test]
fn rto_estimation_and_backoff() {
    let mut rto: RtoCalculator = RtoCalculator::new();
    assert_eq!(rto.rto(), 3_000_000);
    rto.add_sample(1_000_000);
    // srtt stays at one second, rttvar shrinks to 375 ms, rto = 2.5 s.
    assert_eq!(rto.rto(), 2_500_000);
    rto.on_timeout();
    assert_eq!(rto.rto(), 5_000_000);
    for _ in 0..10 {
        rto.on_timeout();
    }
    assert_eq!(rto.rto(), 60_000_000);
}

// The TCP byte stream survives segmentation and reassembly: 255 pushes of
// 64 bytes each, iteration i filled with byte i, pop in order.
#[test]
fn tcp_byte_stream_preserved() {
    let mut sender: Sender = Sender::new(0, 65535, 1500);
    let mut receiver: Receiver = Receiver::new(0);
    let mut sent: Vec<u8> = Vec::new();
    for i in 0..255u32 {
        let chunk: Vec<u8> = vec![i as u8; 64];
        sender.push(chunk.as_slice());
        sent.extend_from_slice(chunk.as_slice());
    }
    let mut expected_seq: u32 = 0;
    while let Some((seq, segment)) = sender.next_segment() {
        assert_eq!(seq, expected_seq);
        assert!(segment.len() <= 1500);
        // A duplicate of the previous segment is not accepted twice.
        if seq > 0 {
            assert!(!receiver.receive_segment(seq - 1, &[0u8]));
        }
        assert!(receiver.receive_segment(seq, segment.as_slice()));
        expected_seq += segment.len() as u32;
    }
    // Everything sent is inflight until acknowledged; an ack drains the
    // retransmit queue and reopens the window.
    assert_eq!(sender.send_allowance(100_000), 65_535 - expected_seq);
    assert!(sender.oldest_unacked().is_some());
    sender.process_ack(expected_seq);
    assert!(sender.oldest_unacked().is_none());
    assert_eq!(sender.send_allowance(65535), 65535);
    let mut received: Vec<u8> = Vec::new();
    while let Some(chunk) = receiver.pop(64) {
        assert_eq!(chunk.len(), 64);
        received.extend_from_slice(chunk.as_slice());
    }
    assert_eq!(received, sent);
}

// After the clock advances to a sleep's deadline, the next drain wakes it.
#[test]
fn clock_determinism_wakes_due_sleep() {
    let t0: u64 = 1_000;
    let mut timer: Timer = Timer::new(t0);
    timer.register_sleep(t0 + 100_000_000, 1);
    timer.register_sleep(t0 + 200_000_000, 2);
    assert_eq!(timer.pop_due(), Vec::<u64>::new());
    timer.advance_clock(t0 + 100_000_000);
    assert_eq!(timer.get_now(), t0 + 100_000_000);
    assert_eq!(timer.pop_due(), vec![1]);
    assert_eq!(timer.pop_due(), Vec::<u64>::new());
    // The clock never runs backwards.
    timer.advance_clock(t0);
    assert_eq!(timer.get_now(), t0 + 100_000_000);
    timer.advance_clock(t0 + 200_000_000);
    assert_eq!(timer.pop_due(), vec![2]);
}

// Queue descriptors: closing twice yields EBADF the second time.
#[test]
fn close_queue_twice_is_ebadf() {
    let mut table: IoQueueTable<u8> = IoQueueTable::new();
    let qd: QDesc = table.allocate(7);
    assert_eq!(table.get(qd).unwrap(), &7);
    assert_eq!(table.free(qd).unwrap(), 7);
    let second = table.free(qd);
    assert_eq!(second.unwrap_err().errno, EBADF);
    let bogus = table.get(QDesc(3));
    assert_eq!(bogus.unwrap_err().errno, EBADF);
}

// Queue kinds convert to and from their wire values.
#[test]
fn qtype_round_trip() {
    assert_eq!(QType::UdpSocket.to_u32(), 1);
    assert_eq!(QType::try_from(2).unwrap(), QType::TcpSocket);
    assert_eq!(QType::try_from(3).unwrap(), QType::MemoryQueue);
    assert_eq!(QType::try_from(4).unwrap(), QType::TestQueue);
    assert!(QType::try_from(0).is_err());
    assert!(QType::try_from(77).is_err());
}

// The runtime stashes results completed before they are awaited and hands
// them out once.
#[test]
fn runtime_completion_cache() {
    let mut runtime: SharedDemiRuntime<&'static str, u32> = SharedDemiRuntime::new(0);
    let qt = runtime.insert_nonpolling_coroutine("op").unwrap();
    let other = runtime.insert_io_polling_coroutine("background").unwrap();
    assert_ne!(qt, other);
    assert!(runtime.take_completed_result(&vec![qt]).is_none());
    runtime.stash_completed_result(qt, QDesc(500), 42);
    let (i, got_qt, qd, result) = runtime.take_completed_result(&vec![other, qt]).unwrap();
    assert_eq!(i, 1);
    assert_eq!(got_qt, qt);
    assert_eq!(qd, QDesc(500));
    assert_eq!(result, 42);
    assert!(runtime.take_completed_result(&vec![qt]).is_none());
}

// The socket-id table distinguishes bound and connected identities.
#[test]
fn socket_id_table() {
    let mut runtime: SharedDemiRuntime<u8, u8> = SharedDemiRuntime::new(0);
    let local: SocketAddress = SocketAddress::new(Ipv4Address::new(10, 0, 0, 1), 5000);
    let remote: SocketAddress = SocketAddress::new(Ipv4Address::new(10, 0, 0, 2), 6000);
    assert!(!runtime.is_addr_in_use(&local));
    assert_eq!(runtime.insert_socket_id_to_qd(SocketId::Passive(local), QDesc(501)), None);
    assert!(runtime.is_addr_in_use(&local));
    assert_eq!(
        runtime.insert_socket_id_to_qd(SocketId::Active(local, remote), QDesc(502)),
        None
    );
    assert_eq!(runtime.get_qd_from_socket_id(&SocketId::Passive(local)), Some(QDesc(501)));
    assert_eq!(
        runtime.get_qd_from_socket_id(&SocketId::Active(local, remote)),
        Some(QDesc(502))
    );
    assert_eq!(runtime.remove_socket_id_to_qd(&SocketId::Passive(local)), Some(QDesc(501)));
    assert!(!runtime.is_addr_in_use(&local));
}

// An established socket is built exactly when both windows are legal, and
// its close path walks the shutdown machine.
#[test]
fn established_socket_lifecycle() {
    let local: SocketAddress = SocketAddress::new(Ipv4Address::new(10, 0, 0, 1), 5000);
    let remote: SocketAddress = SocketAddress::new(Ipv4Address::new(10, 0, 0, 2), 5000);

    // An unscaled window beyond 64 KiB is refused.
    let bad = SharedEstablishedSocket::new(local, remote, 0, 65536, 0, 100, 1000, 0, 1500);
    assert_eq!(bad.unwrap_err().errno, EINVAL);

    let mut socket =
        SharedEstablishedSocket::new(local, remote, 0, 65535, 0, 100, 65535, 0, 1500).unwrap();
    assert_eq!(socket.endpoints(), (local, remote));
    assert_eq!(socket.state(), State::Established);

    // Data flows through the sender and receiver halves.
    socket.push(&[1u8, 2, 3]);
    assert_eq!(socket.next_segment().unwrap(), (100, vec![1u8, 2, 3]));
    assert!(socket.receive(0, &[9u8, 9]));
    assert_eq!(socket.pop(10).unwrap(), vec![9u8, 9]);

    // The active close path: FIN, ack of FIN, peer FIN, 2-MSL timer.
    assert_eq!(socket.close().unwrap(), TcpAction::SendFin);
    assert_eq!(socket.state(), State::FinWait1);
    let again = socket.close();
    assert_eq!(again.unwrap_err().errno, EBADF);
    assert!(socket.process_event(TcpEvent::RecvAckOfFin).is_ok());
    assert!(socket.process_event(TcpEvent::RecvFin).is_ok());
    assert_eq!(socket.state(), State::TimeWait);
    assert!(socket.process_event(TcpEvent::MslTimerExpired).is_ok());
    assert_eq!(socket.state(), State::Closed);

    // The estimator backs off through the socket.
    assert_eq!(socket.on_retransmit_timeout(), 6_000_000);
}

// The layer-2 endpoint frames egress packets and filters ingress frames.
#[test]
fn layer2_endpoint_receive_and_transmit() {
    let local: MacAddress = MacAddress::new([2, 0, 0, 0, 0, 1]);
    let remote: MacAddress = MacAddress::new([2, 0, 0, 0, 0, 2]);
    let mut endpoint: SharedLayer2Endpoint = SharedLayer2Endpoint::new(local);
    assert_eq!(endpoint.get_local_link_addr(), local);

    let payload: DemiBuffer =
        DemiBuffer::from_slice_with_headroom(&[5u8, 6, 7], ETHERNET2_HEADER_SIZE).unwrap();
    let framed: DemiBuffer = endpoint.transmit(remote, EtherType2::Ipv4, payload).unwrap();
    assert_eq!(framed.len(), 17);

    // The peer endpoint accepts the frame addressed to it.
    let mut peer: SharedLayer2Endpoint = SharedLayer2Endpoint::new(remote);
    let (ether_type, body) = peer.receive(framed.clone()).unwrap().unwrap();
    assert_eq!(ether_type, EtherType2::Ipv4);
    assert_eq!(body.to_bytes(), vec![5u8, 6, 7]);

    // A third party drops it.
    let mut third: SharedLayer2Endpoint =
        SharedLayer2Endpoint::new(MacAddress::new([2, 0, 0, 0, 0, 3]));
    assert!(third.receive(framed).unwrap().is_none());

    // A runt frame is an error.
    let runt: DemiBuffer = DemiBuffer::from_slice(&[1u8, 2, 3]).unwrap();
    assert_eq!(third.receive(runt).unwrap_err().errno, EINVAL);
}

// The poll loop answers echo requests and completes inflight pings.
#[test]
fn icmp_poll_step_dispatch() {
    let local: Ipv4Address = Ipv4Address::new(10, 0, 0, 1);
    let mut peer: SharedIcmpv4Peer<u64> = SharedIcmpv4Peer::new(local, [3u8; 32]);

    let (reply, waiters) = peer.poll_step(Icmpv4Type2::EchoRequest { id: 5, seq_num: 9 });
    assert_eq!(reply, Some(Icmpv4Type2::EchoReply { id: 5, seq_num: 9 }));
    assert!(waiters.is_none());

    let mut cv: SharedConditionVariable<u64> = SharedConditionVariable::new();
    cv.add_waiter(1, 321);
    peer.register_inflight(5, 9, cv);
    assert!(!peer.ping_wait_done(5, 9));
    let (reply, waiters) = peer.poll_step(Icmpv4Type2::EchoReply { id: 5, seq_num: 9 });
    assert!(reply.is_none());
    assert_eq!(waiters.unwrap().signal(), Some(321));
    assert!(peer.ping_wait_done(5, 9));
}

// With offload off, the UDP checksum verifies to zero over the
// pseudo-header and the datagram.
#[test]
fn udp_checksum_computed_without_offload() {
    let local_ip: Ipv4Address = Ipv4Address::new(10, 0, 0, 1);
    let remote: SocketAddress = SocketAddress::new(Ipv4Address::new(10, 0, 0, 2), 4000);
    let mut socket: SharedUdpSocket = SharedUdpSocket::new(local_ip, false);
    assert!(socket.bind(SocketAddress::new(local_ip, 4000)).is_ok());
    let payload: DemiBuffer = DemiBuffer::from_slice_with_headroom(&[0x65u8; 8], 8).unwrap();
    let datagram: Vec<u8> = socket.push(Some(remote), payload).unwrap().to_bytes();
    assert_ne!(&datagram[6..8], &[0u8, 0u8]);
    // Re-checking over pseudo-header plus datagram complements to zero.
    let mut covered: Vec<u8> = vec![10, 0, 0, 1, 10, 0, 0, 2, 0, 17, 0, 16];
    covered.extend_from_slice(datagram.as_slice());
    assert_eq!(internet_checksum(covered.as_slice()), 0);
}

// An ARP packet round-trips through serialize and parse, and a request for
// the local address is answered with the local binding.
#[test]
fn arp_message_round_trip_and_reply() {
    let asker_mac: MacAddress = MacAddress::new([2, 0, 0, 0, 0, 1]);
    let asker_ip: Ipv4Address = Ipv4Address::new(10, 0, 0, 1);
    let local_mac: MacAddress = MacAddress::new([2, 0, 0, 0, 0, 2]);
    let local_ip: Ipv4Address = Ipv4Address::new(10, 0, 0, 2);

    let request: ArpHeader = ArpHeader::new(
        ArpOperation::Request,
        asker_mac,
        asker_ip,
        MacAddress::new([0; 6]),
        local_ip,
    );
    let pkt: DemiBuffer = request.serialize(14).unwrap();
    assert_eq!(pkt.len(), 28);
    assert_eq!(pkt.headroom(), 14);
    let parsed: ArpHeader = ArpHeader::parse(&pkt).unwrap();
    assert_eq!(parsed.operation, ArpOperation::Request);
    assert_eq!(parsed.sender_hardware_addr, asker_mac);
    assert_eq!(parsed.target_protocol_addr, local_ip);

    // A request for the local address is answered; others are ignored.
    let reply: ArpHeader = reply_for(&local_mac, &local_ip, &parsed).unwrap();
    assert_eq!(reply.operation, ArpOperation::Reply);
    assert_eq!(reply.sender_hardware_addr, local_mac);
    assert_eq!(reply.sender_protocol_addr, local_ip);
    assert_eq!(reply.target_hardware_addr, asker_mac);
    assert_eq!(reply.target_protocol_addr, asker_ip);
    assert!(reply_for(&local_mac, &Ipv4Address::new(10, 0, 0, 3), &parsed).is_none());

    // A malformed packet is rejected.
    let runt: DemiBuffer = DemiBuffer::from_slice(&[0u8, 1, 8, 0]).unwrap();
    assert_eq!(ArpHeader::parse(&runt).unwrap_err().errno, EINVAL);
}

// The echo request a ping transmits parses back to the same identifiers.
#[test]
fn ping_request_packet_parses_back() {
    let pkt: DemiBuffer = build_ping_request(77, 3, 42).unwrap();
    assert_eq!(pkt.len(), 64);
    assert_eq!(pkt.headroom(), 34);
    let mut pkt = pkt;
    let parsed: Icmpv4Header = Icmpv4Header::parse_and_strip(&mut pkt).unwrap();
    assert_eq!(parsed.get_protocol(), Icmpv4Type2::EchoRequest { id: 77, seq_num: 3 });
    assert_eq!(pkt.to_bytes(), vec![0u8; 56]);
}

// Frames and datagrams that speak unsupported protocols are refused.
#[test]
fn unsupported_protocols_are_refused() {
    // An EtherType the stack does not speak.
    let mut frame: DemiBuffer = DemiBuffer::from_slice(&[
        2, 2, 2, 2, 2, 2, 4, 4, 4, 4, 4, 4, 0x86, 0xdd, 0,
    ])
    .unwrap();
    assert_eq!(Ethernet2Header::parse_and_strip(&mut frame).unwrap_err().errno, ENOTSUP);
    // The frame is left untouched for the caller.
    assert_eq!(frame.len(), 15);

    // An IPv4 header with options.
    let with_options: [u8; 24] = [
        0x46, 0, 0, 24, 0, 0, 0, 0, 64, 17, 0, 0, 10, 0, 0, 1, 10, 0, 0, 2, 0, 0, 0, 0,
    ];
    let mut pkt: DemiBuffer = DemiBuffer::from_slice(&with_options).unwrap();
    assert_eq!(Ipv4Header::parse_and_strip(&mut pkt).unwrap_err().errno, ENOTSUP);

    // An ICMP message that is neither echo request nor reply, with a valid
    // checksum.
    let mut icmp: DemiBuffer =
        DemiBuffer::from_slice(&[3, 0, 0xfc, 0xff, 0, 0, 0, 0]).unwrap();
    assert_eq!(Icmpv4Header::parse_and_strip(&mut icmp).unwrap_err().errno, ENOTSUP);
}

// A coroutine's token names the live slot holding it: the next foreground
// pass runs exactly that slot, and the background pass has nothing.
#[test]
fn runtime_token_names_live_slot() {
    let mut runtime: SharedDemiRuntime<&'static str, u8> = SharedDemiRuntime::new(0);
    let qt = runtime.insert_nonpolling_coroutine("op").unwrap();
    let slot: SchedulerId = runtime.scheduler_id_of(qt);
    assert_eq!(runtime.poll_foreground_tasks(), vec![slot.0]);
    assert_eq!(runtime.poll_background_tasks(), Vec::<usize>::new());
    let bg = runtime.insert_io_polling_coroutine("engine").unwrap();
    let bg_slot: SchedulerId = runtime.scheduler_id_of(bg);
    assert_eq!(runtime.poll_background_tasks(), vec![bg_slot.0]);
}
