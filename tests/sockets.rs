use smoltcp::arp_cache::SliceArpCache;
use smoltcp::dispatch::DispatchTable;
use smoltcp::error::Error;
use smoltcp::layers::SizeReq;
use smoltcp::raw::{RawPacket, RawSocket};
use smoltcp::ring_buffer::RingBuffer;
use smoltcp::socket::{IndexKey, Socket, SocketHandle};
use smoltcp::tcp::{TcpSocket, TcpState};
use smoltcp::udp::{UdpPacket, UdpSocket};
use smoltcp::wire::{
    EthernetAddress, IpAddress, IpEndpoint, IpPayload, IpProtocol, IpRepr, IpVersion, Ipv4Address,
    Ipv4Repr, TcpControl, TcpRepr, TcpSeqNumber, UdpRepr,
};

fn local() -> IpEndpoint {
    IpEndpoint::new(IpAddress::v4(10, 0, 0, 1), 80)
}

fn remote() -> IpEndpoint {
    IpEndpoint::new(IpAddress::v4(10, 0, 0, 2), 4000)
}

fn ip_in() -> IpRepr {
    IpRepr::Ipv4(Ipv4Repr {
        src_addr: Ipv4Address::new(10, 0, 0, 2),
        dst_addr: Ipv4Address::new(10, 0, 0, 1),
        protocol: IpProtocol::Tcp,
        payload_len: 20,
    })
}

fn seg(control: TcpControl, seq: u32, ack: Option<u32>, payload: &[u8]) -> TcpRepr {
    TcpRepr {
        src_port: 4000,
        dst_port: 80,
        control,
        push: false,
        seq_number: TcpSeqNumber(seq),
        ack_number: ack.map(TcpSeqNumber),
        window_len: 100,
        max_seg_size: None,
        payload: payload.to_vec(),
    }
}

fn tcp() -> TcpSocket {
    TcpSocket::new(RingBuffer::new_default(vec![0u8; 8]), RingBuffer::new_default(vec![0u8; 8]))
}

/// A passive open completed: ISN of the peer 500, ours 0.
fn established() -> TcpSocket {
    let mut s = tcp();
    s.listen(local()).unwrap();
    assert_eq!(s.process_accepted(0, &ip_in(), &seg(TcpControl::Syn, 500, None, &[])), Ok(()));
    assert_eq!(s.state(), TcpState::SynReceived);
    let (_, synack) = s.dispatch(1000).unwrap();
    assert_eq!(synack.control, TcpControl::Syn);
    s.dispatched(1000, 0);
    assert_eq!(s.process_accepted(0, &ip_in(), &seg(TcpControl::Plain, 501, Some(1), &[])), Ok(()));
    assert_eq!(s.state(), TcpState::Established);
    s
}

#[test]
fn tcp_listen_needs_port() {
    let mut s = tcp();
    assert_eq!(s.listen(IpEndpoint::new(IpAddress::Unspecified, 0)), Err(Error::Unaddressable));
    assert_eq!(s.listen(local()), Ok(()));
    assert_eq!(s.listen(local()), Err(Error::Illegal));
    assert!(s.is_listening());
    assert!(!s.is_active());
}

#[test]
fn tcp_data_is_received_and_acknowledged() {
    let mut s = established();
    assert!(s.may_recv() && s.may_send());
    assert_eq!(s.process_accepted(0, &ip_in(), &seg(TcpControl::Plain, 501, Some(1), b"abc")), Ok(()));
    assert!(s.is_dirty());
    let (_, ack) = s.dispatch(1000).unwrap();
    assert_eq!(ack.ack_number, Some(TcpSeqNumber(504)));
    assert_eq!(ack.window_len, 5);
    s.dispatched(1000, 0);
    assert!(!s.is_dirty());
    assert_eq!(s.recv(10).unwrap(), b"abc".to_vec());
}

#[test]
fn tcp_out_of_order_segment_is_dropped() {
    let mut s = established();
    assert_eq!(
        s.process_accepted(0, &ip_in(), &seg(TcpControl::Plain, 600, Some(1), b"zz")),
        Err(Error::Dropped)
    );
    assert_eq!(s.recv(10).unwrap(), Vec::<u8>::new());
}

#[test]
fn tcp_receive_buffer_takes_what_fits() {
    let mut s = established();
    assert_eq!(
        s.process_accepted(0, &ip_in(), &seg(TcpControl::Plain, 501, Some(1), b"0123456789")),
        Ok(())
    );
    assert_eq!(s.recv(100).unwrap(), b"01234567".to_vec());
}

#[test]
fn tcp_send_is_bounded_by_window_and_acked_data_leaves() {
    let mut s = established();
    assert_eq!(s.send_slice(b"hello world"), Ok(8));
    let (ip, data) = s.dispatch(3).unwrap();
    assert_eq!(data.payload, b"hel".to_vec());
    assert_eq!(data.seq_number, TcpSeqNumber(1));
    assert!(data.push);
    match ip {
        IpRepr::Unspecified { payload_len, .. } => assert_eq!(payload_len, 23),
        _ => unreachable!(),
    }
    s.dispatched(3, 0);
    let (_, rest) = s.dispatch(1000).unwrap();
    assert_eq!(rest.payload, b"lo w".to_vec().into_iter().chain(b"o".iter().copied()).collect::<Vec<u8>>());
    assert_eq!(rest.seq_number, TcpSeqNumber(4));
    s.dispatched(1000, 0);
    // Nothing more to send, but the retransmission deadline is watched.
    assert!(s.dispatch(1000).is_none());
    assert!(s.is_dirty());
    // Acknowledging more than was sent is dropped.
    assert_eq!(s.process_accepted(0, &ip_in(), &seg(TcpControl::Plain, 501, Some(20), &[])), Err(Error::Dropped));
    assert_eq!(s.process_accepted(0, &ip_in(), &seg(TcpControl::Plain, 501, Some(9), &[])), Ok(()));
    assert!(!s.is_dirty());
    assert_eq!(s.send_slice(b"12345678"), Ok(8));
}

#[test]
fn tcp_active_close_walks_fin_wait_states() {
    let mut s = established();
    s.close();
    assert_eq!(s.state(), TcpState::FinWait1);
    assert!(!s.may_send());
    let (_, fin) = s.dispatch(1000).unwrap();
    assert_eq!(fin.control, TcpControl::Fin);
    assert_eq!(fin.seq_number, TcpSeqNumber(1));
    s.dispatched(1000, 0);
    assert_eq!(s.process_accepted(0, &ip_in(), &seg(TcpControl::Plain, 501, Some(2), &[])), Ok(()));
    assert_eq!(s.state(), TcpState::FinWait2);
    assert_eq!(s.process_accepted(0, &ip_in(), &seg(TcpControl::Fin, 501, Some(2), &[])), Ok(()));
    assert_eq!(s.state(), TcpState::TimeWait);
    let (_, ack) = s.dispatch(1000).unwrap();
    assert_eq!(ack.ack_number, Some(TcpSeqNumber(502)));
}

#[test]
fn tcp_passive_close_walks_close_wait_and_last_ack() {
    let mut s = established();
    assert_eq!(s.process_accepted(0, &ip_in(), &seg(TcpControl::Fin, 501, Some(1), &[])), Ok(()));
    assert_eq!(s.state(), TcpState::CloseWait);
    s.close();
    assert_eq!(s.state(), TcpState::LastAck);
    let (_, fin) = s.dispatch(1000).unwrap();
    assert_eq!(fin.control, TcpControl::Fin);
    assert_eq!(fin.ack_number, Some(TcpSeqNumber(502)));
    s.dispatched(1000, 0);
    assert_eq!(s.process_accepted(0, &ip_in(), &seg(TcpControl::Plain, 502, Some(2), &[])), Ok(()));
    assert_eq!(s.state(), TcpState::Closed);
    assert!(s.local_endpoint().is_unbound());
}

#[test]
fn tcp_simultaneous_close_goes_through_closing() {
    let mut s = established();
    s.close();
    s.dispatch(1000).unwrap();
    s.dispatched(1000, 0);
    assert_eq!(s.process_accepted(0, &ip_in(), &seg(TcpControl::Fin, 501, Some(1), &[])), Ok(()));
    assert_eq!(s.state(), TcpState::Closing);
    assert_eq!(s.process_accepted(0, &ip_in(), &seg(TcpControl::Plain, 502, Some(2), &[])), Ok(()));
    assert_eq!(s.state(), TcpState::TimeWait);
}

#[test]
fn tcp_reset_closes() {
    let mut s = established();
    assert_eq!(s.process_accepted(0, &ip_in(), &seg(TcpControl::Rst, 501, None, &[])), Ok(()));
    assert_eq!(s.state(), TcpState::Closed);
    assert_eq!(s.process_accepted(0, &ip_in(), &seg(TcpControl::Syn, 1, None, &[])), Err(Error::Rejected));
}

#[test]
fn tcp_active_open() {
    let mut s = tcp();
    s.set_initial_seq_no(TcpSeqNumber(7000));
    assert_eq!(s.connect(IpEndpoint::new(IpAddress::Unspecified, 1), local()), Err(Error::Unaddressable));
    assert_eq!(s.connect(remote(), local()), Ok(()));
    assert_eq!(s.state(), TcpState::SynSent);
    let (_, syn) = s.dispatch(1000).unwrap();
    assert_eq!(syn.control, TcpControl::Syn);
    assert_eq!(syn.seq_number, TcpSeqNumber(7000));
    assert_eq!(syn.ack_number, None);
    s.dispatched(1000, 0);
    assert!(s.dispatch(1000).is_none());
    assert_eq!(s.process_accepted(0, &ip_in(), &seg(TcpControl::Syn, 300, Some(7001), &[])), Ok(()));
    assert_eq!(s.state(), TcpState::Established);
    let (_, ack) = s.dispatch(1000).unwrap();
    assert_eq!(ack.seq_number, TcpSeqNumber(7001));
    assert_eq!(ack.ack_number, Some(TcpSeqNumber(301)));
}

#[test]
fn tcp_segment_from_other_peer_is_rejected() {
    let mut s = established();
    let mut other = seg(TcpControl::Plain, 501, Some(1), &[]);
    other.src_port = 4001;
    assert_eq!(s.process_accepted(0, &ip_in(), &other), Err(Error::Rejected));
}

#[test]
fn raw_socket_accepts_its_protocol() {
    let mut s = RawSocket::new(
        IpVersion::Ipv4,
        IpProtocol::Unknown(200),
        RingBuffer::new_default(vec![RawPacket::default(); 1]),
        RingBuffer::new_default(vec![RawPacket::default(); 1]),
    );
    let ip = IpRepr::Ipv4(Ipv4Repr {
        src_addr: Ipv4Address::new(1, 2, 3, 4),
        dst_addr: Ipv4Address::new(5, 6, 7, 8),
        protocol: IpProtocol::Unknown(200),
        payload_len: 2,
    });
    let tcp_ip = IpRepr::Ipv4(Ipv4Repr {
        src_addr: Ipv4Address::new(1, 2, 3, 4),
        dst_addr: Ipv4Address::new(5, 6, 7, 8),
        protocol: IpProtocol::Tcp,
        payload_len: 2,
    });
    assert_eq!(s.process_accepted(0, &tcp_ip, IpPayload::Raw(vec![1])), Err(Error::Rejected));
    assert_eq!(s.process_accepted(0, &ip, IpPayload::Raw(vec![1, 2])), Ok(()));
    assert_eq!(s.process_accepted(0, &ip, IpPayload::Raw(vec![3])), Err(Error::Exhausted));
    let p = s.recv().unwrap();
    assert_eq!(p.payload, IpPayload::Raw(vec![1, 2]));
    assert_eq!(s.recv(), Err(Error::Exhausted));
    assert!(!s.is_dirty());
    assert_eq!(s.send(RawPacket { header: ip, payload: IpPayload::Raw(vec![9]) }), Ok(()));
    assert!(s.is_dirty());
    assert_eq!(s.dispatch().unwrap().payload, IpPayload::Raw(vec![9]));
    assert!(s.dispatch().is_none());
}

#[test]
fn udp_socket_queues_and_errors() {
    let mut s = UdpSocket::new(
        RingBuffer::new_default(vec![UdpPacket::default(); 1]),
        RingBuffer::new_default(vec![UdpPacket::default(); 1]),
    );
    assert_eq!(s.send_slice(&[1], IpEndpoint::new(IpAddress::Unspecified, 53)), Err(Error::Unaddressable));
    assert_eq!(s.send_slice(&[1], remote()), Ok(()));
    assert_eq!(s.send_slice(&[2], remote()), Err(Error::Exhausted));
    assert_eq!(s.recv(), Err(Error::Exhausted));
    s.bind(local());
    let ip = ip_in();
    let wrong_port = UdpRepr { src_port: 4000, dst_port: 81, checksum: 0, payload: vec![] };
    assert!(!s.would_accept(&ip, &wrong_port));
    let d = UdpRepr { src_port: 4000, dst_port: 80, checksum: 0, payload: vec![7] };
    assert_eq!(s.process_accepted(0, &ip, d), Ok(()));
    let got = s.recv().unwrap();
    assert_eq!(got.endpoint, remote());
    let (out_ip, out) = s.dispatch().unwrap();
    match out {
        IpPayload::Udp(u) => {
            assert_eq!(u.src_port, 80);
            assert_eq!(u.dst_port, 4000);
            assert_eq!(u.payload, vec![1]);
        }
        _ => unreachable!(),
    }
    assert_eq!(out_ip.dst_addr(), remote().addr);
    assert_eq!(out_ip.payload_len(), 9);
}

#[test]
fn socket_debug_ids() {
    let mut s = Socket::Tcp(tcp());
    assert_eq!(s.debug_id(), 0);
    s.set_debug_id(55);
    assert_eq!(s.debug_id(), 55);
    assert_eq!(s.index_key(), None);
}

#[test]
fn dispatch_table_add_and_remove_errors() {
    let mut t = DispatchTable::new();
    assert_eq!(t.add(IndexKey::Udp(7), SocketHandle(1)), Ok(()));
    assert_eq!(t.add(IndexKey::Udp(7), SocketHandle(2)), Err(Error::AlreadyInUse));
    assert_eq!(t.add(IndexKey::Raw(6), SocketHandle(1)), Err(Error::AlreadyInUse));
    assert_eq!(t.add(IndexKey::TcpListen(9), SocketHandle(2)), Ok(()));
    assert_eq!(t.add(IndexKey::TcpListen(9), SocketHandle(3)), Ok(()));
    assert_eq!(t.key_of(SocketHandle(3)), Some(IndexKey::TcpListen(9)));
    assert_eq!(t.remove(SocketHandle(2)), Ok(()));
    assert_eq!(t.remove(SocketHandle(2)), Err(Error::SocketNotFound));
    assert_eq!(t.get_raw_socket(6), None);
    assert_eq!(t.get_udp_socket(IpAddress::Unspecified, 0), None);
}

#[test]
fn arp_cache_updates_and_evicts_round_robin() {
    let mut c = SliceArpCache::new(2);
    let a = IpAddress::v4(10, 0, 0, 1);
    let b = IpAddress::v4(10, 0, 0, 2);
    let d = IpAddress::v4(10, 0, 0, 3);
    let e1 = EthernetAddress::new(2, 0, 0, 0, 0, 1);
    let e2 = EthernetAddress::new(2, 0, 0, 0, 0, 2);
    let e3 = EthernetAddress::new(2, 0, 0, 0, 0, 3);
    c.fill(&a, &e1);
    c.fill(&b, &e2);
    c.fill(&a, &e3);
    assert_eq!(c.lookup(&a), Some(e3));
    assert_eq!(c.lookup(&b), Some(e2));
    c.fill(&d, &e1);
    assert_eq!(c.lookup(&d), Some(e1));
    assert_eq!(c.lookup(&a), None);
    assert_eq!(c.lookup(&b), Some(e2));
}

#[test]
fn address_predicates() {
    assert!(EthernetAddress::broadcast().is_broadcast());
    assert!(EthernetAddress::broadcast().is_multicast());
    assert!(EthernetAddress::new(0x01, 0, 0x5e, 0, 0, 1).is_multicast());
    assert!(EthernetAddress::new(0x02, 0, 0, 0, 0, 1).is_unicast());
    assert_eq!(EthernetAddress::new(0x02, 0, 0, 0, 0, 1).value, 0x0200_0000_0001);
    assert!(Ipv4Address::new(192, 168, 69, 1).is_unicast());
    assert!(!Ipv4Address::new(224, 0, 0, 1).is_unicast());
    assert!(!Ipv4Address::new(0, 0, 0, 0).is_unicast());
    assert!(!IpAddress::Unspecified.is_unicast());
    assert!(IpEndpoint::new(IpAddress::Unspecified, 0).is_unbound());
    assert!(!IpEndpoint::new(IpAddress::Unspecified, 1).is_unbound());
    assert!(IpEndpoint::new(IpAddress::Unspecified, 9).key() < IpEndpoint::new(IpAddress::v4(0, 0, 0, 1), 0).key());
    assert_eq!(TcpSeqNumber(0xffff_ffff).add(2), TcpSeqNumber(1));
    assert_eq!(TcpSeqNumber(1).diff(TcpSeqNumber(0xffff_ffff)), 2);
}

#[test]
fn optimal_size_per_request() {
    assert_eq!(SizeReq::Exactly(100).optimal_size(1500), Some(100));
    assert_eq!(SizeReq::Exactly(1600).optimal_size(1500), None);
    assert_eq!(SizeReq::AtLeast(100).optimal_size(1500), Some(1500));
    assert_eq!(SizeReq::AtLeast(1600).optimal_size(1500), None);
    assert_eq!(SizeReq::Range(100, 1000).optimal_size(1500), Some(1000));
    assert_eq!(SizeReq::Range(100, 2000).optimal_size(1500), Some(1500));
    assert_eq!(SizeReq::Range(1600, 2000).optimal_size(1500), None);
    assert_eq!(SizeReq::Max.optimal_size(1500), Some(1500));
}

#[test]
fn tcp_retransmits_after_timeout_with_backoff() {
    let mut s = established();
    assert_eq!(s.send_slice(b"abc"), Ok(3));
    s.dispatch(1000).unwrap();
    s.dispatched(1000, 100);
    assert!(s.dispatch(1000).is_none());
    // Before the deadline (100 + 1000) nothing happens.
    s.poll_timers(1099);
    assert!(s.dispatch(1000).is_none());
    s.poll_timers(1100);
    let (_, again) = s.dispatch(1000).unwrap();
    assert_eq!(again.payload, b"abc".to_vec());
    assert_eq!(again.seq_number, TcpSeqNumber(1));
    s.dispatched(1000, 1100);
    // The timeout doubled: the next deadline is 1100 + 2000.
    s.poll_timers(3099);
    assert!(s.dispatch(1000).is_none());
    s.poll_timers(3100);
    assert!(s.dispatch(1000).is_some());
}

#[test]
fn tcp_time_wait_ends_after_timeout() {
    let mut s = established();
    s.close();
    s.dispatch(1000).unwrap();
    s.dispatched(1000, 0);
    assert_eq!(s.process_accepted(10, &ip_in(), &seg(TcpControl::Fin, 501, Some(2), &[])), Ok(()));
    assert_eq!(s.state(), TcpState::TimeWait);
    s.poll_timers(60009);
    assert_eq!(s.state(), TcpState::TimeWait);
    s.poll_timers(60010);
    assert_eq!(s.state(), TcpState::Closed);
    assert!(!s.is_dirty());
}

#[test]
fn udp_datagram_larger_than_a_packet_is_refused() {
    let mut s = UdpSocket::new(
        RingBuffer::new_default(vec![UdpPacket::default(); 1]),
        RingBuffer::new_default(vec![UdpPacket::default(); 1]),
    );
    let big = vec![0u8; 65508];
    assert_eq!(s.send_slice(&big, remote()), Err(Error::Exhausted));
    let fits = vec![0u8; 65507];
    assert_eq!(s.send_slice(&fits, remote()), Ok(()));
    let (ip, _) = s.dispatch().unwrap();
    assert_eq!(ip.payload_len(), 65515);
}

#[test]
fn handles_are_ordered() {
    assert!(SocketHandle(1) < SocketHandle(2));
    assert_eq!(SocketHandle(3).max(SocketHandle(2)), SocketHandle(3));
}
