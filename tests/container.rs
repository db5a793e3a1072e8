use smoltcp::container::Container;
use smoltcp::ring_buffer::RingBuffer;
use smoltcp::socket::{AsSocket, Socket, SocketHandle};
use smoltcp::tcp::{TcpSocket, TcpState};
use smoltcp::udp::{UdpPacket, UdpSocket};
use smoltcp::wire::{
    IpAddress, IpEndpoint, IpProtocol, Ipv4Address, Ipv4Repr, TcpControl, TcpRepr, TcpSeqNumber,
    UdpRepr,
};

fn udp_socket() -> UdpSocket {
    let udp_rx_buffer = RingBuffer::new_default(vec![UdpPacket::default()]);
    let udp_tx_buffer = RingBuffer::new_default(vec![UdpPacket::default()]);
    UdpSocket::new(udp_rx_buffer, udp_tx_buffer)
}

fn tcp_socket() -> TcpSocket {
    let tcp_rx_buffer = RingBuffer::new_default(vec![0u8; 64]);
    let tcp_tx_buffer = RingBuffer::new_default(vec![0u8; 128]);
    TcpSocket::new(tcp_rx_buffer, tcp_tx_buffer)
}

fn listen(sockets: &mut Container, h: SocketHandle, id: usize, ep: IpEndpoint) {
    let mut t = sockets.get_mut(h).unwrap();
    {
        let s: &mut TcpSocket = t.socket_mut().as_socket();
        s.set_debug_id(id);
        s.listen(ep).unwrap();
    }
    assert!(sockets.release(t).is_ok());
}

fn tcp_lookup_debug_id(sockets: &mut Container, ipv4_repr: &Ipv4Repr, tcp_repr: &TcpRepr) -> Option<usize> {
    let t = sockets.get_tcp_socket(
        IpAddress::Ipv4(ipv4_repr.dst_addr),
        tcp_repr.dst_port,
        IpAddress::Ipv4(ipv4_repr.src_addr),
        tcp_repr.src_port,
    )?;
    let id = t.debug_id();
    assert!(sockets.release(t).is_ok());
    Some(id)
}

#[test]
fn dispatcher() {
    let eps = [
        IpEndpoint::new(IpAddress::Unspecified, 12345u16),
        IpEndpoint::new(IpAddress::Ipv4(Ipv4Address::new(192, 168, 1, 1)), 12345u16),
        IpEndpoint::new(IpAddress::Ipv4(Ipv4Address::new(192, 168, 1, 2)), 12345u16),
        IpEndpoint::new(IpAddress::Ipv4(Ipv4Address::new(192, 168, 1, 3)), 12345u16),
        IpEndpoint::new(IpAddress::Ipv4(Ipv4Address::new(192, 168, 1, 4)), 12345u16),
        IpEndpoint::new(IpAddress::Ipv4(Ipv4Address::new(192, 168, 1, 5)), 12345u16),
    ];

    let mut sockets = Container::new(vec![]);

    let udp_handle = sockets.add(Socket::Udp(udp_socket())).unwrap();
    let tcp_handle = sockets.add(Socket::Tcp(tcp_socket())).unwrap();
    let tcp_handle2 = sockets.add(Socket::Tcp(tcp_socket())).unwrap();
    let tcp_handle3 = sockets.add(Socket::Tcp(tcp_socket())).unwrap();

    listen(&mut sockets, tcp_handle, 101, eps[0]);
    listen(&mut sockets, tcp_handle2, 102, eps[2]);
    listen(&mut sockets, tcp_handle3, 103, eps[4]);
    {
        let mut t = sockets.get_mut(udp_handle).unwrap();
        {
            let s: &mut UdpSocket = t.socket_mut().as_socket();
            s.set_debug_id(201);
            s.bind(eps[0]);
        }
        assert!(sockets.release(t).is_ok());
    }

    let tcp_payload: Vec<u8> = vec![];
    let udp_payload: Vec<u8> = vec![];

    let mut tcp_repr = TcpRepr {
        src_port: 9999u16,
        dst_port: 12345u16,
        control: TcpControl::Syn,
        push: false,
        seq_number: TcpSeqNumber(0),
        ack_number: None,
        window_len: 0u16,
        max_seg_size: None,
        payload: tcp_payload.clone(),
    };

    let mut ipv4_repr = Ipv4Repr {
        src_addr: Ipv4Address::new(192, 168, 1, 100),
        dst_addr: Ipv4Address::new(192, 168, 1, 1),
        protocol: IpProtocol::Tcp,
        payload_len: 0,
    };

    let udp_repr = UdpRepr { src_port: 9999u16, dst_port: 12345u16, checksum: 0, payload: udp_payload.clone() };

    {
        let tracked_socket = sockets
            .get_udp_socket(IpAddress::Ipv4(ipv4_repr.dst_addr), udp_repr.dst_port)
            .unwrap();
        assert_eq!(tracked_socket.debug_id(), 201);
        assert!(sockets.release(tracked_socket).is_ok());
    }

    for &(ep_index, expected_debug_id) in &[(1, 101), (2, 102), (3, 101), (4, 103), (5, 101)] {
        ipv4_repr.dst_addr = match eps[ep_index].addr {
            IpAddress::Ipv4(a) => a,
            _ => unreachable!(),
        };
        tcp_repr.dst_port = eps[ep_index].port;
        assert_eq!(tcp_lookup_debug_id(&mut sockets, &ipv4_repr, &tcp_repr), Some(expected_debug_id));
    }

    sockets.remove(udp_handle);

    assert!(sockets
        .get_udp_socket(IpAddress::Ipv4(ipv4_repr.dst_addr), udp_repr.dst_port)
        .is_none());

    ipv4_repr.dst_addr = Ipv4Address::new(192, 168, 1, 2);

    assert_eq!(tcp_lookup_debug_id(&mut sockets, &ipv4_repr, &tcp_repr), Some(102));

    sockets.remove(tcp_handle2);

    assert_eq!(tcp_lookup_debug_id(&mut sockets, &ipv4_repr, &tcp_repr), Some(101));
}

#[test]
fn udp_rebind_clash_evicts_socket() {
    let mut sockets = Container::new(vec![]);
    let ep = IpEndpoint::new(IpAddress::v4(10, 0, 0, 1), 53);
    let a = sockets.add(Socket::Udp(udp_socket())).unwrap();
    let b = sockets.add(Socket::Udp(udp_socket())).unwrap();
    let mut t = sockets.get_mut(a).unwrap();
    AsSocket::<UdpSocket>::as_socket(t.socket_mut()).bind(ep);
    assert!(sockets.release(t).is_ok());
    let mut t = sockets.get_mut(b).unwrap();
    AsSocket::<UdpSocket>::as_socket(t.socket_mut()).bind(ep);
    let back = sockets.release(t);
    assert!(back.is_err());
    assert!(sockets.get_mut(b).is_none());
    let found = sockets.get_udp_socket(IpAddress::v4(10, 0, 0, 1), 53).unwrap();
    assert_eq!(found.handle(), a);
    assert!(sockets.release(found).is_ok());
}

#[test]
fn add_recycles_free_slots() {
    let mut sockets = Container::new(vec![]);
    let a = sockets.add(Socket::Tcp(tcp_socket())).unwrap();
    let b = sockets.add(Socket::Tcp(tcp_socket())).unwrap();
    assert_eq!(a, SocketHandle(0));
    assert_eq!(b, SocketHandle(1));
    let removed = sockets.remove(a);
    assert!(matches!(removed, Socket::Tcp(_)));
    let c = sockets.add(Socket::Udp(udp_socket())).unwrap();
    assert_eq!(c, SocketHandle(0));
}

#[test]
fn connected_socket_wins_over_listener_and_dirty_queue_drains() {
    let mut sockets = Container::new(vec![]);
    let local = IpEndpoint::new(IpAddress::v4(10, 0, 0, 1), 80);
    let remote = IpEndpoint::new(IpAddress::v4(10, 0, 0, 2), 4000);
    let l = sockets.add(Socket::Tcp(tcp_socket())).unwrap();
    listen(&mut sockets, l, 1, local);
    let mut c = tcp_socket();
    c.set_debug_id(2);
    c.connect(remote, local).unwrap();
    assert!(c.is_dirty());
    let ch = sockets.add(Socket::Tcp(c)).unwrap();
    let t = sockets
        .get_tcp_socket(IpAddress::v4(10, 0, 0, 1), 80, IpAddress::v4(10, 0, 0, 2), 4000)
        .unwrap();
    assert_eq!(t.debug_id(), 2);
    assert!(sockets.release(t).is_ok());
    let t = sockets
        .get_tcp_socket(IpAddress::v4(10, 0, 0, 1), 80, IpAddress::v4(10, 0, 0, 3), 4000)
        .unwrap();
    assert_eq!(t.debug_id(), 1);
    assert!(sockets.release(t).is_ok());
    // The connecting socket was queued when it was added.
    let t = sockets.next_dirty().unwrap();
    assert_eq!(t.handle(), ch);
    assert!(!t.socket().is_on_dirty_list());
    assert!(sockets.release(t).is_ok());
    // Still dirty (its SYN was not sent), so it is queued again.
    let t = sockets.next_dirty().unwrap();
    assert_eq!(t.handle(), ch);
    let mut t = t;
    AsSocket::<TcpSocket>::as_socket(t.socket_mut()).abort();
    assert!(sockets.release(t).is_ok());
    assert!(sockets.next_dirty().is_none());
    let t = sockets.get_mut(ch).unwrap();
    match t.socket() {
        Socket::Tcp(s) => assert_eq!(s.state(), TcpState::Closed),
        _ => unreachable!(),
    }
    assert!(sockets.release(t).is_ok());
}

#[test]
fn poll_at_reports_earliest_deadline() {
    let mut sockets = Container::new(vec![]);
    assert_eq!(sockets.poll_at(), None);
    let mut a = tcp_socket();
    a.connect(IpEndpoint::new(IpAddress::v4(10, 0, 0, 2), 80), IpEndpoint::new(IpAddress::Unspecified, 5000))
        .unwrap();
    a.dispatch(1000).unwrap();
    a.dispatched(1000, 300);
    let mut b = tcp_socket();
    b.connect(IpEndpoint::new(IpAddress::v4(10, 0, 0, 3), 80), IpEndpoint::new(IpAddress::Unspecified, 5001))
        .unwrap();
    b.dispatch(1000).unwrap();
    b.dispatched(1000, 100);
    sockets.add(Socket::Tcp(a)).unwrap();
    assert_eq!(sockets.poll_at(), Some(1300));
    sockets.add(Socket::Tcp(b)).unwrap();
    assert_eq!(sockets.poll_at(), Some(1100));
    sockets.add(Socket::Udp(udp_socket())).unwrap();
    assert_eq!(sockets.poll_at(), Some(1100));
}

#[test]
fn exact_local_endpoint_is_selected_before_connection_or_listener() {
    let mut sockets = Container::new(vec![]);
    let exact = IpEndpoint::new(IpAddress::v4(10, 0, 0, 1), 80);
    let wild = IpEndpoint::new(IpAddress::Unspecified, 80);
    let other = IpEndpoint::new(IpAddress::v4(10, 0, 0, 3), 4000);
    // A wildcard listener, and a connection at the exact endpoint to another peer.
    let l = sockets.add(Socket::Tcp(tcp_socket())).unwrap();
    listen(&mut sockets, l, 1, wild);
    let mut c = tcp_socket();
    c.connect(other, exact).unwrap();
    sockets.add(Socket::Tcp(c)).unwrap();
    // The exact endpoint is in use, so only it is searched: nothing matches.
    assert!(sockets
        .get_tcp_socket(IpAddress::v4(10, 0, 0, 1), 80, IpAddress::v4(10, 0, 0, 2), 4000)
        .is_none());
    // Another address on the same port falls back to the wildcard listener.
    let t = sockets
        .get_tcp_socket(IpAddress::v4(10, 0, 0, 9), 80, IpAddress::v4(10, 0, 0, 2), 4000)
        .unwrap();
    assert_eq!(t.debug_id(), 1);
    assert!(sockets.release(t).is_ok());
}

#[test]
fn exact_listener_wins_over_wildcard_connection() {
    let mut sockets = Container::new(vec![]);
    let exact = IpEndpoint::new(IpAddress::v4(10, 0, 0, 1), 80);
    let wild = IpEndpoint::new(IpAddress::Unspecified, 80);
    let peer = IpEndpoint::new(IpAddress::v4(10, 0, 0, 2), 4000);
    let l = sockets.add(Socket::Tcp(tcp_socket())).unwrap();
    listen(&mut sockets, l, 7, exact);
    let mut c = tcp_socket();
    c.set_debug_id(8);
    c.connect(peer, wild).unwrap();
    sockets.add(Socket::Tcp(c)).unwrap();
    let t = sockets
        .get_tcp_socket(IpAddress::v4(10, 0, 0, 1), 80, IpAddress::v4(10, 0, 0, 2), 4000)
        .unwrap();
    assert_eq!(t.debug_id(), 7);
    assert!(sockets.release(t).is_ok());
}
