use smoltcp::arp_cache::SliceArpCache;
use smoltcp::container::Container;
use smoltcp::iface::Interface;
use smoltcp::phy::FrameQueue;
use smoltcp::raw::{RawPacket, RawSocket};
use smoltcp::ring_buffer::RingBuffer;
use smoltcp::socket::{AsSocket, Socket, SocketHandle};
use smoltcp::tcp::{TcpSocket, TcpState};
use smoltcp::udp::{UdpPacket, UdpSocket};
use smoltcp::wire::{
    ArpOperation, ArpRepr, EthernetAddress, EthernetFrame, EthernetPayload, Icmpv4DstUnreachable,
    Icmpv4Repr, IpAddress, IpEndpoint, IpPayload, IpProtocol, Ipv4Address, Ipv4Repr, TcpControl,
    TcpRepr, TcpSeqNumber, UdpRepr, IpVersion,
};

fn our_hw() -> EthernetAddress {
    EthernetAddress::new(0x02, 0x00, 0x00, 0x00, 0x00, 0x01)
}

fn peer_hw() -> EthernetAddress {
    EthernetAddress::new(0x02, 0x00, 0x00, 0x00, 0x00, 0x02)
}

fn our_ip() -> Ipv4Address {
    Ipv4Address::new(192, 168, 69, 1)
}

fn peer_ip() -> Ipv4Address {
    Ipv4Address::new(192, 168, 69, 100)
}

fn interface() -> Interface {
    Interface::new(
        FrameQueue::new(16, 1500),
        SliceArpCache::new(8),
        our_hw(),
        vec![IpAddress::Ipv4(our_ip())],
    )
}

fn ipv4_frame(protocol: IpProtocol, payload_len: usize, payload: IpPayload) -> EthernetFrame {
    EthernetFrame {
        dst_addr: our_hw(),
        src_addr: peer_hw(),
        payload: EthernetPayload::Ipv4 {
            header: Ipv4Repr { src_addr: peer_ip(), dst_addr: our_ip(), protocol, payload_len },
            payload,
        },
    }
}

fn tcp_segment(dst_port: u16, control: TcpControl, seq: u32, ack: Option<u32>) -> TcpRepr {
    TcpRepr {
        src_port: 50000,
        dst_port,
        control,
        push: false,
        seq_number: TcpSeqNumber(seq),
        ack_number: ack.map(TcpSeqNumber),
        window_len: 1024,
        max_seg_size: None,
        payload: vec![],
    }
}

fn tcp_frame(seg: TcpRepr) -> EthernetFrame {
    ipv4_frame(IpProtocol::Tcp, 20 + seg.payload.len(), IpPayload::Tcp(seg))
}

fn tcp_socket() -> TcpSocket {
    TcpSocket::new(RingBuffer::new_default(vec![0u8; 64]), RingBuffer::new_default(vec![0u8; 128]))
}

fn tcp_state(sockets: &mut Container, h: SocketHandle) -> TcpState {
    let t = sockets.get_mut(h).unwrap();
    let state = match t.socket() {
        Socket::Tcp(s) => s.state(),
        _ => unreachable!(),
    };
    assert!(sockets.release(t).is_ok());
    state
}

/// Whether the socket has transmit work, and whether it is queued for it.
fn dirty_flags(sockets: &mut Container, h: SocketHandle) -> (bool, bool) {
    let t = sockets.get_mut(h).unwrap();
    let r = (t.socket().is_dirty(), t.socket().is_on_dirty_list());
    assert!(sockets.release(t).is_ok());
    r
}

/// Listen on 6970 and complete the handshake with the peer (ISN 1000,
/// ours 0); returns the socket's handle.
fn established(iface: &mut Interface, sockets: &mut Container) -> SocketHandle {
    let h = sockets.add(Socket::Tcp(tcp_socket())).unwrap();
    let mut t = sockets.get_mut(h).unwrap();
    AsSocket::<TcpSocket>::as_socket(t.socket_mut())
        .listen(IpEndpoint::new(IpAddress::Unspecified, 6970))
        .unwrap();
    assert!(sockets.release(t).is_ok());
    iface.device_mut().inject(tcp_frame(tcp_segment(6970, TcpControl::Syn, 1000, None)));
    iface.poll(sockets, 0).unwrap();
    iface.poll(sockets, 1).unwrap();
    iface.device_mut().inject(tcp_frame(tcp_segment(6970, TcpControl::Plain, 1001, Some(1))));
    iface.poll(sockets, 2).unwrap();
    assert_eq!(tcp_state(sockets, h), TcpState::Established);
    iface.device_mut().take_transmitted();
    h
}

#[test]
fn arp_request_is_answered() {
    let mut iface = interface();
    let mut sockets = Container::new(vec![]);
    iface.device_mut().inject(EthernetFrame {
        dst_addr: EthernetAddress::broadcast(),
        src_addr: peer_hw(),
        payload: EthernetPayload::Arp(ArpRepr {
            operation: ArpOperation::Request,
            source_hardware_addr: peer_hw(),
            source_protocol_addr: peer_ip(),
            target_hardware_addr: EthernetAddress::new(0, 0, 0, 0, 0, 0),
            target_protocol_addr: our_ip(),
        }),
    });
    assert_eq!(iface.poll(&mut sockets, 0), Ok(()));
    let sent = iface.device_mut().take_transmitted();
    assert_eq!(
        sent,
        vec![EthernetFrame {
            dst_addr: peer_hw(),
            src_addr: our_hw(),
            payload: EthernetPayload::Arp(ArpRepr {
                operation: ArpOperation::Reply,
                source_hardware_addr: our_hw(),
                source_protocol_addr: our_ip(),
                target_hardware_addr: peer_hw(),
                target_protocol_addr: peer_ip(),
            }),
        }]
    );
    assert_eq!(iface.arp_cache().lookup(&IpAddress::Ipv4(peer_ip())), Some(peer_hw()));
}

#[test]
fn icmp_echo_is_answered() {
    let mut iface = interface();
    let mut sockets = Container::new(vec![]);
    iface.arp_cache_mut().fill(&IpAddress::Ipv4(peer_ip()), &peer_hw());
    let request = Icmpv4Repr::EchoRequest { ident: 42, seq_no: 7, data: vec![0xDE, 0xAD] };
    iface.device_mut().inject(ipv4_frame(IpProtocol::Icmp, 10, IpPayload::Icmpv4(request)));
    assert_eq!(iface.poll(&mut sockets, 0), Ok(()));
    let sent = iface.device_mut().take_transmitted();
    assert_eq!(
        sent,
        vec![EthernetFrame {
            dst_addr: peer_hw(),
            src_addr: our_hw(),
            payload: EthernetPayload::Ipv4 {
                header: Ipv4Repr {
                    src_addr: our_ip(),
                    dst_addr: peer_ip(),
                    protocol: IpProtocol::Icmp,
                    payload_len: 10,
                },
                payload: IpPayload::Icmpv4(Icmpv4Repr::EchoReply {
                    ident: 42,
                    seq_no: 7,
                    data: vec![0xDE, 0xAD],
                }),
            },
        }]
    );
}

#[test]
fn tcp_listen_syn_ack_then_established() {
    let mut iface = interface();
    let mut sockets = Container::new(vec![]);
    let h = sockets.add(Socket::Tcp(tcp_socket())).unwrap();
    let mut t = sockets.get_mut(h).unwrap();
    AsSocket::<TcpSocket>::as_socket(t.socket_mut())
        .listen(IpEndpoint::new(IpAddress::Unspecified, 6970))
        .unwrap();
    assert!(sockets.release(t).is_ok());

    iface.device_mut().inject(tcp_frame(tcp_segment(6970, TcpControl::Syn, 1000, None)));
    iface.poll(&mut sockets, 0).unwrap();
    assert_eq!(tcp_state(&mut sockets, h), TcpState::SynReceived);
    // The SYN/ACK leaves in the transmit pass of the next poll.
    iface.poll(&mut sockets, 1).unwrap();
    let sent = iface.device_mut().take_transmitted();
    assert_eq!(sent.len(), 1);
    let isn = match &sent[0].payload {
        EthernetPayload::Ipv4 { header, payload: IpPayload::Tcp(seg) } => {
            assert_eq!(header.src_addr, our_ip());
            assert_eq!(header.dst_addr, peer_ip());
            assert_eq!(seg.control, TcpControl::Syn);
            assert_eq!(seg.ack_number, Some(TcpSeqNumber(1001)));
            assert_eq!(seg.src_port, 6970);
            assert_eq!(seg.dst_port, 50000);
            seg.seq_number
        }
        other => panic!("unexpected frame {:?}", other),
    };
    assert_eq!(sent[0].dst_addr, peer_hw());

    iface.device_mut().inject(tcp_frame(tcp_segment(
        6970,
        TcpControl::Plain,
        1001,
        Some(isn.0.wrapping_add(1)),
    )));
    iface.poll(&mut sockets, 2).unwrap();
    iface.poll(&mut sockets, 3).unwrap();
    assert_eq!(tcp_state(&mut sockets, h), TcpState::Established);
    assert!(iface.device_mut().take_transmitted().is_empty());
}

#[test]
fn tcp_segment_to_closed_port_gets_reset() {
    let mut iface = interface();
    let mut sockets = Container::new(vec![]);
    iface.device_mut().inject(tcp_frame(tcp_segment(9999, TcpControl::Syn, 1000, None)));
    iface.poll(&mut sockets, 0).unwrap();
    let sent = iface.device_mut().take_transmitted();
    assert_eq!(sent.len(), 1);
    match &sent[0].payload {
        EthernetPayload::Ipv4 { header, payload: IpPayload::Tcp(seg) } => {
            assert_eq!(header.protocol, IpProtocol::Tcp);
            assert_eq!(header.dst_addr, peer_ip());
            assert_eq!(seg.control, TcpControl::Rst);
            assert_eq!(seg.src_port, 9999);
            assert_eq!(seg.dst_port, 50000);
            assert_eq!(seg.seq_number, TcpSeqNumber(0));
            assert_eq!(seg.ack_number, Some(TcpSeqNumber(1001)));
        }
        other => panic!("unexpected frame {:?}", other),
    }
}

#[test]
fn tcp_reset_to_closed_port_is_not_answered() {
    let mut iface = interface();
    let mut sockets = Container::new(vec![]);
    iface.device_mut().inject(tcp_frame(tcp_segment(9999, TcpControl::Rst, 1000, Some(5))));
    iface.poll(&mut sockets, 0).unwrap();
    assert!(iface.device_mut().take_transmitted().is_empty());
}

#[test]
fn tcp_reset_acknowledges_payload_and_takes_ack_as_seq() {
    let mut iface = interface();
    let mut sockets = Container::new(vec![]);
    let mut seg = tcp_segment(9999, TcpControl::Fin, 0xffff_fffe, Some(77));
    seg.payload = vec![1, 2, 3];
    iface.device_mut().inject(tcp_frame(seg));
    iface.poll(&mut sockets, 0).unwrap();
    let sent = iface.device_mut().take_transmitted();
    match &sent[0].payload {
        EthernetPayload::Ipv4 { payload: IpPayload::Tcp(rst), .. } => {
            assert_eq!(rst.seq_number, TcpSeqNumber(77));
            // 3 bytes and a FIN past 0xfffffffe wrap around to 2.
            assert_eq!(rst.ack_number, Some(TcpSeqNumber(2)));
        }
        other => panic!("unexpected frame {:?}", other),
    }
}

#[test]
fn udp_to_closed_port_gets_port_unreachable() {
    let mut iface = interface();
    let mut sockets = Container::new(vec![]);
    let udp = UdpRepr { src_port: 5000, dst_port: 7777, checksum: 0xbeef, payload: vec![1, 2, 3] };
    let frame = ipv4_frame(IpProtocol::Udp, 11, IpPayload::Udp(udp));
    let received = Ipv4Repr {
        src_addr: peer_ip(),
        dst_addr: our_ip(),
        protocol: IpProtocol::Udp,
        payload_len: 11,
    };
    iface.device_mut().inject(frame);
    iface.poll(&mut sockets, 0).unwrap();
    let sent = iface.device_mut().take_transmitted();
    assert_eq!(
        sent,
        vec![EthernetFrame {
            dst_addr: peer_hw(),
            src_addr: our_hw(),
            payload: EthernetPayload::Ipv4 {
                header: Ipv4Repr {
                    src_addr: our_ip(),
                    dst_addr: peer_ip(),
                    protocol: IpProtocol::Icmp,
                    payload_len: 36,
                },
                payload: IpPayload::Icmpv4(Icmpv4Repr::DstUnreachable {
                    reason: Icmpv4DstUnreachable::PortUnreachable,
                    header: received,
                    data: vec![0x13, 0x88, 0x1e, 0x61, 0x00, 0x0b, 0xbe, 0xef],
                }),
            },
        }]
    );
}

#[test]
fn udp_to_bound_socket_is_delivered() {
    let mut iface = interface();
    let mut sockets = Container::new(vec![]);
    let mut s = UdpSocket::new(
        RingBuffer::new_default(vec![UdpPacket::default(); 2]),
        RingBuffer::new_default(vec![UdpPacket::default(); 2]),
    );
    s.bind(IpEndpoint::new(IpAddress::Unspecified, 7777));
    let h = sockets.add(Socket::Udp(s)).unwrap();
    let udp = UdpRepr { src_port: 5000, dst_port: 7777, checksum: 0, payload: vec![9, 8] };
    iface.device_mut().inject(ipv4_frame(IpProtocol::Udp, 10, IpPayload::Udp(udp)));
    iface.poll(&mut sockets, 0).unwrap();
    assert!(iface.device_mut().take_transmitted().is_empty());
    let mut t = sockets.get_mut(h).unwrap();
    let got = AsSocket::<UdpSocket>::as_socket(t.socket_mut()).recv().unwrap();
    assert_eq!(got.payload, vec![9, 8]);
    assert_eq!(got.endpoint, IpEndpoint::new(IpAddress::Ipv4(peer_ip()), 5000));
    assert!(sockets.release(t).is_ok());
}

#[test]
fn udp_send_goes_out_on_next_poll() {
    let mut iface = interface();
    let mut sockets = Container::new(vec![]);
    iface.arp_cache_mut().fill(&IpAddress::Ipv4(peer_ip()), &peer_hw());
    let mut s = UdpSocket::new(
        RingBuffer::new_default(vec![UdpPacket::default(); 2]),
        RingBuffer::new_default(vec![UdpPacket::default(); 2]),
    );
    s.bind(IpEndpoint::new(IpAddress::Unspecified, 1234));
    let h = sockets.add(Socket::Udp(s)).unwrap();
    let mut t = sockets.get_mut(h).unwrap();
    AsSocket::<UdpSocket>::as_socket(t.socket_mut())
        .send_slice(&[5, 6, 7], IpEndpoint::new(IpAddress::Ipv4(peer_ip()), 53))
        .unwrap();
    assert!(sockets.release(t).is_ok());
    iface.poll(&mut sockets, 0).unwrap();
    let sent = iface.device_mut().take_transmitted();
    assert_eq!(
        sent,
        vec![EthernetFrame {
            dst_addr: peer_hw(),
            src_addr: our_hw(),
            payload: EthernetPayload::Ipv4 {
                header: Ipv4Repr {
                    src_addr: our_ip(),
                    dst_addr: peer_ip(),
                    protocol: IpProtocol::Udp,
                    payload_len: 11,
                },
                payload: IpPayload::Udp(UdpRepr { src_port: 1234, dst_port: 53, checksum: 0, payload: vec![5, 6, 7] }),
            },
        }]
    );
    assert_eq!(dirty_flags(&mut sockets, h), (false, false));
}

#[test]
fn unknown_protocol_gets_protocol_unreachable() {
    let mut iface = interface();
    let mut sockets = Container::new(vec![]);
    let bytes: Vec<u8> = (0u8..12).collect();
    iface.device_mut().inject(ipv4_frame(IpProtocol::Unknown(200), 12, IpPayload::Raw(bytes)));
    iface.poll(&mut sockets, 0).unwrap();
    let sent = iface.device_mut().take_transmitted();
    assert_eq!(sent.len(), 1);
    match &sent[0].payload {
        EthernetPayload::Ipv4 { header, payload: IpPayload::Icmpv4(Icmpv4Repr::DstUnreachable { reason, data, .. }) } => {
            assert_eq!(header.protocol, IpProtocol::Icmp);
            assert_eq!(*reason, Icmpv4DstUnreachable::ProtoUnreachable);
            assert_eq!(data, &vec![0, 1, 2, 3, 4, 5, 6, 7]);
        }
        other => panic!("unexpected frame {:?}", other),
    }
}

#[test]
fn dirty_socket_waits_for_arp_then_sends() {
    // A dirty queue with room for several handles: the pass still visits
    // the socket once.
    let mut sockets = Container::new(vec![SocketHandle(0); 4]);
    let h = {
        let mut first = interface();
        established(&mut first, &mut sockets)
    };
    let mut t = sockets.get_mut(h).unwrap();
    let n = AsSocket::<TcpSocket>::as_socket(t.socket_mut()).send_slice(b"hello").unwrap();
    assert_eq!(n, 5);
    assert!(sockets.release(t).is_ok());

    // A fresh interface knows no hardware address for the peer.
    let mut iface = interface();
    iface.poll(&mut sockets, 10).unwrap();
    let sent = iface.device_mut().take_transmitted();
    assert_eq!(
        sent,
        vec![EthernetFrame {
            dst_addr: EthernetAddress::broadcast(),
            src_addr: our_hw(),
            payload: EthernetPayload::Arp(ArpRepr {
                operation: ArpOperation::Request,
                source_hardware_addr: our_hw(),
                source_protocol_addr: our_ip(),
                target_hardware_addr: EthernetAddress::new(0, 0, 0, 0, 0, 0),
                target_protocol_addr: peer_ip(),
            }),
        }]
    );
    assert_eq!(dirty_flags(&mut sockets, h), (true, true));

    iface.device_mut().inject(EthernetFrame {
        dst_addr: our_hw(),
        src_addr: peer_hw(),
        payload: EthernetPayload::Arp(ArpRepr {
            operation: ArpOperation::Reply,
            source_hardware_addr: peer_hw(),
            source_protocol_addr: peer_ip(),
            target_hardware_addr: our_hw(),
            target_protocol_addr: our_ip(),
        }),
    });
    // The transmit pass runs before the reply is read, so this poll asks once more.
    iface.poll(&mut sockets, 11).unwrap();
    assert_eq!(iface.arp_cache().lookup(&IpAddress::Ipv4(peer_ip())), Some(peer_hw()));
    iface.device_mut().take_transmitted();
    iface.poll(&mut sockets, 12).unwrap();
    let sent = iface.device_mut().take_transmitted();
    assert_eq!(sent.len(), 1);
    match &sent[0].payload {
        EthernetPayload::Ipv4 { payload: IpPayload::Tcp(seg), .. } => {
            assert_eq!(seg.payload, b"hello".to_vec());
            assert_eq!(seg.seq_number, TcpSeqNumber(1));
            assert_eq!(seg.ack_number, Some(TcpSeqNumber(1001)));
        }
        other => panic!("unexpected frame {:?}", other),
    }
    assert_eq!(sent[0].dst_addr, peer_hw());
    // Sent but not yet acknowledged: the socket watches its retransmission deadline.
    assert_eq!(dirty_flags(&mut sockets, h), (true, true));
    iface.device_mut().inject(tcp_frame(tcp_segment(6970, TcpControl::Plain, 1001, Some(6))));
    iface.poll(&mut sockets, 13).unwrap();
    iface.poll(&mut sockets, 14).unwrap();
    assert!(iface.device_mut().take_transmitted().is_empty());
    assert_eq!(dirty_flags(&mut sockets, h), (false, false));
}

#[test]
fn ipv4_source_pair_fills_arp_cache() {
    let mut iface = interface();
    let mut sockets = Container::new(vec![]);
    let reply = Icmpv4Repr::EchoReply { ident: 1, seq_no: 1, data: vec![] };
    iface.device_mut().inject(ipv4_frame(IpProtocol::Icmp, 8, IpPayload::Icmpv4(reply)));
    iface.poll(&mut sockets, 0).unwrap();
    assert_eq!(iface.arp_cache().lookup(&IpAddress::Ipv4(peer_ip())), Some(peer_hw()));
    assert!(iface.device_mut().take_transmitted().is_empty());
}

#[test]
fn frame_for_other_host_is_ignored() {
    let mut iface = interface();
    let mut sockets = Container::new(vec![]);
    let mut frame = tcp_frame(tcp_segment(9999, TcpControl::Syn, 1, None));
    frame.dst_addr = EthernetAddress::new(0x02, 0, 0, 0, 0, 0x99);
    iface.device_mut().inject(frame);
    assert_eq!(iface.poll(&mut sockets, 0), Ok(()));
    assert!(iface.device_mut().take_transmitted().is_empty());
    assert_eq!(iface.arp_cache().lookup(&IpAddress::Ipv4(peer_ip())), None);
}

#[test]
fn non_unicast_source_is_malformed() {
    let mut iface = interface();
    let mut sockets = Container::new(vec![]);
    let mut frame = tcp_frame(tcp_segment(9999, TcpControl::Syn, 1, None));
    if let EthernetPayload::Ipv4 { header, .. } = &mut frame.payload {
        header.src_addr = Ipv4Address::new(255, 255, 255, 255);
    }
    iface.device_mut().inject(frame);
    assert_eq!(iface.poll(&mut sockets, 0), Err(smoltcp::error::Error::Malformed));
}

#[test]
fn unknown_ethertype_is_unrecognized() {
    let mut iface = interface();
    let mut sockets = Container::new(vec![]);
    iface.device_mut().inject(EthernetFrame {
        dst_addr: our_hw(),
        src_addr: peer_hw(),
        payload: EthernetPayload::Other { ethertype: 0x86dd },
    });
    assert_eq!(iface.poll(&mut sockets, 0), Err(smoltcp::error::Error::Unrecognized));
}

#[test]
fn empty_device_poll_is_ok() {
    let mut iface = interface();
    let mut sockets = Container::new(vec![]);
    assert_eq!(iface.poll(&mut sockets, 0), Ok(()));
}

#[test]
fn lower_rejects_unconfigured_source() {
    let iface = interface();
    let ip = smoltcp::wire::IpRepr::Unspecified {
        src_addr: IpAddress::v4(10, 9, 9, 9),
        dst_addr: IpAddress::Ipv4(peer_ip()),
        protocol: IpProtocol::Udp,
        payload_len: 8,
    };
    assert_eq!(iface.lower(&ip), Err(smoltcp::error::Error::Unaddressable));
    let ip = smoltcp::wire::IpRepr::Unspecified {
        src_addr: IpAddress::Unspecified,
        dst_addr: IpAddress::Ipv4(peer_ip()),
        protocol: IpProtocol::Udp,
        payload_len: 8,
    };
    let v = iface.lower(&ip).unwrap();
    assert_eq!(v.src_addr, our_ip());
    assert!(iface.has_protocol_addr(IpAddress::Ipv4(our_ip())));
    assert!(!iface.has_protocol_addr(IpAddress::Ipv4(peer_ip())));
}

#[test]
fn oversized_tcp_payload_is_malformed() {
    let mut iface = interface();
    let mut sockets = Container::new(vec![]);
    let mut seg = tcp_segment(9999, TcpControl::Syn, 1, None);
    seg.payload = vec![0u8; 65516];
    iface.device_mut().inject(tcp_frame(seg));
    assert_eq!(iface.poll(&mut sockets, 0), Err(smoltcp::error::Error::Malformed));
    assert!(iface.device_mut().take_transmitted().is_empty());
}

#[test]
fn full_device_holds_back_the_reply() {
    let mut iface = Interface::new(
        FrameQueue::new(0, 1500),
        SliceArpCache::new(4),
        our_hw(),
        vec![IpAddress::Ipv4(our_ip())],
    );
    let mut sockets = Container::new(vec![]);
    iface.device_mut().inject(tcp_frame(tcp_segment(9999, TcpControl::Syn, 1000, None)));
    assert_eq!(iface.poll(&mut sockets, 0), Err(smoltcp::error::Error::Exhausted));
    assert!(iface.device_mut().take_transmitted().is_empty());
}

#[test]
fn protocol_addresses_can_be_rewritten() {
    let mut iface = interface();
    iface.update_protocol_addrs(|mut v| {
        v.push(IpAddress::v4(10, 0, 0, 1));
        v
    });
    assert!(iface.has_protocol_addr(IpAddress::v4(10, 0, 0, 1)));
    assert!(iface.has_protocol_addr(IpAddress::Ipv4(our_ip())));
    assert_eq!(iface.protocol_addrs().len(), 2);
}

#[test]
fn udp_datagram_waits_for_arp_then_sends() {
    let mut iface = interface();
    let mut sockets = Container::new(vec![SocketHandle(0); 4]);
    let mut s = UdpSocket::new(
        RingBuffer::new_default(vec![UdpPacket::default(); 2]),
        RingBuffer::new_default(vec![UdpPacket::default(); 2]),
    );
    s.bind(IpEndpoint::new(IpAddress::Unspecified, 1234));
    let h = sockets.add(Socket::Udp(s)).unwrap();
    let mut t = sockets.get_mut(h).unwrap();
    AsSocket::<UdpSocket>::as_socket(t.socket_mut())
        .send_slice(&[5, 6, 7], IpEndpoint::new(IpAddress::Ipv4(peer_ip()), 53))
        .unwrap();
    assert!(sockets.release(t).is_ok());
    iface.poll(&mut sockets, 0).unwrap();
    let sent = iface.device_mut().take_transmitted();
    assert_eq!(sent.len(), 1);
    assert!(matches!(sent[0].payload, EthernetPayload::Arp(ArpRepr { operation: ArpOperation::Request, .. })));
    // The datagram is still queued and the socket still on the dirty queue.
    assert_eq!(dirty_flags(&mut sockets, h), (true, true));
    iface.arp_cache_mut().fill(&IpAddress::Ipv4(peer_ip()), &peer_hw());
    iface.poll(&mut sockets, 1).unwrap();
    let sent = iface.device_mut().take_transmitted();
    assert_eq!(sent.len(), 1);
    match &sent[0].payload {
        EthernetPayload::Ipv4 { payload: IpPayload::Udp(u), .. } => assert_eq!(u.payload, vec![5, 6, 7]),
        other => panic!("unexpected frame {:?}", other),
    }
    assert_eq!(dirty_flags(&mut sockets, h), (false, false));
}

#[test]
fn raw_socket_takes_unknown_protocol_instead_of_unreachable() {
    let mut iface = interface();
    let mut sockets = Container::new(vec![]);
    let raw = RawSocket::new(
        IpVersion::Ipv4,
        IpProtocol::Unknown(200),
        RingBuffer::new_default(vec![RawPacket::default(); 1]),
        RingBuffer::new_default(vec![RawPacket::default(); 1]),
    );
    let h = sockets.add(Socket::Raw(raw)).unwrap();
    let bytes: Vec<u8> = (0u8..12).collect();
    iface.device_mut().inject(ipv4_frame(IpProtocol::Unknown(200), 12, IpPayload::Raw(bytes.clone())));
    assert_eq!(iface.poll(&mut sockets, 0), Ok(()));
    assert!(iface.device_mut().take_transmitted().is_empty());
    let mut t = sockets.get_mut(h).unwrap();
    let got = AsSocket::<RawSocket>::as_socket(t.socket_mut()).recv().unwrap();
    assert_eq!(got.payload, IpPayload::Raw(bytes));
    assert!(sockets.release(t).is_ok());
    // A second packet finds the receive buffer full: Exhausted is returned.
    iface.device_mut().inject(ipv4_frame(IpProtocol::Unknown(200), 1, IpPayload::Raw(vec![1])));
    iface.device_mut().inject(ipv4_frame(IpProtocol::Unknown(200), 1, IpPayload::Raw(vec![2])));
    assert_eq!(iface.poll(&mut sockets, 1), Ok(()));
    assert_eq!(iface.poll(&mut sockets, 2), Err(smoltcp::error::Error::Exhausted));
}
