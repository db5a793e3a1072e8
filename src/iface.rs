use vstd::prelude::*;

use crate::arp_cache::SliceArpCache;
use crate::container::{Container, DirtyIter};
use crate::error::Error;
use crate::phy::FrameQueue;
use crate::socket::{socket_key, IndexKey, Socket};
use crate::tcp::TcpSocket;
use crate::udp::{UdpPacket, UdpSocket};
use crate::raw::{RawPacket, RawSocket};
use crate::wire::{
    seq_add, ArpOperation, ArpRepr, EthernetAddress, EthernetFrame, EthernetPayload,
    same_payload, Icmpv4DstUnreachable, Icmpv4Repr, IpAddress, IpEndpoint, IpPayload, IpProtocol, IpRepr, Ipv4Address,
    Ipv4Repr, IpVersion, TcpControl, TcpRepr, TcpSeqNumber, UdpRepr, raw_key, IPV4_HEADER_LEN,
    TCP_HEADER_LEN,
    UDP_HEADER_LEN,
};

verus! {

/// A reply that the interface owes to a received frame.
#[derive(Debug)]
pub enum Response {
    Nop,
    Arp(ArpRepr),
    Icmpv4(Ipv4Repr, Icmpv4Repr),
    Tcpv4(Ipv4Repr, TcpRepr),
}

/// Length of an ICMPv4 header.
pub const ICMP_HEADER_LEN: usize = 8;

/// Largest payload an IPv4 packet carries beside a minimal header.
pub const IPV4_MAX_PAYLOAD: usize = 65515;

/// The IPv4 header of a reply to `header`: addresses swapped.
pub open spec fn reply_header(header: Ipv4Repr, protocol: IpProtocol, payload_len: int) -> Ipv4Repr {
    Ipv4Repr {
        src_addr: header.dst_addr,
        dst_addr: header.src_addr,
        protocol,
        payload_len: payload_len as usize,
    }
}

/// The high octet of a 16-bit value.
pub open spec fn hi(v: u16) -> u8 {
    (v / 0x100) as u8
}

/// The low octet of a 16-bit value.
pub open spec fn lo(v: u16) -> u8 {
    (v % 0x100) as u8
}

/// The eight octets of the UDP header of `udp` as it was received: ports,
/// length and checksum in network order.
pub open spec fn udp_header_bytes(udp: UdpRepr) -> Seq<u8> {
    let len = (UDP_HEADER_LEN + udp.payload@.len()) as u16;
    seq![
        hi(udp.src_port),
        lo(udp.src_port),
        hi(udp.dst_port),
        lo(udp.dst_port),
        hi(len),
        lo(len),
        hi(udp.checksum),
        lo(udp.checksum),
    ]
}

/// Whether `(ip, rst)` is the reset that answers segment `seg` carried by
/// `header`: ports and addresses swapped, the sequence number taken from
/// the segment's acknowledgement, and an acknowledgement of all the
/// sequence space the segment occupied.
pub open spec fn is_reset_reply(ip: Ipv4Repr, rst: TcpRepr, header: Ipv4Repr, seg: TcpRepr) -> bool {
    &&& ip == reply_header(header, IpProtocol::Tcp, TCP_HEADER_LEN as int)
    &&& rst.src_port == seg.dst_port
    &&& rst.dst_port == seg.src_port
    &&& rst.control == TcpControl::Rst
    &&& rst.seq_number == match seg.ack_number {
        Some(a) => a,
        None => TcpSeqNumber(0),
    }
    &&& rst.ack_number == Some(seq_add(seg.seq_number, seg.spec_segment_len()))
    &&& rst.window_len == 0
    &&& !rst.push
    &&& rst.max_seg_size is None
    &&& rst.payload@.len() == 0
}

/// Whether `(ip, icmp)` is the Port Unreachable message that answers the
/// datagram `udp` carried by `header`: it quotes the IPv4 header and the
/// eight octets of the UDP header.
pub open spec fn is_port_unreachable_reply(ip: Ipv4Repr, icmp: Icmpv4Repr, header: Ipv4Repr, udp: UdpRepr) -> bool {
    &&& ip == reply_header(
        header,
        IpProtocol::Icmp,
        (ICMP_HEADER_LEN + IPV4_HEADER_LEN + UDP_HEADER_LEN) as int,
    )
    &&& icmp matches Icmpv4Repr::DstUnreachable { reason, header: quoted, data }
    &&& reason == Icmpv4DstUnreachable::PortUnreachable
    &&& quoted == header
    &&& data@ == udp_header_bytes(udp)
}

/// The reply that an ICMPv4 message carried by `header` calls for: an echo
/// reply with the request's identifier, sequence number and data to an echo
/// request, nothing to an echo reply; other messages are `Unrecognized`, and
/// data too long for one packet is `Malformed`.
pub open spec fn icmp_response(header: Ipv4Repr, icmp: Icmpv4Repr) -> Result<Response, Error> {
    match icmp {
        Icmpv4Repr::EchoRequest { ident, seq_no, data } => if data@.len() <= IPV4_MAX_PAYLOAD
            - ICMP_HEADER_LEN {
            Ok(
                Response::Icmpv4(
                    reply_header(header, IpProtocol::Icmp, ICMP_HEADER_LEN + data@.len()),
                    Icmpv4Repr::EchoReply { ident, seq_no, data },
                ),
            )
        } else {
            Err(Error::Malformed)
        },
        Icmpv4Repr::EchoReply { .. } => Ok(Response::Nop),
        _ => Err(Error::Unrecognized),
    }
}

/// Whether `(ip, icmp)` is the Protocol Unreachable message that answers an
/// IPv4 packet `header` with unparsed payload `bytes`: it quotes the header
/// and the first eight octets of the payload (all of it when shorter).
pub open spec fn is_proto_unreachable_reply(ip: Ipv4Repr, icmp: Icmpv4Repr, header: Ipv4Repr, bytes: Seq<u8>) -> bool {
    let n = if bytes.len() < 8 {
        bytes.len()
    } else {
        8
    };
    &&& ip == reply_header(header, IpProtocol::Icmp, ICMP_HEADER_LEN + IPV4_HEADER_LEN + n)
    &&& icmp matches Icmpv4Repr::DstUnreachable { reason, header: quoted, data }
    &&& reason == Icmpv4DstUnreachable::ProtoUnreachable
    &&& quoted == header
    &&& data@ == bytes.subrange(0, n as int)
}

/// Whether `r` succeeds exactly when `r0` does, with the same error.
pub open spec fn same_outcome(r: Result<(), Error>, r0: Result<Response, Error>) -> bool {
    match r0 {
        Ok(_) => r is Ok,
        Err(e) => r == Err::<(), Error>(e),
    }
}

/// What a delivery returns: `Nop` once the socket took the packet, else the
/// socket's error.
pub open spec fn delivered(pr: Result<(), Error>) -> Result<Response, Error> {
    match pr {
        Ok(_) => Ok(Response::Nop),
        Err(e) => Err(e),
    }
}

/// The segment went to the TCP socket filed under `key` in `c0`: that
/// socket took it as `process_accepted` states, and is back in `c1` with the
/// delivery's result returned, or, only when its binding changed to one that
/// another socket holds, has left the container and `AlreadyInUse` is
/// returned.
pub open spec fn tcp_delivery(
    c0: Container,
    c1: Container,
    timestamp: u64,
    header: Ipv4Repr,
    seg: TcpRepr,
    key: IndexKey,
    r: Result<Response, Error>,
) -> bool {
    exists|h: usize, s0: TcpSocket, s1: TcpSocket, pr: Result<(), Error>|
        #![trigger c0.socket_at(h), TcpSocket::spec_processed(s0, s1, timestamp, IpRepr::Ipv4(header), seg, pr)]
        {
            &&& c0.live(h)
            &&& c0.socket_at(h) == Socket::Tcp(s0)
            &&& socket_key(Socket::Tcp(s0)) == Some(key)
            &&& TcpSocket::spec_processed(s0, s1, timestamp, IpRepr::Ipv4(header), seg, pr)
            &&& (c1.live(h) && c1.socket_at(h).same_but_flag(&Socket::Tcp(s1)) && r == delivered(pr))
                || (!c1.live(h) && r == Err::<Response, Error>(Error::AlreadyInUse) && socket_key(
                Socket::Tcp(s1),
            ) != socket_key(Socket::Tcp(s0)) && (socket_key(Socket::Tcp(s1)) matches Some(k)
                && c0.index().taken(k)))
        }
}

/// The datagram went to the UDP socket filed under `key` in `c0`, as for
/// `tcp_delivery`.
pub open spec fn udp_delivery(
    c0: Container,
    c1: Container,
    header: Ipv4Repr,
    udp: UdpRepr,
    key: IndexKey,
    r: Result<Response, Error>,
) -> bool {
    exists|h: usize, s0: UdpSocket, s1: UdpSocket, pr: Result<(), Error>|
        #![trigger c0.socket_at(h), UdpSocket::spec_processed(s0, s1, IpRepr::Ipv4(header), udp, pr)]
        {
            &&& c0.live(h)
            &&& c0.socket_at(h) == Socket::Udp(s0)
            &&& socket_key(Socket::Udp(s0)) == Some(key)
            &&& UdpSocket::spec_processed(s0, s1, IpRepr::Ipv4(header), udp, pr)
            &&& (c1.live(h) && c1.socket_at(h).same_but_flag(&Socket::Udp(s1)) && r == delivered(pr))
                || (!c1.live(h) && r == Err::<Response, Error>(Error::AlreadyInUse) && socket_key(
                Socket::Udp(s1),
            ) != socket_key(Socket::Udp(s0)) && (socket_key(Socket::Udp(s1)) matches Some(k)
                && c0.index().taken(k)))
        }
}

/// What sending IP header `ip` with `payload` does, seen from `i0` and
/// `i1`: the header is lowered, and one frame goes out, to the next hop's
/// hardware address when the ARP cache knows it (`sent`), else a broadcast
/// ARP request for the destination.
pub open spec fn ip_sent(i0: Interface, i1: Interface, ip: IpRepr, payload: IpPayload, sent: bool) -> bool {
    exists|v: Ipv4Repr| {
        &&& IpAddress::Ipv4(v.dst_addr) == ip.spec_dst_addr()
        &&& Some(v.src_addr) == i0.spec_lowered_src(ip.spec_src_addr())
        &&& v.protocol == ip.spec_protocol()
        &&& v.payload_len == ip.spec_payload_len()
        &&& i1.spec_device().tx_view() == i0.spec_device().tx_view().push(
            match i0.spec_arp_cache().entry(IpAddress::Ipv4(v.dst_addr)) {
                Some(hw) => EthernetFrame {
                    dst_addr: hw,
                    src_addr: i0.spec_hardware_addr(),
                    payload: EthernetPayload::Ipv4 { header: v, payload },
                },
                None => EthernetFrame {
                    dst_addr: EthernetAddress { value: crate::wire::ETHERNET_BROADCAST },
                    src_addr: i0.spec_hardware_addr(),
                    payload: EthernetPayload::Arp(
                        ArpRepr {
                            operation: ArpOperation::Request,
                            source_hardware_addr: i0.spec_hardware_addr(),
                            source_protocol_addr: v.src_addr,
                            target_hardware_addr: EthernetAddress { value: 0 },
                            target_protocol_addr: v.dst_addr,
                        },
                    ),
                },
            },
        )
        &&& sent == i0.spec_arp_cache().entry(IpAddress::Ipv4(v.dst_addr)) is Some
    }
}

/// The TCP payload that fits in one frame of `mtu` bytes.
pub open spec fn tcp_max_payload(mtu: usize) -> usize {
    if mtu > IPV4_HEADER_LEN + TCP_HEADER_LEN {
        (mtu - (IPV4_HEADER_LEN + TCP_HEADER_LEN)) as usize
    } else {
        0
    }
}

/// What sending a socket's queued work does: interface `i0` and socket `s0`
/// become `i1` and `s1` with result `r`, as `dispatch_socket` states.
pub open spec fn dispatch_rel(
    i0: Interface,
    s0: Socket,
    i1: Interface,
    s1: Socket,
    timestamp: u64,
    r: Result<(), Error>,
) -> bool {
    &&& i1.wf()
    &&& s1.wf()
    &&& i1.spec_arp_cache() == i0.spec_arp_cache()
    &&& i1.same_config(&i0)
    &&& i1.spec_device().rx_view() == i0.spec_device().rx_view()
    &&& i1.spec_device().spec_tx_limit() == i0.spec_device().spec_tx_limit()
    &&& i1.spec_device().spec_mtu() == i0.spec_device().spec_mtu()
    &&& !i0.spec_device().can_transmit() ==> r == Err::<(), Error>(Error::Exhausted) && s1 == s0
        && i1.spec_device().tx_view() == i0.spec_device().tx_view()
    &&& i1.spec_device().tx_view() == i0.spec_device().tx_view() || exists|f: EthernetFrame|
        i1.spec_device().tx_view() == i0.spec_device().tx_view().push(f)
    &&& i0.spec_device().can_transmit() ==> match (s0, s1) {
        (Socket::Raw(a), Socket::Raw(b)) => {
            &&& b.rx_view() == a.rx_view()
            &&& a.tx_view().len() == 0 ==> r is Ok && b.tx_view() == a.tx_view()
                && i1.spec_device().tx_view() == i0.spec_device().tx_view()
            &&& a.tx_view().len() > 0 ==> {
                let p = a.tx_view()[0];
                &&& r is Ok <==> (p.header.spec_dst_addr() is Ipv4 && i0.spec_lowered_src(
                    p.header.spec_src_addr(),
                ) is Some)
                &&& r is Err ==> r == Err::<(), Error>(Error::Unaddressable) && b.tx_view()
                    == a.tx_view().drop_first() && i1.spec_device().tx_view() == i0.spec_device().tx_view()
                &&& r is Ok ==> exists|sent: bool|
                    #![trigger ip_sent(i0, i1, p.header, p.payload, sent)]
                    ip_sent(i0, i1, p.header, p.payload, sent) && b.tx_view() == if sent {
                        a.tx_view().drop_first()
                    } else {
                        a.tx_view()
                    }
            }
        },
        (Socket::Udp(a), Socket::Udp(b)) => {
            &&& b.rx_view() == a.rx_view()
            &&& b.spec_endpoint() == a.spec_endpoint()
            &&& a.tx_view().len() == 0 ==> r is Ok && b.tx_view() == a.tx_view()
                && i1.spec_device().tx_view() == i0.spec_device().tx_view()
            &&& a.tx_view().len() > 0 ==> {
                let (ip, pl) = a.spec_emitted(a.tx_view()[0]);
                &&& r is Ok <==> (a.tx_view()[0].endpoint.addr is Ipv4 && i0.spec_lowered_src(
                    a.spec_endpoint().addr,
                ) is Some)
                &&& r is Err ==> r == Err::<(), Error>(Error::Unaddressable) && b.tx_view()
                    == a.tx_view().drop_first() && i1.spec_device().tx_view() == i0.spec_device().tx_view()
                &&& r is Ok ==> exists|sent: bool|
                    #![trigger ip_sent(i0, i1, ip, pl, sent)]
                    ip_sent(i0, i1, ip, pl, sent) && b.tx_view() == if sent {
                        a.tx_view().drop_first()
                    } else {
                        a.tx_view()
                    }
            }
        },
        (Socket::Tcp(a), Socket::Tcp(b)) => exists|m: TcpSocket|
            #![trigger TcpSocket::spec_timers_polled(a, m, timestamp)]
            {
                let mp = tcp_max_payload(i0.spec_device().spec_mtu());
                &&& TcpSocket::spec_timers_polled(a, m, timestamp)
                &&& !m.spec_has_segment(mp as nat) ==> b == m && r is Ok && i1.spec_device().tx_view()
                    == i0.spec_device().tx_view()
                &&& m.spec_has_segment(mp as nat) ==> exists|seg: TcpRepr|
                    #![trigger m.is_next_segment(seg, mp as nat)]
                    {
                        let ip = IpRepr::Unspecified {
                            src_addr: m.spec_local_endpoint().addr,
                            dst_addr: m.spec_remote_endpoint().addr,
                            protocol: IpProtocol::Tcp,
                            payload_len: (TCP_HEADER_LEN + seg.payload@.len()) as usize,
                        };
                        &&& m.is_next_segment(seg, mp as nat)
                        &&& r is Ok <==> (ip.spec_dst_addr() is Ipv4 && i0.spec_lowered_src(
                            ip.spec_src_addr(),
                        ) is Some)
                        &&& r is Err ==> b == m && r == Err::<(), Error>(Error::Unaddressable)
                            && i1.spec_device().tx_view() == i0.spec_device().tx_view()
                        &&& r is Ok ==> exists|sent: bool|
                            #![trigger ip_sent(i0, i1, ip, IpPayload::Tcp(seg), sent)]
                            {
                                &&& ip_sent(i0, i1, ip, IpPayload::Tcp(seg), sent)
                                &&& sent ==> TcpSocket::spec_sent(m, b, mp, timestamp)
                                &&& !sent ==> b == m
                            }
                    }
            },
        _ => false,
    }
    &&& socket_key(s1) == socket_key(s0) || socket_key(s1) is None
    &&& s1.spec_on_dirty_list() == s0.spec_on_dirty_list()
}

/// One step of a transmit pass from `(i0, c0)` to `(i1, c1)`: with room on
/// the device, the oldest handle of the dirty queue is taken off, its socket
/// (unflagged) sends its queued work as `dispatch_rel` states, and it is put
/// back, rejoining the back of the queue exactly when it is still dirty.
pub open spec fn pass_step(i0: Interface, c0: Container, i1: Interface, c1: Container, timestamp: u64) -> bool {
    &&& i0.spec_device().can_transmit()
    &&& c0.dirty_queue().len() > 0
    &&& c0.live(c0.dirty_queue()[0].0)
    &&& exists|s0: Socket, s1: Socket, r: Result<(), Error>|
        #![trigger dispatch_rel(i0, s0, i1, s1, timestamp, r)]
        {
            let h = c0.dirty_queue()[0];
            &&& s0.same_but_flag(&c0.socket_at(h.0))
            &&& !s0.spec_on_dirty_list()
            &&& dispatch_rel(i0, s0, i1, s1, timestamp, r)
            &&& c1.live(h.0)
            &&& c1.socket_at(h.0).same_but_flag(&s1)
            &&& c1.socket_at(h.0).spec_on_dirty_list() == s1.spec_is_dirty()
            &&& c1.slots().len() == c0.slots().len()
            &&& forall|x: usize|
                x < c0.slots().len() && x != h.0 ==> #[trigger] c1.slots()[x as int] == c0.slots()[x as int]
            &&& c1.dirty_queue() == if s1.spec_is_dirty() {
                c0.dirty_queue().drop_first().push(h)
            } else {
                c0.dirty_queue().drop_first()
            }
        }
}

/// `(i1, c1)` is reached from `(i0, c0)` by `n` steps of a transmit pass.
pub open spec fn pass_reaches(
    i0: Interface,
    c0: Container,
    i1: Interface,
    c1: Container,
    timestamp: u64,
    n: nat,
) -> bool
    decreases n,
{
    if n == 0 {
        i1 == i0 && c1 == c0
    } else {
        exists|im: Interface, cm: Container|
            #![trigger pass_step(im, cm, i1, c1, timestamp)]
            pass_reaches(i0, c0, im, cm, timestamp, (n - 1) as nat) && pass_step(im, cm, i1, c1, timestamp)
    }
}

/// The number of steps a transmit pass over `c` may take: the handles
/// queued when it begins, bounded by the queue's capacity. Sockets that
/// rejoin the back of the queue are thus not visited twice.
pub open spec fn pass_bound(c: Container) -> nat {
    if c.dirty_queue().len() < c.dirty_capacity() {
        c.dirty_queue().len()
    } else {
        c.dirty_capacity()
    }
}

/// A whole transmit pass from `(i0, c0)` to `(i1, c1)`: each handle queued
/// at the start is taken once, in queue order, until all were taken or the
/// device has no room.
pub open spec fn pass_done(i0: Interface, c0: Container, i1: Interface, c1: Container, timestamp: u64) -> bool {
    exists|n: nat|
        #![trigger pass_reaches(i0, c0, i1, c1, timestamp, n)]
        {
            &&& pass_reaches(i0, c0, i1, c1, timestamp, n)
            &&& n <= pass_bound(c0)
            &&& (n == pass_bound(c0) || !i1.spec_device().can_transmit())
        }
}

/// What processing a received `frame` does: interface `i0` and container
/// `c0` become `i1` and `c1` with result `r`, as `process_frame` states.
pub open spec fn frame_done(
    i0: Interface,
    c0: Container,
    i1: Interface,
    c1: Container,
    timestamp: u64,
    frame: EthernetFrame,
    r: Result<(), Error>,
) -> bool {
    &&& (i0.is_for_us(frame.dst_addr) && frame.payload is Other ==> r == Err::<(), Error>(
        Error::Unrecognized,
        ) && c1 == c0 && i1.spec_device() == i0.spec_device() && i1.spec_arp_cache() == i0.spec_arp_cache())
    &&& (i0.is_for_us(frame.dst_addr) ==> (frame.payload matches EthernetPayload::Arp(a) ==> (
        a.operation is Unknown ==> r == Err::<(), Error>(Error::Unrecognized) && c1 == c0
            && i1.spec_device() == i0.spec_device() && i1.spec_arp_cache() == i0.spec_arp_cache())))
    &&& (i0.is_for_us(frame.dst_addr) ==> (frame.payload matches EthernetPayload::Ipv4 { header, payload }
        ==> exists|im: Interface, r0: Result<Response, Error>|
        #![trigger ipv4_processed(i0, c0, im, c1, timestamp, frame.src_addr, header, payload, r0)]
        ipv4_processed(i0, c0, im, c1, timestamp, frame.src_addr, header, payload, r0) && match r0 {
            Ok(resp) => response_sent(im, i1, resp, r),
            Err(e) => r == Err::<(), Error>(e) && i1 == im,
        }))
    &&& (i0.is_for_us(frame.dst_addr) ==> (frame.payload matches EthernetPayload::Arp(a) ==> {
        &&& a.operation is Reply ==> r is Ok && i1.spec_device().tx_view() == i0.spec_device().tx_view()
        &&& a.operation is Request && !i0.spec_protocol_addrs().contains(
            IpAddress::Ipv4(a.target_protocol_addr),
        ) ==> r is Ok && i1.spec_device().tx_view() == i0.spec_device().tx_view()
        &&& a.operation is Request && i0.spec_protocol_addrs().contains(
            IpAddress::Ipv4(a.target_protocol_addr),
        ) && i0.spec_device().can_transmit() ==> r is Ok && i1.spec_device().tx_view()
            == i0.spec_device().tx_view().push(
            EthernetFrame {
                dst_addr: a.source_hardware_addr,
                src_addr: i0.spec_hardware_addr(),
                payload: EthernetPayload::Arp(
                    ArpRepr {
                        operation: ArpOperation::Reply,
                        source_hardware_addr: i0.spec_hardware_addr(),
                        source_protocol_addr: a.target_protocol_addr,
                        target_hardware_addr: a.source_hardware_addr,
                        target_protocol_addr: a.source_protocol_addr,
                    },
                ),
            },
        )
        }))
    &&& (i0.is_for_us(frame.dst_addr) && !frame.src_addr.spec_is_multicast() ==> (
        frame.payload matches EthernetPayload::Ipv4 { header, payload } ==> (
        header.src_addr.spec_is_unicast() && i0.spec_protocol_addrs().contains(
        IpAddress::Ipv4(header.dst_addr),
        ) && !c0.filed(
        IndexKey::Raw(raw_key(IpVersion::Ipv4, header.protocol) as u64),
        ) ==> {
        &&& payload matches IpPayload::Icmpv4(icmp) ==> match icmp_response(header, icmp) {
            Ok(Response::Icmpv4(ip, reply)) => i0.spec_device().can_transmit() ==> r is Ok
                && i1.spec_device().tx_view() == i0.spec_device().tx_view().push(
                EthernetFrame {
                    dst_addr: frame.src_addr,
                    src_addr: i0.spec_hardware_addr(),
                    payload: EthernetPayload::Ipv4 { header: ip, payload: IpPayload::Icmpv4(reply) },
                },
            ),
            Ok(_) => r is Ok && i1.spec_device().tx_view() == i0.spec_device().tx_view(),
            Err(e) => r == Err::<(), Error>(e),
        }
        &&& payload matches IpPayload::Raw(bytes) ==> (i0.spec_device().can_transmit() ==> r is Ok
            && exists|ip: Ipv4Repr, icmp: Icmpv4Repr|
            is_proto_unreachable_reply(ip, icmp, header, bytes@) && i1.spec_device().tx_view()
                == i0.spec_device().tx_view().push(
                EthernetFrame {
                    dst_addr: frame.src_addr,
                    src_addr: i0.spec_hardware_addr(),
                    payload: EthernetPayload::Ipv4 { header: ip, payload: IpPayload::Icmpv4(icmp) },
                },
            ))
        &&& payload matches IpPayload::Tcp(seg) ==> (seg.payload@.len() <= IPV4_MAX_PAYLOAD ==> (
        c0.tcp_choice(
            IpAddress::Ipv4(header.dst_addr),
            seg.dst_port,
            IpAddress::Ipv4(header.src_addr),
            seg.src_port,
        ) matches Some(key) ==> exists|r0: Result<Response, Error>|
            #![trigger tcp_delivery(c0, c1, timestamp, header, seg, key, r0)]
            tcp_delivery(c0, c1, timestamp, header, seg, key, r0) && same_outcome(r, r0)
                && i1.spec_device().tx_view() == i0.spec_device().tx_view()))
        &&& payload matches IpPayload::Udp(udp) ==> (udp.payload@.len() <= IPV4_MAX_PAYLOAD
            - UDP_HEADER_LEN ==> (c0.udp_choice(
            IpAddress::Ipv4(header.dst_addr),
            udp.dst_port,
        ) matches Some(key) ==> exists|r0: Result<Response, Error>|
            #![trigger udp_delivery(c0, c1, header, udp, key, r0)]
            udp_delivery(c0, c1, header, udp, key, r0) && same_outcome(r, r0)
                && i1.spec_device().tx_view() == i0.spec_device().tx_view()))
        })))
    &&& (i1.wf())
    &&& (c1.wf())
    &&& (i1.same_config(&i0))
    &&& (i1.spec_device().rx_view() == i0.spec_device().rx_view())
    &&& (r is Err ==> i1.spec_device().tx_view() == i0.spec_device().tx_view())
    &&& (!i0.is_for_us(frame.dst_addr) ==> r is Ok && i1 == i0
        && c1 == c0)
    &&& (i0.is_for_us(frame.dst_addr) ==> {
        &&& frame.payload matches EthernetPayload::Arp(a) ==> (!(a.operation is Unknown)
            && a.source_protocol_addr.spec_is_unicast()
            && !a.source_hardware_addr.spec_is_multicast() ==> i1.spec_arp_cache().entry(
            IpAddress::Ipv4(a.source_protocol_addr),
        ) == Some(a.source_hardware_addr))
        &&& frame.payload matches EthernetPayload::Ipv4 { header, .. } ==> (
        header.src_addr.spec_is_unicast() && !frame.src_addr.spec_is_multicast()
            ==> i1.spec_arp_cache().entry(IpAddress::Ipv4(header.src_addr)) == Some(
            frame.src_addr,
        ))
        })
    &&& (i0.is_for_us(frame.dst_addr) && !frame.src_addr.spec_is_multicast() ==> (
        frame.payload matches EthernetPayload::Ipv4 { header, payload } ==> (
        header.src_addr.spec_is_unicast() && i0.spec_protocol_addrs().contains(
        IpAddress::Ipv4(header.dst_addr),
        ) && !c0.filed(
        IndexKey::Raw(raw_key(IpVersion::Ipv4, header.protocol) as u64),
        ) ==> {
        &&& payload matches IpPayload::Tcp(seg) ==> (seg.payload@.len() <= IPV4_MAX_PAYLOAD
            && c0.tcp_choice(
            IpAddress::Ipv4(header.dst_addr),
            seg.dst_port,
            IpAddress::Ipv4(header.src_addr),
            seg.src_port,
        ) is None ==> if seg.control is Rst {
            r is Ok && i1.spec_device().tx_view() == i0.spec_device().tx_view()
        } else {
            i0.spec_device().can_transmit() ==> r is Ok && exists|ip: Ipv4Repr, rst: TcpRepr|
                is_reset_reply(ip, rst, header, seg) && i1.spec_device().tx_view()
                    == i0.spec_device().tx_view().push(
                    EthernetFrame {
                        dst_addr: frame.src_addr,
                        src_addr: i0.spec_hardware_addr(),
                        payload: EthernetPayload::Ipv4 { header: ip, payload: IpPayload::Tcp(rst) },
                    },
                )
        })
        &&& payload matches IpPayload::Udp(udp) ==> (udp.payload@.len() <= IPV4_MAX_PAYLOAD
            - UDP_HEADER_LEN && c0.udp_choice(
            IpAddress::Ipv4(header.dst_addr),
            udp.dst_port,
        ) is None ==> (i0.spec_device().can_transmit() ==> r is Ok && exists|
            ip: Ipv4Repr,
            icmp: Icmpv4Repr,
        | is_port_unreachable_reply(ip, icmp, header, udp) && i1.spec_device().tx_view()
            == i0.spec_device().tx_view().push(
            EthernetFrame {
                dst_addr: frame.src_addr,
                src_addr: i0.spec_hardware_addr(),
                payload: EthernetPayload::Ipv4 { header: ip, payload: IpPayload::Icmpv4(icmp) },
            },
        )))
        })))
}

/// The raw socket at `h` in `c0`, `s0`, took a packet and is back in `c1`
/// as `s1`; every other slot is as it was.
pub open spec fn raw_taken(c0: Container, c1: Container, h: usize, s0: RawSocket, s1: RawSocket) -> bool {
    &&& c0.live(h)
    &&& c0.socket_at(h) == Socket::Raw(s0)
    &&& c1.wf()
    &&& c1.live(h)
    &&& c1.socket_at(h).same_but_flag(&Socket::Raw(s1))
    &&& c1.slots().len() == c0.slots().len()
    &&& forall|x: usize|
        x < c0.slots().len() && x != h ==> #[trigger] c1.slots()[x as int] == c0.slots()[x as int]
    &&& c1.index() == c0.index()
}

/// What delivering an IPv4 packet after the raw sockets does, for a host
/// with addresses `addrs`: container `c0` becomes `c1` with result `r`.
/// `handled` tells whether a raw socket took the packet.
pub open spec fn ip_delivered(
    addrs: Seq<IpAddress>,
    c0: Container,
    c1: Container,
    timestamp: u64,
    header: Ipv4Repr,
    payload: IpPayload,
    handled: bool,
    r: Result<Response, Error>,
) -> bool {
    &&& !addrs.contains(IpAddress::Ipv4(header.dst_addr)) ==> r == Ok::<Response, Error>(Response::Nop)
        && c1 == c0
    &&& addrs.contains(IpAddress::Ipv4(header.dst_addr)) ==> {
        &&& payload matches IpPayload::Icmpv4(icmp) ==> r == icmp_response(header, icmp) && c1 == c0
        &&& payload matches IpPayload::Raw(bytes) ==> c1 == c0 && if handled {
            r == Ok::<Response, Error>(Response::Nop)
        } else {
            r matches Ok(Response::Icmpv4(ip, icmp)) && is_proto_unreachable_reply(ip, icmp, header, bytes@)
        }
        &&& payload matches IpPayload::Tcp(seg) ==> (seg.payload@.len() > IPV4_MAX_PAYLOAD ==> r
            == Err::<Response, Error>(Error::Malformed) && c1 == c0)
        &&& payload matches IpPayload::Tcp(seg) ==> (seg.payload@.len() <= IPV4_MAX_PAYLOAD ==> (
        c0.tcp_choice(
            IpAddress::Ipv4(header.dst_addr),
            seg.dst_port,
            IpAddress::Ipv4(header.src_addr),
            seg.src_port,
        ) matches Some(key) ==> tcp_delivery(c0, c1, timestamp, header, seg, key, r) && (r is Err || r
            == Ok::<Response, Error>(Response::Nop))))
        &&& payload matches IpPayload::Tcp(seg) ==> (seg.payload@.len() <= IPV4_MAX_PAYLOAD
            && c0.tcp_choice(
            IpAddress::Ipv4(header.dst_addr),
            seg.dst_port,
            IpAddress::Ipv4(header.src_addr),
            seg.src_port,
        ) is None ==> c1 == c0 && if seg.control is Rst {
            r == Ok::<Response, Error>(Response::Nop)
        } else {
            r matches Ok(Response::Tcpv4(ip, rst)) && is_reset_reply(ip, rst, header, seg)
        })
        &&& payload matches IpPayload::Udp(udp) ==> (udp.payload@.len() > IPV4_MAX_PAYLOAD
            - UDP_HEADER_LEN ==> r == Err::<Response, Error>(Error::Malformed) && c1 == c0)
        &&& payload matches IpPayload::Udp(udp) ==> (udp.payload@.len() <= IPV4_MAX_PAYLOAD
            - UDP_HEADER_LEN ==> (c0.udp_choice(IpAddress::Ipv4(header.dst_addr), udp.dst_port) matches Some(
            key,
        ) ==> udp_delivery(c0, c1, header, udp, key, r) && (r is Err || r == Ok::<Response, Error>(
            Response::Nop,
        ))))
        &&& payload matches IpPayload::Udp(udp) ==> (udp.payload@.len() <= IPV4_MAX_PAYLOAD
            - UDP_HEADER_LEN && c0.udp_choice(IpAddress::Ipv4(header.dst_addr), udp.dst_port) is None
            ==> c1 == c0 && (r matches Ok(Response::Icmpv4(ip, icmp)) && is_port_unreachable_reply(
            ip,
            icmp,
            header,
            udp,
        )))
    }
}

/// What processing an IPv4 packet does: `(i0, c0)` becomes `(i1, c1)` with
/// result `r`, as `process_ipv4` states.
pub open spec fn ipv4_processed(
    i0: Interface,
    c0: Container,
    i1: Interface,
    c1: Container,
    timestamp: u64,
    eth_src: EthernetAddress,
    header: Ipv4Repr,
    payload: IpPayload,
    r: Result<Response, Error>,
) -> bool {
    &&& (i1.wf())
    &&& (c1.wf())
    &&& (i1.spec_device() == i0.spec_device())
    &&& (i1.same_config(&i0))
    &&& (!header.src_addr.spec_is_unicast() ==> r == Err::<Response, Error>(Error::Malformed)
        && i1.spec_arp_cache() == i0.spec_arp_cache() && c1 == c0)
    &&& (header.src_addr.spec_is_unicast() && !eth_src.spec_is_multicast() ==> i1.spec_arp_cache().entry(
        IpAddress::Ipv4(header.src_addr),
    ) == Some(eth_src))
    &&& (header.src_addr.spec_is_unicast() && !eth_src.spec_is_multicast() ==> forall|a: IpAddress|
        a != IpAddress::Ipv4(header.src_addr) && (#[trigger] i1.spec_arp_cache().entry(a)) is Some
            ==> i1.spec_arp_cache().entry(a) == i0.spec_arp_cache().entry(a))
    &&& (header.src_addr.spec_is_unicast() && eth_src.spec_is_multicast() ==> i1.spec_arp_cache()
        == i0.spec_arp_cache())
    &&& (header.src_addr.spec_is_unicast() && !c0.filed(
        IndexKey::Raw(raw_key(IpVersion::Ipv4, header.protocol) as u64),
    ) ==> ip_delivered(
        i0.spec_protocol_addrs(),
        c0,
        c1,
        timestamp,
        header,
        payload,
        false,
        r,
    ))
    &&& (header.src_addr.spec_is_unicast() && c0.filed(
        IndexKey::Raw(raw_key(IpVersion::Ipv4, header.protocol) as u64),
    ) ==> exists|h: usize,s0: RawSocket,s1: RawSocket,p: IpPayload,pr: Result<(),Error>,cm: Container|
        #![trigger c0.socket_at(h), RawSocket::spec_processed(s0, s1, IpRepr::Ipv4(header), p, pr), cm.socket_at(h)]
        raw_taken(c0, cm, h, s0, s1) && RawSocket::spec_processed(
            s0,
            s1,
            IpRepr::Ipv4(header),
            p,
            pr,
        ) && same_payload(p, payload) && if pr is Ok || pr == Err::<(), Error>(Error::Rejected) {
            ip_delivered(
                i0.spec_protocol_addrs(),
                cm,
                c1,
                timestamp,
                header,
                payload,
                pr is Ok,
                r,
            )
        } else {
            r == Err::<Response, Error>(pr->Err_0) && c1 == cm
        })
}

/// What sending a reply does: `i0` becomes `i1` with result `r`, as
/// `send_response` states.
pub open spec fn response_sent(i0: Interface, i1: Interface, response: Response, r: Result<(), Error>) -> bool {
    &&& (i1.wf())
    &&& (i1.spec_arp_cache() == i0.spec_arp_cache())
    &&& (i1.same_config(&i0))
    &&& (i1.spec_device().rx_view() == i0.spec_device().rx_view())
    &&& (i1.spec_device().spec_tx_limit() == i0.spec_device().spec_tx_limit())
    &&& (i1.spec_device().spec_mtu() == i0.spec_device().spec_mtu())
    &&& (r is Err ==> i1.spec_device().tx_view() == i0.spec_device().tx_view())
    &&& (response is Nop ==> r is Ok && i1.spec_device().tx_view() == i0.spec_device().tx_view())
    &&& (response matches Response::Arp(repr) ==> (i0.spec_device().can_transmit() <==> r is Ok)
        && (r is Ok ==> i1.spec_device().tx_view() == i0.spec_device().tx_view().push(
        EthernetFrame {
            dst_addr: repr.target_hardware_addr,
            src_addr: i0.spec_hardware_addr(),
            payload: EthernetPayload::Arp(repr),
        },
    )))
    &&& (response matches Response::Icmpv4(ip, icmp) ==> match i0.spec_arp_cache().entry(
        IpAddress::Ipv4(ip.dst_addr),
    ) {
        None => r == Err::<(), Error>(Error::Unaddressable),
        Some(hw) => (i0.spec_device().can_transmit() <==> r is Ok) && (r is Ok
            ==> i1.spec_device().tx_view() == i0.spec_device().tx_view().push(
            EthernetFrame {
                dst_addr: hw,
                src_addr: i0.spec_hardware_addr(),
                payload: EthernetPayload::Ipv4 { header: ip, payload: IpPayload::Icmpv4(icmp) },
            },
        )),
    })
    &&& (response matches Response::Tcpv4(ip, seg) ==> match i0.spec_arp_cache().entry(
        IpAddress::Ipv4(ip.dst_addr),
    ) {
        None => r == Err::<(), Error>(Error::Unaddressable),
        Some(hw) => (i0.spec_device().can_transmit() <==> r is Ok) && (r is Ok
            ==> i1.spec_device().tx_view() == i0.spec_device().tx_view().push(
            EthernetFrame {
                dst_addr: hw,
                src_addr: i0.spec_hardware_addr(),
                payload: EthernetPayload::Ipv4 { header: ip, payload: IpPayload::Tcp(seg) },
            },
        )),
    })
}

/// An Ethernet network interface: a device, an ARP cache, a unicast
/// hardware address and the unicast protocol addresses assigned to it.
#[derive(Debug)]
pub struct Interface {
    device: FrameQueue,
    arp_cache: SliceArpCache,
    hardware_addr: EthernetAddress,
    protocol_addrs: Vec<IpAddress>,
}

/// Every address in `addrs` is unicast.
pub open spec fn all_unicast(addrs: Seq<IpAddress>) -> bool {
    forall|i: int| 0 <= i < addrs.len() ==> (#[trigger] addrs[i]).spec_is_unicast()
}

impl Interface {
    pub open spec fn wf(&self) -> bool {
        &&& self.spec_arp_cache().wf()
        &&& !self.spec_hardware_addr().spec_is_multicast()
        &&& all_unicast(self.spec_protocol_addrs())
    }

    pub closed spec fn spec_device(&self) -> FrameQueue {
        self.device
    }

    pub closed spec fn spec_arp_cache(&self) -> SliceArpCache {
        self.arp_cache
    }

    pub closed spec fn spec_hardware_addr(&self) -> EthernetAddress {
        self.hardware_addr
    }

    pub closed spec fn spec_protocol_addrs(&self) -> Seq<IpAddress> {
        self.protocol_addrs@
    }

    /// Everything but the device and the ARP cache is as in `o`.
    pub open spec fn same_config(&self, o: &Interface) -> bool {
        &&& self.spec_hardware_addr() == o.spec_hardware_addr()
        &&& self.spec_protocol_addrs() == o.spec_protocol_addrs()
    }

    /// An interface over `device` and `arp_cache`. The hardware address and
    /// the protocol addresses must be unicast.
    pub fn new(
        device: FrameQueue,
        arp_cache: SliceArpCache,
        hardware_addr: EthernetAddress,
        protocol_addrs: Vec<IpAddress>,
    ) -> (r: Interface)
        requires
            arp_cache.wf(),
            !hardware_addr.spec_is_multicast(),
            all_unicast(protocol_addrs@),
        ensures
            r.wf(),
            r.spec_device() == device,
            r.spec_arp_cache() == arp_cache,
            r.spec_hardware_addr() == hardware_addr,
            r.spec_protocol_addrs() == protocol_addrs@,
    {
        Interface { device, arp_cache, hardware_addr, protocol_addrs }
    }

    pub fn hardware_addr(&self) -> (r: EthernetAddress)
        ensures
            r == self.spec_hardware_addr(),
    {
        self.hardware_addr
    }

    /// Set the hardware address, which must be unicast.
    pub fn set_hardware_addr(&mut self, addr: EthernetAddress)
        requires
            old(self).wf(),
            !addr.spec_is_multicast(),
        ensures
            final(self).wf(),
            final(self).spec_hardware_addr() == addr,
            final(self).spec_protocol_addrs() == old(self).spec_protocol_addrs(),
            final(self).spec_device() == old(self).spec_device(),
            final(self).spec_arp_cache() == old(self).spec_arp_cache(),
    {
        self.hardware_addr = addr;
    }

    pub fn protocol_addrs(&self) -> (r: &[IpAddress])
        ensures
            r@ == self.spec_protocol_addrs(),
    {
        self.protocol_addrs.as_slice()
    }

    /// Replace the protocol addresses, which must be unicast.
    pub fn set_protocol_addrs(&mut self, addrs: Vec<IpAddress>)
        requires
            old(self).wf(),
            all_unicast(addrs@),
        ensures
            final(self).wf(),
            final(self).spec_protocol_addrs() == addrs@,
            final(self).spec_hardware_addr() == old(self).spec_hardware_addr(),
            final(self).spec_device() == old(self).spec_device(),
            final(self).spec_arp_cache() == old(self).spec_arp_cache(),
    {
        self.protocol_addrs = addrs;
    }

    pub closed spec fn spec_protocol_addr_vec(&self) -> Vec<IpAddress> {
        self.protocol_addrs
    }

    /// Let `f` rewrite the protocol addresses; every address it leaves must
    /// be unicast.
    pub fn update_protocol_addrs<F: FnOnce(Vec<IpAddress>) -> Vec<IpAddress>>(&mut self, f: F)
        requires
            old(self).wf(),
            f.requires((old(self).spec_protocol_addr_vec(),)),
            forall|v: Vec<IpAddress>, w: Vec<IpAddress>| #[trigger] f.ensures((v,), w) ==> all_unicast(w@),
        ensures
            final(self).wf(),
            f.ensures((old(self).spec_protocol_addr_vec(),), final(self).spec_protocol_addr_vec()),
            final(self).spec_hardware_addr() == old(self).spec_hardware_addr(),
            final(self).spec_device() == old(self).spec_device(),
            final(self).spec_arp_cache() == old(self).spec_arp_cache(),
    {
        let mut addrs: Vec<IpAddress> = Vec::new();
        std::mem::swap(&mut addrs, &mut self.protocol_addrs);
        self.protocol_addrs = f(addrs);
    }

    /// Whether `addr` is assigned to the interface.
    pub fn has_protocol_addr(&self, addr: IpAddress) -> (r: bool)
        ensures
            r == self.spec_protocol_addrs().contains(addr),
    {
        let mut i: usize = 0;
        while i < self.protocol_addrs.len()
            invariant
                i <= self.protocol_addrs@.len(),
                forall|j: int| 0 <= j < i ==> self.protocol_addrs@[j] != addr,
            decreases self.protocol_addrs@.len() - i,
        {
            if self.protocol_addrs[i] == addr {
                return true;
            }
            i += 1;
        }
        false
    }

    pub fn device(&self) -> (r: &FrameQueue)
        ensures
            *r == self.spec_device(),
    {
        &self.device
    }

    pub fn device_mut(&mut self) -> (r: &mut FrameQueue)
        ensures
            *r == old(self).spec_device(),
            final(self).spec_device() == *final(r),
            final(self).spec_arp_cache() == old(self).spec_arp_cache(),
            final(self).same_config(&*old(self)),
    {
        &mut self.device
    }

    pub fn arp_cache(&self) -> (r: &SliceArpCache)
        ensures
            *r == self.spec_arp_cache(),
    {
        &self.arp_cache
    }

    pub fn arp_cache_mut(&mut self) -> (r: &mut SliceArpCache)
        ensures
            *r == old(self).spec_arp_cache(),
            final(self).spec_arp_cache() == *final(r),
            final(self).spec_device() == old(self).spec_device(),
            final(self).same_config(&*old(self)),
    {
        &mut self.arp_cache
    }

    /// Snoop an ARP packet: fill the cache from a unicast sender pair, and
    /// answer a request for one of our addresses. `Unrecognized` for an
    /// operation other than request or reply.
    pub fn process_arp(&mut self, arp: &ArpRepr) -> (r: Result<Response, Error>)
        requires
            old(self).wf(),
        ensures
            final(self).wf(),
            final(self).spec_device() == old(self).spec_device(),
            final(self).same_config(&*old(self)),
            arp.operation is Unknown ==> r == Err::<Response, Error>(Error::Unrecognized)
                && final(self).spec_arp_cache() == old(self).spec_arp_cache(),
            !(arp.operation is Unknown) && arp.source_protocol_addr.spec_is_unicast()
                && !arp.source_hardware_addr.spec_is_multicast() ==> final(self).spec_arp_cache().entry(
                IpAddress::Ipv4(arp.source_protocol_addr),
            ) == Some(arp.source_hardware_addr),
            !(arp.source_protocol_addr.spec_is_unicast() && !arp.source_hardware_addr.spec_is_multicast())
                ==> final(self).spec_arp_cache() == old(self).spec_arp_cache(),
            arp.operation is Reply ==> r == Ok::<Response, Error>(Response::Nop),
            arp.operation is Request ==> r == Ok::<Response, Error>(
                if old(self).spec_protocol_addrs().contains(IpAddress::Ipv4(arp.target_protocol_addr)) {
                    Response::Arp(
                        ArpRepr {
                            operation: ArpOperation::Reply,
                            source_hardware_addr: old(self).spec_hardware_addr(),
                            source_protocol_addr: arp.target_protocol_addr,
                            target_hardware_addr: arp.source_hardware_addr,
                            target_protocol_addr: arp.source_protocol_addr,
                        },
                    )
                } else {
                    Response::Nop
                },
            ),
    {
        match arp.operation {
            ArpOperation::Unknown(_) => return Err(Error::Unrecognized),
            _ => {},
        }
        if arp.source_protocol_addr.is_unicast() && arp.source_hardware_addr.is_unicast() {
            self.arp_cache.fill(&IpAddress::Ipv4(arp.source_protocol_addr), &arp.source_hardware_addr);
        }
        match arp.operation {
            ArpOperation::Request => {
                if self.has_protocol_addr(IpAddress::Ipv4(arp.target_protocol_addr)) {
                    Ok(
                        Response::Arp(
                            ArpRepr {
                                operation: ArpOperation::Reply,
                                source_hardware_addr: self.hardware_addr,
                                source_protocol_addr: arp.target_protocol_addr,
                                target_hardware_addr: arp.source_hardware_addr,
                                target_protocol_addr: arp.source_protocol_addr,
                            },
                        ),
                    )
                } else {
                    Ok(Response::Nop)
                }
            },
            _ => Ok(Response::Nop),
        }
    }

    /// Answer an echo request with an echo reply of the same identifier,
    /// sequence number and data; ignore echo replies. `Unrecognized` for
    /// other messages, `Malformed` for data too long for one packet.
    pub fn process_icmpv4(header: Ipv4Repr, icmp: Icmpv4Repr) -> (r: Result<Response, Error>)
        ensures
            r == icmp_response(header, icmp),
    {
        match icmp {
            Icmpv4Repr::EchoRequest { ident, seq_no, data } => {
                if data.len() > IPV4_MAX_PAYLOAD - ICMP_HEADER_LEN {
                    return Err(Error::Malformed);
                }
                let len = ICMP_HEADER_LEN + data.len();
                let reply = Icmpv4Repr::EchoReply { ident, seq_no, data };
                let ip = Ipv4Repr {
                    src_addr: header.dst_addr,
                    dst_addr: header.src_addr,
                    protocol: IpProtocol::Icmp,
                    payload_len: len,
                };
                Ok(Response::Icmpv4(ip, reply))
            },
            Icmpv4Repr::EchoReply { .. } => Ok(Response::Nop),
            _ => Err(Error::Unrecognized),
        }
    }

    /// Deliver a TCP segment to the socket the index picks for it; when
    /// none matches, answer with a reset unless the segment is one itself.
    /// `Malformed` for a payload too long for one packet.
    pub fn process_tcpv4(sockets: &mut Container, timestamp: u64, header: Ipv4Repr, tcp: TcpRepr) -> (r:
        Result<Response, Error>)
        requires
            old(sockets).wf(),
        ensures
            final(sockets).wf(),
            tcp.payload@.len() > IPV4_MAX_PAYLOAD ==> r == Err::<Response, Error>(Error::Malformed)
                && *final(sockets) == *old(sockets),
            tcp.payload@.len() <= IPV4_MAX_PAYLOAD && old(sockets).tcp_choice(
                IpAddress::Ipv4(header.dst_addr),
                tcp.dst_port,
                IpAddress::Ipv4(header.src_addr),
                tcp.src_port,
            ) is None ==> *final(sockets) == *old(sockets) && if tcp.control is Rst {
                r == Ok::<Response, Error>(Response::Nop)
            } else {
                r matches Ok(Response::Tcpv4(ip, rst)) && is_reset_reply(ip, rst, header, tcp)
            },
            old(sockets).tcp_choice(
                IpAddress::Ipv4(header.dst_addr),
                tcp.dst_port,
                IpAddress::Ipv4(header.src_addr),
                tcp.src_port,
            ) is Some ==> !(r matches Ok(Response::Tcpv4(_, _))),
            tcp.payload@.len() <= IPV4_MAX_PAYLOAD ==> (old(sockets).tcp_choice(
                IpAddress::Ipv4(header.dst_addr),
                tcp.dst_port,
                IpAddress::Ipv4(header.src_addr),
                tcp.src_port,
            ) matches Some(key) ==> tcp_delivery(*old(sockets), *final(sockets), timestamp, header, tcp, key, r)
                && (r is Err || r == Ok::<Response, Error>(Response::Nop))),
    {
        if tcp.payload.len() > IPV4_MAX_PAYLOAD {
            return Err(Error::Malformed);
        }
        let dst = IpAddress::Ipv4(header.dst_addr);
        let src = IpAddress::Ipv4(header.src_addr);
        match sockets.get_tcp_socket(dst, tcp.dst_port, src, tcp.src_port) {
            Some(mut t) => {
                let ip_repr = IpRepr::Ipv4(header);
                let ghost h = t.spec_handle().0;
                let ghost s0 = t.spec_socket()->Tcp_0;
                let result = match t.socket_mut() {
                    Socket::Tcp(s) => s.process_accepted(timestamp, &ip_repr, &tcp),
                    _ => Err(Error::Rejected),
                };
                let ghost s1 = t.spec_socket()->Tcp_0;
                proof {
                    assert(TcpSocket::spec_processed(s0, s1, timestamp, ip_repr, tcp, result));
                    assert(old(sockets).socket_at(h) == Socket::Tcp(s0));
                }
                let released = sockets.release(t);
                let r = match released {
                    Err(_) => Err(Error::AlreadyInUse),
                    Ok(()) => match result {
                        Ok(()) => Ok(Response::Nop),
                        Err(e) => Err(e),
                    },
                };
                proof {
                    assert(TcpSocket::spec_processed(s0, s1, timestamp, IpRepr::Ipv4(header), tcp, result));
                }
                r
            },
            None => {
                if tcp.control == TcpControl::Rst {
                    return Ok(Response::Nop);
                }
                let seq = match tcp.ack_number {
                    Some(a) => a,
                    None => TcpSeqNumber(0),
                };
                let rst = TcpRepr {
                    src_port: tcp.dst_port,
                    dst_port: tcp.src_port,
                    control: TcpControl::Rst,
                    push: false,
                    seq_number: seq,
                    ack_number: Some(tcp.seq_number.add(tcp.segment_len())),
                    window_len: 0,
                    max_seg_size: None,
                    payload: Vec::new(),
                };
                let ip = Ipv4Repr {
                    src_addr: header.dst_addr,
                    dst_addr: header.src_addr,
                    protocol: IpProtocol::Tcp,
                    payload_len: TCP_HEADER_LEN,
                };
                Ok(Response::Tcpv4(ip, rst))
            },
        }
    }

    /// Deliver a UDP datagram to the socket the index picks for it; when
    /// none matches, answer with an ICMP Port Unreachable that quotes the
    /// IPv4 header and the UDP header. `Malformed` for a payload too long
    /// for one packet.
    pub fn process_udpv4(sockets: &mut Container, timestamp: u64, header: Ipv4Repr, udp: UdpRepr) -> (r:
        Result<Response, Error>)
        requires
            old(sockets).wf(),
        ensures
            final(sockets).wf(),
            udp.payload@.len() > IPV4_MAX_PAYLOAD - UDP_HEADER_LEN ==> r == Err::<Response, Error>(
                Error::Malformed,
            ) && *final(sockets) == *old(sockets),
            udp.payload@.len() <= IPV4_MAX_PAYLOAD - UDP_HEADER_LEN && old(sockets).udp_choice(
                IpAddress::Ipv4(header.dst_addr),
                udp.dst_port,
            ) is None ==> *final(sockets) == *old(sockets) && (r matches Ok(Response::Icmpv4(ip, icmp))
                && is_port_unreachable_reply(ip, icmp, header, udp)),
            old(sockets).udp_choice(IpAddress::Ipv4(header.dst_addr), udp.dst_port) is Some ==> !(
            r matches Ok(Response::Icmpv4(_, _))),
            udp.payload@.len() <= IPV4_MAX_PAYLOAD - UDP_HEADER_LEN ==> (old(sockets).udp_choice(
                IpAddress::Ipv4(header.dst_addr),
                udp.dst_port,
            ) matches Some(key) ==> udp_delivery(*old(sockets), *final(sockets), header, udp, key, r)
                && (r is Err || r == Ok::<Response, Error>(Response::Nop))),
    {
        if udp.payload.len() > IPV4_MAX_PAYLOAD - UDP_HEADER_LEN {
            return Err(Error::Malformed);
        }
        let dst = IpAddress::Ipv4(header.dst_addr);
        match sockets.get_udp_socket(dst, udp.dst_port) {
            Some(mut t) => {
                let ip_repr = IpRepr::Ipv4(header);
                let ghost h = t.spec_handle().0;
                let ghost s0 = t.spec_socket()->Udp_0;
                let ghost d = udp;
                let result = match t.socket_mut() {
                    Socket::Udp(s) => s.process_accepted(timestamp, &ip_repr, udp),
                    _ => Err(Error::Rejected),
                };
                let ghost s1 = t.spec_socket()->Udp_0;
                proof {
                    assert(UdpSocket::spec_processed(s0, s1, IpRepr::Ipv4(header), d, result));
                    assert(old(sockets).socket_at(h) == Socket::Udp(s0));
                }
                let released = sockets.release(t);
                match released {
                    Err(_) => Err(Error::AlreadyInUse),
                    Ok(()) => match result {
                        Ok(()) => Ok(Response::Nop),
                        Err(e) => Err(e),
                    },
                }
            },
            None => {
                let len = (UDP_HEADER_LEN + udp.payload.len()) as u16;
                let mut data: Vec<u8> = Vec::new();
                data.push((udp.src_port / 0x100) as u8);
                data.push((udp.src_port % 0x100) as u8);
                data.push((udp.dst_port / 0x100) as u8);
                data.push((udp.dst_port % 0x100) as u8);
                data.push((len / 0x100) as u8);
                data.push((len % 0x100) as u8);
                data.push((udp.checksum / 0x100) as u8);
                data.push((udp.checksum % 0x100) as u8);
                assert(data@ =~= udp_header_bytes(udp));
                let icmp = Icmpv4Repr::DstUnreachable {
                    reason: Icmpv4DstUnreachable::PortUnreachable,
                    header,
                    data,
                };
                let ip = Ipv4Repr {
                    src_addr: header.dst_addr,
                    dst_addr: header.src_addr,
                    protocol: IpProtocol::Icmp,
                    payload_len: ICMP_HEADER_LEN + IPV4_HEADER_LEN + UDP_HEADER_LEN,
                };
                Ok(Response::Icmpv4(ip, icmp))
            },
        }
    }

    /// Process an IPv4 packet received in a frame from `eth_src`: drop it
    /// (`Malformed`) when its source is not unicast, learn the source pair
    /// when the frame came from a unicast address, hand a copy to the raw
    /// socket of its protocol, if any (its errors other than `Rejected` end
    /// the processing), then deliver it as `deliver_ipv4` does, the packet
    /// counting as handled when the raw socket took it.
    pub fn process_ipv4(
        &mut self,
        sockets: &mut Container,
        timestamp: u64,
        eth_src: EthernetAddress,
        header: Ipv4Repr,
        payload: IpPayload,
    ) -> (r: Result<Response, Error>)
        requires
            old(self).wf(),
            old(sockets).wf(),
        ensures
            ipv4_processed(*old(self), *old(sockets), *final(self), *final(sockets), timestamp, eth_src, header, payload, r),
    {
        if !header.src_addr.is_unicast() {
            return Err(Error::Malformed);
        }
        if eth_src.is_unicast() {
            self.arp_cache.fill(&IpAddress::Ipv4(header.src_addr), &eth_src);
        }
        let ip_repr = IpRepr::Ipv4(header);
        let mut handled = false;
        match sockets.get_raw_socket(crate::wire::IpVersion::Ipv4, header.protocol) {
            Some(mut t) => {
                let ghost c0 = *old(sockets);
                let ghost h = t.spec_handle().0;
                let ghost s0 = t.spec_socket()->Raw_0;
                let copy = payload.copy();
                let ghost p = copy;
                let result = match t.socket_mut() {
                    Socket::Raw(s) => s.process_accepted(timestamp, &ip_repr, copy),
                    _ => Err(Error::Rejected),
                };
                let ghost s1 = t.spec_socket()->Raw_0;
                proof {
                    assert(RawSocket::spec_processed(s0, s1, IpRepr::Ipv4(header), p, result));
                    assert(c0.socket_at(h) == Socket::Raw(s0));
                    assert(socket_key(Socket::Raw(s1)) == socket_key(Socket::Raw(s0)));
                }
                let released = sockets.release(t);
                if released.is_err() {
                    return Err(Error::AlreadyInUse);
                }
                let ghost cm = *sockets;
                proof {
                    assert(raw_taken(c0, cm, h, s0, s1));
                }
                match result {
                    Ok(()) => {
                        handled = true;
                    },
                    Err(Error::Rejected) => {},
                    Err(e) => return Err(e),
                }
                let r = self.deliver_ipv4(sockets, timestamp, header, payload, handled);
                proof {
                    assert(ip_delivered(self.spec_protocol_addrs(), cm, *sockets, timestamp, header, payload, handled, r));
                }
                r
            },
            None => self.deliver_ipv4(sockets, timestamp, header, payload, false),
        }
    }

    /// Deliver an IPv4 packet, after the raw sockets saw it, as
    /// `ip_delivered` states: nothing for a packet not addressed to us;
    /// otherwise the ICMP reply it calls for, delivery to the TCP or UDP
    /// socket it matches or the reset or Port Unreachable it calls for, and,
    /// for another protocol, nothing when a raw socket took it (`handled`),
    /// else a Protocol Unreachable.
    pub fn deliver_ipv4(
        &self,
        sockets: &mut Container,
        timestamp: u64,
        header: Ipv4Repr,
        payload: IpPayload,
        handled: bool,
    ) -> (r: Result<Response, Error>)
        requires
            self.wf(),
            old(sockets).wf(),
        ensures
            final(sockets).wf(),
            ip_delivered(
                self.spec_protocol_addrs(),
                *old(sockets),
                *final(sockets),
                timestamp,
                header,
                payload,
                handled,
                r,
            ),
    {
        if !self.has_protocol_addr(IpAddress::Ipv4(header.dst_addr)) {
            return Ok(Response::Nop);
        }
        match payload {
            IpPayload::Icmpv4(icmp) => Self::process_icmpv4(header, icmp),
            IpPayload::Tcp(tcp) => Self::process_tcpv4(sockets, timestamp, header, tcp),
            IpPayload::Udp(udp) => Self::process_udpv4(sockets, timestamp, header, udp),
            IpPayload::Raw(bytes) => {
                if handled {
                    return Ok(Response::Nop);
                }
                let n = if bytes.len() < 8 {
                    bytes.len()
                } else {
                    8
                };
                let mut data: Vec<u8> = Vec::new();
                let mut k: usize = 0;
                while k < n
                    invariant
                        k <= n <= bytes@.len(),
                        data@ == bytes@.subrange(0, k as int),
                    decreases n - k,
                {
                    data.push(bytes[k]);
                    k += 1;
                    assert(data@ =~= bytes@.subrange(0, k as int));
                }
                let icmp = Icmpv4Repr::DstUnreachable {
                    reason: Icmpv4DstUnreachable::ProtoUnreachable,
                    header,
                    data,
                };
                let ip = Ipv4Repr {
                    src_addr: header.dst_addr,
                    dst_addr: header.src_addr,
                    protocol: IpProtocol::Icmp,
                    payload_len: ICMP_HEADER_LEN + IPV4_HEADER_LEN + n,
                };
                Ok(Response::Icmpv4(ip, icmp))
            },
        }
    }

    /// Send a reply. An ARP reply goes to its target's hardware address; an
    /// IP reply goes to the hardware address that the ARP cache holds for
    /// its destination, and is `Unaddressable` when the cache holds none.
    /// `Exhausted` when the device has no room.
    pub fn send_response(&mut self, response: Response) -> (r: Result<(), Error>)
        requires
            old(self).wf(),
        ensures
            response_sent(*old(self), *final(self), response, r),
    {
        match response {
            Response::Nop => Ok(()),
            Response::Arp(repr) => {
                let frame = EthernetFrame {
                    dst_addr: repr.target_hardware_addr,
                    src_addr: self.hardware_addr,
                    payload: EthernetPayload::Arp(repr),
                };
                self.device.transmit(frame)
            },
            Response::Icmpv4(ip, icmp) => {
                match self.arp_cache.lookup(&IpAddress::Ipv4(ip.dst_addr)) {
                    None => Err(Error::Unaddressable),
                    Some(hw) => {
                        let frame = EthernetFrame {
                            dst_addr: hw,
                            src_addr: self.hardware_addr,
                            payload: EthernetPayload::Ipv4 { header: ip, payload: IpPayload::Icmpv4(icmp) },
                        };
                        self.device.transmit(frame)
                    },
                }
            },
            Response::Tcpv4(ip, seg) => {
                match self.arp_cache.lookup(&IpAddress::Ipv4(ip.dst_addr)) {
                    None => Err(Error::Unaddressable),
                    Some(hw) => {
                        let frame = EthernetFrame {
                            dst_addr: hw,
                            src_addr: self.hardware_addr,
                            payload: EthernetPayload::Ipv4 { header: ip, payload: IpPayload::Tcp(seg) },
                        };
                        self.device.transmit(frame)
                    },
                }
            },
        }
    }

    /// The IPv4 source address that lowering gives a header with source
    /// `src`: a configured address stays, an unspecified one becomes the
    /// first configured address.
    pub open spec fn spec_lowered_src(&self, src: IpAddress) -> Option<Ipv4Address> {
        match src {
            IpAddress::Ipv4(a) => if self.spec_protocol_addrs().contains(src) {
                Some(a)
            } else {
                None
            },
            IpAddress::Unspecified => if self.spec_protocol_addrs().len() > 0 {
                Some(self.spec_protocol_addrs()[0]->Ipv4_0)
            } else {
                None
            },
        }
    }

    /// Lower a socket's IP header to a concrete IPv4 header against the
    /// interface's addresses. `Unaddressable` when the destination is
    /// unspecified or no source address fits.
    pub fn lower(&self, ip: &IpRepr) -> (r: Result<Ipv4Repr, Error>)
        requires
            self.wf(),
        ensures
            (ip.spec_dst_addr() is Ipv4 && self.spec_lowered_src(ip.spec_src_addr()) is Some)
                <==> r is Ok,
            r is Err ==> r == Err::<Ipv4Repr, Error>(Error::Unaddressable),
            r matches Ok(v) ==> {
                &&& IpAddress::Ipv4(v.dst_addr) == ip.spec_dst_addr()
                &&& Some(v.src_addr) == self.spec_lowered_src(ip.spec_src_addr())
                &&& v.protocol == ip.spec_protocol()
                &&& v.payload_len == ip.spec_payload_len()
            },
    {
        let dst = match ip.dst_addr() {
            IpAddress::Ipv4(a) => a,
            IpAddress::Unspecified => return Err(Error::Unaddressable),
        };
        let src = match ip.src_addr() {
            IpAddress::Ipv4(a) => {
                if !self.has_protocol_addr(IpAddress::Ipv4(a)) {
                    return Err(Error::Unaddressable);
                }
                a
            },
            IpAddress::Unspecified => {
                if self.protocol_addrs.len() == 0 {
                    return Err(Error::Unaddressable);
                }
                match self.protocol_addrs[0] {
                    IpAddress::Ipv4(a) => a,
                    IpAddress::Unspecified => {
                        proof {
                            assert(self.protocol_addrs@[0].spec_is_unicast());
                        }
                        return Err(Error::Unaddressable);
                    },
                }
            },
        };
        Ok(Ipv4Repr { src_addr: src, dst_addr: dst, protocol: ip.protocol(), payload_len: ip.payload_len() })
    }

    /// Send a socket's packet: lowered, in a frame to the next hop when the
    /// ARP cache knows it (`Ok(None)`), or else as a broadcast ARP request for
    /// the destination in its place, handing the payload back
    /// (`Ok(Some(payload))`). `Unaddressable` when it cannot be lowered.
    pub fn emit_ip(&mut self, ip: &IpRepr, payload: IpPayload) -> (r: Result<Option<IpPayload>, Error>)
        requires
            old(self).wf(),
        ensures
            final(self).wf(),
            final(self).spec_arp_cache() == old(self).spec_arp_cache(),
            final(self).same_config(&*old(self)),
            final(self).spec_device().rx_view() == old(self).spec_device().rx_view(),
            final(self).spec_device().spec_tx_limit() == old(self).spec_device().spec_tx_limit(),
            final(self).spec_device().spec_mtu() == old(self).spec_device().spec_mtu(),
            r is Err ==> final(self).spec_device().tx_view() == old(self).spec_device().tx_view(),
            old(self).spec_device().can_transmit() ==> (r is Ok <==> (ip.spec_dst_addr() is Ipv4
                && old(self).spec_lowered_src(ip.spec_src_addr()) is Some)),
            old(self).spec_device().can_transmit() && r is Err ==> r == Err::<Option<IpPayload>, Error>(
                Error::Unaddressable,
            ),
            r matches Ok(back) ==> ip_sent(*old(self), *final(self), *ip, payload, back is None),
            r matches Ok(Some(p)) ==> p == payload,
    {
        let v = self.lower(ip)?;
        match self.arp_cache.lookup(&IpAddress::Ipv4(v.dst_addr)) {
            Some(hw) => {
                let frame = EthernetFrame {
                    dst_addr: hw,
                    src_addr: self.hardware_addr,
                    payload: EthernetPayload::Ipv4 { header: v, payload },
                };
                self.device.transmit(frame)?;
                Ok(None)
            },
            None => {
                let request = ArpRepr {
                    operation: ArpOperation::Request,
                    source_hardware_addr: self.hardware_addr,
                    source_protocol_addr: v.src_addr,
                    target_hardware_addr: EthernetAddress { value: 0 },
                    target_protocol_addr: v.dst_addr,
                };
                let frame = EthernetFrame {
                    dst_addr: EthernetAddress::broadcast(),
                    src_addr: self.hardware_addr,
                    payload: EthernetPayload::Arp(request),
                };
                self.device.transmit(frame)?;
                Ok(Some(payload))
            },
        }
    }

    /// Send what a socket has queued, if anything, at `timestamp`; a TCP
    /// socket first acts on a deadline that has passed. A TCP segment whose
    /// next hop is not in the ARP cache is held back (only the ARP request
    /// goes out), and so is a raw or UDP packet, which goes back to the front
    /// of its queue: the socket stays dirty and sends again on a later pass.
    /// An unaddressable raw or UDP packet is dropped. `Exhausted` when the
    /// device has no room.
    pub fn dispatch_socket(&mut self, socket: &mut Socket, timestamp: u64) -> (r: Result<(), Error>)
        requires
            old(self).wf(),
            old(socket).wf(),
        ensures
            dispatch_rel(*old(self), *old(socket), *final(self), *final(socket), timestamp, r),
    {
        if !self.device.has_room() {
            return Err(Error::Exhausted);
        }
        match socket {
            Socket::Raw(s) => {
                proof {
                    s.lemma_tx_bound();
                }
                let ghost t0 = s.tx_view();
                match s.dispatch() {
                    None => Ok(()),
                    Some(packet) => {
                        let ghost pkt = packet;
                        let header = packet.header;
                        let back = self.emit_ip(&header, packet.payload)?;
                        proof {
                            assert(ip_sent(
                                *old(self),
                                *self,
                                pkt.header,
                                pkt.payload,
                                back is None,
                            ));
                        }
                        match back {
                            None => {},
                            Some(payload) => {
                                s.requeue(RawPacket { header, payload });
                                proof {
                                    assert(RawPacket { header, payload } == pkt);
                                    assert(s.tx_view() =~= t0);
                                }
                            },
                        }
                        Ok(())
                    },
                }
            },
            Socket::Udp(s) => {
                proof {
                    s.lemma_tx_bound();
                }
                let ghost t0 = s.tx_view();
                let ghost s_old = *s;
                match s.dispatch() {
                    None => Ok(()),
                    Some((ip, payload)) => {
                        let ghost pl = payload;
                        let back = self.emit_ip(&ip, payload)?;
                        proof {
                            assert(ip_sent(*old(self), *self, ip, pl, back is None));
                        }
                        match back {
                            Some(IpPayload::Udp(udp)) => {
                                let endpoint = IpEndpoint::new(ip.dst_addr(), udp.dst_port);
                                proof {
                                    assert(UdpPacket { endpoint, payload: udp.payload } == t0[0]);
                                }
                                s.requeue(UdpPacket { endpoint, payload: udp.payload });
                                proof {
                                    assert(s.tx_view() =~= t0);
                                }
                            },
                            _ => {},
                        }
                        Ok(())
                    },
                }
            },
            Socket::Tcp(s) => {
                let mtu = self.device.mtu();
                let max_payload = if mtu > IPV4_HEADER_LEN + TCP_HEADER_LEN {
                    mtu - (IPV4_HEADER_LEN + TCP_HEADER_LEN)
                } else {
                    0
                };
                s.poll_timers(timestamp);
                match s.dispatch(max_payload) {
                    None => Ok(()),
                    Some((ip, seg)) => {
                        let back = self.emit_ip(&ip, IpPayload::Tcp(seg))?;
                        if back.is_none() {
                            s.dispatched(max_payload, timestamp);
                        }
                        Ok(())
                    },
                }
            },
        }
    }

    /// One pass over the dirty queue: while the device has room, each handle
    /// queued when the pass began (at most the queue's capacity) is taken in
    /// order, its socket sends what it has, and it is put back, rejoining the
    /// back of the queue if it is still dirty; it is not visited again in the
    /// same pass. Errors of single sockets do not end the pass.
    pub fn emit(&mut self, sockets: &mut Container, timestamp: u64)
        requires
            old(self).wf(),
            old(sockets).wf(),
        ensures
            final(self).wf(),
            final(sockets).wf(),
            pass_done(*old(self), *old(sockets), *final(self), *final(sockets), timestamp),
            final(self).spec_arp_cache() == old(self).spec_arp_cache(),
            final(self).same_config(&*old(self)),
            final(self).spec_device().rx_view() == old(self).spec_device().rx_view(),
            old(self).spec_device().tx_view().is_prefix_of(final(self).spec_device().tx_view()),
    {
        let ghost i0 = *self;
        let ghost c0 = *sockets;
        let ghost mut n: nat = 0;
        let mut iter = DirtyIter::new(sockets);
        loop
            invariant
                self.wf(),
                sockets.wf(),
                self.spec_arp_cache() == old(self).spec_arp_cache(),
                self.same_config(&*old(self)),
                self.spec_device().rx_view() == old(self).spec_device().rx_view(),
                old(self).spec_device().tx_view().is_prefix_of(self.spec_device().tx_view()),
                i0 == *old(self),
                c0 == *old(sockets),
                pass_reaches(i0, c0, *self, *sockets, timestamp, n),
                n + iter.left() == pass_bound(c0),
                n <= c0.dirty_queue().len(),
                sockets.dirty_queue().len() + n >= c0.dirty_queue().len(),
            decreases iter.left(),
        {
            if !self.device.has_room() {
                proof {
                    assert(pass_reaches(i0, c0, *self, *sockets, timestamp, n));
                }
                return ;
            }
            let ghost im = *self;
            let ghost cm = *sockets;
            match iter.next(sockets) {
                None => {
                    proof {
                        assert(pass_reaches(i0, c0, *self, *sockets, timestamp, n));
                    }
                    return ;
                },
                Some(mut t) => {
                    let ghost before = self.spec_device().tx_view();
                    let ghost s0 = t.spec_socket();
                    let res = self.dispatch_socket(t.socket_mut(), timestamp);
                    let ghost s1 = t.spec_socket();
                    proof {
                        let after = self.spec_device().tx_view();
                        let start = old(self).spec_device().tx_view();
                        if after != before {
                            let f = choose|f: EthernetFrame| after == before.push(f);
                            assert(start.is_prefix_of(after)) by {
                                assert forall|i: int| 0 <= i < start.len() implies start[i] == after[i] by {
                                    assert(start[i] == before[i]);
                                }
                            }
                        }
                    }
                    let ghost ck = *sockets;
                    let released = sockets.release(t);
                    proof {
                        assert(released is Ok);
                        assert(dispatch_rel(im, s0, *self, s1, timestamp, res));
                        assert forall|x: usize|
                            x < cm.slots().len() && x != cm.dirty_queue()[0].0 implies #[trigger] sockets.slots()[x as int]
                            == cm.slots()[x as int] by {
                            assert(ck.slots()[x as int] == cm.slots()[x as int]);
                        }
                        let h = cm.dirty_queue()[0];
                        assert(cm.dirty_queue().len() > 0);
                        assert(cm.live(h.0));
                        assert(s0.same_but_flag(&cm.socket_at(h.0)));
                        assert(!s0.spec_on_dirty_list());
                        assert(sockets.live(h.0));
                        assert(sockets.socket_at(h.0).same_but_flag(&s1));
                        assert(sockets.socket_at(h.0).spec_on_dirty_list() == s1.spec_is_dirty());
                        assert(sockets.slots().len() == cm.slots().len());
                        assert(sockets.dirty_queue() == if s1.spec_is_dirty() {
                            cm.dirty_queue().drop_first().push(h)
                        } else {
                            cm.dirty_queue().drop_first()
                        });
                        assert(pass_step(im, cm, *self, *sockets, timestamp));
                        n = n + 1;
                        assert(pass_reaches(i0, c0, *self, *sockets, timestamp, n));
                    }
                },
            }
        }
    }

    /// Whether a frame to `dst` is for this interface.
    pub open spec fn is_for_us(&self, dst: EthernetAddress) -> bool {
        dst.value == crate::wire::ETHERNET_BROADCAST || dst == self.spec_hardware_addr()
    }

    /// Classify, deliver and answer one received frame. A frame for another
    /// hardware address is ignored; an ethertype other than ARP and IPv4 is
    /// `Unrecognized`.
    pub fn process_frame(&mut self, sockets: &mut Container, timestamp: u64, frame: EthernetFrame) -> (r:
        Result<(), Error>)
        requires
            old(self).wf(),
            old(sockets).wf(),
        ensures
            frame_done(*old(self), *old(sockets), *final(self), *final(sockets), timestamp, frame, r),
    {
        if !frame.dst_addr.is_broadcast() && frame.dst_addr != self.hardware_addr {
            return Ok(());
        }
        let ghost f = frame;
        let ghost i0 = *self;
        let ghost c0 = *sockets;
        let ghost mut im = *self;
        let response = match frame.payload {
            EthernetPayload::Arp(a) => self.process_arp(&a),
            EthernetPayload::Ipv4 { header, payload } => {
                let r0 = self.process_ipv4(sockets, timestamp, frame.src_addr, header, payload);
                proof {
                    im = *self;
                }
                r0
            },
            EthernetPayload::Other { .. } => Err(Error::Unrecognized),
        };
        let ghost resp0 = response;
        let res = match response {
            Err(e) => Err(e),
            Ok(resp) => self.send_response(resp),
        };
        proof {
            if let EthernetPayload::Ipv4 { header, payload } = f.payload {
                if let IpPayload::Tcp(seg) = payload {
                    if let Some(key) = c0.tcp_choice(
                        IpAddress::Ipv4(header.dst_addr),
                        seg.dst_port,
                        IpAddress::Ipv4(header.src_addr),
                        seg.src_port,
                    ) {
                        if seg.payload@.len() <= IPV4_MAX_PAYLOAD && header.src_addr.spec_is_unicast()
                            && i0.spec_protocol_addrs().contains(IpAddress::Ipv4(header.dst_addr))
                            && !c0.filed(IndexKey::Raw(raw_key(IpVersion::Ipv4, header.protocol) as u64)) {
                            assert(tcp_delivery(c0, *sockets, timestamp, header, seg, key, resp0));
                            assert(same_outcome(res, resp0));
                        }
                    }
                }
                if let IpPayload::Udp(udp) = payload {
                    if let Some(key) = c0.udp_choice(IpAddress::Ipv4(header.dst_addr), udp.dst_port) {
                        if udp.payload@.len() <= IPV4_MAX_PAYLOAD - UDP_HEADER_LEN
                            && header.src_addr.spec_is_unicast() && i0.spec_protocol_addrs().contains(
                            IpAddress::Ipv4(header.dst_addr),
                        ) && !c0.filed(IndexKey::Raw(raw_key(IpVersion::Ipv4, header.protocol) as u64)) {
                            assert(udp_delivery(c0, *sockets, header, udp, key, resp0));
                            assert(same_outcome(res, resp0));
                        }
                    }
                }
            }
        }
        res
    }

    /// One round of the interface: a transmit pass over the dirty sockets,
    /// then the oldest received frame, if any, is processed. An empty device
    /// is no error.
    pub fn poll(&mut self, sockets: &mut Container, timestamp: u64) -> (r: Result<(), Error>)
        requires
            old(self).wf(),
            old(sockets).wf(),
        ensures
            final(self).wf(),
            final(sockets).wf(),
            final(self).same_config(&*old(self)),
            old(self).spec_device().rx_view().len() > 0 && old(self).is_for_us(
                old(self).spec_device().rx_view()[0].dst_addr,
            ) ==> {
                let f = old(self).spec_device().rx_view()[0];
                &&& f.payload matches EthernetPayload::Arp(a) ==> (!(a.operation is Unknown)
                    && a.source_protocol_addr.spec_is_unicast()
                    && !a.source_hardware_addr.spec_is_multicast() ==> final(self).spec_arp_cache().entry(
                    IpAddress::Ipv4(a.source_protocol_addr),
                ) == Some(a.source_hardware_addr))
                &&& f.payload matches EthernetPayload::Ipv4 { header, .. } ==> (
                header.src_addr.spec_is_unicast() && !f.src_addr.spec_is_multicast()
                    ==> final(self).spec_arp_cache().entry(IpAddress::Ipv4(header.src_addr)) == Some(
                    f.src_addr,
                ))
            },
            exists|im: Interface, cm: Container|
                #![trigger pass_done(*old(self), *old(sockets), im, cm, timestamp)]
                {
                    &&& pass_done(*old(self), *old(sockets), im, cm, timestamp)
                    &&& im.wf()
                    &&& cm.wf()
                    &&& im.spec_device().rx_view() == old(self).spec_device().rx_view()
                    &&& im.spec_arp_cache() == old(self).spec_arp_cache()
                    &&& im.same_config(&*old(self))
                    &&& old(self).spec_device().rx_view().len() == 0 ==> {
                        &&& r is Ok
                        &&& *final(sockets) == cm
                        &&& final(self).spec_device().tx_view() == im.spec_device().tx_view()
                        &&& final(self).spec_device().rx_view() == im.spec_device().rx_view()
                        &&& final(self).spec_arp_cache() == im.spec_arp_cache()
                    }
                    &&& old(self).spec_device().rx_view().len() > 0 ==> {
                        &&& final(self).spec_device().rx_view() == old(self).spec_device().rx_view().drop_first()
                        &&& exists|ir: Interface|
                            #![trigger frame_done(ir, cm, *final(self), *final(sockets), timestamp, old(self).spec_device().rx_view()[0], r)]
                            {
                                &&& ir.wf()
                                &&& ir.spec_device().rx_view() == old(self).spec_device().rx_view().drop_first()
                                &&& ir.spec_device().tx_view() == im.spec_device().tx_view()
                                &&& ir.spec_device().spec_tx_limit() == im.spec_device().spec_tx_limit()
                                &&& ir.spec_arp_cache() == im.spec_arp_cache()
                                &&& ir.same_config(&im)
                                &&& frame_done(
                                    ir,
                                    cm,
                                    *final(self),
                                    *final(sockets),
                                    timestamp,
                                    old(self).spec_device().rx_view()[0],
                                    r,
                                )
                            }
                    }
                },
    {
        self.emit(sockets, timestamp);
        let ghost im = *self;
        let ghost cm = *sockets;
        let frame = match self.device.receive() {
            Err(_) => return Ok(()),
            Ok(f) => f,
        };
        let ghost ir = *self;
        let ghost f = frame;
        let r = self.process_frame(sockets, timestamp, frame);
        proof {
            assert(frame_done(ir, cm, *self, *sockets, timestamp, f, r));
        }
        r
    }
}

} // verus!
