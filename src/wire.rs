use vstd::prelude::*;

verus! {

/// A copy of `data` as an owned vector.
pub fn copy_bytes(data: &[u8]) -> (r: Vec<u8>)
    ensures
        r@ == data@,
{
    let mut out: Vec<u8> = Vec::new();
    let mut i: usize = 0;
    while i < data.len()
        invariant
            i <= data@.len(),
            out@ == data@.subrange(0, i as int),
        decreases data@.len() - i,
    {
        out.push(data[i]);
        i += 1;
    }
    assert(out@ =~= data@);
    out
}

/// A six-octet Ethernet hardware address, held as a 48-bit number whose most
/// significant octet comes first on the wire.
#[derive(Debug, Clone, Copy, PartialEq, Eq, Structural, Hash)]
pub struct EthernetAddress {
    pub value: u64,
}

pub const ETHERNET_BROADCAST: u64 = 0xffff_ffff_ffff;

pub open spec fn octets6(a: u8, b: u8, c: u8, d: u8, e: u8, f: u8) -> int {
    a as int * 0x100_0000_0000 + b as int * 0x1_0000_0000 + c as int * 0x100_0000 + d as int
        * 0x1_0000 + e as int * 0x100 + f as int
}

impl EthernetAddress {
    pub open spec fn wf(&self) -> bool {
        self.value <= ETHERNET_BROADCAST
    }

    /// Multicast iff the lowest bit of the first octet is set.
    pub open spec fn spec_is_multicast(&self) -> bool {
        (self.value / 0x100_0000_0000) % 2 == 1
    }

    pub fn new(a: u8, b: u8, c: u8, d: u8, e: u8, f: u8) -> (r: EthernetAddress)
        ensures
            r.value == octets6(a, b, c, d, e, f),
            r.wf(),
    {
        let v: u64 = a as u64 * 0x100_0000_0000 + b as u64 * 0x1_0000_0000 + c as u64 * 0x100_0000
            + d as u64 * 0x1_0000 + e as u64 * 0x100 + f as u64;
        EthernetAddress { value: v }
    }

    /// The all-ones broadcast address.
    pub fn broadcast() -> (r: EthernetAddress)
        ensures
            r.value == ETHERNET_BROADCAST,
    {
        EthernetAddress { value: ETHERNET_BROADCAST }
    }

    pub fn is_broadcast(&self) -> (r: bool)
        ensures
            r == (self.value == ETHERNET_BROADCAST),
    {
        self.value == ETHERNET_BROADCAST
    }

    pub fn is_multicast(&self) -> (r: bool)
        ensures
            r == self.spec_is_multicast(),
    {
        (self.value / 0x100_0000_0000) % 2 == 1
    }

    /// Unicast iff not multicast (broadcast is a multicast address).
    pub fn is_unicast(&self) -> (r: bool)
        ensures
            r == !self.spec_is_multicast(),
    {
        !self.is_multicast()
    }
}

/// An IPv4 address, held as a 32-bit number whose first octet is the most
/// significant.
#[derive(Debug, Clone, Copy, PartialEq, Eq, Structural, Hash)]
pub struct Ipv4Address {
    pub value: u32,
}

pub open spec fn octets4(a: u8, b: u8, c: u8, d: u8) -> int {
    a as int * 0x100_0000 + b as int * 0x1_0000 + c as int * 0x100 + d as int
}

impl Ipv4Address {
    /// Unicast: neither unspecified (0.0.0.0), nor broadcast
    /// (255.255.255.255), nor multicast (224.0.0.0/4).
    pub open spec fn spec_is_unicast(&self) -> bool {
        &&& self.value != 0
        &&& self.value != 0xffff_ffff
        &&& !(0xe000_0000 <= self.value <= 0xefff_ffff)
    }

    pub fn new(a: u8, b: u8, c: u8, d: u8) -> (r: Ipv4Address)
        ensures
            r.value == octets4(a, b, c, d),
    {
        let v: u32 = a as u32 * 0x100_0000 + b as u32 * 0x1_0000 + c as u32 * 0x100 + d as u32;
        Ipv4Address { value: v }
    }

    pub fn is_unicast(&self) -> (r: bool)
        ensures
            r == self.spec_is_unicast(),
    {
        self.value != 0 && self.value != 0xffff_ffff && !(0xe000_0000 <= self.value
            && self.value <= 0xefff_ffff)
    }
}

/// A network-layer address: unspecified (a wildcard) or IPv4.
#[derive(Debug, Clone, Copy, PartialEq, Eq, Structural, Hash)]
pub enum IpAddress {
    Unspecified,
    Ipv4(Ipv4Address),
}

/// The order key of an address: the unspecified address comes first, then
/// IPv4 addresses by value.
pub open spec fn addr_key(a: IpAddress) -> nat {
    match a {
        IpAddress::Unspecified => 0,
        IpAddress::Ipv4(v) => 0x1_0000_0000 + v.value as nat,
    }
}

impl IpAddress {
    pub open spec fn spec_is_unicast(&self) -> bool {
        match self {
            IpAddress::Unspecified => false,
            IpAddress::Ipv4(a) => a.spec_is_unicast(),
        }
    }

    pub fn v4(a: u8, b: u8, c: u8, d: u8) -> (r: IpAddress)
        ensures
            r == IpAddress::Ipv4(Ipv4Address { value: octets4(a, b, c, d) as u32 }),
    {
        IpAddress::Ipv4(Ipv4Address::new(a, b, c, d))
    }

    pub fn is_unspecified(&self) -> (r: bool)
        ensures
            r == (*self is Unspecified),
    {
        match self {
            IpAddress::Unspecified => true,
            IpAddress::Ipv4(_) => false,
        }
    }

    pub fn is_unicast(&self) -> (r: bool)
        ensures
            r == self.spec_is_unicast(),
    {
        match self {
            IpAddress::Unspecified => false,
            IpAddress::Ipv4(a) => a.is_unicast(),
        }
    }

    pub fn key(&self) -> (r: u64)
        ensures
            r == addr_key(*self),
    {
        match self {
            IpAddress::Unspecified => 0,
            IpAddress::Ipv4(v) => 0x1_0000_0000 + v.value as u64,
        }
    }
}

/// An address and a port.
#[derive(Debug, Clone, Copy, PartialEq, Eq, Structural, Hash)]
pub struct IpEndpoint {
    pub addr: IpAddress,
    pub port: u16,
}

/// The order key of an endpoint: lexicographic on (address key, port).
pub open spec fn endpoint_key(e: IpEndpoint) -> nat {
    addr_key(e.addr) * 0x1_0000 + e.port as nat
}

impl IpEndpoint {
    pub open spec fn spec_is_unbound(&self) -> bool {
        self.addr is Unspecified && self.port == 0
    }

    pub fn new(addr: IpAddress, port: u16) -> (r: IpEndpoint)
        ensures
            r.addr == addr,
            r.port == port,
    {
        IpEndpoint { addr, port }
    }

    /// The unbound endpoint: unspecified address and port 0.
    pub fn unbound() -> (r: IpEndpoint)
        ensures
            r.spec_is_unbound(),
    {
        IpEndpoint { addr: IpAddress::Unspecified, port: 0 }
    }

    /// Unbound: the address is unspecified and the port is 0.
    pub fn is_unbound(&self) -> (r: bool)
        ensures
            r == self.spec_is_unbound(),
    {
        self.addr.is_unspecified() && self.port == 0
    }

    pub fn key(&self) -> (r: u64)
        ensures
            r == endpoint_key(*self),
    {
        self.addr.key() * 0x1_0000 + self.port as u64
    }
}

/// The IP version of a packet.
#[derive(Debug, Clone, Copy, PartialEq, Eq, Structural, Hash)]
pub enum IpVersion {
    Ipv4,
    Ipv6,
}

/// The protocol carried by an IP packet.
#[derive(Debug, Clone, Copy, PartialEq, Eq, Structural, Hash)]
pub enum IpProtocol {
    Icmp,
    Tcp,
    Udp,
    Unknown(u8),
}

pub open spec fn protocol_number(p: IpProtocol) -> nat {
    match p {
        IpProtocol::Icmp => 1,
        IpProtocol::Tcp => 6,
        IpProtocol::Udp => 17,
        IpProtocol::Unknown(n) => n as nat,
    }
}

/// The key of a raw-socket binding: version and protocol number.
pub open spec fn raw_key(v: IpVersion, p: IpProtocol) -> nat {
    (if v is Ipv4 { 0nat } else { 0x100nat }) + protocol_number(p)
}

impl IpProtocol {
    pub fn number(&self) -> (r: u8)
        ensures
            r == protocol_number(*self),
    {
        match self {
            IpProtocol::Icmp => 1,
            IpProtocol::Tcp => 6,
            IpProtocol::Udp => 17,
            IpProtocol::Unknown(n) => *n,
        }
    }
}

pub fn raw_key_of(v: IpVersion, p: IpProtocol) -> (r: u64)
    ensures
        r == raw_key(v, p),
{
    let base: u64 = match v {
        IpVersion::Ipv4 => 0,
        IpVersion::Ipv6 => 0x100,
    };
    base + p.number() as u64
}

/// The header fields of an IPv4 packet that the stack reads and writes.
#[derive(Debug, Clone, Copy, PartialEq, Eq, Structural)]
pub struct Ipv4Repr {
    pub src_addr: Ipv4Address,
    pub dst_addr: Ipv4Address,
    pub protocol: IpProtocol,
    pub payload_len: usize,
}

/// Length of an IPv4 header without options.
pub const IPV4_HEADER_LEN: usize = 20;

/// An IP header as a socket produces it: addresses may still be unspecified
/// until the interface lowers it to a concrete IPv4 header.
#[derive(Debug, Clone, Copy, PartialEq, Eq, Structural)]
pub enum IpRepr {
    Unspecified {
        src_addr: IpAddress,
        dst_addr: IpAddress,
        protocol: IpProtocol,
        payload_len: usize,
    },
    Ipv4(Ipv4Repr),
}

impl IpRepr {
    pub open spec fn spec_src_addr(&self) -> IpAddress {
        match self {
            IpRepr::Unspecified { src_addr, .. } => *src_addr,
            IpRepr::Ipv4(r) => IpAddress::Ipv4(r.src_addr),
        }
    }

    pub open spec fn spec_dst_addr(&self) -> IpAddress {
        match self {
            IpRepr::Unspecified { dst_addr, .. } => *dst_addr,
            IpRepr::Ipv4(r) => IpAddress::Ipv4(r.dst_addr),
        }
    }

    pub open spec fn spec_protocol(&self) -> IpProtocol {
        match self {
            IpRepr::Unspecified { protocol, .. } => *protocol,
            IpRepr::Ipv4(r) => r.protocol,
        }
    }

    pub open spec fn spec_payload_len(&self) -> usize {
        match self {
            IpRepr::Unspecified { payload_len, .. } => *payload_len,
            IpRepr::Ipv4(r) => r.payload_len,
        }
    }

    pub fn src_addr(&self) -> (r: IpAddress)
        ensures
            r == self.spec_src_addr(),
    {
        match self {
            IpRepr::Unspecified { src_addr, .. } => *src_addr,
            IpRepr::Ipv4(r) => IpAddress::Ipv4(r.src_addr),
        }
    }

    pub fn dst_addr(&self) -> (r: IpAddress)
        ensures
            r == self.spec_dst_addr(),
    {
        match self {
            IpRepr::Unspecified { dst_addr, .. } => *dst_addr,
            IpRepr::Ipv4(r) => IpAddress::Ipv4(r.dst_addr),
        }
    }

    pub fn protocol(&self) -> (r: IpProtocol)
        ensures
            r == self.spec_protocol(),
    {
        match self {
            IpRepr::Unspecified { protocol, .. } => *protocol,
            IpRepr::Ipv4(r) => r.protocol,
        }
    }

    pub fn payload_len(&self) -> (r: usize)
        ensures
            r == self.spec_payload_len(),
    {
        match self {
            IpRepr::Unspecified { payload_len, .. } => *payload_len,
            IpRepr::Ipv4(r) => r.payload_len,
        }
    }
}

/// A TCP sequence number; arithmetic on it wraps modulo 2^32.
#[derive(Debug, Clone, Copy, PartialEq, Eq, Structural, Hash)]
pub struct TcpSeqNumber(pub u32);

pub open spec fn seq_add(s: TcpSeqNumber, n: int) -> TcpSeqNumber {
    TcpSeqNumber(((s.0 as int + n) % 0x1_0000_0000) as u32)
}

impl TcpSeqNumber {
    pub fn add(self, n: u32) -> (r: TcpSeqNumber)
        ensures
            r == seq_add(self, n as int),
    {
        TcpSeqNumber(self.0.wrapping_add(n))
    }

    /// Distance from `other` forward to `self`, modulo 2^32.
    pub fn diff(self, other: TcpSeqNumber) -> (r: u32)
        ensures
            r as int == (self.0 as int - other.0 as int) % 0x1_0000_0000,
            seq_add(other, r as int) == self,
    {
        let r = self.0.wrapping_sub(other.0);
        assert(((other.0 as int + r as int) % 0x1_0000_0000) as u32 == self.0);
        r
    }
}

/// The control flag of a TCP segment.
#[derive(Debug, Clone, Copy, PartialEq, Eq, Structural, Hash)]
pub enum TcpControl {
    Plain,
    Syn,
    Fin,
    Rst,
}

/// The fields of a TCP segment that the stack reads and writes.
#[derive(Debug, Clone, PartialEq, Eq)]
pub struct TcpRepr {
    pub src_port: u16,
    pub dst_port: u16,
    pub control: TcpControl,
    pub push: bool,
    pub seq_number: TcpSeqNumber,
    pub ack_number: Option<TcpSeqNumber>,
    pub window_len: u16,
    pub max_seg_size: Option<u16>,
    pub payload: Vec<u8>,
}

/// Length of a TCP header without options.
pub const TCP_HEADER_LEN: usize = 20;

impl TcpRepr {
    /// Sequence space the segment occupies: payload, plus one for SYN or FIN.
    pub open spec fn spec_segment_len(&self) -> int {
        self.payload@.len() + if self.control is Syn || self.control is Fin {
            1int
        } else {
            0int
        }
    }

    pub fn segment_len(&self) -> (r: u32)
        requires
            self.payload@.len() < 0xffff_0000,
        ensures
            r == self.spec_segment_len(),
    {
        let extra: u32 = match self.control {
            TcpControl::Syn | TcpControl::Fin => 1,
            _ => 0,
        };
        self.payload.len() as u32 + extra
    }
}

/// The fields of a UDP datagram that the stack reads and writes.
#[derive(Debug, Clone, PartialEq, Eq)]
pub struct UdpRepr {
    pub src_port: u16,
    pub dst_port: u16,
    /// The checksum field as carried on the wire (0: none).
    pub checksum: u16,
    pub payload: Vec<u8>,
}

/// Length of a UDP header.
pub const UDP_HEADER_LEN: usize = 8;

/// The operation of an ARP packet.
#[derive(Debug, Clone, Copy, PartialEq, Eq, Structural)]
pub enum ArpOperation {
    Request,
    Reply,
    Unknown(u16),
}

/// An Ethernet/IPv4 ARP packet.
#[derive(Debug, Clone, Copy, PartialEq, Eq, Structural)]
pub struct ArpRepr {
    pub operation: ArpOperation,
    pub source_hardware_addr: EthernetAddress,
    pub source_protocol_addr: Ipv4Address,
    pub target_hardware_addr: EthernetAddress,
    pub target_protocol_addr: Ipv4Address,
}

/// The reason code of an ICMPv4 Destination Unreachable message.
#[derive(Debug, Clone, Copy, PartialEq, Eq, Structural)]
pub enum Icmpv4DstUnreachable {
    ProtoUnreachable,
    PortUnreachable,
}

/// The ICMPv4 messages that the stack reads and writes.
#[derive(Debug, Clone, PartialEq, Eq)]
pub enum Icmpv4Repr {
    EchoRequest { ident: u16, seq_no: u16, data: Vec<u8> },
    EchoReply { ident: u16, seq_no: u16, data: Vec<u8> },
    DstUnreachable { reason: Icmpv4DstUnreachable, header: Ipv4Repr, data: Vec<u8> },
    Other { msg_type: u8, code: u8 },
}

/// The payload of an IPv4 packet, as parsed by the codec layer.
#[derive(Debug, Clone, PartialEq, Eq)]
pub enum IpPayload {
    Icmpv4(Icmpv4Repr),
    Tcp(TcpRepr),
    Udp(UdpRepr),
    /// A payload of a protocol that the stack does not parse.
    Raw(Vec<u8>),
}

impl Default for IpPayload {
    fn default() -> (r: IpPayload)
        ensures
            r matches IpPayload::Raw(v) && v@.len() == 0,
    {
        IpPayload::Raw(Vec::new())
    }
}

/// What an Ethernet frame carries.
#[derive(Debug, Clone, PartialEq, Eq)]
pub enum EthernetPayload {
    Arp(ArpRepr),
    Ipv4 { header: Ipv4Repr, payload: IpPayload },
    /// A frame of an ethertype that the stack does not handle.
    Other { ethertype: u16 },
}

/// An Ethernet II frame, as parsed by the codec layer.
#[derive(Debug, Clone, PartialEq, Eq)]
pub struct EthernetFrame {
    pub dst_addr: EthernetAddress,
    pub src_addr: EthernetAddress,
    pub payload: EthernetPayload,
}

/// Two ICMPv4 messages are alike: same fields, same data octets.
pub open spec fn same_icmp(a: Icmpv4Repr, b: Icmpv4Repr) -> bool {
    match (a, b) {
        (
            Icmpv4Repr::EchoRequest { ident: i1, seq_no: s1, data: d1 },
            Icmpv4Repr::EchoRequest { ident: i2, seq_no: s2, data: d2 },
        ) => i1 == i2 && s1 == s2 && d1@ == d2@,
        (
            Icmpv4Repr::EchoReply { ident: i1, seq_no: s1, data: d1 },
            Icmpv4Repr::EchoReply { ident: i2, seq_no: s2, data: d2 },
        ) => i1 == i2 && s1 == s2 && d1@ == d2@,
        (
            Icmpv4Repr::DstUnreachable { reason: r1, header: h1, data: d1 },
            Icmpv4Repr::DstUnreachable { reason: r2, header: h2, data: d2 },
        ) => r1 == r2 && h1 == h2 && d1@ == d2@,
        (
            Icmpv4Repr::Other { msg_type: m1, code: c1 },
            Icmpv4Repr::Other { msg_type: m2, code: c2 },
        ) => m1 == m2 && c1 == c2,
        _ => false,
    }
}

/// Two IP payloads are alike: same kind, same fields, same octets.
pub open spec fn same_payload(a: IpPayload, b: IpPayload) -> bool {
    match (a, b) {
        (IpPayload::Icmpv4(x), IpPayload::Icmpv4(y)) => same_icmp(x, y),
        (IpPayload::Tcp(x), IpPayload::Tcp(y)) => {
            &&& x.src_port == y.src_port
            &&& x.dst_port == y.dst_port
            &&& x.control == y.control
            &&& x.push == y.push
            &&& x.seq_number == y.seq_number
            &&& x.ack_number == y.ack_number
            &&& x.window_len == y.window_len
            &&& x.max_seg_size == y.max_seg_size
            &&& x.payload@ == y.payload@
        },
        (IpPayload::Udp(x), IpPayload::Udp(y)) => {
            &&& x.src_port == y.src_port
            &&& x.dst_port == y.dst_port
            &&& x.checksum == y.checksum
            &&& x.payload@ == y.payload@
        },
        (IpPayload::Raw(x), IpPayload::Raw(y)) => x@ == y@,
        _ => false,
    }
}

impl IpPayload {
    /// A copy of the payload.
    pub fn copy(&self) -> (r: IpPayload)
        ensures
            same_payload(r, *self),
    {
        match self {
            IpPayload::Icmpv4(m) => IpPayload::Icmpv4(
                match m {
                    Icmpv4Repr::EchoRequest { ident, seq_no, data } => Icmpv4Repr::EchoRequest {
                        ident: *ident,
                        seq_no: *seq_no,
                        data: copy_bytes(data.as_slice()),
                    },
                    Icmpv4Repr::EchoReply { ident, seq_no, data } => Icmpv4Repr::EchoReply {
                        ident: *ident,
                        seq_no: *seq_no,
                        data: copy_bytes(data.as_slice()),
                    },
                    Icmpv4Repr::DstUnreachable { reason, header, data } => Icmpv4Repr::DstUnreachable {
                        reason: *reason,
                        header: *header,
                        data: copy_bytes(data.as_slice()),
                    },
                    Icmpv4Repr::Other { msg_type, code } => Icmpv4Repr::Other { msg_type: *msg_type, code: *code },
                },
            ),
            IpPayload::Tcp(t) => IpPayload::Tcp(
                TcpRepr {
                    src_port: t.src_port,
                    dst_port: t.dst_port,
                    control: t.control,
                    push: t.push,
                    seq_number: t.seq_number,
                    ack_number: t.ack_number,
                    window_len: t.window_len,
                    max_seg_size: t.max_seg_size,
                    payload: copy_bytes(t.payload.as_slice()),
                },
            ),
            IpPayload::Udp(u) => IpPayload::Udp(
                UdpRepr {
                    src_port: u.src_port,
                    dst_port: u.dst_port,
                    checksum: u.checksum,
                    payload: copy_bytes(u.payload.as_slice()),
                },
            ),
            IpPayload::Raw(b) => IpPayload::Raw(copy_bytes(b.as_slice())),
        }
    }
}

} // verus!
