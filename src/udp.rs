use vstd::prelude::*;

use crate::error::Error;
use crate::ring_buffer::RingBuffer;
use crate::wire::{copy_bytes, IpAddress, IpEndpoint, IpPayload, IpProtocol, IpRepr, UdpRepr, UDP_HEADER_LEN};

verus! {

/// A datagram as a UDP socket holds it: the remote endpoint (source when
/// received, destination when sent) and the payload.
#[derive(Debug, Clone, PartialEq, Eq)]
pub struct UdpPacket {
    pub endpoint: IpEndpoint,
    pub payload: Vec<u8>,
}

impl Default for UdpPacket {
    fn default() -> (r: UdpPacket)
        ensures
            r.endpoint.spec_is_unbound(),
            r.payload@.len() == 0,
    {
        UdpPacket { endpoint: IpEndpoint::unbound(), payload: Vec::new() }
    }
}

/// A UDP socket bound to a local endpoint, with datagram queues.
#[derive(Debug)]
pub struct UdpSocket {
    debug_id: usize,
    endpoint: IpEndpoint,
    rx_buffer: RingBuffer<UdpPacket>,
    tx_buffer: RingBuffer<UdpPacket>,
    on_dirty_list: bool,
}

/// Whether a datagram to `dst` (address, port) is for a socket bound to
/// `local`; an unspecified bound address is a wildcard.
pub open spec fn udp_accepts(local: IpEndpoint, dst_addr: IpAddress, dst_port: u16) -> bool {
    local.port == dst_port && (local.addr is Unspecified || local.addr == dst_addr)
}

/// The largest UDP payload that fits in one IPv4 packet.
pub const UDP_MAX_PAYLOAD: usize = 65507;

/// Every queued datagram fits in one IPv4 packet.
pub open spec fn payloads_fit(q: Seq<UdpPacket>) -> bool {
    forall|i: int| 0 <= i < q.len() ==> (#[trigger] q[i]).payload@.len() <= UDP_MAX_PAYLOAD
}

impl UdpSocket {
    pub closed spec fn wf(&self) -> bool {
        self.rx_buffer.wf() && self.tx_buffer.wf() && payloads_fit(self.tx_buffer@)
    }

    pub closed spec fn spec_endpoint(&self) -> IpEndpoint {
        self.endpoint
    }

    pub closed spec fn rx_view(&self) -> Seq<UdpPacket> {
        self.rx_buffer@
    }

    pub closed spec fn tx_view(&self) -> Seq<UdpPacket> {
        self.tx_buffer@
    }

    pub closed spec fn rx_capacity(&self) -> nat {
        self.rx_buffer.spec_capacity()
    }

    pub closed spec fn tx_capacity(&self) -> nat {
        self.tx_buffer.spec_capacity()
    }

    pub closed spec fn spec_debug_id(&self) -> usize {
        self.debug_id
    }

    pub closed spec fn spec_on_dirty_list(&self) -> bool {
        self.on_dirty_list
    }

    /// Transmit work is pending iff a datagram is queued.
    pub open spec fn spec_is_dirty(&self) -> bool {
        self.tx_view().len() > 0
    }

    /// The IP header and payload that sending `p` from this socket produces.
    pub open spec fn spec_emitted(&self, p: UdpPacket) -> (IpRepr, IpPayload) {
        (
            IpRepr::Unspecified {
                src_addr: self.spec_endpoint().addr,
                dst_addr: p.endpoint.addr,
                protocol: IpProtocol::Udp,
                payload_len: (UDP_HEADER_LEN + p.payload@.len()) as usize,
            },
            IpPayload::Udp(
                UdpRepr {
                    src_port: self.spec_endpoint().port,
                    dst_port: p.endpoint.port,
                    checksum: 0,
                    payload: p.payload,
                },
            ),
        )
    }

    /// Everything but the receive queue is as in `o`.
    pub open spec fn same_but_rx(&self, o: &UdpSocket) -> bool {
        &&& self.wf() == o.wf()
        &&& self.spec_endpoint() == o.spec_endpoint()
        &&& self.tx_view() == o.tx_view()
        &&& self.rx_capacity() == o.rx_capacity()
        &&& self.tx_capacity() == o.tx_capacity()
        &&& self.spec_debug_id() == o.spec_debug_id()
        &&& self.spec_on_dirty_list() == o.spec_on_dirty_list()
    }

    /// Everything but the transmit queue is as in `o`.
    pub open spec fn same_but_tx(&self, o: &UdpSocket) -> bool {
        &&& self.wf() == o.wf()
        &&& self.spec_endpoint() == o.spec_endpoint()
        &&& self.rx_view() == o.rx_view()
        &&& self.rx_capacity() == o.rx_capacity()
        &&& self.tx_capacity() == o.tx_capacity()
        &&& self.spec_debug_id() == o.spec_debug_id()
        &&& self.spec_on_dirty_list() == o.spec_on_dirty_list()
    }

    /// A new, unbound socket over the given queues.
    pub fn new(rx_buffer: RingBuffer<UdpPacket>, tx_buffer: RingBuffer<UdpPacket>) -> (r: UdpSocket)
        requires
            rx_buffer.wf(),
            tx_buffer.wf(),
            payloads_fit(tx_buffer@),
        ensures
            r.wf(),
            r.spec_endpoint().spec_is_unbound(),
            r.rx_view() == rx_buffer@,
            r.tx_view() == tx_buffer@,
            r.rx_capacity() == rx_buffer.spec_capacity(),
            r.tx_capacity() == tx_buffer.spec_capacity(),
            r.spec_debug_id() == 0,
            !r.spec_on_dirty_list(),
    {
        UdpSocket {
            debug_id: 0,
            endpoint: IpEndpoint::unbound(),
            rx_buffer,
            tx_buffer,
            on_dirty_list: false,
        }
    }

    pub fn debug_id(&self) -> (r: usize)
        ensures
            r == self.spec_debug_id(),
    {
        self.debug_id
    }

    pub fn set_debug_id(&mut self, id: usize)
        ensures
            final(self).spec_debug_id() == id,
            final(self).wf() == old(self).wf(),
            final(self).spec_endpoint() == old(self).spec_endpoint(),
            final(self).rx_view() == old(self).rx_view(),
            final(self).tx_view() == old(self).tx_view(),
            final(self).rx_capacity() == old(self).rx_capacity(),
            final(self).tx_capacity() == old(self).tx_capacity(),
            final(self).spec_on_dirty_list() == old(self).spec_on_dirty_list(),
    {
        self.debug_id = id;
    }

    pub fn endpoint(&self) -> (r: IpEndpoint)
        ensures
            r == self.spec_endpoint(),
    {
        self.endpoint
    }

    /// Bind the socket to a local endpoint.
    pub fn bind(&mut self, endpoint: IpEndpoint)
        ensures
            final(self).spec_endpoint() == endpoint,
            final(self).wf() == old(self).wf(),
            final(self).rx_view() == old(self).rx_view(),
            final(self).tx_view() == old(self).tx_view(),
            final(self).rx_capacity() == old(self).rx_capacity(),
            final(self).tx_capacity() == old(self).tx_capacity(),
            final(self).spec_debug_id() == old(self).spec_debug_id(),
            final(self).spec_on_dirty_list() == old(self).spec_on_dirty_list(),
    {
        self.endpoint = endpoint;
    }

    pub fn is_dirty(&self) -> (r: bool)
        requires
            self.wf(),
        ensures
            r == self.spec_is_dirty(),
    {
        !self.tx_buffer.empty()
    }

    pub fn is_on_dirty_list(&self) -> (r: bool)
        ensures
            r == self.spec_on_dirty_list(),
    {
        self.on_dirty_list
    }

    pub fn set_on_dirty_list(&mut self, val: bool)
        ensures
            final(self).spec_on_dirty_list() == val,
            final(self).wf() == old(self).wf(),
            final(self).spec_endpoint() == old(self).spec_endpoint(),
            final(self).rx_view() == old(self).rx_view(),
            final(self).tx_view() == old(self).tx_view(),
            final(self).rx_capacity() == old(self).rx_capacity(),
            final(self).tx_capacity() == old(self).tx_capacity(),
            final(self).spec_debug_id() == old(self).spec_debug_id(),
    {
        self.on_dirty_list = val;
    }

    /// Whether a datagram with this IP header and UDP header is for this socket.
    pub fn would_accept(&self, ip_repr: &IpRepr, udp_repr: &UdpRepr) -> (r: bool)
        ensures
            r == udp_accepts(self.spec_endpoint(), ip_repr.spec_dst_addr(), udp_repr.dst_port),
    {
        self.endpoint.port == udp_repr.dst_port && (self.endpoint.addr.is_unspecified()
            || self.endpoint.addr == ip_repr.dst_addr())
    }

    /// What taking datagram `udp_repr` does: `o` becomes `n` with result
    /// `r`, as `process_accepted` states.
    pub open spec fn spec_processed(o: UdpSocket, n: UdpSocket, ip_repr: IpRepr, udp_repr: UdpRepr, r: Result<(), Error>) -> bool {
        &&& n.same_but_rx(&o)
        &&& n.wf()
        &&& !udp_accepts(o.spec_endpoint(), ip_repr.spec_dst_addr(), udp_repr.dst_port)
            ==> r == Err::<(), Error>(Error::Rejected) && n.rx_view() == o.rx_view()
        &&& udp_accepts(o.spec_endpoint(), ip_repr.spec_dst_addr(), udp_repr.dst_port) ==> {
            if o.rx_view().len() == o.rx_capacity() {
                r == Err::<(), Error>(Error::Exhausted) && n.rx_view() == o.rx_view()
            } else {
                r is Ok && n.rx_view() == o.rx_view().push(
                    UdpPacket {
                        endpoint: IpEndpoint {
                            addr: ip_repr.spec_src_addr(),
                            port: udp_repr.src_port,
                        },
                        payload: udp_repr.payload,
                    },
                )
            }
        }
    }

    /// Store a received datagram with its source endpoint. `Rejected` when
    /// it is not for this socket, `Exhausted` when the receive queue is full.
    pub fn process_accepted(&mut self, _timestamp: u64, ip_repr: &IpRepr, udp_repr: UdpRepr) -> (r:
        Result<(), Error>)
        requires
            old(self).wf(),
        ensures
            Self::spec_processed(*old(self), *final(self), *ip_repr, udp_repr, r),
    {
        if !self.would_accept(ip_repr, &udp_repr) {
            return Err(Error::Rejected);
        }
        let packet = UdpPacket {
            endpoint: IpEndpoint::new(ip_repr.src_addr(), udp_repr.src_port),
            payload: udp_repr.payload,
        };
        match self.rx_buffer.push(packet) {
            Ok(()) => Ok(()),
            Err(()) => Err(Error::Exhausted),
        }
    }

    /// Queue a datagram to `endpoint`. `Unaddressable` when the endpoint has
    /// an unspecified address or port 0, `Exhausted` when the queue is full
    /// or the data does not fit in one IPv4 packet.
    pub fn send_slice(&mut self, data: &[u8], endpoint: IpEndpoint) -> (r: Result<(), Error>)
        requires
            old(self).wf(),
        ensures
            final(self).same_but_tx(&*old(self)),
            final(self).wf(),
            endpoint.addr is Unspecified || endpoint.port == 0 ==> r == Err::<(), Error>(
                Error::Unaddressable,
            ) && final(self).tx_view() == old(self).tx_view(),
            !(endpoint.addr is Unspecified || endpoint.port == 0) ==> {
                if old(self).tx_view().len() == old(self).tx_capacity() || data@.len()
                    > UDP_MAX_PAYLOAD {
                    r == Err::<(), Error>(Error::Exhausted) && final(self).tx_view() == old(self).tx_view()
                } else {
                    &&& r is Ok
                    &&& final(self).tx_view().len() == old(self).tx_view().len() + 1
                    &&& final(self).tx_view().drop_last() == old(self).tx_view()
                    &&& final(self).tx_view().last().endpoint == endpoint
                    &&& final(self).tx_view().last().payload@ == data@
                }
            },
    {
        if endpoint.addr.is_unspecified() || endpoint.port == 0 {
            return Err(Error::Unaddressable);
        }
        if data.len() > UDP_MAX_PAYLOAD {
            return Err(Error::Exhausted);
        }
        let packet = UdpPacket { endpoint, payload: copy_bytes(data) };
        let ghost before = self.tx_buffer@;
        let res = self.tx_buffer.push(packet);
        match res {
            Ok(()) => {
                assert(self.tx_buffer@.drop_last() =~= before);
                assert(payloads_fit(self.tx_buffer@)) by {
                    assert forall|i: int| 0 <= i < self.tx_buffer@.len() implies (
                    #[trigger] self.tx_buffer@[i]).payload@.len() <= UDP_MAX_PAYLOAD by {
                        if i < before.len() {
                            assert(self.tx_buffer@[i] == before[i]);
                        }
                    }
                }
                Ok(())
            },
            Err(()) => Err(Error::Exhausted),
        }
    }

    /// Take the oldest received datagram and its source. `Exhausted` when
    /// there is none.
    pub fn recv(&mut self) -> (r: Result<UdpPacket, Error>)
        requires
            old(self).wf(),
        ensures
            final(self).same_but_rx(&*old(self)),
            final(self).wf(),
            old(self).rx_view().len() == 0 ==> r == Err::<UdpPacket, Error>(Error::Exhausted)
                && final(self).rx_view() == old(self).rx_view(),
            old(self).rx_view().len() > 0 ==> r == Ok::<UdpPacket, Error>(old(self).rx_view()[0])
                && final(self).rx_view() == old(self).rx_view().drop_first(),
    {
        match self.rx_buffer.dequeue() {
            Ok(p) => {
                let mut out = UdpPacket::default();
                core::mem::swap(p, &mut out);
                Ok(out)
            },
            Err(()) => Err(Error::Exhausted),
        }
    }

    /// Take the oldest queued datagram off the transmit queue and hand out
    /// the IP header and payload that carry it.
    pub fn dispatch(&mut self) -> (r: Option<(IpRepr, IpPayload)>)
        requires
            old(self).wf(),
        ensures
            final(self).same_but_tx(&*old(self)),
            final(self).wf(),
            old(self).tx_view().len() == 0 ==> r is None && final(self).tx_view() == old(self).tx_view(),
            old(self).tx_view().len() > 0 ==> old(self).tx_view()[0].payload@.len() <= UDP_MAX_PAYLOAD,
            old(self).tx_view().len() > 0 ==> r == Some(old(self).spec_emitted(old(self).tx_view()[0]))
                && final(self).tx_view() == old(self).tx_view().drop_first(),
    {
        match self.tx_buffer.dequeue() {
            Ok(p) => {
                let mut out = UdpPacket::default();
                core::mem::swap(p, &mut out);
                proof {
                    assert(out == old(self).tx_buffer@[0]);
                    assert(payloads_fit(self.tx_buffer@)) by {
                        assert forall|i: int| 0 <= i < self.tx_buffer@.len() implies (
                        #[trigger] self.tx_buffer@[i]).payload@.len() <= UDP_MAX_PAYLOAD by {
                            assert(self.tx_buffer@[i] == old(self).tx_buffer@[i + 1]);
                        }
                    }
                }
                let len = UDP_HEADER_LEN + out.payload.len();
                let ip_repr = IpRepr::Unspecified {
                    src_addr: self.endpoint.addr,
                    dst_addr: out.endpoint.addr,
                    protocol: IpProtocol::Udp,
                    payload_len: len,
                };
                let udp_repr = UdpRepr {
                    src_port: self.endpoint.port,
                    dst_port: out.endpoint.port,
                    checksum: 0,
                    payload: out.payload,
                };
                Some((ip_repr, IpPayload::Udp(udp_repr)))
            },
            Err(()) => None,
        }
    }

    /// Put a datagram that `dispatch` handed out back at the front of the
    /// transmit queue, to be sent first next time.
    pub fn requeue(&mut self, packet: UdpPacket)
        requires
            old(self).wf(),
            old(self).tx_view().len() < old(self).tx_capacity(),
            packet.payload@.len() <= UDP_MAX_PAYLOAD,
        ensures
            final(self).wf(),
            final(self).same_but_tx(&*old(self)),
            final(self).tx_view() == seq![packet] + old(self).tx_view(),
    {
        let ghost before = self.tx_buffer@;
        self.tx_buffer.push_front(packet);
        assert(payloads_fit(self.tx_buffer@)) by {
            assert forall|i: int| 0 <= i < self.tx_buffer@.len() implies (
            #[trigger] self.tx_buffer@[i]).payload@.len() <= UDP_MAX_PAYLOAD by {
                if i > 0 {
                    assert(self.tx_buffer@[i] == before[i - 1]);
                }
            }
        }
    }

    /// The transmit queue holds no more packets than it has slots.
    pub proof fn lemma_tx_bound(&self)
        requires
            self.wf(),
        ensures
            self.tx_view().len() <= self.tx_capacity(),
    {
        self.tx_buffer.lemma_len_bound();
    }
}

} // verus!
