use vstd::prelude::*;

use crate::error::Error;
use crate::ring_buffer::RingBuffer;
use crate::wire::{IpPayload, IpProtocol, IpRepr, IpVersion};

verus! {

/// A packet as a raw socket holds it: its IP header and its payload.
#[derive(Debug, Clone, PartialEq, Eq)]
pub struct RawPacket {
    pub header: IpRepr,
    pub payload: IpPayload,
}

impl Default for RawPacket {
    fn default() -> (r: RawPacket)
        ensures
            r.payload matches IpPayload::Raw(v) && v@.len() == 0,
    {
        RawPacket {
            header: IpRepr::Unspecified {
                src_addr: crate::wire::IpAddress::Unspecified,
                dst_addr: crate::wire::IpAddress::Unspecified,
                protocol: IpProtocol::Unknown(0),
                payload_len: 0,
            },
            payload: IpPayload::default(),
        }
    }
}

/// A raw socket: it sees every packet of one IP version and protocol, and
/// sends packets whose IP header the user supplies.
#[derive(Debug)]
pub struct RawSocket {
    debug_id: usize,
    ip_version: IpVersion,
    ip_protocol: IpProtocol,
    rx_buffer: RingBuffer<RawPacket>,
    tx_buffer: RingBuffer<RawPacket>,
    on_dirty_list: bool,
}

impl RawSocket {
    pub closed spec fn wf(&self) -> bool {
        self.rx_buffer.wf() && self.tx_buffer.wf()
    }

    pub closed spec fn spec_ip_version(&self) -> IpVersion {
        self.ip_version
    }

    pub closed spec fn spec_ip_protocol(&self) -> IpProtocol {
        self.ip_protocol
    }

    pub closed spec fn rx_view(&self) -> Seq<RawPacket> {
        self.rx_buffer@
    }

    pub closed spec fn tx_view(&self) -> Seq<RawPacket> {
        self.tx_buffer@
    }

    pub closed spec fn rx_capacity(&self) -> nat {
        self.rx_buffer.spec_capacity()
    }

    pub closed spec fn tx_capacity(&self) -> nat {
        self.tx_buffer.spec_capacity()
    }

    pub closed spec fn spec_debug_id(&self) -> usize {
        self.debug_id
    }

    pub closed spec fn spec_on_dirty_list(&self) -> bool {
        self.on_dirty_list
    }

    /// Transmit work is pending iff a packet is queued.
    pub open spec fn spec_is_dirty(&self) -> bool {
        self.tx_view().len() > 0
    }

    /// The packet a `dispatch` would send now.
    pub open spec fn spec_next_packet(&self) -> Option<RawPacket> {
        if self.tx_view().len() > 0 {
            Some(self.tx_view()[0])
        } else {
            None
        }
    }

    pub fn new(
        ip_version: IpVersion,
        ip_protocol: IpProtocol,
        rx_buffer: RingBuffer<RawPacket>,
        tx_buffer: RingBuffer<RawPacket>,
    ) -> (r: RawSocket)
        requires
            rx_buffer.wf(),
            tx_buffer.wf(),
        ensures
            r.wf(),
            r.spec_ip_version() == ip_version,
            r.spec_ip_protocol() == ip_protocol,
            r.rx_view() == rx_buffer@,
            r.tx_view() == tx_buffer@,
            r.rx_capacity() == rx_buffer.spec_capacity(),
            r.tx_capacity() == tx_buffer.spec_capacity(),
            r.spec_debug_id() == 0,
            !r.spec_on_dirty_list(),
    {
        RawSocket { debug_id: 0, ip_version, ip_protocol, rx_buffer, tx_buffer, on_dirty_list: false }
    }

    pub fn debug_id(&self) -> (r: usize)
        ensures
            r == self.spec_debug_id(),
    {
        self.debug_id
    }

    pub fn set_debug_id(&mut self, id: usize)
        ensures
            final(self).spec_debug_id() == id,
            final(self).wf() == old(self).wf(),
            final(self).spec_ip_version() == old(self).spec_ip_version(),
            final(self).spec_ip_protocol() == old(self).spec_ip_protocol(),
            final(self).rx_view() == old(self).rx_view(),
            final(self).tx_view() == old(self).tx_view(),
            final(self).spec_on_dirty_list() == old(self).spec_on_dirty_list(),
    {
        self.debug_id = id;
    }

    pub fn ip_version(&self) -> (r: IpVersion)
        ensures
            r == self.spec_ip_version(),
    {
        self.ip_version
    }

    pub fn ip_protocol(&self) -> (r: IpProtocol)
        ensures
            r == self.spec_ip_protocol(),
    {
        self.ip_protocol
    }

    pub fn is_dirty(&self) -> (r: bool)
        requires
            self.wf(),
        ensures
            r == self.spec_is_dirty(),
    {
        !self.tx_buffer.empty()
    }

    pub fn is_on_dirty_list(&self) -> (r: bool)
        ensures
            r == self.spec_on_dirty_list(),
    {
        self.on_dirty_list
    }

    pub fn set_on_dirty_list(&mut self, val: bool)
        ensures
            final(self).spec_on_dirty_list() == val,
            final(self).wf() == old(self).wf(),
            final(self).spec_debug_id() == old(self).spec_debug_id(),
            final(self).spec_ip_version() == old(self).spec_ip_version(),
            final(self).spec_ip_protocol() == old(self).spec_ip_protocol(),
            final(self).rx_view() == old(self).rx_view(),
            final(self).tx_view() == old(self).tx_view(),
    {
        self.on_dirty_list = val;
    }

    /// Whether a packet of this version and protocol is for this socket.
    pub fn would_accept(&self, ip_version: IpVersion, ip_protocol: IpProtocol) -> (r: bool)
        ensures
            r == (ip_version == self.spec_ip_version() && ip_protocol == self.spec_ip_protocol()),
    {
        self.ip_version == ip_version && self.ip_protocol == ip_protocol
    }

    /// What taking a packet does: `o` becomes `n` with result `r`, as
    /// `process_accepted` states.
    pub open spec fn spec_processed(o: RawSocket, n: RawSocket, ip_repr: IpRepr, payload: IpPayload, r: Result<(), Error>) -> bool {
        &&& n.wf()
        &&& n.spec_ip_version() == o.spec_ip_version()
        &&& n.spec_ip_protocol() == o.spec_ip_protocol()
        &&& n.tx_view() == o.tx_view()
        &&& n.spec_on_dirty_list() == o.spec_on_dirty_list()
        &&& n.spec_debug_id() == o.spec_debug_id()
        &&& n.rx_capacity() == o.rx_capacity()
        &&& ip_repr.spec_protocol() != o.spec_ip_protocol() || o.spec_ip_version()
            != IpVersion::Ipv4 ==> r == Err::<(), Error>(Error::Rejected) && n.rx_view()
            == o.rx_view()
        &&& ip_repr.spec_protocol() == o.spec_ip_protocol() && o.spec_ip_version()
            == IpVersion::Ipv4 ==> {
            if o.rx_view().len() == o.rx_capacity() {
                r == Err::<(), Error>(Error::Exhausted) && n.rx_view() == o.rx_view()
            } else {
                r is Ok && n.rx_view() == o.rx_view().push(
                    RawPacket { header: ip_repr, payload },
                )
            }
        }
    }

    /// Store a received packet. `Rejected` when the version or protocol
    /// differs, `Exhausted` when the receive buffer is full.
    pub fn process_accepted(&mut self, _timestamp: u64, ip_repr: &IpRepr, payload: IpPayload) -> (r:
        Result<(), Error>)
        requires
            old(self).wf(),
        ensures
            Self::spec_processed(*old(self), *final(self), *ip_repr, payload, r),
    {
        if !self.would_accept(IpVersion::Ipv4, ip_repr.protocol()) {
            return Err(Error::Rejected);
        }
        let packet = RawPacket { header: *ip_repr, payload };
        match self.rx_buffer.push(packet) {
            Ok(()) => Ok(()),
            Err(()) => Err(Error::Exhausted),
        }
    }

    /// Queue a packet for sending. `Exhausted` when the transmit buffer is full.
    pub fn send(&mut self, packet: RawPacket) -> (r: Result<(), Error>)
        requires
            old(self).wf(),
        ensures
            final(self).wf(),
            final(self).spec_ip_version() == old(self).spec_ip_version(),
            final(self).spec_ip_protocol() == old(self).spec_ip_protocol(),
            final(self).rx_view() == old(self).rx_view(),
            final(self).spec_on_dirty_list() == old(self).spec_on_dirty_list(),
            final(self).spec_debug_id() == old(self).spec_debug_id(),
            final(self).tx_capacity() == old(self).tx_capacity(),
            old(self).tx_view().len() == old(self).tx_capacity() ==> r == Err::<(), Error>(
                Error::Exhausted,
            ) && final(self).tx_view() == old(self).tx_view(),
            old(self).tx_view().len() < old(self).tx_capacity() ==> r is Ok && final(self).tx_view()
                == old(self).tx_view().push(packet),
    {
        match self.tx_buffer.push(packet) {
            Ok(()) => Ok(()),
            Err(()) => Err(Error::Exhausted),
        }
    }

    /// Take the oldest received packet. `Exhausted` when there is none.
    pub fn recv(&mut self) -> (r: Result<RawPacket, Error>)
        requires
            old(self).wf(),
        ensures
            final(self).wf(),
            final(self).spec_ip_version() == old(self).spec_ip_version(),
            final(self).spec_ip_protocol() == old(self).spec_ip_protocol(),
            final(self).tx_view() == old(self).tx_view(),
            final(self).spec_on_dirty_list() == old(self).spec_on_dirty_list(),
            final(self).spec_debug_id() == old(self).spec_debug_id(),
            old(self).rx_view().len() == 0 ==> r == Err::<RawPacket, Error>(Error::Exhausted)
                && final(self).rx_view() == old(self).rx_view(),
            old(self).rx_view().len() > 0 ==> r == Ok::<RawPacket, Error>(old(self).rx_view()[0])
                && final(self).rx_view() == old(self).rx_view().drop_first(),
    {
        match self.rx_buffer.dequeue() {
            Ok(p) => {
                let mut out = RawPacket::default();
                core::mem::swap(p, &mut out);
                Ok(out)
            },
            Err(()) => Err(Error::Exhausted),
        }
    }

    /// Take the packet to send next off the transmit queue.
    pub fn dispatch(&mut self) -> (r: Option<RawPacket>)
        requires
            old(self).wf(),
        ensures
            final(self).wf(),
            r == old(self).spec_next_packet(),
            final(self).spec_ip_version() == old(self).spec_ip_version(),
            final(self).spec_ip_protocol() == old(self).spec_ip_protocol(),
            final(self).rx_view() == old(self).rx_view(),
            final(self).spec_on_dirty_list() == old(self).spec_on_dirty_list(),
            final(self).spec_debug_id() == old(self).spec_debug_id(),
            final(self).tx_view() == if old(self).tx_view().len() > 0 {
                old(self).tx_view().drop_first()
            } else {
                old(self).tx_view()
            },
            final(self).tx_capacity() == old(self).tx_capacity(),
    {
        match self.tx_buffer.dequeue() {
            Ok(p) => {
                let mut out = RawPacket::default();
                core::mem::swap(p, &mut out);
                Some(out)
            },
            Err(()) => None,
        }
    }

    /// Put a packet that `dispatch` handed out back at the front of the
    /// transmit queue, to be sent first next time.
    pub fn requeue(&mut self, packet: RawPacket)
        requires
            old(self).wf(),
            old(self).tx_view().len() < old(self).tx_capacity(),
        ensures
            final(self).wf(),
            final(self).tx_view() == seq![packet] + old(self).tx_view(),
            final(self).spec_ip_version() == old(self).spec_ip_version(),
            final(self).spec_ip_protocol() == old(self).spec_ip_protocol(),
            final(self).rx_view() == old(self).rx_view(),
            final(self).spec_on_dirty_list() == old(self).spec_on_dirty_list(),
            final(self).spec_debug_id() == old(self).spec_debug_id(),
    {
        self.tx_buffer.push_front(packet);
    }

    /// The transmit queue holds no more packets than it has slots.
    pub proof fn lemma_tx_bound(&self)
        requires
            self.wf(),
        ensures
            self.tx_view().len() <= self.tx_capacity(),
    {
        self.tx_buffer.lemma_len_bound();
    }
}

} // verus!
