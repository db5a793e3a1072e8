use vstd::prelude::*;

use crate::raw::RawSocket;
use crate::ring_buffer::Resettable;
use crate::tcp::{TcpSocket, TcpState};
use crate::udp::UdpSocket;
use crate::wire::{endpoint_key, raw_key, raw_key_of};

verus! {

/// A stable identifier of a socket within one container.
#[derive(Debug, Clone, Copy, Eq, Hash, PartialOrd, Ord)]
pub struct SocketHandle(pub usize);

impl PartialEq for SocketHandle {
    fn eq(&self, o: &SocketHandle) -> (r: bool) {
        self.0 == o.0
    }
}

impl vstd::std_specs::cmp::PartialEqSpecImpl for SocketHandle {
    open spec fn obeys_eq_spec() -> bool {
        true
    }

    open spec fn eq_spec(&self, o: &SocketHandle) -> bool {
        self.0 == o.0
    }
}

/// `==` on handles is equality of handles.
pub proof fn lemma_handle_eq_is_equality()
    ensures
        vstd::laws_eq::obeys_concrete_eq::<SocketHandle>(),
{
    reveal(vstd::laws_eq::obeys_concrete_eq);
}

impl Default for SocketHandle {
    fn default() -> (r: SocketHandle)
        ensures
            r.0 == 0,
    {
        SocketHandle(0)
    }
}

impl Resettable for SocketHandle {
    fn reset(&mut self) {
        *self = SocketHandle(0);
    }
}

/// The key under which the dispatch index files a socket.
#[derive(Debug, Clone, Copy, PartialEq, Eq, Structural)]
pub enum IndexKey {
    /// A raw socket, by IP version and protocol.
    Raw(u64),
    /// A bound UDP socket, by local endpoint.
    Udp(u64),
    /// A listening TCP socket, by local endpoint.
    TcpListen(u64),
    /// A connected TCP socket, by local and remote endpoint.
    TcpEstablished(u64, u64),
}

/// A network socket of one of the supported kinds.
#[derive(Debug)]
pub enum Socket {
    Raw(RawSocket),
    Udp(UdpSocket),
    Tcp(TcpSocket),
}

/// The index key of a TCP socket: none when closed or bound to no local
/// endpoint, a listener key in LISTEN, a connection key otherwise.
pub open spec fn tcp_key(t: TcpSocket) -> Option<IndexKey> {
    if t.spec_state() is Closed || t.spec_local_endpoint().spec_is_unbound() {
        None
    } else if t.spec_state() is Listen {
        Some(IndexKey::TcpListen(endpoint_key(t.spec_local_endpoint()) as u64))
    } else {
        Some(
            IndexKey::TcpEstablished(
                endpoint_key(t.spec_local_endpoint()) as u64,
                endpoint_key(t.spec_remote_endpoint()) as u64,
            ),
        )
    }
}

/// The key under which a socket is filed in the dispatch index, if any: a
/// raw socket by version and protocol, a UDP socket by its endpoint unless
/// unbound, a TCP socket as `tcp_key` says.
pub open spec fn socket_key(s: Socket) -> Option<IndexKey> {
    match s {
        Socket::Raw(r) => Some(IndexKey::Raw(raw_key(r.spec_ip_version(), r.spec_ip_protocol()) as u64)),
        Socket::Udp(u) => if u.spec_endpoint().spec_is_unbound() {
            None
        } else {
            Some(IndexKey::Udp(endpoint_key(u.spec_endpoint()) as u64))
        },
        Socket::Tcp(t) => tcp_key(t),
    }
}

impl Socket {
    pub open spec fn wf(&self) -> bool {
        match self {
            Socket::Raw(s) => s.wf(),
            Socket::Udp(s) => s.wf(),
            Socket::Tcp(s) => s.wf(),
        }
    }

    pub open spec fn spec_debug_id(&self) -> usize {
        match self {
            Socket::Raw(s) => s.spec_debug_id(),
            Socket::Udp(s) => s.spec_debug_id(),
            Socket::Tcp(s) => s.spec_debug_id(),
        }
    }

    pub open spec fn spec_is_dirty(&self) -> bool {
        match self {
            Socket::Raw(s) => s.spec_is_dirty(),
            Socket::Udp(s) => s.spec_is_dirty(),
            Socket::Tcp(s) => s.spec_is_dirty(),
        }
    }

    pub open spec fn spec_on_dirty_list(&self) -> bool {
        match self {
            Socket::Raw(s) => s.spec_on_dirty_list(),
            Socket::Udp(s) => s.spec_on_dirty_list(),
            Socket::Tcp(s) => s.spec_on_dirty_list(),
        }
    }

    /// `self` is `o` with only the dirty-queue flag possibly changed.
    pub open spec fn same_but_flag(&self, o: &Socket) -> bool {
        match (self, o) {
            (Socket::Raw(a), Socket::Raw(b)) => {
                &&& a.wf() == b.wf()
                &&& a.spec_debug_id() == b.spec_debug_id()
                &&& a.spec_ip_version() == b.spec_ip_version()
                &&& a.spec_ip_protocol() == b.spec_ip_protocol()
                &&& a.rx_view() == b.rx_view()
                &&& a.tx_view() == b.tx_view()
            },
            (Socket::Udp(a), Socket::Udp(b)) => {
                &&& a.wf() == b.wf()
                &&& a.spec_debug_id() == b.spec_debug_id()
                &&& a.spec_endpoint() == b.spec_endpoint()
                &&& a.rx_view() == b.rx_view()
                &&& a.tx_view() == b.tx_view()
                &&& a.rx_capacity() == b.rx_capacity()
                &&& a.tx_capacity() == b.tx_capacity()
            },
            (Socket::Tcp(a), Socket::Tcp(b)) => {
                &&& a.same_connection(b)
                &&& a.spec_debug_id() == b.spec_debug_id()
            },
            _ => false,
        }
    }

    /// `self` is `o` with only the debug identifier possibly changed.
    pub open spec fn same_but_id(&self, o: &Socket) -> bool {
        match (self, o) {
            (Socket::Raw(a), Socket::Raw(b)) => {
                &&& a.wf() == b.wf()
                &&& a.spec_on_dirty_list() == b.spec_on_dirty_list()
                &&& a.spec_ip_version() == b.spec_ip_version()
                &&& a.spec_ip_protocol() == b.spec_ip_protocol()
                &&& a.rx_view() == b.rx_view()
                &&& a.tx_view() == b.tx_view()
            },
            (Socket::Udp(a), Socket::Udp(b)) => {
                &&& a.wf() == b.wf()
                &&& a.spec_on_dirty_list() == b.spec_on_dirty_list()
                &&& a.spec_endpoint() == b.spec_endpoint()
                &&& a.rx_view() == b.rx_view()
                &&& a.tx_view() == b.tx_view()
                &&& a.rx_capacity() == b.rx_capacity()
                &&& a.tx_capacity() == b.tx_capacity()
            },
            (Socket::Tcp(a), Socket::Tcp(b)) => {
                &&& a.same_connection(b)
                &&& a.spec_on_dirty_list() == b.spec_on_dirty_list()
            },
            _ => false,
        }
    }

    /// Return the debug identifier.
    pub fn debug_id(&self) -> (r: usize)
        ensures
            r == self.spec_debug_id(),
    {
        match self {
            Socket::Raw(s) => s.debug_id(),
            Socket::Udp(s) => s.debug_id(),
            Socket::Tcp(s) => s.debug_id(),
        }
    }

    /// Set the debug identifier, a number that user code may use to tell
    /// sockets apart.
    pub fn set_debug_id(&mut self, id: usize)
        ensures
            final(self).spec_debug_id() == id,
            final(self).same_but_id(&*old(self)),
            socket_key(*final(self)) == socket_key(*old(self)),
            final(self).wf() == old(self).wf(),
            final(self).spec_is_dirty() == old(self).spec_is_dirty(),
            final(self).spec_on_dirty_list() == old(self).spec_on_dirty_list(),
    {
        match self {
            Socket::Raw(s) => s.set_debug_id(id),
            Socket::Udp(s) => s.set_debug_id(id),
            Socket::Tcp(s) => s.set_debug_id(id),
        }
    }

    /// Whether the socket has transmit work pending.
    pub fn is_dirty(&self) -> (r: bool)
        requires
            self.wf(),
        ensures
            r == self.spec_is_dirty(),
    {
        match self {
            Socket::Raw(s) => s.is_dirty(),
            Socket::Udp(s) => s.is_dirty(),
            Socket::Tcp(s) => s.is_dirty(),
        }
    }

    /// Whether the socket's handle is in its container's dirty queue.
    pub fn is_on_dirty_list(&self) -> (r: bool)
        ensures
            r == self.spec_on_dirty_list(),
    {
        match self {
            Socket::Raw(s) => s.is_on_dirty_list(),
            Socket::Udp(s) => s.is_on_dirty_list(),
            Socket::Tcp(s) => s.is_on_dirty_list(),
        }
    }

    pub fn set_on_dirty_list(&mut self, val: bool)
        ensures
            final(self).spec_on_dirty_list() == val,
            final(self).same_but_flag(&*old(self)),
            socket_key(*final(self)) == socket_key(*old(self)),
            final(self).wf() == old(self).wf(),
            final(self).spec_is_dirty() == old(self).spec_is_dirty(),
            final(self).spec_debug_id() == old(self).spec_debug_id(),
    {
        match self {
            Socket::Raw(s) => s.set_on_dirty_list(val),
            Socket::Udp(s) => s.set_on_dirty_list(val),
            Socket::Tcp(s) => s.set_on_dirty_list(val),
        }
    }

    /// The key under which the dispatch index files this socket.
    pub fn index_key(&self) -> (r: Option<IndexKey>)
        requires
            self.wf(),
        ensures
            r == socket_key(*self),
    {
        match self {
            Socket::Raw(s) => Some(IndexKey::Raw(raw_key_of(s.ip_version(), s.ip_protocol()))),
            Socket::Udp(s) => {
                let e = s.endpoint();
                if e.is_unbound() {
                    None
                } else {
                    Some(IndexKey::Udp(e.key()))
                }
            },
            Socket::Tcp(s) => {
                let local = s.local_endpoint();
                let state = s.state();
                if state == TcpState::Closed || local.is_unbound() {
                    None
                } else if state == TcpState::Listen {
                    Some(IndexKey::TcpListen(local.key()))
                } else {
                    Some(IndexKey::TcpEstablished(local.key(), s.remote_endpoint().key()))
                }
            },
        }
    }
}

/// Downcasting of a `Socket` to one concrete kind.
pub trait AsSocket<T>: Sized {
    /// Whether the socket is of kind `T`.
    spec fn is_kind(&self) -> bool;

    /// The socket of kind `T` inside.
    spec fn inner(&self) -> T;

    /// The socket holding `t`.
    spec fn holding(t: T) -> Self;

    /// The socket of kind `T` inside; the socket must be of that kind.
    fn as_socket(&mut self) -> (r: &mut T)
        requires
            old(self).is_kind(),
        ensures
            *r == old(self).inner(),
            *final(self) == Self::holding(*final(r)),
    ;

    /// The socket of kind `T` inside, or `None` for another kind.
    fn try_as_socket(&mut self) -> (r: Option<&mut T>)
        ensures
            r is Some <==> old(self).is_kind(),
            r matches Some(t) ==> *t == old(self).inner() && *final(self) == Self::holding(*final(t)),
            r is None ==> *final(self) == *old(self),
    ;
}

impl AsSocket<RawSocket> for Socket {
    open spec fn is_kind(&self) -> bool {
        self is Raw
    }

    open spec fn inner(&self) -> RawSocket {
        self->Raw_0
    }

    open spec fn holding(t: RawSocket) -> Socket {
        Socket::Raw(t)
    }

    fn as_socket(&mut self) -> (r: &mut RawSocket) {
        match self {
            Socket::Raw(s) => s,
            _ => vstd::pervasive::unreached(),
        }
    }

    fn try_as_socket(&mut self) -> (r: Option<&mut RawSocket>) {
        match self {
            Socket::Raw(s) => Some(s),
            _ => None,
        }
    }
}

impl AsSocket<UdpSocket> for Socket {
    open spec fn is_kind(&self) -> bool {
        self is Udp
    }

    open spec fn inner(&self) -> UdpSocket {
        self->Udp_0
    }

    open spec fn holding(t: UdpSocket) -> Socket {
        Socket::Udp(t)
    }

    fn as_socket(&mut self) -> (r: &mut UdpSocket) {
        match self {
            Socket::Udp(s) => s,
            _ => vstd::pervasive::unreached(),
        }
    }

    fn try_as_socket(&mut self) -> (r: Option<&mut UdpSocket>) {
        match self {
            Socket::Udp(s) => Some(s),
            _ => None,
        }
    }
}

impl AsSocket<TcpSocket> for Socket {
    open spec fn is_kind(&self) -> bool {
        self is Tcp
    }

    open spec fn inner(&self) -> TcpSocket {
        self->Tcp_0
    }

    open spec fn holding(t: TcpSocket) -> Socket {
        Socket::Tcp(t)
    }

    fn as_socket(&mut self) -> (r: &mut TcpSocket) {
        match self {
            Socket::Tcp(s) => s,
            _ => vstd::pervasive::unreached(),
        }
    }

    fn try_as_socket(&mut self) -> (r: Option<&mut TcpSocket>) {
        match self {
            Socket::Tcp(s) => Some(s),
            _ => None,
        }
    }
}

} // verus!
