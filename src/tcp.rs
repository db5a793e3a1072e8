use vstd::prelude::*;

use crate::error::Error;
use crate::ring_buffer::RingBuffer;
use crate::wire::{
    seq_add, IpAddress, IpEndpoint, IpProtocol, IpRepr, TcpControl, TcpRepr, TcpSeqNumber,
    TCP_HEADER_LEN,
};

verus! {

/// The states of a TCP connection (RFC 793).
#[derive(Debug, Clone, Copy, PartialEq, Eq, Structural, Hash)]
pub enum TcpState {
    Closed,
    Listen,
    SynSent,
    SynReceived,
    Established,
    FinWait1,
    FinWait2,
    CloseWait,
    Closing,
    LastAck,
    TimeWait,
}

/// The maximum segment size assumed for a peer that announces none.
pub const DEFAULT_MSS: u16 = 536;

/// The first retransmission timeout, in milliseconds.
pub const RTO_INITIAL: u64 = 1000;

/// The retransmission timeout never grows past this, in milliseconds.
pub const RTO_MAX: u64 = 60000;

/// How long a connection lingers in TIME-WAIT, in milliseconds.
pub const TIME_WAIT_TIMEOUT: u64 = 60000;

/// `now + delay`, saturating at the largest timestamp.
pub open spec fn deadline(now: u64, delay: u64) -> u64 {
    if now as int + delay as int > u64::MAX as int {
        u64::MAX
    } else {
        (now + delay) as u64
    }
}

pub fn deadline_of(now: u64, delay: u64) -> (r: u64)
    ensures
        r == deadline(now, delay),
{
    if now > u64::MAX - delay {
        u64::MAX
    } else {
        now + delay
    }
}

/// The largest buffer a TCP socket takes, so that a window fits in 16 bits.
pub const TCP_BUFFER_MAX: usize = 65535;

/// States past the handshake, in which segments carry acknowledgements.
pub open spec fn synchronized(s: TcpState) -> bool {
    !(s is Closed || s is Listen || s is SynSent || s is SynReceived)
}

/// States in which our FIN is due or has been sent.
pub open spec fn fin_due(s: TcpState) -> bool {
    s is FinWait1 || s is Closing || s is LastAck
}

/// States in which the user may still queue data.
pub open spec fn spec_may_send(s: TcpState) -> bool {
    s is Established || s is CloseWait
}

/// States in which the peer may still send data.
pub open spec fn spec_may_recv(s: TcpState) -> bool {
    s is Established || s is FinWait1 || s is FinWait2
}

/// The state that follows a synchronized state `s` on receipt of a segment,
/// given whether it carried the peer's FIN and whether it acknowledged ours.
pub open spec fn next_sync_state(s: TcpState, fin_received: bool, fin_acked: bool) -> TcpState {
    match s {
        TcpState::Established => if fin_received {
            TcpState::CloseWait
        } else {
            s
        },
        TcpState::FinWait1 => if fin_received && fin_acked {
            TcpState::TimeWait
        } else if fin_acked {
            TcpState::FinWait2
        } else if fin_received {
            TcpState::Closing
        } else {
            s
        },
        TcpState::FinWait2 => if fin_received {
            TcpState::TimeWait
        } else {
            s
        },
        TcpState::Closing => if fin_acked {
            TcpState::TimeWait
        } else {
            s
        },
        TcpState::LastAck => if fin_acked {
            TcpState::Closed
        } else {
            s
        },
        _ => s,
    }
}

/// The state `close` moves `s` to.
pub open spec fn close_state(s: TcpState) -> TcpState {
    match s {
        TcpState::Listen | TcpState::SynSent => TcpState::Closed,
        TcpState::SynReceived | TcpState::Established => TcpState::FinWait1,
        TcpState::CloseWait => TcpState::LastAck,
        _ => s,
    }
}

/// A TCP socket: the connection state machine with its byte buffers.
///
/// `local_seq_no` is the oldest unacknowledged sequence number (the initial
/// one until our SYN is acknowledged); the first `tx_sent` bytes of the
/// transmit buffer have been sent and await acknowledgement. `timer` is the
/// retransmission deadline while sequence space is in flight, or the end of
/// TIME-WAIT.
#[derive(Debug)]
pub struct TcpSocket {
    debug_id: usize,
    state: TcpState,
    local_endpoint: IpEndpoint,
    remote_endpoint: IpEndpoint,
    initial_seq_no: TcpSeqNumber,
    local_seq_no: TcpSeqNumber,
    remote_seq_no: TcpSeqNumber,
    remote_last_ack: Option<TcpSeqNumber>,
    remote_win_len: u16,
    remote_mss: u16,
    syn_sent: bool,
    fin_sent: bool,
    tx_sent: usize,
    timer: Option<u64>,
    rto: u64,
    rx_buffer: RingBuffer<u8>,
    tx_buffer: RingBuffer<u8>,
    on_dirty_list: bool,
}

impl TcpSocket {
    pub closed spec fn wf(&self) -> bool {
        &&& self.rx_buffer.wf()
        &&& self.tx_buffer.wf()
        &&& self.rx_buffer.spec_capacity() <= TCP_BUFFER_MAX
        &&& self.tx_buffer.spec_capacity() <= TCP_BUFFER_MAX
        &&& self.tx_sent <= self.tx_buffer@.len()
        &&& RTO_INITIAL <= self.rto <= RTO_MAX
        &&& (self.state is Closed ==> self.timer is None)
        &&& (self.state is Closed ==> self.local_endpoint.spec_is_unbound()
            && self.remote_endpoint.spec_is_unbound())
    }

    pub closed spec fn spec_state(&self) -> TcpState {
        self.state
    }

    pub closed spec fn spec_local_endpoint(&self) -> IpEndpoint {
        self.local_endpoint
    }

    pub closed spec fn spec_remote_endpoint(&self) -> IpEndpoint {
        self.remote_endpoint
    }

    /// The next sequence number expected from the peer.
    pub closed spec fn spec_remote_seq_no(&self) -> TcpSeqNumber {
        self.remote_seq_no
    }

    /// The oldest sequence number of ours not yet acknowledged.
    pub closed spec fn spec_local_seq_no(&self) -> TcpSeqNumber {
        self.local_seq_no
    }

    pub closed spec fn spec_initial_seq_no(&self) -> TcpSeqNumber {
        self.initial_seq_no
    }

    pub closed spec fn spec_syn_sent(&self) -> bool {
        self.syn_sent
    }

    pub closed spec fn spec_fin_sent(&self) -> bool {
        self.fin_sent
    }

    pub closed spec fn spec_tx_sent(&self) -> nat {
        self.tx_sent as nat
    }

    /// The pending deadline, if any.
    pub closed spec fn spec_timer(&self) -> Option<u64> {
        self.timer
    }

    /// The current retransmission timeout.
    pub closed spec fn spec_rto(&self) -> u64 {
        self.rto
    }

    pub closed spec fn spec_remote_win_len(&self) -> u16 {
        self.remote_win_len
    }

    pub closed spec fn spec_remote_mss(&self) -> u16 {
        self.remote_mss
    }

    pub closed spec fn spec_last_ack(&self) -> Option<TcpSeqNumber> {
        self.remote_last_ack
    }

    pub closed spec fn rx_view(&self) -> Seq<u8> {
        self.rx_buffer@
    }

    pub closed spec fn tx_view(&self) -> Seq<u8> {
        self.tx_buffer@
    }

    pub closed spec fn rx_capacity(&self) -> nat {
        self.rx_buffer.spec_capacity()
    }

    pub closed spec fn tx_capacity(&self) -> nat {
        self.tx_buffer.spec_capacity()
    }

    pub closed spec fn spec_debug_id(&self) -> usize {
        self.debug_id
    }

    pub closed spec fn spec_on_dirty_list(&self) -> bool {
        self.on_dirty_list
    }

    /// Sequence space sent and not yet acknowledged in a synchronized state.
    pub open spec fn in_flight(&self) -> nat {
        self.spec_tx_sent() + if self.spec_fin_sent() {
            1nat
        } else {
            0nat
        }
    }

    /// An acknowledgement of everything received is owed to the peer.
    pub open spec fn ack_pending(&self) -> bool {
        self.spec_last_ack() != Some(self.spec_remote_seq_no())
    }

    /// The receive window we announce: free room in the receive buffer.
    pub open spec fn spec_window(&self) -> nat {
        (self.rx_capacity() - self.rx_view().len()) as nat
    }

    /// Number of unsent bytes that the next segment carries, bounded by the
    /// peer's window, its segment size and `max_payload`.
    pub open spec fn spec_send_len(&self, max_payload: nat) -> nat {
        let unsent = self.tx_view().len() - self.spec_tx_sent();
        let room = if self.spec_remote_win_len() > self.spec_tx_sent() {
            self.spec_remote_win_len() - self.spec_tx_sent()
        } else {
            0
        };
        let n = if unsent < room {
            unsent
        } else {
            room
        };
        let n = if n < self.spec_remote_mss() {
            n
        } else {
            self.spec_remote_mss() as int
        };
        (if n < max_payload {
            n
        } else {
            max_payload as int
        }) as nat
    }

    /// Whether the next segment carries our FIN.
    pub open spec fn spec_sends_fin(&self, max_payload: nat) -> bool {
        fin_due(self.spec_state()) && !self.spec_fin_sent() && self.spec_tx_sent()
            + self.spec_send_len(max_payload) == self.tx_view().len()
    }

    /// Whether `dispatch` has a segment to hand out.
    pub open spec fn spec_has_segment(&self, max_payload: nat) -> bool {
        match self.spec_state() {
            TcpState::Closed | TcpState::Listen => false,
            TcpState::SynSent | TcpState::SynReceived => !self.spec_syn_sent(),
            _ => self.ack_pending() || self.spec_send_len(max_payload) > 0 || self.spec_sends_fin(
                max_payload,
            ),
        }
    }

    /// Transmit work is pending: a SYN, an acknowledgement, data the peer's
    /// window admits, or a FIN to send, or a deadline to watch (a
    /// retransmission, or the end of TIME-WAIT).
    pub open spec fn spec_is_dirty(&self) -> bool {
        self.spec_has_segment(self.spec_remote_mss() as nat) || self.spec_timer() is Some
    }

    /// Everything that describes the connection, but not the bookkeeping of
    /// the dirty queue or the debug id, is as in `o`.
    pub open spec fn same_connection(&self, o: &TcpSocket) -> bool {
        &&& self.wf() == o.wf()
        &&& self.spec_state() == o.spec_state()
        &&& self.spec_local_endpoint() == o.spec_local_endpoint()
        &&& self.spec_remote_endpoint() == o.spec_remote_endpoint()
        &&& self.spec_initial_seq_no() == o.spec_initial_seq_no()
        &&& self.spec_local_seq_no() == o.spec_local_seq_no()
        &&& self.spec_remote_seq_no() == o.spec_remote_seq_no()
        &&& self.spec_last_ack() == o.spec_last_ack()
        &&& self.spec_remote_win_len() == o.spec_remote_win_len()
        &&& self.spec_remote_mss() == o.spec_remote_mss()
        &&& self.spec_syn_sent() == o.spec_syn_sent()
        &&& self.spec_fin_sent() == o.spec_fin_sent()
        &&& self.spec_tx_sent() == o.spec_tx_sent()
        &&& self.spec_timer() == o.spec_timer()
        &&& self.spec_rto() == o.spec_rto()
        &&& self.rx_view() == o.rx_view()
        &&& self.tx_view() == o.tx_view()
        &&& self.rx_capacity() == o.rx_capacity()
        &&& self.tx_capacity() == o.tx_capacity()
    }

    /// The buffers, the dirty-queue flag and the debug id are as in `o`.
    pub open spec fn same_resources(&self, o: &TcpSocket) -> bool {
        &&& self.rx_capacity() == o.rx_capacity()
        &&& self.tx_capacity() == o.tx_capacity()
        &&& self.spec_debug_id() == o.spec_debug_id()
        &&& self.spec_on_dirty_list() == o.spec_on_dirty_list()
    }

    /// A closed socket over the given buffers.
    pub fn new(rx_buffer: RingBuffer<u8>, tx_buffer: RingBuffer<u8>) -> (r: TcpSocket)
        requires
            rx_buffer.wf(),
            tx_buffer.wf(),
            rx_buffer.spec_capacity() <= TCP_BUFFER_MAX,
            tx_buffer.spec_capacity() <= TCP_BUFFER_MAX,
        ensures
            r.wf(),
            r.spec_state() == TcpState::Closed,
            r.spec_local_endpoint().spec_is_unbound(),
            r.spec_remote_endpoint().spec_is_unbound(),
            r.rx_view() == rx_buffer@,
            r.tx_view() == tx_buffer@,
            r.rx_capacity() == rx_buffer.spec_capacity(),
            r.tx_capacity() == tx_buffer.spec_capacity(),
            r.spec_initial_seq_no() == TcpSeqNumber(0),
            r.spec_debug_id() == 0,
            !r.spec_on_dirty_list(),
    {
        TcpSocket {
            debug_id: 0,
            state: TcpState::Closed,
            local_endpoint: IpEndpoint::unbound(),
            remote_endpoint: IpEndpoint::unbound(),
            initial_seq_no: TcpSeqNumber(0),
            local_seq_no: TcpSeqNumber(0),
            remote_seq_no: TcpSeqNumber(0),
            remote_last_ack: None,
            remote_win_len: 0,
            remote_mss: DEFAULT_MSS,
            syn_sent: false,
            fin_sent: false,
            tx_sent: 0,
            timer: None,
            rto: RTO_INITIAL,
            rx_buffer,
            tx_buffer,
            on_dirty_list: false,
        }
    }

    pub fn debug_id(&self) -> (r: usize)
        ensures
            r == self.spec_debug_id(),
    {
        self.debug_id
    }

    pub fn set_debug_id(&mut self, id: usize)
        ensures
            final(self).spec_debug_id() == id,
            final(self).same_connection(&*old(self)),
            final(self).spec_on_dirty_list() == old(self).spec_on_dirty_list(),
    {
        self.debug_id = id;
    }

    pub fn is_on_dirty_list(&self) -> (r: bool)
        ensures
            r == self.spec_on_dirty_list(),
    {
        self.on_dirty_list
    }

    pub fn set_on_dirty_list(&mut self, val: bool)
        ensures
            final(self).spec_on_dirty_list() == val,
            final(self).same_connection(&*old(self)),
            final(self).spec_debug_id() == old(self).spec_debug_id(),
    {
        self.on_dirty_list = val;
    }

    /// Set the initial sequence number used by the next `listen` or `connect`.
    pub fn set_initial_seq_no(&mut self, seq: TcpSeqNumber)
        ensures
            final(self).spec_initial_seq_no() == seq,
            final(self).spec_state() == old(self).spec_state(),
            final(self).spec_local_endpoint() == old(self).spec_local_endpoint(),
            final(self).spec_remote_endpoint() == old(self).spec_remote_endpoint(),
            final(self).wf() == old(self).wf(),
            final(self).same_resources(&*old(self)),
            final(self).rx_view() == old(self).rx_view(),
            final(self).tx_view() == old(self).tx_view(),
    {
        self.initial_seq_no = seq;
    }

    /// The pending deadline (retransmission or end of TIME-WAIT), if any.
    pub fn timer(&self) -> (r: Option<u64>)
        ensures
            r == self.spec_timer(),
    {
        self.timer
    }

    pub fn state(&self) -> (r: TcpState)
        ensures
            r == self.spec_state(),
    {
        self.state
    }

    pub fn local_endpoint(&self) -> (r: IpEndpoint)
        ensures
            r == self.spec_local_endpoint(),
    {
        self.local_endpoint
    }

    pub fn remote_endpoint(&self) -> (r: IpEndpoint)
        ensures
            r == self.spec_remote_endpoint(),
    {
        self.remote_endpoint
    }

    /// Open: neither closed nor in time-wait.
    pub fn is_open(&self) -> (r: bool)
        ensures
            r == !(self.spec_state() is Closed || self.spec_state() is TimeWait),
    {
        !(self.state == TcpState::Closed || self.state == TcpState::TimeWait)
    }

    /// Listening for a connection.
    pub fn is_listening(&self) -> (r: bool)
        ensures
            r == (self.spec_state() is Listen),
    {
        self.state == TcpState::Listen
    }

    /// Active: a connection exists or is being set up (not closed,
    /// listening or in time-wait).
    pub fn is_active(&self) -> (r: bool)
        ensures
            r == !(self.spec_state() is Closed || self.spec_state() is TimeWait
                || self.spec_state() is Listen),
    {
        !(self.state == TcpState::Closed || self.state == TcpState::TimeWait || self.state
            == TcpState::Listen)
    }

    /// Whether the user may still queue data (no FIN sent yet).
    pub fn may_send(&self) -> (r: bool)
        ensures
            r == spec_may_send(self.spec_state()),
    {
        self.state == TcpState::Established || self.state == TcpState::CloseWait
    }

    /// Whether the peer may still send data (no FIN received yet).
    pub fn may_recv(&self) -> (r: bool)
        ensures
            r == spec_may_recv(self.spec_state()),
    {
        self.state == TcpState::Established || self.state == TcpState::FinWait1 || self.state
            == TcpState::FinWait2
    }

    /// Whether data can be queued now: sending is allowed and the transmit
    /// buffer has room.
    pub fn can_send(&self) -> (r: bool)
        requires
            self.wf(),
        ensures
            r == (spec_may_send(self.spec_state()) && self.tx_view().len() < self.tx_capacity()),
    {
        self.may_send() && !self.tx_buffer.full()
    }

    /// Wait for a connection on `local`. `Unaddressable` when its port is 0,
    /// `Illegal` when the socket is open.
    pub fn listen(&mut self, local: IpEndpoint) -> (r: Result<(), Error>)
        requires
            old(self).wf(),
        ensures
            final(self).wf(),
            final(self).same_resources(&*old(self)),
            local.port == 0 ==> r == Err::<(), Error>(Error::Unaddressable) && *final(self) == *old(self),
            local.port != 0 && !(old(self).spec_state() is Closed || old(self).spec_state() is TimeWait)
                ==> r == Err::<(), Error>(Error::Illegal) && *final(self) == *old(self),
            local.port != 0 && (old(self).spec_state() is Closed || old(self).spec_state() is TimeWait)
                ==> {
                &&& r is Ok
                &&& final(self).spec_state() == TcpState::Listen
                &&& final(self).spec_local_endpoint() == local
                &&& final(self).spec_remote_endpoint().spec_is_unbound()
                &&& final(self).rx_view() == old(self).rx_view()
                &&& final(self).tx_view() == old(self).tx_view()
                &&& !final(self).spec_is_dirty()
            },
    {
        if local.port == 0 {
            return Err(Error::Unaddressable);
        }
        if self.is_open() {
            return Err(Error::Illegal);
        }
        self.reset_connection();
        self.state = TcpState::Listen;
        self.local_endpoint = local;
        self.remote_endpoint = IpEndpoint::unbound();
        Ok(())
    }

    /// Start a connection from `local` to `remote`: the socket goes to
    /// SYN-SENT and owes the peer a SYN. `Unaddressable` when `remote` has an
    /// unspecified address or port 0, or `local` has port 0; `Illegal` when
    /// the socket is open.
    pub fn connect(&mut self, remote: IpEndpoint, local: IpEndpoint) -> (r: Result<(), Error>)
        requires
            old(self).wf(),
        ensures
            final(self).wf(),
            final(self).same_resources(&*old(self)),
            remote.addr is Unspecified || remote.port == 0 || local.port == 0 ==> r == Err::<
                (),
                Error,
            >(Error::Unaddressable) && *final(self) == *old(self),
            !(remote.addr is Unspecified || remote.port == 0 || local.port == 0) && !(old(self).spec_state() is Closed || old(self).spec_state() is TimeWait) ==> r == Err::<
                (),
                Error,
            >(Error::Illegal) && *final(self) == *old(self),
            !(remote.addr is Unspecified || remote.port == 0 || local.port == 0) && (old(self).spec_state() is Closed || old(self).spec_state() is TimeWait) ==> {
                &&& r is Ok
                &&& final(self).spec_state() == TcpState::SynSent
                &&& final(self).spec_local_endpoint() == local
                &&& final(self).spec_remote_endpoint() == remote
                &&& final(self).spec_local_seq_no() == old(self).spec_initial_seq_no()
                &&& final(self).rx_view() == old(self).rx_view()
                &&& final(self).tx_view() == old(self).tx_view()
                &&& final(self).spec_is_dirty()
            },
    {
        if remote.addr.is_unspecified() || remote.port == 0 || local.port == 0 {
            return Err(Error::Unaddressable);
        }
        if self.is_open() {
            return Err(Error::Illegal);
        }
        self.reset_connection();
        self.state = TcpState::SynSent;
        self.local_endpoint = local;
        self.remote_endpoint = remote;
        Ok(())
    }

    /// Start closing the connection: LISTEN and SYN-SENT close at once,
    /// SYN-RECEIVED and ESTABLISHED go to FIN-WAIT-1, CLOSE-WAIT to LAST-ACK;
    /// other states are left as they are.
    pub fn close(&mut self)
        requires
            old(self).wf(),
        ensures
            final(self).wf(),
            final(self).same_resources(&*old(self)),
            final(self).spec_state() == close_state(old(self).spec_state()),
            final(self).spec_state() is Closed ==> final(self).spec_local_endpoint().spec_is_unbound()
                && final(self).spec_remote_endpoint().spec_is_unbound(),
            !(final(self).spec_state() is Closed) ==> final(self).spec_local_endpoint() == old(self).spec_local_endpoint() && final(self).spec_remote_endpoint() == old(self).spec_remote_endpoint(),
            final(self).rx_view() == old(self).rx_view(),
            final(self).tx_view() == old(self).tx_view(),
    {
        match self.state {
            TcpState::Listen | TcpState::SynSent => self.abort(),
            TcpState::SynReceived | TcpState::Established => {
                self.state = TcpState::FinWait1;
            },
            TcpState::CloseWait => {
                self.state = TcpState::LastAck;
            },
            _ => {},
        }
    }

    /// Drop the connection at once: the socket becomes closed and unbound.
    pub fn abort(&mut self)
        requires
            old(self).wf(),
        ensures
            final(self).wf(),
            final(self).same_resources(&*old(self)),
            final(self).spec_state() == TcpState::Closed,
            final(self).spec_local_endpoint().spec_is_unbound(),
            final(self).spec_remote_endpoint().spec_is_unbound(),
            final(self).rx_view() == old(self).rx_view(),
            final(self).tx_view() == old(self).tx_view(),
    {
        self.reset_connection();
        self.state = TcpState::Closed;
        self.local_endpoint = IpEndpoint::unbound();
        self.remote_endpoint = IpEndpoint::unbound();
    }

    /// Clear the per-connection bookkeeping before a new connection.
    fn reset_connection(&mut self)
        requires
            old(self).wf(),
        ensures
            final(self).wf(),
            final(self).same_resources(&*old(self)),
            final(self).spec_state() == old(self).spec_state(),
            final(self).spec_local_endpoint() == old(self).spec_local_endpoint(),
            final(self).spec_remote_endpoint() == old(self).spec_remote_endpoint(),
            final(self).spec_initial_seq_no() == old(self).spec_initial_seq_no(),
            final(self).spec_local_seq_no() == old(self).spec_initial_seq_no(),
            final(self).spec_last_ack().is_none(),
            final(self).spec_remote_mss() == DEFAULT_MSS,
            !final(self).spec_syn_sent(),
            !final(self).spec_fin_sent(),
            final(self).spec_tx_sent() == 0,
            final(self).spec_timer() is None,
            final(self).spec_rto() == RTO_INITIAL,
            final(self).rx_view() == old(self).rx_view(),
            final(self).tx_view() == old(self).tx_view(),
    {
        self.timer = None;
        self.rto = RTO_INITIAL;
        self.local_seq_no = self.initial_seq_no;
        self.remote_seq_no = TcpSeqNumber(0);
        self.remote_last_ack = None;
        self.remote_win_len = 0;
        self.remote_mss = DEFAULT_MSS;
        self.syn_sent = false;
        self.fin_sent = false;
        self.tx_sent = 0;
    }

    /// Whether the fields of `seg` are those of the segment that `dispatch`
    /// hands out with `max_payload` bytes of room.
    pub open spec fn is_next_segment(&self, seg: TcpRepr, max_payload: nat) -> bool {
        let n = self.spec_send_len(max_payload);
        &&& seg.src_port == self.spec_local_endpoint().port
        &&& seg.dst_port == self.spec_remote_endpoint().port
        &&& seg.window_len == self.spec_window()
        &&& match self.spec_state() {
            TcpState::SynSent | TcpState::SynReceived => {
                &&& seg.control == TcpControl::Syn
                &&& seg.seq_number == self.spec_local_seq_no()
                &&& seg.ack_number == if self.spec_state() is SynSent {
                    None
                } else {
                    Some(self.spec_remote_seq_no())
                }
                &&& seg.max_seg_size == Some(DEFAULT_MSS)
                &&& seg.payload@.len() == 0
            },
            _ => {
                &&& seg.control == if self.spec_sends_fin(max_payload) {
                    TcpControl::Fin
                } else {
                    TcpControl::Plain
                }
                &&& seg.seq_number == seq_add(self.spec_local_seq_no(), self.in_flight() as int)
                &&& seg.ack_number == Some(self.spec_remote_seq_no())
                &&& seg.max_seg_size.is_none()
                &&& seg.payload@ == self.tx_view().subrange(
                    self.spec_tx_sent() as int,
                    (self.spec_tx_sent() + n) as int,
                )
                &&& seg.push == (n > 0)
            },
        }
    }

    fn send_len(&self, max_payload: usize) -> (r: usize)
        requires
            self.wf(),
        ensures
            r == self.spec_send_len(max_payload as nat),
            self.spec_tx_sent() + r <= self.tx_view().len(),
    {
        proof {
            self.tx_buffer.lemma_len_bound();
        }
        let unsent = self.tx_buffer.len() - self.tx_sent;
        let room: usize = if self.remote_win_len as usize > self.tx_sent {
            self.remote_win_len as usize - self.tx_sent
        } else {
            0
        };
        let n = if unsent < room {
            unsent
        } else {
            room
        };
        let n = if n < self.remote_mss as usize {
            n
        } else {
            self.remote_mss as usize
        };
        if n < max_payload {
            n
        } else {
            max_payload
        }
    }

    fn sends_fin(&self, max_payload: usize) -> (r: bool)
        requires
            self.wf(),
        ensures
            r == self.spec_sends_fin(max_payload as nat),
    {
        let n = self.send_len(max_payload);
        (self.state == TcpState::FinWait1 || self.state == TcpState::Closing || self.state
            == TcpState::LastAck) && !self.fin_sent && self.tx_sent + n == self.tx_buffer.len()
    }

    fn has_segment(&self, max_payload: usize) -> (r: bool)
        requires
            self.wf(),
        ensures
            r == self.spec_has_segment(max_payload as nat),
    {
        match self.state {
            TcpState::Closed | TcpState::Listen => false,
            TcpState::SynSent | TcpState::SynReceived => !self.syn_sent,
            _ => {
                let ack_pending = match self.remote_last_ack {
                    Some(a) => a != self.remote_seq_no,
                    None => true,
                };
                ack_pending || self.send_len(max_payload) > 0 || self.sends_fin(max_payload)
            },
        }
    }

    /// Whether the socket has transmit work pending.
    pub fn is_dirty(&self) -> (r: bool)
        requires
            self.wf(),
        ensures
            r == self.spec_is_dirty(),
    {
        self.has_segment(self.remote_mss as usize) || self.timer.is_some()
    }

    fn window(&self) -> (r: u16)
        requires
            self.wf(),
        ensures
            r == self.spec_window(),
    {
        proof {
            self.rx_buffer.lemma_len_bound();
        }
        (self.rx_buffer.capacity() - self.rx_buffer.len()) as u16
    }

    /// The segment to send next, if any, with an IP header whose addresses
    /// are the socket's endpoints. The socket is left as it is: call
    /// `dispatched` once the segment has gone out.
    pub fn dispatch(&self, max_payload: usize) -> (r: Option<(IpRepr, TcpRepr)>)
        requires
            self.wf(),
        ensures
            r is Some <==> self.spec_has_segment(max_payload as nat),
            r matches Some((ip, seg)) ==> {
                &&& self.is_next_segment(seg, max_payload as nat)
                &&& ip == IpRepr::Unspecified {
                    src_addr: self.spec_local_endpoint().addr,
                    dst_addr: self.spec_remote_endpoint().addr,
                    protocol: IpProtocol::Tcp,
                    payload_len: (TCP_HEADER_LEN + seg.payload@.len()) as usize,
                }
            },
    {
        if !self.has_segment(max_payload) {
            return None;
        }
        proof {
            self.tx_buffer.lemma_len_bound();
        }
        let window = self.window();
        let seg = match self.state {
            TcpState::SynSent | TcpState::SynReceived => {
                TcpRepr {
                    src_port: self.local_endpoint.port,
                    dst_port: self.remote_endpoint.port,
                    control: TcpControl::Syn,
                    push: false,
                    seq_number: self.local_seq_no,
                    ack_number: if self.state == TcpState::SynSent {
                        None
                    } else {
                        Some(self.remote_seq_no)
                    },
                    window_len: window,
                    max_seg_size: Some(DEFAULT_MSS),
                    payload: Vec::new(),
                }
            },
            _ => {
                let n = self.send_len(max_payload);
                let fin = self.sends_fin(max_payload);
                let mut payload: Vec<u8> = Vec::new();
                let mut k: usize = 0;
                while k < n
                    invariant
                        self.wf(),
                        k <= n,
                        self.spec_tx_sent() + n <= self.tx_view().len(),
                        self.tx_view().len() <= TCP_BUFFER_MAX,
                        payload@ == self.tx_view().subrange(
                            self.spec_tx_sent() as int,
                            self.spec_tx_sent() + k as int,
                        ),
                    decreases n - k,
                {
                    let b = *self.tx_buffer.get(self.tx_sent + k);
                    payload.push(b);
                    k += 1;
                    assert(payload@ =~= self.tx_view().subrange(
                        self.spec_tx_sent() as int,
                        self.spec_tx_sent() + k as int,
                    ));
                }
                let in_flight: u32 = self.tx_sent as u32 + if self.fin_sent {
                    1u32
                } else {
                    0u32
                };
                TcpRepr {
                    src_port: self.local_endpoint.port,
                    dst_port: self.remote_endpoint.port,
                    control: if fin {
                        TcpControl::Fin
                    } else {
                        TcpControl::Plain
                    },
                    push: n > 0,
                    seq_number: self.local_seq_no.add(in_flight),
                    ack_number: Some(self.remote_seq_no),
                    window_len: window,
                    max_seg_size: None,
                    payload,
                }
            },
        };
        let ip = IpRepr::Unspecified {
            src_addr: self.local_endpoint.addr,
            dst_addr: self.remote_endpoint.addr,
            protocol: IpProtocol::Tcp,
            payload_len: TCP_HEADER_LEN + seg.payload.len(),
        };
        Some((ip, seg))
    }

    /// Whether the next segment occupies sequence space (a SYN, data or a
    /// FIN), and so must be acknowledged or sent again.
    pub open spec fn spec_consumes(&self, max_payload: nat) -> bool {
        match self.spec_state() {
            TcpState::SynSent | TcpState::SynReceived => true,
            _ => self.spec_send_len(max_payload) > 0 || self.spec_sends_fin(max_payload),
        }
    }

    /// What recording a sent segment does: `o` becomes `n`, as `dispatched`
    /// states.
    pub open spec fn spec_sent(o: TcpSocket, n: TcpSocket, max_payload: usize, timestamp: u64) -> bool {
        &&& (n.spec_rto() == o.spec_rto())
        &&& (o.spec_timer() is Some || !o.spec_consumes(max_payload as nat)
        ==> n.spec_timer() == o.spec_timer())
        &&& (o.spec_timer() is None && o.spec_consumes(max_payload as nat)
        ==> n.spec_timer() == Some(deadline(timestamp, o.spec_rto())))
        &&& (n.wf())
        &&& (n.same_resources(&o))
        &&& (n.spec_state() == o.spec_state())
        &&& (n.spec_local_endpoint() == o.spec_local_endpoint())
        &&& (n.spec_remote_endpoint() == o.spec_remote_endpoint())
        &&& (n.spec_local_seq_no() == o.spec_local_seq_no())
        &&& (n.spec_remote_seq_no() == o.spec_remote_seq_no())
        &&& (n.rx_view() == o.rx_view())
        &&& (n.tx_view() == o.tx_view())
        &&& (o.spec_state() is SynSent || o.spec_state() is SynReceived ==> {
        &&& n.spec_syn_sent()
        &&& n.spec_tx_sent() == o.spec_tx_sent()
        &&& o.spec_state() is SynReceived ==> n.spec_last_ack() == Some(o.spec_remote_seq_no())
    })
        &&& (!(o.spec_state() is SynSent || o.spec_state() is SynReceived) ==> {
        &&& n.spec_tx_sent() == o.spec_tx_sent() + o.spec_send_len(max_payload as nat)
        &&& n.spec_fin_sent() == (o.spec_fin_sent() || o.spec_sends_fin(max_payload as nat))
        &&& n.spec_last_ack() == Some(o.spec_remote_seq_no())
    })
    }

    /// Record that the segment `dispatch` handed out with `max_payload` has
    /// gone out at `timestamp`: a retransmission deadline starts if it
    /// occupied sequence space and none was running; the SYN, the data and the FIN it carried count as sent, and
    /// everything received so far as acknowledged.
    pub fn dispatched(&mut self, max_payload: usize, timestamp: u64)
        requires
            old(self).wf(),
            old(self).spec_has_segment(max_payload as nat),
        ensures
            Self::spec_sent(*old(self), *final(self), max_payload, timestamp),
    {
        let consumes = match self.state {
            TcpState::SynSent | TcpState::SynReceived => {
                self.syn_sent = true;
                if self.state == TcpState::SynReceived {
                    self.remote_last_ack = Some(self.remote_seq_no);
                }
                true
            },
            _ => {
                let n = self.send_len(max_payload);
                let fin = self.sends_fin(max_payload);
                self.tx_sent = self.tx_sent + n;
                if fin {
                    self.fin_sent = true;
                }
                self.remote_last_ack = Some(self.remote_seq_no);
                n > 0 || fin
            },
        };
        if consumes && self.timer.is_none() {
            self.timer = Some(deadline_of(timestamp, self.rto));
        }
    }

    /// What acting on deadlines at `timestamp` does: `o` becomes `n`, as
    /// `poll_timers` states.
    pub open spec fn spec_timers_polled(o: TcpSocket, n: TcpSocket, timestamp: u64) -> bool {
        &&& (n.wf())
        &&& (n.same_resources(&o))
        &&& (n.rx_view() == o.rx_view())
        &&& (n.tx_view() == o.tx_view())
        &&& (!(o.spec_timer() matches Some(t) && t <= timestamp) ==> n == o)
        &&& (o.spec_timer() matches Some(t) && t <= timestamp && o.spec_state() is TimeWait
        ==> n.spec_state() is Closed)
        &&& (o.spec_timer() matches Some(t) && t <= timestamp && !(o.spec_state() is TimeWait)
        ==> {
        &&& n.spec_state() == o.spec_state()
        &&& n.spec_local_endpoint() == o.spec_local_endpoint()
        &&& n.spec_remote_endpoint() == o.spec_remote_endpoint()
        &&& n.spec_local_seq_no() == o.spec_local_seq_no()
        &&& n.spec_remote_seq_no() == o.spec_remote_seq_no()
        &&& n.spec_tx_sent() == 0
        &&& !n.spec_fin_sent()
        &&& !n.spec_syn_sent()
        &&& n.spec_timer() is None
        &&& n.spec_rto() as int == if 2 * o.spec_rto() < RTO_MAX {
            2 * o.spec_rto()
        } else {
            RTO_MAX as int
        }
    })
    }

    /// Act on a deadline that has passed by `timestamp`: TIME-WAIT ends and
    /// the socket closes; otherwise everything in flight is sent again from
    /// the oldest unacknowledged byte, and the timeout doubles, up to
    /// `RTO_MAX`. Before the deadline nothing changes.
    pub fn poll_timers(&mut self, timestamp: u64)
        requires
            old(self).wf(),
        ensures
            Self::spec_timers_polled(*old(self), *final(self), timestamp),
    {
        match self.timer {
            Some(t) => {
                if t <= timestamp {
                    if self.state == TcpState::TimeWait {
                        self.abort();
                    } else {
                        self.tx_sent = 0;
                        self.fin_sent = false;
                        self.syn_sent = false;
                        self.timer = None;
                        self.rto = if 2 * self.rto < RTO_MAX {
                            2 * self.rto
                        } else {
                            RTO_MAX
                        };
                    }
                }
            },
            None => {},
        }
    }

    /// Whether a segment with this IP header and TCP header belongs to this
    /// socket: the local endpoint matches (an unspecified address is a
    /// wildcard) and, unless listening, the remote endpoint is the source.
    pub open spec fn spec_would_accept(&self, ip: IpRepr, seg: TcpRepr) -> bool {
        &&& !(self.spec_state() is Closed)
        &&& self.spec_local_endpoint().port == seg.dst_port
        &&& (self.spec_local_endpoint().addr is Unspecified || self.spec_local_endpoint().addr
            == ip.spec_dst_addr())
        &&& (self.spec_state() is Listen || (self.spec_remote_endpoint().addr == ip.spec_src_addr()
            && self.spec_remote_endpoint().port == seg.src_port))
    }

    /// Sequence space that acknowledgement `a` covers beyond `local_seq_no`.
    pub open spec fn spec_acked(&self, a: TcpSeqNumber) -> nat {
        ((a.0 as int - self.spec_local_seq_no().0 as int) % 0x1_0000_0000) as nat
    }

    /// The acknowledgement, if any, covers nothing that was not sent.
    pub open spec fn ack_ok(&self, seg: TcpRepr) -> bool {
        seg.ack_number matches Some(a) ==> self.spec_acked(a) <= self.in_flight()
    }

    /// Bytes of sent data that the segment acknowledges.
    pub open spec fn spec_data_acked(&self, seg: TcpRepr) -> nat {
        match seg.ack_number {
            Some(a) => if self.spec_acked(a) < self.spec_tx_sent() {
                self.spec_acked(a)
            } else {
                self.spec_tx_sent()
            },
            None => 0,
        }
    }

    /// Whether the segment acknowledges our FIN.
    pub open spec fn spec_fin_acked(&self, seg: TcpRepr) -> bool {
        self.spec_fin_sent() && (seg.ack_number matches Some(a) && self.spec_acked(a)
            == self.in_flight())
    }

    /// Payload bytes taken into the receive buffer: as many as fit, and none
    /// once the peer has closed its side.
    pub open spec fn spec_accept_len(&self, seg: TcpRepr) -> nat {
        if spec_may_recv(self.spec_state()) {
            if seg.payload@.len() < self.spec_window() {
                seg.payload@.len()
            } else {
                self.spec_window()
            }
        } else {
            0
        }
    }

    /// Whether the segment's FIN is taken: it is in order after the whole
    /// payload and the peer had not closed yet.
    pub open spec fn spec_fin_received(&self, seg: TcpRepr) -> bool {
        seg.control is Fin && spec_may_recv(self.spec_state()) && self.spec_accept_len(seg)
            == seg.payload@.len()
    }

    pub fn would_accept(&self, ip_repr: &IpRepr, repr: &TcpRepr) -> (r: bool)
        ensures
            r == self.spec_would_accept(*ip_repr, *repr),
    {
        self.state != TcpState::Closed && self.local_endpoint.port == repr.dst_port && (
        self.local_endpoint.addr.is_unspecified() || self.local_endpoint.addr == ip_repr.dst_addr())
            && (self.state == TcpState::Listen || (self.remote_endpoint.addr == ip_repr.src_addr()
            && self.remote_endpoint.port == repr.src_port))
    }

    /// What taking segment `repr` at `timestamp` does: `o` becomes `n` with
    /// result `r`, as `process_accepted` states.
    pub open spec fn spec_processed(o: TcpSocket, n: TcpSocket, timestamp: u64, ip_repr: IpRepr, repr: TcpRepr, r: Result<(), Error>) -> bool {
        &&& n.wf()
        &&& n.same_resources(&o)
        &&& r is Err ==> n == o
        &&& n.spec_state() is TimeWait && !(o.spec_state() is TimeWait) ==> n.spec_timer()
            == Some(deadline(timestamp, TIME_WAIT_TIMEOUT))
        &&& !o.spec_would_accept(ip_repr, repr) ==> r == Err::<(), Error>(Error::Rejected)
        &&& o.spec_would_accept(ip_repr, repr) && repr.control is Rst ==> {
            &&& r is Ok
            &&& n.spec_state() is Closed
        }
        &&& o.spec_would_accept(ip_repr, repr) && !(repr.control is Rst) && o.spec_state() is Listen ==> if repr.control is Syn && repr.ack_number is None {
            &&& r is Ok
            &&& n.spec_state() is SynReceived
            &&& n.spec_local_endpoint() == IpEndpoint {
                addr: ip_repr.spec_dst_addr(),
                port: repr.dst_port,
            }
            &&& n.spec_remote_endpoint() == IpEndpoint {
                addr: ip_repr.spec_src_addr(),
                port: repr.src_port,
            }
            &&& n.spec_remote_seq_no() == seq_add(repr.seq_number, 1)
            &&& n.spec_local_seq_no() == o.spec_initial_seq_no()
            &&& !n.spec_syn_sent()
            &&& n.spec_is_dirty()
        } else {
            r == Err::<(), Error>(Error::Dropped)
        }
        &&& o.spec_would_accept(ip_repr, repr) && !(repr.control is Rst) && o.spec_state() is SynSent ==> if repr.control is Syn && repr.ack_number == Some(
            seq_add(o.spec_local_seq_no(), 1)
        ) && o.spec_syn_sent() {
            &&& r is Ok
            &&& n.spec_state() is Established
            &&& n.spec_remote_seq_no() == seq_add(repr.seq_number, 1)
            &&& n.spec_local_seq_no() == seq_add(o.spec_local_seq_no(), 1)
            &&& n.spec_is_dirty()
        } else {
            r == Err::<(), Error>(Error::Dropped)
        }
        &&& o.spec_would_accept(ip_repr, repr) && !(repr.control is Rst) && o.spec_state() is SynReceived ==> if repr.control is Plain && repr.ack_number == Some(
            seq_add(o.spec_local_seq_no(), 1)
        ) && o.spec_syn_sent() {
            &&& r is Ok
            &&& n.spec_state() is Established
            &&& n.spec_local_seq_no() == seq_add(o.spec_local_seq_no(), 1)
            &&& n.spec_remote_seq_no() == o.spec_remote_seq_no()
            &&& n.spec_last_ack() == o.spec_last_ack()
            &&& n.spec_timer() is None
            &&& n.spec_tx_sent() == 0
            &&& n.spec_local_endpoint() == o.spec_local_endpoint()
            &&& n.spec_remote_endpoint() == o.spec_remote_endpoint()
            &&& n.rx_view() == o.rx_view()
            &&& n.tx_view() == o.tx_view()
            &&& n.spec_remote_win_len() == repr.window_len
            &&& n.spec_remote_mss() == o.spec_remote_mss()
        } else {
            r == Err::<(), Error>(Error::Dropped)
        }
        &&& o.spec_would_accept(ip_repr, repr) && !(repr.control is Rst) && synchronized(
            o.spec_state()
        ) ==> if repr.seq_number == o.spec_remote_seq_no() && o.ack_ok(repr) {
            &&& r is Ok
            &&& n.spec_state() == next_sync_state(
                o.spec_state(),
                o.spec_fin_received(repr),
                o.spec_fin_acked(repr),
            )
            &&& n.rx_view() == o.rx_view() + repr.payload@.subrange(
                0,
                o.spec_accept_len(repr) as int,
            )
            &&& n.tx_view() == o.tx_view().subrange(
                o.spec_data_acked(repr) as int,
                o.tx_view().len() as int,
            )
            &&& n.spec_remote_seq_no() == seq_add(
                o.spec_remote_seq_no(),
                o.spec_accept_len(repr) + if o.spec_fin_received(repr) {
                    1int
                } else {
                    0int
                },
            )
        } else {
            r == Err::<(), Error>(Error::Dropped)
        }
    }

    /// Take a segment that the dispatch index matched to this socket.
    ///
    /// `Rejected` when it does not belong to the socket. A RST closes the
    /// connection. A listener takes a SYN and moves to SYN-RECEIVED; a SYN/ACK
    /// of our SYN establishes an active open, and an ACK of our SYN/ACK a
    /// passive one. In the later states an in-order segment whose ACK covers
    /// only sent data is taken: acknowledged data leaves the transmit buffer,
    /// payload that fits enters the receive buffer, and the state follows
    /// the FINs exchanged. Any other segment is `Dropped` without effect.
    pub fn process_accepted(&mut self, timestamp: u64, ip_repr: &IpRepr, repr: &TcpRepr) -> (r:
        Result<(), Error>)
        requires
            old(self).wf(),
        ensures
            Self::spec_processed(*old(self), *final(self), timestamp, *ip_repr, *repr, r),
    {
        if !self.would_accept(ip_repr, repr) {
            return Err(Error::Rejected);
        }
        if repr.control == TcpControl::Rst {
            self.abort();
            return Ok(());
        }
        match self.state {
            TcpState::Listen => {
                if repr.control == TcpControl::Syn && repr.ack_number.is_none() {
                    self.local_endpoint = IpEndpoint::new(ip_repr.dst_addr(), repr.dst_port);
                    self.remote_endpoint = IpEndpoint::new(ip_repr.src_addr(), repr.src_port);
                    self.remote_seq_no = repr.seq_number.add(1);
                    self.local_seq_no = self.initial_seq_no;
                    self.remote_last_ack = None;
                    self.remote_win_len = repr.window_len;
                    self.remote_mss = match repr.max_seg_size {
                        Some(m) => m,
                        None => DEFAULT_MSS,
                    };
                    self.syn_sent = false;
                    self.fin_sent = false;
                    self.tx_sent = 0;
                    self.timer = None;
                    self.state = TcpState::SynReceived;
                    Ok(())
                } else {
                    Err(Error::Dropped)
                }
            },
            TcpState::SynSent => {
                if repr.control == TcpControl::Syn && repr.ack_number == Some(self.local_seq_no.add(1))
                    && self.syn_sent {
                    self.remote_seq_no = repr.seq_number.add(1);
                    self.local_seq_no = self.local_seq_no.add(1);
                    self.remote_last_ack = None;
                    self.remote_win_len = repr.window_len;
                    self.remote_mss = match repr.max_seg_size {
                        Some(m) => m,
                        None => DEFAULT_MSS,
                    };
                    self.tx_sent = 0;
                    self.timer = None;
                    self.rto = RTO_INITIAL;
                    self.state = TcpState::Established;
                    Ok(())
                } else {
                    Err(Error::Dropped)
                }
            },
            TcpState::SynReceived => {
                if repr.control == TcpControl::Plain && repr.ack_number == Some(
                    self.local_seq_no.add(1),
                ) && self.syn_sent {
                    self.local_seq_no = self.local_seq_no.add(1);
                    self.remote_win_len = repr.window_len;
                    self.tx_sent = 0;
                    self.timer = None;
                    self.rto = RTO_INITIAL;
                    self.state = TcpState::Established;
                    Ok(())
                } else {
                    Err(Error::Dropped)
                }
            },
            _ => self.process_synchronized(repr, timestamp),
        }
    }

    #[verifier::rlimit(50)]
    fn process_synchronized(&mut self, repr: &TcpRepr, timestamp: u64) -> (r: Result<(), Error>)
        requires
            old(self).wf(),
            synchronized(old(self).spec_state()),
        ensures
            final(self).wf(),
            final(self).spec_state() is TimeWait && !(old(self).spec_state() is TimeWait) ==> final(self).spec_timer()
                == Some(deadline(timestamp, TIME_WAIT_TIMEOUT)),
            final(self).same_resources(&*old(self)),
            r is Err ==> *final(self) == *old(self),
            if repr.seq_number == old(self).spec_remote_seq_no() && old(self).ack_ok(*repr) {
                &&& r is Ok
                &&& final(self).spec_state() == next_sync_state(
                    old(self).spec_state(),
                    old(self).spec_fin_received(*repr),
                    old(self).spec_fin_acked(*repr),
                )
                &&& final(self).rx_view() == old(self).rx_view() + repr.payload@.subrange(
                    0,
                    old(self).spec_accept_len(*repr) as int,
                )
                &&& final(self).tx_view() == old(self).tx_view().subrange(
                    old(self).spec_data_acked(*repr) as int,
                    old(self).tx_view().len() as int,
                )
                &&& final(self).spec_remote_seq_no() == seq_add(
                    old(self).spec_remote_seq_no(),
                    old(self).spec_accept_len(*repr) + if old(self).spec_fin_received(*repr) {
                        1int
                    } else {
                        0int
                    },
                )
            } else {
                r == Err::<(), Error>(Error::Dropped)
            },
    {
        proof {
            self.tx_buffer.lemma_len_bound();
            self.rx_buffer.lemma_len_bound();
        }
        if repr.seq_number != self.remote_seq_no {
            return Err(Error::Dropped);
        }
        let in_flight: u32 = self.tx_sent as u32 + if self.fin_sent {
            1u32
        } else {
            0u32
        };
        let acked: u32 = match repr.ack_number {
            Some(a) => a.diff(self.local_seq_no),
            None => 0,
        };
        if acked > in_flight {
            return Err(Error::Dropped);
        }
        let data_acked: usize = if (acked as usize) < self.tx_sent {
            acked as usize
        } else {
            self.tx_sent
        };
        let fin_acked = self.fin_sent && repr.ack_number.is_some() && acked == in_flight;
        // Acknowledged data leaves the transmit buffer.
        self.tx_buffer.drop_front(data_acked);
        self.tx_sent = self.tx_sent - data_acked;
        self.local_seq_no = self.local_seq_no.add(data_acked as u32);
        if fin_acked {
            self.local_seq_no = self.local_seq_no.add(1);
            self.fin_sent = false;
        }
        if self.tx_sent == 0 && !self.fin_sent && self.state != TcpState::TimeWait {
            // Nothing is in flight any more: no retransmission is due.
            self.timer = None;
            self.rto = RTO_INITIAL;
        }
        self.remote_win_len = repr.window_len;
        // In-order payload enters the receive buffer as far as it fits.
        let may_recv = self.may_recv();
        let window = self.window() as usize;
        let accept: usize = if !may_recv {
            0
        } else if repr.payload.len() < window {
            repr.payload.len()
        } else {
            window
        };
        self.rx_buffer.extend_from(repr.payload.as_slice(), accept);
        let fin_received = repr.control == TcpControl::Fin && may_recv && accept
            == repr.payload.len();
        self.remote_seq_no = self.remote_seq_no.add(accept as u32);
        if fin_received {
            self.remote_seq_no = self.remote_seq_no.add(1);
        }
        let next = match self.state {
            TcpState::Established => if fin_received {
                TcpState::CloseWait
            } else {
                TcpState::Established
            },
            TcpState::FinWait1 => if fin_received && fin_acked {
                TcpState::TimeWait
            } else if fin_acked {
                TcpState::FinWait2
            } else if fin_received {
                TcpState::Closing
            } else {
                TcpState::FinWait1
            },
            TcpState::FinWait2 => if fin_received {
                TcpState::TimeWait
            } else {
                TcpState::FinWait2
            },
            TcpState::Closing => if fin_acked {
                TcpState::TimeWait
            } else {
                TcpState::Closing
            },
            TcpState::LastAck => if fin_acked {
                TcpState::Closed
            } else {
                TcpState::LastAck
            },
            other => other,
        };
        if next == TcpState::TimeWait && self.state != TcpState::TimeWait {
            self.timer = Some(deadline_of(timestamp, TIME_WAIT_TIMEOUT));
        }
        self.state = next;
        if next == TcpState::Closed {
            self.local_endpoint = IpEndpoint::unbound();
            self.remote_endpoint = IpEndpoint::unbound();
            self.timer = None;
        }
        Ok(())
    }

    /// Queue as much of `data` as the transmit buffer has room for and
    /// return how much that was. `Illegal` when sending is no longer allowed.
    pub fn send_slice(&mut self, data: &[u8]) -> (r: Result<usize, Error>)
        requires
            old(self).wf(),
        ensures
            final(self).wf(),
            final(self).same_resources(&*old(self)),
            final(self).spec_state() == old(self).spec_state(),
            final(self).spec_tx_sent() == old(self).spec_tx_sent(),
            final(self).rx_view() == old(self).rx_view(),
            !spec_may_send(old(self).spec_state()) ==> r == Err::<usize, Error>(Error::Illegal)
                && *final(self) == *old(self),
            spec_may_send(old(self).spec_state()) ==> (r matches Ok(n) && {
                let room = old(self).tx_capacity() - old(self).tx_view().len();
                &&& n == if data@.len() < room {
                    data@.len() as int
                } else {
                    room
                }
                &&& final(self).tx_view() == old(self).tx_view() + data@.subrange(0, n as int)
            }),
    {
        if !self.may_send() {
            return Err(Error::Illegal);
        }
        proof {
            self.tx_buffer.lemma_len_bound();
        }
        let room = self.tx_buffer.capacity() - self.tx_buffer.len();
        let n = if data.len() < room {
            data.len()
        } else {
            room
        };
        self.tx_buffer.extend_from(data, n);
        Ok(n)
    }

    /// Take up to `max` of the oldest received bytes. `Illegal` when nothing
    /// is buffered and the peer may send no more.
    pub fn recv(&mut self, max: usize) -> (r: Result<Vec<u8>, Error>)
        requires
            old(self).wf(),
        ensures
            final(self).wf(),
            final(self).same_resources(&*old(self)),
            final(self).spec_state() == old(self).spec_state(),
            final(self).tx_view() == old(self).tx_view(),
            old(self).rx_view().len() == 0 && !spec_may_recv(old(self).spec_state()) ==> r == Err::<
                Vec<u8>,
                Error,
            >(Error::Illegal) && *final(self) == *old(self),
            !(old(self).rx_view().len() == 0 && !spec_may_recv(old(self).spec_state())) ==> (
            r matches Ok(v) && {
                let n = if max < old(self).rx_view().len() {
                    max as int
                } else {
                    old(self).rx_view().len() as int
                };
                &&& v@ == old(self).rx_view().subrange(0, n)
                &&& final(self).rx_view() == old(self).rx_view().subrange(
                    n,
                    old(self).rx_view().len() as int,
                )
            }),
    {
        if self.rx_buffer.empty() && !self.may_recv() {
            return Err(Error::Illegal);
        }
        let len = self.rx_buffer.len();
        let n = if max < len {
            max
        } else {
            len
        };
        let mut out: Vec<u8> = Vec::new();
        let mut k: usize = 0;
        while k < n
            invariant
                self.wf(),
                k <= n <= self.rx_view().len(),
                out@ == self.rx_view().subrange(0, k as int),
            decreases n - k,
        {
            out.push(*self.rx_buffer.get(k));
            k += 1;
            assert(out@ =~= self.rx_view().subrange(0, k as int));
        }
        self.rx_buffer.drop_front(n);
        Ok(out)
    }
}

} // verus!
