use vstd::prelude::*;

use crate::dispatch::DispatchTable;
use crate::error::Error;
use crate::ring_buffer::RingBuffer;
use crate::dispatch::{exact_key, wildcard_key};
use crate::socket::{socket_key, IndexKey, Socket, SocketHandle};
use crate::wire::{raw_key, raw_key_of, IpAddress, IpProtocol, IpVersion};

verus! {

/// A socket checked out of its container for mutation.
///
/// Hand it back with `Container::release`, which re-files the socket in the
/// dispatch index if its binding changed and queues it for transmission if
/// it became dirty.
#[derive(Debug)]
pub struct SocketTracker {
    handle: SocketHandle,
    socket: Socket,
    on_list: bool,
}

impl SocketTracker {
    pub closed spec fn spec_handle(&self) -> SocketHandle {
        self.handle
    }

    pub closed spec fn spec_socket(&self) -> Socket {
        self.socket
    }

    /// Whether the handle was in the dirty queue when the socket was
    /// checked out.
    pub closed spec fn spec_on_list(&self) -> bool {
        self.on_list
    }

    pub fn handle(&self) -> (r: SocketHandle)
        ensures
            r == self.spec_handle(),
    {
        self.handle
    }

    pub fn socket(&self) -> (r: &Socket)
        ensures
            *r == self.spec_socket(),
    {
        &self.socket
    }

    pub fn socket_mut(&mut self) -> (r: &mut Socket)
        ensures
            *r == old(self).spec_socket(),
            final(self).spec_socket() == *final(r),
            final(self).spec_handle() == old(self).spec_handle(),
            final(self).spec_on_list() == old(self).spec_on_list(),
    {
        &mut self.socket
    }

    /// Return the debug identifier of the socket.
    pub fn debug_id(&self) -> (r: usize)
        ensures
            r == self.spec_socket().spec_debug_id(),
    {
        self.socket.debug_id()
    }
}

/// Distinct handles below `n` are at most `n`.
pub proof fn lemma_distinct_handles_bound(q: Seq<SocketHandle>, n: nat)
    requires
        q.no_duplicates(),
        forall|i: int| 0 <= i < q.len() ==> (#[trigger] q[i]).0 < n,
    ensures
        q.len() <= n,
{
    let m = q.map_values(|x: SocketHandle| x.0 as int);
    assert(m.no_duplicates()) by {
        assert forall|i: int, j: int| 0 <= i < m.len() && 0 <= j < m.len() && i != j implies m[i]
            != m[j] by {
            assert(q[i] != q[j]);
        }
    }
    m.unique_seq_to_set();
    vstd::set_lib::lemma_int_range(0, n as int);
    assert(m.to_set().subset_of(vstd::set_lib::set_int_range(0, n as int))) by {
        assert forall|x: int| m.to_set().contains(x) implies vstd::set_lib::set_int_range(
            0,
            n as int,
        ).contains(x) by {
            let i = choose|i: int| 0 <= i < m.len() && m[i] == x;
            assert(q[i].0 < n);
        }
    }
    vstd::set_lib::lemma_len_subset(m.to_set(), vstd::set_lib::set_int_range(0, n as int));
}

/// The deadline a socket waits for, if any.
pub open spec fn socket_deadline(s: Option<Socket>) -> Option<u64> {
    match s {
        Some(Socket::Tcp(t)) => t.spec_timer(),
        _ => None,
    }
}

/// The earlier of two optional deadlines.
pub open spec fn earlier(a: Option<u64>, b: Option<u64>) -> Option<u64> {
    match (a, b) {
        (Some(x), Some(y)) => if x <= y {
            Some(x)
        } else {
            Some(y)
        },
        (Some(x), None) => Some(x),
        (None, y) => y,
    }
}

/// The earliest deadline among the first `n` slots.
pub open spec fn earliest_deadline(slots: Seq<Option<Socket>>, n: int) -> Option<u64>
    decreases n,
{
    if n <= 0 {
        None
    } else {
        earlier(earliest_deadline(slots, n - 1), socket_deadline(slots[n - 1]))
    }
}

/// A set of sockets owned by stable handles, with a dispatch index over
/// their bindings and a queue of the sockets that have transmit work.
#[derive(Debug)]
pub struct Container {
    sockets: Vec<Option<Socket>>,
    dispatch_table: DispatchTable,
    dirty_sockets: RingBuffer<SocketHandle>,
}

impl Container {
    /// The socket slots, by handle.
    pub closed spec fn slots(&self) -> Seq<Option<Socket>> {
        self.sockets@
    }

    /// The dispatch index.
    pub closed spec fn index(&self) -> DispatchTable {
        self.dispatch_table
    }

    /// The handles queued for transmission, oldest first.
    pub closed spec fn dirty_queue(&self) -> Seq<SocketHandle> {
        self.dirty_sockets@
    }

    pub closed spec fn dirty_capacity(&self) -> nat {
        self.dirty_sockets.spec_capacity()
    }

    pub open spec fn live(&self, h: usize) -> bool {
        h < self.slots().len() && self.slots()[h as int] is Some
    }

    pub open spec fn socket_at(&self, h: usize) -> Socket {
        self.slots()[h as int]->Some_0
    }

    /// The container's invariant, with the slot `gap` (if any) checked out:
    /// the index files exactly the live sockets under their keys, and the
    /// dirty queue lists each socket flagged as queued exactly once.
    pub closed spec fn inv(&self, gap: Option<usize>) -> bool {
        &&& self.dirty_sockets.wf()
        &&& self.dispatch_table.consistent()
        &&& self.sockets@.len() <= self.dirty_sockets.spec_capacity()
        &&& (gap matches Some(g) ==> g < self.sockets@.len() && self.sockets@[g as int] is None)
        &&& forall|h: usize| #[trigger]
            self.live(h) ==> self.socket_at(h).wf() && self.dispatch_table.rev_entry(h)
                == socket_key(self.socket_at(h))
        &&& forall|h: usize|
            !self.live(h) && gap != Some(h) ==> #[trigger] self.dispatch_table.rev_entry(h) is None
        &&& self.dirty_sockets@.no_duplicates()
        &&& forall|i: int|
            0 <= i < self.dirty_sockets@.len() ==> (#[trigger] self.dirty_sockets@[i]).0
                < self.sockets@.len() && (gap != Some(self.dirty_sockets@[i].0) ==> self.live(
                self.dirty_sockets@[i].0,
            ) && self.socket_at(self.dirty_sockets@[i].0).spec_on_dirty_list())
        &&& forall|h: usize| #[trigger]
            self.live(h) && self.socket_at(h).spec_on_dirty_list() ==> self.dirty_sockets@.contains(
                SocketHandle(h),
            )
    }

    pub open spec fn wf(&self) -> bool {
        self.inv(None)
    }

    /// The container is checked out at the tracker's handle, and the
    /// tracker remembers whether that handle is queued.
    pub open spec fn checked_out(&self, t: &SocketTracker) -> bool {
        &&& self.inv(Some(t.spec_handle().0))
        &&& t.spec_on_list() == self.dirty_queue().contains(t.spec_handle())
    }

    /// An empty container whose dirty queue starts over `dirty_storage`.
    pub fn new(dirty_storage: Vec<SocketHandle>) -> (r: Container)
        ensures
            r.wf(),
            r.slots().len() == 0,
            r.dirty_queue().len() == 0,
    {
        Container {
            sockets: Vec::new(),
            dispatch_table: DispatchTable::new(),
            dirty_sockets: RingBuffer::new(dirty_storage),
        }
    }

    /// Check out the socket at `handle` for mutation; `None` when the handle
    /// holds no socket.
    pub fn get_mut(&mut self, handle: SocketHandle) -> (r: Option<SocketTracker>)
        requires
            old(self).wf(),
        ensures
            !old(self).live(handle.0) ==> r is None && *final(self) == *old(self),
            old(self).live(handle.0) ==> (r matches Some(t) && {
                &&& t.spec_handle() == handle
                &&& t.spec_socket() == old(self).socket_at(handle.0)
                &&& t.spec_socket().wf()
                &&& final(self).checked_out(&t)
                &&& final(self).slots() == old(self).slots().update(handle.0 as int, None)
                &&& final(self).index() == old(self).index()
                &&& final(self).dirty_queue() == old(self).dirty_queue()
            }),
    {
        if handle.0 >= self.sockets.len() || self.sockets[handle.0].is_none() {
            return None;
        }
        let ghost old_self = *self;
        let taken = self.sockets[handle.0].take();
        let socket = taken.unwrap();
        let on_list = socket.is_on_dirty_list();
        let t = SocketTracker { handle, socket, on_list };
        proof {
            assert(self.sockets@ == old_self.sockets@.update(handle.0 as int, None));
            assert forall|h: usize| #[trigger] self.live(h) implies self.socket_at(h).wf()
                && self.dispatch_table.rev_entry(h) == socket_key(self.socket_at(h)) by {
                assert(old_self.live(h));
            }
            assert forall|h: usize|
                !self.live(h) && Some(handle.0) != Some(h) implies #[trigger] self.dispatch_table.rev_entry(
                h,
            ) is None by {
                assert(!old_self.live(h));
            }
            assert forall|i: int| 0 <= i < self.dirty_sockets@.len() implies (
            #[trigger] self.dirty_sockets@[i]).0 < self.sockets@.len() && (Some(handle.0) != Some(
                self.dirty_sockets@[i].0,
            ) ==> self.live(self.dirty_sockets@[i].0) && self.socket_at(
                self.dirty_sockets@[i].0,
            ).spec_on_dirty_list()) by {
                assert(old_self.live(self.dirty_sockets@[i].0));
            }
            assert forall|h: usize| #[trigger]
                self.live(h) && self.socket_at(h).spec_on_dirty_list() implies self.dirty_sockets@.contains(
                SocketHandle(h),
            ) by {
                assert(old_self.live(h));
            }
            if self.dirty_sockets@.contains(handle) {
                let i = choose|i: int| 0 <= i < self.dirty_sockets@.len() && self.dirty_sockets@[i]
                    == handle;
                assert(old_self.live(self.dirty_sockets@[i].0));
            }
            if on_list {
                assert(old_self.live(handle.0) && old_self.socket_at(handle.0).spec_on_dirty_list());
            }
        }
        Some(t)
    }

    /// Put a checked-out socket back. Its dispatch entry follows its current
    /// binding, and a socket that became dirty joins the back of the dirty
    /// queue. When the new binding clashes with another socket's, the socket
    /// leaves the container and comes back as the error; its handle is
    /// then free.
    pub fn release(&mut self, t: SocketTracker) -> (r: Result<(), Socket>)
        requires
            old(self).checked_out(&t),
            t.spec_socket().wf(),
        ensures
            final(self).wf(),
            final(self).slots().len() == old(self).slots().len(),
            forall|h: usize|
                h < old(self).slots().len() && h != t.spec_handle().0 ==> #[trigger] final(self).slots()[h as int] == old(self).slots()[h as int],
            old(self).index().rev_entry(t.spec_handle().0) == socket_key(t.spec_socket()) ==> r is Ok
                && final(self).index() == old(self).index(),
            r is Ok ==> {
                &&& final(self).live(t.spec_handle().0)
                &&& final(self).socket_at(t.spec_handle().0).same_but_flag(&t.spec_socket())
                &&& final(self).socket_at(t.spec_handle().0).spec_on_dirty_list() == (t.spec_on_list()
                    || t.spec_socket().spec_is_dirty())
                &&& final(self).dirty_queue() == if !t.spec_on_list() && t.spec_socket().spec_is_dirty() {
                    old(self).dirty_queue().push(t.spec_handle())
                } else {
                    old(self).dirty_queue()
                }
            },
            r matches Err(s) ==> {
                &&& old(self).index().rev_entry(t.spec_handle().0) != socket_key(t.spec_socket())
                &&& !final(self).live(t.spec_handle().0)
                &&& s.same_but_flag(&t.spec_socket())
                &&& socket_key(t.spec_socket()) matches Some(k) && old(self).index().taken(k)
            },
    {
        let h = t.handle;
        let on_list = t.on_list;
        let mut socket = t.socket;
        let ghost old_self = *self;
        socket.set_on_dirty_list(on_list);
        let new_key = socket.index_key();
        let old_key = self.dispatch_table.key_of(h);
        if new_key != old_key {
            if old_key.is_some() {
                let _ = self.dispatch_table.remove(h);
            }
            let ghost removed = self.dispatch_table;
            match new_key {
                Some(k) => {
                    let added = self.dispatch_table.add(k, h);
                    if added.is_err() {
                        proof {
                            assert(removed.rev_entry(h.0) is None);
                            removed.lemma_taken_iff_filed(k);
                            let g = choose|g: usize| removed.rev_entry(g) == Some(k);
                            assert(g != h.0);
                            assert(old_self.dispatch_table.rev_entry(g) == Some(k));
                            old_self.dispatch_table.lemma_taken_iff_filed(k);
                        }
                        proof {
                            assert forall|x: usize| #[trigger]
                                self.dispatch_table.rev_entry(x) == if x == h.0 {
                                    None
                                } else {
                                    old_self.dispatch_table.rev_entry(x)
                                } by {}
                            assert forall|x: usize| #[trigger] self.live(x) implies self.socket_at(
                                x,
                            ).wf() && self.dispatch_table.rev_entry(x) == socket_key(
                                self.socket_at(x),
                            ) by {
                                assert(old_self.live(x));
                            }
                            assert forall|x: usize| !self.live(x) && Some(h.0) != Some(x) implies
                                #[trigger] self.dispatch_table.rev_entry(x) is None by {
                                assert(!old_self.live(x));
                            }
                            assert forall|x: usize| #[trigger]
                                self.live(x) && self.socket_at(x).spec_on_dirty_list() implies self.dirty_sockets@.contains(
                                SocketHandle(x),
                            ) by {
                                assert(old_self.live(x));
                            }
                            assert forall|i: int| 0 <= i < self.dirty_sockets@.len() implies (
                            #[trigger] self.dirty_sockets@[i]).0 < self.sockets@.len() && (Some(
                                h.0,
                            ) != Some(self.dirty_sockets@[i].0) ==> self.live(
                                self.dirty_sockets@[i].0,
                            ) && self.socket_at(self.dirty_sockets@[i].0).spec_on_dirty_list()) by {
                                assert(old_self.dirty_sockets@[i] == self.dirty_sockets@[i]);
                            }
                        }
                        self.evict(h, on_list);
                        socket.set_on_dirty_list(false);
                        return Err(socket);
                    }
                },
                None => {},
            }
        }
        proof {
            assert forall|x: usize| #[trigger]
                self.dispatch_table.rev_entry(x) == if x == h.0 {
                    socket_key(socket)
                } else {
                    old_self.dispatch_table.rev_entry(x)
                } by {}
        }
        if !on_list && socket.is_dirty() {
            proof {
                assert forall|i: int| 0 <= i < self.dirty_sockets@.push(h).len() implies (
                #[trigger] self.dirty_sockets@.push(h)[i]).0 < self.sockets@.len() by {
                    if i < self.dirty_sockets@.len() {
                        assert(self.dirty_sockets@[i].0 < self.sockets@.len());
                    }
                }
                assert(self.dirty_sockets@.push(h).no_duplicates()) by {
                    assert forall|i: int, j: int|
                        0 <= i < self.dirty_sockets@.push(h).len() && 0 <= j
                            < self.dirty_sockets@.push(h).len() && i != j implies self.dirty_sockets@.push(
                        h,
                    )[i] != self.dirty_sockets@.push(h)[j] by {
                        if i == self.dirty_sockets@.len() {
                            assert(self.dirty_sockets@.push(h)[j] == self.dirty_sockets@[j]);
                        } else if j == self.dirty_sockets@.len() {
                            assert(self.dirty_sockets@.push(h)[i] == self.dirty_sockets@[i]);
                        }
                    }
                }
                lemma_distinct_handles_bound(self.dirty_sockets@.push(h), self.sockets@.len());
            }
            let _ = self.dirty_sockets.push(h);
            socket.set_on_dirty_list(true);
        }
        self.sockets.set(h.0, Some(socket));
        proof {
            let q0 = old_self.dirty_sockets@;
            let q = self.dirty_sockets@;
            assert(q == q0 || q == q0.push(h));
            assert(self.live(h.0));
            assert(self.socket_at(h.0) == socket);
            assert forall|x: usize| #[trigger] self.live(x) implies self.socket_at(x).wf()
                && self.dispatch_table.rev_entry(x) == socket_key(self.socket_at(x)) by {
                if x != h.0 {
                    assert(old_self.live(x));
                }
            }
            assert forall|x: usize| !self.live(x) && None::<usize> != Some(x) implies #[trigger]
                self.dispatch_table.rev_entry(x) is None by {
                assert(!old_self.live(x));
            }
            assert forall|i: int| 0 <= i < q.len() implies (#[trigger] q[i]).0 < self.sockets@.len()
                && (None::<usize> != Some(q[i].0) ==> self.live(q[i].0) && self.socket_at(
                q[i].0,
            ).spec_on_dirty_list()) by {
                if i < q0.len() {
                    assert(q[i] == q0[i]);
                    if q0[i] == h {
                        assert(q0.contains(h));
                    }
                }
            }
            assert forall|x: usize| #[trigger]
                self.live(x) && self.socket_at(x).spec_on_dirty_list() implies q.contains(
                SocketHandle(x),
            ) by {
                if x == h.0 {
                    if q == q0.push(h) {
                        assert(q[q0.len() as int] == h);
                    }
                } else {
                    assert(old_self.live(x));
                    let i = choose|i: int| 0 <= i < q0.len() && q0[i] == SocketHandle(x);
                    assert(q[i] == SocketHandle(x));
                }
            }
        }
        Ok(())
    }

    /// Take the checked-out slot `h` out of the dirty queue for good.
    fn evict(&mut self, h: SocketHandle, on_list: bool)
        requires
            old(self).inv(Some(h.0)),
            old(self).dispatch_table.rev_entry(h.0) is None,
            on_list == old(self).dirty_queue().contains(h),
        ensures
            final(self).wf(),
            final(self).sockets@ == old(self).sockets@,
            final(self).dispatch_table == old(self).dispatch_table,
            final(self).dirty_queue() == if on_list {
                old(self).dirty_queue().remove(crate::ring_buffer::first_index_of(old(self).dirty_queue(), h))
            } else {
                old(self).dirty_queue()
            },
    {
        let ghost old_self = *self;
        if on_list {
            proof {
                crate::socket::lemma_handle_eq_is_equality();
            }
            let _ = self.dirty_sockets.remove(&h);
            proof {
                let q0 = old_self.dirty_sockets@;
                let pos = crate::ring_buffer::first_index_of(q0, h);
                let q = self.dirty_sockets@;
                assert(q0.contains(h));
                assert(0 <= pos < q0.len() && q0[pos] == h);
                assert(q == q0.remove(pos));
                assert forall|i: int| 0 <= i < q.len() implies #[trigger] q[i] == q0[if i < pos {
                    i
                } else {
                    i + 1
                }] by {}
                assert(q.no_duplicates()) by {
                    assert forall|i: int, j: int| 0 <= i < q.len() && 0 <= j < q.len() && i != j implies q[i]
                        != q[j] by {
                        let i2 = if i < pos { i } else { i + 1 };
                        let j2 = if j < pos { j } else { j + 1 };
                        assert(q[i] == q0[i2]);
                        assert(q[j] == q0[j2]);
                    }
                }
                assert forall|i: int| 0 <= i < q.len() implies #[trigger] q[i] != h by {
                    let i2 = if i < pos { i } else { i + 1 };
                    assert(q[i] == q0[i2]);
                    assert(q0[pos] == h);
                }
                assert forall|x: usize| #[trigger]
                    self.live(x) && self.socket_at(x).spec_on_dirty_list() implies q.contains(
                    SocketHandle(x),
                ) by {
                    assert(old_self.live(x));
                    let i = choose|i: int| 0 <= i < q0.len() && q0[i] == SocketHandle(x);
                    assert(i != pos);
                    let j = if i < pos { i } else { i - 1 };
                    assert(q[j] == SocketHandle(x));
                }
                assert forall|i: int| 0 <= i < q.len() implies (#[trigger] q[i]).0
                    < self.sockets@.len() && (None::<usize> != Some(q[i].0) ==> self.live(q[i].0)
                    && self.socket_at(q[i].0).spec_on_dirty_list()) by {
                    let i2 = if i < pos { i } else { i + 1 };
                    assert(q[i] == q0[i2]);
                }
            }
        }
        proof {
            assert forall|x: usize| !self.live(x) && None::<usize> != Some(x) implies #[trigger]
                self.dispatch_table.rev_entry(x) is None by {}
            assert forall|x: usize| #[trigger] self.live(x) implies self.socket_at(x).wf()
                && self.dispatch_table.rev_entry(x) == socket_key(self.socket_at(x)) by {
                assert(old_self.live(x));
            }
            if !on_list {
                assert forall|x: usize| #[trigger]
                    self.live(x) && self.socket_at(x).spec_on_dirty_list() implies self.dirty_sockets@.contains(
                    SocketHandle(x),
                ) by {
                    assert(old_self.live(x));
                }
                let q = self.dirty_sockets@;
                assert forall|i: int| 0 <= i < q.len() implies (#[trigger] q[i]).0
                    < self.sockets@.len() && (None::<usize> != Some(q[i].0) ==> self.live(q[i].0)
                    && self.socket_at(q[i].0).spec_on_dirty_list()) by {
                    if q[i] == h {
                        assert(q.contains(h));
                    }
                }
            }
        }
    }

    /// With the slot `h` checked out, taking `h` out of the index keeps the
    /// invariant.
    proof fn lemma_unfiled_gap(c: Container, d: Container, h: usize)
        requires
            c.inv(Some(h)),
            d.sockets@ == c.sockets@,
            d.dirty_sockets == c.dirty_sockets,
            d.dispatch_table.consistent(),
            forall|x: usize| #[trigger]
                d.dispatch_table.rev_entry(x) == if x == h {
                    None
                } else {
                    c.dispatch_table.rev_entry(x)
                },
        ensures
            d.inv(Some(h)),
    {
        assert forall|x: usize| #[trigger] d.live(x) implies d.socket_at(x).wf()
            && d.dispatch_table.rev_entry(x) == socket_key(d.socket_at(x)) by {
            assert(c.live(x));
        }
        assert forall|x: usize| !d.live(x) && Some(h) != Some(x) implies #[trigger]
            d.dispatch_table.rev_entry(x) is None by {
            assert(!c.live(x));
        }
        assert forall|x: usize| #[trigger]
            d.live(x) && d.socket_at(x).spec_on_dirty_list() implies d.dirty_sockets@.contains(
            SocketHandle(x),
        ) by {
            assert(c.live(x));
        }
        assert forall|i: int| 0 <= i < d.dirty_sockets@.len() implies (
        #[trigger] d.dirty_sockets@[i]).0 < d.sockets@.len() && (Some(h) != Some(
            d.dirty_sockets@[i].0,
        ) ==> d.live(d.dirty_sockets@[i].0) && d.socket_at(
            d.dirty_sockets@[i].0,
        ).spec_on_dirty_list()) by {
            assert(c.dirty_sockets@[i] == d.dirty_sockets@[i]);
        }
    }

    /// Remove the socket at `handle` from the container: its dispatch entry
    /// and its place in the dirty queue go, and it comes back unflagged.
    pub fn remove(&mut self, handle: SocketHandle) -> (r: Socket)
        requires
            old(self).wf(),
            old(self).live(handle.0),
        ensures
            final(self).wf(),
            !final(self).live(handle.0),
            r.same_but_flag(&old(self).socket_at(handle.0)),
            !r.spec_on_dirty_list(),
            final(self).slots().len() == old(self).slots().len(),
            forall|h: usize|
                h < old(self).slots().len() && h != handle.0 ==> #[trigger] final(self).slots()[h as int]
                    == old(self).slots()[h as int],
            !final(self).dirty_queue().contains(handle),
            final(self).dirty_queue() == if old(self).dirty_queue().contains(handle) {
                old(self).dirty_queue().remove(crate::ring_buffer::first_index_of(old(self).dirty_queue(), handle))
            } else {
                old(self).dirty_queue()
            },
    {
        let t = self.get_mut(handle).unwrap();
        let on_list = t.on_list;
        let mut socket = t.socket;
        let ghost c = *self;
        if self.dispatch_table.key_of(handle).is_some() {
            let _ = self.dispatch_table.remove(handle);
        }
        proof {
            assert forall|x: usize| #[trigger]
                self.dispatch_table.rev_entry(x) == if x == handle.0 {
                    None
                } else {
                    c.dispatch_table.rev_entry(x)
                } by {}
            Self::lemma_unfiled_gap(c, *self, handle.0);
        }
        self.evict(handle, on_list);
        proof {
            if on_list {
                assert(!self.dirty_sockets@.contains(handle)) by {
                    if self.dirty_sockets@.contains(handle) {
                        let i = choose|i: int| 0 <= i < self.dirty_sockets@.len()
                            && self.dirty_sockets@[i] == handle;
                        assert(self.live(handle.0));
                    }
                }
            }
        }
        socket.set_on_dirty_list(false);
        socket
    }

    /// Add a socket and return its handle: the first free slot, or a new
    /// one. The socket is filed in the dispatch index under its binding and
    /// queued if it has transmit work. `AlreadyInUse` when another socket
    /// holds its binding; `Exhausted` when no handle is left.
    pub fn add(&mut self, socket: Socket) -> (r: Result<SocketHandle, Error>)
        requires
            old(self).wf(),
            socket.wf(),
        ensures
            final(self).wf(),
            r is Err ==> final(self).slots() == old(self).slots() && final(self).dirty_queue() == old(self).dirty_queue()
                && final(self).index() == old(self).index(),
            old(self).slots().len() < usize::MAX && (socket_key(socket) matches Some(k) && old(self).index().taken(k)) ==> r == Err::<
                SocketHandle,
                Error,
            >(Error::AlreadyInUse),
            old(self).slots().len() < usize::MAX && !(socket_key(socket) matches Some(k) && old(self).index().taken(k)) ==> r is Ok,
            r matches Ok(h) ==> {
                &&& h.0 <= old(self).slots().len()
                &&& final(self).slots().len() == if h.0 == old(self).slots().len() {
                    old(self).slots().len() + 1
                } else {
                    old(self).slots().len()
                }
                &&& !old(self).live(h.0)
                &&& final(self).live(h.0)
                &&& final(self).socket_at(h.0).same_but_flag(&socket)
                &&& forall|x: usize|
                    x < old(self).slots().len() && x != h.0 ==> #[trigger] final(self).slots()[x as int]
                        == old(self).slots()[x as int]
                &&& final(self).dirty_queue() == if socket.spec_is_dirty() {
                    old(self).dirty_queue().push(h)
                } else {
                    old(self).dirty_queue()
                }
            },
    {
        let n = self.sockets.len();
        let mut i: usize = 0;
        while i < n && self.sockets[i].is_some()
            invariant
                n == self.sockets@.len(),
                i <= n,
                forall|j: int| 0 <= j < i ==> self.sockets@[j] is Some,
            decreases n - i,
        {
            i += 1;
        }
        if i == n && n == usize::MAX {
            return Err(Error::Exhausted);
        }
        let h = SocketHandle(i);
        let ghost old_self = *self;
        proof {
            assert(!self.live(i));
            assert(self.dispatch_table.rev_entry(i) is None);
        }
        let mut socket = socket;
        socket.set_on_dirty_list(false);
        match socket.index_key() {
            Some(k) => {
                let added = self.dispatch_table.add(k, h);
                if added.is_err() {
                    return Err(Error::AlreadyInUse);
                }
            },
            None => {},
        }
        let ghost filed = *self;
        if i == n {
            self.sockets.push(None);
            if self.dirty_sockets.capacity() < self.sockets.len() {
                self.dirty_sockets.expand_storage();
            }
        }
        proof {
            assert forall|x: usize| #[trigger]
                self.dispatch_table.rev_entry(x) == if x == i {
                    socket_key(socket)
                } else {
                    old_self.dispatch_table.rev_entry(x)
                } by {}
            assert forall|x: usize| x != i implies #[trigger] self.live(x) == old_self.live(x) && (
            self.live(x) ==> self.socket_at(x) == old_self.socket_at(x)) by {
                if x < n {
                    assert(self.sockets@[x as int] == old_self.sockets@[x as int]);
                }
            }
        }
        let is_dirty = socket.is_dirty();
        if is_dirty {
            proof {
                let q = self.dirty_sockets@;
                assert forall|j: int| 0 <= j < q.push(h).len() implies (#[trigger] q.push(h)[j]).0
                    < self.sockets@.len() by {
                    if j < q.len() {
                        assert(old_self.dirty_sockets@[j].0 < n);
                    }
                }
                assert(!q.contains(h)) by {
                    if q.contains(h) {
                        let j = choose|j: int| 0 <= j < q.len() && q[j] == h;
                        assert(old_self.live(q[j].0));
                    }
                }
                assert(q.push(h).no_duplicates()) by {
                    assert forall|a: int, b: int|
                        0 <= a < q.push(h).len() && 0 <= b < q.push(h).len() && a != b implies q.push(
                        h,
                    )[a] != q.push(h)[b] by {
                        if a == q.len() {
                            assert(q.push(h)[b] == q[b]);
                        } else if b == q.len() {
                            assert(q.push(h)[a] == q[a]);
                        }
                    }
                }
                lemma_distinct_handles_bound(q.push(h), self.sockets@.len());
            }
            let _ = self.dirty_sockets.push(h);
            socket.set_on_dirty_list(true);
        }
        self.sockets.set(i, Some(socket));
        proof {
            let q0 = old_self.dirty_sockets@;
            let q = self.dirty_sockets@;
            assert(self.live(i));
            assert forall|x: usize| #[trigger] self.live(x) implies self.socket_at(x).wf()
                && self.dispatch_table.rev_entry(x) == socket_key(self.socket_at(x)) by {
                if x != i {
                    assert(old_self.live(x));
                }
            }
            assert forall|x: usize| !self.live(x) && None::<usize> != Some(x) implies #[trigger]
                self.dispatch_table.rev_entry(x) is None by {
                if x != i {
                    assert(!old_self.live(x));
                }
            }
            assert forall|j: int| 0 <= j < q.len() implies (#[trigger] q[j]).0 < self.sockets@.len()
                && (None::<usize> != Some(q[j].0) ==> self.live(q[j].0) && self.socket_at(
                q[j].0,
            ).spec_on_dirty_list()) by {
                if j < q0.len() {
                    assert(q[j] == q0[j]);
                    assert(old_self.live(q0[j].0));
                    assert(q0[j].0 != i);
                }
            }
            assert forall|x: usize| #[trigger]
                self.live(x) && self.socket_at(x).spec_on_dirty_list() implies q.contains(
                SocketHandle(x),
            ) by {
                if x == i {
                    assert(q[q0.len() as int] == h);
                } else {
                    assert(old_self.live(x));
                    let j = choose|j: int| 0 <= j < q0.len() && q0[j] == SocketHandle(x);
                    assert(q[j] == SocketHandle(x));
                }
            }
            assert forall|x: usize|
                x < old_self.slots().len() && x != i implies #[trigger] self.slots()[x as int]
                == old_self.slots()[x as int] by {}
        }
        Ok(h)
    }

    /// Whether some socket of the container is filed under `key`.
    pub open spec fn filed(&self, key: IndexKey) -> bool {
        exists|h: usize| self.live(h) && socket_key(self.socket_at(h)) == Some(key)
    }

    /// The key of the UDP socket that a datagram to (`addr`, `port`) goes
    /// to: an exact binding wins over a wildcard one.
    pub open spec fn udp_choice(&self, addr: IpAddress, port: u16) -> Option<IndexKey> {
        if self.filed(IndexKey::Udp(exact_key(addr, port))) {
            Some(IndexKey::Udp(exact_key(addr, port)))
        } else if self.filed(IndexKey::Udp(wildcard_key(port))) {
            Some(IndexKey::Udp(wildcard_key(port)))
        } else {
            None
        }
    }

    /// The key of the TCP socket that a segment from (`src`, `src_port`) to
    /// (`dst`, `dst_port`) goes to. The local endpoint is selected first: the
    /// exact one when some TCP socket uses it, else the wildcard one; there a
    /// connection to the source wins over a listener.
    pub open spec fn tcp_choice(&self, dst: IpAddress, dst_port: u16, src: IpAddress, src_port: u16) -> Option<
        IndexKey,
    > {
        let local = if self.local_used(exact_key(dst, dst_port)) {
            exact_key(dst, dst_port)
        } else {
            wildcard_key(dst_port)
        };
        let remote = exact_key(src, src_port);
        if self.filed(IndexKey::TcpEstablished(local, remote)) {
            Some(IndexKey::TcpEstablished(local, remote))
        } else if self.filed(IndexKey::TcpListen(local)) {
            Some(IndexKey::TcpListen(local))
        } else {
            None
        }
    }

    /// Whether some TCP socket, listening or connected, uses local endpoint
    /// `local`.
    pub open spec fn local_used(&self, local: u64) -> bool {
        self.filed(IndexKey::TcpListen(local)) || exists|r: u64| #[trigger]
            self.filed(IndexKey::TcpEstablished(local, r))
    }

    proof fn lemma_local_used(&self, local: u64)
        requires
            self.wf(),
        ensures
            self.local_used(local) <==> self.dispatch_table.local_in_use(local),
    {
        let t = self.dispatch_table;
        self.lemma_filed(IndexKey::TcpListen(local));
        if t.remotes(local).len() > 0 {
            let r0 = t.remotes(local)[0];
            assert(t.remotes(local).contains(r0));
            self.lemma_filed(IndexKey::TcpEstablished(local, r0));
        }
        if exists|r: u64| #[trigger] self.filed(IndexKey::TcpEstablished(local, r)) {
            let r = choose|r: u64| #[trigger] self.filed(IndexKey::TcpEstablished(local, r));
            self.lemma_filed(IndexKey::TcpEstablished(local, r));
            assert(t.remotes(local).contains(r));
        }
    }

    /// A handle filed in the index holds a live socket with that key, and a
    /// key that some live socket has is filed.
    proof fn lemma_filed(&self, key: IndexKey)
        requires
            self.wf(),
        ensures
            forall|g: usize| #[trigger]
                self.dispatch_table.holds(key, g) ==> self.live(g) && socket_key(self.socket_at(g))
                    == Some(key),
            self.filed(key) <==> match key {
                IndexKey::Raw(k) => self.dispatch_table.raw_entry(k) is Some,
                IndexKey::Udp(k) => self.dispatch_table.udp_entry(k) is Some,
                IndexKey::TcpEstablished(l, r) => self.dispatch_table.established_entry(l, r) is Some,
                IndexKey::TcpListen(l) => self.dispatch_table.listeners(l).len() > 0,
            },
    {
        let t = self.dispatch_table;
        assert forall|g: usize| #[trigger] t.holds(key, g) implies self.live(g) && socket_key(
            self.socket_at(g),
        ) == Some(key) by {
            match key {
                IndexKey::Raw(k) => {
                    assert(t.rev_entry(t.raw_entry(k)->Some_0.0) == Some(key));
                },
                IndexKey::Udp(k) => {
                    assert(t.rev_entry(t.udp_entry(k)->Some_0.0) == Some(key));
                },
                IndexKey::TcpEstablished(l, r) => {
                    assert(t.rev_entry(t.established_entry(l, r)->Some_0.0) == Some(key));
                },
                IndexKey::TcpListen(l) => {
                    let i = choose|i: int| 0 <= i < t.listeners(l).len() && t.listeners(l)[i]
                        == SocketHandle(g);
                    assert(t.rev_entry(t.listeners(l)[i].0) == Some(key));
                },
            }
            if !self.live(g) {
                assert(t.rev_entry(g) is None);
            }
        }
        if self.filed(key) {
            let g = choose|g: usize| self.live(g) && socket_key(self.socket_at(g)) == Some(key);
            assert(t.rev_entry(g) == Some(key));
            assert(t.holds(key, g));
        }
        match key {
            IndexKey::Raw(k) => {
                if t.raw_entry(k) is Some {
                    assert(t.holds(key, t.raw_entry(k)->Some_0.0));
                }
            },
            IndexKey::Udp(k) => {
                if t.udp_entry(k) is Some {
                    assert(t.holds(key, t.udp_entry(k)->Some_0.0));
                }
            },
            IndexKey::TcpEstablished(l, r) => {
                if t.established_entry(l, r) is Some {
                    assert(t.holds(key, t.established_entry(l, r)->Some_0.0));
                }
            },
            IndexKey::TcpListen(l) => {
                if t.listeners(l).len() > 0 {
                    assert(t.holds(key, t.listeners(l)[0].0));
                }
            },
        }
    }

    /// The raw socket for packets of this version and protocol, checked out.
    pub fn get_raw_socket(&mut self, ip_version: IpVersion, ip_protocol: IpProtocol) -> (r: Option<
        SocketTracker,
    >)
        requires
            old(self).wf(),
        ensures
            r is None <==> !old(self).filed(IndexKey::Raw(raw_key(ip_version, ip_protocol) as u64)),
            r is None ==> *final(self) == *old(self),
            r matches Some(t) ==> old(self).lookup_result(*final(self), t, IndexKey::Raw(
                raw_key(ip_version, ip_protocol) as u64,
            )),
    {
        let k = raw_key_of(ip_version, ip_protocol);
        proof {
            self.lemma_filed(IndexKey::Raw(k));
        }
        match self.dispatch_table.get_raw_socket(k) {
            Some(h) => {
                proof {
                    assert(self.dispatch_table.holds(IndexKey::Raw(k), h.0));
                }
                self.get_mut(h)
            },
            None => None,
        }
    }

    /// What a lookup that found the socket filed under `key` leaves: the
    /// socket is checked out of `after`, which is `self` with its slot empty.
    pub open spec fn lookup_result(&self, after: Container, t: SocketTracker, key: IndexKey) -> bool {
        &&& self.live(t.spec_handle().0)
        &&& t.spec_socket() == self.socket_at(t.spec_handle().0)
        &&& t.spec_socket().wf()
        &&& socket_key(t.spec_socket()) == Some(key)
        &&& after.index().rev_entry(t.spec_handle().0) == Some(key)
        &&& after.checked_out(&t)
        &&& after.slots() == self.slots().update(t.spec_handle().0 as int, None)
        &&& after.index() == self.index()
        &&& after.dirty_queue() == self.dirty_queue()
    }

    /// The UDP socket for a datagram to (`addr`, `port`), checked out.
    pub fn get_udp_socket(&mut self, addr: IpAddress, port: u16) -> (r: Option<SocketTracker>)
        requires
            old(self).wf(),
        ensures
            r is None <==> old(self).udp_choice(addr, port) is None,
            r is None ==> *final(self) == *old(self),
            r matches Some(t) ==> old(self).lookup_result(
                *final(self),
                t,
                old(self).udp_choice(addr, port)->Some_0,
            ),
    {
        proof {
            self.lemma_filed(IndexKey::Udp(exact_key(addr, port)));
            self.lemma_filed(IndexKey::Udp(wildcard_key(port)));
        }
        match self.dispatch_table.get_udp_socket(addr, port) {
            Some(h) => {
                proof {
                    if self.dispatch_table.udp_entry(exact_key(addr, port)) is Some {
                        assert(self.dispatch_table.holds(IndexKey::Udp(exact_key(addr, port)), h.0));
                    } else {
                        assert(self.dispatch_table.holds(IndexKey::Udp(wildcard_key(port)), h.0));
                    }
                }
                self.get_mut(h)
            },
            None => None,
        }
    }

    /// The TCP socket for a segment from (`src`, `src_port`) to (`dst`,
    /// `dst_port`), checked out.
    pub fn get_tcp_socket(&mut self, dst: IpAddress, dst_port: u16, src: IpAddress, src_port: u16) -> (r:
        Option<SocketTracker>)
        requires
            old(self).wf(),
        ensures
            r is None <==> old(self).tcp_choice(dst, dst_port, src, src_port) is None,
            r is None ==> *final(self) == *old(self),
            r matches Some(t) ==> old(self).lookup_result(
                *final(self),
                t,
                old(self).tcp_choice(dst, dst_port, src, src_port)->Some_0,
            ),
    {
        let ghost exact = exact_key(dst, dst_port);
        let ghost remote = exact_key(src, src_port);
        let ghost local = self.dispatch_table.tcp_local(dst, dst_port);
        proof {
            self.lemma_local_used(exact);
            self.lemma_filed(IndexKey::TcpEstablished(local, remote));
            self.lemma_filed(IndexKey::TcpListen(local));
        }
        match self.dispatch_table.get_tcp_socket(dst, dst_port, src, src_port) {
            Some(h) => {
                proof {
                    let t = self.dispatch_table;
                    if t.established_entry(local, remote) is Some {
                        assert(t.holds(IndexKey::TcpEstablished(local, remote), h.0));
                    } else {
                        assert(t.listeners(local)[0] == h);
                        assert(t.holds(IndexKey::TcpListen(local), h.0));
                    }
                }
                self.get_mut(h)
            },
            None => None,
        }
    }

    /// Number of slots of the dirty queue.
    pub fn dirty_queue_capacity(&self) -> (r: usize)
        requires
            self.wf(),
        ensures
            r == self.dirty_capacity(),
    {
        self.dirty_sockets.capacity()
    }

    /// Number of handles in the dirty queue.
    pub fn dirty_queue_len(&self) -> (r: usize)
        requires
            self.wf(),
        ensures
            r == self.dirty_queue().len(),
    {
        self.dirty_sockets.len()
    }

    /// Take the oldest handle off the dirty queue and check its socket out,
    /// no longer flagged as queued.
    pub fn next_dirty(&mut self) -> (r: Option<SocketTracker>)
        requires
            old(self).wf(),
        ensures
            old(self).dirty_queue().len() == 0 ==> r is None && *final(self) == *old(self),
            old(self).dirty_queue().len() > 0 ==> (r matches Some(t) && {
                let h = old(self).dirty_queue()[0];
                &&& t.spec_handle() == h
                &&& old(self).live(h.0)
                &&& t.spec_socket().same_but_flag(&old(self).socket_at(h.0))
                &&& t.spec_socket().wf()
                &&& !t.spec_socket().spec_on_dirty_list()
                &&& !t.spec_on_list()
                &&& final(self).checked_out(&t)
                &&& final(self).slots() == old(self).slots().update(h.0 as int, None)
                &&& final(self).index() == old(self).index()
                &&& final(self).index().rev_entry(h.0) == socket_key(t.spec_socket())
                &&& final(self).dirty_queue() == old(self).dirty_queue().drop_first()
            }),
    {
        if self.dirty_sockets.empty() {
            return None;
        }
        let ghost old_self = *self;
        let h = match self.dirty_sockets.dequeue() {
            Ok(slot) => *slot,
            Err(()) => return None,
        };
        proof {
            let q0 = old_self.dirty_sockets@;
            assert(q0[0] == h);
            assert(old_self.live(h.0));
            let q = self.dirty_sockets@;
            assert(!q.contains(h)) by {
                if q.contains(h) {
                    let i = choose|i: int| 0 <= i < q.len() && q[i] == h;
                    assert(q0[i + 1] == h);
                }
            }
        }
        let taken = self.sockets[h.0].take();
        let mut socket = taken.unwrap();
        socket.set_on_dirty_list(false);
        let t = SocketTracker { handle: h, socket, on_list: false };
        proof {
            let q0 = old_self.dirty_sockets@;
            let q = self.dirty_sockets@;
            assert(q == q0.drop_first());
            assert forall|x: usize| #[trigger] self.live(x) implies self.socket_at(x).wf()
                && self.dispatch_table.rev_entry(x) == socket_key(self.socket_at(x)) by {
                assert(old_self.live(x));
            }
            assert forall|x: usize| !self.live(x) && Some(h.0) != Some(x) implies #[trigger]
                self.dispatch_table.rev_entry(x) is None by {
                assert(!old_self.live(x));
            }
            assert forall|i: int| 0 <= i < q.len() implies (#[trigger] q[i]).0 < self.sockets@.len()
                && (Some(h.0) != Some(q[i].0) ==> self.live(q[i].0) && self.socket_at(
                q[i].0,
            ).spec_on_dirty_list()) by {
                assert(q[i] == q0[i + 1]);
                assert(old_self.live(q0[i + 1].0));
            }
            assert forall|x: usize| #[trigger]
                self.live(x) && self.socket_at(x).spec_on_dirty_list() implies q.contains(
                SocketHandle(x),
            ) by {
                assert(old_self.live(x));
                let i = choose|i: int| 0 <= i < q0.len() && q0[i] == SocketHandle(x);
                assert(i != 0);
                assert(q[i - 1] == SocketHandle(x));
            }
            assert(q.no_duplicates()) by {
                assert forall|a: int, b: int| 0 <= a < q.len() && 0 <= b < q.len() && a != b implies q[a]
                    != q[b] by {
                    assert(q[a] == q0[a + 1]);
                    assert(q[b] == q0[b + 1]);
                }
            }
        }
        Some(t)
    }

    /// The earliest deadline any socket waits for: the time by which the
    /// caller should poll again, or `None` when no socket waits.
    pub fn poll_at(&self) -> (r: Option<u64>)
        ensures
            r == earliest_deadline(self.slots(), self.slots().len() as int),
    {
        let mut r: Option<u64> = None;
        let mut i: usize = 0;
        while i < self.sockets.len()
            invariant
                i <= self.sockets@.len(),
                r == earliest_deadline(self.sockets@, i as int),
            decreases self.sockets@.len() - i,
        {
            let d = match &self.sockets[i] {
                Some(Socket::Tcp(t)) => t.timer(),
                _ => None,
            };
            r = match (r, d) {
                (Some(x), Some(y)) => if x <= y {
                    Some(x)
                } else {
                    Some(y)
                },
                (Some(x), None) => Some(x),
                (None, y) => y,
            };
            i += 1;
        }
        r
    }
}

/// A pass over the dirty queue that visits at most as many sockets as the
/// queue held when it began (and never more than its capacity), so that a
/// socket that stays dirty and rejoins the back of the queue is not visited
/// again in the same pass.
#[derive(Debug)]
pub struct DirtyIter {
    sockets_left: usize,
}

impl DirtyIter {
    pub closed spec fn left(&self) -> nat {
        self.sockets_left as nat
    }

    /// A pass bounded by the capacity of `container`'s dirty queue.
    pub fn new(container: &Container) -> (r: DirtyIter)
        requires
            container.wf(),
        ensures
            r.left() == if container.dirty_queue().len() < container.dirty_capacity() {
                container.dirty_queue().len()
            } else {
                container.dirty_capacity()
            },
    {
        let queued = container.dirty_queue_len();
        let capacity = container.dirty_queue_capacity();
        DirtyIter { sockets_left: if queued < capacity { queued } else { capacity } }
    }

    /// The next dirty socket, checked out; `None` once the bound is spent or
    /// the queue is empty.
    pub fn next(&mut self, container: &mut Container) -> (r: Option<SocketTracker>)
        requires
            old(container).wf(),
        ensures
            old(self).left() == 0 ==> r is None && *final(container) == *old(container)
                && final(self).left() == 0,
            old(self).left() > 0 ==> final(self).left() == old(self).left() - 1,
            old(self).left() > 0 && old(container).dirty_queue().len() == 0 ==> r is None
                && *final(container) == *old(container),
            old(self).left() > 0 && old(container).dirty_queue().len() > 0 ==> (r matches Some(t) && {
                let h = old(container).dirty_queue()[0];
                &&& t.spec_handle() == h
                &&& old(container).live(h.0)
                &&& t.spec_socket().same_but_flag(&old(container).socket_at(h.0))
                &&& t.spec_socket().wf()
                &&& !t.spec_socket().spec_on_dirty_list()
                &&& !t.spec_on_list()
                &&& final(container).checked_out(&t)
                &&& final(container).slots() == old(container).slots().update(h.0 as int, None)
                &&& final(container).index() == old(container).index()
                &&& final(container).index().rev_entry(h.0) == socket_key(t.spec_socket())
                &&& final(container).dirty_queue() == old(container).dirty_queue().drop_first()
            }),
    {
        if self.sockets_left == 0 {
            None
        } else {
            self.sockets_left -= 1;
            container.next_dirty()
        }
    }
}

/// Index soundness: in every state of a container, each entry of the
/// dispatch index names a live socket whose current binding is the entry's
/// key, and each live socket whose binding calls for an entry is filed there
/// (in the single entry of its key, or once among the listeners of its
/// local endpoint).
pub proof fn lemma_index_sound(c: &Container)
    requires
        c.wf(),
    ensures
        forall|k: u64| #[trigger]
            c.index().raw_entry(k) matches Some(h) ==> c.live(h.0) && socket_key(c.socket_at(h.0))
                == Some(IndexKey::Raw(k)),
        forall|k: u64| #[trigger]
            c.index().udp_entry(k) matches Some(h) ==> c.live(h.0) && socket_key(c.socket_at(h.0))
                == Some(IndexKey::Udp(k)),
        forall|l: u64, r: u64| #[trigger]
            c.index().established_entry(l, r) matches Some(h) ==> c.live(h.0) && socket_key(
                c.socket_at(h.0),
            ) == Some(IndexKey::TcpEstablished(l, r)),
        forall|l: u64, i: int|
            0 <= i < c.index().listeners(l).len() ==> c.live(#[trigger] c.index().listeners(l)[i].0)
                && socket_key(c.socket_at(c.index().listeners(l)[i].0)) == Some(
                IndexKey::TcpListen(l),
            ),
        forall|l: u64| #[trigger] c.index().listeners(l).no_duplicates(),
        forall|h: usize| #[trigger]
            c.live(h) ==> (socket_key(c.socket_at(h)) matches Some(key) ==> c.index().holds(key, h)),
{
    let t = c.index();
    assert forall|k: u64| #[trigger] t.raw_entry(k) is Some implies c.live(t.raw_entry(k)->Some_0.0)
        && socket_key(c.socket_at(t.raw_entry(k)->Some_0.0)) == Some(IndexKey::Raw(k)) by {
        c.lemma_filed(IndexKey::Raw(k));
        assert(t.holds(IndexKey::Raw(k), t.raw_entry(k)->Some_0.0));
    }
    assert forall|k: u64| #[trigger] t.udp_entry(k) is Some implies c.live(t.udp_entry(k)->Some_0.0)
        && socket_key(c.socket_at(t.udp_entry(k)->Some_0.0)) == Some(IndexKey::Udp(k)) by {
        c.lemma_filed(IndexKey::Udp(k));
        assert(t.holds(IndexKey::Udp(k), t.udp_entry(k)->Some_0.0));
    }
    assert forall|l: u64, r: u64| #[trigger] t.established_entry(l, r) is Some implies c.live(
        t.established_entry(l, r)->Some_0.0,
    ) && socket_key(c.socket_at(t.established_entry(l, r)->Some_0.0)) == Some(
        IndexKey::TcpEstablished(l, r),
    ) by {
        c.lemma_filed(IndexKey::TcpEstablished(l, r));
        assert(t.holds(IndexKey::TcpEstablished(l, r), t.established_entry(l, r)->Some_0.0));
    }
    assert forall|l: u64, i: int| 0 <= i < t.listeners(l).len() implies c.live(
        #[trigger] t.listeners(l)[i].0,
    ) && socket_key(c.socket_at(t.listeners(l)[i].0)) == Some(IndexKey::TcpListen(l)) by {
        c.lemma_filed(IndexKey::TcpListen(l));
        assert(t.listeners(l).contains(t.listeners(l)[i]));
        assert(t.holds(IndexKey::TcpListen(l), t.listeners(l)[i].0));
    }
    assert forall|h: usize| #[trigger] c.live(h) implies (socket_key(c.socket_at(h)) matches Some(
        key,
    ) ==> t.holds(key, h)) by {
        if socket_key(c.socket_at(h)) is Some {
            assert(t.rev_entry(h) == socket_key(c.socket_at(h)));
        }
    }
}

/// Dirty-queue soundness: in every state of a container, each handle in the
/// dirty queue holds a live socket flagged as queued, and each socket
/// flagged as queued has its handle in the queue exactly once.
pub proof fn lemma_dirty_queue_sound(c: &Container)
    requires
        c.wf(),
    ensures
        forall|i: int|
            0 <= i < c.dirty_queue().len() ==> c.live((#[trigger] c.dirty_queue()[i]).0)
                && c.socket_at(c.dirty_queue()[i].0).spec_on_dirty_list(),
        forall|h: usize| #[trigger]
            c.live(h) && c.socket_at(h).spec_on_dirty_list() ==> c.dirty_queue().contains(
                SocketHandle(h),
            ),
        c.dirty_queue().no_duplicates(),
{
}

} // verus!
