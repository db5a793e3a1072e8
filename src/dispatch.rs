use vstd::prelude::*;

use std::collections::BTreeMap;

use crate::error::Error;
use crate::socket::{IndexKey, SocketHandle};
use crate::wire::{endpoint_key, IpAddress, IpEndpoint};

verus! {

/// The key of a connection in the table of connected TCP sockets.
pub open spec fn connection_key(local: u64, remote: u64) -> u128 {
    (local as int * 0x1_0000_0000_0000_0000 + remote as int) as u128
}

/// Distinct endpoint pairs have distinct connection keys.
pub proof fn lemma_connection_key_injective(l1: u64, r1: u64, l2: u64, r2: u64)
    ensures
        connection_key(l1, r1) == connection_key(l2, r2) ==> l1 == l2 && r1 == r2,
{
    if connection_key(l1, r1) == connection_key(l2, r2) {
        assert(l1 == l2 && r1 == r2) by (nonlinear_arith)
            requires
                l1 as int * 0x1_0000_0000_0000_0000 + r1 as int == l2 as int * 0x1_0000_0000_0000_0000
                    + r2 as int,
                0 <= r1 < 0x1_0000_0000_0000_0000,
                0 <= r2 < 0x1_0000_0000_0000_0000,
        ;
    }
}

/// The key of the wildcard endpoint on `port`: unspecified address.
pub open spec fn wildcard_key(port: u16) -> u64 {
    endpoint_key(IpEndpoint { addr: IpAddress::Unspecified, port }) as u64
}

/// The key of the endpoint (`addr`, `port`).
pub open spec fn exact_key(addr: IpAddress, port: u16) -> u64 {
    endpoint_key(IpEndpoint { addr, port }) as u64
}

/// The dispatch index: maps from packet keys to socket handles, and the
/// reverse map from each indexed handle to its key, kept in lockstep.
#[derive(Debug)]
pub struct DispatchTable {
    raw: BTreeMap<u64, SocketHandle>,
    udp: BTreeMap<u64, SocketHandle>,
    tcp_listen: BTreeMap<u64, Vec<SocketHandle>>,
    tcp_established: BTreeMap<u128, SocketHandle>,
    tcp_remotes: BTreeMap<u64, Vec<u64>>,
    rev: BTreeMap<usize, IndexKey>,
}

impl DispatchTable {
    /// The key under which handle `h` is indexed, if any.
    pub closed spec fn rev_entry(&self, h: usize) -> Option<IndexKey> {
        if self.rev@.contains_key(h) {
            Some(self.rev@[h])
        } else {
            None
        }
    }

    pub closed spec fn raw_entry(&self, k: u64) -> Option<SocketHandle> {
        if self.raw@.contains_key(k) {
            Some(self.raw@[k])
        } else {
            None
        }
    }

    pub closed spec fn udp_entry(&self, k: u64) -> Option<SocketHandle> {
        if self.udp@.contains_key(k) {
            Some(self.udp@[k])
        } else {
            None
        }
    }

    pub closed spec fn established_entry(&self, local: u64, remote: u64) -> Option<SocketHandle> {
        if self.tcp_established@.contains_key(connection_key(local, remote)) {
            Some(self.tcp_established@[connection_key(local, remote)])
        } else {
            None
        }
    }

    /// The listeners on local endpoint `local`, oldest first.
    pub closed spec fn listeners(&self, local: u64) -> Seq<SocketHandle> {
        if self.tcp_listen@.contains_key(local) {
            self.tcp_listen@[local]@
        } else {
            Seq::empty()
        }
    }

    /// The remote endpoints connected to local endpoint `local`.
    pub closed spec fn remotes(&self, local: u64) -> Seq<u64> {
        if self.tcp_remotes@.contains_key(local) {
            self.tcp_remotes@[local]@
        } else {
            Seq::empty()
        }
    }

    /// Whether some listener or connection uses local endpoint `local`.
    pub open spec fn local_in_use(&self, local: u64) -> bool {
        self.listeners(local).len() > 0 || self.remotes(local).len() > 0
    }

    /// The record of remotes per local endpoint lists exactly the
    /// connections, each once.
    pub open spec fn remotes_consistent(&self) -> bool {
        &&& forall|l: u64, r: u64|
            #![trigger self.remotes(l).contains(r)]
            #![trigger self.established_entry(l, r)]
            self.remotes(l).contains(r) <==> self.established_entry(l, r) is Some
        &&& forall|l: u64| #[trigger] self.remotes(l).no_duplicates()
    }

    /// Whether the entry for `key` holds handle `h`.
    pub open spec fn holds(&self, key: IndexKey, h: usize) -> bool {
        match key {
            IndexKey::Raw(k) => self.raw_entry(k) == Some(SocketHandle(h)),
            IndexKey::Udp(k) => self.udp_entry(k) == Some(SocketHandle(h)),
            IndexKey::TcpListen(l) => self.listeners(l).contains(SocketHandle(h)),
            IndexKey::TcpEstablished(l, r) => self.established_entry(l, r) == Some(SocketHandle(h)),
        }
    }

    /// Whether a socket other than a listener already holds `key`.
    pub open spec fn taken(&self, key: IndexKey) -> bool {
        match key {
            IndexKey::Raw(k) => self.raw_entry(k) is Some,
            IndexKey::Udp(k) => self.udp_entry(k) is Some,
            IndexKey::TcpListen(_) => false,
            IndexKey::TcpEstablished(l, r) => self.established_entry(l, r) is Some,
        }
    }

    /// The forward tables and the reverse map agree: every entry is filed
    /// under its handle's key, every indexed handle sits in the entry of its
    /// key, and no listener is listed twice.
    pub open spec fn consistent(&self) -> bool {
        self.tables_consistent() && self.remotes_consistent()
    }

    /// The forward tables and the reverse map agree.
    pub open spec fn tables_consistent(&self) -> bool {
        &&& forall|k: u64| #[trigger]
            self.raw_entry(k) matches Some(h) ==> self.rev_entry(h.0) == Some(IndexKey::Raw(k))
        &&& forall|k: u64| #[trigger]
            self.udp_entry(k) matches Some(h) ==> self.rev_entry(h.0) == Some(IndexKey::Udp(k))
        &&& forall|l: u64, r: u64| #[trigger]
            self.established_entry(l, r) matches Some(h) ==> self.rev_entry(h.0) == Some(
                IndexKey::TcpEstablished(l, r),
            )
        &&& forall|l: u64, i: int|
            0 <= i < self.listeners(l).len() ==> self.rev_entry(#[trigger] self.listeners(l)[i].0)
                == Some(IndexKey::TcpListen(l))
        &&& forall|l: u64| #[trigger] self.listeners(l).no_duplicates()
        &&& forall|h: usize| #[trigger]
            self.rev_entry(h) matches Some(key) ==> self.holds(key, h)
    }

    pub fn new() -> (r: DispatchTable)
        ensures
            r.consistent(),
            forall|h: usize| r.rev_entry(h) is None,
    {
        DispatchTable {
            raw: BTreeMap::new(),
            udp: BTreeMap::new(),
            tcp_listen: BTreeMap::new(),
            tcp_established: BTreeMap::new(),
            tcp_remotes: BTreeMap::new(),
            rev: BTreeMap::new(),
        }
    }

    /// The key under which handle `h` is filed, if any.
    pub fn key_of(&self, h: SocketHandle) -> (r: Option<IndexKey>)
        ensures
            r == self.rev_entry(h.0),
    {
        match self.rev.get(&h.0) {
            Some(k) => Some(*k),
            None => None,
        }
    }

    /// The raw socket filed under raw key `k`.
    pub fn get_raw_socket(&self, k: u64) -> (r: Option<SocketHandle>)
        ensures
            r == self.raw_entry(k),
    {
        match self.raw.get(&k) {
            Some(h) => Some(*h),
            None => None,
        }
    }

    /// The UDP socket for a datagram to (`addr`, `port`): the one bound to
    /// exactly that endpoint, else the one bound to the port with an
    /// unspecified address.
    pub fn get_udp_socket(&self, addr: IpAddress, port: u16) -> (r: Option<SocketHandle>)
        ensures
            r == if self.udp_entry(exact_key(addr, port)) is Some {
                self.udp_entry(exact_key(addr, port))
            } else {
                self.udp_entry(wildcard_key(port))
            },
    {
        let exact = IpEndpoint::new(addr, port).key();
        match self.udp.get(&exact) {
            Some(h) => Some(*h),
            None => {
                let wild = IpEndpoint::new(IpAddress::Unspecified, port).key();
                match self.udp.get(&wild) {
                    Some(h) => Some(*h),
                    None => None,
                }
            },
        }
    }

    /// The first listener on `local`, if any.
    fn first_listener(&self, local: u64) -> (r: Option<SocketHandle>)
        ensures
            r == if self.listeners(local).len() > 0 {
                Some(self.listeners(local)[0])
            } else {
                None::<SocketHandle>
            },
    {
        match self.tcp_listen.get(&local) {
            Some(v) => if v.len() > 0 {
                Some(v[0])
            } else {
                None
            },
            None => None,
        }
    }

    fn get_established(&self, local: u64, remote: u64) -> (r: Option<SocketHandle>)
        ensures
            r == self.established_entry(local, remote),
    {
        let key: u128 = local as u128 * 0x1_0000_0000_0000_0000 + remote as u128;
        match self.tcp_established.get(&key) {
            Some(h) => Some(*h),
            None => None,
        }
    }

    fn in_use(&self, local: u64) -> (r: bool)
        ensures
            r == self.local_in_use(local),
    {
        if self.first_listener(local).is_some() {
            return true;
        }
        match self.tcp_remotes.get(&local) {
            Some(v) => v.len() > 0,
            None => false,
        }
    }

    /// The local endpoint a segment to (`addr`, `port`) is matched against:
    /// the exact endpoint when some socket uses it, else the wildcard one.
    pub open spec fn tcp_local(&self, addr: IpAddress, port: u16) -> u64 {
        if self.local_in_use(exact_key(addr, port)) {
            exact_key(addr, port)
        } else {
            wildcard_key(port)
        }
    }

    /// The TCP socket for a segment from (`src_addr`, `src_port`) to
    /// (`dst_addr`, `dst_port`). The local endpoint is selected first: the
    /// exact one when some socket uses it, else the wildcard one. At that
    /// endpoint a connection to the source wins over the first listener.
    pub fn get_tcp_socket(&self, dst_addr: IpAddress, dst_port: u16, src_addr: IpAddress, src_port: u16) -> (r:
        Option<SocketHandle>)
        ensures
            r == {
                let local = self.tcp_local(dst_addr, dst_port);
                let remote = exact_key(src_addr, src_port);
                if self.established_entry(local, remote) is Some {
                    self.established_entry(local, remote)
                } else if self.listeners(local).len() > 0 {
                    Some(self.listeners(local)[0])
                } else {
                    None
                }
            },
    {
        let exact = IpEndpoint::new(dst_addr, dst_port).key();
        let local = if self.in_use(exact) {
            exact
        } else {
            IpEndpoint::new(IpAddress::Unspecified, dst_port).key()
        };
        let remote = IpEndpoint::new(src_addr, src_port).key();
        let found = self.get_established(local, remote);
        if found.is_some() {
            return found;
        }
        self.first_listener(local)
    }

    /// A key other than a listener key is taken exactly when some handle is
    /// filed under it.
    pub proof fn lemma_taken_iff_filed(&self, key: IndexKey)
        requires
            self.consistent(),
            !(key is TcpListen),
        ensures
            self.taken(key) <==> exists|g: usize| self.rev_entry(g) == Some(key),
    {
        if self.taken(key) {
            let g = match key {
                IndexKey::Raw(k) => self.raw_entry(k)->Some_0,
                IndexKey::Udp(k) => self.udp_entry(k)->Some_0,
                IndexKey::TcpEstablished(l, r) => self.established_entry(l, r)->Some_0,
                IndexKey::TcpListen(_) => SocketHandle(0),
            };
            assert(self.rev_entry(g.0) == Some(key));
        }
        if exists|g: usize| self.rev_entry(g) == Some(key) {
            let g = choose|g: usize| self.rev_entry(g) == Some(key);
            assert(self.holds(key, g));
        }
    }

    /// File handle `h` under `key`. `AlreadyInUse` when `h` is already
    /// indexed or another socket holds `key` (listeners share their key).
    pub fn add(&mut self, key: IndexKey, h: SocketHandle) -> (r: Result<(), Error>)
        requires
            old(self).consistent(),
        ensures
            final(self).consistent(),
            old(self).rev_entry(h.0) is Some || old(self).taken(key) ==> r == Err::<(), Error>(
                Error::AlreadyInUse,
            ) && *final(self) == *old(self),
            !(old(self).rev_entry(h.0) is Some || old(self).taken(key)) ==> r is Ok && forall|x: usize|
                #[trigger] final(self).rev_entry(x) == if x == h.0 {
                    Some(key)
                } else {
                    old(self).rev_entry(x)
                },
    {
        if self.rev.contains_key(&h.0) {
            return Err(Error::AlreadyInUse);
        }
        let ghost old_self = *self;
        match key {
            IndexKey::Raw(k) => {
                if self.raw.contains_key(&k) {
                    return Err(Error::AlreadyInUse);
                }
                self.raw.insert(k, h);
            },
            IndexKey::Udp(k) => {
                if self.udp.contains_key(&k) {
                    return Err(Error::AlreadyInUse);
                }
                self.udp.insert(k, h);
            },
            IndexKey::TcpEstablished(l, rm) => {
                let ck: u128 = l as u128 * 0x1_0000_0000_0000_0000 + rm as u128;
                if self.tcp_established.contains_key(&ck) {
                    return Err(Error::AlreadyInUse);
                }
                self.tcp_established.insert(ck, h);
                let mut v = match self.tcp_remotes.remove(&l) {
                    Some(v) => v,
                    None => Vec::new(),
                };
                assert(v@ == old_self.remotes(l));
                v.push(rm);
                self.tcp_remotes.insert(l, v);
                proof {
                    assert forall|l2: u64, r2: u64| #[trigger]
                        self.established_entry(l2, r2) == if l2 == l && r2 == rm {
                            Some(h)
                        } else {
                            old_self.established_entry(l2, r2)
                        } by {
                        lemma_connection_key_injective(l, rm, l2, r2);
                    }
                    assert(self.remotes(l) == old_self.remotes(l).push(rm));
                }
            },
            IndexKey::TcpListen(l) => {
                let mut v = match self.tcp_listen.remove(&l) {
                    Some(v) => v,
                    None => Vec::new(),
                };
                assert(v@ == old_self.listeners(l));
                v.push(h);
                self.tcp_listen.insert(l, v);
                proof {
                    assert(!old_self.listeners(l).contains(h)) by {
                        if old_self.listeners(l).contains(h) {
                            let i = choose|i: int| 0 <= i < old_self.listeners(l).len()
                                && old_self.listeners(l)[i] == h;
                            assert(old_self.rev_entry(old_self.listeners(l)[i].0) is Some);
                        }
                    }
                    assert(self.listeners(l) == old_self.listeners(l).push(h));
                    assert forall|l2: u64| l2 != l implies #[trigger] self.listeners(l2)
                        == old_self.listeners(l2) by {}
                }
            },
        }
        self.rev.insert(h.0, key);
        proof {
            assert forall|x: usize| #[trigger]
                self.rev_entry(x) == if x == h.0 {
                    Some(key)
                } else {
                    old_self.rev_entry(x)
                } by {}
            assert forall|k: u64| #[trigger]
                self.raw_entry(k) == if key == IndexKey::Raw(k) {
                    Some(h)
                } else {
                    old_self.raw_entry(k)
                } by {}
            assert forall|k: u64| #[trigger]
                self.udp_entry(k) == if key == IndexKey::Udp(k) {
                    Some(h)
                } else {
                    old_self.udp_entry(k)
                } by {}
            assert forall|l2: u64, r2: u64| #[trigger]
                self.established_entry(l2, r2) == if key == IndexKey::TcpEstablished(l2, r2) {
                    Some(h)
                } else {
                    old_self.established_entry(l2, r2)
                } by {
                if let IndexKey::TcpEstablished(l, rm) = key {
                    lemma_connection_key_injective(l, rm, l2, r2);
                }
            }
            assert forall|l2: u64| #[trigger]
                self.listeners(l2) == if key == IndexKey::TcpListen(l2) {
                    old_self.listeners(l2).push(h)
                } else {
                    old_self.listeners(l2)
                } by {}
            Self::lemma_add_consistent(old_self, *self, key, h);
            if let IndexKey::TcpEstablished(l, rm) = key {
                assert(self.remotes(l) == old_self.remotes(l).push(rm));
                assert forall|l2: u64| l2 != l implies #[trigger] self.remotes(l2) == old_self.remotes(l2) by {}
                Self::lemma_remotes_pushed(old_self, *self, l, rm);
            }
            if !(key is TcpEstablished) {
                assert forall|l2: u64| #[trigger] self.remotes(l2) == old_self.remotes(l2) by {}
                assert forall|l2: u64, r2: u64| #[trigger]
                    self.established_entry(l2, r2) == old_self.established_entry(l2, r2) by {}
            }
        }
        Ok(())
    }

    proof fn lemma_remotes_pushed(t: DispatchTable, u: DispatchTable, l: u64, rm: u64)
        requires
            t.remotes_consistent(),
            t.established_entry(l, rm) is None,
            u.remotes(l) == t.remotes(l).push(rm),
            forall|l2: u64| l2 != l ==> #[trigger] u.remotes(l2) == t.remotes(l2),
            forall|l2: u64, r2: u64| #[trigger]
                u.established_entry(l2, r2) == if l2 == l && r2 == rm {
                    Some(u.established_entry(l, rm)->Some_0)
                } else {
                    t.established_entry(l2, r2)
                },
            u.established_entry(l, rm) is Some,
        ensures
            u.remotes_consistent(),
    {
        assert forall|l2: u64, r2: u64| u.remotes(l2).contains(r2) <==> u.established_entry(l2, r2) is Some by {
            if l2 == l {
                if u.remotes(l).contains(r2) && r2 != rm {
                    let i = choose|i: int| 0 <= i < u.remotes(l).len() && u.remotes(l)[i] == r2;
                    assert(t.remotes(l)[i] == r2);
                }
                if t.remotes(l).contains(r2) {
                    let i = choose|i: int| 0 <= i < t.remotes(l).len() && t.remotes(l)[i] == r2;
                    assert(u.remotes(l)[i] == r2);
                }
                if r2 == rm {
                    assert(u.remotes(l)[t.remotes(l).len() as int] == rm);
                }
            }
        }
        assert forall|l2: u64| #[trigger] u.remotes(l2).no_duplicates() by {
            if l2 == l {
                assert(t.remotes(l).no_duplicates());
                assert(!t.remotes(l).contains(rm));
                assert forall|i: int, j: int|
                    0 <= i < u.remotes(l).len() && 0 <= j < u.remotes(l).len() && i != j implies
                    u.remotes(l)[i] != u.remotes(l)[j] by {
                    if i == t.remotes(l).len() {
                        assert(u.remotes(l)[j] == t.remotes(l)[j]);
                    } else if j == t.remotes(l).len() {
                        assert(u.remotes(l)[i] == t.remotes(l)[i]);
                    } else {
                        assert(u.remotes(l)[i] == t.remotes(l)[i]);
                        assert(u.remotes(l)[j] == t.remotes(l)[j]);
                    }
                }
            }
        }
    }

    proof fn lemma_remotes_removed(t: DispatchTable, u: DispatchTable, l: u64, rm: u64, pos: int)
        requires
            t.remotes_consistent(),
            0 <= pos < t.remotes(l).len(),
            t.remotes(l)[pos] == rm,
            u.remotes(l) == t.remotes(l).remove(pos),
            forall|l2: u64| l2 != l ==> #[trigger] u.remotes(l2) == t.remotes(l2),
            forall|l2: u64, r2: u64| #[trigger]
                u.established_entry(l2, r2) == if l2 == l && r2 == rm {
                    None
                } else {
                    t.established_entry(l2, r2)
                },
        ensures
            u.remotes_consistent(),
    {
        assert(t.remotes(l).no_duplicates());
        assert forall|l2: u64, r2: u64| u.remotes(l2).contains(r2) <==> u.established_entry(l2, r2) is Some by {
            if l2 == l {
                if u.remotes(l).contains(r2) {
                    let i = choose|i: int| 0 <= i < u.remotes(l).len() && u.remotes(l)[i] == r2;
                    let j = if i < pos { i } else { i + 1 };
                    assert(t.remotes(l)[j] == r2);
                    assert(j != pos);
                    assert(t.remotes(l).contains(r2));
                }
                if t.remotes(l).contains(r2) && r2 != rm {
                    let i = choose|i: int| 0 <= i < t.remotes(l).len() && t.remotes(l)[i] == r2;
                    assert(i != pos);
                    let j = if i < pos { i } else { i - 1 };
                    assert(u.remotes(l)[j] == r2);
                }
            }
        }
        assert forall|l2: u64| #[trigger] u.remotes(l2).no_duplicates() by {
            if l2 == l {
                assert forall|i: int, j: int|
                    0 <= i < u.remotes(l).len() && 0 <= j < u.remotes(l).len() && i != j implies
                    u.remotes(l)[i] != u.remotes(l)[j] by {
                    let i2 = if i < pos { i } else { i + 1 };
                    let j2 = if j < pos { j } else { j + 1 };
                    assert(u.remotes(l)[i] == t.remotes(l)[i2]);
                    assert(u.remotes(l)[j] == t.remotes(l)[j2]);
                }
            }
        }
    }

    proof fn lemma_add_consistent(t: DispatchTable, u: DispatchTable, key: IndexKey, h: SocketHandle)
        requires
            t.tables_consistent(),
            t.rev_entry(h.0) is None,
            !t.taken(key),
            forall|x: usize| #[trigger]
                u.rev_entry(x) == if x == h.0 {
                    Some(key)
                } else {
                    t.rev_entry(x)
                },
            forall|k: u64| #[trigger]
                u.raw_entry(k) == if key == IndexKey::Raw(k) {
                    Some(h)
                } else {
                    t.raw_entry(k)
                },
            forall|k: u64| #[trigger]
                u.udp_entry(k) == if key == IndexKey::Udp(k) {
                    Some(h)
                } else {
                    t.udp_entry(k)
                },
            forall|l2: u64, r2: u64| #[trigger]
                u.established_entry(l2, r2) == if key == IndexKey::TcpEstablished(l2, r2) {
                    Some(h)
                } else {
                    t.established_entry(l2, r2)
                },
            forall|l2: u64| #[trigger]
                u.listeners(l2) == if key == IndexKey::TcpListen(l2) {
                    t.listeners(l2).push(h)
                } else {
                    t.listeners(l2)
                },
        ensures
            u.tables_consistent(),
    {
        assert forall|k: u64| #[trigger] u.raw_entry(k) is Some implies u.rev_entry(u.raw_entry(k)->Some_0.0)
            == Some(IndexKey::Raw(k)) by {
            if key != IndexKey::Raw(k) {
                assert(t.raw_entry(k) matches Some(g2) && t.rev_entry(g2.0) == Some(IndexKey::Raw(k)));
            }
        }
        assert forall|k: u64| #[trigger] u.udp_entry(k) is Some implies u.rev_entry(u.udp_entry(k)->Some_0.0)
            == Some(IndexKey::Udp(k)) by {
            if key != IndexKey::Udp(k) {
                assert(t.udp_entry(k) matches Some(g2) && t.rev_entry(g2.0) == Some(IndexKey::Udp(k)));
            }
        }
        assert forall|l: u64, r: u64| #[trigger] u.established_entry(l, r) is Some implies u.rev_entry(
            u.established_entry(l, r)->Some_0.0,
        ) == Some(IndexKey::TcpEstablished(l, r)) by {
            if key != IndexKey::TcpEstablished(l, r) {
                assert(t.established_entry(l, r) matches Some(g2) && t.rev_entry(g2.0) == Some(
                    IndexKey::TcpEstablished(l, r),
                ));
            }
        }
        assert forall|l: u64, i: int| 0 <= i < u.listeners(l).len() implies u.rev_entry(
            #[trigger] u.listeners(l)[i].0,
        ) == Some(IndexKey::TcpListen(l)) by {
            if key == IndexKey::TcpListen(l) && i == t.listeners(l).len() {
            } else {
                assert(u.listeners(l)[i] == t.listeners(l)[i]);
                assert(t.rev_entry(t.listeners(l)[i].0) == Some(IndexKey::TcpListen(l)));
            }
        }
        assert forall|l: u64| #[trigger] u.listeners(l).no_duplicates() by {
            if key == IndexKey::TcpListen(l) {
                assert(t.listeners(l).no_duplicates());
                assert(!t.listeners(l).contains(h)) by {
                    if t.listeners(l).contains(h) {
                        let i = choose|i: int| 0 <= i < t.listeners(l).len() && t.listeners(l)[i] == h;
                        assert(t.rev_entry(t.listeners(l)[i].0) is Some);
                    }
                }
                assert forall|i: int, j: int|
                    0 <= i < u.listeners(l).len() && 0 <= j < u.listeners(l).len() && i != j implies
                    u.listeners(l)[i] != u.listeners(l)[j] by {
                    if i == t.listeners(l).len() {
                        assert(u.listeners(l)[j] == t.listeners(l)[j]);
                    } else if j == t.listeners(l).len() {
                        assert(u.listeners(l)[i] == t.listeners(l)[i]);
                    } else {
                        assert(u.listeners(l)[i] == t.listeners(l)[i]);
                        assert(u.listeners(l)[j] == t.listeners(l)[j]);
                    }
                }
            }
        }
        assert forall|x: usize| #[trigger] u.rev_entry(x) is Some implies u.holds(u.rev_entry(x)->Some_0, x) by {
            if x == h.0 {
                match key {
                    IndexKey::TcpListen(l) => {
                        assert(u.listeners(l)[t.listeners(l).len() as int] == h);
                    },
                    _ => {},
                }
            } else {
                let k2 = t.rev_entry(x)->Some_0;
                assert(t.holds(k2, x));
                match k2 {
                    IndexKey::TcpListen(l) => {
                        if key == IndexKey::TcpListen(l) {
                            let i = choose|i: int| 0 <= i < t.listeners(l).len() && t.listeners(l)[i]
                                == SocketHandle(x);
                            assert(u.listeners(l)[i] == SocketHandle(x));
                        }
                    },
                    IndexKey::Raw(k) => {
                        assert(key != IndexKey::Raw(k));
                    },
                    IndexKey::Udp(k) => {
                        assert(key != IndexKey::Udp(k));
                    },
                    IndexKey::TcpEstablished(l, r) => {
                        assert(key != IndexKey::TcpEstablished(l, r));
                    },
                }
            }
        }
    }

    /// Take handle `h` out of the index. `SocketNotFound` when it is not
    /// indexed.
    pub fn remove(&mut self, h: SocketHandle) -> (r: Result<(), Error>)
        requires
            old(self).consistent(),
        ensures
            final(self).consistent(),
            old(self).rev_entry(h.0) is None ==> r == Err::<(), Error>(Error::SocketNotFound)
                && *final(self) == *old(self),
            old(self).rev_entry(h.0) is Some ==> r is Ok && forall|x: usize| #[trigger]
                final(self).rev_entry(x) == if x == h.0 {
                    None
                } else {
                    old(self).rev_entry(x)
                },
    {
        let key = match self.rev.get(&h.0) {
            None => return Err(Error::SocketNotFound),
            Some(k) => *k,
        };
        let ghost old_self = *self;
        proof {
            assert(old_self.rev_entry(h.0) == Some(key));
            assert(old_self.holds(key, h.0));
        }
        self.rev.remove(&h.0);
        let ghost mut pos: int = 0;
        match key {
            IndexKey::Raw(k) => {
                self.raw.remove(&k);
            },
            IndexKey::Udp(k) => {
                self.udp.remove(&k);
            },
            IndexKey::TcpEstablished(l, rm) => {
                let ck: u128 = l as u128 * 0x1_0000_0000_0000_0000 + rm as u128;
                self.tcp_established.remove(&ck);
                let ghost rs = old_self.remotes(l);
                proof {
                    assert(old_self.established_entry(l, rm) is Some);
                    assert(rs.contains(rm));
                }
                let mut v = match self.tcp_remotes.remove(&l) {
                    Some(v) => v,
                    None => Vec::new(),
                };
                assert(v@ == rs);
                let mut i: usize = 0;
                while i < v.len() && v[i] != rm
                    invariant
                        v@ == rs,
                        rs.contains(rm),
                        i <= v@.len(),
                        forall|j: int| 0 <= j < i ==> v@[j] != rm,
                    decreases v@.len() - i,
                {
                    i += 1;
                }
                proof {
                    if i == v@.len() {
                        let j = choose|j: int| 0 <= j < rs.len() && rs[j] == rm;
                        assert(v@[j] != rm);
                    }
                    pos = i as int;
                }
                v.remove(i);
                if v.len() > 0 {
                    self.tcp_remotes.insert(l, v);
                }
                proof {
                    assert(self.remotes(l) =~= rs.remove(pos));
                    assert forall|l2: u64| l2 != l implies #[trigger] self.remotes(l2) == old_self.remotes(l2) by {}
                    assert forall|l2: u64, r2: u64| #[trigger]
                        self.established_entry(l2, r2) == if l2 == l && r2 == rm {
                            None
                        } else {
                            old_self.established_entry(l2, r2)
                        } by {
                        lemma_connection_key_injective(l, rm, l2, r2);
                    }
                    Self::lemma_remotes_removed(old_self, *self, l, rm, pos);
                }
            },
            IndexKey::TcpListen(l) => {
                let ghost ls = old_self.listeners(l);
                let mut v = match self.tcp_listen.remove(&l) {
                    Some(v) => v,
                    None => Vec::new(),
                };
                assert(v@ == ls);
                let mut i: usize = 0;
                while i < v.len() && v[i] != h
                    invariant
                        v@ == ls,
                        ls.contains(h),
                        i <= v@.len(),
                        forall|j: int| 0 <= j < i ==> v@[j] != h,
                    decreases v@.len() - i,
                {
                    i += 1;
                }
                proof {
                    if i == v@.len() {
                        let j = choose|j: int| 0 <= j < ls.len() && ls[j] == h;
                        assert(v@[j] != h);
                    }
                    pos = i as int;
                }
                v.remove(i);
                if v.len() > 0 {
                    self.tcp_listen.insert(l, v);
                }
                proof {
                    assert(self.listeners(l) =~= ls.remove(pos));
                }
            },
        }
        proof {
            assert forall|x: usize| #[trigger]
                self.rev_entry(x) == if x == h.0 {
                    None
                } else {
                    old_self.rev_entry(x)
                } by {}
            assert forall|k: u64| #[trigger]
                self.raw_entry(k) == if key == IndexKey::Raw(k) {
                    None
                } else {
                    old_self.raw_entry(k)
                } by {}
            assert forall|k: u64| #[trigger]
                self.udp_entry(k) == if key == IndexKey::Udp(k) {
                    None
                } else {
                    old_self.udp_entry(k)
                } by {}
            assert forall|l2: u64, r2: u64| #[trigger]
                self.established_entry(l2, r2) == if key == IndexKey::TcpEstablished(l2, r2) {
                    None
                } else {
                    old_self.established_entry(l2, r2)
                } by {
                if let IndexKey::TcpEstablished(l, rm) = key {
                    lemma_connection_key_injective(l, rm, l2, r2);
                }
            }
            assert forall|l2: u64| #[trigger]
                self.listeners(l2) == if key == IndexKey::TcpListen(l2) {
                    old_self.listeners(l2).remove(pos)
                } else {
                    old_self.listeners(l2)
                } by {}
            Self::lemma_remove_consistent(old_self, *self, key, h, pos);
            if !(key is TcpEstablished) {
                assert forall|l2: u64| #[trigger] self.remotes(l2) == old_self.remotes(l2) by {}
                assert forall|l2: u64, r2: u64| #[trigger]
                    self.established_entry(l2, r2) == old_self.established_entry(l2, r2) by {}
            }
        }
        Ok(())
    }

    proof fn lemma_remove_consistent(
        t: DispatchTable,
        u: DispatchTable,
        key: IndexKey,
        h: SocketHandle,
        pos: int,
    )
        requires
            t.tables_consistent(),
            t.rev_entry(h.0) == Some(key),
            key matches IndexKey::TcpListen(l) ==> 0 <= pos < t.listeners(l).len()
                && t.listeners(l)[pos] == h,
            forall|x: usize| #[trigger]
                u.rev_entry(x) == if x == h.0 {
                    None
                } else {
                    t.rev_entry(x)
                },
            forall|k: u64| #[trigger]
                u.raw_entry(k) == if key == IndexKey::Raw(k) {
                    None
                } else {
                    t.raw_entry(k)
                },
            forall|k: u64| #[trigger]
                u.udp_entry(k) == if key == IndexKey::Udp(k) {
                    None
                } else {
                    t.udp_entry(k)
                },
            forall|l2: u64, r2: u64| #[trigger]
                u.established_entry(l2, r2) == if key == IndexKey::TcpEstablished(l2, r2) {
                    None
                } else {
                    t.established_entry(l2, r2)
                },
            forall|l2: u64| #[trigger]
                u.listeners(l2) == if key == IndexKey::TcpListen(l2) {
                    t.listeners(l2).remove(pos)
                } else {
                    t.listeners(l2)
                },
        ensures
            u.tables_consistent(),
    {
        assert forall|k: u64| #[trigger] u.raw_entry(k) is Some implies u.rev_entry(
            u.raw_entry(k)->Some_0.0,
        ) == Some(IndexKey::Raw(k)) by {
            let g = t.raw_entry(k)->Some_0;
            assert(t.rev_entry(g.0) == Some(IndexKey::Raw(k)));
        }
        assert forall|k: u64| #[trigger] u.udp_entry(k) is Some implies u.rev_entry(
            u.udp_entry(k)->Some_0.0,
        ) == Some(IndexKey::Udp(k)) by {
            let g = t.udp_entry(k)->Some_0;
            assert(t.rev_entry(g.0) == Some(IndexKey::Udp(k)));
        }
        assert forall|l: u64, r: u64| #[trigger] u.established_entry(l, r) is Some implies u.rev_entry(
            u.established_entry(l, r)->Some_0.0,
        ) == Some(IndexKey::TcpEstablished(l, r)) by {
            let g = t.established_entry(l, r)->Some_0;
            assert(t.rev_entry(g.0) == Some(IndexKey::TcpEstablished(l, r)));
        }
        assert forall|l: u64, i: int| 0 <= i < u.listeners(l).len() implies u.rev_entry(
            #[trigger] u.listeners(l)[i].0,
        ) == Some(IndexKey::TcpListen(l)) by {
            let j = if key == IndexKey::TcpListen(l) && i >= pos {
                i + 1
            } else {
                i
            };
            assert(u.listeners(l)[i] == t.listeners(l)[j]);
            assert(t.rev_entry(t.listeners(l)[j].0) == Some(IndexKey::TcpListen(l)));
            if key == IndexKey::TcpListen(l) {
                assert(t.listeners(l).no_duplicates());
                assert(t.listeners(l)[j] != h);
            }
        }
        assert forall|l: u64| #[trigger] u.listeners(l).no_duplicates() by {
            assert(t.listeners(l).no_duplicates());
            if key == IndexKey::TcpListen(l) {
                assert forall|i: int, j: int|
                    0 <= i < u.listeners(l).len() && 0 <= j < u.listeners(l).len() && i != j implies
                    u.listeners(l)[i] != u.listeners(l)[j] by {
                    let i2 = if i >= pos {
                        i + 1
                    } else {
                        i
                    };
                    let j2 = if j >= pos {
                        j + 1
                    } else {
                        j
                    };
                    assert(u.listeners(l)[i] == t.listeners(l)[i2]);
                    assert(u.listeners(l)[j] == t.listeners(l)[j2]);
                }
            }
        }
        assert forall|x: usize| #[trigger] u.rev_entry(x) is Some implies u.holds(
            u.rev_entry(x)->Some_0,
            x,
        ) by {
            let k2 = t.rev_entry(x)->Some_0;
            assert(t.holds(k2, x));
            match k2 {
                IndexKey::TcpListen(l) => {
                    if key == IndexKey::TcpListen(l) {
                        let i = choose|i: int| 0 <= i < t.listeners(l).len() && t.listeners(l)[i]
                            == SocketHandle(x);
                        assert(i != pos);
                        let j = if i > pos {
                            i - 1
                        } else {
                            i
                        };
                        assert(u.listeners(l)[j] == SocketHandle(x));
                    }
                },
                IndexKey::Raw(k) => {
                    if key == IndexKey::Raw(k) {
                        assert(t.raw_entry(k) == Some(h));
                    }
                },
                IndexKey::Udp(k) => {
                    if key == IndexKey::Udp(k) {
                        assert(t.udp_entry(k) == Some(h));
                    }
                },
                IndexKey::TcpEstablished(l, r) => {
                    if key == IndexKey::TcpEstablished(l, r) {
                        assert(t.established_entry(l, r) == Some(h));
                    }
                },
            }
        }
    }
}

} // verus!
