use vstd::prelude::*;

use crate::wire::{EthernetAddress, IpAddress};

verus! {

/// One mapping of an ARP cache.
#[derive(Debug, Clone, Copy, PartialEq, Eq, Structural)]
pub struct ArpEntry {
    pub protocol_addr: IpAddress,
    pub hardware_addr: EthernetAddress,
}

/// A bounded cache from protocol addresses to hardware addresses over a
/// fixed number of slots. When it is full, filling a new address evicts the
/// slots in round-robin order.
#[derive(Debug)]
pub struct SliceArpCache {
    storage: Vec<Option<ArpEntry>>,
    next_evict: usize,
}

impl SliceArpCache {
    /// Whether slot `i` maps address `a`.
    pub closed spec fn slot_has(&self, i: int, a: IpAddress) -> bool {
        0 <= i < self.storage@.len() && (self.storage@[i] matches Some(e) && e.protocol_addr == a)
    }

    pub closed spec fn wf(&self) -> bool {
        &&& self.storage@.len() > 0
        &&& self.next_evict < self.storage@.len()
        &&& forall|i: int, j: int| self.slot_has(i, self.storage@[i]->Some_0.protocol_addr)
            && #[trigger] self.slot_has(j, self.storage@[i]->Some_0.protocol_addr) ==> i == j
    }

    /// The hardware address cached for `a`, if any.
    pub closed spec fn entry(&self, a: IpAddress) -> Option<EthernetAddress> {
        if exists|i: int| #[trigger] self.slot_has(i, a) {
            let i = choose|i: int| #[trigger] self.slot_has(i, a);
            Some(self.storage@[i]->Some_0.hardware_addr)
        } else {
            None
        }
    }

    pub closed spec fn spec_capacity(&self) -> nat {
        self.storage@.len()
    }

    /// An empty cache with `capacity` slots.
    pub fn new(capacity: usize) -> (r: SliceArpCache)
        requires
            capacity > 0,
        ensures
            r.wf(),
            r.spec_capacity() == capacity,
            forall|a: IpAddress| r.entry(a) is None,
    {
        let mut storage: Vec<Option<ArpEntry>> = Vec::new();
        let mut i: usize = 0;
        while i < capacity
            invariant
                i <= capacity,
                storage@.len() == i,
                forall|j: int| 0 <= j < i ==> storage@[j] is None,
            decreases capacity - i,
        {
            storage.push(None);
            i += 1;
        }
        SliceArpCache { storage, next_evict: 0 }
    }

    fn find(&self, a: &IpAddress) -> (r: Option<usize>)
        requires
            self.wf(),
        ensures
            match r {
                Some(i) => self.slot_has(i as int, *a),
                None => forall|i: int| !#[trigger] self.slot_has(i, *a),
            },
    {
        let mut i: usize = 0;
        while i < self.storage.len()
            invariant
                self.wf(),
                i <= self.storage@.len(),
                forall|j: int| 0 <= j < i ==> !#[trigger] self.slot_has(j, *a),
            decreases self.storage@.len() - i,
        {
            match &self.storage[i] {
                Some(e) => {
                    if e.protocol_addr == *a {
                        return Some(i);
                    }
                },
                None => {},
            }
            i += 1;
        }
        None
    }

    /// The hardware address cached for `protocol_addr`, if any.
    pub fn lookup(&self, protocol_addr: &IpAddress) -> (r: Option<EthernetAddress>)
        requires
            self.wf(),
        ensures
            r == self.entry(*protocol_addr),
    {
        match self.find(protocol_addr) {
            Some(i) => {
                proof {
                    let j = choose|j: int| #[trigger] self.slot_has(j, *protocol_addr);
                    assert(self.slot_has(i as int, self.storage@[i as int]->Some_0.protocol_addr));
                }
                match &self.storage[i] {
                    Some(e) => Some(e.hardware_addr),
                    None => None,
                }
            },
            None => None,
        }
    }

    /// Map `protocol_addr` to `hardware_addr`. An existing mapping of the
    /// address is updated; otherwise a free slot is taken, or, when none is
    /// free, the next slot in round-robin order is overwritten.
    pub fn fill(&mut self, protocol_addr: &IpAddress, hardware_addr: &EthernetAddress)
        requires
            old(self).wf(),
        ensures
            final(self).wf(),
            final(self).spec_capacity() == old(self).spec_capacity(),
            final(self).entry(*protocol_addr) == Some(*hardware_addr),
            forall|a: IpAddress|
                a != *protocol_addr && (#[trigger] final(self).entry(a)) is Some ==> final(self).entry(a)
                    == old(self).entry(a),
    {
        let entry = ArpEntry { protocol_addr: *protocol_addr, hardware_addr: *hardware_addr };
        let ghost old_self = *self;
        let found = self.find(protocol_addr);
        let mut evicted = false;
        let slot = match found {
            Some(i) => i,
            None => {
                let mut i: usize = 0;
                while i < self.storage.len() && self.storage[i].is_some()
                    invariant
                        self.wf(),
                        i <= self.storage@.len(),
                    decreases self.storage@.len() - i,
                {
                    i += 1;
                }
                if i < self.storage.len() {
                    i
                } else {
                    evicted = true;
                    self.next_evict
                }
            },
        };
        proof {
            assert forall|j: int| j != slot implies !#[trigger] old_self.slot_has(j, *protocol_addr) by {
                if found is Some && old_self.slot_has(j, *protocol_addr) {
                    assert(old_self.slot_has(
                        slot as int,
                        old_self.storage@[slot as int]->Some_0.protocol_addr,
                    ));
                    assert(old_self.slot_has(j, old_self.storage@[slot as int]->Some_0.protocol_addr));
                }
            }
        }
        self.storage.set(slot, Some(entry));
        if evicted {
            self.next_evict = if slot + 1 == self.storage.len() {
                0
            } else {
                slot + 1
            };
        }
        proof {
            assert forall|i: int, a: IpAddress| #[trigger] self.slot_has(i, a) implies (i == slot
                && a == *protocol_addr) || (i != slot && old_self.slot_has(i, a)) by {}
            assert(self.slot_has(slot as int, *protocol_addr));
            assert forall|i: int, j: int| self.slot_has(i, self.storage@[i]->Some_0.protocol_addr)
                && #[trigger] self.slot_has(j, self.storage@[i]->Some_0.protocol_addr) implies i
                == j by {
                let a = self.storage@[i]->Some_0.protocol_addr;
                if i != slot && j != slot {
                    assert(old_self.slot_has(i, old_self.storage@[i]->Some_0.protocol_addr));
                } else if i == slot && j != slot {
                    assert(old_self.slot_has(j, *protocol_addr));
                } else if j == slot && i != slot {
                    assert(old_self.slot_has(i, *protocol_addr));
                }
            }
            let k = choose|k: int| #[trigger] self.slot_has(k, *protocol_addr);
            assert(self.slot_has(slot as int, self.storage@[slot as int]->Some_0.protocol_addr));
            assert forall|a: IpAddress|
                a != *protocol_addr && (#[trigger] self.entry(a)) is Some implies self.entry(a)
                == old_self.entry(a) by {
                let i = choose|i: int| #[trigger] self.slot_has(i, a);
                assert(old_self.slot_has(i, a));
                let j = choose|j: int| #[trigger] old_self.slot_has(j, a);
                assert(old_self.slot_has(i, old_self.storage@[i]->Some_0.protocol_addr));
            }
        }
    }
}

} // verus!
