use vstd::prelude::*;
use vstd::std_specs::cmp::PartialEqSpec;

verus! {

/// A value that can be put back into a neutral state when a buffer slot is
/// recycled.
pub trait Resettable {
    fn reset(&mut self);
}

impl Resettable for usize {
    fn reset(&mut self) {
        *self = 0;
    }
}

/// A fixed-capacity FIFO over an owned backing vector.
///
/// The queue holds `length` elements starting at slot `read_at`, wrapping
/// around the end of `storage`.
#[derive(Debug)]
pub struct RingBuffer<T> {
    storage: Vec<T>,
    read_at: usize,
    length: usize,
}

/// The first index of `v` in `s`, if any.
pub open spec fn first_index_of<T>(s: Seq<T>, v: T) -> int
    recommends
        s.contains(v),
{
    choose|i: int| 0 <= i < s.len() && s[i] == v && forall|j: int| 0 <= j < i ==> s[j] != v
}

impl<T> RingBuffer<T> {
    /// Physical slot of the logical position `i`.
    pub closed spec fn slot(&self, i: int) -> int {
        if self.read_at + i < self.storage@.len() {
            self.read_at + i
        } else {
            self.read_at + i - self.storage@.len()
        }
    }

    pub closed spec fn wf(&self) -> bool {
        &&& self.length <= self.storage@.len()
        &&& (self.storage@.len() == 0 ==> self.read_at == 0)
        &&& (self.storage@.len() > 0 ==> self.read_at < self.storage@.len())
    }

    /// The queued elements, oldest first.
    pub closed spec fn view(&self) -> Seq<T> {
        Seq::new(self.length as nat, |i: int| self.storage@[self.slot(i)])
    }

    pub closed spec fn spec_capacity(&self) -> nat {
        self.storage@.len()
    }

    fn slot_of(&self, i: usize) -> (r: usize)
        requires
            self.wf(),
            i < self.storage@.len(),
        ensures
            r == self.slot(i as int),
            0 <= r < self.storage@.len(),
    {
        if i < self.storage.len() - self.read_at {
            self.read_at + i
        } else {
            i - (self.storage.len() - self.read_at)
        }
    }

    /// Create a ring buffer over `storage`, resetting every slot.
    pub fn new(storage: Vec<T>) -> (r: RingBuffer<T>)
        where T: Resettable,
        ensures
            r.wf(),
            r@ == Seq::<T>::empty(),
            r.spec_capacity() == storage@.len(),
    {
        let mut storage = storage;
        let n = storage.len();
        let mut i: usize = 0;
        while i < n
            invariant
                storage@.len() == n,
                i <= n,
            decreases n - i,
        {
            storage[i].reset();
            i += 1;
        }
        RingBuffer { storage, read_at: 0, length: 0 }
    }

    /// Create a ring buffer over `storage`, setting every slot to the default.
    pub fn new_default(storage: Vec<T>) -> (r: RingBuffer<T>)
        where T: Default,
        ensures
            r.wf(),
            r@ == Seq::<T>::empty(),
            r.spec_capacity() == storage@.len(),
    {
        let mut storage = storage;
        let n = storage.len();
        let mut i: usize = 0;
        while i < n
            invariant
                storage@.len() == n,
                i <= n,
            decreases n - i,
        {
            storage.set(i, T::default());
            i += 1;
        }
        RingBuffer { storage, read_at: 0, length: 0 }
    }

    /// The queue never holds more elements than it has slots.
    pub proof fn lemma_len_bound(&self)
        requires
            self.wf(),
        ensures
            self@.len() <= self.spec_capacity(),
    {
    }

    /// Whether the buffer holds no element.
    pub fn empty(&self) -> (r: bool)
        ensures
            r == (self@.len() == 0),
    {
        self.length == 0
    }

    /// Whether the buffer holds as many elements as it has slots.
    pub fn full(&self) -> (r: bool)
        requires
            self.wf(),
        ensures
            r == (self@.len() == self.spec_capacity()),
            self@.len() <= self.spec_capacity(),
    {
        self.length == self.storage.len()
    }

    /// Number of slots of the backing storage.
    pub fn capacity(&self) -> (r: usize)
        ensures
            r == self.spec_capacity(),
    {
        self.storage.len()
    }

    /// Append a slot at the back of the queue and hand it out; the caller
    /// writes the new element through it. Fails when the buffer is full.
    pub fn enqueue(&mut self) -> (r: Result<&mut T, ()>)
        requires
            old(self).wf(),
        ensures
            final(self).wf(),
            final(self).spec_capacity() == old(self).spec_capacity(),
            r is Err <==> old(self)@.len() == old(self).spec_capacity(),
            match r {
                Ok(e) => final(self)@ == old(self)@.push(*final(e)),
                Err(_) => final(self)@ == old(self)@,
            },
    {
        if self.length == self.storage.len() {
            Err(())
        } else {
            let index = self.slot_of(self.length);
            self.length += 1;
            Ok(&mut self.storage[index])
        }
    }

    /// Take the oldest element off the queue and hand out its slot. Fails
    /// when the buffer is empty.
    pub fn dequeue(&mut self) -> (r: Result<&mut T, ()>)
        requires
            old(self).wf(),
        ensures
            final(self).wf(),
            final(self).spec_capacity() == old(self).spec_capacity(),
            r is Err <==> old(self)@.len() == 0,
            match r {
                Ok(e) => *e == old(self)@[0] && final(self)@ == old(self)@.drop_first(),
                Err(_) => final(self)@ == old(self)@,
            },
    {
        if self.length == 0 {
            Err(())
        } else {
            let read_at = self.read_at;
            let cap = self.storage.len();
            self.length -= 1;
            self.read_at = if read_at + 1 == cap { 0 } else { read_at + 1 };
            Ok(&mut self.storage[read_at])
        }
    }

    /// Append `value` at the back. Fails, leaving the buffer as it was, when
    /// the buffer is full.
    pub fn push(&mut self, value: T) -> (r: Result<(), ()>)
        requires
            old(self).wf(),
        ensures
            final(self).wf(),
            final(self).spec_capacity() == old(self).spec_capacity(),
            r is Err <==> old(self)@.len() == old(self).spec_capacity(),
            r is Ok ==> final(self)@ == old(self)@.push(value),
            r is Err ==> final(self)@ == old(self)@,
    {
        match self.enqueue() {
            Ok(slot) => {
                *slot = value;
                Ok(())
            },
            Err(_) => Err(()),
        }
    }

    /// Put `value` back at the front of the queue, as the oldest element.
    /// The buffer must have room.
    pub fn push_front(&mut self, value: T)
        requires
            old(self).wf(),
            old(self)@.len() < old(self).spec_capacity(),
        ensures
            final(self).wf(),
            final(self).spec_capacity() == old(self).spec_capacity(),
            final(self)@ == seq![value] + old(self)@,
    {
        let ghost old_view = self@;
        let ghost old_read_at = self.read_at;
        let cap = self.storage.len();
        let at = if self.read_at == 0 { cap - 1 } else { self.read_at - 1 };
        self.storage.set(at, value);
        self.read_at = at;
        self.length = self.length + 1;
        assert forall|k: int| 0 <= k < self@.len() implies #[trigger] self@[k] == (seq![value] + old_view)[k] by {
            assert(self@[k] == self.storage@[self.slot(k)]);
            if k > 0 {
                assert(old_view[k - 1] == old(self).storage@[old(self).slot(k - 1)]);
            }
        }
        assert(self@ =~= seq![value] + old_view);
    }

    /// The element at logical position `i` (0 is the oldest).
    pub fn get(&self, i: usize) -> (r: &T)
        requires
            self.wf(),
            i < self@.len(),
        ensures
            *r == self@[i as int],
    {
        let s = self.slot_of(i);
        &self.storage[s]
    }

    /// Number of queued elements.
    pub fn len(&self) -> (r: usize)
        requires
            self.wf(),
        ensures
            r == self@.len(),
            self@.len() <= self.spec_capacity(),
    {
        self.length
    }

    /// Drop the `n` oldest elements.
    pub fn drop_front(&mut self, n: usize)
        requires
            old(self).wf(),
            n <= old(self)@.len(),
        ensures
            final(self).wf(),
            final(self).spec_capacity() == old(self).spec_capacity(),
            final(self)@ == old(self)@.subrange(n as int, old(self)@.len() as int),
    {
        let ghost start = self@;
        let mut k: usize = 0;
        while k < n
            invariant
                self.wf(),
                k <= n <= start.len(),
                self.spec_capacity() == old(self).spec_capacity(),
                self@ == start.subrange(k as int, start.len() as int),
            decreases n - k,
        {
            let _ = self.dequeue();
            k += 1;
            assert(self@ =~= start.subrange(k as int, start.len() as int));
        }
    }

    /// Append the first `n` elements of `data`, which must fit.
    pub fn extend_from(&mut self, data: &[T], n: usize)
        where T: Copy,
        requires
            old(self).wf(),
            n <= data@.len(),
            old(self)@.len() + n <= old(self).spec_capacity(),
        ensures
            final(self).wf(),
            final(self).spec_capacity() == old(self).spec_capacity(),
            final(self)@ == old(self)@ + data@.subrange(0, n as int),
    {
        let ghost start = self@;
        let mut j: usize = 0;
        while j < n
            invariant
                self.wf(),
                j <= n <= data@.len(),
                self.spec_capacity() == old(self).spec_capacity(),
                start.len() + n <= self.spec_capacity(),
                self@ == start + data@.subrange(0, j as int),
            decreases n - j,
        {
            let _ = self.push(data[j]);
            j += 1;
            assert(self@ =~= start + data@.subrange(0, j as int));
        }
    }

    /// Logical position of the first element equal to `value`.
    fn position(&self, value: &T) -> (r: Option<usize>)
        where T: Eq + Copy,
        requires
            self.wf(),
            vstd::laws_eq::obeys_concrete_eq::<T>(),
        ensures
            match r {
                Some(i) => i < self@.len() && self@[i as int] == *value
                    && forall|j: int| 0 <= j < i ==> self@[j] != *value,
                None => !self@.contains(*value),
            },
    {
        proof {
            reveal(vstd::laws_eq::obeys_concrete_eq);
        }
        let mut i: usize = 0;
        while i < self.length
            invariant
                self.wf(),
                vstd::laws_eq::obeys_concrete_eq::<T>(),
                i <= self.length,
                forall|j: int| 0 <= j < i ==> self@[j] != *value,
            decreases self.length - i,
        {
            let s = self.slot_of(i);
            let same = self.storage[s] == *value;
            proof {
                reveal(vstd::laws_eq::obeys_concrete_eq);
                assert(self.storage@[s as int].eq_spec(value) <==> (self.storage@[s as int] == *value));
            }
            assert(self@[i as int] == self.storage@[s as int]);
            if same {
                return Some(i);
            }
            i += 1;
        }
        None
    }

    /// Remove the first element equal to `value`, keeping the order of the
    /// others. Fails when no element is equal to `value`.
    pub fn remove(&mut self, value: &T) -> (r: Result<(), ()>)
        where T: Eq + Copy,
        requires
            old(self).wf(),
            vstd::laws_eq::obeys_concrete_eq::<T>(),
        ensures
            final(self).wf(),
            final(self).spec_capacity() == old(self).spec_capacity(),
            r is Ok <==> old(self)@.contains(*value),
            r is Ok ==> final(self)@ == old(self)@.remove(first_index_of(old(self)@, *value)),
            r is Err ==> final(self)@ == old(self)@,
    {
        let found = self.position(value);
        let i = match found {
            None => return Err(()),
            Some(i) => i,
        };
        let ghost old_view = self@;
        proof {
            let c = first_index_of(old_view, *value);
            assert(0 <= i < old_view.len() && old_view[i as int] == *value && forall|j: int|
                0 <= j < i ==> old_view[j] != *value);
            assert(0 <= c < old_view.len() && old_view[c] == *value && forall|j: int|
                0 <= j < c ==> old_view[j] != *value);
            assert(c == i);
        }
        let n = self.length;
        let mut j: usize = i;
        while j + 1 < n
            invariant
                self.wf(),
                self.length == n,
                n == old_view.len(),
                self.storage@.len() == old(self).storage@.len(),
                i <= j < n,
                forall|k: int|
                    0 <= k < n ==> #[trigger] self@[k] == if k < i {
                        old_view[k]
                    } else if k < j {
                        old_view[k + 1]
                    } else {
                        old_view[k]
                    },
            decreases n - j,
        {
            let dst = self.slot_of(j);
            let src = self.slot_of(j + 1);
            let v = self.storage[src];
            let ghost before = *self;
            assert(v == before@[j + 1]);
            self.storage.set(dst, v);
            assert forall|k: int| 0 <= k < n implies #[trigger] self@[k] == if k == j {
                v
            } else {
                before@[k]
            } by {
                assert(self@[k] == self.storage@[self.slot(k)]);
                assert(before@[k] == before.storage@[before.slot(k)]);
            }
            j += 1;
        }
        let ghost shifted = *self;
        self.length = n - 1;
        assert forall|k: int| 0 <= k < n - 1 implies #[trigger] self@[k] == old_view.remove(i as int)[k] by {
            assert(self@[k] == self.storage@[self.slot(k)]);
            assert(shifted@[k] == shifted.storage@[shifted.slot(k)]);
        }
        assert(self@ =~= old_view.remove(i as int));
        Ok(())
    }

    /// Add one slot to the backing storage, keeping the queued elements and
    /// their order. A wrapped queue has its wrapped part moved so that it
    /// stays contiguous modulo the new capacity.
    pub fn expand_storage(&mut self)
        where T: Copy + Default,
        requires
            old(self).wf(),
            old(self).spec_capacity() < usize::MAX,
        ensures
            final(self).wf(),
            final(self)@ == old(self)@,
            final(self).spec_capacity() == old(self).spec_capacity() + 1,
    {
        let ghost old_storage = self.storage@;
        let ghost old_view = self@;
        let ghost old_read_at = self.read_at;
        let c = self.storage.len();
        self.storage.push(T::default());
        if self.length > c - self.read_at {
            let end = self.length - (c - self.read_at);
            let first = self.storage[0];
            self.storage.set(c, first);
            let mut p: usize = 0;
            while p + 1 < end
                invariant
                    self.storage@.len() == c + 1,
                    1 <= end <= self.read_at < c,
                    self.read_at == old_read_at,
                    self.length == old_view.len(),
                    p < end,
                    self.storage@[c as int] == old_storage[0],
                    forall|q: int| 0 <= q < p ==> self.storage@[q] == old_storage[q + 1],
                    forall|q: int| p <= q < c ==> self.storage@[q] == old_storage[q],
                decreases end - p,
            {
                let v = self.storage[p + 1];
                self.storage.set(p, v);
                p += 1;
            }
        }
        assert forall|k: int| 0 <= k < old_view.len() implies #[trigger] self@[k] == old_view[k] by {
            assert(old_view[k] == old_storage[old_read_at + k - if old_read_at + k < c { 0int } else { c as int }]);
            assert(self@[k] == self.storage@[self.slot(k)]);
        }
        assert(self@ =~= old_view);
    }
}

} // verus!
