//! Bounded FIFO that forgets its oldest items.
use vstd::prelude::*;
use std::collections::VecDeque;

verus! {

/// `s` after pushing `x` into a ring of capacity `cap`: the oldest item leaves first
/// when the ring is full.
pub open spec fn ring_pushed<T>(s: Seq<T>, cap: usize, x: T) -> Seq<T> {
    if s.len() >= cap && s.len() > 0 {
        s.drop_first().push(x)
    } else {
        s.push(x)
    }
}

/// Most items a ring of capacity `cap` holds (a ring of capacity 0 still keeps the
/// last item pushed).
pub open spec fn ring_bound(cap: usize) -> nat {
    if cap == 0 {
        1
    } else {
        cap as nat
    }
}

/// Fixed-capacity buffer; pushing into a full one drops the oldest item.
pub struct RingBuffer<T> {
    buffer: VecDeque<T>,
    capacity: usize,
}

impl<T> View for RingBuffer<T> {
    type V = Seq<T>;

    closed spec fn view(&self) -> Seq<T> {
        self.buffer@
    }
}

impl<T> RingBuffer<T> {
    /// The capacity the ring was made with.
    pub closed spec fn cap(&self) -> usize {
        self.capacity
    }

    /// A ring holds at most its bound (see [`ring_bound`]).
    #[verifier::type_invariant]
    spec fn within_bound(self) -> bool {
        self.buffer@.len() <= ring_bound(self.capacity)
    }
}

impl<T: Clone> RingBuffer<T> {
    pub fn new(capacity: usize) -> (r: Self)
        ensures
            r@ == Seq::<T>::empty(),
            r.cap() == capacity,
    {
        RingBuffer { buffer: VecDeque::with_capacity(capacity), capacity }
    }

    /// Appends `item`, dropping the oldest item when the ring is full; the ring
    /// stays within its bound.
    pub fn push(&mut self, item: T)
        ensures
            old(self)@.len() <= ring_bound(old(self).cap()),
            final(self)@ == ring_pushed(old(self)@, old(self).cap(), item),
            final(self).cap() == old(self).cap(),
            final(self)@.len() <= ring_bound(final(self).cap()),
    {
        proof {
            use_type_invariant(&*self);
        }
        let mut b: VecDeque<T> = VecDeque::new();
        std::mem::swap(&mut b, &mut self.buffer);
        if b.len() >= self.capacity {
            b.pop_front();
        }
        b.push_back(item);
        self.buffer = b;
        proof {
            if old(self)@.len() >= old(self).cap() && old(self)@.len() > 0 {
                assert(old(self)@.subrange(1, old(self)@.len() as int) =~= old(self)@.drop_first());
            }
        }
    }

    /// Item `index` counted from the oldest.
    pub fn get(&self, index: usize) -> (r: Option<&T>)
        ensures
            r == (if index < self@.len() { Some(&self@[index as int]) } else { None }),
    {
        if index < self.buffer.len() {
            Some(&self.buffer[index])
        } else {
            None
        }
    }

    pub fn len(&self) -> (n: usize)
        ensures
            n == self@.len(),
            n <= ring_bound(self.cap()),
    {
        proof {
            use_type_invariant(self);
        }
        self.buffer.len()
    }

    pub fn is_empty(&self) -> (b: bool)
        ensures
            b == (self@.len() == 0),
    {
        self.buffer.len() == 0
    }

    pub fn capacity(&self) -> (c: usize)
        ensures
            c == self.cap(),
    {
        self.capacity
    }

    pub fn clear(&mut self)
        ensures
            final(self)@ == Seq::<T>::empty(),
            final(self).cap() == old(self).cap(),
    {
        self.buffer = VecDeque::new();
    }

    /// The items, oldest first.
    pub fn iter(&self) -> (r: Vec<&T>)
        ensures
            r@.len() == self@.len(),
            forall|i: int| 0 <= i < r@.len() ==> *(#[trigger] r@[i]) == self@[i],
    {
        let mut r: Vec<&T> = Vec::new();
        let mut i: usize = 0;
        while i < self.buffer.len()
            invariant
                i <= self@.len(),
                r@.len() == i,
                forall|k: int| 0 <= k < i ==> *(#[trigger] r@[k]) == self@[k],
            decreases self@.len() - i,
        {
            r.push(&self.buffer[i]);
            i = i + 1;
        }
        r
    }

    /// Removes and returns the newest `count` items (all of them when fewer), oldest first.
    pub fn drain_from_back(&mut self, count: usize) -> (r: Vec<T>)
        ensures
            ({
                let k: int = if count < old(self)@.len() { count as int } else { old(self)@.len() as int };
                &&& r@ == old(self)@.subrange(old(self)@.len() - k, old(self)@.len() as int)
                &&& final(self)@ == old(self)@.subrange(0, old(self)@.len() - k)
            }),
            final(self).cap() == old(self).cap(),
    {
        proof {
            use_type_invariant(&*self);
        }
        let len = self.buffer.len();
        let count = if count < len { count } else { len };
        let mut b: VecDeque<T> = VecDeque::new();
        std::mem::swap(&mut b, &mut self.buffer);
        let mut tail = b.split_off(len - count);
        self.buffer = b;
        let ghost t0 = tail@;
        let mut r: Vec<T> = Vec::new();
        while tail.len() > 0
            invariant
                r@ + tail@ == t0,
            decreases tail@.len(),
        {
            let ghost before = tail@;
            match tail.pop_front() {
                Some(x) => {
                    r.push(x);
                    assert(r@ + tail@ =~= t0);
                },
                None => {},
            }
        }
        assert(r@ =~= t0);
        r
    }

    /// Removes and returns the oldest `count` items (all of them when fewer), oldest first.
    pub fn drain_from_front(&mut self, count: usize) -> (r: Vec<T>)
        ensures
            ({
                let k: int = if count < old(self)@.len() { count as int } else { old(self)@.len() as int };
                &&& r@ == old(self)@.subrange(0, k)
                &&& final(self)@ == old(self)@.subrange(k, old(self)@.len() as int)
            }),
            final(self).cap() == old(self).cap(),
    {
        proof {
            use_type_invariant(&*self);
        }
        let len = self.buffer.len();
        let count = if count < len { count } else { len };
        let mut b: VecDeque<T> = VecDeque::new();
        std::mem::swap(&mut b, &mut self.buffer);
        let mut r: Vec<T> = Vec::new();
        let mut i: usize = 0;
        while i < count
            invariant
                i <= count <= len,
                len == old(self)@.len(),
                r@ == old(self)@.subrange(0, i as int),
                b@ == old(self)@.subrange(i as int, len as int),
            decreases count - i,
        {
            match b.pop_front() {
                Some(x) => {
                    r.push(x);
                },
                None => {},
            }
            i = i + 1;
            assert(r@ =~= old(self)@.subrange(0, i as int));
            assert(b@ =~= old(self)@.subrange(i as int, len as int));
        }
        self.buffer = b;
        r
    }
}

/// Law: a ring never holds more than its capacity (one item for capacity 0), and the
/// item pushed last is the newest one.
pub proof fn law_ring_bounded<T>(s: Seq<T>, cap: usize, x: T)
    requires
        s.len() <= ring_bound(cap),
    ensures
        ring_pushed(s, cap, x).len() <= ring_bound(cap),
        ring_pushed(s, cap, x).last() == x,
{
}

} // verus!
