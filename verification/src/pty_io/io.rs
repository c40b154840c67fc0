//! Bounded buffering of the bytes read from the child process.
use vstd::prelude::*;
use std::collections::VecDeque;

verus! {

/// A bounded byte queue between the pty reader and the parser.
pub struct AsyncIOHandler {
    buffer: VecDeque<u8>,
    max_buffer_size: usize,
}

impl View for AsyncIOHandler {
    type V = Seq<u8>;

    closed spec fn view(&self) -> Seq<u8> {
        self.buffer@
    }
}

impl AsyncIOHandler {
    pub closed spec fn limit(&self) -> usize {
        self.max_buffer_size
    }

    pub fn new(max_buffer_size: usize) -> (h: Self)
        ensures
            h@ == Seq::<u8>::empty(),
            h.limit() == max_buffer_size,
    {
        AsyncIOHandler { buffer: VecDeque::with_capacity(max_buffer_size), max_buffer_size }
    }

    /// Appends a chunk that was read, first dropping the oldest bytes so that the
    /// buffer stays within its limit.
    pub fn absorb(&mut self, chunk: &[u8])
        requires
            old(self)@.len() + chunk@.len() <= usize::MAX,
            chunk@.len() <= old(self).limit(),
        ensures
            final(self).limit() == old(self).limit(),
            final(self)@ == (if old(self)@.len() + chunk@.len() > old(self).limit() {
                old(self)@.skip(old(self)@.len() + chunk@.len() - old(self).limit())
            } else {
                old(self)@
            }) + chunk@,
    {
        let len = self.buffer.len();
        if len + chunk.len() > self.max_buffer_size {
            let overflow = (len + chunk.len()) - self.max_buffer_size;
            let mut i: usize = 0;
            while i < overflow
                invariant
                    i <= overflow <= len,
                    len == old(self)@.len(),
                    self.max_buffer_size == old(self).max_buffer_size,
                    self@ == old(self)@.skip(i as int),
                decreases overflow - i,
            {
                self.buffer.pop_front();
                i = i + 1;
                assert(self@ =~= old(self)@.skip(i as int));
            }
        }
        let ghost mid = self@;
        let mut j: usize = 0;
        while j < chunk.len()
            invariant
                j <= chunk@.len(),
                self.max_buffer_size == old(self).max_buffer_size,
                self@ == mid + chunk@.take(j as int),
            decreases chunk@.len() - j,
        {
            self.buffer.push_back(chunk[j]);
            j = j + 1;
            assert(self@ =~= mid + chunk@.take(j as int));
        }
        assert(chunk@.take(j as int) =~= chunk@);
    }

    /// The buffered bytes, oldest first.
    pub fn contents(&self) -> (v: Vec<u8>)
        ensures
            v@ == self@,
    {
        let mut v: Vec<u8> = Vec::new();
        let mut i: usize = 0;
        while i < self.buffer.len()
            invariant
                i <= self@.len(),
                v@ == self@.take(i as int),
            decreases self@.len() - i,
        {
            v.push(self.buffer[i]);
            i = i + 1;
            assert(v@ =~= self@.take(i as int));
        }
        assert(self@.take(i as int) =~= self@);
        v
    }

    /// Moves up to `max_bytes` of the oldest bytes to the end of `target`.
    pub fn flush_to(&mut self, target: &mut Vec<u8>, max_bytes: usize)
        ensures
            ({
                let k: int = if old(self)@.len() < max_bytes { old(self)@.len() as int } else { max_bytes as int };
                &&& final(target)@ == old(target)@ + old(self)@.take(k)
                &&& final(self)@ == old(self)@.skip(k)
            }),
            final(self).limit() == old(self).limit(),
    {
        let count = if self.buffer.len() < max_bytes { self.buffer.len() } else { max_bytes };
        let mut i: usize = 0;
        while i < count
            invariant
                i <= count <= old(self)@.len(),
                self.max_buffer_size == old(self).max_buffer_size,
                self@ == old(self)@.skip(i as int),
                target@ == old(target)@ + old(self)@.take(i as int),
            decreases count - i,
        {
            match self.buffer.pop_front() {
                Some(b) => target.push(b),
                None => {},
            }
            i = i + 1;
            assert(self@ =~= old(self)@.skip(i as int));
            assert(target@ =~= old(target)@ + old(self)@.take(i as int));
        }
    }

    pub fn buffer_len(&self) -> (n: usize)
        ensures
            n == self@.len(),
    {
        self.buffer.len()
    }

    pub fn clear(&mut self)
        ensures
            final(self)@ == Seq::<u8>::empty(),
            final(self).limit() == old(self).limit(),
    {
        self.buffer.clear();
    }
}

} // verus!
