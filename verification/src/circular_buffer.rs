use vstd::prelude::*;

verus! {

/// Fixed-capacity ring buffer of bytes.
///
/// Bytes are appended by `extend` and removed in FIFO order by `take`.
/// The buffer never grows: `extend` silently drops bytes that do not fit,
/// so a full buffer cannot be overrun and never blocks a writer.
pub struct CircularBuffer {
    buffer: Vec<u8>,
    read_pos: usize,
    write_pos: usize,
    len: usize,
    capacity: usize,
}

impl View for CircularBuffer {
    type V = Seq<u8>;

    /// The buffered bytes, oldest first.
    closed spec fn view(&self) -> Seq<u8> {
        Seq::new(self.len as nat, |i: int| self.buffer@[self.ring_index(i)])
    }
}

impl CircularBuffer {
    /// Position in the backing array of the logical element `i`.
    /// Meaningful for `0 <= i <= capacity`: the ring wraps at most once.
    closed spec fn ring_index(&self, i: int) -> int {
        if self.read_pos + i < self.capacity {
            self.read_pos + i
        } else {
            self.read_pos + i - self.capacity
        }
    }

    /// Internal consistency of the ring representation.
    pub closed spec fn wf(&self) -> bool {
        &&& self.buffer@.len() == self.capacity
        &&& self.len <= self.capacity
        &&& if self.capacity == 0 {
            self.read_pos == 0
        } else {
            self.read_pos < self.capacity
        }
        &&& self.write_pos == self.ring_index(self.len as int)
    }

    /// Total capacity in bytes, fixed at construction.
    pub closed spec fn cap(&self) -> nat {
        self.capacity as nat
    }

    /// The number of buffered bytes never exceeds the capacity.
    pub proof fn lemma_len_le_cap(&self)
        requires
            self.wf(),
        ensures
            self@.len() <= self.cap(),
    {
    }

    pub fn new(capacity: usize) -> (buf: CircularBuffer)
        ensures
            buf.wf(),
            buf.cap() == capacity,
            buf@ == Seq::<u8>::empty(),
    {
        let buf = CircularBuffer {
            buffer: vec![0u8; capacity],
            read_pos: 0,
            write_pos: 0,
            len: 0,
            capacity,
        };
        proof {
            assert(buf@ =~= Seq::<u8>::empty());
        }
        buf
    }

    pub fn len(&self) -> (n: usize)
        requires
            self.wf(),
        ensures
            n == self@.len(),
    {
        self.len
    }

    pub fn available_space(&self) -> (n: usize)
        requires
            self.wf(),
        ensures
            n == self.cap() - self@.len(),
    {
        self.capacity - self.len
    }

    /// Remove and return the oldest `min(count, len)` bytes, in FIFO order.
    pub fn take(&mut self, count: usize) -> (taken: Vec<u8>)
        requires
            old(self).wf(),
        ensures
            final(self).wf(),
            final(self).cap() == old(self).cap(),
            taken@ == old(self)@.take(vstd::math::min(count as int, old(self)@.len() as int)),
            final(self)@ == old(self)@.skip(taken@.len() as int),
    {
        let to_take = if count < self.len {
            count
        } else {
            self.len
        };
        let mut taken: Vec<u8> = Vec::with_capacity(to_take);
        if to_take == 0 {
            proof {
                assert(taken@ =~= old(self)@.take(0));
                assert(self@ =~= old(self)@.skip(0));
            }
            return taken;
        }
        let ghost orig = *self;
        let mut pos = self.read_pos;
        let mut i: usize = 0;
        while i < to_take
            invariant
                *self == orig,
                orig.wf(),
                0 < to_take <= orig.len,
                i <= to_take,
                pos == orig.ring_index(i as int),
                0 <= pos < orig.capacity,
                taken@ == orig@.take(i as int),
            decreases to_take - i,
        {
            let b = self.buffer[pos];
            taken.push(b);
            pos = pos + 1;
            if pos == self.capacity {
                pos = 0;
            }
            i = i + 1;
            proof {
                assert(taken@ =~= orig@.take(i as int));
            }
        }
        self.read_pos = pos;
        self.len = self.len - to_take;
        proof {
            assert(self@ =~= orig@.skip(to_take as int));
        }
        taken
    }

    /// Append `min(data.len(), available_space)` bytes; the rest is dropped.
    pub fn extend(&mut self, data: &[u8])
        requires
            old(self).wf(),
        ensures
            final(self).wf(),
            final(self).cap() == old(self).cap(),
            final(self)@ == old(self)@ + data@.take(
                vstd::math::min(data@.len() as int, old(self).cap() - old(self)@.len()),
            ),
    {
        let avail = self.capacity - self.len;
        let to_add = if data.len() < avail {
            data.len()
        } else {
            avail
        };
        if to_add == 0 {
            proof {
                assert(self@ =~= old(self)@ + data@.take(0));
            }
            return;
        }
        let ghost orig = *self;
        let mut pos = self.write_pos;
        let mut i: usize = 0;
        while i < to_add
            invariant
                self.buffer@.len() == orig.buffer@.len(),
                self.read_pos == orig.read_pos,
                self.write_pos == orig.write_pos,
                self.len == orig.len,
                self.capacity == orig.capacity,
                orig.wf(),
                0 < to_add <= orig.capacity - orig.len,
                to_add <= data@.len(),
                i <= to_add,
                pos == orig.ring_index(orig.len + i),
                0 <= pos < orig.capacity,
                forall|k: int| 0 <= k < orig.len ==> self.buffer@[orig.ring_index(k)]
                    == orig.buffer@[orig.ring_index(k)],
                forall|j: int| 0 <= j < i ==> self.buffer@[orig.ring_index(orig.len + j)]
                    == data@[j],
            decreases to_add - i,
        {
            self.buffer[pos] = data[i];
            pos = pos + 1;
            if pos == self.capacity {
                pos = 0;
            }
            i = i + 1;
        }
        self.write_pos = pos;
        self.len = self.len + to_add;
        proof {
            assert(self@ =~= orig@ + data@.take(to_add as int));
        }
    }

    /// Append from an owned vector; like `extend`, overflow is dropped.
    pub fn extend_from_vec(&mut self, data: Vec<u8>)
        requires
            old(self).wf(),
        ensures
            final(self).wf(),
            final(self).cap() == old(self).cap(),
            final(self)@ == old(self)@ + data@.take(
                vstd::math::min(data@.len() as int, old(self).cap() - old(self)@.len()),
            ),
    {
        self.extend(data.as_slice());
    }
}

} // verus!
