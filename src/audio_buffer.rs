use vstd::prelude::*;

use crate::error::StreamError;

verus! {

/// A fixed-capacity circular buffer of samples.
///
/// Samples leave in the order in which they were written. The storage is one
/// allocation of exactly `capacity` slots; `read_ptr` and `write_ptr` are the
/// consumer's and the producer's cursors, and `filled` tells a full buffer
/// from an empty one when the two cursors meet.
pub struct AudioBuffer<T> {
    buffer: Vec<T>,
    buffer_size: usize,
    read_ptr: usize,
    write_ptr: usize,
    filled: usize,
}

/// The storage slot `i` slots past the start, for `i` below twice the
/// capacity: positions past the end continue at the front.
pub open spec fn wrap(i: int, capacity: int) -> int {
    if i < capacity {
        i
    } else {
        i - capacity
    }
}

/// How many samples a read of `requested` samples hands out when `filled`
/// samples are waiting: all it asks for, or all there is.
pub open spec fn read_amount(requested: int, filled: int) -> int {
    if requested <= filled {
        requested
    } else {
        filled
    }
}

/// The `n` samples of circular storage `slots` that start at slot `start`.
pub open spec fn ring_window<T>(slots: Seq<T>, start: int, n: nat) -> Seq<T> {
    Seq::new(n, |i: int| slots[wrap(start + i, slots.len() as int)])
}

/// Circular storage `slots` after `block` has been copied in from slot
/// `start` on: first up to the end of the storage, then from the front.
pub open spec fn ring_store<T>(slots: Seq<T>, start: int, block: Seq<T>) -> Seq<T> {
    Seq::new(
        slots.len(),
        |p: int|
            if start <= p < start + block.len() {
                block[p - start]
            } else if p < start + block.len() - slots.len() {
                block[p + slots.len() - start]
            } else {
                slots[p]
            },
    )
}

impl<T> View for AudioBuffer<T> {
    type V = Seq<T>;

    /// The samples that are waiting to be read, oldest first.
    closed spec fn view(&self) -> Seq<T> {
        ring_window(self.buffer@, self.read_ptr as int, self.filled as nat)
    }
}

impl<T> AudioBuffer<T> {
    /// The well-formedness of a buffer: the cursors lie inside the storage and
    /// the write cursor sits `filled` slots after the read cursor.
    pub closed spec fn wf(&self) -> bool {
        &&& self.buffer_size > 0
        &&& self.buffer@.len() == self.buffer_size
        &&& self.read_ptr < self.buffer_size
        &&& self.write_ptr < self.buffer_size
        &&& self.filled <= self.buffer_size
        &&& self.write_ptr == wrap(self.read_ptr + self.filled, self.buffer_size as int)
    }

    /// The number of samples the buffer holds when full.
    pub closed spec fn capacity(&self) -> nat {
        self.buffer_size as nat
    }

    /// The storage, slot by slot.
    pub closed spec fn slots(&self) -> Seq<T> {
        self.buffer@
    }

    /// The slot that the next read starts at.
    pub closed spec fn read_cursor(&self) -> int {
        self.read_ptr as int
    }

    /// The slot that the next write starts at.
    pub closed spec fn write_cursor(&self) -> int {
        self.write_ptr as int
    }

    /// A well-formed buffer holds at most its capacity, its storage has one
    /// slot per sample of capacity, and its contents are the window of the
    /// storage from the read cursor on.
    pub proof fn lemma_wf_facts(&self)
        requires
            self.wf(),
        ensures
            self@.len() <= self.capacity(),
            self.slots().len() == self.capacity(),
            0 <= self.read_cursor() < self.capacity(),
            0 <= self.write_cursor() < self.capacity(),
            self.write_cursor() == wrap(self.read_cursor() + self@.len(), self.capacity() as int),
            self@ == ring_window(self.slots(), self.read_cursor(), self@.len()),
    {
    }
}

impl<T: Copy + Default> AudioBuffer<T> {
    /// A buffer of `size` slots, empty. A capacity of zero is refused.
    pub fn new(size: usize) -> (r: Result<AudioBuffer<T>, StreamError>)
        ensures
            size == 0 ==> r == Err::<AudioBuffer<T>, StreamError>(StreamError::Construction),
            size > 0 ==> r is Ok,
            r matches Ok(b) ==> b.wf() && b.capacity() == size && b@ == Seq::<T>::empty(),
    {
        if size == 0 {
            return Err(StreamError::Construction);
        }
        let mut buffer: Vec<T> = Vec::with_capacity(size);
        let mut i: usize = 0;
        while i < size
            invariant
                i <= size,
                buffer@.len() == i,
            decreases size - i,
        {
            buffer.push(T::default());
            i += 1;
        }
        let b = AudioBuffer { buffer, buffer_size: size, read_ptr: 0, write_ptr: 0, filled: 0 };
        assert(b@ =~= Seq::<T>::empty());
        Ok(b)
    }

    /// The number of samples ready to be read.
    pub fn size_filled(&self) -> (r: usize)
        requires
            self.wf(),
        ensures
            r == self@.len(),
    {
        self.filled
    }

    /// The number of samples that can be written before the buffer is full.
    pub fn size_free(&self) -> (r: usize)
        requires
            self.wf(),
        ensures
            r == self.capacity() - self@.len(),
            r + self@.len() == self.capacity(),
    {
        self.buffer_size - self.filled
    }

    /// Appends the whole of `block` behind the waiting samples, or nothing.
    ///
    /// The copy starts at the write cursor and continues at the front of the
    /// storage when it runs past the end. A block longer than the capacity is
    /// refused as oversized, one longer than the free space as an overflow;
    /// either way the buffer is left as it was.
    pub fn write(&mut self, block: &[T]) -> (r: Result<(), StreamError>)
        requires
            old(self).wf(),
        ensures
            final(self).wf(),
            final(self).capacity() == old(self).capacity(),
            block@.len() > old(self).capacity() ==> r == Err::<(), StreamError>(StreamError::OversizedRequest),
            block@.len() <= old(self).capacity() && old(self)@.len() + block@.len() > old(self).capacity()
                ==> r == Err::<(), StreamError>(StreamError::Overflow),
            old(self)@.len() + block@.len() <= old(self).capacity() ==> r == Ok::<(), StreamError>(()),
            r is Ok ==> final(self)@ == old(self)@ + block@,
            r is Ok ==> final(self).slots() == ring_store(old(self).slots(), old(self).write_cursor(), block@),
            r is Ok ==> final(self).write_cursor() == wrap(
                old(self).write_cursor() + block@.len(),
                old(self).capacity() as int,
            ),
            r is Ok ==> final(self).read_cursor() == old(self).read_cursor(),
            r is Err ==> *final(self) == *old(self),
    {
        let len = block.len();
        if len > self.buffer_size {
            return Err(StreamError::OversizedRequest);
        }
        if len > self.buffer_size - self.filled {
            return Err(StreamError::Overflow);
        }
        let cap = self.buffer_size;
        let w = self.write_ptr;
        let ghost old_buf = self.buffer@;
        let ghost old_view = self@;
        let ghost rp = self.read_ptr;
        let ghost f = self.filled;
        // The part that fits before the end of the storage, then the rest at the front.
        let first = if len <= cap - w { len } else { cap - w };
        let second = len - first;
        let mut i: usize = 0;
        while i < first
            invariant
                first <= len <= cap,
                w + first <= cap,
                self.buffer_size == cap,
                self.write_ptr == w,
                self.read_ptr == rp,
                self.filled == f,
                old_buf.len() == cap,
                rp < cap,
                f + len <= cap,
                w == wrap(rp + f, cap as int),
                i <= first,
                len == block@.len(),
                self.buffer@.len() == cap,
                forall|p: int|
                    0 <= p < cap ==> #[trigger] self.buffer@[p] == if w <= p < w + i {
                        block@[p - w]
                    } else {
                        old_buf[p]
                    },
            decreases first - i,
        {
            self.buffer[w + i] = block[i];
            i += 1;
        }
        let mut j: usize = 0;
        while j < second
            invariant
                first + second == len,
                len <= cap,
                w + first <= cap,
                second > 0 ==> w + first == cap,
                self.buffer_size == cap,
                self.write_ptr == w,
                self.read_ptr == rp,
                self.filled == f,
                old_buf.len() == cap,
                rp < cap,
                f + len <= cap,
                w == wrap(rp + f, cap as int),
                j <= second,
                len == block@.len(),
                self.buffer@.len() == cap,
                forall|p: int|
                    0 <= p < cap ==> #[trigger] self.buffer@[p] == if p < j {
                        block@[first + p]
                    } else if w <= p < w + first {
                        block@[p - w]
                    } else {
                        old_buf[p]
                    },
            decreases second - j,
        {
            self.buffer[j] = block[first + j];
            j += 1;
        }
        self.write_ptr = if len < cap - w { w + len } else { second };
        self.filled = self.filled + len;
        assert forall|k: int| 0 <= k < f + len implies #[trigger] self@[k] == (old_view + block@)[k] by {
            let slot = wrap(rp + k, cap as int);
            assert(0 <= slot < cap);
            if k < f {
                assert(!(w <= slot < w + first) && !(slot < second));
            } else {
                assert(slot == wrap(w + (k - f), cap as int));
            }
        }
        assert(self@ =~= old_view + block@);
        assert(self.buffer@ =~= ring_store(old_buf, w as int, block@));
        Ok(())
    }

    /// Takes up to `size` samples from the front of the buffer, oldest first.
    ///
    /// When fewer than `size` are waiting, all of them are handed out and the
    /// buffer is left empty: the shorter result is the underrun. A request
    /// larger than the capacity is refused and changes nothing.
    pub fn read(&mut self, size: usize) -> (r: Result<Vec<T>, StreamError>)
        requires
            old(self).wf(),
        ensures
            final(self).wf(),
            final(self).capacity() == old(self).capacity(),
            size > old(self).capacity() ==> r == Err::<Vec<T>, StreamError>(StreamError::OversizedRequest),
            size <= old(self).capacity() ==> r is Ok,
            r is Err ==> *final(self) == *old(self),
            r matches Ok(v) ==> {
                let n = read_amount(size as int, old(self)@.len() as int);
                &&& v@ == old(self)@.take(n)
                &&& final(self)@ == old(self)@.skip(n)
                &&& final(self).slots() == old(self).slots()
                &&& final(self).write_cursor() == old(self).write_cursor()
            },
            r matches Ok(v) ==> (size > old(self)@.len() ==> v@ == old(self)@ && final(self)@.len() == 0),
    {
        if size > self.buffer_size {
            return Err(StreamError::OversizedRequest);
        }
        let cap = self.buffer_size;
        let rp = self.read_ptr;
        let n = if size <= self.filled { size } else { self.filled };
        let ghost old_view = self@;
        // The part up to the end of the storage, then the rest from the front.
        let first = if n <= cap - rp { n } else { cap - rp };
        let second = n - first;
        let mut out: Vec<T> = Vec::with_capacity(n);
        let mut i: usize = 0;
        while i < first
            invariant
                self.wf(),
                self@ == old_view,
                self.read_ptr == rp,
                self.buffer_size == cap,
                n <= self.filled,
                first <= n,
                rp + first <= cap,
                i <= first,
                out@ == old_view.take(i as int),
            decreases first - i,
        {
            out.push(self.buffer[rp + i]);
            i += 1;
            assert(out@ =~= old_view.take(i as int));
        }
        let mut j: usize = 0;
        while j < second
            invariant
                self.wf(),
                self@ == old_view,
                self.read_ptr == rp,
                self.buffer_size == cap,
                n <= self.filled,
                first + second == n,
                second > 0 ==> rp + first == cap,
                j <= second,
                out@ == old_view.take(first + j),
            decreases second - j,
        {
            out.push(self.buffer[j]);
            j += 1;
            assert(out@ =~= old_view.take(first + j));
        }
        self.read_ptr = if n < cap - rp { rp + n } else { second };
        self.filled = self.filled - n;
        assert(self@ =~= old_view.skip(n as int));
        Ok(out)
    }
}

/// One call on a buffer, as far as the samples go.
pub enum Transfer<T> {
    /// A write of this block.
    Write(Seq<T>),
    /// A read of up to this many samples.
    Read(nat),
}

/// A transfer on a buffer of `capacity` slots that holds `pending`, as
/// `write` and `read` carry it out: the samples left waiting, and those
/// handed out.
pub open spec fn transfer<T>(pending: Seq<T>, op: Transfer<T>, capacity: nat) -> (Seq<T>, Seq<T>) {
    match op {
        Transfer::Write(block) => {
            if pending.len() + block.len() <= capacity {
                (pending + block, Seq::empty())
            } else {
                (pending, Seq::empty())
            }
        },
        Transfer::Read(n) => {
            if n > capacity {
                (pending, Seq::empty())
            } else {
                let k = read_amount(n as int, pending.len() as int);
                (pending.skip(k), pending.take(k))
            }
        },
    }
}

/// The transfers `ops`, one after the other, on a buffer of `capacity` slots
/// that holds `pending`: the samples left waiting, and all samples handed out.
pub open spec fn replay<T>(pending: Seq<T>, ops: Seq<Transfer<T>>, capacity: nat) -> (Seq<T>, Seq<T>)
    decreases ops.len(),
{
    if ops.len() == 0 {
        (pending, Seq::empty())
    } else {
        let (waiting, out) = replay(pending, ops.drop_last(), capacity);
        let (left, handed) = transfer(waiting, ops.last(), capacity);
        (left, out + handed)
    }
}

/// The blocks that `ops` write, joined in order.
pub open spec fn written<T>(ops: Seq<Transfer<T>>) -> Seq<T>
    decreases ops.len(),
{
    if ops.len() == 0 {
        Seq::empty()
    } else {
        written(ops.drop_last()) + match ops.last() {
            Transfer::Write(block) => block,
            Transfer::Read(_) => Seq::empty(),
        }
    }
}

/// Every write among `ops` finds room for its whole block when it comes.
pub open spec fn writes_fit<T>(pending: Seq<T>, ops: Seq<Transfer<T>>, capacity: nat) -> bool {
    forall|i: int|
        0 <= i < ops.len() ==> match #[trigger] ops[i] {
            Transfer::Write(block) => replay(pending, ops.take(i), capacity).0.len() + block.len() <= capacity,
            Transfer::Read(_) => true,
        }
}

/// First in, first out: as long as no write outgrows the free space, the
/// samples handed out by any run of writes and reads, followed by those still
/// waiting, are exactly the samples that were waiting before and then those
/// written, in the order they were written. So a read after the write of a
/// block gets back that very block once the samples ahead of it are gone.
pub proof fn lemma_fifo<T>(pending: Seq<T>, ops: Seq<Transfer<T>>, capacity: nat)
    requires
        writes_fit(pending, ops, capacity),
    ensures
        replay(pending, ops, capacity).1 + replay(pending, ops, capacity).0 == pending + written(ops),
    decreases ops.len(),
{
    if ops.len() > 0 {
        let prefix = ops.drop_last();
        assert forall|i: int| 0 <= i < prefix.len() implies match #[trigger] prefix[i] {
            Transfer::Write(block) => replay(pending, prefix.take(i), capacity).0.len() + block.len() <= capacity,
            Transfer::Read(_) => true,
        } by {
            assert(prefix.take(i) =~= ops.take(i));
            assert(prefix[i] == ops[i]);
        }
        lemma_fifo(pending, prefix, capacity);
        let (waiting, out) = replay(pending, prefix, capacity);
        let last = ops.last();
        assert(ops.take(ops.len() - 1) =~= prefix);
        assert(ops[ops.len() - 1] == last);
        match last {
            Transfer::Write(block) => {
                assert(out + (waiting + block) + Seq::empty() =~= (out + waiting) + block);
                assert(out + Seq::<T>::empty() + (waiting + block) =~= (out + waiting) + block);
                assert(pending + (written(prefix) + block) =~= (pending + written(prefix)) + block);
            },
            Transfer::Read(n) => {
                if n > capacity {
                    assert(out + Seq::<T>::empty() =~= out);
                } else {
                    let k = read_amount(n as int, waiting.len() as int);
                    assert((out + waiting.take(k)) + waiting.skip(k) =~= out + waiting);
                }
                assert(written(prefix) + Seq::<T>::empty() =~= written(prefix));
            },
        }
    }
}

/// A write that runs past the end of the storage is as good as one that
/// starts at the front: read from its cursor, either storage holds exactly
/// the block, in order, and a write from the front lays the block out as is.
pub proof fn lemma_wraparound_write<T>(slots: Seq<T>, cursor: int, block: Seq<T>, front: Seq<T>)
    requires
        0 <= cursor < slots.len(),
        block.len() <= slots.len(),
        front.len() == slots.len(),
    ensures
        ring_window(ring_store(slots, cursor, block), cursor, block.len()) == block,
        ring_window(ring_store(front, 0, block), 0, block.len()) == block,
        ring_store(front, 0, block) == block + front.skip(block.len() as int),
{
    assert(ring_window(ring_store(slots, cursor, block), cursor, block.len()) =~= block);
    assert(ring_window(ring_store(front, 0, block), 0, block.len()) =~= block);
    assert(ring_store(front, 0, block) =~= block + front.skip(block.len() as int));
}

} // verus!
