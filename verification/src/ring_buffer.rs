//! A bounded first-in first-out ring buffer of samples. One slot is always
//! kept free, so a buffer of capacity `c` holds at most `c - 1` items.
use vstd::prelude::*;

verus! {

/// Physical slot of the `k`-th item after position `start` in a ring of
/// `cap` slots (for `start < cap` and `k < cap`).
pub open spec fn slot(start: int, k: int, cap: int) -> int {
    if start + k < cap {
        start + k
    } else {
        start + k - cap
    }
}

/// Items present between a read and a write position.
pub open spec fn spec_available(read: int, write: int, cap: int) -> int {
    if write >= read {
        write - read
    } else {
        cap - read + write
    }
}

/// What a write of `data` into a buffer holding `items`, of capacity `cap`,
/// leaves in the buffer and how many items it takes.
pub open spec fn spec_write_count<T>(items: Seq<T>, cap: nat, data: Seq<T>) -> nat {
    let free = cap - 1 - items.len();
    if data.len() <= free {
        data.len()
    } else {
        free as nat
    }
}

/// The items after a write of `data`: as many as fit are appended.
pub open spec fn spec_after_write<T>(items: Seq<T>, cap: nat, data: Seq<T>) -> Seq<T> {
    items + data.subrange(0, spec_write_count(items, cap, data) as int)
}

/// How many items a read into an output of length `out_len` takes.
pub open spec fn spec_read_count<T>(items: Seq<T>, out_len: nat) -> nat {
    if out_len <= items.len() {
        out_len
    } else {
        items.len()
    }
}

/// The items after a read into an output of length `out_len`.
pub open spec fn spec_after_read<T>(items: Seq<T>, out_len: nat) -> Seq<T> {
    items.subrange(spec_read_count(items, out_len) as int, items.len() as int)
}

/// A bounded FIFO of `T` items over a fixed array of slots.
pub struct RingBuffer<T> {
    buffer: Vec<T>,
    capacity: usize,
    read_pos: usize,
    write_pos: usize,
}

impl<T> RingBuffer<T> {
    /// Slot array matches the capacity and both positions lie inside it.
    #[verifier::type_invariant]
    spec fn inv(&self) -> bool {
        &&& self.buffer@.len() == self.capacity
        &&& if self.capacity > 0 {
            self.read_pos < self.capacity && self.write_pos < self.capacity
        } else {
            self.read_pos == 0 && self.write_pos == 0
        }
    }

    /// Number of slots, one of which always stays free.
    pub closed spec fn spec_capacity(&self) -> nat {
        self.capacity as nat
    }
}

impl<T> View for RingBuffer<T> {
    type V = Seq<T>;

    /// The items in the buffer, oldest first.
    closed spec fn view(&self) -> Seq<T> {
        Seq::new(
            spec_available(self.read_pos as int, self.write_pos as int, self.capacity as int) as nat,
            |k: int| self.buffer@[slot(self.read_pos as int, k, self.capacity as int)],
        )
    }
}

impl<T: Copy + Default> RingBuffer<T> {
    /// An empty buffer with `capacity` slots.
    pub fn new(capacity: usize) -> (r: Self)
        ensures
            r@ == Seq::<T>::empty(),
            r.spec_capacity() == capacity,
    {
        let mut buffer: Vec<T> = Vec::new();
        let mut i: usize = 0;
        while i < capacity
            invariant
                i <= capacity,
                buffer@.len() == i,
            decreases capacity - i,
        {
            buffer.push(T::default());
            i = i + 1;
        }
        let r = RingBuffer { buffer, capacity, read_pos: 0, write_pos: 0 };
        assert(r@ =~= Seq::<T>::empty());
        r
    }
}

impl<T: Copy> RingBuffer<T> {
    /// Number of items available to read.
    pub fn available(&self) -> (r: usize)
        ensures
            r == self@.len(),
            self.spec_capacity() > 0 ==> r < self.spec_capacity(),
    {
        proof {
            use_type_invariant(self);
        }
        let w = self.write_pos;
        let r = self.read_pos;
        if w >= r {
            w - r
        } else {
            self.capacity - r + w
        }
    }

    /// Number of free slots for writing.
    pub fn free(&self) -> (r: usize)
        requires
            self.spec_capacity() > 0,
        ensures
            r == self.spec_capacity() - 1 - self@.len(),
    {
        self.capacity - 1 - self.available()
    }

    /// Append as many of `data` as fit; returns how many were taken.
    pub fn write(&mut self, data: &[T]) -> (r: usize)
        requires
            old(self).spec_capacity() > 0,
        ensures
            r == spec_write_count(old(self)@, old(self).spec_capacity(), data@),
            final(self)@ == spec_after_write(old(self)@, old(self).spec_capacity(), data@),
            final(self).spec_capacity() == old(self).spec_capacity(),
    {
        proof {
            use_type_invariant(&*self);
        }
        let ghost old_items = self@;
        let avail = self.available();
        let free = self.capacity - 1 - avail;
        let to_write = if data.len() < free { data.len() } else { free };
        let cap = self.capacity;
        let rp = self.read_pos;
        let mut w = self.write_pos;
        let mut i: usize = 0;
        while i < to_write
            invariant
                cap == self.capacity,
                rp == self.read_pos,
                cap > 0,
                rp < cap,
                self.write_pos < cap,
                self.buffer@.len() == cap,
                avail == old_items.len(),
                avail + to_write <= cap - 1,
                to_write <= data@.len(),
                0 <= i <= to_write,
                w == slot(rp as int, avail + i, cap as int),
                forall|k: int|
                    0 <= k < avail ==> #[trigger] self.buffer@[slot(rp as int, k, cap as int)]
                        == old_items[k],
                forall|k: int|
                    0 <= k < i ==> #[trigger] self.buffer@[slot(rp as int, avail + k, cap as int)]
                        == data@[k],
            decreases to_write - i,
        {
            let x = data[i];
            self.buffer[w] = x;
            w = w + 1;
            if w >= cap {
                w = 0;
            }
            i = i + 1;
        }
        self.write_pos = w;
        proof {
            let target = spec_after_write(old_items, cap as nat, data@);
            assert(spec_write_count(old_items, cap as nat, data@) == to_write);
            assert(spec_available(rp as int, w as int, cap as int) == avail + to_write);
            assert forall|k: int| 0 <= k < avail + to_write implies #[trigger] self@[k]
                == target[k] by {
                if k >= avail {
                    assert(self.buffer@[slot(rp as int, avail + (k - avail), cap as int)]
                        == data@[k - avail]);
                }
            }
            assert(self@ =~= target);
        }
        to_write
    }

    /// Move the oldest items into `output`, as many as fit and are present;
    /// returns how many were moved. Slots of `output` past that count keep
    /// their values.
    pub fn read(&mut self, output: &mut [T]) -> (r: usize)
        ensures
            r == spec_read_count(old(self)@, old(output)@.len()),
            final(output)@ == old(self)@.subrange(0, r as int) + old(output)@.subrange(
                r as int,
                old(output)@.len() as int,
            ),
            final(self)@ == spec_after_read(old(self)@, old(output)@.len()),
            final(self).spec_capacity() == old(self).spec_capacity(),
    {
        proof {
            use_type_invariant(&*self);
        }
        let ghost old_items = self@;
        let ghost old_out = output@;
        let avail = self.available();
        let to_read = if output.len() < avail { output.len() } else { avail };
        let cap = self.capacity;
        let mut rp = self.read_pos;
        let ghost r0 = rp;
        let mut i: usize = 0;
        while i < to_read
            invariant
                cap == self.capacity,
                r0 == self.read_pos,
                self.buffer@.len() == cap,
                old_items == self@,
                avail == old_items.len(),
                to_read <= avail,
                to_read <= old_out.len(),
                output@.len() == old_out.len(),
                cap > 0 ==> r0 < cap,
                cap > 0 ==> avail < cap,
                0 <= i <= to_read,
                i < to_read ==> cap > 0,
                cap > 0 ==> rp == slot(r0 as int, i as int, cap as int),
                cap > 0 ==> rp < cap,
                forall|k: int| 0 <= k < i ==> #[trigger] output@[k] == old_items[k],
                forall|k: int| i <= k < old_out.len() ==> #[trigger] output@[k] == old_out[k],
            decreases to_read - i,
        {
            output[i] = self.buffer[rp];
            rp = rp + 1;
            if rp >= cap {
                rp = 0;
            }
            i = i + 1;
        }
        if to_read > 0 {
            self.read_pos = rp;
        }
        proof {
            assert(output@ =~= old_items.subrange(0, to_read as int) + old_out.subrange(
                to_read as int,
                old_out.len() as int,
            ));
            let target = spec_after_read(old_items, old_out.len());
            if to_read > 0 {
                assert(spec_available(rp as int, self.write_pos as int, cap as int) == avail
                    - to_read);
                assert forall|k: int| 0 <= k < avail - to_read implies #[trigger] self@[k]
                    == target[k] by {
                    assert(old_items[to_read + k] == self.buffer@[slot(
                        r0 as int,
                        to_read + k,
                        cap as int,
                    )]);
                }
            }
            assert(self@ =~= target);
        }
        to_read
    }
}

/// First-in first-out law: whatever a write takes, a later read gives back in
/// the same order, after the items that were already there.
pub proof fn lemma_fifo<T>(items: Seq<T>, cap: nat, data: Seq<T>, out_len: nat)
    requires
        cap > 0,
        items.len() < cap,
    ensures
        ({
            let after = spec_after_write(items, cap, data);
            let n = spec_read_count(after, out_len);
            &&& after.len() < cap
            &&& after.subrange(0, n as int) == (items + data.subrange(
                0,
                spec_write_count(items, cap, data) as int,
            )).subrange(0, n as int)
            &&& (out_len >= after.len() ==> after.subrange(0, n as int) == items + data.subrange(
                0,
                spec_write_count(items, cap, data) as int,
            ))
        }),
{
    let after = spec_after_write(items, cap, data);
    let n = spec_read_count(after, out_len);
    if out_len >= after.len() {
        assert(after.subrange(0, n as int) =~= after);
    }
}

/// Capacity law: a buffer never holds more than `capacity - 1` items, and a
/// write into a buffer that is not full takes at least one item of non-empty data.
pub proof fn lemma_bounded<T>(items: Seq<T>, cap: nat, data: Seq<T>)
    requires
        cap > 0,
        items.len() < cap,
    ensures
        spec_after_write(items, cap, data).len() <= cap - 1,
        items.len() < cap - 1 && data.len() > 0 ==> spec_write_count(items, cap, data) > 0,
{
}

/// One call on a ring buffer: a write of some data, or a read into an output
/// of some length.
pub enum BufferCall<T> {
    Write(Seq<T>),
    Read(nat),
}

/// The outcome of a sequence of calls on a buffer of capacity `cap` that
/// starts out holding `items`, as `write` and `read` state each step: what is
/// left in the buffer, and the sums of the counts the writes and the reads
/// returned.
pub struct CallsOutcome<T> {
    pub items: Seq<T>,
    pub written: nat,
    pub read: nat,
}

/// Run `calls` in order, each as `write` or `read` does it.
pub open spec fn run_calls<T>(items: Seq<T>, cap: nat, calls: Seq<BufferCall<T>>) -> CallsOutcome<T>
    decreases calls.len(),
{
    if calls.len() == 0 {
        CallsOutcome { items, written: 0, read: 0 }
    } else {
        let prev = run_calls(items, cap, calls.drop_last());
        match calls.last() {
            BufferCall::Write(data) => CallsOutcome {
                items: spec_after_write(prev.items, cap, data),
                written: prev.written + spec_write_count(prev.items, cap, data),
                read: prev.read,
            },
            BufferCall::Read(out_len) => CallsOutcome {
                items: spec_after_read(prev.items, out_len),
                written: prev.written,
                read: prev.read + spec_read_count(prev.items, out_len),
            },
        }
    }
}

/// Accounting law: after any sequence of writes and reads on a buffer of
/// capacity `cap > 0` that starts empty, the items available are exactly the
/// items the writes took minus the items the reads gave, at most `cap - 1`;
/// so `available() + free() == cap - 1` at every point.
pub proof fn law_available_accounting<T>(cap: nat, calls: Seq<BufferCall<T>>)
    requires
        cap > 0,
    ensures
        ({
            let out = run_calls(Seq::<T>::empty(), cap, calls);
            &&& out.items.len() + out.read == out.written
            &&& out.items.len() <= cap - 1
            &&& (cap - 1 - out.items.len()) + out.items.len() == cap - 1
        }),
    decreases calls.len(),
{
    if calls.len() > 0 {
        law_available_accounting(cap, calls.drop_last());
    }
}

/// Write law: a write takes a prefix of its data, as much as there is room
/// for (capacity - 1 items in all): either all of it, or enough to fill the
/// buffer; the items already there stay first.
pub proof fn law_write_takes_what_fits<T>(items: Seq<T>, cap: nat, data: Seq<T>)
    requires
        cap > 0,
        items.len() < cap,
    ensures
        ({
            let n = spec_write_count(items, cap, data);
            let after = spec_after_write(items, cap, data);
            &&& n <= data.len()
            &&& after == items + data.subrange(0, n as int)
            &&& after.len() <= cap - 1
            &&& n == data.len() || after.len() == cap - 1
        }),
{
}

/// Read law: a read takes the oldest items, as many as the output holds or
/// the buffer has, whichever is fewer, and leaves the rest in order.
pub proof fn law_read_takes_oldest<T>(items: Seq<T>, out_len: nat)
    ensures
        ({
            let n = spec_read_count(items, out_len);
            &&& n <= out_len && n <= items.len()
            &&& n == out_len || n == items.len()
            &&& items.subrange(0, n as int) + spec_after_read(items, out_len) == items
        }),
{
    let n = spec_read_count(items, out_len);
    assert(items.subrange(0, n as int) + spec_after_read(items, out_len) =~= items);
}

} // verus!
