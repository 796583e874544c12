//! A circular buffer of fixed capacity, written by the mixer and read by a
//! consumer at its own pace.

use crate::scalar::{zero, Scalar};
use vstd::prelude::*;

verus! {

/// What a ring buffer holds: its slots, and the slots at which the next
/// write and the next read take place.
pub struct Ring<T> {
    pub slots: Seq<T>,
    pub write: nat,
    pub read: nat,
}

impl<T> Ring<T> {
    /// The number of slots.
    pub open spec fn capacity(self) -> nat {
        self.slots.len()
    }

    /// There is a slot, and both positions name one.
    pub open spec fn wf(self) -> bool {
        self.write < self.capacity() && self.read < self.capacity()
    }

    /// The position that follows `at`, the first following the last.
    pub open spec fn next(self, at: nat) -> nat {
        if at + 1 == self.capacity() {
            0
        } else {
            at + 1
        }
    }

    /// The ring once `value` has been written: it stands in the slot of the
    /// write position, whatever stood there, and that position has moved on.
    pub open spec fn pushed(self, value: T) -> Ring<T> {
        Ring {
            slots: self.slots.update(self.write as int, value),
            write: self.next(self.write),
            read: self.read,
        }
    }

    /// The value that the next read returns: that of the slot at the read
    /// position, whether or not it was written since it was last read.
    pub open spec fn front(self) -> T {
        self.slots[self.read as int]
    }

    /// The ring once a value has been read: the read position has moved on.
    pub open spec fn advanced(self) -> Ring<T> {
        Ring { slots: self.slots, write: self.write, read: self.next(self.read) }
    }

    /// The ring once the first `n` of `values` have been written one by one.
    pub open spec fn pushed_all(self, values: Seq<T>, n: nat) -> Ring<T>
        decreases n,
    {
        if n == 0 {
            self
        } else {
            self.pushed_all(values, (n - 1) as nat).pushed(values[n - 1])
        }
    }

    /// The ring once `n` values have been read.
    pub open spec fn advanced_by(self, n: nat) -> Ring<T>
        decreases n,
    {
        if n == 0 {
            self
        } else {
            self.advanced_by((n - 1) as nat).advanced()
        }
    }
}

/// A circular buffer of a fixed number of slots.
pub struct RingBuffer<T> {
    buf: Vec<T>,
    write_idx: usize,
    read_idx: usize,
}

impl<T> View for RingBuffer<T> {
    type V = Ring<T>;

    closed spec fn view(&self) -> Ring<T> {
        Ring { slots: self.buf@, write: self.write_idx as nat, read: self.read_idx as nat }
    }
}

impl<T: Scalar> RingBuffer<T> {
    /// The buffer has a slot, and both positions name one.
    pub open spec fn wf(&self) -> bool {
        self@.wf()
    }

    /// A buffer of `capacity` slots, each zero, with both positions at the
    /// first slot.
    pub fn new(capacity: usize) -> (ring: RingBuffer<T>)
        requires
            capacity > 0,
        ensures
            ring.wf(),
            ring@ == (Ring { slots: Seq::new(capacity as nat, |i: int| zero::<T>()), write: 0, read: 0 }),
    {
        let silence: T = T::from_int(0);
        let mut buf: Vec<T> = Vec::new();
        let mut i: usize = 0;
        while i < capacity
            invariant
                i <= capacity,
                silence == zero::<T>(),
                buf@.len() == i,
                forall|k: int| 0 <= k < i ==> buf@[k] == zero::<T>(),
            decreases capacity - i,
        {
            buf.push(silence);
            i += 1;
        }
        assert(buf@ =~= Seq::new(capacity as nat, |i: int| zero::<T>()));
        RingBuffer { buf, write_idx: 0, read_idx: 0 }
    }

    /// Writes `val` at the write position, over whatever stands there.
    pub fn push(&mut self, val: T)
        requires
            old(self).wf(),
        ensures
            final(self).wf(),
            final(self)@ == old(self)@.pushed(val),
    {
        let capacity: usize = self.buf.len();
        self.buf[self.write_idx] = val;
        self.write_idx = if self.write_idx + 1 == capacity {
            0
        } else {
            self.write_idx + 1
        };
    }

    /// Writes `values` one by one.
    pub fn push_all(&mut self, values: &[T])
        requires
            old(self).wf(),
        ensures
            final(self).wf(),
            final(self)@ == old(self)@.pushed_all(values@, values@.len()),
    {
        let count: usize = values.len();
        let mut i: usize = 0;
        while i < count
            invariant
                i <= count,
                count == values@.len(),
                self.wf(),
                self@ == old(self)@.pushed_all(values@, i as nat),
            decreases count - i,
        {
            self.push(values[i]);
            i += 1;
        }
    }

    /// Reads the value at the read position.
    pub fn read(&mut self) -> (val: T)
        requires
            old(self).wf(),
        ensures
            final(self).wf(),
            val == old(self)@.front(),
            final(self)@ == old(self)@.advanced(),
    {
        let capacity: usize = self.buf.len();
        let val: T = self.buf[self.read_idx];
        self.read_idx = if self.read_idx + 1 == capacity {
            0
        } else {
            self.read_idx + 1
        };
        val
    }

    /// Sets every slot to zero and both positions to the first slot.
    pub fn reset(&mut self)
        requires
            old(self).wf(),
        ensures
            final(self).wf(),
            final(self)@ == (Ring {
                slots: Seq::new(old(self)@.capacity(), |i: int| zero::<T>()),
                write: 0,
                read: 0,
            }),
    {
        let silence: T = T::from_int(0);
        let capacity: usize = self.buf.len();
        let mut i: usize = 0;
        while i < capacity
            invariant
                i <= capacity,
                silence == zero::<T>(),
                capacity == old(self)@.capacity(),
                self.buf@.len() == capacity,
                capacity > 0,
                forall|k: int| 0 <= k < i ==> self.buf@[k] == zero::<T>(),
            decreases capacity - i,
        {
            self.buf[i] = silence;
            i += 1;
        }
        self.write_idx = 0;
        self.read_idx = 0;
        assert(self.buf@ =~= Seq::new(old(self)@.capacity(), |i: int| zero::<T>()));
    }

    /// The number of slots.
    pub fn len(&self) -> (capacity: usize)
        ensures
            capacity == self@.capacity(),
    {
        self.buf.len()
    }
}

/// The position `k` steps after `at`, in a ring of `capacity` slots.
pub open spec fn stepped(at: nat, k: nat, capacity: nat) -> nat
    recommends
        capacity > 0,
{
    (((at + k) as int) % (capacity as int)) as nat
}

/// One step after the position `k` steps after `at` lies the position
/// `k + 1` steps after `at`.
proof fn step_follows<T>(ring: Ring<T>, at: nat, k: nat)
    requires
        ring.capacity() > 0,
    ensures
        ring.next(stepped(at, k, ring.capacity())) == stepped(at, k + 1, ring.capacity()),
        stepped(at, k, ring.capacity()) < ring.capacity(),
{
    let c = ring.capacity() as int;
    let x = (at + k) as int;
    vstd::arithmetic::div_mod::lemma_fundamental_div_mod(x, c);
    vstd::arithmetic::div_mod::lemma_mod_bound(x, c);
    let q = x / c;
    let m = x % c;
    if m + 1 == c {
        assert(x + 1 == (q + 1) * c + 0) by (nonlinear_arith)
            requires
                x == c * q + m,
                m + 1 == c,
        ;
        vstd::arithmetic::div_mod::lemma_fundamental_div_mod_converse(x + 1, c, q + 1, 0);
    } else {
        assert(x + 1 == q * c + (m + 1)) by (nonlinear_arith)
            requires
                x == c * q + m,
        ;
        vstd::arithmetic::div_mod::lemma_fundamental_div_mod_converse(x + 1, c, q, m + 1);
    }
}

/// Writing the first `n` of `values`, no more than the ring has slots, puts
/// them in this order into the slots from the write position on, leaves the
/// other slots and the read position as they were, and moves the write
/// position `n` steps.
pub proof fn pushed_all_fills<T>(ring: Ring<T>, values: Seq<T>, n: nat)
    requires
        ring.wf(),
        n <= values.len(),
        n <= ring.capacity(),
    ensures
        ring.pushed_all(values, n).capacity() == ring.capacity(),
        ring.pushed_all(values, n).read == ring.read,
        ring.pushed_all(values, n).write == stepped(ring.write, n, ring.capacity()),
        forall|j: nat|
            j < n ==> ring.pushed_all(values, n).slots[#[trigger] stepped(
                ring.write,
                j,
                ring.capacity(),
            ) as int] == values[j as int],
        forall|p: int|
            0 <= p < ring.capacity() && (forall|j: nat|
                j < n ==> p != #[trigger] stepped(ring.write, j, ring.capacity()))
                ==> ring.pushed_all(values, n).slots[p] == ring.slots[p],
    decreases n,
{
    let c = ring.capacity();
    if n == 0 {
        vstd::arithmetic::div_mod::lemma_small_mod(ring.write, c);
    } else {
        let m = (n - 1) as nat;
        pushed_all_fills(ring, values, m);
        step_follows(ring, ring.write, m);
        let before = ring.pushed_all(values, m);
        let after = before.pushed(values[m as int]);
        assert(after == ring.pushed_all(values, n));
        assert(before.next(before.write) == ring.next(before.write));
        assert forall|j: nat| j < n implies after.slots[#[trigger] stepped(ring.write, j, c) as int]
            == values[j as int] by {
            step_follows(ring, ring.write, j);
            if j < m {
                distinct_steps(ring.write, j, m, c);
            }
        }
    }
}

/// Two different numbers of steps, both below the capacity, lead from one
/// position to two different ones.
proof fn distinct_steps(at: nat, j: nat, k: nat, capacity: nat)
    requires
        j < k < capacity,
    ensures
        stepped(at, j, capacity) != stepped(at, k, capacity),
{
    let c = capacity as int;
    let x = (at + j) as int;
    let y = (at + k) as int;
    vstd::arithmetic::div_mod::lemma_fundamental_div_mod(x, c);
    vstd::arithmetic::div_mod::lemma_fundamental_div_mod(y, c);
    if x % c == y % c {
        assert(y - x == c * (y / c - x / c)) by (nonlinear_arith)
            requires
                x == c * (x / c) + x % c,
                y == c * (y / c) + y % c,
                x % c == y % c,
        ;
        assert(false) by (nonlinear_arith)
            requires
                y - x == c * (y / c - x / c),
                0 < y - x < c,
        ;
    }
}

/// Reading `n` values moves the read position `n` steps and changes
/// nothing else.
pub proof fn advanced_by_steps<T>(ring: Ring<T>, n: nat)
    requires
        ring.wf(),
    ensures
        ring.advanced_by(n).slots == ring.slots,
        ring.advanced_by(n).write == ring.write,
        ring.advanced_by(n).read == stepped(ring.read, n, ring.capacity()),
    decreases n,
{
    if n == 0 {
        vstd::arithmetic::div_mod::lemma_small_mod(ring.read, ring.capacity());
    } else {
        advanced_by_steps(ring, (n - 1) as nat);
        step_follows(ring, ring.read, (n - 1) as nat);
        assert(ring.advanced_by((n - 1) as nat).next(ring.advanced_by((n - 1) as nat).read)
            == ring.next(ring.advanced_by((n - 1) as nat).read));
    }
}

/// A ring whose two positions agree is filled with as many values as it
/// has slots. The reads that follow return the values in the order in which
/// they were written: the read after `k` others returns the value written
/// after `k` others.
pub proof fn fill_then_drain<T>(ring: Ring<T>, values: Seq<T>, k: nat)
    requires
        ring.wf(),
        ring.read == ring.write,
        values.len() == ring.capacity(),
        k < ring.capacity(),
    ensures
        ring.pushed_all(values, values.len()).advanced_by(k).front() == values[k as int],
{
    let full = ring.pushed_all(values, values.len());
    pushed_all_fills(ring, values, values.len());
    vstd::arithmetic::div_mod::lemma_mod_bound((ring.write + values.len()) as int, ring.capacity() as int);
    advanced_by_steps(full, k);
    assert(full.advanced_by(k).read == stepped(ring.write, k, ring.capacity()));
}

/// A ring whose two positions agree is filled with as many values as it
/// has slots, and one more value is written before any is read. That value
/// has taken the place of the oldest one: the first read returns it, and
/// the reads after it return the values that were written second, third
/// and so on.
pub proof fn one_more_overwrites_oldest<T>(ring: Ring<T>, values: Seq<T>, extra: T, k: nat)
    requires
        ring.wf(),
        ring.read == ring.write,
        values.len() == ring.capacity(),
        k < ring.capacity(),
    ensures
        ring.pushed_all(values, values.len()).pushed(extra).advanced_by(k).front() == (if k
            == 0 {
            extra
        } else {
            values[k as int]
        }),
{
    let c = ring.capacity();
    let full = ring.pushed_all(values, values.len());
    pushed_all_fills(ring, values, values.len());
    vstd::arithmetic::div_mod::lemma_mod_bound((ring.write + c) as int, c as int);
    // a full turn leads back to the write position
    vstd::arithmetic::div_mod::lemma_mod_add_multiples_vanish(ring.write as int, c as int);
    vstd::arithmetic::div_mod::lemma_small_mod(ring.write, c);
    assert(full.write == ring.write);
    let over = full.pushed(extra);
    advanced_by_steps(over, k);
    assert(over.advanced_by(k).read == stepped(ring.write, k, c));
    if k == 0 {
        assert(stepped(ring.write, 0, c) == ring.write);
    } else {
        distinct_steps(ring.write, 0, k, c);
        vstd::arithmetic::div_mod::lemma_mod_bound((ring.write + k) as int, c as int);
        assert(full.slots[stepped(ring.write, k, c) as int] == values[k as int]);
    }
}

} // verus!
