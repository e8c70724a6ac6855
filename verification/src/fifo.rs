use vstd::prelude::*;

verus! {

/// Number of slots in a [`Fifo`].
pub const FIFO_CAPACITY: usize = 256;

/// A first-in first-out ring buffer with room for [`FIFO_CAPACITY`] elements.
pub struct Fifo<T> {
    data: [T; 256],
    length: usize,
    starting: u16,
    /// Points to the next empty slot.
    ending: u16,
}

impl<T> View for Fifo<T> {
    type V = Seq<T>;

    /// The queued elements, oldest first.
    closed spec fn view(&self) -> Seq<T> {
        Seq::new(self.length as nat, |i: int| self.data@[(self.starting as int + i) % 256])
    }
}

impl<T> Fifo<T> {
    /// Internal consistency of the ring cursors.
    pub closed spec fn wf(&self) -> bool {
        &&& self.length <= 256
        &&& self.starting < 256
        &&& self.ending < 256
        &&& self.ending as int == (self.starting as int + self.length as int) % 256
    }

    /// The slot that holds the oldest element.
    pub closed spec fn front(&self) -> nat {
        self.starting as nat
    }

    /// Length of the run of queued elements that is stored without wrapping
    /// around the end of the ring.
    pub open spec fn first_run_len(&self) -> nat {
        if self@.len() <= FIFO_CAPACITY - self.front() {
            self@.len()
        } else {
            (FIFO_CAPACITY - self.front()) as nat
        }
    }

    /// The oldest element sits in one of the [`FIFO_CAPACITY`] slots.
    pub proof fn lemma_front_bounded(&self)
        requires
            self.wf(),
        ensures
            self.front() < FIFO_CAPACITY,
    {
    }

    /// A buffer never holds more than [`FIFO_CAPACITY`] elements.
    pub proof fn lemma_len_bounded(&self)
        requires
            self.wf(),
        ensures
            self@.len() <= FIFO_CAPACITY,
    {
    }
}

/// Elements leave in the order they entered: on a buffer that is neither
/// empty nor full, pushing `x` and then popping yields the same element, and
/// leaves the same contents, as popping and then pushing `x`.
pub proof fn law_push_pop_commute<T>(f: Fifo<T>, x: T)
    requires
        f.wf(),
        0 < f@.len() < FIFO_CAPACITY,
    ensures
        f@.push(x)[0] == f@[0],
        f@.push(x).drop_first() == f@.drop_first().push(x),
{
    assert(f@.push(x).drop_first() =~= f@.drop_first().push(x));
}

/// What is pushed onto an empty buffer is what the next pop returns, and the
/// buffer is empty again afterwards.
pub proof fn law_push_pop_empty<T>(f: Fifo<T>, x: T)
    requires
        f.wf(),
        f@.len() == 0,
    ensures
        f@.push(x)[0] == x,
        f@.push(x).drop_first() == Seq::<T>::empty(),
{
    assert(f@.push(x).drop_first() =~= Seq::<T>::empty());
}

/// `bytes` of a buffer that holds something is a non-empty prefix of its
/// contents.
pub proof fn law_bytes_nonempty_prefix<T>(f: Fifo<T>)
    requires
        f.wf(),
        f@.len() > 0,
    ensures
        0 < f.first_run_len() <= f@.len(),
{
}

/// Moving `k` slots and then `i` more lands where moving `k + i` does.
proof fn lemma_ring_shift(s: int, k: int, i: int)
    requires
        0 <= s,
        0 <= k,
        0 <= i < 256,
    ensures
        ((s + k) % 256 + i) % 256 == (s + k + i) % 256,
{
    vstd::arithmetic::div_mod::lemma_add_mod_noop(s + k, i, 256);
    vstd::arithmetic::div_mod::lemma_small_mod(i as nat, 256);
}

impl<T: Copy + Default> Fifo<T> {
    /// An empty buffer.
    pub fn new() -> (r: Self)
        ensures
            r.wf(),
            r@ == Seq::<T>::empty(),
            r.front() == 0,
    {
        let fill = T::default();
        let r = Fifo { data: [fill; 256], length: 0, starting: 0, ending: 0 };
        assert(r@ =~= Seq::<T>::empty());
        r
    }

    pub fn is_empty(&self) -> (r: bool)
        requires
            self.wf(),
        ensures
            r == (self@.len() == 0),
    {
        self.length == 0
    }

    pub fn is_full(&self) -> (r: bool)
        requires
            self.wf(),
        ensures
            r == (self@.len() == FIFO_CAPACITY),
    {
        self.length == FIFO_CAPACITY
    }

    pub fn length(&self) -> (r: usize)
        requires
            self.wf(),
        ensures
            r == self@.len(),
    {
        self.length
    }

    /// Number of free slots.
    pub fn remaining(&self) -> (r: usize)
        requires
            self.wf(),
        ensures
            r == FIFO_CAPACITY - self@.len(),
    {
        FIFO_CAPACITY - self.length
    }

    /// Ring arithmetic: `num` slots past `pos`.
    fn add(pos: u16, num: u16) -> (r: u16)
        ensures
            r as int == (pos as int + num as int) % 256,
    {
        (((pos as usize) + (num as usize)) % FIFO_CAPACITY) as u16
    }

    /// Appends `datum`; fails, leaving the buffer unchanged, when it is full.
    pub fn push(&mut self, datum: T) -> (r: Result<(), ()>)
        requires
            old(self).wf(),
        ensures
            final(self).wf(),
            old(self)@.len() == FIFO_CAPACITY ==> r is Err && final(self)@ == old(self)@,
            old(self)@.len() < FIFO_CAPACITY ==> r is Ok && final(self)@ == old(self)@.push(datum),
            final(self).front() == old(self).front(),
    {
        if self.is_full() {
            Err(())
        } else {
            let ghost old_view = self@;
            self.length += 1;
            self.data[self.ending as usize] = datum;
            self.ending = Self::add(self.ending, 1);
            assert(self@ =~= old_view.push(datum));
            Ok(())
        }
    }

    /// The oldest element, without removing it; fails when the buffer is empty.
    pub fn peek(&self) -> (r: Result<T, ()>)
        requires
            self.wf(),
        ensures
            self@.len() == 0 ==> r is Err,
            self@.len() > 0 ==> r == Ok::<T, ()>(self@[0]),
    {
        if self.is_empty() {
            Err(())
        } else {
            Ok(self.data[self.starting as usize])
        }
    }

    /// Removes and returns the oldest element; fails, leaving the buffer
    /// unchanged, when it is empty.
    pub fn pop(&mut self) -> (r: Result<T, ()>)
        requires
            old(self).wf(),
        ensures
            final(self).wf(),
            old(self)@.len() == 0 ==> r is Err && final(self)@ == old(self)@,
            old(self)@.len() > 0 ==> r == Ok::<T, ()>(old(self)@[0]) && final(self)@
                == old(self)@.drop_first(),
            old(self)@.len() == 0 ==> final(self).front() == old(self).front(),
            old(self)@.len() > 0 ==> final(self).front() == (old(self).front() + 1) % (FIFO_CAPACITY as nat),
    {
        let datum = match self.peek() {
            Ok(d) => d,
            Err(e) => {
                return Err(e);
            },
        };
        self.advance(1);
        Ok(datum)
    }

    /// The longest run of queued elements, oldest first, that is stored
    /// contiguously; empty exactly when the buffer is.
    pub fn bytes(&self) -> (r: &[T])
        requires
            self.wf(),
        ensures
            r@ == self@.take(self.first_run_len() as int),
    {
        let s = self.starting as usize;
        if self.is_empty() {
            vstd::slice::slice_subrange(self.data.as_slice(), 0, 0)
        } else if self.ending > self.starting {
            let e = self.ending as usize;
            let r = vstd::slice::slice_subrange(self.data.as_slice(), s, e);
            assert(r@ =~= self@.take(self.first_run_len() as int));
            r
        } else {
            let r = vstd::slice::slice_subrange(self.data.as_slice(), s, FIFO_CAPACITY);
            assert(r@ =~= self@.take(self.first_run_len() as int));
            r
        }
    }

    /// A copy of the queued elements, oldest first.
    pub fn to_vec(&self) -> (r: Vec<T>)
        requires
            self.wf(),
        ensures
            r@ == self@,
    {
        let mut out: Vec<T> = Vec::new();
        let mut i: usize = 0;
        while i < self.length
            invariant
                self.wf(),
                0 <= i <= self.length,
                out@ == self@.take(i as int),
            decreases self.length - i,
        {
            let slot = (self.starting as usize + i) % FIFO_CAPACITY;
            out.push(self.data[slot]);
            i += 1;
            assert(out@ =~= self@.take(i as int));
        }
        assert(out@ =~= self@);
        out
    }

    /// Drops the `num` oldest elements.
    fn advance(&mut self, num: u16)
        requires
            old(self).wf(),
            num <= old(self)@.len(),
        ensures
            final(self).wf(),
            final(self)@ == old(self)@.skip(num as int),
            final(self).front() == (old(self).front() + num as nat) % (FIFO_CAPACITY as nat),
    {
        let ghost old_view = self@;
        self.length -= num as usize;
        self.starting = Self::add(self.starting, num);
        assert forall|i: int| 0 <= i < self@.len() implies #[trigger] self@[i] == old_view.skip(
            num as int,
        )[i] by {
            lemma_ring_shift(old(self).starting as int, num as int, i);
        }
        assert(self@ =~= old_view.skip(num as int));
    }
}

} // verus!
