//! A fixed-capacity circular store of samples.
use crate::power_of_two::{check_power_of_two, is_power_of_two, lemma_mask_is_mod};
use vstd::prelude::*;

verus! {

/// Why a ring buffer could not be made.
#[derive(Debug, Clone, Copy, PartialEq, Eq, Structural)]
pub enum RingBufferError {
    /// The capacity is not a power of two.
    CapacityNotPowerOfTwo,
}

/// A circular store of `capacity` samples, `capacity` a power of two. Each
/// push overwrites the oldest sample.
///
/// Its view is the stored samples in chronological order, oldest first.
pub struct RingBuffer<T> {
    back: usize,
    buffer: Vec<T>,
}

impl<T> View for RingBuffer<T> {
    type V = Seq<T>;

    closed spec fn view(&self) -> Seq<T> {
        self.buffer@.subrange(self.back as int, self.buffer@.len() as int) + self.buffer@.subrange(
            0,
            self.back as int,
        )
    }
}

/// The contents after pushing each of `values` in turn onto contents `s`.
pub open spec fn pushed_all<T>(s: Seq<T>, values: Seq<T>) -> Seq<T>
    decreases values.len(),
{
    if values.len() == 0 {
        s
    } else {
        pushed_all(s.drop_first().push(values[0]), values.drop_first())
    }
}

/// Pushing `values` onto non-empty contents `s` keeps the last `s.len()`
/// elements of `s` followed by `values`.
pub proof fn lemma_pushed_all_window<T>(s: Seq<T>, values: Seq<T>)
    requires
        s.len() > 0,
    ensures
        pushed_all(s, values) == (s + values).subrange(
            values.len() as int,
            (s.len() + values.len()) as int,
        ),
    decreases values.len(),
{
    if values.len() == 0 {
        assert((s + values).subrange(0, s.len() as int) =~= s);
    } else {
        let s2 = s.drop_first().push(values[0]);
        lemma_pushed_all_window(s2, values.drop_first());
        assert(s2 + values.drop_first() =~= (s + values).drop_first());
        assert((s2 + values.drop_first()).subrange(
            values.len() - 1,
            s2.len() + values.len() - 1,
        ) =~= (s + values).subrange(values.len() as int, (s.len() + values.len()) as int));
    }
}

/// After at least `capacity` pushes, a ring buffer holds exactly the last
/// `capacity` values pushed, in the order in which they were pushed, whatever
/// it held before.
pub proof fn lemma_pushes_keep_last<T>(s: Seq<T>, values: Seq<T>)
    requires
        s.len() > 0,
        values.len() >= s.len(),
    ensures
        pushed_all(s, values) == values.subrange(values.len() - s.len(), values.len() as int),
{
    lemma_pushed_all_window(s, values);
    assert((s + values).subrange(values.len() as int, (s.len() + values.len()) as int)
        =~= values.subrange(values.len() - s.len(), values.len() as int));
}

impl<T: Copy> RingBuffer<T> {
    /// The buffer is well formed: its capacity is a power of two and the
    /// write cursor lies inside it.
    pub closed spec fn wf(&self) -> bool {
        &&& is_power_of_two(self.buffer@.len() as int)
        &&& self.back < self.buffer@.len()
    }

    /// The slot that the next push writes.
    pub closed spec fn cursor(&self) -> int {
        self.back as int
    }

    /// A buffer of `capacity` samples, each equal to `fill`; fails unless
    /// `capacity` is a power of two.
    pub fn new(capacity: usize, fill: T) -> (r: Result<Self, RingBufferError>)
        ensures
            r is Err <==> !is_power_of_two(capacity as int),
            r is Err ==> r == Err::<Self, _>(RingBufferError::CapacityNotPowerOfTwo),
            r matches Ok(b) ==> b.wf() && b@ == Seq::new(capacity as nat, |_i: int| fill)
                && b.cursor() == 0,
    {
        if !check_power_of_two(capacity) {
            return Err(RingBufferError::CapacityNotPowerOfTwo);
        }
        let mut buffer: Vec<T> = Vec::with_capacity(capacity);
        while buffer.len() < capacity
            invariant
                buffer.len() <= capacity,
                forall|i: int| 0 <= i < buffer.len() ==> buffer@[i] == fill,
            decreases capacity - buffer.len(),
        {
            buffer.push(fill);
        }
        let b = RingBuffer { back: 0, buffer };
        proof {
            lemma_mask_is_mod(0, capacity);
            assert(b@ =~= Seq::new(capacity as nat, |_i: int| fill));
        }
        Ok(b)
    }

    /// The number of samples held.
    pub fn capacity(&self) -> (r: usize)
        requires
            self.wf(),
        ensures
            r == self@.len(),
    {
        self.buffer.len()
    }

    /// Stores `value` in place of the oldest sample.
    pub fn push_back(&mut self, value: T)
        requires
            old(self).wf(),
        ensures
            final(self).wf(),
            final(self)@ == old(self)@.drop_first().push(value),
            final(self).cursor() == (old(self).cursor() + 1) % (old(self)@.len() as int),
    {
        let ghost before = self.buffer@;
        let cap = self.buffer.len();
        let back = self.back;
        self.buffer.set(back, value);
        proof {
            lemma_mask_is_mod((back + 1) as usize, cap);
        }
        self.back = (back + 1) & (cap - 1);
        proof {
            let s = self.buffer@;
            if back + 1 < cap {
                assert(self.back == back + 1);
                assert(s.subrange(back + 1, cap as int) =~= before.subrange(back + 1, cap as int));
                assert(s.subrange(0, back + 1) =~= before.subrange(0, back as int).push(value));
            } else {
                assert(self.back == 0);
                assert(s.subrange(0, cap as int) =~= before.subrange(0, back as int).push(value));
            }
            assert(self@ =~= old(self)@.drop_first().push(value));
        }
    }

    /// Pushes each of `values` in turn.
    pub fn push_slice(&mut self, values: &[T])
        requires
            old(self).wf(),
        ensures
            final(self).wf(),
            final(self)@ == pushed_all(old(self)@, values@),
    {
        let mut i: usize = 0;
        assert(values@.subrange(0, values@.len() as int) =~= values@);
        while i < values.len()
            invariant
                self.wf(),
                i <= values@.len(),
                pushed_all(self@, values@.subrange(i as int, values@.len() as int))
                    == pushed_all(old(self)@, values@),
            decreases values.len() - i,
        {
            let ghost rest = values@.subrange(i as int, values@.len() as int);
            assert(rest.drop_first() =~= values@.subrange(i + 1, values@.len() as int));
            self.push_back(values[i]);
            i += 1;
        }
        assert(values@.subrange(i as int, values@.len() as int) =~= Seq::<T>::empty());
    }

    /// The `i`-th oldest sample.
    pub fn get(&self, i: usize) -> (r: T)
        requires
            self.wf(),
            i < self@.len(),
        ensures
            r == self@[i as int],
    {
        let cap = self.buffer.len();
        proof {
            lemma_mask_is_mod((self.back + i) as usize, cap);
        }
        self.buffer[(self.back + i) & (cap - 1)]
    }

    /// The samples in chronological order, oldest first.
    pub fn get_vec(&self) -> (r: Vec<T>)
        requires
            self.wf(),
        ensures
            r@ == self@,
    {
        let cap = self.buffer.len();
        let mut v: Vec<T> = Vec::with_capacity(cap);
        let mut i: usize = 0;
        while i < cap
            invariant
                self.wf(),
                cap == self@.len(),
                i <= cap,
                v@ == self@.subrange(0, i as int),
            decreases cap - i,
        {
            v.push(self.get(i));
            i += 1;
            proof {
                assert(v@ =~= self@.subrange(0, i as int));
            }
        }
        proof {
            assert(v@ =~= self@);
        }
        v
    }

    /// The backing store in slot order, independent of the write cursor.
    pub fn get_raw(&self) -> (r: &[T])
        requires
            self.wf(),
        ensures
            0 <= self.cursor() < self@.len(),
            r@ == self@.subrange(self@.len() - self.cursor(), self@.len() as int) + self@.subrange(
                0,
                self@.len() - self.cursor(),
            ),
    {
        proof {
            let s = self.buffer@;
            let b = self.back as int;
            let n = s.len() as int;
            assert(self@.subrange(n - b, n) =~= s.subrange(0, b));
            assert(self@.subrange(0, n - b) =~= s.subrange(b, n));
            assert(s =~= s.subrange(0, b) + s.subrange(b, n));
        }
        self.buffer.as_slice()
    }
}

} // verus!
