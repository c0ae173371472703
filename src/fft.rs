//! Sizing and block layout of the forward transform.
//!
//! The transform runs over `size + zero_pad_length` points, which must be a
//! power of two: `size` samples followed by `zero_pad_length` zeros.
use crate::power_of_two::{check_power_of_two, is_power_of_two};
use vstd::prelude::*;

verus! {

/// Why a transform configuration was refused.
#[derive(Debug, Clone, Copy, PartialEq, Eq, Structural)]
pub enum FftError {
    /// `size + zero_pad_length` is not a power of two.
    InvalidFftSize,
}

/// A validated transform configuration.
#[derive(Debug, Clone, Copy, PartialEq, Eq, Structural)]
pub struct FftCalculator {
    /// The number of samples in each block.
    pub size: usize,
    /// The number of zeros appended to each block.
    pub zero_pad_length: usize,
}

impl FftCalculator {
    /// The configuration is valid: the padded length is a power of two.
    pub open spec fn wf(&self) -> bool {
        &&& self.size + self.zero_pad_length <= usize::MAX
        &&& is_power_of_two(self.size + self.zero_pad_length)
    }

    /// A configuration for blocks of `size` samples padded with
    /// `zero_pad_length` zeros; fails unless their sum is a power of two
    /// (that fits in a `usize`).
    pub fn new(size: usize, zero_pad_length: usize) -> (r: Result<Self, FftError>)
        ensures
            r is Ok <==> size + zero_pad_length <= usize::MAX && is_power_of_two(
                size + zero_pad_length,
            ),
            r matches Ok(c) ==> c.size == size && c.zero_pad_length == zero_pad_length && c.wf(),
            r is Err ==> r == Err::<Self, _>(FftError::InvalidFftSize),
    {
        match size.checked_add(zero_pad_length) {
            Some(total) => {
                if check_power_of_two(total) {
                    Ok(FftCalculator { size, zero_pad_length })
                } else {
                    Err(FftError::InvalidFftSize)
                }
            },
            None => Err(FftError::InvalidFftSize),
        }
    }

    /// The number of points the transform runs over.
    pub fn transform_len(&self) -> (r: usize)
        requires
            self.wf(),
        ensures
            r == self.size + self.zero_pad_length,
    {
        self.size + self.zero_pad_length
    }

    /// The correction factor for magnitudes given the padding,
    /// `(size + zero_pad_length) / size`, as a numerator and a denominator.
    /// It is offered to callers and applied by none.
    pub fn zero_pad_scale_factor(&self) -> (r: (usize, usize))
        requires
            self.wf(),
        ensures
            r.0 == self.size + self.zero_pad_length,
            r.1 == self.size,
    {
        (self.size + self.zero_pad_length, self.size)
    }

    /// The transform's input: the `size` windowed samples followed by
    /// `zero_pad_length` copies of `zero`.
    pub fn padded_block<T: Copy>(&self, windowed: &[T], zero: T) -> (r: Vec<T>)
        requires
            self.wf(),
            windowed@.len() == self.size,
        ensures
            r@ == windowed@ + Seq::new(self.zero_pad_length as nat, |_i: int| zero),
    {
        let total = self.size + self.zero_pad_length;
        let mut out: Vec<T> = Vec::with_capacity(total);
        let mut i: usize = 0;
        while i < windowed.len()
            invariant
                i <= windowed@.len(),
                out@ == windowed@.subrange(0, i as int),
            decreases windowed@.len() - i,
        {
            out.push(windowed[i]);
            i += 1;
            assert(out@ =~= windowed@.subrange(0, i as int));
        }
        let mut k: usize = 0;
        while k < self.zero_pad_length
            invariant
                k <= self.zero_pad_length,
                out@ == windowed@ + Seq::new(k as nat, |_i: int| zero),
            decreases self.zero_pad_length - k,
        {
            out.push(zero);
            k += 1;
            assert(out@ =~= windowed@ + Seq::new(k as nat, |_i: int| zero));
        }
        out
    }
}

/// Element `i` of `values` when it exists, else `zero`.
pub open spec fn pair_or<T>(values: Seq<(T, T)>, i: int, zero: T) -> (T, T) {
    if i < values.len() {
        values[i]
    } else {
        (zero, zero)
    }
}

/// Packs complex values, given as `(re, im)` pairs, two to a quadruple
/// `[re0, im0, re1, im1]`; an odd count is completed by a `(zero, zero)` pair.
pub fn complex_to_vec4_arr<T: Copy>(values: &[(T, T)], zero: T) -> (r: Vec<[T; 4]>)
    ensures
        r@.len() == (values@.len() + 1) / 2,
        forall|k: int|
            0 <= k < r@.len() ==> r@[k]@ == seq![
                pair_or(values@, 2 * k, zero).0,
                pair_or(values@, 2 * k, zero).1,
                pair_or(values@, 2 * k + 1, zero).0,
                pair_or(values@, 2 * k + 1, zero).1,
            ],
{
    let n = values.len();
    let m = n / 2 + n % 2;
    let mut out: Vec<[T; 4]> = Vec::with_capacity(m);
    let mut k: usize = 0;
    while k < m
        invariant
            n == values@.len(),
            m == (n + 1) / 2,
            k <= m,
            out@.len() == k,
            forall|j: int|
                0 <= j < out@.len() ==> out@[j]@ == seq![
                    pair_or(values@, 2 * j, zero).0,
                    pair_or(values@, 2 * j, zero).1,
                    pair_or(values@, 2 * j + 1, zero).0,
                    pair_or(values@, 2 * j + 1, zero).1,
                ],
        decreases m - k,
    {
        let i = 2 * k;
        let first = values[i];
        let second = if i + 1 < n {
            values[i + 1]
        } else {
            (zero, zero)
        };
        let quad = [first.0, first.1, second.0, second.1];
        out.push(quad);
        assert(out@[out@.len() - 1]@ =~= seq![first.0, first.1, second.0, second.1]);
        k += 1;
    }
    out
}

} // verus!
