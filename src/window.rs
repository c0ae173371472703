//! Window functions as cosine-sum coefficient tables.
//!
//! A window of this family scales sample `i` of a block of `L` samples by
//! `w(i) = a0 - a1*cos(2*pi*i/L) + a2*cos(4*pi*i/L) - a3*cos(6*pi*i/L) ...`.
//! The coefficients `a0, a1, ...` are held as integers in units of
//! `1 / COEFFICIENT_SCALE`; evaluating the cosines is left to the caller.
use vstd::prelude::*;

verus! {

/// The integer coefficient that stands for `1.0`.
pub const COEFFICIENT_SCALE: u32 = 100_000;

/// `+1` for even `k`, `-1` for odd `k`.
pub open spec fn alternating_sign(k: int) -> int {
    if k % 2 == 0 {
        1
    } else {
        -1
    }
}

/// `terms[0] - terms[1] + terms[2] - ...`: the window's value at `i = 0`,
/// where every cosine is `1`.
pub open spec fn alternating_sum(terms: Seq<u32>) -> int
    decreases terms.len(),
{
    if terms.len() == 0 {
        0
    } else {
        alternating_sum(terms.drop_last()) + alternating_sign(terms.len() - 1) * terms.last()
    }
}

/// A taper applied to a sample block before transforming it, given by its
/// cosine-sum coefficients.
pub trait WindowFunction {
    /// The coefficients `a0, a1, ...`, in units of `1 / COEFFICIENT_SCALE`.
    spec fn terms() -> Seq<u32>;

    /// The coefficients `a0, a1, ...`, in units of `1 / COEFFICIENT_SCALE`.
    fn cosine_terms() -> (r: Vec<u32>)
        ensures
            r@ == Self::terms(),
    ;
}

/// The identity window: every sample is kept as it is.
pub struct Rectangular;

/// The Hann window, `0.5 - 0.5*cos(2*pi*i/L)`.
pub struct Hann;

/// The four-term Blackman-Harris window,
/// `0.35875 - 0.48829*cos(2*pi*i/L) + 0.14128*cos(4*pi*i/L) - 0.01168*cos(6*pi*i/L)`.
pub struct BlackmanHarris;

impl WindowFunction for Rectangular {
    open spec fn terms() -> Seq<u32> {
        seq![COEFFICIENT_SCALE]
    }

    fn cosine_terms() -> (r: Vec<u32>) {
        let r = vec![COEFFICIENT_SCALE];
        assert(r@ =~= seq![COEFFICIENT_SCALE]);
        r
    }
}

impl WindowFunction for Hann {
    open spec fn terms() -> Seq<u32> {
        seq![50_000u32, 50_000u32]
    }

    fn cosine_terms() -> (r: Vec<u32>) {
        let r = vec![50_000u32, 50_000u32];
        assert(r@ =~= seq![50_000u32, 50_000u32]);
        r
    }
}

impl WindowFunction for BlackmanHarris {
    open spec fn terms() -> Seq<u32> {
        seq![35_875u32, 48_829u32, 14_128u32, 1_168u32]
    }

    fn cosine_terms() -> (r: Vec<u32>) {
        let r = vec![35_875u32, 48_829u32, 14_128u32, 1_168u32];
        assert(r@ =~= seq![35_875u32, 48_829u32, 14_128u32, 1_168u32]);
        r
    }
}

/// The window's value at `i = 0` in units of `1 / COEFFICIENT_SCALE`: the
/// factor that the first sample of every block is scaled by.
pub fn gain_at_origin(terms: &[u32]) -> (r: i64)
    requires
        terms@.len() <= 0x1000_0000,
    ensures
        r == alternating_sum(terms@),
{
    let mut acc: i64 = 0;
    let mut k: usize = 0;
    while k < terms.len()
        invariant
            k <= terms@.len() <= 0x1000_0000,
            acc == alternating_sum(terms@.subrange(0, k as int)),
            -(k as int) * 0x1_0000_0000 <= acc <= (k as int) * 0x1_0000_0000,
        decreases terms@.len() - k,
    {
        assert(terms@.subrange(0, k + 1).drop_last() =~= terms@.subrange(0, k as int));
        assert((k as int) * 0x1_0000_0000 <= 0x1000_0000 * 0x1_0000_0000) by (nonlinear_arith)
            requires
                k <= 0x1000_0000,
        ;
        if k % 2 == 0 {
            acc = acc + terms[k] as i64;
        } else {
            acc = acc - terms[k] as i64;
        }
        k += 1;
    }
    assert(terms@.subrange(0, k as int) =~= terms@);
    acc
}

/// Whether the window is the identity, the single coefficient `1.0`.
pub fn is_identity(terms: &[u32]) -> (r: bool)
    ensures
        r == (terms@ == seq![COEFFICIENT_SCALE]),
{
    let r = terms.len() == 1 && terms[0] == COEFFICIENT_SCALE;
    proof {
        if terms@.len() == 1 && terms@[0] == COEFFICIENT_SCALE {
            assert(terms@ =~= seq![COEFFICIENT_SCALE]);
        }
    }
    r
}

/// The first sample of a block is kept whole by the rectangular window,
/// zeroed by the Hann window, and scaled by
/// `0.35875 - 0.48829 + 0.14128 - 0.01168` by the Blackman-Harris window.
pub proof fn lemma_gains_at_origin()
    ensures
        alternating_sum(Rectangular::terms()) == COEFFICIENT_SCALE,
        alternating_sum(Hann::terms()) == 0,
        alternating_sum(BlackmanHarris::terms()) == 35_875 - 48_829 + 14_128 - 1_168,
{
    reveal_with_fuel(alternating_sum, 5);
    assert(Rectangular::terms().drop_last() =~= Seq::<u32>::empty());
    assert(Hann::terms().drop_last() =~= seq![50_000u32]);
    assert(Hann::terms().drop_last().drop_last() =~= Seq::<u32>::empty());
    let b = BlackmanHarris::terms();
    assert(b.drop_last() =~= seq![35_875u32, 48_829u32, 14_128u32]);
    assert(b.drop_last().drop_last() =~= seq![35_875u32, 48_829u32]);
    assert(b.drop_last().drop_last().drop_last() =~= seq![35_875u32]);
    assert(b.drop_last().drop_last().drop_last().drop_last() =~= Seq::<u32>::empty());
}

} // verus!
