//! Powers of two, and masking by `n - 1` as reduction modulo `n`.
use vstd::arithmetic::power2::{
    lemma2_to64, lemma2_to64_rest, lemma_pow2_pos, lemma_pow2_strictly_increases, lemma_pow2_unfold, pow2,
};
use vstd::arithmetic::div_mod::{lemma_mod_sub_multiples_vanish, lemma_small_mod};
use vstd::bits::lemma_usize_low_bits_mask_is_mod;
use vstd::prelude::*;

verus! {

/// `n` is `2^e` for some natural `e`.
pub open spec fn is_power_of_two(n: int) -> bool {
    exists|e: nat| pow2(e) == n
}

proof fn lemma_exponent_fits(n: usize, e: nat)
    requires
        pow2(e) == n,
    ensures
        e < usize::BITS,
{
    lemma2_to64();
    if e >= usize::BITS {
        if usize::BITS < e {
            lemma_pow2_strictly_increases(usize::BITS as nat, e);
        }
        assert(usize::BITS == 32 || usize::BITS == 64);
    }
}

/// For a power of two `c`, masking with `c - 1` is reduction modulo `c`;
/// below `2 * c`, which fits in a `usize`, that reduction subtracts `c` at most
/// once.
pub proof fn lemma_mask_is_mod(x: usize, c: usize)
    requires
        is_power_of_two(c as int),
    ensures
        c > 0,
        2 * c - 1 <= usize::MAX,
        x & ((c - 1) as usize) == x % c,
        x < 2 * c ==> x % c == if x < c {
            x as int
        } else {
            x - c
        },
{
    let e = choose|e: nat| pow2(e) == c;
    lemma_pow2_pos(e);
    lemma_exponent_fits(c, e);
    lemma_usize_low_bits_mask_is_mod(x, e);
    lemma2_to64();
    lemma2_to64_rest();
    if e + 1 < usize::BITS {
        lemma_pow2_strictly_increases(e, (usize::BITS - 1) as nat);
    }
    if usize::BITS == 32 {
        assert(usize::MAX == 0xffff_ffff);
        assert(c <= 0x8000_0000);
    } else {
        assert(usize::MAX == 0xffff_ffff_ffff_ffff);
        assert(c <= 0x8000_0000_0000_0000);
    }
    if x < 2 * c {
        if x < c {
            lemma_small_mod(x as nat, c as nat);
        } else {
            lemma_small_mod((x - c) as nat, c as nat);
            lemma_mod_sub_multiples_vanish(x as int, c as int);
        }
    }
}

/// Whether `n` is a power of two.
pub fn check_power_of_two(n: usize) -> (r: bool)
    ensures
        r == is_power_of_two(n as int),
{
    if n == 0 {
        proof {
            if is_power_of_two(0) {
                let e = choose|e: nat| pow2(e) == 0;
                lemma_pow2_pos(e);
            }
        }
        return false;
    }
    let mut p: usize = 1;
    let ghost mut e: nat = 0;
    proof {
        lemma2_to64();
    }
    while p < n
        invariant
            0 < p <= n || p == 1,
            p == pow2(e),
            n > 0,
            forall|k: nat| k < e ==> pow2(k) < n,
        decreases n - p,
    {
        proof {
            lemma_pow2_unfold(e + 1);
        }
        if p > n / 2 {
            proof {
                // the next power, 2 * p, already exceeds n
                assert forall|k: nat| pow2(k) == n implies false by {
                    if k <= e {
                        if k < e {
                            lemma_pow2_strictly_increases(k, e);
                        }
                    } else {
                        if k > e + 1 {
                            lemma_pow2_strictly_increases(e + 1, k);
                        }
                    }
                }
            }
            return false;
        }
        p = p * 2;
        proof {
            e = e + 1;
        }
    }
    proof {
        if p != n {
            assert forall|k: nat| pow2(k) == n implies false by {
                if k < e {
                } else if k > e {
                    lemma_pow2_strictly_increases(e, k);
                }
            }
        }
    }
    p == n
}

} // verus!
