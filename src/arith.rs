//! Integer square roots: the floor of the square root of a natural number.

use vstd::prelude::*;

verus! {

/// `r` is the floor of the square root of `n`.
pub open spec fn is_floor_sqrt(r: nat, n: nat) -> bool {
    r * r <= n && n < (r + 1) * (r + 1)
}

/// The floor of the square root of `n`, defined by counting up from zero.
pub open spec fn floor_sqrt(n: nat) -> nat
    decreases n,
{
    if n == 0 {
        0
    } else {
        let r = floor_sqrt((n - 1) as nat);
        if (r + 1) * (r + 1) <= n {
            r + 1
        } else {
            r
        }
    }
}

/// Squaring is monotone on the naturals.
pub proof fn lemma_square_le(a: nat, b: nat)
    requires
        a <= b,
    ensures
        a * a <= b * b,
{
    assert(a * a <= b * b) by (nonlinear_arith)
        requires
            a <= b,
    ;
}

/// `floor_sqrt` meets its defining bounds.
pub proof fn lemma_floor_sqrt_bounds(n: nat)
    ensures
        is_floor_sqrt(floor_sqrt(n), n),
    decreases n,
{
    if n > 0 {
        let m = (n - 1) as nat;
        lemma_floor_sqrt_bounds(m);
        let r = floor_sqrt(m);
        assert((r + 1) * (r + 1) < (r + 2) * (r + 2)) by (nonlinear_arith);
        if (r + 1) * (r + 1) <= n {
            assert(floor_sqrt(n) == r + 1);
            let s = r + 1;
            assert((s + 1) * (s + 1) == (r + 2) * (r + 2));
            assert(is_floor_sqrt(s, n));
        } else {
            assert(floor_sqrt(n) == r);
            assert(is_floor_sqrt(r, n));
        }
    } else {
        assert(floor_sqrt(n) == 0);
        assert(0 * 0 <= 0 && 0 < (0 + 1) * (0 + 1)) by (nonlinear_arith);
    }
}

/// At most one natural number is the floor of the square root of `n`.
pub proof fn lemma_floor_sqrt_unique(a: nat, b: nat, n: nat)
    requires
        is_floor_sqrt(a, n),
        is_floor_sqrt(b, n),
    ensures
        a == b,
{
    if a < b {
        lemma_square_le(a + 1, b);
    } else if b < a {
        lemma_square_le(b + 1, a);
    }
}

/// The bounds characterise `floor_sqrt`.
pub proof fn lemma_floor_sqrt_is(r: nat, n: nat)
    requires
        is_floor_sqrt(r, n),
    ensures
        floor_sqrt(n) == r,
{
    lemma_floor_sqrt_bounds(n);
    lemma_floor_sqrt_unique(floor_sqrt(n), r, n);
}

/// The square root of a perfect square.
pub proof fn lemma_floor_sqrt_of_square(k: nat)
    ensures
        floor_sqrt(k * k) == k,
{
    lemma_square_le(k, k + 1);
    assert(k * k < (k + 1) * (k + 1)) by (nonlinear_arith);
    lemma_floor_sqrt_is(k, k * k);
}

/// `floor_sqrt` is monotone.
pub proof fn lemma_floor_sqrt_monotone(m: nat, n: nat)
    requires
        m <= n,
    ensures
        floor_sqrt(m) <= floor_sqrt(n),
{
    lemma_floor_sqrt_bounds(m);
    lemma_floor_sqrt_bounds(n);
    if floor_sqrt(m) > floor_sqrt(n) {
        lemma_square_le(floor_sqrt(n) + 1, floor_sqrt(m));
    }
}

/// The floor of the square root of `n`, by bisection.
pub fn integer_sqrt(n: u128) -> (r: u64)
    ensures
        r as nat == floor_sqrt(n as nat),
{
    let mut lo: u128 = 0;
    let mut hi: u128 = 0x1_0000_0000_0000_0000;
    while lo + 1 < hi
        invariant
            lo < hi <= 0x1_0000_0000_0000_0000,
            lo * lo <= n,
            n < hi * hi,
        decreases hi - lo,
    {
        let mid: u128 = lo + (hi - lo) / 2;
        assert(mid < 0x1_0000_0000_0000_0000);
        assert(mid * mid < 0x1_0000_0000_0000_0000 * 0x1_0000_0000_0000_0000) by (nonlinear_arith)
            requires
                mid < 0x1_0000_0000_0000_0000,
        ;
        if mid * mid <= n {
            lo = mid;
        } else {
            hi = mid;
        }
    }
    assert(hi == lo + 1);
    proof {
        lemma_floor_sqrt_is(lo as nat, n as nat);
    }
    lo as u64
}

} // verus!
