//! Saturating and truncating fixed-point arithmetic helpers shared by the
//! simulation stages, together with an integer square root.

use vstd::prelude::*;

verus! {

/// Clip a mathematical integer into the `i64` range.
pub open spec fn sat_i64(x: int) -> int {
    if x > i64::MAX {
        i64::MAX as int
    } else if x < i64::MIN {
        i64::MIN as int
    } else {
        x
    }
}

/// Division truncating toward zero, as Rust's `/` computes it.
pub open spec fn div_trunc(a: int, d: int) -> int
    recommends
        d > 0,
{
    if a >= 0 {
        a / d
    } else {
        -((-a) / d)
    }
}

/// The absolute value of a mathematical integer.
pub open spec fn iabs(x: int) -> int {
    if x < 0 {
        -x
    } else {
        x
    }
}

/// Squaring respects the ordering of magnitudes.
pub proof fn lemma_abs_le_sq(a: int, b: int)
    requires
        iabs(a) <= iabs(b),
    ensures
        a * a <= b * b,
{
    let p = iabs(a);
    let q = iabs(b);
    assert(a * a <= b * b) by (nonlinear_arith)
        requires
            p >= 0,
            q >= 0,
            p <= q,
            p == a || p == -a,
            q == b || q == -b,
    ;
}

/// Clip `x` into `[lo, hi]`.
pub open spec fn clamp(x: int, lo: int, hi: int) -> int {
    if x < lo {
        lo
    } else if x > hi {
        hi
    } else {
        x
    }
}

/// Saturating `i64` addition.
pub fn sat_add(a: i64, b: i64) -> (r: i64)
    ensures
        r == sat_i64(a + b),
{
    let s: i128 = a as i128 + b as i128;
    if s > i64::MAX as i128 {
        i64::MAX
    } else if s < i64::MIN as i128 {
        i64::MIN
    } else {
        s as i64
    }
}

/// `a * b / d` with the product taken exactly, the quotient truncated toward
/// zero, and the result saturated into `i64`.
pub fn mul_div(a: i64, b: i64, d: u64) -> (r: i64)
    requires
        d >= 1,
    ensures
        r == sat_i64(div_trunc(a * b, d as int)),
{
    proof {
        assert((a as int) * (b as int) <= 0x4000_0000_0000_0000_0000_0000_0000_0000
            && (a as int) * (b as int) >= -0x4000_0000_0000_0000_0000_0000_0000_0000) by (nonlinear_arith)
            requires
                -0x8000_0000_0000_0000 <= a <= 0x7fff_ffff_ffff_ffff,
                -0x8000_0000_0000_0000 <= b <= 0x7fff_ffff_ffff_ffff,
        ;
    }
    let p: i128 = (a as i128) * (b as i128);
    if p >= 0 {
        let q: u128 = (p as u128) / (d as u128);
        if q > i64::MAX as u128 {
            i64::MAX
        } else {
            q as i64
        }
    } else {
        let q: u128 = ((-p) as u128) / (d as u128);
        if q >= 0x8000_0000_0000_0000u128 {
            i64::MIN
        } else {
            -(q as i64)
        }
    }
}

/// Truncating division sends magnitudes to divided magnitudes, exactly.
pub proof fn lemma_div_trunc_abs(a: int, d: int)
    requires
        d >= 1,
    ensures
        iabs(div_trunc(a, d)) == iabs(a) / d,
{
    if a >= 0 {
        vstd::arithmetic::div_mod::lemma_div_pos_is_pos(a, d);
    } else {
        vstd::arithmetic::div_mod::lemma_div_pos_is_pos(-a, d);
    }
}

/// A bound on a scaled product: if `|a| <= ba` and `0 <= b <= bb` then
/// `|a * b / d| <= ba * bb / d`.
pub proof fn lemma_scaled_bound(a: int, b: int, d: int, ba: int, bb: int)
    requires
        d >= 1,
        iabs(a) <= ba,
        0 <= b <= bb,
    ensures
        iabs(div_trunc(a * b, d)) <= ba * bb / d,
{
    let aa = iabs(a);
    assert(-(ba * bb) <= a * b && a * b <= ba * bb) by (nonlinear_arith)
        requires
            aa >= 0,
            aa <= ba,
            0 <= b <= bb,
            aa == a || aa == -a,
    ;
    lemma_div_trunc_abs(a * b, d);
    vstd::arithmetic::div_mod::lemma_div_is_ordered(iabs(a * b), ba * bb, d);
}

/// The integer square root: the largest `r` with `r * r <= n`.
pub open spec fn sqrt_floor(n: nat) -> nat
    decreases n,
{
    if n == 0 {
        0
    } else {
        let p = sqrt_floor((n - 1) as nat);
        if (p + 1) * (p + 1) <= n {
            p + 1
        } else {
            p
        }
    }
}

/// `sqrt_floor(n)` squares to at most `n`, and the next integer squares past it.
pub proof fn lemma_sqrt_floor_bounds(n: nat)
    ensures
        (sqrt_floor(n) as int) * (sqrt_floor(n) as int) <= n,
        n < (sqrt_floor(n) as int + 1) * (sqrt_floor(n) as int + 1),
    decreases n,
{
    if n == 0 {
        assert(sqrt_floor(0) == 0);
    } else {
        lemma_sqrt_floor_bounds((n - 1) as nat);
        let p = sqrt_floor((n - 1) as nat) as int;
        if (p + 1) * (p + 1) <= n {
            assert(sqrt_floor(n) == p + 1);
            assert(n <= (p + 1) * (p + 1));
            assert((p + 1) * (p + 1) < (p + 2) * (p + 2)) by (nonlinear_arith)
                requires
                    p >= 0,
            ;
            assert(n < (p + 2) * (p + 2));
        } else {
            assert(sqrt_floor(n) == p);
            assert(p * p <= n - 1);
            assert(n < (p + 1) * (p + 1));
        }
    }
}

/// Any integer whose square brackets `n` is the integer square root of `n`.
pub proof fn lemma_sqrt_floor_unique(n: nat, r: nat)
    requires
        (r as int) * (r as int) <= n,
        n < (r as int + 1) * (r as int + 1),
    ensures
        r == sqrt_floor(n),
{
    lemma_sqrt_floor_bounds(n);
    let s = sqrt_floor(n) as int;
    let ri = r as int;
    if ri < s {
        assert((ri + 1) * (ri + 1) <= s * s) by (nonlinear_arith)
            requires
                0 <= ri,
                ri + 1 <= s,
        ;
    }
    if s < ri {
        assert((s + 1) * (s + 1) <= ri * ri) by (nonlinear_arith)
            requires
                0 <= s,
                s + 1 <= ri,
        ;
    }
}

/// Any integer whose square is at most `n` is at most the integer square
/// root of `n`.
pub proof fn lemma_sqrt_floor_ge(n: nat, k: int)
    requires
        0 <= k,
        k * k <= n,
    ensures
        k <= sqrt_floor(n),
{
    lemma_sqrt_floor_bounds(n);
    let s = sqrt_floor(n) as int;
    if k > s {
        assert((s + 1) * (s + 1) <= k * k) by (nonlinear_arith)
            requires
                0 <= s,
                s + 1 <= k,
        ;
    }
}

/// The integer square root is monotone.
pub proof fn lemma_sqrt_floor_monotone(m: nat, n: nat)
    requires
        m <= n,
    ensures
        sqrt_floor(m) <= sqrt_floor(n),
{
    lemma_sqrt_floor_bounds(m);
    lemma_sqrt_floor_bounds(n);
    let sm = sqrt_floor(m) as int;
    let sn = sqrt_floor(n) as int;
    if sn < sm {
        assert((sn + 1) * (sn + 1) <= sm * sm) by (nonlinear_arith)
            requires
                0 <= sn,
                sn + 1 <= sm,
        ;
    }
}

/// Computes the integer square root by binary search.
pub fn isqrt(n: u128) -> (r: u64)
    ensures
        r == sqrt_floor(n as nat),
{
    let mut lo: u64 = 0;
    let mut hi: u64 = u64::MAX;
    proof {
        assert((hi as int + 1) * (hi as int + 1) > u128::MAX) by (nonlinear_arith)
            requires
                hi == u64::MAX,
        ;
    }
    while lo < hi
        invariant
            lo <= hi,
            (lo as int) * (lo as int) <= n as int,
            (n as int) < (hi as int + 1) * (hi as int + 1),
        decreases hi - lo,
    {
        let mid: u64 = lo + (hi - lo) / 2 + 1;
        proof {
            assert((mid as int) * (mid as int) <= (u64::MAX as int) * (u64::MAX as int)
                && (u64::MAX as int) * (u64::MAX as int) < u128::MAX) by (nonlinear_arith)
                requires
                    0 <= mid <= u64::MAX,
            ;
        }
        let sq: u128 = (mid as u128) * (mid as u128);
        if sq <= n {
            lo = mid;
        } else {
            hi = mid - 1;
        }
    }
    proof {
        lemma_sqrt_floor_unique(n as nat, lo as nat);
    }
    lo
}

} // verus!
