//! Fixed-point scalars. A scalar value `v` is stored as the integer
//! `v * SCALE` rounded toward zero; all geometric arithmetic happens on
//! these raw integers, so each operation has an exact meaning.

use vstd::prelude::*;
use vstd::arithmetic::div_mod::lemma_div_nonincreasing;
use vstd::arithmetic::div_mod::lemma_div_pos_is_pos;
use vstd::arithmetic::div_mod::lemma_div_of0;
use vstd::arithmetic::div_mod::lemma_div_multiples_vanish;
use vstd::arithmetic::div_mod::lemma_div_is_ordered;
use vstd::arithmetic::mul::lemma_mul_strict_upper_bound;

verus! {

/// Raw units per whole unit: three decimal digits of fraction, so steps
/// such as one tenth of a unit are represented exactly.
pub const SCALE: i64 = 1000;

/// Largest raw magnitude (2^62) a stored scalar may take. Results outside
/// `[-FP_MAX, FP_MAX]` are reported as `None` by the checked operations.
pub const FP_MAX: i64 = 0x4000_0000_0000_0000;

/// |x| as a mathematical integer.
pub open spec fn iabs(x: int) -> int {
    if x >= 0 { x } else { -x }
}

/// A raw scalar is in range.
pub open spec fn fits(x: int) -> bool {
    -(FP_MAX as int) <= x && x <= FP_MAX as int
}

/// Division truncating toward zero: the rounding used by the executable
/// arithmetic. (`/` on `int` is Euclidean, which differs for negative
/// operands.)
pub open spec fn tdiv(a: int, b: int) -> int {
    if (a >= 0) == (b >= 0) {
        iabs(a) / iabs(b)
    } else {
        -(iabs(a) / iabs(b))
    }
}

/// The raw result of a checked operation, as a mathematical integer.
pub open spec fn oi(r: Option<i64>) -> Option<int> {
    match r {
        Some(v) => Some(v as int),
        None => None,
    }
}

pub proof fn lemma_tdiv_zero(b: int)
    requires
        b != 0,
    ensures
        tdiv(0, b) == 0,
{
    lemma_div_of0(iabs(b));
}

/// Truncating division undoes an exact multiplication.
pub proof fn lemma_tdiv_mul_cancel(x: int, n: int)
    requires
        n > 0,
    ensures
        tdiv(x * n, n) == x,
{
    if x >= 0 {
        assert(iabs(x * n) == x * n) by (nonlinear_arith)
            requires x >= 0 && n > 0;
        lemma_div_multiples_vanish(x, n);
        assert(n * x == x * n) by (nonlinear_arith);
    } else {
        assert(x * n < 0) by (nonlinear_arith)
            requires x < 0 && n > 0;
        assert(iabs(x * n) == (-x) * n) by (nonlinear_arith)
            requires x < 0 && n > 0;
        lemma_div_multiples_vanish(-x, n);
        assert(n * (-x) == (-x) * n) by (nonlinear_arith);
    }
}

/// The interpolation step `tdiv((b - a) * k, n)` with `0 <= k <= n` never
/// exceeds the gap `|b - a|`.
pub proof fn lemma_tdiv_lerp_bound(a: int, b: int, k: int, n: int)
    requires
        0 < n,
        0 <= k <= n,
    ensures
        iabs(tdiv((b - a) * k, n)) <= iabs(b - a),
{
    let g = b - a;
    assert(iabs(g * k) == iabs(g) * k) by (nonlinear_arith)
        requires k >= 0;
    assert(iabs(g) * k <= iabs(g) * n) by (nonlinear_arith)
        requires k <= n && iabs(g) >= 0;
    lemma_div_is_ordered(iabs(g) * k, iabs(g) * n, n);
    lemma_div_multiples_vanish(iabs(g), n);
    assert(n * iabs(g) == iabs(g) * n) by (nonlinear_arith);
    lemma_div_pos_is_pos(iabs(g) * k, n);
}

/// Truncating division on wide integers, the basis of the checked
/// fixed-point operations.
pub fn div_trunc(a: i128, b: i128) -> (q: i128)
    requires
        b != 0,
        a > i128::MIN,
        b > i128::MIN,
    ensures
        q == tdiv(a as int, b as int),
{
    let ua: u128 = if a >= 0 { a as u128 } else { (-a) as u128 };
    let ub: u128 = if b >= 0 { b as u128 } else { (-b) as u128 };
    let uq: u128 = ua / ub;
    proof {
        assert(ua as int == iabs(a as int));
        assert(ub as int == iabs(b as int));
        lemma_div_nonincreasing(ua as int, ub as int);
        lemma_div_pos_is_pos(ua as int, ub as int);
    }
    if (a >= 0) == (b >= 0) {
        uq as i128
    } else {
        -(uq as i128)
    }
}

/// Checked fixed-point addition.
pub open spec fn fp_add_spec(a: int, b: int) -> Option<int> {
    if fits(a + b) {
        Some(a + b)
    } else {
        None
    }
}

pub fn fp_add(a: i64, b: i64) -> (r: Option<i64>)
    ensures
        oi(r) == fp_add_spec(a as int, b as int),
{
    let s: i128 = a as i128 + b as i128;
    if -(FP_MAX as i128) <= s && s <= FP_MAX as i128 {
        Some(s as i64)
    } else {
        None
    }
}

/// Checked fixed-point subtraction.
pub open spec fn fp_sub_spec(a: int, b: int) -> Option<int> {
    if fits(a - b) {
        Some(a - b)
    } else {
        None
    }
}

pub fn fp_sub(a: i64, b: i64) -> (r: Option<i64>)
    ensures
        oi(r) == fp_sub_spec(a as int, b as int),
{
    let s: i128 = a as i128 - b as i128;
    if -(FP_MAX as i128) <= s && s <= FP_MAX as i128 {
        Some(s as i64)
    } else {
        None
    }
}

/// Checked fixed-point multiplication: the raw product is rescaled by
/// `SCALE`, truncating toward zero.
pub open spec fn fp_mul_spec(a: int, b: int) -> Option<int> {
    let q = tdiv(a * b, SCALE as int);
    if fits(q) {
        Some(q)
    } else {
        None
    }
}

pub fn fp_mul(a: i64, b: i64) -> (r: Option<i64>)
    ensures
        oi(r) == fp_mul_spec(a as int, b as int),
{
    let wa: i128 = a as i128;
    let wb: i128 = b as i128;
    proof {
        assert(wa * wb <= 0x4000_0000_0000_0000_0000_0000_0000_0000int
            && wa * wb >= -0x4000_0000_0000_0000_0000_0000_0000_0000int) by (nonlinear_arith)
            requires
                -0x8000_0000_0000_0000int <= wa <= 0x7FFF_FFFF_FFFF_FFFFint,
                -0x8000_0000_0000_0000int <= wb <= 0x7FFF_FFFF_FFFF_FFFFint;
    }
    let p: i128 = wa * wb;
    let q: i128 = div_trunc(p, SCALE as i128);
    proof {
        lemma_div_nonincreasing(iabs(p as int), SCALE as int);
        lemma_div_pos_is_pos(iabs(p as int), SCALE as int);
    }
    if -(FP_MAX as i128) <= q && q <= FP_MAX as i128 {
        Some(q as i64)
    } else {
        None
    }
}

/// Checked fixed-point division. A zero divisor is reported as `None`,
/// never evaluated.
pub open spec fn fp_div_spec(a: int, b: int) -> Option<int> {
    if b == 0 {
        None
    } else {
        let q = tdiv(a * SCALE, b);
        if fits(q) {
            Some(q)
        } else {
            None
        }
    }
}

pub fn fp_div(a: i64, b: i64) -> (r: Option<i64>)
    ensures
        oi(r) == fp_div_spec(a as int, b as int),
{
    if b == 0 {
        return None;
    }
    let wa: i128 = a as i128;
    proof {
        assert(wa * (SCALE as int) <= 0x2000_0000_0000_0000_0000int
            && wa * (SCALE as int) >= -0x2000_0000_0000_0000_0000int) by (nonlinear_arith)
            requires
                -0x8000_0000_0000_0000int <= wa <= 0x7FFF_FFFF_FFFF_FFFFint,
                SCALE as int == 1000;
    }
    let num: i128 = wa * (SCALE as i128);
    let q: i128 = div_trunc(num, b as i128);
    proof {
        lemma_div_nonincreasing(iabs(num as int), iabs(b as int));
        lemma_div_pos_is_pos(iabs(num as int), iabs(b as int));
    }
    if -(FP_MAX as i128) <= q && q <= FP_MAX as i128 {
        Some(q as i64)
    } else {
        None
    }
}

/// `r` is the integer square root of `n`, rounded down.
pub open spec fn is_isqrt(n: int, r: int) -> bool {
    0 <= r && r * r <= n && n < (r + 1) * (r + 1)
}

/// The integer square root, rounded down. Meaningful for `n >= 0`; see
/// [`lemma_isqrt_exists`].
pub open spec fn isqrt_spec(n: int) -> int {
    choose|r: int| is_isqrt(n, r)
}

/// Every nonnegative integer has a floor square root.
pub proof fn lemma_isqrt_witness(n: int) -> (r: int)
    requires
        n >= 0,
    ensures
        is_isqrt(n, r),
    decreases n,
{
    if n == 0 {
        assert(is_isqrt(0, 0));
        0
    } else {
        let r = lemma_isqrt_witness(n - 1);
        if (r + 1) * (r + 1) <= n {
            assert(n == (r + 1) * (r + 1));
            assert((r + 2) * (r + 2) > n) by (nonlinear_arith)
                requires r >= 0 && n == (r + 1) * (r + 1);
            assert(is_isqrt(n, r + 1));
            r + 1
        } else {
            assert(is_isqrt(n, r));
            r
        }
    }
}

pub proof fn lemma_isqrt_exists(n: int)
    requires
        n >= 0,
    ensures
        is_isqrt(n, isqrt_spec(n)),
{
    let w = lemma_isqrt_witness(n);
    assert(exists|r: int| is_isqrt(n, r)) by {
        assert(is_isqrt(n, w));
    }
}

pub proof fn lemma_isqrt_unique(n: int, r: int)
    requires
        n >= 0,
        is_isqrt(n, r),
    ensures
        r == isqrt_spec(n),
{
    lemma_isqrt_exists(n);
    let s = isqrt_spec(n);
    assert(r == s) by (nonlinear_arith)
        requires
            0 <= r && r * r <= n && n < (r + 1) * (r + 1),
            0 <= s && s * s <= n && n < (s + 1) * (s + 1);
}

/// Integer square root by bisection.
pub fn isqrt(n: u128) -> (r: u128)
    ensures
        r as int == isqrt_spec(n as int),
        is_isqrt(n as int, r as int),
{
    let mut lo: u128 = 0;
    let mut hi: u128 = 0x1_0000_0000_0000_0000;
    proof {
        assert(n as int <= u128::MAX as int);
        assert((0x1_0000_0000_0000_0000int) * (0x1_0000_0000_0000_0000int) > u128::MAX as int)
            by (nonlinear_arith);
    }
    while lo + 1 < hi
        invariant
            0 <= lo < hi <= 0x1_0000_0000_0000_0000,
            (lo as int) * (lo as int) <= n as int,
            (n as int) < (hi as int) * (hi as int),
        decreases hi - lo,
    {
        let mid: u128 = lo + (hi - lo) / 2;
        assert(lo < mid < hi);
        proof {
            lemma_mul_strict_upper_bound(mid as int, 0x1_0000_0000_0000_0000int, mid as int, 0x1_0000_0000_0000_0000int);
        }
        let sq: u128 = mid * mid;
        if sq <= n {
            lo = mid;
        } else {
            hi = mid;
        }
    }
    proof {
        lemma_isqrt_unique(n as int, lo as int);
    }
    lo
}

} // verus!
