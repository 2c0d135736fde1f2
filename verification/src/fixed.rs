//! Signed 16.16 fixed-point scalars carried in `i64`.
//!
//! A scalar `x` stands for the real number `x / FX_ONE`. All operations keep
//! their result inside `FX_MIN ..= FX_MAX` by saturating (`clip`), so every
//! function here is total; division by zero yields zero. Multiplication and
//! division truncate toward zero, as hardware floating-point conversion to
//! integers does.

use vstd::prelude::*;
use vstd::arithmetic::div_mod::lemma_div_is_ordered;
use vstd::arithmetic::div_mod::lemma_div_nonincreasing;
use vstd::arithmetic::div_mod::lemma_div_pos_is_pos;

verus! {

/// The fixed-point representation of the real number one.
pub const FX_ONE: i64 = 65536;

/// Largest representable scalar (just under 2^31 in real units).
pub const FX_MAX: i64 = 140737488355327;

/// Smallest representable scalar; the range is symmetric.
pub const FX_MIN: i64 = -140737488355327;

/// Whether a mathematical integer is inside the representable range.
pub open spec fn in_fx(x: int) -> bool {
    FX_MIN <= x <= FX_MAX
}

/// Saturation to the representable range.
pub open spec fn clip(x: int) -> int {
    if x > FX_MAX {
        FX_MAX as int
    } else if x < FX_MIN {
        FX_MIN as int
    } else {
        x
    }
}

/// Division truncating toward zero (the `/` of the machine), defined for
/// `d != 0`; written to match the case split of `i64::checked_div`.
pub open spec fn tdiv(x: int, d: int) -> int {
    if x == 0 {
        0
    } else if x > 0 && d > 0 {
        x / d
    } else if x < 0 && d < 0 {
        (x * -1) / (d * -1)
    } else if x < 0 {
        ((x * -1) / d) * -1
    } else {
        (x / (d * -1)) * -1
    }
}

/// What fixed-point multiplication returns: the product rescaled, truncated,
/// and saturated.
pub open spec fn fx_mul_spec(a: int, b: int) -> int {
    clip(tdiv(a * b, FX_ONE as int))
}

/// What fixed-point division returns; zero when the divisor is zero.
pub open spec fn fx_div_spec(a: int, b: int) -> int {
    if b == 0 {
        0
    } else {
        clip(tdiv(a * (FX_ONE as int), b))
    }
}

/// Integer square root, `floor(sqrt(n))`.
pub open spec fn isqrt_spec(n: nat) -> nat
    decreases n,
{
    if n == 0 {
        0
    } else {
        let r = isqrt_spec((n - 1) as nat);
        if (r + 1) * (r + 1) <= n {
            r + 1
        } else {
            r
        }
    }
}

/// What fixed-point square root returns: the square root of the rescaled
/// operand, rounded to the nearest integer; zero on non-positive operands.
pub open spec fn fx_sqrt_spec(x: int) -> int {
    if x <= 0 {
        0
    } else {
        ((isqrt_spec((4 * x * (FX_ONE as int)) as nat) + 1) / 2) as int
    }
}

pub proof fn lemma_isqrt_spec_bounds(n: nat)
    ensures
        isqrt_spec(n) * isqrt_spec(n) <= n,
        n < (isqrt_spec(n) + 1) * (isqrt_spec(n) + 1),
    decreases n,
{
    if n > 0 {
        lemma_isqrt_spec_bounds((n - 1) as nat);
        let r = isqrt_spec((n - 1) as nat);
        if (r + 1) * (r + 1) <= n {
            assert(isqrt_spec(n) == r + 1);
            assert(n < (r + 2) * (r + 2)) by (nonlinear_arith)
                requires
                    n <= (r + 1) * (r + 1),
                    r >= 0,
            ;
        } else {
            assert(isqrt_spec(n) == r);
        }
    } else {
        assert(n < (isqrt_spec(n) + 1) * (isqrt_spec(n) + 1)) by (nonlinear_arith)
            requires
                n == 0,
                isqrt_spec(n) == 0,
        ;
    }
}

pub proof fn lemma_isqrt_unique(n: nat, r: nat)
    requires
        r * r <= n,
        n < (r + 1) * (r + 1),
    ensures
        r == isqrt_spec(n),
{
    lemma_isqrt_spec_bounds(n);
    let s = isqrt_spec(n);
    assert(r == s) by (nonlinear_arith)
        requires
            r * r <= n,
            n < (r + 1) * (r + 1),
            s * s <= n,
            n < (s + 1) * (s + 1),
            r >= 0,
            s >= 0,
    ;
}

/// Truncating division shrinks magnitudes, and the quotient takes the sign
/// of numerator times denominator.
pub proof fn lemma_tdiv_bounds(x: int, d: int)
    requires
        d != 0,
    ensures
        x >= 0 ==> -x <= tdiv(x, d) <= x,
        x < 0 ==> x <= tdiv(x, d) <= -x,
        x >= 0 && d > 0 ==> tdiv(x, d) >= 0,
        x <= 0 && d > 0 ==> tdiv(x, d) <= 0,
        x >= 0 && d < 0 ==> tdiv(x, d) <= 0,
        x <= 0 && d < 0 ==> tdiv(x, d) >= 0,
{
    if x > 0 && d > 0 {
        lemma_div_nonincreasing(x, d);
        lemma_div_pos_is_pos(x, d);
    } else if x < 0 && d < 0 {
        lemma_div_nonincreasing(x * -1, d * -1);
        lemma_div_pos_is_pos(x * -1, d * -1);
    } else if x < 0 && d > 0 {
        lemma_div_nonincreasing(x * -1, d);
        lemma_div_pos_is_pos(x * -1, d);
    } else if x > 0 && d < 0 {
        lemma_div_nonincreasing(x, d * -1);
        lemma_div_pos_is_pos(x, d * -1);
    }
}

/// Truncating division by a positive divisor is monotone in the numerator.
pub proof fn lemma_tdiv_ordered(x: int, y: int, d: int)
    requires
        x <= y,
        d > 0,
    ensures
        tdiv(x, d) <= tdiv(y, d),
{
    lemma_tdiv_bounds(x, d);
    lemma_tdiv_bounds(y, d);
    if x > 0 {
        lemma_div_is_ordered(x, y, d);
    } else if x < 0 && y < 0 {
        lemma_div_is_ordered(y * -1, x * -1, d);
    }
}

/// The sign of a saturated rescaled product follows the signs of the
/// factors.
pub proof fn lemma_mul_spec_sign(a: int, b: int)
    ensures
        a >= 0 && b >= 0 ==> fx_mul_spec(a, b) >= 0,
        a <= 0 && b <= 0 ==> fx_mul_spec(a, b) >= 0,
        a >= 0 && b <= 0 ==> fx_mul_spec(a, b) <= 0,
        a <= 0 && b >= 0 ==> fx_mul_spec(a, b) <= 0,
{
    assert((a >= 0 && b >= 0 ==> a * b >= 0) && (a <= 0 && b <= 0 ==> a * b >= 0) && (a >= 0 && b
        <= 0 ==> a * b <= 0) && (a <= 0 && b >= 0 ==> a * b <= 0)) by (nonlinear_arith);
    lemma_tdiv_bounds(a * b, FX_ONE as int);
}

/// The sign of a saturated fixed-point quotient follows the signs of
/// numerator and denominator.
pub proof fn lemma_div_spec_sign(x: int, k: int)
    ensures
        k > 0 && x >= 0 ==> fx_div_spec(x, k) >= 0,
        k > 0 && x <= 0 ==> fx_div_spec(x, k) <= 0,
        k < 0 && x >= 0 ==> fx_div_spec(x, k) <= 0,
        k < 0 && x <= 0 ==> fx_div_spec(x, k) >= 0,
{
    if k != 0 {
        lemma_tdiv_bounds(x * (FX_ONE as int), k);
        assert((x >= 0 ==> x * (FX_ONE as int) >= 0) && (x <= 0 ==> x * (FX_ONE as int) <= 0))
            by (nonlinear_arith);
    }
}

/// Law: scaling by a factor inside the unit interval never brightens: the
/// rescaled product stays between zero and the other operand.
pub proof fn lemma_mul_spec_tint(a: int, b: int)
    requires
        0 <= a <= FX_ONE as int,
        0 <= b <= FX_MAX as int,
    ensures
        0 <= fx_mul_spec(a, b) <= b,
{
    let sc = FX_ONE as int;
    assert(0 <= a * b <= sc * b) by (nonlinear_arith)
        requires
            0 <= a <= sc,
            0 <= b,
    ;
    lemma_tdiv_bounds(a * b, sc);
    lemma_tdiv_ordered(a * b, sc * b, sc);
    vstd::arithmetic::div_mod::lemma_div_multiples_vanish(b, sc);
    assert(tdiv(sc * b, sc) == b);
}

/// When the numerator's magnitude reaches the divisor's, the quotient's
/// magnitude reaches one, and multiplying the quotient back by the
/// numerator clears one whole unit — strictly away from zero.
pub proof fn lemma_div_mul_reaches(x: int, rad: int)
    requires
        in_fx(x),
        in_fx(rad),
        rad != 0,
        (if x >= 0 {
            x
        } else {
            -x
        }) >= (if rad >= 0 {
            rad
        } else {
            -rad
        }),
    ensures
        rad > 0 ==> fx_mul_spec(fx_div_spec(x, rad), x) >= 1,
        rad < 0 ==> fx_mul_spec(fx_div_spec(x, rad), x) <= -1,
{
    let sc = FX_ONE as int;
    let ax = if x >= 0 {
        x
    } else {
        -x
    };
    let ar = if rad >= 0 {
        rad
    } else {
        -rad
    };
    assert(ar * sc <= ax * sc && ar * sc == sc * ar) by (nonlinear_arith)
        requires
            0 < ar <= ax,
            sc == 65536,
    ;
    lemma_div_is_ordered(ar * sc, ax * sc, ar);
    vstd::arithmetic::div_mod::lemma_div_by_multiple(sc, ar);
    assert((ax * sc) / ar >= sc);
    assert((-x) * sc == -(x * sc) && (x * sc) * -1 == (-x) * sc && (rad) * -1 == -rad)
        by (nonlinear_arith);
    let q0 = tdiv(x * sc, rad);
    assert((x >= 0) == (rad >= 0) ==> q0 >= sc);
    assert((x >= 0) != (rad >= 0) ==> q0 <= -sc);
    let q = clip(q0);
    assert((x >= 0) == (rad >= 0) ==> q >= sc);
    assert((x >= 0) != (rad >= 0) ==> q <= -sc);
    if rad > 0 {
        assert(q * x >= sc) by (nonlinear_arith)
            requires
                (x >= 1 && q >= sc) || (x <= -1 && q <= -sc),
                sc == 65536,
        ;
        lemma_tdiv_ordered(sc, q * x, sc);
        assert(tdiv(sc, sc) == 1);
    } else {
        assert(q * x <= -sc) by (nonlinear_arith)
            requires
                (x >= 1 && q <= -sc) || (x <= -1 && q >= sc),
                sc == 65536,
        ;
        lemma_tdiv_ordered(q * x, -sc, sc);
        assert(tdiv(-sc, sc) == -1);
    }
}

/// Dividing an in-range scalar by one is the identity.
pub proof fn lemma_div_spec_by_one(n: int)
    requires
        in_fx(n),
    ensures
        fx_div_spec(n, FX_ONE as int) == n,
{
    let sc = FX_ONE as int;
    if n > 0 {
        vstd::arithmetic::div_mod::lemma_div_by_multiple(n, sc);
        assert(tdiv(n * sc, sc) == n);
    } else if n < 0 {
        assert((n * sc) * -1 == (-n) * sc) by (nonlinear_arith);
        assert((n * sc) < 0) by (nonlinear_arith)
            requires
                n < 0,
                sc == 65536,
        ;
        vstd::arithmetic::div_mod::lemma_div_by_multiple(-n, sc);
        assert(tdiv(n * sc, sc) == n);
    } else {
        assert(0int * sc == 0) by (nonlinear_arith);
    }
}

fn clamp(v: i64) -> (r: i64)
    ensures
        r as int == clip(v as int),
{
    if v > FX_MAX {
        FX_MAX
    } else if v < FX_MIN {
        FX_MIN
    } else {
        v
    }
}

/// Saturating fixed-point addition.
pub fn fx_add(a: i64, b: i64) -> (r: i64)
    requires
        in_fx(a as int),
        in_fx(b as int),
    ensures
        r as int == clip(a + b),
{
    clamp(a + b)
}

/// Saturating fixed-point subtraction.
pub fn fx_sub(a: i64, b: i64) -> (r: i64)
    requires
        in_fx(a as int),
        in_fx(b as int),
    ensures
        r as int == clip(a - b),
{
    clamp(a - b)
}

/// Fixed-point negation (exact: the range is symmetric).
pub fn fx_neg(a: i64) -> (r: i64)
    requires
        in_fx(a as int),
    ensures
        r as int == -(a as int),
{
    -a
}

/// Saturating fixed-point multiplication.
pub fn fx_mul(a: i64, b: i64) -> (r: i64)
    requires
        in_fx(a as int),
        in_fx(b as int),
    ensures
        r as int == fx_mul_spec(a as int, b as int),
{
    proof {
        assert(-170141183460469231731687303715884105727int <= (a as int) * (b as int)
            <= 170141183460469231731687303715884105727int) by (nonlinear_arith)
            requires
                -140737488355327 <= a as int <= 140737488355327,
                -140737488355327 <= b as int <= 140737488355327,
        ;
    }
    let p: i128 = (a as i128) * (b as i128);
    let q: i128 = match p.checked_div(FX_ONE as i128) {
        Some(q) => q,
        None => 0,
    };
    proof {
        lemma_tdiv_bounds(p as int, FX_ONE as int);
    }
    clamp_wide(q)
}

/// Saturating fixed-point division; zero when the divisor is zero.
pub fn fx_div(a: i64, b: i64) -> (r: i64)
    requires
        in_fx(a as int),
        in_fx(b as int),
    ensures
        r as int == fx_div_spec(a as int, b as int),
{
    if b == 0 {
        return 0;
    }
    proof {
        assert(-170141183460469231731687303715884105727int <= (a as int) * 65536
            <= 170141183460469231731687303715884105727int) by (nonlinear_arith)
            requires
                -140737488355327 <= a as int <= 140737488355327,
        ;
    }
    let p: i128 = (a as i128) * (FX_ONE as i128);
    let q: i128 = match p.checked_div(b as i128) {
        Some(q) => q,
        None => 0,
    };
    proof {
        lemma_tdiv_bounds(p as int, b as int);
    }
    clamp_wide(q)
}

/// Plain truncating integer division (no rescaling), for averaging samples
/// and mapping pixel indices to image-plane coordinates.
pub fn fx_div_int(a: i64, b: i64) -> (r: i64)
    requires
        in_fx(a as int),
        b != 0,
    ensures
        r as int == tdiv(a as int, b as int),
        in_fx(r as int),
{
    let q: i64 = match a.checked_div(b) {
        Some(q) => q,
        None => 0,
    };
    proof {
        lemma_tdiv_bounds(a as int, b as int);
    }
    q
}

fn clamp_wide(v: i128) -> (r: i64)
    ensures
        r as int == clip(v as int),
{
    if v > FX_MAX as i128 {
        FX_MAX
    } else if v < FX_MIN as i128 {
        FX_MIN
    } else {
        v as i64
    }
}

/// Integer square root by bisection.
pub fn isqrt(n: u128) -> (r: u64)
    ensures
        r as nat == isqrt_spec(n as nat),
{
    if n == 0 {
        proof {
            assert(0nat < (0nat + 1) * (0nat + 1)) by (nonlinear_arith);
            lemma_isqrt_unique(0nat, 0nat);
        }
        return 0;
    }
    let mut lo: u128 = 0;
    let mut hi: u128 = 18446744073709551616;
    while lo + 1 < hi
        invariant
            lo < hi <= 18446744073709551616u128,
            (lo as int) * (lo as int) <= n as int,
            (hi as int) * (hi as int) > n as int,
        decreases hi - lo,
    {
        let mid: u128 = lo + (hi - lo) / 2;
        proof {
            assert((mid as int) * (mid as int) <= u128::MAX as int) by (nonlinear_arith)
                requires
                    0 <= mid <= 18446744073709551615u128,
            ;
        }
        if mid * mid <= n {
            lo = mid;
        } else {
            hi = mid;
        }
    }
    proof {
        lemma_isqrt_unique(n as nat, lo as nat);
    }
    lo as u64
}

/// Fixed-point square root, rounded to nearest.
pub fn fx_sqrt(x: i64) -> (r: i64)
    requires
        in_fx(x as int),
    ensures
        r as int == fx_sqrt_spec(x as int),
        0 <= r <= 2 * FX_ONE * FX_ONE,
{
    if x <= 0 {
        return 0;
    }
    let n: u128 = 4 * (x as u128) * (FX_ONE as u128);
    let m: u64 = isqrt(n);
    proof {
        lemma_isqrt_spec_bounds(n as nat);
        assert(m < 2 * (FX_ONE as int) * (FX_ONE as int)) by (nonlinear_arith)
            requires
                (m as int) * (m as int) <= n as int,
                n as int == 4 * (x as int) * (FX_ONE as int),
                x <= FX_MAX,
                FX_MAX < (FX_ONE as int) * (FX_ONE as int) * (FX_ONE as int),
                FX_ONE == 65536,
        ;
    }
    ((m + 1) / 2) as i64
}

} // verus!

