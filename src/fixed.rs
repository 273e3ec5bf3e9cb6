//! Fixed-point arithmetic: the scale of raw values, division rounding toward
//! zero, and the integer square root.
use vstd::prelude::*;

verus! {

/// Raw units in one unit of length, of time and of mass.
pub const SCALE: i64 = 10_000;

/// The largest argument accepted by `isqrt_u128` (2^126).
pub const ISQRT_LIMIT: u128 = 0x4000_0000_0000_0000_0000_0000_0000_0000;

pub open spec fn abs(a: int) -> int {
    if a >= 0 {
        a
    } else {
        -a
    }
}

/// Division rounding toward zero, as Rust's `/` rounds on signed integers.
pub open spec fn tdiv(a: int, b: int) -> int {
    if a >= 0 {
        a / b
    } else {
        -((-a) / b)
    }
}

/// The integer square root: the largest `r` with `r * r <= n`, built one base-4
/// digit at a time.
pub open spec fn isqrt(n: nat) -> nat
    decreases n,
{
    if n == 0 {
        0
    } else {
        let r = 2 * isqrt(n / 4);
        if (r + 1) * (r + 1) <= n {
            (r + 1) as nat
        } else {
            r
        }
    }
}

proof fn lemma_isqrt_step(n: int, q: int)
    requires
        n > 0,
        q >= 0,
        q * q <= n / 4,
        n / 4 < (q + 1) * (q + 1),
    ensures
        (2 * q) * (2 * q) <= n,
        n < (2 * q + 2) * (2 * q + 2),
{
    let m = n / 4;
    assert(4 * m <= n < 4 * m + 4);
    assert((2 * q) * (2 * q) == 4 * (q * q)) by (nonlinear_arith);
    assert((2 * q + 2) * (2 * q + 2) == 4 * ((q + 1) * (q + 1))) by (nonlinear_arith);
}

/// `isqrt(n)` is the floor of the square root of `n`.
pub proof fn lemma_isqrt(n: nat)
    ensures
        isqrt(n) * isqrt(n) <= n,
        n < (isqrt(n) + 1) * (isqrt(n) + 1),
    decreases n,
{
    if n > 0 {
        lemma_isqrt(n / 4);
        let q = isqrt(n / 4) as int;
        lemma_isqrt_step(n as int, q);
        let r = 2 * q;
        let s = isqrt(n) as int;
        assert(s == if (r + 1) * (r + 1) <= n { r + 1 } else { r });
        if (r + 1) * (r + 1) <= n {
            assert(s * s <= n && n < (s + 1) * (s + 1)) by (nonlinear_arith)
                requires
                    s == r + 1,
                    r == 2 * q,
                    (r + 1) * (r + 1) <= n,
                    n < (2 * q + 2) * (2 * q + 2),
            ;
        } else {
            assert(s * s <= n && n < (s + 1) * (s + 1)) by (nonlinear_arith)
                requires
                    s == r,
                    r == 2 * q,
                    (2 * q) * (2 * q) <= n,
                    n < (r + 1) * (r + 1),
            ;
        }
        assert(isqrt(n) * isqrt(n) == s * s);
        assert((isqrt(n) + 1) * (isqrt(n) + 1) == (s + 1) * (s + 1));
        assert(n < (isqrt(n) + 1) * (isqrt(n) + 1));
    } else {
        assert(isqrt(n) == 0);
        assert(isqrt(n) * isqrt(n) == 0);
        let one = isqrt(n) + 1;
        assert(one == 1);
        assert(one * one == 1);
    }
}

/// An integer whose square is at most `n` is at most `isqrt(n)` in absolute value.
pub proof fn lemma_isqrt_dominates(x: int, n: nat)
    requires
        x * x <= n,
    ensures
        abs(x) <= isqrt(n),
{
    lemma_isqrt(n);
    let r = isqrt(n) as int;
    let a = abs(x);
    assert(a * a == x * x) by (nonlinear_arith)
        requires
            a == abs(x),
    ;
    if a > r {
        assert((r + 1) * (r + 1) <= a * a) by (nonlinear_arith)
            requires
                a >= r + 1,
                r >= 0,
        ;
    }
}

/// The quotient and remainder of rounding toward zero, in absolute values.
pub proof fn lemma_tdiv(a: int, b: int)
    requires
        b > 0,
    ensures
        abs(tdiv(a, b)) == abs(a) / b,
        abs(tdiv(a, b)) * b <= abs(a) < (abs(tdiv(a, b)) + 1) * b,
        a >= 0 ==> tdiv(a, b) >= 0,
        a <= 0 ==> tdiv(a, b) <= 0,
        tdiv(-a, b) == -tdiv(a, b),
{
    let q = abs(a) / b;
    let r = abs(a) % b;
    assert(abs(a) == b * q + r && 0 <= r < b) by {
        vstd::arithmetic::div_mod::lemma_fundamental_div_mod(abs(a), b);
    }
    assert(q >= 0) by {
        vstd::arithmetic::div_mod::lemma_div_pos_is_pos(abs(a), b);
    }
    assert(q * b <= abs(a) < (q + 1) * b) by (nonlinear_arith)
        requires
            abs(a) == b * q + r,
            0 <= r < b,
    ;
    if a == 0 {
        assert(0int / b == 0);
    }
}

/// A numerator at most `k` times the divisor gives a quotient at most `k`.
pub proof fn lemma_tdiv_at_most(a: int, b: int, k: int)
    requires
        b > 0,
        abs(a) <= k * b,
    ensures
        abs(tdiv(a, b)) <= k,
{
    lemma_tdiv(a, b);
    let q = abs(tdiv(a, b));
    assert(q <= k) by (nonlinear_arith)
        requires
            q * b <= abs(a),
            abs(a) <= k * b,
            b > 0,
    ;
}

/// The square root of `n`, rounded down.
pub fn isqrt_u128(n: u128) -> (r: u128)
    requires
        n <= ISQRT_LIMIT,
    ensures
        r == isqrt(n as nat),
    decreases n,
{
    if n == 0 {
        0
    } else {
        let q = isqrt_u128(n / 4);
        proof {
            lemma_isqrt((n / 4) as nat);
            assert(q <= 0x4000_0000_0000_0000) by (nonlinear_arith)
                requires
                    q * q <= n / 4,
                    n <= 0x4000_0000_0000_0000_0000_0000_0000_0000,
            {
                if q > 0x4000_0000_0000_0000 {
                    assert(q * q > 0x4000_0000_0000_0000 * 0x4000_0000_0000_0000);
                }
            }
        }
        let r = 2 * q;
        assert((r + 1) * (r + 1) <= 0x4000_0000_0000_0001_0000_0000_0000_0001) by (nonlinear_arith)
            requires
                r == 2 * q,
                q <= 0x4000_0000_0000_0000,
        ;
        if (r + 1) * (r + 1) <= n {
            r + 1
        } else {
            r
        }
    }
}

} // verus!
