use vstd::prelude::*;

verus! {

/// One whole unit of a rate: rates are held in millionths.
pub const UNIT: u32 = 1_000_000;

/// `x` clamped to the range of `i64`.
pub open spec fn clamp64(x: int) -> int {
    if x < i64::MIN as int {
        i64::MIN as int
    } else if x > i64::MAX as int {
        i64::MAX as int
    } else {
        x
    }
}

/// `x` scaled by a rate of `rate` millionths, rounded towards negative infinity.
pub open spec fn scaled(rate: int, x: int) -> int {
    (rate * x) / (UNIT as int)
}

/// Saturating conversion of a wide integer to `i64`.
pub fn saturate(x: i128) -> (r: i64)
    ensures
        r == clamp64(x as int),
{
    if x < i64::MIN as i128 {
        i64::MIN
    } else if x > i64::MAX as i128 {
        i64::MAX
    } else {
        x as i64
    }
}

/// `x` times a rate of `rate` millionths, rounded down, saturated to `i64`.
pub fn scale(rate: u32, x: i64) -> (r: i64)
    ensures
        r == clamp64(scaled(rate as int, x as int)),
{
    proof {
        lemma_product_fits(rate as int, x as int);
    }
    let p: i128 = rate as i128 * x as i128;
    saturate(floor_div(p, UNIT as i128))
}

/// Division rounded towards negative infinity by a positive divisor.
pub fn floor_div(p: i128, d: i128) -> (q: i128)
    requires
        d > 0,
        p > i128::MIN,
    ensures
        q == p as int / d as int,
{
    if p >= 0 {
        p / d
    } else {
        let n: i128 = -p;
        let m: i128 = (n - 1) / d;
        proof {
            lemma_floor_of_negative(n as int, d as int);
        }
        -m - 1
    }
}

proof fn lemma_floor_of_negative(n: int, d: int)
    requires
        n > 0,
        d > 0,
    ensures
        (-n) / d == -((n - 1) / d) - 1,
{
    let m = (n - 1) / d;
    let r = (n - 1) % d;
    assert(n - 1 == m * d + r && 0 <= r < d) by {
        vstd::arithmetic::div_mod::lemma_fundamental_div_mod(n - 1, d);
    }
    assert(-n == (-m - 1) * d + (d - 1 - r)) by (nonlinear_arith)
        requires
            n - 1 == m * d + r,
    ;
    vstd::arithmetic::div_mod::lemma_fundamental_div_mod_converse(-n, d, -m - 1, d - 1 - r);
}

proof fn lemma_product_fits(a: int, b: int)
    requires
        0 <= a <= u32::MAX as int,
        i64::MIN as int <= b <= i64::MAX as int,
    ensures
        -0x1_0000_0000_0000_0000_0000_0000 < a * b < 0x1_0000_0000_0000_0000_0000_0000,
{
    assert(-0x1_0000_0000_0000_0000_0000_0000 < a * b < 0x1_0000_0000_0000_0000_0000_0000) by (nonlinear_arith)
        requires
            0 <= a <= u32::MAX as int,
            i64::MIN as int <= b <= i64::MAX as int,
    ;
}

/// `a <= k * sqrt(v)`, stated without the square root (for `v >= 0`).
pub open spec fn at_most_times_sqrt(a: int, k: int, v: int) -> bool {
    if k >= 0 {
        a <= 0 || a * a <= k * k * v
    } else {
        a < 0 && a * a >= k * k * v
    }
}

/// `k` is the ceiling of `a / sqrt(v)`: the least integer `k` with `a <= k * sqrt(v)`.
pub open spec fn is_ceil_over_sqrt(k: int, a: int, v: int) -> bool {
    at_most_times_sqrt(a, k, v) && !at_most_times_sqrt(a, k - 1, v)
}

/// The ceiling of `a / sqrt(v)`.
pub open spec fn ceil_over_sqrt_spec(a: int, v: int) -> int {
    choose|k: int| is_ceil_over_sqrt(k, a, v)
}

proof fn lemma_at_most_monotone(a: int, j: int, k: int, v: int)
    requires
        j <= k,
        v >= 0,
        at_most_times_sqrt(a, j, v),
    ensures
        at_most_times_sqrt(a, k, v),
{
    if j >= 0 && a > 0 {
        assert(j * j * v <= k * k * v) by (nonlinear_arith)
            requires
                0 <= j <= k,
                v >= 0,
        ;
    } else if j < 0 && k < 0 {
        assert(k * k * v <= j * j * v) by (nonlinear_arith)
            requires
                j <= k < 0,
                v >= 0,
        ;
    }
}

/// Only one integer is the ceiling of `a / sqrt(v)`.
pub proof fn lemma_ceil_over_sqrt_unique(k: int, a: int, v: int)
    requires
        v >= 0,
        is_ceil_over_sqrt(k, a, v),
    ensures
        ceil_over_sqrt_spec(a, v) == k,
{
    let c = ceil_over_sqrt_spec(a, v);
    assert(is_ceil_over_sqrt(c, a, v));
    if c < k {
        lemma_at_most_monotone(a, c, k - 1, v);
    } else if k < c {
        lemma_at_most_monotone(a, k, c - 1, v);
    }
}

/// The integer square root of `n`, rounded down.
pub fn floor_sqrt(n: u128) -> (r: u128)
    ensures
        r * r <= n < (r + 1) * (r + 1),
        r < 0x1_0000_0000_0000_0000,
{
    let mut lo: u128 = 0;
    let mut hi: u128 = 0x1_0000_0000_0000_0000;
    assert(n < hi * hi);
    while hi - lo > 1
        invariant
            lo < hi <= 0x1_0000_0000_0000_0000,
            lo * lo <= n,
            n < hi * hi,
        decreases hi - lo,
    {
        let mid: u128 = lo + (hi - lo) / 2;
        assert(mid * mid < 0x1_0000_0000_0000_0000_0000_0000_0000_0000) by (nonlinear_arith)
            requires
                mid < 0x1_0000_0000_0000_0000,
        ;
        if mid * mid <= n {
            lo = mid;
        } else {
            hi = mid;
        }
    }
    lo
}

proof fn lemma_square_bounds(a: int, b: int)
    requires
        0 <= a <= b,
    ensures
        a * a <= b * b,
{
    assert(a * a <= b * b) by (nonlinear_arith)
        requires
            0 <= a <= b,
    ;
}

proof fn lemma_ceil_case(a: int, v: int, q: int, k: int)
    requires
        a > 0,
        v >= 1,
        q == (a * a + v - 1) / v,
        (k - 1) * (k - 1) < q <= k * k,
        k >= 1,
    ensures
        is_ceil_over_sqrt(k, a, v),
        k <= a,
{
    let s = a * a;
    vstd::arithmetic::div_mod::lemma_fundamental_div_mod(s + v - 1, v);
    let r = (s + v - 1) % v;
    assert(s + v - 1 == v * q + r && 0 <= r < v);
    // q * v >= s, so s <= k * k * v
    assert(s <= k * k * v) by (nonlinear_arith)
        requires
            s + v - 1 == v * q + r,
            0 <= r < v,
            q <= k * k,
            v >= 1,
    ;
    // (k - 1)^2 <= q - 1, and (q - 1) * v < s
    assert((k - 1) * (k - 1) * v < s) by (nonlinear_arith)
        requires
            s + v - 1 == v * q + r,
            0 <= r < v,
            (k - 1) * (k - 1) < q,
            v >= 1,
    ;
    assert(q <= s) by (nonlinear_arith)
        requires
            s + v - 1 == v * q + r,
            0 <= r < v,
            v >= 1,
            s >= 1,
    ;
    if k > a {
        lemma_square_bounds(a, k - 1);
    }
}

proof fn lemma_floor_case(a: int, v: int, q: int, r: int)
    requires
        a <= 0,
        v >= 1,
        q == (a * a) / v,
        r * r <= q < (r + 1) * (r + 1),
        r >= 0,
    ensures
        is_ceil_over_sqrt(-r, a, v),
        r <= -a,
{
    let s = a * a;
    vstd::arithmetic::div_mod::lemma_fundamental_div_mod(s, v);
    let m = s % v;
    assert(s == v * q + m && 0 <= m < v);
    assert(r * r * v <= s) by (nonlinear_arith)
        requires
            s == v * q + m,
            0 <= m < v,
            r * r <= q,
            v >= 1,
    ;
    assert((r + 1) * (r + 1) * v > s) by (nonlinear_arith)
        requires
            s == v * q + m,
            0 <= m < v,
            q < (r + 1) * (r + 1),
            v >= 1,
    ;
    assert(r * r <= s) by (nonlinear_arith)
        requires
            r * r * v <= s,
            v >= 1,
            r >= 0,
    ;
    assert((-r) * (-r) == r * r) by (nonlinear_arith);
    assert((-r - 1) * (-r - 1) == (r + 1) * (r + 1)) by (nonlinear_arith);
    if r > 0 {
        assert(a != 0) by (nonlinear_arith)
            requires
                r * r * v <= s,
                s == a * a,
                r > 0,
                v >= 1,
        ;
    }
    if r > -a {
        lemma_square_bounds(-a, r);
        assert((-a) * (-a) == a * a) by (nonlinear_arith);
        if r * r == a * a {
            assert(false) by (nonlinear_arith)
                requires
                    r > -a,
                    -a >= 0,
                    r * r == a * a,
            ;
        }
    }
}

/// The ceiling of `a / sqrt(v)`, computed exactly in integers.
pub fn ceil_over_sqrt(a: i64, v: i64) -> (k: i64)
    requires
        v >= 1,
    ensures
        is_ceil_over_sqrt(k as int, a as int, v as int),
        k == ceil_over_sqrt_spec(a as int, v as int),
{
    let k = ceil_over_sqrt_exact(a, v);
    proof {
        lemma_ceil_over_sqrt_unique(k as int, a as int, v as int);
    }
    k
}

fn ceil_over_sqrt_exact(a: i64, v: i64) -> (k: i64)
    requires
        v >= 1,
    ensures
        is_ceil_over_sqrt(k as int, a as int, v as int),
{
    let wide: i128 = a as i128;
    assert(wide * wide <= 0x4000_0000_0000_0000_0000_0000_0000_0000) by (nonlinear_arith)
        requires
            i64::MIN as int <= wide <= i64::MAX as int,
    ;
    assert(wide * wide >= 0) by (nonlinear_arith);
    let s: u128 = (wide * wide) as u128;
    let d: u128 = v as u128;
    if a > 0 {
        assert(s >= 1) by (nonlinear_arith)
            requires
                s == wide * wide,
                wide >= 1,
        ;
        assert(s <= 0x4000_0000_0000_0000_0000_0000_0000_0000) by (nonlinear_arith)
            requires
                s == wide * wide,
                1 <= wide <= i64::MAX as int,
        ;
        let q: u128 = (s + d - 1) / d;
        let r: u128 = floor_sqrt(q);
        let k: u128 = if r * r == q {
            r
        } else {
            r + 1
        };
        proof {
            assert(q >= 1) by (nonlinear_arith)
                requires
                    q as int == (s as int + d as int - 1) / (d as int),
                    s >= 1,
                    d >= 1,
            ;
            if r * r != q {
                assert((k - 1) * (k - 1) < q);
                assert(q < k * k);
            } else {
                assert(r >= 1) by (nonlinear_arith)
                    requires
                        r * r == q,
                        q >= 1,
                ;
                assert((k - 1) * (k - 1) < q) by (nonlinear_arith)
                    requires
                        r * r == q,
                        k == r,
                        r >= 1,
                ;
            }
            assert(k >= 1) by (nonlinear_arith)
                requires
                    q >= 1,
                    q <= k * k,
            ;
            lemma_ceil_case(a as int, v as int, q as int, k as int);
        }
        k as i64
    } else {
        let q: u128 = s / d;
        let r: u128 = floor_sqrt(q);
        proof {
            lemma_floor_case(a as int, v as int, q as int, r as int);
        }
        let k: i128 = -(r as i128);
        k as i64
    }
}

} // verus!
