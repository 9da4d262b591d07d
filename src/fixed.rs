//! Fixed-point arithmetic. A real number `v` is held as the integer
//! `v * ONE`, so `ONE` stands for 1.0.
use vstd::prelude::*;

verus! {

/// The fixed-point representation of 1.0.
pub const ONE: i64 = 10000;

/// A 2D vector at scale `ONE`.
#[derive(Clone, Copy, Debug, PartialEq, Eq, Structural)]
pub struct Vec2 {
    pub x: i64,
    pub y: i64,
}

/// Both components lie in `[-ONE, ONE]`, as those of a unit vector do.
pub open spec fn unit_bounded(v: Vec2) -> bool {
    -ONE <= v.x <= ONE && -ONE <= v.y <= ONE
}

pub open spec fn pow2(x: int) -> int {
    x * x
}

pub open spec fn pow4(x: int) -> int {
    x * x * x * x
}

/// `r` is the integer square root of `n`.
pub open spec fn is_sqrt(n: int, r: int) -> bool {
    0 <= r && pow2(r) <= n < pow2(r + 1)
}

/// `r` is the integer fourth root of `n`.
pub open spec fn is_fourth_root(n: int, r: int) -> bool {
    0 <= r && pow4(r) <= n < pow4(r + 1)
}

proof fn lemma_pow2_monotone(a: int, b: int)
    requires
        0 <= a <= b,
    ensures
        pow2(a) <= pow2(b),
{
    assert(a * a <= b * b) by (nonlinear_arith)
        requires
            0 <= a <= b,
    ;
}

proof fn lemma_pow4_monotone(a: int, b: int)
    requires
        0 <= a <= b,
    ensures
        pow4(a) <= pow4(b),
{
    assert(a * a <= b * b) by (nonlinear_arith)
        requires
            0 <= a <= b,
    ;
    assert(a * a * a <= b * b * b) by (nonlinear_arith)
        requires
            0 <= a <= b,
            a * a <= b * b,
    ;
    assert(a * a * a * a <= b * b * b * b) by (nonlinear_arith)
        requires
            0 <= a <= b,
            a * a * a <= b * b * b,
    ;
}

/// The integer square root of `n`, for `n` up to `2 * ONE * ONE`.
pub fn isqrt(n: u64) -> (r: u64)
    requires
        n <= 2 * ONE * ONE,
    ensures
        is_sqrt(n as int, r as int),
        r == sqrt_of(n as int),
{
    let mut lo: u64 = 0;
    let mut hi: u64 = 20000;
    assert(pow2(20000) == 400000000);
    while hi - lo > 1
        invariant
            lo < hi <= 20000,
            pow2(lo as int) <= n,
            n < pow2(hi as int),
        decreases hi - lo,
    {
        let mid: u64 = lo + (hi - lo) / 2;
        proof {
            lemma_pow2_monotone(mid as int, 20000);
        }
        assert(mid * mid <= 400000000);
        if mid * mid <= n {
            lo = mid;
        } else {
            hi = mid;
        }
    }
    proof {
        lemma_sqrt_unique(n as int, lo as int);
    }
    lo
}

/// The integer fourth root of `n`, for `n` up to `ONE^4`.
pub fn fourth_root(n: u64) -> (r: u64)
    requires
        n <= ONE * ONE * ONE * ONE,
    ensures
        is_fourth_root(n as int, r as int),
        r == fourth_root_of(n as int),
{
    let mut lo: u64 = 0;
    let mut hi: u64 = 10001;
    assert(pow4(10001) == 10004000600040001int);
    while hi - lo > 1
        invariant
            lo < hi <= 10001,
            pow4(lo as int) <= n,
            n < pow4(hi as int),
        decreases hi - lo,
    {
        let mid: u64 = lo + (hi - lo) / 2;
        assert(mid * mid <= 10001 * 10001 && mid * mid * mid <= 10001 * 10001 * 10001
            && mid * mid * mid * mid <= 10001 * 10001 * 10001 * 10001) by (nonlinear_arith)
            requires
                mid <= 10001,
        ;
        if mid * mid * mid * mid <= n {
            lo = mid;
        } else {
            hi = mid;
        }
    }
    proof {
        lemma_fourth_root_unique(n as int, lo as int);
    }
    lo
}

/// The integer square root of `n`, as a spec value.
pub open spec fn sqrt_of(n: int) -> int {
    choose|r: int| is_sqrt(n, r)
}

/// The integer fourth root of `n`, as a spec value.
pub open spec fn fourth_root_of(n: int) -> int {
    choose|r: int| is_fourth_root(n, r)
}

proof fn lemma_sqrt_unique(n: int, r: int)
    requires
        is_sqrt(n, r),
    ensures
        sqrt_of(n) == r,
{
    let s = sqrt_of(n);
    assert(is_sqrt(n, s));
    if s < r {
        lemma_pow2_monotone(s + 1, r);
    } else if r < s {
        lemma_pow2_monotone(r + 1, s);
    }
}

proof fn lemma_fourth_root_unique(n: int, r: int)
    requires
        is_fourth_root(n, r),
    ensures
        fourth_root_of(n) == r,
{
    let s = fourth_root_of(n);
    assert(is_fourth_root(n, s));
    if s < r {
        lemma_pow4_monotone(s + 1, r);
    } else if r < s {
        lemma_pow4_monotone(r + 1, s);
    }
}

/// The radicand whose fourth root is `x^(k/4)` at scale `ONE`:
/// `ONE^(4-k) * x^k`.
pub open spec fn quarter_pow_radicand(x: int, k: int) -> int {
    if k == 0 {
        pow4(ONE as int)
    } else if k == 1 {
        ONE * ONE * ONE * x
    } else if k == 2 {
        ONE * ONE * (x * x)
    } else if k == 3 {
        ONE * (x * x * x)
    } else {
        pow4(x)
    }
}

/// `(x / ONE)^(k / 4)` at scale `ONE`, rounded down.
pub open spec fn quarter_pow_spec(x: int, k: int) -> int {
    fourth_root_of(quarter_pow_radicand(x, k))
}

/// `(x / ONE)^(k / 4)`, rounded down, at scale `ONE`, for `x` in `[0, ONE]`
/// and an exponent of `k` quarters, `k` in `0..=4`.
pub fn quarter_pow(x: u64, k: u64) -> (r: u64)
    requires
        x <= ONE,
        k <= 4,
    ensures
        r == quarter_pow_spec(x as int, k as int),
        r <= ONE,
{
    assert(x * x <= ONE * ONE && x * x * x <= ONE * ONE * ONE && x * x * x * x <= ONE * ONE
        * ONE * ONE) by (nonlinear_arith)
        requires
            x <= ONE,
    ;
    assert(ONE * (x * x * x) <= ONE * ONE * ONE * ONE && ONE * ONE * (x * x) <= ONE * ONE * ONE * ONE
        && ONE * ONE * ONE * x <= ONE * ONE * ONE * ONE) by (nonlinear_arith)
        requires
            x <= ONE,
            x * x <= ONE * ONE,
            x * x * x <= ONE * ONE * ONE,
    ;
    let n: u64 = if k == 0 {
        10000 * 10000 * 10000 * 10000
    } else if k == 1 {
        10000 * 10000 * 10000 * x
    } else if k == 2 {
        10000 * 10000 * (x * x)
    } else if k == 3 {
        10000 * (x * x * x)
    } else {
        x * x * x * x
    };
    let r = fourth_root(n);
    proof {
        lemma_fourth_root_unique(n as int, r as int);
        if r > ONE {
            lemma_pow4_monotone(ONE + 1, r as int);
        }
    }
    r
}

/// `a / b` rounded toward zero, as Rust's integer division does.
pub open spec fn trunc_div(a: int, b: int) -> int {
    if a >= 0 {
        a / b
    } else {
        -((-a) / b)
    }
}

/// Signed division rounding toward zero, for a positive divisor.
pub fn div_toward_zero(a: i64, b: i64) -> (r: i64)
    requires
        b > 0,
        a > i64::MIN,
    ensures
        r == trunc_div(a as int, b as int),
{
    if a >= 0 {
        a / b
    } else {
        let q: i64 = (-a) / b;
        -q
    }
}

/// The sign of `x` as a float's `signum` gives it: zero counts as positive.
pub open spec fn float_sign(x: int) -> int {
    if x >= 0 {
        1
    } else {
        -1
    }
}

} // verus!
