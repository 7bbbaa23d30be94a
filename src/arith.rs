use vstd::prelude::*;

verus! {

/// Integer square root of a real number, rounded down.
pub open spec fn is_floor_sqrt(s: int, r: int) -> bool {
    0 <= r && r * r <= s && s < (r + 1) * (r + 1)
}

/// The largest `r` with `r * r <= s`, found by bisection.
pub fn isqrt(s: u64) -> (r: u64)
    ensures
        is_floor_sqrt(s as int, r as int),
{
    let mut lo: u64 = 0;
    let mut hi: u64 = 4_294_967_296;
    proof {
        assert(4_294_967_296int * 4_294_967_296int > s) by (nonlinear_arith);
    }
    while hi - lo > 1
        invariant
            lo < hi <= 4_294_967_296,
            lo * lo <= s,
            s < hi * hi,
        decreases hi - lo,
    {
        let mid: u64 = lo + (hi - lo) / 2;
        proof {
            assert(mid < 4_294_967_296);
            assert(mid * mid < 4_294_967_296int * 4_294_967_296int) by (nonlinear_arith)
                requires mid < 4_294_967_296;
        }
        if (mid as u128) * (mid as u128) <= s as u128 {
            lo = mid;
        } else {
            hi = mid;
        }
    }
    lo
}

/// The largest `r` with `r * r <= s`, for `s` below `2^84`.
pub fn isqrt_wide(s: u128) -> (r: u64)
    requires
        s < 0x400_0000_0000 * 0x400_0000_0000,
    ensures
        is_floor_sqrt(s as int, r as int),
{
    let mut lo: u64 = 0;
    let mut hi: u64 = 0x400_0000_0000;
    while hi - lo > 1
        invariant
            lo < hi <= 0x400_0000_0000,
            lo * lo <= s,
            s < hi * hi,
        decreases hi - lo,
    {
        let mid: u64 = lo + (hi - lo) / 2;
        proof {
            assert(mid * mid <= 0x400_0000_0000int * 0x400_0000_0000int) by (nonlinear_arith)
                requires mid <= 0x400_0000_0000;
        }
        if (mid as u128) * (mid as u128) <= s {
            lo = mid;
        } else {
            hi = mid;
        }
    }
    lo
}

} // verus!

verus! {

/// Division that rounds toward zero, as Rust's `/` does, for a positive divisor.
pub open spec fn trunc_div(a: int, b: int) -> int {
    if a >= 0 {
        a / b
    } else {
        -((-a) / b)
    }
}

/// `v` limited to `-bound ..= bound`.
pub open spec fn clamp_to(v: int, bound: int) -> int {
    if v > bound {
        bound
    } else if v < -bound {
        -bound
    } else {
        v
    }
}

/// The floor of the square root of `s`.
pub open spec fn floor_sqrt(s: int) -> int {
    choose|r: int| is_floor_sqrt(s, r)
}

pub proof fn lemma_floor_sqrt_unique(s: int, r1: int, r2: int)
    requires
        is_floor_sqrt(s, r1),
        is_floor_sqrt(s, r2),
    ensures
        r1 == r2,
{
    if r1 < r2 {
        assert((r1 + 1) * (r1 + 1) <= r2 * r2) by (nonlinear_arith)
            requires 0 <= r1 < r2;
    } else if r2 < r1 {
        assert((r2 + 1) * (r2 + 1) <= r1 * r1) by (nonlinear_arith)
            requires 0 <= r2 < r1;
    }
}

pub proof fn lemma_floor_sqrt_is(s: int, r: int)
    requires
        is_floor_sqrt(s, r),
    ensures
        floor_sqrt(s) == r,
{
    let c = floor_sqrt(s);
    assert(is_floor_sqrt(s, c));
    lemma_floor_sqrt_unique(s, c, r);
}

/// `a / b` rounded toward zero, for `b > 0`.
pub fn div_trunc(a: i128, b: i128) -> (q: i128)
    requires
        b > 0,
        a > i128::MIN,
    ensures
        q == trunc_div(a as int, b as int),
{
    if a >= 0 {
        a / b
    } else {
        -((-a) / b)
    }
}

/// `v` limited to `-bound ..= bound`.
pub fn clamp_i128(v: i128, bound: i64) -> (r: i64)
    requires
        bound >= 0,
    ensures
        r == clamp_to(v as int, bound as int),
{
    if v > bound as i128 {
        bound
    } else if v < -(bound as i128) {
        -bound
    } else {
        v as i64
    }
}

pub proof fn lemma_trunc_div_bound(a: int, b: int, k: int)
    requires
        b > 0,
        k >= 0,
        -(k * b) <= a <= k * b,
    ensures
        -k <= trunc_div(a, b) <= k,
{
    if a >= 0 {
        assert(a / b <= k) by (nonlinear_arith)
            requires 0 <= a <= k * b, b > 0;
        assert(a / b >= 0) by (nonlinear_arith)
            requires 0 <= a, b > 0;
    } else {
        assert((-a) / b <= k) by (nonlinear_arith)
            requires 0 <= -a <= k * b, b > 0;
        assert((-a) / b >= 0) by (nonlinear_arith)
            requires 0 <= -a, b > 0;
    }
}

pub proof fn lemma_trunc_div_neg(a: int, b: int)
    requires
        b > 0,
    ensures
        trunc_div(-a, b) == -trunc_div(a, b),
{
    if a == 0 {
        assert(0int / b == 0) by (nonlinear_arith)
            requires b > 0;
    }
}

/// A quantity held as `total` millionths of a unit, split into whole units limited to
/// `-bound ..= bound` and the remainder `0 .. 1_000_000` carried to the next step. When the
/// whole part is limited, the remainder is dropped.
pub open spec fn carried(total: int, bound: int) -> (int, int) {
    let q = total / 1_000_000;
    if q > bound {
        (bound, 0)
    } else if q < -bound {
        (-bound, 0)
    } else {
        (q, total % 1_000_000)
    }
}

/// `carried(total, bound)`.
pub fn split_carry(total: i128, bound: i64) -> (r: (i64, i64))
    requires
        bound >= 0,
        -0x1_0000_0000_0000_0000_0000_0000 <= total <= 0x1_0000_0000_0000_0000_0000_0000,
    ensures
        r.0 == carried(total as int, bound as int).0,
        r.1 == carried(total as int, bound as int).1,
        0 <= r.1 < 1_000_000,
{
    let m: i128 = 1_000_000;
    let q: i128;
    let rem: i128;
    if total >= 0 {
        q = total / m;
        rem = total % m;
        proof {
            assert(total == q * 1_000_000 + rem && 0 <= rem < 1_000_000) by (nonlinear_arith)
                requires q == total / 1_000_000, rem == total % 1_000_000, total >= 0;
        }
    } else {
        let nq = (-total) / m;
        let nr = (-total) % m;
        proof {
            assert(-total == nq * 1_000_000 + nr && 0 <= nr < 1_000_000) by (nonlinear_arith)
                requires nq == (-total) / 1_000_000, nr == (-total) % 1_000_000, -total > 0;
        }
        if nr == 0 {
            q = -nq;
            rem = 0;
        } else {
            q = -nq - 1;
            rem = m - nr;
        }
        proof {
            assert(total == q * 1_000_000 + rem) by (nonlinear_arith)
                requires
                    -total == nq * 1_000_000 + nr,
                    (nr == 0 && q == -nq && rem == 0) || (nr != 0 && q == -nq - 1 && rem == 1_000_000 - nr);
        }
    }
    proof {
        vstd::arithmetic::div_mod::lemma_fundamental_div_mod_converse(total as int, 1_000_000, q as int, rem as int);
    }
    if q > bound as i128 {
        (bound, 0)
    } else if q < -(bound as i128) {
        (-bound, 0)
    } else {
        (q as i64, rem as i64)
    }
}

/// Adding `a` and then `b` millionths to a carried quantity gives what adding `a + b` at
/// once gives, as long as the first sum is not limited.
pub proof fn lemma_carried_split(total: int, a: int, b: int, bound: int)
    requires
        bound >= 0,
        -bound <= (total + a) / 1_000_000 <= bound,
    ensures
        carried(carried(total + a, bound).0 * 1_000_000 + carried(total + a, bound).1 + b, bound)
            == carried(total + a + b, bound),
{
    vstd::arithmetic::div_mod::lemma_fundamental_div_mod(total + a, 1_000_000);
}

} // verus!
