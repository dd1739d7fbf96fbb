//! Finite sums, maxima and minima over integer ranges, and an integer square
//! root: the arithmetic vocabulary of the feature and optimizer contracts.

use vstd::prelude::*;

verus! {

/// The sum of `f(i)` for `lo <= i < hi`; zero when the range is empty.
pub open spec fn sum_range(lo: int, hi: int, f: spec_fn(int) -> int) -> int
    decreases hi - lo,
{
    if hi <= lo {
        0
    } else {
        sum_range(lo, hi - 1, f) + f(hi - 1)
    }
}

/// The largest `f(i)` for `lo <= i < hi`; `floor` when none exceeds it.
pub open spec fn max_range(lo: int, hi: int, f: spec_fn(int) -> int, floor: int) -> int
    decreases hi - lo,
{
    if hi <= lo {
        floor
    } else {
        let rest = max_range(lo, hi - 1, f, floor);
        if f(hi - 1) > rest {
            f(hi - 1)
        } else {
            rest
        }
    }
}

/// The smallest `f(i)` for `lo <= i < hi`; `ceiling` when none is below it.
pub open spec fn min_range(lo: int, hi: int, f: spec_fn(int) -> int, ceiling: int) -> int
    decreases hi - lo,
{
    if hi <= lo {
        ceiling
    } else {
        let rest = min_range(lo, hi - 1, f, ceiling);
        if f(hi - 1) < rest {
            f(hi - 1)
        } else {
            rest
        }
    }
}

/// A sum over `[lo, hi)` is the sum over `[lo, mid)` plus the sum over `[mid, hi)`.
pub proof fn lemma_sum_split(lo: int, mid: int, hi: int, f: spec_fn(int) -> int)
    requires
        lo <= mid <= hi,
    ensures
        sum_range(lo, hi, f) == sum_range(lo, mid, f) + sum_range(mid, hi, f),
    decreases hi - mid,
{
    if mid < hi {
        lemma_sum_split(lo, mid, hi - 1, f);
    }
}

/// A non-empty sum is its first term plus the sum of the rest.
pub proof fn lemma_sum_first(lo: int, hi: int, f: spec_fn(int) -> int)
    requires
        lo < hi,
    ensures
        sum_range(lo, hi, f) == f(lo) + sum_range(lo + 1, hi, f),
{
    lemma_sum_split(lo, lo + 1, hi, f);
    assert(sum_range(lo, lo + 1, f) == f(lo)) by {
        assert(sum_range(lo, lo, f) == 0);
    }
}

/// Two functions that agree on `[lo, hi)` have the same sum there.
pub proof fn lemma_sum_congruent(lo: int, hi: int, f: spec_fn(int) -> int, g: spec_fn(int) -> int)
    requires
        forall|i: int| lo <= i < hi ==> #[trigger] f(i) == g(i),
    ensures
        sum_range(lo, hi, f) == sum_range(lo, hi, g),
    decreases hi - lo,
{
    if lo < hi {
        lemma_sum_congruent(lo, hi - 1, f, g);
    }
}

/// Shifting the index by `d` shifts the range: if `f(i) == g(i + d)` on
/// `[lo, hi)`, the sum of `f` there is the sum of `g` over `[lo + d, hi + d)`.
pub proof fn lemma_sum_shift(lo: int, hi: int, d: int, f: spec_fn(int) -> int, g: spec_fn(int) -> int)
    requires
        forall|i: int| lo <= i < hi ==> #[trigger] f(i) == g(i + d),
    ensures
        sum_range(lo, hi, f) == sum_range(lo + d, hi + d, g),
    decreases hi - lo,
{
    if lo < hi {
        lemma_sum_shift(lo, hi - 1, d, f, g);
    }
}

/// A sum of terms that all lie in `[low, high]` lies between `low` and `high`
/// times the number of terms.
pub proof fn lemma_sum_bounds(lo: int, hi: int, f: spec_fn(int) -> int, low: int, high: int)
    requires
        lo <= hi,
        forall|i: int| lo <= i < hi ==> low <= #[trigger] f(i) <= high,
    ensures
        low * (hi - lo) <= sum_range(lo, hi, f) <= high * (hi - lo),
    decreases hi - lo,
{
    if lo < hi {
        lemma_sum_bounds(lo, hi - 1, f, low, high);
        assert(low * (hi - lo) == low * (hi - 1 - lo) + low) by (nonlinear_arith);
        assert(high * (hi - lo) == high * (hi - 1 - lo) + high) by (nonlinear_arith);
    } else {
        assert(low * (hi - lo) == 0) by (nonlinear_arith)
            requires
                hi - lo == 0,
        ;
        assert(high * (hi - lo) == 0) by (nonlinear_arith)
            requires
                hi - lo == 0,
        ;
    }
}

/// If `g` exceeds `f` by `delta` at the one index `at` and agrees with it
/// elsewhere on `[lo, hi)`, the sums differ by `delta`.
pub proof fn lemma_sum_one_changed(
    lo: int,
    hi: int,
    at: int,
    delta: int,
    f: spec_fn(int) -> int,
    g: spec_fn(int) -> int,
)
    requires
        lo <= at < hi,
        g(at) == f(at) + delta,
        forall|i: int| lo <= i < hi && i != at ==> #[trigger] f(i) == g(i),
    ensures
        sum_range(lo, hi, g) == sum_range(lo, hi, f) + delta,
{
    lemma_sum_split(lo, at, hi, f);
    lemma_sum_split(lo, at, hi, g);
    lemma_sum_split(at, at + 1, hi, f);
    lemma_sum_split(at, at + 1, hi, g);
    lemma_sum_congruent(lo, at, f, g);
    lemma_sum_congruent(at + 1, hi, f, g);
    assert(sum_range(at, at + 1, f) == f(at)) by {
        assert(sum_range(at, at, f) == 0);
    }
    assert(sum_range(at, at + 1, g) == g(at)) by {
        assert(sum_range(at, at, g) == 0);
    }
}

/// `max_range` is at least `floor`, at least every term, and is `floor` or
/// one of the terms.
pub proof fn lemma_max_range(lo: int, hi: int, f: spec_fn(int) -> int, floor: int)
    ensures
        max_range(lo, hi, f, floor) >= floor,
        forall|i: int| lo <= i < hi ==> #[trigger] f(i) <= max_range(lo, hi, f, floor),
        max_range(lo, hi, f, floor) == floor || exists|i: int|
            lo <= i < hi && #[trigger] f(i) == max_range(lo, hi, f, floor),
    decreases hi - lo,
{
    if lo < hi {
        lemma_max_range(lo, hi - 1, f, floor);
        let rest = max_range(lo, hi - 1, f, floor);
        if f(hi - 1) > rest {
        } else if rest != floor {
            let i = choose|i: int| lo <= i < hi - 1 && #[trigger] f(i) == rest;
            assert(lo <= i < hi && f(i) == max_range(lo, hi, f, floor));
        }
    }
}

/// `min_range` is at most `ceiling`, at most every term, and is `ceiling` or
/// one of the terms.
pub proof fn lemma_min_range(lo: int, hi: int, f: spec_fn(int) -> int, ceiling: int)
    ensures
        min_range(lo, hi, f, ceiling) <= ceiling,
        forall|i: int| lo <= i < hi ==> #[trigger] f(i) >= min_range(lo, hi, f, ceiling),
        min_range(lo, hi, f, ceiling) == ceiling || exists|i: int|
            lo <= i < hi && #[trigger] f(i) == min_range(lo, hi, f, ceiling),
    decreases hi - lo,
{
    if lo < hi {
        lemma_min_range(lo, hi - 1, f, ceiling);
        let rest = min_range(lo, hi - 1, f, ceiling);
        if f(hi - 1) < rest {
        } else if rest != ceiling {
            let i = choose|i: int| lo <= i < hi - 1 && #[trigger] f(i) == rest;
            assert(lo <= i < hi && f(i) == min_range(lo, hi, f, ceiling));
        }
    }
}

/// `a` divided by the positive `n`, rounded towards zero.
pub open spec fn quotient_towards_zero(a: int, n: int) -> int {
    if a >= 0 {
        a / n
    } else {
        -((-a) / n)
    }
}

/// `r` is the square root of `x`, rounded down.
pub open spec fn is_floor_sqrt(x: int, r: int) -> bool {
    r >= 0 && r * r <= x < (r + 1) * (r + 1)
}

/// The square root of `x`, rounded down.
pub open spec fn floor_sqrt(x: int) -> int {
    choose|r: int| is_floor_sqrt(x, r)
}

/// A number has one rounded-down square root.
pub proof fn lemma_floor_sqrt(x: int, r: int)
    requires
        is_floor_sqrt(x, r),
    ensures
        floor_sqrt(x) == r,
{
    let s = floor_sqrt(x);
    assert(is_floor_sqrt(x, s));
    if s < r {
        assert((s + 1) * (s + 1) <= r * r) by (nonlinear_arith)
            requires
                0 <= s + 1 <= r,
        ;
    } else if r < s {
        assert((r + 1) * (r + 1) <= s * s) by (nonlinear_arith)
            requires
                0 <= r + 1 <= s,
        ;
    }
}

/// Computes the square root of `x`, rounded down.
pub fn integer_sqrt(x: u128) -> (root: u128)
    ensures
        root == floor_sqrt(x as int),
        is_floor_sqrt(x as int, root as int),
        root <= u64::MAX,
{
    let mut low: u128 = 0;
    let mut high: u128 = 0x1_0000_0000_0000_0000;
    assert(high * high > x) by (nonlinear_arith)
        requires
            high == 0x1_0000_0000_0000_0000,
            x <= u128::MAX,
    ;
    while high - low > 1
        invariant
            low < high <= 0x1_0000_0000_0000_0000,
            low * low <= x < high * high,
        decreases high - low,
    {
        let mid = low + (high - low) / 2;
        assert(mid * mid <= 0xffff_ffff_ffff_ffff * 0xffff_ffff_ffff_ffff) by (nonlinear_arith)
            requires
                0 <= mid <= 0xffff_ffff_ffff_ffff,
        ;
        if mid * mid <= x {
            low = mid;
        } else {
            high = mid;
        }
    }
    proof {
        lemma_floor_sqrt(x as int, low as int);
    }
    low
}

} // verus!
