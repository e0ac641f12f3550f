use vstd::prelude::*;

verus! {

/// Coordinates beyond this distance from each other are treated as "very far".
pub const FAR: u64 = 0x100_0000_0000;

/// `r` is the integer square root of `n`: the largest `r` with `r * r <= n`.
pub open spec fn is_isqrt(n: int, r: int) -> bool {
    &&& 0 <= r
    &&& r * r <= n
    &&& n < (r + 1) * (r + 1)
}

/// Absolute difference of two coordinates.
pub open spec fn spec_diff(a: usize, b: usize) -> int {
    if a >= b { a - b } else { b - a }
}

/// Squared Euclidean distance between two tiles.
pub open spec fn spec_dist_sq(from: (usize, usize), to: (usize, usize)) -> int {
    spec_diff(from.0, to.0) * spec_diff(from.0, to.0) + spec_diff(from.1, to.1) * spec_diff(from.1, to.1)
}

/// Both coordinate differences are small enough for exact integer distances.
pub open spec fn near_enough(from: (usize, usize), to: (usize, usize)) -> bool {
    spec_diff(from.0, to.0) < FAR && spec_diff(from.1, to.1) < FAR
}

/// The Euclidean distance between two tiles in thousandths of a tile, rounded down:
/// the largest `d` with `d * d <= 1_000_000 * (dx * dx + dy * dy)`.
/// Pairs whose coordinates differ by `FAR` or more get `u64::MAX`.
pub open spec fn spec_distance_milli(from: (usize, usize), to: (usize, usize)) -> int {
    if near_enough(from, to) {
        choose|r: int| #[trigger] is_isqrt(1_000_000 * spec_dist_sq(from, to), r)
    } else {
        u64::MAX as int
    }
}

proof fn lemma_square_monotone(a: int, b: int)
    requires
        0 <= a <= b,
    ensures
        a * a <= b * b,
{
    assert(a * a <= a * b) by (nonlinear_arith)
        requires
            0 <= a <= b,
    ;
    assert(a * b <= b * b) by (nonlinear_arith)
        requires
            0 <= a <= b,
    ;
}

/// The integer square root is unique.
pub proof fn lemma_isqrt_unique(n: int, r1: int, r2: int)
    requires
        is_isqrt(n, r1),
        is_isqrt(n, r2),
    ensures
        r1 == r2,
{
    if r1 < r2 {
        lemma_square_monotone(r1 + 1, r2);
    } else if r2 < r1 {
        lemma_square_monotone(r2 + 1, r1);
    }
}

/// Every natural number has an integer square root.
pub proof fn lemma_isqrt_exists(n: int)
    requires
        0 <= n,
    ensures
        exists|r: int| #[trigger] is_isqrt(n, r),
        forall|r: int| #[trigger] is_isqrt(n, r) ==> r >= 0,
    decreases n,
{
    if n == 0 {
        assert(is_isqrt(0, 0));
    } else {
        lemma_isqrt_exists(n - 1);
        let r = choose|r: int| #[trigger] is_isqrt(n - 1, r);
        if (r + 1) * (r + 1) <= n {
            assert((r + 2) * (r + 2) > n) by (nonlinear_arith)
                requires
                    n - 1 < (r + 1) * (r + 1),
                    0 <= r,
            ;
            assert(is_isqrt(n, r + 1));
        } else {
            assert(is_isqrt(n, r));
        }
    }
}

/// Integer square root of `n`, for `n < 2^104`.
pub fn isqrt(n: u128) -> (r: u64)
    requires
        n < 0x100_0000_0000_0000_0000_0000_0000,
    ensures
        is_isqrt(n as int, r as int),
{
    let mut lo: u128 = 0;
    let mut hi: u128 = 0x10_0000_0000_0000;
    assert(hi * hi == 0x100_0000_0000_0000_0000_0000_0000) by (nonlinear_arith)
        requires
            hi == 0x10_0000_0000_0000,
    ;
    while lo + 1 < hi
        invariant
            lo < hi <= 0x10_0000_0000_0000,
            lo * lo <= n,
            n < hi * hi,
        decreases hi - lo,
    {
        let mid = lo + (hi - lo) / 2;
        assert(mid * mid <= 0x100_0000_0000_0000_0000_0000_0000) by {
            lemma_square_monotone(mid as int, 0x10_0000_0000_0000);
        }
        if mid * mid <= n {
            lo = mid;
        } else {
            hi = mid;
        }
    }
    assert(hi == lo + 1);
    lo as u64
}

/// Absolute difference of two coordinates.
pub fn diff(a: usize, b: usize) -> (d: usize)
    ensures
        d == spec_diff(a, b),
{
    if a >= b { a - b } else { b - a }
}

/// The distance between two tiles in thousandths of a tile, rounded down.
pub fn distance_milli(from: (usize, usize), to: (usize, usize)) -> (d: u64)
    ensures
        d == spec_distance_milli(from, to),
        near_enough(from, to) ==> is_isqrt(1_000_000 * spec_dist_sq(from, to), d as int),
{
    let dx = diff(from.0, to.0);
    let dy = diff(from.1, to.1);
    if (dx as u64) < FAR && (dy as u64) < FAR {
        let dxw = dx as u128;
        let dyw = dy as u128;
        assert(dxw * dxw < 0x1_0000_0000_0000_0000_0000) by (nonlinear_arith)
            requires
                dxw < 0x100_0000_0000,
        ;
        assert(dyw * dyw < 0x1_0000_0000_0000_0000_0000) by (nonlinear_arith)
            requires
                dyw < 0x100_0000_0000,
        ;
        let dx2 = dxw * dxw;
        let dy2 = dyw * dyw;
        let s = dx2 + dy2;
        assert(s < 0x2_0000_0000_0000_0000_0000);
        assert(1_000_000 * (s as int) < 0x100_0000_0000_0000_0000_0000_0000);
        let n = 1_000_000 * s;
        let r = isqrt(n);
        proof {
            let r0 = choose|r: int| #[trigger] is_isqrt(1_000_000 * spec_dist_sq(from, to), r);
            assert(is_isqrt(1_000_000 * spec_dist_sq(from, to), r as int));
            lemma_isqrt_unique(1_000_000 * spec_dist_sq(from, to), r0, r as int);
        }
        r
    } else {
        u64::MAX
    }
}

} // verus!
