//! Integer scoring arithmetic for co-presence validation.
//!
//! Scores are expressed in thousandths (a score of 1000 stands for 1.0).
//! The Pearson correlation of two equal-length measurement sequences is
//! computed exactly over scaled deviations: for sequences of length n the
//! deviation of an element x is n*x - sum, which is the (x - mean)
//! deviation multiplied by the positive factor n and so leaves the
//! correlation unchanged.
use vstd::prelude::*;

verus! {

/// Largest measurement value the scoring arithmetic accepts; together with
/// `MEAS_MAX_LEN` it keeps every intermediate product inside i128.
pub const MEAS_MAX_VALUE: u32 = 1_000_000;

/// Largest measurement-sequence length the scoring arithmetic accepts.
pub const MEAS_MAX_LEN: usize = 65536;

/// Measurement sequences the scoring arithmetic is defined on.
pub open spec fn wf_measurements(s: Seq<u32>) -> bool {
    &&& s.len() <= MEAS_MAX_LEN
    &&& forall|i: int| 0 <= i < s.len() ==> s[i] <= MEAS_MAX_VALUE
}

/// Sum of a sequence of measurements.
pub open spec fn sum_u32(s: Seq<u32>) -> int
    decreases s.len(),
{
    if s.len() == 0 {
        0
    } else {
        sum_u32(s.drop_last()) + s.last()
    }
}

/// Scaled deviation of element `i`: `len*s[i] - sum`.
pub open spec fn dev(s: Seq<u32>, i: int) -> int {
    s.len() * s[i] - sum_u32(s)
}

/// Partial sum of products of scaled deviations over the first `k` indices.
pub open spec fn dev_dot(a: Seq<u32>, b: Seq<u32>, k: int) -> int
    decreases k,
{
    if k <= 0 {
        0
    } else {
        dev_dot(a, b, k - 1) + dev(a, k - 1) * dev(b, k - 1)
    }
}

/// An integer square root: `r` is the floor of the square root of `x`.
pub open spec fn is_isqrt(x: int, r: int) -> bool {
    &&& 0 <= r
    &&& r * r <= x
    &&& x < (r + 1) * (r + 1)
}

/// The floor of the square root of a non-negative integer.
pub open spec fn spec_isqrt(x: int) -> int {
    choose|r: int| #[trigger] is_isqrt(x, r)
}

/// The Pearson correlation of two measurement sequences, in thousandths,
/// truncated toward zero and clamped to [-1000, 1000]. Zero when the
/// lengths differ, when the sequences are empty, or when either variance
/// is zero.
pub open spec fn spec_correlation(a: Seq<u32>, b: Seq<u32>) -> int {
    if a.len() != b.len() || a.len() == 0 {
        0
    } else {
        let n = a.len() as int;
        let num = dev_dot(a, b, n);
        let d1 = dev_dot(a, a, n);
        let d2 = dev_dot(b, b, n);
        if d1 == 0 || d2 == 0 {
            0
        } else {
            let denom = spec_isqrt(d1) * spec_isqrt(d2);
            let q = if num >= 0 {
                1000 * num / denom
            } else {
                -(1000 * (-num) / denom)
            };
            if q > 1000 {
                1000
            } else if q < -1000 {
                -1000
            } else {
                q
            }
        }
    }
}

/// The floor square root is unique.
pub proof fn lemma_isqrt_unique(x: int, r1: int, r2: int)
    requires
        is_isqrt(x, r1),
        is_isqrt(x, r2),
    ensures
        r1 == r2,
{
    if r1 < r2 {
        assert((r1 + 1) * (r1 + 1) <= r2 * r2) by (nonlinear_arith)
            requires 0 <= r1 + 1 <= r2;
        assert(false);
    }
    if r2 < r1 {
        assert((r2 + 1) * (r2 + 1) <= r1 * r1) by (nonlinear_arith)
            requires 0 <= r2 + 1 <= r1;
        assert(false);
    }
}

/// Every non-negative integer has a floor square root.
pub proof fn lemma_isqrt_exists(x: int)
    requires
        x >= 0,
    ensures
        exists|r: int| #[trigger] is_isqrt(x, r),
    decreases x,
{
    if x == 0 {
        assert(is_isqrt(0, 0));
    } else {
        lemma_isqrt_exists(x - 1);
        let r = choose|r: int| #[trigger] is_isqrt(x - 1, r);
        if x < (r + 1) * (r + 1) {
            assert(is_isqrt(x, r));
        } else {
            assert((r + 1) * (r + 1) == x);
            assert(x < (r + 2) * (r + 2)) by (nonlinear_arith)
                requires (r + 1) * (r + 1) == x, r >= 0;
            assert(is_isqrt(x, r + 1));
        }
    }
}

/// A witness pins `spec_isqrt` down.
pub proof fn lemma_isqrt_val(x: int, r: int)
    requires
        is_isqrt(x, r),
    ensures
        spec_isqrt(x) == r,
{
    assert(exists|c: int| #[trigger] is_isqrt(x, c));
    let c = choose|c: int| #[trigger] is_isqrt(x, c);
    lemma_isqrt_unique(x, c, r);
}

/// Compute the floor of the square root by binary search.
pub fn isqrt_u128(x: u128) -> (r: u128)
    ensures
        is_isqrt(x as int, r as int),
{
    let mut lo: u128 = 0;
    let mut hi: u128 = 1u128 << 64;
    proof {
        assert((1u128 << 64) == 0x1_0000_0000_0000_0000u128) by (bit_vector);
        assert((x as int) < 0x1_0000_0000_0000_0000 * 0x1_0000_0000_0000_0000)
            by (nonlinear_arith);
    }
    while lo + 1 < hi
        invariant
            lo < hi,
            hi <= 0x1_0000_0000_0000_0000u128,
            (lo as int) * (lo as int) <= x as int,
            (x as int) < (hi as int) * (hi as int),
        decreases hi - lo,
    {
        let mid: u128 = lo + (hi - lo) / 2;
        proof {
            assert(lo < mid < hi);
            assert((mid as int) * (mid as int) < 0x1_0000_0000_0000_0000
                * 0x1_0000_0000_0000_0000) by (nonlinear_arith)
                requires 0 <= (mid as int), (mid as int) < 0x1_0000_0000_0000_0000;
        }
        if mid * mid <= x {
            lo = mid;
        } else {
            hi = mid;
        }
    }
    lo
}

/// Sums of well-formed measurement sequences are small and non-negative.
pub proof fn lemma_sum_bounds(s: Seq<u32>)
    requires
        forall|i: int| 0 <= i < s.len() ==> s[i] <= MEAS_MAX_VALUE,
    ensures
        0 <= sum_u32(s) <= s.len() * 1_000_000,
    decreases s.len(),
{
    if s.len() == 0 {
    } else {
        lemma_sum_bounds(s.drop_last());
        assert((s.len() - 1) * 1_000_000 + 1_000_000 == s.len() * 1_000_000) by (nonlinear_arith);
    }
}

/// Scaled deviations of well-formed sequences are bounded.
pub proof fn lemma_dev_bound(s: Seq<u32>, i: int)
    requires
        wf_measurements(s),
        0 <= i < s.len(),
    ensures
        -65_536_000_000 <= dev(s, i) <= 65_536_000_000,
{
    lemma_sum_bounds(s);
    assert(0 <= s.len() * s[i] <= 65_536_000_000) by (nonlinear_arith)
        requires 0 <= s[i], s[i] <= 1_000_000, 0 <= s.len(), s.len() <= 65536;
    assert(s.len() * 1_000_000 <= 65_536_000_000) by (nonlinear_arith)
        requires 0 <= s.len(), s.len() <= 65536;
}

/// A deviation dot product of a sequence with itself is non-negative.
pub proof fn lemma_dev_dot_self_nonneg(a: Seq<u32>, k: int)
    ensures
        dev_dot(a, a, k) >= 0,
    decreases k,
{
    if k > 0 {
        lemma_dev_dot_self_nonneg(a, k - 1);
        let d = dev(a, k - 1);
        assert(d * d >= 0) by (nonlinear_arith);
    }
}

/// The deviation dot product is symmetric in its sequences.
pub proof fn lemma_dev_dot_symmetric(a: Seq<u32>, b: Seq<u32>, k: int)
    ensures
        dev_dot(a, b, k) == dev_dot(b, a, k),
    decreases k,
{
    if k > 0 {
        lemma_dev_dot_symmetric(a, b, k - 1);
        let da = dev(a, k - 1);
        let db = dev(b, k - 1);
        assert(da * db == db * da) by (nonlinear_arith);
    }
}

/// The correlation score is symmetric in its two arguments.
pub proof fn lemma_correlation_symmetric(a: Seq<u32>, b: Seq<u32>)
    ensures
        spec_correlation(a, b) == spec_correlation(b, a),
{
    if a.len() == b.len() && a.len() > 0 {
        let n = a.len() as int;
        lemma_dev_dot_symmetric(a, b, n);
    }
}

/// The correlation of a sequence with itself is exactly 1000, unless its
/// variance is zero, in which case the zero-variance clamp yields 0.
pub proof fn lemma_correlation_self(a: Seq<u32>)
    ensures
        a.len() > 0 && dev_dot(a, a, a.len() as int) != 0 ==> spec_correlation(a, a) == 1000,
        a.len() == 0 || dev_dot(a, a, a.len() as int) == 0 ==> spec_correlation(a, a) == 0,
{
    let n = a.len() as int;
    let d = dev_dot(a, a, n);
    lemma_dev_dot_self_nonneg(a, n);
    if a.len() > 0 && d != 0 {
        lemma_isqrt_exists(d);
        let s = spec_isqrt(d);
        assert(is_isqrt(d, s));
        if s == 0 {
            assert((s + 1) * (s + 1) == 1) by (nonlinear_arith)
                requires s == 0;
            assert(false);
        }
        let denom = s * s;
        assert(1 <= s * s) by (nonlinear_arith)
            requires s >= 1;
        assert(denom <= d);
        assert(1000 * d / denom >= 1000) by (nonlinear_arith)
            requires 1 <= denom, denom <= d;
    }
}

/// Sum a measurement vector.
fn sum_vec(s: &Vec<u32>) -> (r: u64)
    requires
        wf_measurements(s@),
    ensures
        r as int == sum_u32(s@),
        r <= 65_536_000_000,
{
    let mut acc: u64 = 0;
    let mut i: usize = 0;
    while i < s.len()
        invariant
            i <= s@.len(),
            wf_measurements(s@),
            acc as int == sum_u32(s@.take(i as int)),
            acc as int <= (i as int) * 1_000_000,
        decreases s@.len() - i,
    {
        proof {
            assert(s@.take(i + 1).drop_last() =~= s@.take(i as int));
            assert(s@.take(i + 1).last() == s@[i as int]);
            assert((i as int) * 1_000_000 + 1_000_000 == (i as int + 1) * 1_000_000)
                by (nonlinear_arith);
            assert((i as int + 1) * 1_000_000 <= 65_536_000_000) by (nonlinear_arith)
                requires (i as int) + 1 <= 65536;
        }
        acc = acc + s[i] as u64;
        i = i + 1;
    }
    proof {
        assert(s@.take(s@.len() as int) =~= s@);
    }
    acc
}

/// Compute the Pearson correlation score of two measurement vectors, in
/// thousandths, exactly as `spec_correlation` states it.
pub fn pearson_milli(a: &Vec<u32>, b: &Vec<u32>) -> (r: i64)
    requires
        wf_measurements(a@),
        wf_measurements(b@),
    ensures
        r as int == spec_correlation(a@, b@),
        -1000 <= r <= 1000,
{
    if a.len() != b.len() || a.len() == 0 {
        return 0;
    }
    let n = a.len();
    let sum1 = sum_vec(a);
    let sum2 = sum_vec(b);
    let mut num: i128 = 0;
    let mut d1: i128 = 0;
    let mut d2: i128 = 0;
    let mut i: usize = 0;
    while i < n
        invariant
            0 < n == a@.len() == b@.len() <= MEAS_MAX_LEN,
            wf_measurements(a@),
            wf_measurements(b@),
            i <= n,
            sum1 as int == sum_u32(a@),
            sum2 as int == sum_u32(b@),
            sum1 <= 65_536_000_000,
            sum2 <= 65_536_000_000,
            num as int == dev_dot(a@, b@, i as int),
            d1 as int == dev_dot(a@, a@, i as int),
            d2 as int == dev_dot(b@, b@, i as int),
            -(i as int) * 4_294_967_296_000_000_000_000 <= num as int <= (i as int)
                * 4_294_967_296_000_000_000_000,
            0 <= d1 as int <= (i as int) * 4_294_967_296_000_000_000_000,
            0 <= d2 as int <= (i as int) * 4_294_967_296_000_000_000_000,
        decreases n - i,
    {
        proof {
            lemma_dev_bound(a@, i as int);
            lemma_dev_bound(b@, i as int);
            lemma_dev_dot_self_nonneg(a@, i + 1);
            lemma_dev_dot_self_nonneg(b@, i + 1);
            assert(0 <= (n as int) * (a@[i as int] as int) <= 65_536_000_000) by (nonlinear_arith)
                requires 0 <= a@[i as int], a@[i as int] <= 1_000_000, 0 < (n as int), (n as int) <= 65536;
            assert(0 <= (n as int) * (b@[i as int] as int) <= 65_536_000_000) by (nonlinear_arith)
                requires 0 <= b@[i as int], b@[i as int] <= 1_000_000, 0 < (n as int), (n as int) <= 65536;
            assert((i as int) * 4_294_967_296_000_000_000_000 + 4_294_967_296_000_000_000_000 == (
            i as int + 1) * 4_294_967_296_000_000_000_000) by (nonlinear_arith);
            assert((i as int + 1) * 4_294_967_296_000_000_000_000 <= 65536
                * 4_294_967_296_000_000_000_000) by (nonlinear_arith)
                requires (i as int) + 1 <= 65536;
            assert((i as int) * 4_294_967_296_000_000_000_000 <= 65536
                * 4_294_967_296_000_000_000_000) by (nonlinear_arith)
                requires (i as int) <= 65536;
        }
        let da: i128 = (n as i128) * (a[i] as i128) - (sum1 as i128);
        let db: i128 = (n as i128) * (b[i] as i128) - (sum2 as i128);
        proof {
            assert(da as int == dev(a@, i as int));
            assert(db as int == dev(b@, i as int));
            assert(-4_294_967_296_000_000_000_000 <= (da as int) * (db as int)
                <= 4_294_967_296_000_000_000_000) by (nonlinear_arith)
                requires
                    -65_536_000_000 <= (da as int),
                    (da as int) <= 65_536_000_000,
                    -65_536_000_000 <= (db as int),
                    (db as int) <= 65_536_000_000,
            ;
            assert(-4_294_967_296_000_000_000_000 <= (da as int) * (da as int)
                <= 4_294_967_296_000_000_000_000) by (nonlinear_arith)
                requires -65_536_000_000 <= (da as int), (da as int) <= 65_536_000_000;
            assert(-4_294_967_296_000_000_000_000 <= (db as int) * (db as int)
                <= 4_294_967_296_000_000_000_000) by (nonlinear_arith)
                requires -65_536_000_000 <= (db as int), (db as int) <= 65_536_000_000;
        }
        num = num + da * db;
        d1 = d1 + da * da;
        d2 = d2 + db * db;
        i = i + 1;
    }
    if d1 == 0 || d2 == 0 {
        return 0;
    }
    let s1 = isqrt_u128(d1 as u128);
    let s2 = isqrt_u128(d2 as u128);
    proof {
        assert((d1 as u128) as int == d1 as int);
        assert((d2 as u128) as int == d2 as int);
        lemma_isqrt_val(d1 as int, s1 as int);
        lemma_isqrt_val(d2 as int, s2 as int);
        if s1 == 0 {
            assert(((s1 as int) + 1) * ((s1 as int) + 1) == 1) by (nonlinear_arith)
                requires s1 as int == 0;
            assert(false);
        }
        if s2 == 0 {
            assert(((s2 as int) + 1) * ((s2 as int) + 1) == 1) by (nonlinear_arith)
                requires s2 as int == 0;
            assert(false);
        }
        assert(1 <= (s1 as int) * (s2 as int) <= 4_294_967_296_000_000_000_000 * 65536)
            by (nonlinear_arith)
            requires
                1 <= (s1 as int),
                1 <= (s2 as int),
                (s1 as int) * (s1 as int) <= 65536 * 4_294_967_296_000_000_000_000,
                (s2 as int) * (s2 as int) <= 65536 * 4_294_967_296_000_000_000_000,
        ;
    }
    let denom: u128 = s1 * s2;
    let magnitude: u128 = if num >= 0 {
        num as u128
    } else {
        (-num) as u128
    };
    proof {
        assert(magnitude as int <= 65536 * 4_294_967_296_000_000_000_000);
        assert(1000 * (magnitude as int) <= 1000 * (65536 * 4_294_967_296_000_000_000_000))
            by (nonlinear_arith)
            requires (magnitude as int) <= 65536 * 4_294_967_296_000_000_000_000;
    }
    let q: u128 = (1000 * magnitude) / denom;
    let clamped: i64 = if q > 1000 {
        1000
    } else {
        q as i64
    };
    let result: i64 = if num >= 0 {
        clamped
    } else {
        -clamped
    };
    proof {
        let nn = a@.len() as int;
        let snum = dev_dot(a@, b@, nn);
        let sd1 = dev_dot(a@, a@, nn);
        let sd2 = dev_dot(b@, b@, nn);
        let sdenom = spec_isqrt(sd1) * spec_isqrt(sd2);
        assert(sdenom == denom as int);
        let sq = if snum >= 0 {
            1000 * snum / sdenom
        } else {
            -(1000 * (-snum) / sdenom)
        };
        if num >= 0 {
            assert(magnitude as int == snum);
            assert(q as int == 1000 * snum / sdenom);
            assert(sq == q as int);
            assert(sq >= 0) by (nonlinear_arith)
                requires sq == 1000 * snum / sdenom, snum >= 0, sdenom >= 1;
        } else {
            assert(magnitude as int == -snum);
            assert(q as int == 1000 * (-snum) / sdenom);
            assert(sq == -(q as int));
            assert(q as int >= 0) by (nonlinear_arith)
                requires q as int == 1000 * (-snum) / sdenom, -snum >= 0, sdenom >= 1;
        }
    }
    result
}

} // verus!
