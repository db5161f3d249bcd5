//! Distribution statistics over one flushed window of round-trip samples.
//!
//! A sample is a round-trip duration in microseconds.  Quantiles are exact
//! rationals (a numerator over a fixed denominator), so no precision is lost
//! before the caller decides how to render them.

use vstd::prelude::*;
use vstd::multiset::Multiset;
use vstd::seq_lib::lemma_multiset_commutative;

verus! {

/// Largest window length the statistics routines accept; keeps every
/// intermediate product of the dispersion computation inside `u128`.
pub const MAX_WINDOW_LEN: usize = 0x10_0000;

/// `s` is in ascending order.
pub open spec fn sorted(s: Seq<u32>) -> bool {
    forall|i: int, j: int| 0 <= i <= j < s.len() ==> s[i] <= s[j]
}

/// The ascending reordering of `s`: the unique sorted sequence with the same
/// multiset of samples.
pub open spec fn sorted_of(s: Seq<u32>) -> Seq<u32> {
    s.sort_by(|x: u32, y: u32| x <= y)
}

/// `sorted_of` really is sorted and really is a reordering.
pub proof fn lemma_sorted_of_ensures(s: Seq<u32>)
    ensures
        sorted(sorted_of(s)),
        sorted_of(s).to_multiset() == s.to_multiset(),
        sorted_of(s).len() == s.len(),
{
    let leq = |x: u32, y: u32| x <= y;
    assert(vstd::relations::total_ordering(leq));
    s.lemma_sort_by_ensures(leq);
    let t = s.sort_by(leq);
    assert forall|i: int, j: int| 0 <= i <= j < t.len() implies t[i] <= t[j] by {
        if i < j {
            assert(vstd::relations::sorted_by(t, leq));
            assert(leq(t[i], t[j]));
        }
    }
    broadcast use vstd::seq_lib::group_to_multiset_ensures;

    assert(t.to_multiset().len() == s.to_multiset().len());
}

/// Two sorted sequences over the same multiset are the same sequence.
pub proof fn lemma_sorted_unique(a: Seq<u32>, b: Seq<u32>)
    requires
        sorted(a),
        sorted(b),
        a.to_multiset() == b.to_multiset(),
    ensures
        a == b,
    decreases a.len(),
{
    broadcast use vstd::seq_lib::group_to_multiset_ensures;

    assert(a.len() == a.to_multiset().len());
    assert(b.len() == b.to_multiset().len());
    if a.len() == 0 {
        assert(a =~= b);
    } else {
        // The heads agree: each head occurs in the other sequence, and a
        // sorted sequence starts with its least sample.
        assert(b.to_multiset().count(b[0]) > 0);
        assert(a.contains(b[0]));
        assert(a.to_multiset().count(a[0]) > 0);
        assert(b.contains(a[0]));
        let ia = choose|i: int| 0 <= i < a.len() && a[i] == b[0];
        let ib = choose|i: int| 0 <= i < b.len() && b[i] == a[0];
        assert(a[0] <= a[ia]);
        assert(b[0] <= b[ib]);
        assert(a[0] == b[0]);
        // The tails are sorted over the same multiset; recurse.
        assert(a.remove(0).to_multiset() =~= a.to_multiset().remove(a[0]));
        assert(b.remove(0).to_multiset() =~= b.to_multiset().remove(b[0]));
        assert(sorted(a.remove(0))) by {
            assert forall|i: int, j: int|
                0 <= i <= j < a.remove(0).len() implies a.remove(0)[i] <= a.remove(0)[j] by {
                assert(a.remove(0)[i] == a[i + 1]);
                assert(a.remove(0)[j] == a[j + 1]);
            }
        }
        assert(sorted(b.remove(0))) by {
            assert forall|i: int, j: int|
                0 <= i <= j < b.remove(0).len() implies b.remove(0)[i] <= b.remove(0)[j] by {
                assert(b.remove(0)[i] == b[i + 1]);
                assert(b.remove(0)[j] == b[j + 1]);
            }
        }
        lemma_sorted_unique(a.remove(0), b.remove(0));
        assert forall|i: int| 0 <= i < a.len() implies a[i] == b[i] by {
            if i > 0 {
                assert(a.remove(0)[i - 1] == a[i]);
                assert(b.remove(0)[i - 1] == b[i]);
            }
        }
        assert(a =~= b);
    }
}

/// Sum of the samples of `s`.
pub open spec fn sum_of(s: Seq<u32>) -> int
    decreases s.len(),
{
    if s.len() == 0 {
        0
    } else {
        sum_of(s.drop_last()) + s.last()
    }
}

/// Sum of the squared samples of `s`.
pub open spec fn sum_squares_of(s: Seq<u32>) -> int
    decreases s.len(),
{
    if s.len() == 0 {
        0
    } else {
        sum_squares_of(s.drop_last()) + s.last() * s.last()
    }
}

/// Removing one sample takes exactly that sample out of the sums.
proof fn lemma_sum_remove(s: Seq<u32>, i: int)
    requires
        0 <= i < s.len(),
    ensures
        sum_of(s) == sum_of(s.remove(i)) + s[i],
        sum_squares_of(s) == sum_squares_of(s.remove(i)) + s[i] * s[i],
    decreases s.len(),
{
    if i == s.len() - 1 {
        assert(s.remove(i) =~= s.drop_last());
    } else {
        lemma_sum_remove(s.drop_last(), i);
        assert(s.remove(i).drop_last() =~= s.drop_last().remove(i));
        assert(s.remove(i).last() == s.last());
    }
}

/// The sums do not depend on the order of the samples.
pub proof fn lemma_sum_permutation(a: Seq<u32>, b: Seq<u32>)
    requires
        a.to_multiset() == b.to_multiset(),
    ensures
        sum_of(a) == sum_of(b),
        sum_squares_of(a) == sum_squares_of(b),
    decreases a.len(),
{
    broadcast use vstd::seq_lib::group_to_multiset_ensures;

    assert(a.len() == a.to_multiset().len());
    assert(b.len() == b.to_multiset().len());
    if a.len() > 0 {
        let x = a.last();
        assert(a.contains(x));
        assert(a.to_multiset().count(x) > 0);
        assert(b.contains(x));
        let j = choose|j: int| 0 <= j < b.len() && b[j] == x;
        lemma_sum_remove(a, a.len() - 1);
        lemma_sum_remove(b, j);
        assert(a.remove(a.len() - 1).to_multiset() =~= a.to_multiset().remove(x));
        assert(b.remove(j).to_multiset() =~= b.to_multiset().remove(x));
        lemma_sum_permutation(a.remove(a.len() - 1), b.remove(j));
    }
}

/// Moments computed over a reordering of `s` are moments of `s` itself.
pub proof fn lemma_moments_permutation(m: WindowMoments, a: Seq<u32>, s: Seq<u32>)
    requires
        a.to_multiset() == s.to_multiset(),
        moments_of(m, a),
    ensures
        moments_of(m, s),
{
    broadcast use vstd::seq_lib::group_to_multiset_ensures;

    assert(a.len() == a.to_multiset().len());
    assert(s.len() == s.to_multiset().len());
    lemma_sum_permutation(a, s);
    assert(a.to_multiset().count(m.min) > 0);
    assert(s.contains(m.min));
    assert(a.to_multiset().count(m.max) > 0);
    assert(s.contains(m.max));
    assert forall|i: int| 0 <= i < s.len() implies m.min <= s[i] && s[i] <= m.max by {
        assert(s.contains(s[i]));
        assert(s.to_multiset().count(s[i]) > 0);
        assert(a.contains(s[i]));
        let j = choose|j: int| 0 <= j < a.len() && a[j] == s[i];
        assert(m.min <= a[j]);
        assert(a[j] <= m.max);
    }
}

/// `m` occurs in `s` and no sample of `s` is below it.
pub open spec fn is_min_of(m: u32, s: Seq<u32>) -> bool {
    &&& s.contains(m)
    &&& forall|i: int| 0 <= i < s.len() ==> m <= s[i]
}

/// `m` occurs in `s` and no sample of `s` is above it.
pub open spec fn is_max_of(m: u32, s: Seq<u32>) -> bool {
    &&& s.contains(m)
    &&& forall|i: int| 0 <= i < s.len() ==> s[i] <= m
}

/// `n` times the population variance of `s`, times `n` again: with `n`
/// samples this is `n * sum of squares - (sum)^2`, a non-negative integer.
pub open spec fn dispersion_of(s: Seq<u32>) -> int {
    s.len() * sum_squares_of(s) - sum_of(s) * sum_of(s)
}

pub proof fn lemma_sum_bounds(s: Seq<u32>)
    ensures
        0 <= sum_of(s) <= s.len() * 0xffff_ffff,
        0 <= sum_squares_of(s) <= s.len() * (0xffff_ffff * 0xffff_ffff),
    decreases s.len(),
{
    if s.len() > 0 {
        lemma_sum_bounds(s.drop_last());
        assert(s.last() * s.last() <= 0xffff_ffff * 0xffff_ffff) by (nonlinear_arith)
            requires s.last() <= 0xffff_ffffu32;
        assert((s.len() - 1) * 0xffff_ffff + 0xffff_ffff == s.len() * 0xffff_ffff) by (nonlinear_arith);
        assert((s.len() - 1) * (0xffff_ffff * 0xffff_ffff) + 0xffff_ffff * 0xffff_ffff
            == s.len() * (0xffff_ffff * 0xffff_ffff)) by (nonlinear_arith);
    }
}

/// Helper for `lemma_dispersion_nonneg`: for any `y`, the sum of
/// `(x - y)^2` over the samples `x` of `s` is non-negative.
proof fn lemma_shifted_square_sum_nonneg(s: Seq<u32>, y: int)
    ensures
        sum_squares_of(s) - 2 * y * sum_of(s) + s.len() * (y * y) >= 0,
    decreases s.len(),
{
    if s.len() == 0 {
    } else {
        lemma_shifted_square_sum_nonneg(s.drop_last(), y);
        let x = s.last() as int;
        assert(x * x - 2 * y * x + y * y >= 0) by (nonlinear_arith);
        assert(2 * y * sum_of(s) == 2 * y * sum_of(s.drop_last()) + 2 * y * x) by (nonlinear_arith)
            requires sum_of(s) == sum_of(s.drop_last()) + x;
        assert(s.len() * (y * y) == (s.len() - 1) * (y * y) + y * y) by (nonlinear_arith)
            requires s.len() >= 1;
    }
}

/// The dispersion `n * sum of squares - (sum)^2` is never negative, so the
/// population variance is well defined.
pub proof fn lemma_dispersion_nonneg(s: Seq<u32>)
    ensures
        dispersion_of(s) >= 0,
    decreases s.len(),
{
    if s.len() == 0 {
        assert(dispersion_of(s) == 0);
    } else {
        let t = s.drop_last();
        let y = s.last() as int;
        let n = t.len() as int;
        lemma_dispersion_nonneg(t);
        lemma_shifted_square_sum_nonneg(t, y);
        let s2 = sum_squares_of(t);
        let s1 = sum_of(t);
        assert((n + 1) * (s2 + y * y) - (s1 + y) * (s1 + y)
            == (n * s2 - s1 * s1) + (s2 - 2 * y * s1 + n * (y * y))) by (nonlinear_arith);
        assert(sum_of(s) == s1 + y);
        assert(sum_squares_of(s) == s2 + y * y);
        assert(s.len() == n + 1);
        assert(dispersion_of(s) == (n + 1) * (s2 + y * y) - (s1 + y) * (s1 + y));
    }
}

/// `r` is the integer square root of `x`, rounded down.
pub open spec fn is_sqrt_floor(x: int, r: int) -> bool {
    0 <= r && r * r <= x && x < (r + 1) * (r + 1)
}

/// The integer square root of `x`, rounded down.
pub open spec fn sqrt_floor(x: int) -> int {
    choose|r: int| is_sqrt_floor(x, r)
}

/// Two rounded-down square roots of the same number agree.
pub proof fn lemma_sqrt_floor_unique(x: int, r1: int, r2: int)
    requires
        is_sqrt_floor(x, r1),
        is_sqrt_floor(x, r2),
    ensures
        r1 == r2,
{
    assert(r1 == r2) by (nonlinear_arith)
        requires
            0 <= r1 && r1 * r1 <= x && x < (r1 + 1) * (r1 + 1),
            0 <= r2 && r2 * r2 <= x && x < (r2 + 1) * (r2 + 1);
}

/// Integer square root by bisection.
pub fn isqrt(x: u128) -> (r: u64)
    requires
        x < 0x4000_0000_0000_0000_0000_0000_0000_0000,
    ensures
        is_sqrt_floor(x as int, r as int),
        r == sqrt_floor(x as int),
{
    let mut lo: u128 = 0;
    let mut hi: u128 = 0x8000_0000_0000_0000;
    proof {
        assert(hi * hi == 0x4000_0000_0000_0000_0000_0000_0000_0000) by (nonlinear_arith)
            requires hi == 0x8000_0000_0000_0000u128;
    }
    while lo + 1 < hi
        invariant
            lo < hi <= 0x8000_0000_0000_0000,
            lo * lo <= x,
            x < hi * hi,
        decreases hi - lo,
    {
        let mid = lo + (hi - lo) / 2;
        assert(lo < mid < hi);
        assert((mid as int) * (mid as int) < 0x1_0000_0000_0000_0000_0000_0000_0000_0000)
            by (nonlinear_arith)
            requires (mid as int) < 0x8000_0000_0000_0000;
        if mid * mid <= x {
            lo = mid;
        } else {
            hi = mid;
        }
    }
    proof {
        assert(hi == lo + 1);
        assert(is_sqrt_floor(x as int, lo as int));
        lemma_sqrt_floor_unique(x as int, lo as int, sqrt_floor(x as int));
    }
    lo as u64
}

/// The percentile of a sorted sequence at the fraction `p_num / p_den`,
/// multiplied by `p_den` so that it stays an integer.  The rank is
/// `p = p_num * (len - 1) / p_den`; the value interpolates linearly between
/// the neighbouring samples, so the scaled result is
/// `s[floor(p)] * (p_den - rem) + s[floor(p) + 1] * rem` with
/// `rem = p_num * (len - 1) % p_den`, and a whole rank returns
/// `s[p] * p_den` exactly.
pub open spec fn percentile_scaled(s: Seq<u32>, p_num: int, p_den: int) -> int
    recommends
        s.len() >= 1,
        0 < p_den,
        0 <= p_num <= p_den,
{
    let pos = p_num * (s.len() - 1);
    let k = pos / p_den;
    let rem = pos % p_den;
    if rem == 0 {
        s[k] * p_den
    } else {
        s[k] * (p_den - rem) + s[k + 1] * rem
    }
}

/// Linear-interpolation percentile over an already sorted window, exact:
/// the caller divides by `p_den` when it renders the value.
pub fn percentile(sorted: &Vec<u32>, p_num: u64, p_den: u64) -> (r: u128)
    requires
        1 <= sorted.len() <= MAX_WINDOW_LEN,
        0 < p_den,
        p_num <= p_den,
    ensures
        r == percentile_scaled(sorted@, p_num as int, p_den as int),
{
    broadcast use vstd::arithmetic::div_mod::lemma_div_is_ordered;
    broadcast use vstd::arithmetic::div_mod::lemma_div_by_multiple;
    broadcast use vstd::arithmetic::div_mod::lemma_fundamental_div_mod;
    broadcast use vstd::arithmetic::div_mod::lemma_mod_division_less_than_divisor;
    broadcast use vstd::arithmetic::div_mod::lemma_div_pos_is_pos;

    let len = sorted.len();
    assert((p_num as int) * ((len - 1) as int) <= (p_den as int) * ((len - 1) as int)
        < 0x1_0000_0000_0000_0000_0000_0000_0000_0000) by (nonlinear_arith)
        requires
            p_num <= p_den <= 0xffff_ffff_ffff_ffffu64,
            0 <= (len - 1) as int <= 0x8000_0000;
    let pos: u128 = (p_num as u128) * ((len - 1) as u128);
    let den: u128 = p_den as u128;
    let ghost posi = (p_num as int) * ((len - 1) as int);
    let k_wide = pos / den;
    let rem = pos % den;
    proof {
        assert(posi <= (p_den as int) * ((len - 1) as int));
        assert((p_den as int) * ((len - 1) as int) == ((len - 1) as int) * (p_den as int))
            by (nonlinear_arith);
        assert(posi / (den as int) <= (((len - 1) as int) * (den as int)) / (den as int));
        assert(k_wide <= (len - 1) as int);
    }
    let k = k_wide as usize;
    if rem == 0 {
        let x = sorted[k];
        assert((x as int) * (den as int) < 0x1_0000_0000_0000_0000_0000_0000_0000_0000)
            by (nonlinear_arith)
            requires
                x <= 0xffff_ffffu32,
                den <= 0xffff_ffff_ffff_ffffu128;
        let r = (x as u128) * den;
        assert(r == percentile_scaled(sorted@, p_num as int, p_den as int));
        r
    } else {
        proof {
            // A fractional rank cannot sit on the last sample, so the upper
            // interpolation neighbour exists.
            assert(posi == (den as int) * (posi / (den as int)) + posi % (den as int));
            assert((k as int) < (len - 1) as int) by (nonlinear_arith)
                requires
                    posi == (den as int) * (k as int) + (rem as int),
                    0 < (rem as int) && (rem as int) < (den as int),
                    posi <= ((len - 1) as int) * (den as int),
                    0 <= k as int;
        }
        let lo = sorted[k] as u128;
        let hi = sorted[k + 1] as u128;
        proof {
            assert((lo as int) * ((den as int) - (rem as int))
                + (hi as int) * (rem as int)
                <= 0xffff_ffff * (den as int)) by (nonlinear_arith)
                requires
                    lo <= 0xffff_ffffu128,
                    hi <= 0xffff_ffffu128,
                    0 <= (rem as int) && (rem as int) <= (den as int);
            assert(0xffff_ffff * (den as int)
                < 0x1_0000_0000_0000_0000_0000_0000_0000_0000) by (nonlinear_arith)
                requires den <= 0xffff_ffff_ffff_ffffu128;
        }
        let r = lo * (den - rem) + hi * rem;
        assert(r == percentile_scaled(sorted@, p_num as int, p_den as int));
        r
    }
}

/// The raw moments of one window: count, extremes, sum and sum of squares.
/// Everything else (mean, deviation, quantiles) is derived from these and
/// from the sorted order.
pub struct WindowMoments {
    pub count: usize,
    pub min: u32,
    pub max: u32,
    pub sum: u128,
    pub sum_squares: u128,
}

/// `m` holds exactly the moments of the sample sequence `s`.
pub open spec fn moments_of(m: WindowMoments, s: Seq<u32>) -> bool {
    &&& m.count == s.len()
    &&& is_min_of(m.min, s)
    &&& is_max_of(m.max, s)
    &&& m.sum == sum_of(s)
    &&& m.sum_squares == sum_squares_of(s)
}

/// One pass over the window, accumulating all four moments.
pub fn window_moments(v: &Vec<u32>) -> (r: WindowMoments)
    requires
        1 <= v.len() <= MAX_WINDOW_LEN,
    ensures
        moments_of(r, v@),
{
    let mut min: u32 = v[0];
    let mut max: u32 = v[0];
    let mut sum: u128 = 0;
    let mut sum_squares: u128 = 0;
    let mut i: usize = 0;
    proof {
        assert(v@.take(0) =~= Seq::<u32>::empty());
    }
    while i < v.len()
        invariant
            i <= v.len(),
            1 <= v.len() <= MAX_WINDOW_LEN,
            i > 0 ==> is_min_of(min, v@.take(i as int)),
            i > 0 ==> is_max_of(max, v@.take(i as int)),
            i == 0 ==> min == v@[0] && max == v@[0],
            sum == sum_of(v@.take(i as int)),
            sum_squares == sum_squares_of(v@.take(i as int)),
        decreases v.len() - i,
    {
        let x = v[i];
        proof {
            lemma_sum_bounds(v@.take(i as int));
            assert(v@.take(i as int).len() * 0xffff_ffff <= MAX_WINDOW_LEN * 0xffff_ffff)
                by (nonlinear_arith)
                requires v@.take(i as int).len() <= MAX_WINDOW_LEN;
            assert(v@.take(i as int).len() * (0xffff_ffff * 0xffff_ffff)
                <= MAX_WINDOW_LEN * (0xffff_ffff * 0xffff_ffff)) by (nonlinear_arith)
                requires v@.take(i as int).len() <= MAX_WINDOW_LEN;
            assert(x * x <= 0xffff_ffff * 0xffff_ffff) by (nonlinear_arith)
                requires x <= 0xffff_ffffu32;
        }
        if x < min {
            min = x;
        }
        if x > max {
            max = x;
        }
        sum = sum + x as u128;
        sum_squares = sum_squares + (x as u128) * (x as u128);
        proof {
            assert(v@.take(i + 1).drop_last() =~= v@.take(i as int));
            assert(v@.take(i + 1).last() == v@[i as int]);
            assert(forall|k: int| 0 <= k < i + 1 ==> v@.take(i + 1)[k] == v@[k]);
            assert(v@.take(i + 1).contains(min)) by {
                if i == 0 || min == x {
                    assert(v@.take(i + 1)[i as int] == x || min != x);
                    if min == x {
                        assert(v@.take(i + 1)[i as int] == min);
                    } else {
                        assert(v@.take(i + 1)[0] == min);
                    }
                } else {
                    let w = choose|k: int| 0 <= k < i && v@.take(i as int)[k] == min;
                    assert(v@.take(i + 1)[w] == min);
                }
            }
            assert(v@.take(i + 1).contains(max)) by {
                if i == 0 || max == x {
                    if max == x {
                        assert(v@.take(i + 1)[i as int] == max);
                    } else {
                        assert(v@.take(i + 1)[0] == max);
                    }
                } else {
                    let w = choose|k: int| 0 <= k < i && v@.take(i as int)[k] == max;
                    assert(v@.take(i + 1)[w] == max);
                }
            }
        }
        i = i + 1;
    }
    proof {
        assert(v@.take(v@.len() as int) =~= v@);
    }
    WindowMoments { count: v.len(), min, max, sum, sum_squares }
}

/// Ascending copy of `v`, by insertion into the sorted prefix.
pub fn sort_samples(v: &Vec<u32>) -> (r: Vec<u32>)
    ensures
        r@ == sorted_of(v@),
{
    let mut r: Vec<u32> = Vec::new();
    let mut i: usize = 0;
    proof {
        assert(v@.take(0) =~= Seq::<u32>::empty());
        assert(r@.to_multiset() =~= v@.take(0).to_multiset());
    }
    while i < v.len()
        invariant
            i <= v.len(),
            sorted(r@),
            r@.to_multiset() == v@.take(i as int).to_multiset(),
        decreases v.len() - i,
    {
        let x = v[i];
        // Find the first position whose sample exceeds x.
        let mut pos: usize = 0;
        while pos < r.len() && r[pos] <= x
            invariant
                pos <= r.len(),
                forall|k: int| 0 <= k < pos ==> r@[k] <= x,
            decreases r.len() - pos,
        {
            pos = pos + 1;
        }
        let ghost old_r = r@;
        r.insert(pos, x);
        proof {
            let inserted = old_r.insert(pos as int, x);
            assert(sorted(inserted)) by {
                assert forall|p: int, q: int|
                    0 <= p <= q < inserted.len() implies inserted[p] <= inserted[q] by {
                    if p < pos && pos < q {
                        assert(inserted[p] == old_r[p]);
                        assert(inserted[q] == old_r[q - 1]);
                        assert(old_r[pos as int] <= old_r[q - 1]);
                    }
                }
            }
            assert(inserted.to_multiset() =~= old_r.to_multiset().insert(x)) by {
                broadcast use vstd::seq_lib::group_to_multiset_ensures;

                assert(inserted =~= old_r.take(pos as int) + (seq![x] + old_r.skip(pos as int)));
                lemma_multiset_commutative(old_r.take(pos as int), seq![x] + old_r.skip(pos as int));
                lemma_multiset_commutative(seq![x], old_r.skip(pos as int));
                assert(old_r =~= old_r.take(pos as int) + old_r.skip(pos as int));
                lemma_multiset_commutative(old_r.take(pos as int), old_r.skip(pos as int));
                assert(seq![x].to_multiset() =~= Multiset::empty().insert(x)) by {
                    assert(seq![x] =~= Seq::empty().push(x));
                    assert(Seq::<u32>::empty().to_multiset() =~= Multiset::empty());
                }
            }
            assert(v@.take(i + 1).drop_last() =~= v@.take(i as int));
            assert(v@.take(i + 1).last() == v@[i as int]);
            broadcast use vstd::seq_lib::group_to_multiset_ensures;

            assert(v@.take(i + 1) =~= v@.take(i as int).push(v@[i as int]));
            assert(v@.take(i + 1).to_multiset() =~= v@.take(i as int).to_multiset().insert(x));
        }
        i = i + 1;
    }
    proof {
        assert(v@.take(v@.len() as int) =~= v@);
        lemma_sorted_of_ensures(v@);
        lemma_sorted_unique(r@, sorted_of(v@));
    }
    r
}

/// A single-sample window returns that sample for every percentile
/// fraction: the scaled percentile of `[x]` at any `p_num / p_den` in
/// `[0, 1]` is `x * p_den`.
pub proof fn lemma_percentile_singleton(s: Seq<u32>, p_num: int, p_den: int)
    requires
        s.len() == 1,
        0 < p_den,
        0 <= p_num <= p_den,
    ensures
        percentile_scaled(s, p_num, p_den) == s[0] * p_den,
{
    assert(p_num * (s.len() - 1) == 0) by (nonlinear_arith)
        requires s.len() == 1;
    assert(0int / p_den == 0) by {
        vstd::arithmetic::div_mod::lemma_div_of0(p_den);
    }
    assert(0int % p_den == 0) by {
        vstd::arithmetic::div_mod::lemma_small_mod(0, p_den as nat);
    }
}

/// A sample `x` lies inside the outlier fences `[Q1 - 1.5*IQR, Q3 + 1.5*IQR]`
/// where `IQR = Q3 - Q1`.  With the quartiles scaled by 4 the fences are
/// `(5*q1s - 3*q3s) / 8` and `(5*q3s - 3*q1s) / 8`, so the comparison is
/// cross-multiplied by 8.
pub open spec fn in_fences(x: u32, q1s: int, q3s: int) -> bool {
    &&& 5 * q1s - 3 * q3s <= 8 * x
    &&& 8 * x <= 5 * q3s - 3 * q1s
}

/// The subsequence of the sorted window `t` inside the outlier fences.
pub open spec fn fence_kept(t: Seq<u32>) -> Seq<u32> {
    t.filter(
        |x: u32| in_fences(x, percentile_scaled(t, 1, 4), percentile_scaled(t, 3, 4)),
    )
}

/// Outlier filtering would discard more than half of the window.
pub open spec fn discards_majority(t: Seq<u32>) -> bool {
    2 * (t.len() - fence_kept(t).len()) > t.len()
}

/// The set of samples the statistics are computed over: the sorted window,
/// outlier-filtered when filtering is on — unless that would discard more
/// than half of the samples, in which case the whole window is used.
pub open spec fn analysis_window(s: Seq<u32>, filtered: bool) -> Seq<u32> {
    let t = sorted_of(s);
    if filtered && !discards_majority(t) {
        fence_kept(t)
    } else {
        t
    }
}

/// When outlier filtering would discard more than half of the window, the
/// statistics fall back to the whole window: the analysis set with filtering
/// on equals the analysis set with filtering off.
pub proof fn lemma_majority_fallback(s: Seq<u32>)
    requires
        discards_majority(sorted_of(s)),
    ensures
        analysis_window(s, true) == analysis_window(s, false),
{
}

/// A scaled percentile stays between 0 and the largest sample value times
/// the denominator.
proof fn lemma_percentile_scaled_bounds(s: Seq<u32>, p_num: int, p_den: int)
    requires
        s.len() >= 1,
        0 < p_den,
        0 <= p_num,
    ensures
        0 <= percentile_scaled(s, p_num, p_den) <= 0xffff_ffff * p_den,
{
    let pos = p_num * (s.len() - 1);
    let k = pos / p_den;
    let rem = pos % p_den;
    assert(pos >= 0) by (nonlinear_arith)
        requires 0 <= p_num && 0 <= s.len() - 1 && pos == p_num * (s.len() - 1);
    vstd::arithmetic::div_mod::lemma_mod_pos_bound(pos, p_den);
    if rem == 0 {
        assert(0 <= s[k] * p_den <= 0xffff_ffff * p_den) by (nonlinear_arith)
            requires 0 <= s[k] <= 0xffff_ffff && 0 < p_den;
    } else {
        assert(0 <= s[k] * (p_den - rem) + s[k + 1] * rem <= 0xffff_ffff * p_den)
            by (nonlinear_arith)
            requires
                0 <= s[k] <= 0xffff_ffff,
                0 <= s[k + 1] <= 0xffff_ffff,
                0 < rem && rem < p_den;
    }
}

/// Appending one sample either appends it to the filtered sequence or leaves
/// the filtered sequence alone, depending on the predicate.
proof fn lemma_filter_push(s: Seq<u32>, pred: spec_fn(u32) -> bool, x: u32)
    ensures
        s.push(x).filter(pred) == (if pred(x) {
            s.filter(pred).push(x)
        } else {
            s.filter(pred)
        }),
{
    reveal(Seq::filter);
    assert(s.push(x).drop_last() =~= s);
    assert(s.push(x).last() == x);
}

/// Keeps the samples of the sorted window `t` that lie inside the outlier
/// fences drawn from its quartiles.
fn filter_fences(t: &Vec<u32>) -> (kept: Vec<u32>)
    requires
        1 <= t.len() <= MAX_WINDOW_LEN,
    ensures
        kept@ == fence_kept(t@),
        kept@.len() <= t@.len(),
{
    let q1 = percentile(t, 1, 4);
    let q3 = percentile(t, 3, 4);
    proof {
        lemma_percentile_scaled_bounds(t@, 1, 4);
        lemma_percentile_scaled_bounds(t@, 3, 4);
    }
    let lo8: i128 = 5 * (q1 as i128) - 3 * (q3 as i128);
    let hi8: i128 = 5 * (q3 as i128) - 3 * (q1 as i128);
    let ghost pred = |x: u32|
        in_fences(x, percentile_scaled(t@, 1, 4), percentile_scaled(t@, 3, 4));
    let mut kept: Vec<u32> = Vec::new();
    let mut i: usize = 0;
    proof {
        assert(t@.take(0) =~= Seq::<u32>::empty());
        assert(Seq::<u32>::empty().filter(pred) =~= Seq::<u32>::empty()) by {
            reveal(Seq::filter);
        }
    }
    while i < t.len()
        invariant
            i <= t.len(),
            q1 == percentile_scaled(t@, 1, 4),
            q3 == percentile_scaled(t@, 3, 4),
            q1 <= 0x3_ffff_fffc,
            q3 <= 0x3_ffff_fffc,
            lo8 == 5 * (q1 as int) - 3 * (q3 as int),
            hi8 == 5 * (q3 as int) - 3 * (q1 as int),
            pred == (|x: u32|
                in_fences(x, percentile_scaled(t@, 1, 4), percentile_scaled(t@, 3, 4))),
            kept@ == t@.take(i as int).filter(pred),
            kept@.len() <= i,
        decreases t.len() - i,
    {
        let x = t[i];
        let scaled: i128 = 8 * (x as i128);
        proof {
            assert(t@.take(i + 1) =~= t@.take(i as int).push(t@[i as int]));
            lemma_filter_push(t@.take(i as int), pred, t@[i as int]);
        }
        if lo8 <= scaled && scaled <= hi8 {
            kept.push(x);
        }
        i = i + 1;
    }
    proof {
        assert(t@.take(t@.len() as int) =~= t@);
    }
    kept
}

/// The three quartiles of the analysis set, each scaled by 4 (the caller
/// divides by 4 when it renders a value in microseconds).
pub struct QuartileSummary {
    pub q1_scaled: u128,
    pub median_scaled: u128,
    pub q3_scaled: u128,
}

/// Everything one flush reports about its window, in exact integer form:
/// the raw moments, the mean and population standard deviation in
/// nanoseconds (each rounded down to the nanosecond), and in extended mode
/// the scaled quartiles.
pub struct AggregatedStats {
    pub moments: WindowMoments,
    pub mean_nanos: u128,
    pub stddev_nanos: u128,
    pub quartiles: Option<QuartileSummary>,
    pub used_filter: bool,
}

/// `r` holds exactly the statistics of the window `s` under the given mode
/// flags: every field is computed over the analysis set of `s`.
pub open spec fn stats_describe(r: AggregatedStats, s: Seq<u32>, extended: bool, filtered: bool) -> bool {
    let a = analysis_window(s, extended && filtered);
    &&& moments_of(r.moments, a)
    &&& r.mean_nanos == 1000 * sum_of(a) / (a.len() as int)
    &&& r.stddev_nanos == sqrt_floor(1_000_000 * dispersion_of(a)) / (a.len() as int)
    &&& (match r.quartiles {
        Some(q) => {
            &&& extended
            &&& q.q1_scaled == percentile_scaled(a, 1, 4)
            &&& q.median_scaled == percentile_scaled(a, 2, 4)
            &&& q.q3_scaled == percentile_scaled(a, 3, 4)
        },
        None => !extended,
    })
    &&& r.used_filter == (extended && filtered && !discards_majority(sorted_of(s)))
}

/// Computes the statistics of one flushed window.  `extended` adds the
/// quartiles; `filtered` additionally applies outlier filtering before any
/// statistic is computed, with the more-than-half fallback.
pub fn aggregate(v: &Vec<u32>, extended: bool, filtered: bool) -> (r: AggregatedStats)
    requires
        1 <= v.len() <= MAX_WINDOW_LEN,
    ensures
        stats_describe(r, v@, extended, filtered),
        // When no sample was filtered away, the moments are the moments of
        // the window as it was handed in.
        !r.used_filter ==> moments_of(r.moments, v@),
{
    proof {
        lemma_sorted_of_ensures(v@);
    }
    let t = sort_samples(v);
    let (a_vec, used_filter): (Vec<u32>, bool) = if extended && filtered {
        let kept = filter_fences(&t);
        let discarded = t.len() - kept.len();
        if 2 * (discarded as u64) > t.len() as u64 {
            (t, false)
        } else {
            (kept, true)
        }
    } else {
        (t, false)
    };
    let ghost a = analysis_window(v@, extended && filtered);
    proof {
        assert(a_vec@ == a);
        assert(1 <= a.len() <= MAX_WINDOW_LEN);
    }
    let m = window_moments(&a_vec);
    let count = a_vec.len() as u128;
    proof {
        lemma_sum_bounds(a);
        lemma_dispersion_nonneg(a);
        assert(a.len() * 0xffff_ffff <= 0x10_0000 * 0xffff_ffff) by (nonlinear_arith)
            requires a.len() <= 0x10_0000;
        assert(a.len() * (0xffff_ffff * 0xffff_ffff)
            <= 0x10_0000 * (0xffff_ffff * 0xffff_ffff)) by (nonlinear_arith)
            requires a.len() <= 0x10_0000;
        assert((m.count as int) * (m.sum_squares as int) * 1_000_000
            < 0x4000_0000_0000_0000_0000_0000_0000_0000) by (nonlinear_arith)
            requires
                m.count <= 0x10_0000usize,
                m.sum_squares <= 0x10_0000 * (0xffff_ffff * 0xffff_ffff),
        ;
        assert((m.sum as int) * (m.sum as int) <= (m.count as int) * (m.sum_squares as int))
            by {
            assert(dispersion_of(a) == (m.count as int) * (m.sum_squares as int)
                - (m.sum as int) * (m.sum as int));
        }
        assert((m.sum as int) * 1000 < 0x1_0000_0000_0000_0000_0000_0000_0000_0000)
            by (nonlinear_arith)
            requires m.sum <= 0x10_0000 * 0xffff_ffffu128;
    }
    let mean_nanos = m.sum * 1000 / count;
    let d = (m.count as u128) * m.sum_squares - m.sum * m.sum;
    proof {
        assert((d as int) * 1_000_000 <= (m.count as int) * (m.sum_squares as int) * 1_000_000)
            by (nonlinear_arith)
            requires 0 <= (d as int) <= (m.count as int) * (m.sum_squares as int);
    }
    let sdev = isqrt(d * 1_000_000);
    let stddev_nanos = (sdev as u128) / count;
    let quartiles = if extended {
        let q1 = percentile(&a_vec, 1, 4);
        let med = percentile(&a_vec, 2, 4);
        let q3 = percentile(&a_vec, 3, 4);
        Some(QuartileSummary { q1_scaled: q1, median_scaled: med, q3_scaled: q3 })
    } else {
        None
    };
    let r = AggregatedStats { moments: m, mean_nanos, stddev_nanos, quartiles, used_filter };
    proof {
        if !used_filter {
            assert(a == sorted_of(v@));
            lemma_moments_permutation(m, a, v@);
        }
    }
    r
}

} // verus!
