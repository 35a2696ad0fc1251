//! Exact integer arithmetic shared by the averaging and calibration code:
//! division that rounds toward zero, sums and means of integer sequences.

use vstd::prelude::*;

verus! {

/// Magnitude of an integer.
pub open spec fn magnitude(x: int) -> int {
    if x < 0 {
        -x
    } else {
        x
    }
}

/// Quotient of `a` by a non-zero `b`, rounded toward zero: the quotient of
/// the magnitudes, negative when the signs differ.
pub open spec fn div_toward_zero(a: int, b: int) -> int {
    if (a < 0) == (b < 0) {
        magnitude(a) / magnitude(b)
    } else {
        -(magnitude(a) / magnitude(b))
    }
}

/// Sum of the elements of `s`.
pub open spec fn sum(s: Seq<int>) -> int
    decreases s.len(),
{
    if s.len() == 0 {
        0
    } else {
        sum(s.drop_last()) + s.last()
    }
}

/// Arithmetic mean of a non-empty `s`, rounded toward zero.
pub open spec fn mean_of(s: Seq<int>) -> int {
    div_toward_zero(sum(s), s.len() as int)
}

/// Every element of `s` lies in `lo..=hi`.
pub open spec fn all_within(s: Seq<int>, lo: int, hi: int) -> bool {
    forall|i: int| 0 <= i < s.len() ==> lo <= #[trigger] s[i] <= hi
}

/// Divides `a` by `b`, rounding toward zero.
pub fn quotient(a: i128, b: i128) -> (q: i128)
    requires
        b != 0,
        a > i128::MIN,
        b > i128::MIN,
    ensures
        q == div_toward_zero(a as int, b as int),
{
    if b > 0 {
        a / b
    } else {
        (-a) / (-b)
    }
}

/// A quotient rounded toward zero lies between the bounds that the dividend
/// lies between, once they are scaled by the divisor.
pub proof fn lemma_div_toward_zero_bounds(a: int, n: int, lo: int, hi: int)
    requires
        n > 0,
        n * lo <= a <= n * hi,
    ensures
        lo <= div_toward_zero(a, n) <= hi,
{
    let q = div_toward_zero(a, n);
    if a >= 0 {
        assert(q == a / n);
        assert(0 <= q && n * q <= a < n * q + n) by (nonlinear_arith)
            requires
                a >= 0,
                n > 0,
                q == a / n,
        ;
        assert(q <= hi) by (nonlinear_arith)
            requires
                n * q <= a,
                a <= n * hi,
                n > 0,
        ;
        assert(lo <= q) by (nonlinear_arith)
            requires
                n * lo <= a,
                a < n * q + n,
                n > 0,
                q >= 0,
        ;
    } else {
        let p = (-a) / n;
        assert(q == -p);
        assert(0 <= p && n * p <= -a < n * p + n) by (nonlinear_arith)
            requires
                a < 0,
                n > 0,
                p == (-a) / n,
        ;
        assert(lo <= -p) by (nonlinear_arith)
            requires
                n * p <= -a,
                n * lo <= a,
                n > 0,
        ;
        assert(-p <= hi) by (nonlinear_arith)
            requires
                -a < n * p + n,
                a <= n * hi,
                n > 0,
                p >= 0,
        ;
    }
}

/// Appending an element adds it to the sum.
pub proof fn lemma_sum_push(s: Seq<int>, v: int)
    ensures
        sum(s.push(v)) == sum(s) + v,
{
    assert(s.push(v).drop_last() =~= s);
}

/// The sum of a sequence whose elements lie in `lo..=hi` lies between
/// `len * lo` and `len * hi`.
pub proof fn lemma_sum_bounds(s: Seq<int>, lo: int, hi: int)
    requires
        all_within(s, lo, hi),
    ensures
        s.len() * lo <= sum(s) <= s.len() * hi,
    decreases s.len(),
{
    if s.len() > 0 {
        let t = s.drop_last();
        lemma_sum_bounds(t, lo, hi);
        assert(lo <= s[s.len() - 1] <= hi);
        assert(s.len() * lo == t.len() * lo + lo) by (nonlinear_arith)
            requires
                s.len() == t.len() + 1,
        ;
        assert(s.len() * hi == t.len() * hi + hi) by (nonlinear_arith)
            requires
                s.len() == t.len() + 1,
        ;
    } else {
        assert(s.len() * lo == 0 && s.len() * hi == 0) by (nonlinear_arith)
            requires
                s.len() == 0,
        ;
    }
}

/// Taking one element out of a sequence takes it out of the sum.
pub proof fn lemma_sum_remove(s: Seq<int>, i: int)
    requires
        0 <= i < s.len(),
    ensures
        sum(s) == sum(s.remove(i)) + s[i],
    decreases s.len(),
{
    if i == s.len() - 1 {
        assert(s.remove(i) =~= s.drop_last());
    } else {
        let t = s.drop_last();
        lemma_sum_remove(t, i);
        assert(s.remove(i).drop_last() =~= t.remove(i));
        assert(s.remove(i).last() == s.last());
    }
}

/// The mean of a non-empty sequence lies between bounds on its elements.
pub proof fn lemma_mean_bounds(s: Seq<int>, lo: int, hi: int)
    requires
        s.len() > 0,
        all_within(s, lo, hi),
    ensures
        lo <= mean_of(s) <= hi,
{
    lemma_sum_bounds(s, lo, hi);
    lemma_div_toward_zero_bounds(sum(s), s.len() as int, lo, hi);
}

/// The mean of one value repeated any positive number of times is that
/// value, exactly.
pub proof fn lemma_mean_of_constant(s: Seq<int>, v: int)
    requires
        s.len() > 0,
        forall|i: int| 0 <= i < s.len() ==> s[i] == v,
    ensures
        mean_of(s) == v,
{
    lemma_mean_bounds(s, v, v);
}

/// `s` without its elements at the two different places `i` and `j`.
pub open spec fn without_two(s: Seq<int>, i: int, j: int) -> Seq<int> {
    if i < j {
        s.remove(j).remove(i)
    } else {
        s.remove(i).remove(j)
    }
}

/// The mean of `s` once one greatest and one least element are set aside,
/// rounded toward zero. It is meant for sequences of three elements or more.
pub open spec fn trimmed_mean(s: Seq<int>) -> int {
    div_toward_zero(sum(s) - s.max() - s.min(), s.len() - 2)
}

/// An element that none exceeds is the maximum.
pub proof fn lemma_max_is(s: Seq<int>, i: int)
    requires
        0 <= i < s.len(),
        forall|k: int| 0 <= k < s.len() ==> s[k] <= s[i],
    ensures
        s.max() == s[i],
{
    s.max_ensures();
    let k = choose|k: int| 0 <= k < s.len() && s[k] == s.max();
    assert(s[k] <= s[i]);
}

/// An element that exceeds none is the minimum.
pub proof fn lemma_min_is(s: Seq<int>, i: int)
    requires
        0 <= i < s.len(),
        forall|k: int| 0 <= k < s.len() ==> s[i] <= s[k],
    ensures
        s.min() == s[i],
{
    s.min_ensures();
    let k = choose|k: int| 0 <= k < s.len() && s[k] == s.min();
    assert(s[i] <= s[k]);
}

/// Setting two elements aside takes both out of the sum, and leaves
/// elements within the bounds that held of all.
pub proof fn lemma_sum_without_two(s: Seq<int>, i: int, j: int, lo: int, hi: int)
    requires
        0 <= i < s.len(),
        0 <= j < s.len(),
        i != j,
        all_within(s, lo, hi),
    ensures
        without_two(s, i, j).len() == s.len() - 2,
        sum(s) == sum(without_two(s, i, j)) + s[i] + s[j],
        all_within(without_two(s, i, j), lo, hi),
{
    let first = if i < j { j } else { i };
    let second = if i < j { i } else { j };
    lemma_sum_remove(s, first);
    lemma_sum_remove(s.remove(first), second);
    let rest = without_two(s, i, j);
    assert forall|k: int| 0 <= k < rest.len() implies lo <= #[trigger] rest[k] <= hi by {
        if k < second {
            assert(rest[k] == s[k]);
        } else if k + 1 < first {
            assert(rest[k] == s[k + 1]);
        } else {
            assert(rest[k] == s[k + 2]);
        }
    }
}

/// What is left of the sum once the maximum and the minimum are taken out
/// is the sum of `len - 2` values between the two.
pub proof fn lemma_trimmed_sum_bounds(s: Seq<int>)
    requires
        s.len() >= 2,
    ensures
        (s.len() - 2) * s.min() <= sum(s) - s.max() - s.min() <= (s.len() - 2) * s.max(),
{
    s.max_ensures();
    s.min_ensures();
    let lo = s.min();
    let hi = s.max();
    let n = s.len() as int;
    assert(all_within(s, lo, hi));
    if lo == hi {
        lemma_sum_bounds(s, lo, hi);
        assert((n - 2) * lo == n * lo - lo - lo) by (nonlinear_arith);
    } else {
        let i = choose|i: int| 0 <= i < s.len() && s[i] == hi;
        let j = choose|j: int| 0 <= j < s.len() && s[j] == lo;
        lemma_sum_without_two(s, i, j, lo, hi);
        lemma_sum_bounds(without_two(s, i, j), lo, hi);
    }
}

/// With one element that none exceeds and another that exceeds none, the
/// trimmed mean is exactly the mean of all the others.
pub proof fn lemma_trimmed_mean_drops_outliers(s: Seq<int>, high: int, low: int)
    requires
        s.len() >= 3,
        0 <= high < s.len(),
        0 <= low < s.len(),
        high != low,
        forall|k: int| 0 <= k < s.len() ==> s[low] <= #[trigger] s[k] <= s[high],
    ensures
        trimmed_mean(s) == mean_of(without_two(s, high, low)),
{
    lemma_max_is(s, high);
    lemma_min_is(s, low);
    assert(all_within(s, s[low], s[high]));
    lemma_sum_without_two(s, high, low, s[low], s[high]);
}

} // verus!
