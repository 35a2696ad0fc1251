//! A fixed-size rolling window over the latest weights, newest first.

use vstd::prelude::*;
use vstd::relations::{sorted_by, total_ordering};
use vstd::seq_lib::lemma_sorted_unique;
use crate::arith::{
    lemma_div_toward_zero_bounds, lemma_max_is, lemma_mean_of_constant, lemma_min_is,
    lemma_sum_push, lemma_trimmed_sum_bounds, mean_of, quotient, sum, trimmed_mean,
};

verus! {

/// The elements of `s` as mathematical integers.
pub open spec fn ints(s: Seq<i64>) -> Seq<int> {
    Seq::new(s.len(), |i: int| s[i] as int)
}

/// The window `s` after `v` has come in: `v` in front, the last element of
/// `s` gone.
pub open spec fn shifted_in(s: Seq<int>, v: int) -> Seq<int> {
    seq![v] + s.drop_last()
}

/// A window of `n` zeros.
pub open spec fn zeros(n: nat) -> Seq<int> {
    Seq::new(n, |i: int| 0int)
}

/// No element of `s` is greater than one that follows it.
pub open spec fn ascending(s: Seq<int>) -> bool {
    forall|i: int, j: int| 0 <= i < j < s.len() ==> s[i] <= s[j]
}

/// The middle element of `s` in ascending order; of an even number of
/// elements, the upper of the two in the middle.
pub open spec fn median_of(s: Seq<int>) -> int {
    s.sort()[s.len() as int / 2]
}

/// An ascending arrangement of the elements of `s` is `s` sorted.
pub proof fn lemma_sort_is(s: Seq<int>, arranged: Seq<int>)
    requires
        ascending(arranged),
        arranged.to_multiset() == s.to_multiset(),
    ensures
        s.sort() == arranged,
{
    let leq = |x: int, y: int| x <= y;
    s.lemma_sort_ensures();
    assert(sorted_by(arranged, leq));
    assert(total_ordering(leq));
    lemma_sorted_unique(s.sort(), arranged, leq);
}

/// The last `N` weights, newest first.
///
/// The view is the window as a sequence of `N` integers; index 0 is the
/// weight that came in last.
#[derive(Clone, Copy, Debug, PartialEq, Eq)]
pub struct Buffer<const N: usize> {
    values: [i64; N],
}

impl<const N: usize> View for Buffer<N> {
    type V = Seq<int>;

    closed spec fn view(&self) -> Seq<int> {
        ints(self.values@)
    }
}

impl<const N: usize> Buffer<N> {
    /// A window always holds `N` values.
    pub proof fn lemma_len(self)
        ensures
            self@.len() == N,
    {
    }

    /// A window of zeros.
    pub fn new() -> (b: Self)
        ensures
            b@ == zeros(N as nat),
    {
        let b = Buffer { values: [0i64; N] };
        assert(b@ =~= zeros(N as nat));
        b
    }

    /// Sets every slot to zero.
    pub fn zero(&mut self)
        ensures
            final(self)@ == zeros(N as nat),
    {
        self.values = [0i64; N];
        assert(self@ =~= zeros(N as nat));
    }

    /// The window, newest first.
    pub fn values(&self) -> (v: [i64; N])
        ensures
            ints(v@) == self@,
            v@.len() == N,
    {
        self.values
    }

    /// Takes `new` in as the newest value; the oldest leaves.
    pub fn push(&mut self, new: i64)
        requires
            N > 0,
        ensures
            final(self)@ == shifted_in(old(self)@, new as int),
    {
        let ghost before = self.values@;
        let mut i: usize = N - 1;
        while i > 0
            invariant
                i < N,
                forall|k: int| 0 <= k <= i ==> self.values@[k] == before[k],
                forall|k: int| i < k < N ==> self.values@[k] == before[k - 1],
            decreases i,
        {
            self.values[i] = self.values[i - 1];
            i -= 1;
        }
        self.values[0] = new;
        assert(self@ =~= shifted_in(old(self)@, new as int));
    }

    /// The mean of the window, rounded toward zero.
    pub fn average(&self) -> (avg: i64)
        requires
            N > 0,
        ensures
            avg == mean_of(self@),
    {
        let total: i128 = self.total();
        proof {
            lemma_div_toward_zero_bounds(total as int, N as int, i64::MIN as int, i64::MAX as int);
        }
        quotient(total, N as i128) as i64
    }

    /// The sum of the window.
    fn total(&self) -> (total: i128)
        ensures
            total == sum(self@),
            N * i64::MIN <= total <= N * i64::MAX,
    {
        let mut total: i128 = 0;
        let mut i: usize = 0;
        while i < N
            invariant
                i <= N,
                total == sum(self@.take(i as int)),
                i * i64::MIN <= total <= i * i64::MAX,
            decreases N - i,
        {
            proof {
                assert(self@.take(i + 1) =~= self@.take(i as int).push(self@[i as int]));
                lemma_sum_push(self@.take(i as int), self@[i as int]);
                assert((i + 1) * i64::MIN == i * i64::MIN + i64::MIN) by (nonlinear_arith);
                assert((i + 1) * i64::MAX == i * i64::MAX + i64::MAX) by (nonlinear_arith);
                assert(i * i64::MIN >= N * i64::MIN && i * i64::MAX <= N * i64::MAX)
                    by (nonlinear_arith)
                    requires
                        0 <= i < N,
                ;
                assert(N * i64::MIN >= -0x1_0000_0000_0000_0000 * 0x8000_0000_0000_0000
                    && N * i64::MAX <= 0x1_0000_0000_0000_0000 * 0x8000_0000_0000_0000)
                    by (nonlinear_arith)
                    requires
                        0 <= N <= 0xffff_ffff_ffff_ffff,
                ;
            }
            total = total + self.values[i] as i128;
            i += 1;
        }
        assert(self@.take(N as int) =~= self@);
        total
    }

    /// The mean of the window without one greatest and one least value,
    /// rounded toward zero. Of equal values it makes no difference which one
    /// is left out. A window of fewer than three values has no such mean.
    pub fn corrected_average(&self) -> (avg: i64)
        requires
            N >= 3,
        ensures
            avg == trimmed_mean(self@),
    {
        let total: i128 = self.total();
        let mut highest: i64 = self.values[0];
        let mut lowest: i64 = self.values[0];
        let ghost mut high_at: int = 0;
        let ghost mut low_at: int = 0;
        let mut i: usize = 1;
        while i < N
            invariant
                1 <= i <= N,
                0 <= high_at < i,
                0 <= low_at < i,
                highest == self.values@[high_at],
                lowest == self.values@[low_at],
                forall|k: int| 0 <= k < i ==> lowest <= #[trigger] self.values@[k] <= highest,
            decreases N - i,
        {
            let v: i64 = self.values[i];
            if v > highest {
                highest = v;
                proof {
                    high_at = i as int;
                }
            }
            if v < lowest {
                lowest = v;
                proof {
                    low_at = i as int;
                }
            }
            i += 1;
        }
        proof {
            lemma_max_is(self@, high_at);
            lemma_min_is(self@, low_at);
            lemma_trimmed_sum_bounds(self@);
            lemma_div_toward_zero_bounds(
                total - highest - lowest,
                N - 2,
                lowest as int,
                highest as int,
            );
        }
        let rest: i128 = total - highest as i128 - lowest as i128;
        quotient(rest, (N - 2) as i128) as i64
    }

    /// The median of the window: its middle element in ascending order, the
    /// upper of the two middle ones where `N` is even.
    pub fn median(&self) -> (m: i64)
        requires
            N > 0,
        ensures
            m == median_of(self@),
    {
        let mut sorted: [i64; N] = self.values;
        let mut i: usize = 1;
        while i < N
            invariant
                1 <= i <= N,
                ints(sorted@).to_multiset() == self@.to_multiset(),
                ascending(ints(sorted@).take(i as int)),
            decreases N - i,
        {
            let key: i64 = sorted[i];
            let ghost outer = ints(sorted@);
            let mut j: usize = i;
            assert(outer.update(j as int, key as int) =~= outer);
            while j > 0 && sorted[j - 1] > key
                invariant
                    j <= i < N,
                    outer.len() == N,
                    outer[i as int] == key,
                    ascending(outer.take(i as int)),
                    ints(sorted@).update(j as int, key as int).to_multiset()
                        == self@.to_multiset(),
                    forall|k: int| 0 <= k < j ==> sorted@[k] == outer[k],
                    forall|k: int| j < k <= i ==> sorted@[k] == outer[k - 1] && sorted@[k] > key,
                    forall|k: int| i < k < N ==> sorted@[k] == outer[k],
                decreases j,
            {
                proof {
                    let held = ints(sorted@).update(j as int, key as int);
                    let moved = ints(sorted@.update(j as int, sorted@[j - 1])).update(
                        j - 1,
                        key as int,
                    );
                    assert(moved =~= held.update(j - 1, held[j as int]).update(
                        j as int,
                        held[j - 1],
                    ));
                    lemma_swap_keeps_elements(held, j - 1, j as int);
                }
                sorted[j] = sorted[j - 1];
                j -= 1;
            }
            proof {
                assert(ints(sorted@.update(j as int, key)) =~= ints(sorted@).update(
                    j as int,
                    key as int,
                ));
                let placed = ints(sorted@.update(j as int, key)).take(i + 1);
                assert forall|a: int, b: int| 0 <= a < b < placed.len() implies placed[a]
                    <= placed[b] by {
                    if b < j {
                        assert(outer.take(i as int)[a] <= outer.take(i as int)[b]);
                    } else if b == j {
                        if j > 0 {
                            assert(outer.take(i as int)[a] <= outer.take(i as int)[j - 1]);
                        }
                    } else if a > j {
                        assert(outer.take(i as int)[a - 1] <= outer.take(i as int)[b - 1]);
                    } else if a < j {
                        assert(outer.take(i as int)[a] <= outer.take(i as int)[j - 1]);
                    }
                }
            }
            sorted[j] = key;
            i += 1;
        }
        proof {
            assert(ints(sorted@).take(N as int) =~= ints(sorted@));
            lemma_sort_is(self@, ints(sorted@));
        }
        sorted[N / 2]
    }
}

/// Exchanging two elements of a sequence keeps what it holds.
pub proof fn lemma_swap_keeps_elements(s: Seq<int>, i: int, j: int)
    requires
        0 <= i < s.len(),
        0 <= j < s.len(),
    ensures
        s.update(i, s[j]).update(j, s[i]).to_multiset() == s.to_multiset(),
{
    broadcast use vstd::multiset::group_multiset_axioms;
    let once = s.update(i, s[j]);
    vstd::seq_lib::to_multiset_update(s, i, s[j]);
    vstd::seq_lib::to_multiset_update(once, j, s[i]);
    vstd::seq_lib::to_multiset_contains(s, s[i]);
    assert(s.contains(s[i]));
    assert(once.update(j, s[i]).to_multiset() =~= s.to_multiset());
}

/// The window `s` after the values of `vs` have come in, one after another.
pub open spec fn shifted_in_all(s: Seq<int>, vs: Seq<int>) -> Seq<int>
    decreases vs.len(),
{
    if vs.len() == 0 {
        s
    } else {
        shifted_in(shifted_in_all(s, vs.drop_last()), vs.last())
    }
}

/// A window holds the values that came in last, newest first, and behind
/// them as many of its earlier values as still fit; the oldest are gone.
/// Once as many values have come in as the window holds, none of the
/// earlier ones is left.
pub proof fn lemma_window_holds_latest(s: Seq<int>, vs: Seq<int>)
    requires
        s.len() > 0,
    ensures
        shifted_in_all(s, vs).len() == s.len(),
        forall|i: int|
            0 <= i < s.len() ==> #[trigger] shifted_in_all(s, vs)[i] == if i < vs.len() {
                vs[vs.len() - 1 - i]
            } else {
                s[i - vs.len()]
            },
    decreases vs.len(),
{
    if vs.len() > 0 {
        lemma_window_holds_latest(s, vs.drop_last());
    }
}

/// A window filled with one value has that value as its mean, exactly.
pub proof fn lemma_constant_fill_average(s: Seq<int>, vs: Seq<int>, v: int)
    requires
        s.len() > 0,
        vs.len() == s.len(),
        forall|i: int| 0 <= i < vs.len() ==> vs[i] == v,
    ensures
        mean_of(shifted_in_all(s, vs)) == v,
{
    lemma_window_holds_latest(s, vs);
    lemma_mean_of_constant(shifted_in_all(s, vs), v);
}

} // verus!
