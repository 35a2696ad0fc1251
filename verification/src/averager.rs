//! Averaging of a run of sensor readings.
//!
//! An `Averager` decides; its caller reads the sensor. The caller waits as
//! long as `pending` says, takes one reading, hands it to `record`, and goes
//! on until `pending` gives the mean.

use vstd::prelude::*;
use crate::arith::{
    all_within, lemma_mean_bounds, lemma_mean_of_constant, lemma_sum_bounds, lemma_sum_push,
    mean_of, quotient, sum,
};

verus! {

/// Pause between two readings of one average, in milliseconds.
pub const SAMPLE_DELAY_MS: u32 = 10;

/// What an averager asks of its caller.
#[derive(Clone, Copy, Debug, PartialEq, Eq)]
pub enum Sampling {
    /// Wait this long, then take a reading and record it.
    Read { delay_ms: u32 },
    /// Every reading is in: this is their mean.
    Done { mean: i32 },
}

/// What an averager that wants `wanted` readings and has `readings` asks for:
/// the first reading at once, each further one after the pause, and nothing
/// after the last.
pub open spec fn pending_sampling(wanted: u32, readings: Seq<int>) -> Sampling {
    if readings.len() >= wanted {
        Sampling::Done { mean: mean_of(readings) as i32 }
    } else if readings.len() == 0 {
        Sampling::Read { delay_ms: 0 }
    } else {
        Sampling::Read { delay_ms: SAMPLE_DELAY_MS }
    }
}

/// The readings after `reading` comes in: it is added while readings are
/// wanted, and dropped once all are in.
pub open spec fn recorded(wanted: u32, readings: Seq<int>, reading: int) -> Seq<int> {
    if readings.len() < wanted {
        readings.push(reading)
    } else {
        readings
    }
}

/// The mean of a fixed number of sequential readings, in the making.
pub struct Averager {
    wanted: u32,
    count: u32,
    total: i64,
    taken: Ghost<Seq<int>>,
}

impl Averager {
    #[verifier::type_invariant]
    closed spec fn valid(self) -> bool {
        &&& self.wanted >= 1
        &&& self.count <= self.wanted
        &&& self.taken@.len() == self.count
        &&& self.total == sum(self.taken@)
        &&& all_within(self.taken@, i32::MIN as int, i32::MAX as int)
    }

    /// How many readings the average is made of.
    pub closed spec fn wanted(&self) -> u32 {
        self.wanted
    }

    /// The readings recorded so far, in the order they came.
    pub closed spec fn readings(&self) -> Seq<int> {
        self.taken@
    }

    /// An averager of `samples` readings, none of them taken yet.
    pub fn new(samples: u32) -> (a: Averager)
        requires
            samples >= 1,
        ensures
            a.wanted() == samples,
            a.readings() == Seq::<int>::empty(),
    {
        Averager { wanted: samples, count: 0, total: 0, taken: Ghost(Seq::empty()) }
    }

    /// What the caller is to do next.
    pub fn pending(&self) -> (next: Sampling)
        ensures
            next == pending_sampling(self.wanted(), self.readings()),
    {
        proof {
            use_type_invariant(self);
            lemma_sum_bounds(self.taken@, i32::MIN as int, i32::MAX as int);
        }
        if self.count >= self.wanted {
            proof {
                lemma_mean_bounds(self.taken@, i32::MIN as int, i32::MAX as int);
            }
            let mean: i128 = quotient(self.total as i128, self.count as i128);
            Sampling::Done { mean: mean as i32 }
        } else if self.count == 0 {
            Sampling::Read { delay_ms: 0 }
        } else {
            Sampling::Read { delay_ms: SAMPLE_DELAY_MS }
        }
    }

    /// Takes in one reading and returns what to do next. A reading that
    /// comes after the last one wanted changes nothing.
    pub fn record(&mut self, reading: i32) -> (next: Sampling)
        ensures
            final(self).wanted() == old(self).wanted(),
            final(self).readings() == recorded(
                old(self).wanted(),
                old(self).readings(),
                reading as int,
            ),
            next == pending_sampling(final(self).wanted(), final(self).readings()),
    {
        proof {
            use_type_invariant(&*self);
            lemma_sum_bounds(self.taken@, i32::MIN as int, i32::MAX as int);
        }
        if self.count < self.wanted {
            proof {
                lemma_sum_push(self.taken@, reading as int);
                assert(self.count * i32::MIN >= -0x1_0000_0000 * 0x8000_0000 + 0x8000_0000
                    && self.count * i32::MAX <= 0x1_0000_0000 * 0x8000_0000 - 0x8000_0000)
                    by (nonlinear_arith)
                    requires
                        0 <= self.count < 0xffff_ffff,
                ;
            }
            *self = Averager {
                wanted: self.wanted,
                count: self.count + 1,
                total: self.total + reading as i64,
                taken: Ghost(self.taken@.push(reading as int)),
            };
        }
        self.pending()
    }
}

/// What is asked for before reading number `i`, counted from zero: the
/// reading at once if it is the first, after the pause if not.
pub open spec fn nth_request(i: int) -> Sampling {
    if i == 0 {
        Sampling::Read { delay_ms: 0 }
    } else {
        Sampling::Read { delay_ms: SAMPLE_DELAY_MS }
    }
}

/// The pauses asked for, one before each reading, while `readings` come in
/// to an averager that wants `wanted` of them.
pub open spec fn pauses(wanted: u32, readings: Seq<int>) -> Seq<int> {
    Seq::new(
        readings.len(),
        |i: int|
            match pending_sampling(wanted, readings.take(i)) {
                Sampling::Read { delay_ms } => delay_ms as int,
                Sampling::Done { .. } => 0,
            },
    )
}

/// An average of `k` readings takes exactly `k` readings and pauses between
/// them only: `k - 1` times in all, not before the first reading and not
/// after the last.
pub proof fn lemma_pauses_between_readings(k: u32, readings: Seq<int>)
    requires
        k >= 1,
        readings.len() == k,
    ensures
        forall|i: int|
            0 <= i < k ==> #[trigger] pending_sampling(k, readings.take(i)) == nth_request(i),
        pending_sampling(k, readings) is Done,
        sum(pauses(k, readings)) == (k - 1) * SAMPLE_DELAY_MS,
{
    let all = pauses(k, readings);
    assert forall|i: int| 0 <= i < k implies #[trigger] pending_sampling(k, readings.take(i))
        == nth_request(i) by {
        assert(readings.take(i).len() == i);
    }
    assert forall|i: int| 1 <= i < k implies all[i] == SAMPLE_DELAY_MS by {
        assert(pending_sampling(k, readings.take(i)) == nth_request(i));
    }
    assert(all[0] == 0) by {
        assert(pending_sampling(k, readings.take(0)) == nth_request(0));
    }
    lemma_sum_after_first(all, SAMPLE_DELAY_MS as int, k as int);
    assert(all.take(k as int) =~= all);
}

/// The sum of the first `n` elements of a sequence that holds zero in its
/// first place and `v` in every other.
proof fn lemma_sum_after_first(s: Seq<int>, v: int, n: int)
    requires
        1 <= n <= s.len(),
        s[0] == 0,
        forall|i: int| 1 <= i < s.len() ==> s[i] == v,
    ensures
        sum(s.take(n)) == (n - 1) * v,
    decreases n,
{
    if n == 1 {
        assert(s.take(1).drop_last() =~= Seq::<int>::empty());
        assert(sum(s.take(1)) == sum(Seq::<int>::empty()) + s[0]);
    } else {
        lemma_sum_after_first(s, v, n - 1);
        assert(s.take(n).drop_last() =~= s.take(n - 1));
        assert((n - 1) * v == (n - 2) * v + v) by (nonlinear_arith);
    }
}

/// Over a source that always reads `c`, an average of any positive number
/// of readings is `c`, exactly.
pub proof fn lemma_constant_source(c: i32, k: u32)
    requires
        k >= 1,
    ensures
        pending_sampling(k, Seq::new(k as nat, |i: int| c as int)) == (Sampling::Done { mean: c }),
{
    lemma_mean_of_constant(Seq::new(k as nat, |i: int| c as int), c as int);
}

} // verus!
