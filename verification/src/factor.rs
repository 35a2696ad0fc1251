//! Scale factors: how many raw units the sensors report per unit of mass,
//! and the conversion of a reading into a weight.
//!
//! Masses are counted in milligrams and scale factors in raw units per
//! kilogram, so that a factor of `1000` is one raw unit per gram.

use vstd::prelude::*;
use crate::arith::{div_toward_zero, magnitude, quotient};
use crate::reading::Reading;

verus! {

/// Milligrams in one kilogram.
pub const MG_PER_KG: i64 = 1_000_000;

/// The factor used when none could be measured: one raw unit per gram.
pub const FALLBACK_RAW_PER_KG: i64 = 1000;

/// A factor whose magnitude is below this is not safe to divide by.
pub const MIN_SAFE_RAW_PER_KG: i64 = 1;

/// The factor that a reading of `loaded` raw units under a reference mass of
/// `known_mg` milligrams gives, in raw units per kilogram.
pub open spec fn derived_factor(loaded: int, known_mg: int) -> int {
    div_toward_zero(loaded * MG_PER_KG, known_mg)
}

/// The factor that is divided by in place of `raw_per_kg`: the fallback where
/// `raw_per_kg` is too close to zero, else `raw_per_kg` itself.
pub open spec fn guarded_factor(raw_per_kg: int) -> int {
    if magnitude(raw_per_kg) < MIN_SAFE_RAW_PER_KG {
        FALLBACK_RAW_PER_KG as int
    } else {
        raw_per_kg
    }
}

/// The weight in milligrams that `raw` raw units stand for under a factor of
/// `raw_per_kg`.
pub open spec fn weight_of(raw: int, raw_per_kg: int) -> int {
    div_toward_zero(raw * MG_PER_KG, raw_per_kg)
}

/// A reading multiplied by the number of milligrams in a kilogram.
fn per_kilogram(raw: Reading) -> (scaled: i128)
    ensures
        scaled == raw@ * MG_PER_KG,
        i64::MIN < scaled < i64::MAX,
{
    let r: i64 = raw.raw();
    assert(-4_294_967_296_000_000 <= r * MG_PER_KG <= 4_294_967_294_000_000) by (nonlinear_arith)
        requires
            -4_294_967_296 <= r <= 4_294_967_294,
            MG_PER_KG == 1_000_000,
    ;
    r as i128 * MG_PER_KG as i128
}

/// Derives a scale factor from the reading taken under a reference mass:
/// the reading divided by the mass. Nothing is subtracted from the reading,
/// which is tare-corrected already.
pub fn derive_factor(loaded: Reading, known_mg: u32) -> (raw_per_kg: i64)
    requires
        known_mg > 0,
    ensures
        raw_per_kg == derived_factor(loaded@, known_mg as int),
{
    let scaled: i128 = per_kilogram(loaded);
    let q: i128 = quotient(scaled, known_mg as i128);
    proof {
        lemma_quotient_no_larger(scaled as int, known_mg as int);
    }
    q as i64
}

/// Dividing by a non-zero integer does not increase the magnitude.
pub proof fn lemma_quotient_no_larger(a: int, b: int)
    requires
        b != 0,
    ensures
        magnitude(div_toward_zero(a, b)) <= magnitude(a),
{
    let x = magnitude(a);
    let y = magnitude(b);
    assert(0 <= x / y <= x) by (nonlinear_arith)
        requires
            x >= 0,
            y >= 1,
    ;
}

/// A reading equal to the one taken under the reference mass weighs the
/// reference mass, where the factor came out without a remainder.
pub proof fn lemma_reference_weighs_itself(loaded: int, known_mg: int)
    requires
        known_mg > 0,
        loaded != 0,
        (magnitude(loaded) * MG_PER_KG) % known_mg == 0,
    ensures
        guarded_factor(derived_factor(loaded, known_mg)) == derived_factor(loaded, known_mg),
        weight_of(loaded, derived_factor(loaded, known_mg)) == known_mg,
{
    let scaled = magnitude(loaded) * MG_PER_KG;
    let f = scaled / known_mg;
    assert(scaled >= 1_000_000) by (nonlinear_arith)
        requires
            scaled == magnitude(loaded) * MG_PER_KG,
            magnitude(loaded) >= 1,
            MG_PER_KG == 1_000_000,
    ;
    assert(magnitude(loaded * MG_PER_KG) == scaled) by (nonlinear_arith)
        requires
            scaled == magnitude(loaded) * MG_PER_KG,
            MG_PER_KG == 1_000_000,
    ;
    assert((loaded * MG_PER_KG < 0) == (loaded < 0)) by (nonlinear_arith)
        requires
            MG_PER_KG == 1_000_000,
    ;
    assert(f * known_mg == scaled && f >= 1) by (nonlinear_arith)
        requires
            f == scaled / known_mg,
            scaled % known_mg == 0,
            known_mg > 0,
            scaled >= 1,
    ;
    assert(scaled / f == known_mg) by (nonlinear_arith)
        requires
            f * known_mg == scaled,
            f >= 1,
            known_mg > 0,
    ;
}

/// A scale factor that is safe to divide by, in raw units per kilogram.
///
/// The view is the factor as a mathematical integer; it is never zero.
#[derive(Clone, Copy, Debug, PartialEq, Eq)]
pub struct ScaleFactor {
    raw_per_kg: i64,
}

impl View for ScaleFactor {
    type V = int;

    closed spec fn view(&self) -> int {
        self.raw_per_kg as int
    }
}

impl ScaleFactor {
    /// No scale factor is zero.
    #[verifier::type_invariant]
    pub open spec fn valid(self) -> bool {
        self@ != 0
    }

    /// Makes a scale factor of `raw_per_kg`, replaced by the fallback where
    /// its magnitude is too small to divide by.
    pub fn new(raw_per_kg: i64) -> (f: ScaleFactor)
        ensures
            f@ == guarded_factor(raw_per_kg as int),
            f.valid(),
    {
        if raw_per_kg > -MIN_SAFE_RAW_PER_KG && raw_per_kg < MIN_SAFE_RAW_PER_KG {
            ScaleFactor { raw_per_kg: FALLBACK_RAW_PER_KG }
        } else {
            ScaleFactor { raw_per_kg }
        }
    }

    /// The fallback factor, under which raw units are grams.
    pub fn fallback() -> (f: ScaleFactor)
        ensures
            f@ == FALLBACK_RAW_PER_KG,
            f.valid(),
    {
        ScaleFactor { raw_per_kg: FALLBACK_RAW_PER_KG }
    }

    /// The factor in raw units per kilogram.
    pub fn raw_per_kg(&self) -> (v: i64)
        ensures
            v == self@,
            v != 0,
    {
        proof {
            use_type_invariant(self);
        }
        self.raw_per_kg
    }

    /// The weight in milligrams that `raw` stands for: the reading divided
    /// by this factor, rounded toward zero.
    pub fn weight_mg(&self, raw: Reading) -> (mg: i64)
        ensures
            mg == weight_of(raw@, self@),
    {
        proof {
            use_type_invariant(self);
        }
        let scaled: i128 = per_kilogram(raw);
        let q: i128 = quotient(scaled, self.raw_per_kg as i128);
        proof {
            lemma_quotient_no_larger(scaled as int, self.raw_per_kg as int);
        }
        q as i64
    }
}

} // verus!
