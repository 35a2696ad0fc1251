//! Calibration against a reference mass of known weight.
//!
//! A `Calibrator` decides; its caller acts. The caller performs the action
//! that `pending` names (average so many readings, sleep so long), reports
//! what happened to `step` together with the clock's reading, and goes on
//! until the action is `Finish`.

use vstd::prelude::*;
use crate::arith::magnitude;
use crate::clock::{elapsed, interval_elapsed};
use crate::factor::{
    derive_factor, derived_factor, guarded_factor, lemma_quotient_no_larger, ScaleFactor,
    FALLBACK_RAW_PER_KG, MG_PER_KG,
};
use crate::reading::Reading;

verus! {

/// Readings averaged for the baseline and for each detection poll.
pub const DETECT_SAMPLES: u32 = 5;

/// Readings averaged for the loaded measurement once a load is detected.
pub const STABLE_SAMPLES: u32 = 100;

/// How long detection goes on before it gives up, in milliseconds.
pub const DETECT_TIMEOUT_MS: u64 = 30_000;

/// Pause between two detection polls, in milliseconds.
pub const POLL_INTERVAL_MS: u32 = 50;

/// Part of the detection threshold that does not depend on the baseline, in
/// raw units.
pub const ABSOLUTE_FLOOR: i64 = 2000;

/// What is calibrated: one sensor, or two sensors whose readings are summed.
#[derive(Clone, Copy, Debug, PartialEq, Eq)]
pub enum Mode {
    Single,
    Dual,
}

/// How a calibration ended.
#[derive(Clone, Copy, Debug, PartialEq, Eq)]
pub enum Outcome {
    /// A load was detected and measured; `raw_per_kg` is the loaded reading
    /// divided by the reference mass.
    Calibrated { raw_per_kg: i64, baseline: Reading },
    /// No load was detected before the timeout.
    TimedOut { baseline: Reading },
}

/// Where a calibration stands.
#[derive(Clone, Copy, Debug, PartialEq, Eq)]
pub enum Phase {
    /// Waiting for the average of the unloaded sensor.
    Baseline,
    /// Waiting for a detection poll's average.
    Polling { baseline: Reading, start_ms: u64 },
    /// Waiting for the pause between two polls to end.
    Sleeping { baseline: Reading, start_ms: u64 },
    /// A load was detected; waiting for its stable average.
    Measuring { baseline: Reading },
    /// Finished.
    Done { outcome: Outcome },
}

/// What the caller reports to the calibrator.
#[derive(Clone, Copy, Debug, PartialEq, Eq)]
pub enum Event {
    /// The average that was asked for.
    Averaged(Reading),
    /// The sleep that was asked for is over.
    Woke,
}

/// What the calibrator asks of its caller.
#[derive(Clone, Copy, Debug, PartialEq, Eq)]
pub enum Action {
    /// Average this many readings of each sensor and report `Averaged`
    /// with the result (in dual mode the two averages combined).
    Average { samples: u32 },
    /// Sleep this many milliseconds and report `Woke`.
    Sleep { ms: u32 },
    /// Nothing more: the calibration has ended with this outcome.
    Finish { outcome: Outcome },
}

/// The relative term of the threshold is the baseline's magnitude divided by
/// this: a tenth for one sensor, a twentieth for the steadier sum of two.
pub open spec fn relative_divisor(mode: Mode) -> int {
    match mode {
        Mode::Single => 10,
        Mode::Dual => 20,
    }
}

/// Detection threshold for a baseline: a part of its magnitude plus the
/// absolute floor.
pub open spec fn threshold(mode: Mode, baseline: int) -> int {
    magnitude(baseline) / relative_divisor(mode) + ABSOLUTE_FLOOR
}

/// Whether `sample` is further from `baseline` than the threshold allows.
pub open spec fn deviates(mode: Mode, baseline: int, sample: int) -> bool {
    magnitude(sample - baseline) > threshold(mode, baseline)
}

/// The factor an outcome stands for, in raw units per kilogram: the measured
/// one, or the fallback after a timeout.
pub open spec fn outcome_raw_per_kg(outcome: Outcome) -> int {
    match outcome {
        Outcome::Calibrated { raw_per_kg, .. } => raw_per_kg as int,
        Outcome::TimedOut { .. } => FALLBACK_RAW_PER_KG as int,
    }
}

/// The phase that follows `phase` when `event` is reported at `now_ms`.
/// An event that the phase does not wait for changes nothing.
pub open spec fn next_phase(
    mode: Mode,
    known_mg: u32,
    phase: Phase,
    event: Event,
    now_ms: u64,
) -> Phase {
    match (phase, event) {
        (Phase::Baseline, Event::Averaged(baseline)) => Phase::Polling {
            baseline,
            start_ms: now_ms,
        },
        (Phase::Polling { baseline, start_ms }, Event::Averaged(sample)) => {
            if deviates(mode, baseline@, sample@) {
                Phase::Measuring { baseline }
            } else {
                Phase::Sleeping { baseline, start_ms }
            }
        },
        (Phase::Sleeping { baseline, start_ms }, Event::Woke) => {
            if elapsed(start_ms as int, now_ms as int) < DETECT_TIMEOUT_MS {
                Phase::Polling { baseline, start_ms }
            } else {
                Phase::Done { outcome: Outcome::TimedOut { baseline } }
            }
        },
        (Phase::Measuring { baseline }, Event::Averaged(loaded)) => Phase::Done {
            outcome: Outcome::Calibrated {
                raw_per_kg: derived_factor(loaded@, known_mg as int) as i64,
                baseline,
            },
        },
        _ => phase,
    }
}

/// What a calibration in `phase` asks of its caller.
pub open spec fn pending_action(phase: Phase) -> Action {
    match phase {
        Phase::Baseline => Action::Average { samples: DETECT_SAMPLES },
        Phase::Polling { .. } => Action::Average { samples: DETECT_SAMPLES },
        Phase::Sleeping { .. } => Action::Sleep { ms: POLL_INTERVAL_MS },
        Phase::Measuring { .. } => Action::Average { samples: STABLE_SAMPLES },
        Phase::Done { outcome } => Action::Finish { outcome },
    }
}

impl Mode {
    /// The divisor of the threshold's relative term.
    pub fn divisor(self) -> (d: i64)
        ensures
            d == relative_divisor(self),
    {
        match self {
            Mode::Single => 10,
            Mode::Dual => 20,
        }
    }
}

/// The detection threshold for `baseline`. It is never below the absolute
/// floor, so it is positive whatever the baseline.
pub fn detection_threshold(mode: Mode, baseline: Reading) -> (t: i64)
    ensures
        t == threshold(mode, baseline@),
        t >= ABSOLUTE_FLOOR > 0,
{
    let b: i64 = baseline.raw();
    let size: i64 = if b < 0 {
        -b
    } else {
        b
    };
    size / mode.divisor() + ABSOLUTE_FLOOR
}

/// Whether `sample` shows a load: whether it differs from `baseline` by more
/// than the detection threshold.
pub fn load_detected(mode: Mode, baseline: Reading, sample: Reading) -> (detected: bool)
    ensures
        detected == deviates(mode, baseline@, sample@),
{
    let delta: i64 = sample.raw() - baseline.raw();
    let size: i64 = if delta < 0 {
        -delta
    } else {
        delta
    };
    size > detection_threshold(mode, baseline)
}

impl Outcome {
    /// Whether a load was detected and measured.
    pub fn detected(&self) -> (d: bool)
        ensures
            d == (*self is Calibrated),
    {
        match self {
            Outcome::Calibrated { .. } => true,
            Outcome::TimedOut { .. } => false,
        }
    }

    /// The factor in raw units per kilogram: the measured one, or the
    /// fallback of one raw unit per gram after a timeout.
    pub fn raw_per_kg(&self) -> (v: i64)
        ensures
            v == outcome_raw_per_kg(*self),
    {
        match self {
            Outcome::Calibrated { raw_per_kg, .. } => *raw_per_kg,
            Outcome::TimedOut { .. } => FALLBACK_RAW_PER_KG,
        }
    }

    /// The factor to divide readings by: `raw_per_kg`, replaced by the
    /// fallback where it is too close to zero.
    pub fn scale_factor(&self) -> (f: ScaleFactor)
        ensures
            f@ == guarded_factor(outcome_raw_per_kg(*self)),
    {
        ScaleFactor::new(self.raw_per_kg())
    }

    /// The unloaded reading that detection compared against.
    pub fn baseline(&self) -> (b: Reading)
        ensures
            b == match *self {
                Outcome::Calibrated { baseline, .. } => baseline,
                Outcome::TimedOut { baseline } => baseline,
            },
    {
        match self {
            Outcome::Calibrated { baseline, .. } => *baseline,
            Outcome::TimedOut { baseline } => *baseline,
        }
    }
}

/// The state of one calibration run.
#[derive(Clone, Copy, Debug, PartialEq, Eq)]
pub struct Calibrator {
    mode: Mode,
    known_mg: u32,
    phase: Phase,
}

impl Calibrator {
    /// The reference mass is positive.
    #[verifier::type_invariant]
    pub closed spec fn valid(self) -> bool {
        self.known_mg > 0
    }

    /// One sensor or two.
    pub closed spec fn spec_mode(&self) -> Mode {
        self.mode
    }

    /// The reference mass in milligrams.
    pub closed spec fn spec_known_mg(&self) -> u32 {
        self.known_mg
    }

    /// Where the calibration stands.
    pub closed spec fn spec_phase(&self) -> Phase {
        self.phase
    }

    /// Starts a calibration against a reference mass of `known_mg`
    /// milligrams. Its first request is the baseline average.
    pub fn new(mode: Mode, known_mg: u32) -> (c: Calibrator)
        requires
            known_mg > 0,
        ensures
            c.mode() == mode,
            c.known_mg() == known_mg,
            c.phase() == Phase::Baseline,
    {
        Calibrator { mode, known_mg, phase: Phase::Baseline }
    }

    /// One sensor or two.
    #[verifier::when_used_as_spec(spec_mode)]
    pub fn mode(&self) -> (m: Mode)
        ensures
            m == self.mode(),
    {
        self.mode
    }

    /// The reference mass in milligrams.
    #[verifier::when_used_as_spec(spec_known_mg)]
    pub fn known_mg(&self) -> (mg: u32)
        ensures
            mg == self.known_mg(),
            mg > 0,
    {
        proof {
            use_type_invariant(self);
        }
        self.known_mg
    }

    /// Where the calibration stands.
    #[verifier::when_used_as_spec(spec_phase)]
    pub fn phase(&self) -> (p: Phase)
        ensures
            p == self.phase(),
    {
        self.phase
    }

    /// What the caller is to do next.
    pub fn pending(&self) -> (action: Action)
        ensures
            action == pending_action(self.phase()),
    {
        match self.phase {
            Phase::Baseline => Action::Average { samples: DETECT_SAMPLES },
            Phase::Polling { .. } => Action::Average { samples: DETECT_SAMPLES },
            Phase::Sleeping { .. } => Action::Sleep { ms: POLL_INTERVAL_MS },
            Phase::Measuring { .. } => Action::Average { samples: STABLE_SAMPLES },
            Phase::Done { outcome } => Action::Finish { outcome },
        }
    }

    /// The outcome, once the calibration has ended.
    pub fn outcome(&self) -> (o: Option<Outcome>)
        ensures
            o == match self.phase() {
                Phase::Done { outcome } => Some(outcome),
                _ => None,
            },
    {
        match self.phase {
            Phase::Done { outcome } => Some(outcome),
            _ => None,
        }
    }

    /// Takes in what happened, at the time `now_ms` of a monotonic clock
    /// that counts milliseconds, and returns what to do next.
    ///
    /// The baseline average starts detection. A detection average that
    /// deviates from the baseline by more than the threshold ends detection
    /// at once; any other is followed by a pause. When a pause ends, detection
    /// goes on if less than the timeout has passed since it started, and ends
    /// without a load if not. The loaded average ends the calibration with
    /// the factor derived from it.
    pub fn step(&mut self, event: Event, now_ms: u64) -> (action: Action)
        ensures
            final(self).mode() == old(self).mode(),
            final(self).known_mg() == old(self).known_mg(),
            final(self).phase() == next_phase(
                old(self).mode(),
                old(self).known_mg(),
                old(self).phase(),
                event,
                now_ms,
            ),
            action == pending_action(final(self).phase()),
    {
        proof {
            use_type_invariant(&*self);
        }
        let next: Phase = match (self.phase, event) {
            (Phase::Baseline, Event::Averaged(baseline)) => Phase::Polling {
                baseline,
                start_ms: now_ms,
            },
            (Phase::Polling { baseline, start_ms }, Event::Averaged(sample)) => {
                if load_detected(self.mode, baseline, sample) {
                    Phase::Measuring { baseline }
                } else {
                    Phase::Sleeping { baseline, start_ms }
                }
            },
            (Phase::Sleeping { baseline, start_ms }, Event::Woke) => {
                if interval_elapsed(start_ms, now_ms, DETECT_TIMEOUT_MS) {
                    Phase::Done { outcome: Outcome::TimedOut { baseline } }
                } else {
                    Phase::Polling { baseline, start_ms }
                }
            },
            (Phase::Measuring { baseline }, Event::Averaged(loaded)) => Phase::Done {
                outcome: Outcome::Calibrated {
                    raw_per_kg: derive_factor(loaded, self.known_mg),
                    baseline,
                },
            },
            (phase, _) => phase,
        };
        self.phase = next;
        self.pending()
    }
}

/// Whether `event` is what a calibration in `phase` waits for: the average
/// or the wake-up that its pending action asks the caller to report.
pub open spec fn awaited(phase: Phase, event: Event) -> bool {
    match (pending_action(phase), event) {
        (Action::Average { .. }, Event::Averaged(_)) => true,
        (Action::Sleep { .. }, Event::Woke) => true,
        _ => false,
    }
}

/// A calibration never stalls and never skips: the report it waits for
/// takes it to another phase, and any other report leaves it where it is.
/// Once it has finished it waits for nothing, and stays finished.
pub proof fn lemma_only_awaited_reports_advance(
    mode: Mode,
    known_mg: u32,
    phase: Phase,
    event: Event,
    now_ms: u64,
)
    ensures
        awaited(phase, event) <==> next_phase(mode, known_mg, phase, event, now_ms) != phase,
        phase is Done ==> !awaited(phase, event),
{
}

/// The threshold loses nothing to rounding. A sample deviates exactly when
/// its distance from the baseline exceeds the baseline's magnitude over the
/// divisor plus the floor as fractions compare, that is, once both sides
/// are multiplied by the divisor.
pub proof fn lemma_threshold_exact(mode: Mode, baseline: int, sample: int)
    ensures
        deviates(mode, baseline, sample) <==> magnitude(sample - baseline) * relative_divisor(mode)
            > magnitude(baseline) + ABSOLUTE_FLOOR * relative_divisor(mode),
{
    let size = magnitude(baseline);
    let distance = magnitude(sample - baseline);
    match mode {
        Mode::Single => {
            assert(10 * (size / 10) <= size < 10 * (size / 10) + 10);
            assert(distance * 10 == 10 * distance);
        },
        Mode::Dual => {
            assert(20 * (size / 20) <= size < 20 * (size / 20) + 20);
            assert(distance * 20 == 20 * distance);
        },
    }
}

/// The phase reached from `phase` when `reports` come in, in order. Each
/// report is an event and the clock's reading when it is reported.
pub open spec fn run(mode: Mode, known_mg: u32, phase: Phase, reports: Seq<(Event, u64)>) -> Phase
    decreases reports.len(),
{
    if reports.len() == 0 {
        phase
    } else {
        next_phase(
            mode,
            known_mg,
            run(mode, known_mg, phase, reports.drop_last()),
            reports.last().0,
            reports.last().1,
        )
    }
}

/// A report that carries no sign of a load: a wake-up, or an average within
/// the threshold of `baseline`.
pub open spec fn quiet(mode: Mode, baseline: Reading, report: (Event, u64)) -> bool {
    match report.0 {
        Event::Averaged(sample) => !deviates(mode, baseline@, sample@),
        Event::Woke => true,
    }
}

/// A wake-up at which detection, started at `start_ms`, has used up its time.
pub open spec fn expired(start_ms: u64, report: (Event, u64)) -> bool {
    report.0 is Woke && elapsed(start_ms as int, report.1 as int) >= DETECT_TIMEOUT_MS
}

/// The factor derived from a valid reading fits the type that holds it.
pub proof fn lemma_derived_factor_fits(loaded: Reading, known_mg: u32)
    requires
        loaded.valid(),
        known_mg > 0,
    ensures
        derived_factor(loaded@, known_mg as int) as i64 == derived_factor(loaded@, known_mg as int),
{
    lemma_quotient_no_larger(loaded@ * MG_PER_KG, known_mg as int);
    assert(magnitude(loaded@ * MG_PER_KG) <= 4_294_967_296_000_000) by (nonlinear_arith)
        requires
            -4_294_967_296 <= loaded@ <= 4_294_967_294,
            MG_PER_KG == 1_000_000,
    ;
}

/// A load placed right after the baseline is found by the first poll,
/// whenever that poll ends: the calibrator asks for the stable average at
/// once, without a pause, and ends with the factor that this average and
/// the reference mass give.
pub proof fn lemma_load_found_by_first_poll(
    mode: Mode,
    known_mg: u32,
    baseline: Reading,
    sample: Reading,
    loaded: Reading,
    baseline_ms: u64,
    sample_ms: u64,
    loaded_ms: u64,
)
    requires
        known_mg > 0,
        loaded.valid(),
        deviates(mode, baseline@, sample@),
    ensures
        ({
            let polling = next_phase(
                mode,
                known_mg,
                Phase::Baseline,
                Event::Averaged(baseline),
                baseline_ms,
            );
            let measuring = next_phase(mode, known_mg, polling, Event::Averaged(sample), sample_ms);
            let done = next_phase(mode, known_mg, measuring, Event::Averaged(loaded), loaded_ms);
            &&& pending_action(polling) == Action::Average { samples: DETECT_SAMPLES }
            &&& pending_action(measuring) == Action::Average { samples: STABLE_SAMPLES }
            &&& done matches Phase::Done { outcome }
            &&& outcome matches Outcome::Calibrated { raw_per_kg, baseline: kept }
            &&& pending_action(done) == Action::Finish { outcome }
            &&& raw_per_kg == derived_factor(loaded@, known_mg as int)
            &&& kept == baseline
        }),
{
    lemma_derived_factor_fits(loaded, known_mg);
}

/// While no average deviates from the baseline, detection neither finds a
/// load nor gives up early: whatever is reported, and whenever, it is still
/// under way with its baseline and start time, or it has ended without a
/// load, and then only because a wake-up came when the whole timeout had
/// passed. Its factor is then the fallback.
pub proof fn lemma_no_load_times_out(
    mode: Mode,
    known_mg: u32,
    baseline: Reading,
    start_ms: u64,
    reports: Seq<(Event, u64)>,
)
    requires
        forall|i: int| 0 <= i < reports.len() ==> quiet(mode, baseline, #[trigger] reports[i]),
    ensures
        ({
            let end = run(mode, known_mg, Phase::Polling { baseline, start_ms }, reports);
            let timed_out = Outcome::TimedOut { baseline };
            &&& end == Phase::Polling { baseline, start_ms }
                || end == Phase::Sleeping { baseline, start_ms }
                || end == Phase::Done { outcome: timed_out }
            &&& end is Done ==> exists|i: int|
                0 <= i < reports.len() && expired(start_ms, #[trigger] reports[i])
            &&& outcome_raw_per_kg(timed_out) == FALLBACK_RAW_PER_KG
        }),
    decreases reports.len(),
{
    if reports.len() > 0 {
        let earlier = reports.drop_last();
        assert forall|i: int| 0 <= i < earlier.len() implies quiet(
            mode,
            baseline,
            #[trigger] earlier[i],
        ) by {
            assert(earlier[i] == reports[i]);
        }
        lemma_no_load_times_out(mode, known_mg, baseline, start_ms, earlier);
        let before = run(mode, known_mg, Phase::Polling { baseline, start_ms }, earlier);
        let end = run(mode, known_mg, Phase::Polling { baseline, start_ms }, reports);
        let last = reports.len() - 1;
        assert(quiet(mode, baseline, reports[last]));
        if end is Done {
            if before is Done {
                let i = choose|i: int|
                    0 <= i < earlier.len() && expired(start_ms, #[trigger] earlier[i]);
                assert(expired(start_ms, reports[i]));
            } else {
                assert(expired(start_ms, reports[last]));
            }
        }
    }
}

/// A wake-up that comes when the timeout has passed ends detection without
/// a load, and the calibration with the fallback factor.
pub proof fn lemma_timeout_ends_detection(
    mode: Mode,
    known_mg: u32,
    baseline: Reading,
    start_ms: u64,
    now_ms: u64,
)
    requires
        elapsed(start_ms as int, now_ms as int) >= DETECT_TIMEOUT_MS,
    ensures
        ({
            let end = next_phase(
                mode,
                known_mg,
                Phase::Sleeping { baseline, start_ms },
                Event::Woke,
                now_ms,
            );
            let timed_out = Outcome::TimedOut { baseline };
            &&& end == Phase::Done { outcome: timed_out }
            &&& pending_action(end) == Action::Finish { outcome: timed_out }
            &&& outcome_raw_per_kg(timed_out) == FALLBACK_RAW_PER_KG
        }),
{
}

} // verus!
