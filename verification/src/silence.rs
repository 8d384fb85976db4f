//! The per-source activity detector: hysteresis over two thresholds, with a
//! debounced return to silence.

use vstd::prelude::*;

verus! {

/// How one averaged level reading lies against the two thresholds of a source.
///
/// The reading itself is a measured level and is not kept: all the
/// detector needs is on which side of each threshold it fell.
#[derive(Clone, Copy, Debug, PartialEq, Eq)]
pub struct Sample {
    /// The level is strictly below the threshold at which a silent source becomes active.
    pub below_active: bool,
    /// The level is strictly below the threshold at which an active source becomes silent.
    pub below_silent: bool,
}

/// The mathematical state of a detector.
pub struct SilenceState {
    /// The source counts as silent.
    pub silent: bool,
    /// Quiet readings seen in a row since the source last was loud.
    pub quiet: int,
    /// Quiet readings in a row that it takes to fall silent.
    pub period: int,
}

impl SilenceState {
    /// A detector before its first reading: silent, nothing counted.
    pub open spec fn initial(period: int) -> SilenceState {
        SilenceState { silent: true, quiet: 0, period }
    }

    /// The counter is never negative and, while the source is active, has not
    /// reached the period.
    pub open spec fn wf(self) -> bool {
        &&& 0 <= self.quiet
        &&& !self.silent ==> self.quiet == 0 || self.quiet < self.period
    }

    /// Whether a reading is on the silent side of the threshold in force:
    /// the activation threshold while silent, the deactivation threshold
    /// while active.
    pub open spec fn hears_silence(self, sample: Sample) -> bool {
        if self.silent {
            sample.below_active
        } else {
            sample.below_silent
        }
    }

    /// The state after one reading.
    pub open spec fn step(self, sample: Sample) -> SilenceState {
        if !self.hears_silence(sample) {
            SilenceState { silent: false, quiet: 0, period: self.period }
        } else if self.silent {
            SilenceState { silent: true, quiet: 0, period: self.period }
        } else {
            SilenceState {
                silent: self.quiet + 1 >= self.period,
                quiet: self.quiet + 1,
                period: self.period,
            }
        }
    }

    /// The state after a sequence of readings, oldest first.
    pub open spec fn run(self, samples: Seq<Sample>) -> SilenceState
        decreases samples.len(),
    {
        if samples.len() == 0 {
            self
        } else {
            self.run(samples.drop_last()).step(samples.last())
        }
    }
}

/// A silent source becomes active with the very reading that is not below the
/// activation threshold, and stays silent on every other reading.
pub proof fn lemma_activation_is_immediate(state: SilenceState, sample: Sample)
    requires
        state.silent,
    ensures
        state.step(sample).silent == sample.below_active,
{
}

/// An active source stays active on every reading that is not below the
/// deactivation threshold, whatever was counted before.
pub proof fn lemma_loud_reading_keeps_active(state: SilenceState, sample: Sample)
    requires
        !state.silent,
        !sample.below_silent,
    ensures
        !state.step(sample).silent,
        state.step(sample).quiet == 0,
{
}

/// Well-formedness is kept by every reading.
pub proof fn lemma_step_keeps_wf(state: SilenceState, sample: Sample)
    requires
        state.wf(),
    ensures
        state.step(sample).wf(),
{
}

/// What the counter of an active detector counts: the readings just before,
/// each of them taken while active and below the deactivation threshold.
pub open spec fn counts_quiet_run(period: int, samples: Seq<Sample>, upto: int) -> bool {
    let now = SilenceState::initial(period).run(samples.take(upto));
    !now.silent ==> {
        &&& 0 <= now.quiet < upto
        &&& forall|j: int|
            upto - now.quiet <= j < upto ==> {
                &&& !(#[trigger] SilenceState::initial(period).run(samples.take(j))).silent
                &&& samples[j].below_silent
            }
    }
}

/// Running one reading further is one step from where the shorter run ended.
pub proof fn lemma_run_unfolds(start: SilenceState, samples: Seq<Sample>, upto: int)
    requires
        0 <= upto < samples.len(),
    ensures
        start.run(samples.take(upto + 1)) == start.run(samples.take(upto)).step(samples[upto]),
{
    assert(samples.take(upto + 1).drop_last() =~= samples.take(upto));
}

/// Every state reached from the initial one is well-formed, and while it is
/// active its counter counts a run of quiet readings that ends at that state.
pub proof fn lemma_run_counts(period: int, samples: Seq<Sample>, upto: int)
    requires
        0 <= upto <= samples.len(),
    ensures
        SilenceState::initial(period).run(samples.take(upto)).wf(),
        SilenceState::initial(period).run(samples.take(upto)).period == period,
        counts_quiet_run(period, samples, upto),
    decreases upto,
{
    if upto == 0 {
        assert(samples.take(0).len() == 0);
    } else {
        lemma_run_counts(period, samples, upto - 1);
        lemma_run_unfolds(SilenceState::initial(period), samples, upto - 1);
    }
}

/// Falling silent is debounced: when the detector, started silent, goes from
/// active to silent on reading `k`, that reading ends a run of at least
/// `period` readings (and of at least one) that were all taken while active and
/// were all below the deactivation threshold.
pub proof fn lemma_silence_is_debounced(period: int, samples: Seq<Sample>, k: int)
    requires
        0 <= k < samples.len(),
        !SilenceState::initial(period).run(samples.take(k)).silent,
        SilenceState::initial(period).run(samples.take(k + 1)).silent,
    ensures
        1 <= k,
        period <= k,
        forall|j: int|
            k - period < j <= k || j == k ==> {
                &&& 0 <= j
                &&& !(#[trigger] SilenceState::initial(period).run(samples.take(j))).silent
                &&& samples[j].below_silent
            },
{
    lemma_run_counts(period, samples, k);
    lemma_run_unfolds(SilenceState::initial(period), samples, k);
}

/// The activity detector of one source.
#[derive(Debug)]
pub struct Silence {
    silent: bool,
    silent_current: i64,
    silent_period: i64,
}

impl View for Silence {
    type V = SilenceState;

    closed spec fn view(&self) -> SilenceState {
        SilenceState {
            silent: self.silent,
            quiet: self.silent_current as int,
            period: self.silent_period as int,
        }
    }
}

impl Silence {
    #[verifier::type_invariant]
    spec fn inv(self) -> bool {
        self@.wf()
    }

    /// A detector that starts silent and falls silent again after `silent_period`
    /// quiet readings in a row.
    pub fn new(silent_period: i64) -> (fresh: Silence)
        ensures
            fresh@ == SilenceState::initial(silent_period as int),
    {
        Silence { silent: true, silent_current: 0, silent_period }
    }

    /// Feeds one reading and returns the detector that results.
    pub fn input(&self, sample: Sample) -> (next: Silence)
        ensures
            next@ == self@.step(sample),
    {
        proof {
            use_type_invariant(self);
        }
        let is_silence = if self.silent {
            sample.below_active
        } else {
            sample.below_silent
        };
        if !is_silence {
            Silence { silent: false, silent_current: 0, silent_period: self.silent_period }
        } else if self.silent {
            Silence { silent: true, silent_current: 0, silent_period: self.silent_period }
        } else {
            let silent_current: i64 = self.silent_current + 1;
            Silence {
                silent: silent_current >= self.silent_period,
                silent_current,
                silent_period: self.silent_period,
            }
        }
    }

    /// Whether the source counts as silent.
    pub fn output(&self) -> (silent: bool)
        ensures
            silent == self@.silent,
    {
        self.silent
    }
}

} // verus!
