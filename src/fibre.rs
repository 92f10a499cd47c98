use vstd::prelude::*;

verus! {

/// Adaptive step size failure.
#[derive(Clone, Copy, Debug, PartialEq, Eq, Structural)]
pub enum FibreBuildError {
    /// The step size kept oscillating for this many tries without settling.
    NTriesExceed(u16),
    /// Too few tries allowed adjusting the step size: none at all.
    NTriesTooLow(u16),
    /// The end of the domain was reached when only this many samples had
    /// been placed.
    DomainExhausted(u16),
}

/// How the chord from the last accepted sample to a candidate compares with
/// the target spacing and its tolerance band.
#[derive(Clone, Copy, Debug, PartialEq, Eq, Structural)]
pub enum Chord {
    /// Longer than the band allows.
    TooLong,
    /// Shorter than the band allows.
    TooShort,
    /// Within the band.
    InBand,
}

/// What to do with the candidate sample.
#[derive(Clone, Copy, Debug, PartialEq, Eq, Structural)]
pub enum StepAction {
    /// Reject it and shrink the step.
    Shrink,
    /// Reject it and grow the step.
    Grow,
    /// Keep it and go on from it.
    Accept,
    /// Keep it: it is the last sample.
    Finish,
}

/// State of adaptive step control along one fibre: `target` samples are to be
/// placed, the first at the start of the domain, with at most `n_tries`
/// rejected candidates in a row.
#[derive(Clone, Copy, Debug, PartialEq, Eq, Structural)]
pub struct StepControl {
    /// Number of samples wanted.
    pub target: u16,
    /// Most rejected candidates allowed in a row.
    pub n_tries: u16,
    /// Samples placed so far, the start included.
    pub accepted: u16,
    /// Candidates rejected since the last accepted one.
    pub tries: u16,
    /// No further candidate is to be probed.
    pub finished: bool,
}

impl StepControl {
    /// The counters are in range.
    pub open spec fn wf(self) -> bool {
        &&& 1 <= self.accepted <= self.target
        &&& self.tries <= self.n_tries
        &&& self.n_tries >= 1
        &&& !self.finished ==> self.accepted < self.target
    }

    /// What probing one candidate does: the new state and the verdict.
    pub open spec fn next(self, chord: Chord, at_end: bool) -> (StepControl, Result<StepAction, FibreBuildError>) {
        if chord == Chord::InBand || at_end {
            let a = (self.accepted + 1) as u16;
            if a == self.target {
                (StepControl { accepted: a, tries: 0, finished: true, ..self }, Ok(StepAction::Finish))
            } else if at_end {
                (StepControl { finished: true, ..self }, Err(FibreBuildError::DomainExhausted(a)))
            } else {
                (StepControl { accepted: a, tries: 0, ..self }, Ok(StepAction::Accept))
            }
        } else if self.tries == self.n_tries {
            (StepControl { finished: true, ..self }, Err(FibreBuildError::NTriesExceed(self.n_tries)))
        } else {
            (
                StepControl { tries: (self.tries + 1) as u16, ..self },
                Ok(if chord == Chord::TooLong { StepAction::Shrink } else { StepAction::Grow }),
            )
        }
    }

    /// Control for placing `target` samples with at most `n_tries` rejected
    /// candidates in a row; the start of the domain is the first sample.
    pub fn new(target: u16, n_tries: u16) -> (r: Result<Self, FibreBuildError>)
        requires
            target >= 1,
        ensures
            r is Err <==> n_tries == 0,
            r matches Err(e) ==> e == FibreBuildError::NTriesTooLow(n_tries),
            r matches Ok(c) ==> c.wf() && c == (StepControl {
                target,
                n_tries,
                accepted: 1,
                tries: 0,
                finished: target == 1,
            }),
    {
        if n_tries == 0 {
            return Err(FibreBuildError::NTriesTooLow(n_tries));
        }
        Ok(StepControl { target, n_tries, accepted: 1, tries: 0, finished: target == 1 })
    }

    /// Judges one candidate, given how its chord compares with the band and
    /// whether it lies at (or past) the end of the domain.
    ///
    /// A candidate within the band, or at the end, is kept; the last sample
    /// wanted finishes the run, and reaching the end short of it fails. A
    /// candidate outside the band is rejected and the step shrunk or grown,
    /// unless `n_tries` candidates in a row were already rejected.
    pub fn step(&mut self, chord: Chord, at_end: bool) -> (r: Result<StepAction, FibreBuildError>)
        requires
            old(self).wf(),
            !old(self).finished,
        ensures
            final(self).wf(),
            (*final(self), r) == old(self).next(chord, at_end),
    {
        let in_band = match chord {
            Chord::InBand => true,
            _ => false,
        };
        if in_band || at_end {
            let a = self.accepted + 1;
            if a == self.target {
                self.accepted = a;
                self.tries = 0;
                self.finished = true;
                Ok(StepAction::Finish)
            } else if at_end {
                self.finished = true;
                Err(FibreBuildError::DomainExhausted(a))
            } else {
                self.accepted = a;
                self.tries = 0;
                Ok(StepAction::Accept)
            }
        } else if self.tries == self.n_tries {
            self.finished = true;
            Err(FibreBuildError::NTriesExceed(self.n_tries))
        } else {
            self.tries = self.tries + 1;
            match chord {
                Chord::TooLong => Ok(StepAction::Shrink),
                _ => Ok(StepAction::Grow),
            }
        }
    }
}

/// Samples kept by a sequence of verdicts: one per `Accept` or `Finish`.
pub open spec fn placed(outs: Seq<Result<StepAction, FibreBuildError>>) -> nat
    decreases outs.len(),
{
    if outs.len() == 0 {
        0
    } else {
        placed(outs.drop_last()) + if outs.last() == Ok::<StepAction, FibreBuildError>(
            StepAction::Accept,
        ) || outs.last() == Ok::<StepAction, FibreBuildError>(StepAction::Finish) {
            1nat
        } else {
            0nat
        }
    }
}

/// Feeds the probes `(chord, at_end)` to the control one after another, until
/// it finishes: the final state and the verdicts given.
pub open spec fn run(c: StepControl, probes: Seq<(Chord, bool)>) -> (
    StepControl,
    Seq<Result<StepAction, FibreBuildError>>,
)
    decreases probes.len(),
{
    if probes.len() == 0 {
        (c, Seq::empty())
    } else {
        let (c1, outs) = run(c, probes.drop_last());
        if c1.finished {
            (c1, outs)
        } else {
            let (c2, o) = c1.next(probes.last().0, probes.last().1);
            (c2, outs.push(o))
        }
    }
}

/// How many more probes the control can take before it must finish.
pub open spec fn budget(c: StepControl) -> int {
    (c.target - c.accepted) * (c.n_tries + 1) + (c.n_tries - c.tries)
}

/// Along any run: the state stays well-formed with its limits unchanged,
/// every sample kept is counted, a run finishes only on `Finish` (with all
/// samples placed) or on an error, and each probe spends budget.
proof fn lemma_run(c: StepControl, probes: Seq<(Chord, bool)>)
    requires
        c.wf(),
    ensures
        run(c, probes).0.wf(),
        run(c, probes).0.target == c.target,
        run(c, probes).0.n_tries == c.n_tries,
        run(c, probes).0.accepted == c.accepted + placed(run(c, probes).1),
        run(c, probes).1.len() > 0 && run(c, probes).1.last() == Ok::<StepAction, FibreBuildError>(
            StepAction::Finish,
        ) ==> run(c, probes).0.accepted == c.target,
        run(c, probes).0.finished && !c.finished ==> run(c, probes).1.len() > 0 && (run(
            c,
            probes,
        ).1.last() == Ok::<StepAction, FibreBuildError>(StepAction::Finish) || run(
            c,
            probes,
        ).1.last() is Err),
        run(c, probes).1.len() > 0 && run(c, probes).1.last() is Err ==> run(c, probes).0.finished,
        !run(c, probes).0.finished ==> 0 <= budget(run(c, probes).0) && budget(run(c, probes).0)
            + probes.len() <= budget(c),
    decreases probes.len(),
{
    if probes.len() > 0 {
        let q = probes.drop_last();
        lemma_run(c, q);
        let (c1, outs) = run(c, q);
        if !c1.finished {
            let (c2, o) = c1.next(probes.last().0, probes.last().1);
            assert(outs.push(o).drop_last() =~= outs);
            let t = c1.target as int;
            let a = c1.accepted as int;
            let n = c1.n_tries as int;
            assert((t - a) * (n + 1) == (t - a - 1) * (n + 1) + (n + 1)) by (nonlinear_arith);
            assert(0 <= (t - a - 1) * (n + 1)) by (nonlinear_arith)
                requires
                    a < t,
                    n >= 0,
            ;
        }
    } else {
        let t = c.target as int;
        let a = c.accepted as int;
        let n = c.n_tries as int;
        assert(0 <= (t - a) * (n + 1)) by (nonlinear_arith)
            requires
                a <= t,
                n >= 0,
        ;
    }
}

/// Adaptive step control over a fresh fibre either fails explicitly or keeps
/// exactly `target` samples, the start included; and it settles one way or
/// the other within `budget` probes, whatever the probes say.
pub proof fn lemma_sample_count(target: u16, n_tries: u16, probes: Seq<(Chord, bool)>)
    requires
        target >= 2,
        n_tries >= 1,
    ensures
        ({
            let c = StepControl { target, n_tries, accepted: 1, tries: 0, finished: false };
            let (c2, outs) = run(c, probes);
            &&& c2.finished ==> outs.len() > 0 && (outs.last() is Err || 1 + placed(outs)
                == target)
            &&& c2.finished && outs.last() is Ok ==> outs.last() == Ok::<StepAction, FibreBuildError>(
                StepAction::Finish,
            )
            &&& probes.len() > budget(c) ==> c2.finished
        }),
{
    let c = StepControl { target, n_tries, accepted: 1, tries: 0, finished: false };
    lemma_run(c, probes);
}

} // verus!
