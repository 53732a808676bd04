//! Event detection: deciding which sign changes of a scalar error function
//! count as a discrete event, and rationing the root-refinement search.
//!
//! A simulation declares an error function `e(state)` whose zero crossing
//! marks an event. The host samples `e` once per step, reduces each sample to
//! its [`Sign`], and feeds the signs to a [`CrossingDetector`]; the detector
//! keeps the previous sign and reports exactly the transitions that qualify
//! under the configured [`CrossingMode`]. When a crossing is reported, the
//! host brackets the root between the two samples and refines the estimate by
//! false position; a [`Refinement`] value meters that search against an
//! iteration budget so a run can always finish, even when the search never
//! reaches its tolerance.

use vstd::prelude::*;

verus! {

/// A filter on which sign transitions of the error function count as an
/// event: either direction, only rising (negative to positive), or only
/// falling (positive to negative).
#[derive(Clone, Copy, Debug, PartialEq, Eq, Structural)]
pub enum CrossingMode {
    Any,
    Increasing,
    Decreasing,
}

/// The sign of one sample of the error function. `Zero` means the sample
/// landed exactly on a root.
#[derive(Clone, Copy, Debug, PartialEq, Eq, Structural)]
pub enum Sign {
    Negative,
    Zero,
    Positive,
}

/// Whether moving from a sample of sign `prev` to one of sign `cur` is a
/// crossing that qualifies under `mode`.
///
/// A crossing requires a strict sign change away from a nonzero sign; a
/// sample that lands exactly on zero counts as a crossing in the direction
/// the error was moving. Repeated equal signs, a start from zero, and
/// transitions against the configured direction do not qualify.
pub open spec fn crossing_matches(mode: CrossingMode, prev: Sign, cur: Sign) -> bool {
    match (prev, cur) {
        (Sign::Negative, Sign::Positive) | (Sign::Negative, Sign::Zero) => mode
            != CrossingMode::Decreasing,
        (Sign::Positive, Sign::Negative) | (Sign::Positive, Sign::Zero) => mode
            != CrossingMode::Increasing,
        _ => false,
    }
}

/// Executable form of [`crossing_matches`].
pub fn qualifying_crossing(mode: CrossingMode, prev: Sign, cur: Sign) -> (r: bool)
    ensures
        r == crossing_matches(mode, prev, cur),
{
    match (prev, cur) {
        (Sign::Negative, Sign::Positive) | (Sign::Negative, Sign::Zero) => mode
            != CrossingMode::Decreasing,
        (Sign::Positive, Sign::Negative) | (Sign::Positive, Sign::Zero) => mode
            != CrossingMode::Increasing,
        _ => false,
    }
}

/// The direction filter of the crossing state machine.
///
/// One detector is created per registered event and lives for the whole run.
/// It remembers the sign of the most recent sample; every new sample replaces
/// the remembered one, whether or not the transition qualified, so that
/// direction tracking stays correct across ignored transitions.
pub struct CrossingDetector {
    mode: CrossingMode,
    prev: Option<Sign>,
}

impl CrossingDetector {
    /// The configured direction filter.
    pub closed spec fn spec_mode(self) -> CrossingMode {
        self.mode
    }

    /// The sign of the most recent sample, or `None` before the first one.
    pub closed spec fn previous(self) -> Option<Sign> {
        self.prev
    }

    /// A fresh detector: no sample seen yet.
    pub fn new(mode: CrossingMode) -> (r: Self)
        ensures
            r.spec_mode() == mode,
            r.previous() is None,
    {
        CrossingDetector { mode, prev: None }
    }

    /// Feeds the sign of the next sample and reports whether the transition
    /// from the previous sample qualifies as a crossing.
    ///
    /// Returns `false` when no previous sample exists. The new sign is always
    /// remembered, so a non-qualifying transition is still recorded and the
    /// next decision starts from the latest sample.
    pub fn observe(&mut self, s: Sign) -> (r: bool)
        ensures
            final (self).spec_mode() == old(self).spec_mode(),
            final (self).previous() == Some(s),
            r == (match old(self).previous() {
                Some(p) => crossing_matches(old(self).spec_mode(), p, s),
                None => false,
            }),
    {
        let r = match self.prev {
            Some(p) => qualifying_crossing(self.mode, p, s),
            None => false,
        };
        self.prev = Some(s);
        r
    }

    /// Forgets the remembered sample, so the next search starts afresh.
    pub fn reset(&mut self)
        ensures
            final (self).spec_mode() == old(self).spec_mode(),
            final (self).previous() is None,
    {
        self.prev = None;
    }
}

/// A crossing that qualifies under a directed mode also qualifies under
/// `Any`: the directed modes only narrow the filter.
pub proof fn lemma_directed_narrows_any(mode: CrossingMode, prev: Sign, cur: Sign)
    ensures
        crossing_matches(mode, prev, cur) ==> crossing_matches(CrossingMode::Any, prev, cur),
{
}

/// No transition qualifies under both directed modes: a rising crossing is
/// never a falling one, so filtering by direction drops every transition of
/// the opposite sign.
pub proof fn lemma_directions_exclusive(prev: Sign, cur: Sign)
    ensures
        !(crossing_matches(CrossingMode::Increasing, prev, cur) && crossing_matches(
            CrossingMode::Decreasing,
            prev,
            cur,
        )),
{
}

/// `Increasing` qualifies exactly the transitions that leave a negative
/// error, and `Decreasing` exactly those that leave a positive one.
pub proof fn lemma_direction_characterization(prev: Sign, cur: Sign)
    ensures
        crossing_matches(CrossingMode::Increasing, prev, cur) <==> (prev == Sign::Negative && (cur
            == Sign::Positive || cur == Sign::Zero)),
        crossing_matches(CrossingMode::Decreasing, prev, cur) <==> (prev == Sign::Positive && (cur
            == Sign::Negative || cur == Sign::Zero)),
{
}

/// The false-position estimate stays inside its bracket.
///
/// Given samples `(t0, e0)` and `(t1, e1)` with `t0 < t1` and the error
/// changing sign between them, false position estimates the root at
/// `r = t0 - e0 * (t1 - t0) / (e1 - e0)`. Multiplying through by the
/// denominator `d = e1 - e0` (positive for a rising bracket, negative for a
/// falling one) shows `t0 < r <= t1`: the estimate never leaves the step that
/// produced the bracket, which is what lets the refinement loop sub-step to
/// it and re-sample without overshooting.
pub proof fn lemma_false_position_in_bracket(t0: int, t1: int, e0: int, e1: int)
    requires
        t0 < t1,
        (e0 < 0 && e1 >= 0) || (e0 > 0 && e1 <= 0),
    ensures
        e0 < 0 ==> t0 * (e1 - e0) < t0 * (e1 - e0) - e0 * (t1 - t0) <= t1 * (e1 - e0),
        e0 > 0 ==> t1 * (e1 - e0) <= t0 * (e1 - e0) - e0 * (t1 - t0) < t0 * (e1 - e0),
{
    assert(e0 < 0 ==> t0 * (e1 - e0) < t0 * (e1 - e0) - e0 * (t1 - t0) <= t1 * (e1 - e0))
        by (nonlinear_arith)
        requires
            t0 < t1,
            (e0 < 0 && e1 >= 0) || (e0 > 0 && e1 <= 0),
    ;
    assert(e0 > 0 ==> t1 * (e1 - e0) <= t0 * (e1 - e0) - e0 * (t1 - t0) < t0 * (e1 - e0))
        by (nonlinear_arith)
        requires
            t0 < t1,
            (e0 < 0 && e1 >= 0) || (e0 > 0 && e1 <= 0),
    ;
}

/// What one round of the root-refinement loop should do next.
#[derive(Clone, Copy, Debug, PartialEq, Eq, Structural)]
pub enum RefineStatus {
    /// The error at the current estimate is within tolerance: apply the event
    /// here.
    Converged,
    /// Not converged and budget remains: re-sample at the refined estimate.
    Refine,
    /// Not converged and the budget is spent: apply the event at the best
    /// available estimate and surface a warning. Never fatal, so a run can
    /// finish even under numerical difficulty.
    Exhausted,
}

/// The iteration meter of one root-refinement search.
///
/// Convergence itself is a numeric judgement (`|e| < tolerance`) made by the
/// host; this type decides, from that judgement and the remaining budget,
/// whether to stop, keep refining, or give up.
pub struct Refinement {
    remaining: u32,
}

impl Refinement {
    /// How many more refinement rounds may run before the search gives up.
    pub closed spec fn iterations_left(self) -> u32 {
        self.remaining
    }

    /// A fresh search with the given iteration budget.
    pub fn new(budget: u32) -> (r: Self)
        ensures
            r.iterations_left() == budget,
    {
        Refinement { remaining: budget }
    }

    /// Decides the next move of the refinement loop.
    ///
    /// `within_tolerance` is the host's judgement of the current estimate.
    /// Convergence always wins; otherwise one unit of budget buys one more
    /// round, and an empty budget ends the search as [`RefineStatus::Exhausted`].
    pub fn advance(&mut self, within_tolerance: bool) -> (r: RefineStatus)
        ensures
            within_tolerance ==> r == RefineStatus::Converged && *final (self) == *old(self),
            !within_tolerance && old(self).iterations_left() > 0 ==> r == RefineStatus::Refine
                && final (self).iterations_left() == old(self).iterations_left() - 1,
            !within_tolerance && old(self).iterations_left() == 0 ==> r == RefineStatus::Exhausted
                && *final (self) == *old(self),
    {
        if within_tolerance {
            RefineStatus::Converged
        } else if self.remaining > 0 {
            self.remaining = self.remaining - 1;
            RefineStatus::Refine
        } else {
            RefineStatus::Exhausted
        }
    }
}

} // verus!
