//! The decisions of a two-dimensional Newton-Raphson inversion.
//!
//! An inversion alternates arithmetic and decisions. The arithmetic is the
//! caller's: the forward mapping, the subtraction that makes the residual,
//! the addition that moves an estimate, and the solution of the linear
//! system of the finite-difference Jacobian. The decisions are made here:
//! when the residual is small enough, when the Jacobian is singular, and
//! when the iteration budget is used up.

use vstd::prelude::*;
use crate::binary64::Binary64;

verus! {

/// What bounds an inversion.
#[derive(Clone, Copy, Debug)]
pub struct NewtonPolicy {
    /// The number of iterations after which the inversion gives up.
    pub max_iterations: usize,
    /// The estimate is accepted when the first residual is below this ...
    pub first_tolerance: Binary64,
    /// ... and the second residual is below this, both in absolute value.
    pub second_tolerance: Binary64,
    /// A Jacobian whose determinant is below this in absolute value is singular.
    pub min_determinant: Binary64,
}

/// Where an inversion stands: the number of Newton steps taken so far.
#[derive(Clone, Copy, Debug)]
pub struct NewtonState {
    pub iteration: usize,
}

/// How an inversion goes on.
#[derive(Clone, Copy, Debug)]
pub enum NewtonVerdict {
    /// The residual is within tolerance: the current estimate is the answer.
    Converged,
    /// Go on from the given state: after a residual, estimate the Jacobian;
    /// after a determinant, take the step and evaluate the residual again.
    Continue(NewtonState),
    /// The Jacobian is singular at the given iteration.
    Singular { iteration: usize },
    /// The budget of the given number of iterations is used up.
    Exhausted { iterations: usize },
}

/// What the arithmetic yielded in the course of one inversion, iteration by
/// iteration: the estimate, the value of the forward mapping at it, the
/// residual, the determinant of the Jacobian, and the Newton step.
pub struct NewtonRun {
    pub estimates: Seq<(Binary64, Binary64)>,
    pub values: Seq<(Binary64, Binary64)>,
    pub residuals: Seq<(Binary64, Binary64)>,
    pub determinants: Seq<Binary64>,
    pub deltas: Seq<(Binary64, Binary64)>,
}

impl NewtonPolicy {
    /// Whether a residual is within tolerance: both components are, each
    /// against its own tolerance. A NaN component is never within tolerance.
    pub open spec fn within_tolerance(self, residual: (Binary64, Binary64)) -> bool {
        residual.0.abs_spec().lt_spec(self.first_tolerance) && residual.1.abs_spec().lt_spec(
            self.second_tolerance,
        )
    }

    /// Whether a determinant is too small to divide by. A NaN determinant is
    /// not: the step is then taken, as with any other.
    pub open spec fn singular(self, determinant: Binary64) -> bool {
        determinant.abs_spec().lt_spec(self.min_determinant)
    }

    /// The verdict on a residual.
    pub open spec fn residual_verdict(
        self,
        state: NewtonState,
        residual: (Binary64, Binary64),
    ) -> NewtonVerdict {
        if self.within_tolerance(residual) {
            NewtonVerdict::Converged
        } else {
            NewtonVerdict::Continue(state)
        }
    }

    /// The verdict on a determinant.
    pub open spec fn determinant_verdict(
        self,
        state: NewtonState,
        determinant: Binary64,
    ) -> NewtonVerdict {
        if self.singular(determinant) {
            NewtonVerdict::Singular { iteration: state.iteration }
        } else if state.iteration + 1 < self.max_iterations {
            NewtonVerdict::Continue(NewtonState { iteration: (state.iteration + 1) as usize })
        } else {
            NewtonVerdict::Exhausted { iterations: self.max_iterations }
        }
    }

    /// The state before the first iteration.
    pub fn start(&self) -> (state: NewtonState)
        ensures
            state.iteration == 0,
    {
        NewtonState { iteration: 0 }
    }

    /// Whether the budget allows an iteration in this state.
    pub fn allows(&self, state: NewtonState) -> (r: bool)
        ensures
            r == (state.iteration < self.max_iterations),
    {
        state.iteration < self.max_iterations
    }

    /// Decides on the residual at the current estimate: the inversion has
    /// converged, or it goes on, in the same state, with the Jacobian.
    pub fn on_residual(&self, state: NewtonState, first: Binary64, second: Binary64) -> (verdict:
        NewtonVerdict)
        ensures
            verdict == self.residual_verdict(state, (first, second)),
    {
        if first.abs().lt(self.first_tolerance) && second.abs().lt(self.second_tolerance) {
            NewtonVerdict::Converged
        } else {
            NewtonVerdict::Continue(state)
        }
    }

    /// Decides on the determinant of the Jacobian at the current estimate:
    /// the inversion fails on a singular Jacobian; else the step is taken,
    /// and the inversion goes on in the next state unless that step was the
    /// last of the budget. A state beyond the budget is exhausted.
    pub fn on_determinant(&self, state: NewtonState, determinant: Binary64) -> (verdict:
        NewtonVerdict)
        ensures
            verdict == self.determinant_verdict(state, determinant),
    {
        if determinant.abs().lt(self.min_determinant) {
            NewtonVerdict::Singular { iteration: state.iteration }
        } else if self.max_iterations >= 1 && state.iteration < self.max_iterations - 1 {
            NewtonVerdict::Continue(NewtonState { iteration: state.iteration + 1 })
        } else {
            NewtonVerdict::Exhausted { iterations: self.max_iterations }
        }
    }
}

impl NewtonRun {
    /// The run before the first iteration.
    pub open spec fn empty() -> NewtonRun {
        NewtonRun {
            estimates: seq![],
            values: seq![],
            residuals: seq![],
            determinants: seq![],
            deltas: seq![],
        }
    }

    /// The number of iterations of the run.
    pub open spec fn len(self) -> nat {
        self.estimates.len()
    }

    /// Every iteration has all its parts.
    pub open spec fn wf(self) -> bool {
        &&& self.values.len() == self.len()
        &&& self.residuals.len() == self.len()
        &&& self.determinants.len() == self.len()
        &&& self.deltas.len() == self.len()
    }

    /// The run with one more iteration.
    pub open spec fn push(
        self,
        estimate: (Binary64, Binary64),
        value: (Binary64, Binary64),
        residual: (Binary64, Binary64),
        determinant: Binary64,
        delta: (Binary64, Binary64),
    ) -> NewtonRun {
        NewtonRun {
            estimates: self.estimates.push(estimate),
            values: self.values.push(value),
            residuals: self.residuals.push(residual),
            determinants: self.determinants.push(determinant),
            deltas: self.deltas.push(delta),
        }
    }
}

} // verus!
