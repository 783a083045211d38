//! Lens distortion models and their numerical inversion.
//!
//! The formulas of the models are floating-point arithmetic and come from the
//! caller, as functions of the model and the point. What is decided here is
//! when a model leaves a point where it is, and how the Newton-Raphson
//! inversion runs: where it starts, that its residual is the distorted point
//! minus the distortion of the estimate, that its Jacobian is estimated by
//! forward differences of that distortion, when it accepts an estimate, when
//! it fails, and that it never takes more than its ten iterations.

use vstd::prelude::*;
use vstd::arithmetic::power2::{lemma2_to64, lemma2_to64_rest, lemma_pow2_adds, pow2};
use crate::binary64::{lemma_fields, lemma_rounds, Binary64};
use crate::newton::{NewtonPolicy, NewtonRun, NewtonState, NewtonVerdict};

verus! {

/// The inversion takes at most this many iterations.
pub const UNDISTORT_ITERATIONS: usize = 10;

/// The encoding of 1e-8: the tolerance on the residual in x, and the radius
/// below which the fisheye model leaves a point where it is.
pub const UNDISTORT_TOLERANCE_X: u64 = 0x3e45_798e_e230_8c3a;

/// The encoding of 1e-10: the tolerance on the residual in y.
pub const UNDISTORT_TOLERANCE_Y: u64 = 0x3ddb_7cdf_d9d7_bdbb;

/// The encoding of 1e-18: a Jacobian with a smaller determinant is singular.
pub const UNDISTORT_MIN_DETERMINANT: u64 = 0x3c32_725d_d1d2_43ac;

/// The encoding of 1e-6: the step of the finite differences.
pub const UNDISTORT_DIFFERENCE_STEP: u64 = 0x3eb0_c6f7_a0b5_ed8d;

/// A lens distortion model with its coefficients.
#[derive(Clone, Copy, Debug)]
pub enum DistortionModel {
    /// No distortion.
    Ideal,
    /// Radial coefficients `k1..k3` and tangential coefficients `p1`, `p2`.
    BrownConrady { k1: Binary64, k2: Binary64, k3: Binary64, p1: Binary64, p2: Binary64 },
    /// The coefficients of the equidistant polynomial.
    Fisheye { k1: Binary64, k2: Binary64, k3: Binary64, k4: Binary64 },
}

/// Why a distortion could not be inverted.
#[derive(Clone, Copy, Debug, PartialEq, Eq, Structural)]
pub enum DistortionError {
    /// The estimated Jacobian cannot be inverted at the current estimate.
    SingularJacobian,
    /// The iteration budget ran out before the residual met the tolerance.
    NonConvergent,
}

/// The budget and thresholds of the inversion.
pub open spec fn undistort_policy() -> NewtonPolicy {
    NewtonPolicy {
        max_iterations: UNDISTORT_ITERATIONS,
        first_tolerance: Binary64 { bits: UNDISTORT_TOLERANCE_X },
        second_tolerance: Binary64 { bits: UNDISTORT_TOLERANCE_Y },
        min_determinant: Binary64 { bits: UNDISTORT_MIN_DETERMINANT },
    }
}

/// A distance from the optical axis is too small for the fisheye model to
/// divide by: it is below 1e-8. A NaN is not.
pub open spec fn near(distance: Binary64) -> bool {
    distance.lt_spec(Binary64 { bits: UNDISTORT_TOLERANCE_X })
}

/// What distorting a point may return, given the arithmetic of the model.
/// Without distortion it is the point itself. The fisheye model leaves a
/// point where it is if `radius` gives a distance from the axis below 1e-8.
/// Every other point is what `formula` makes of the model and the point.
pub open spec fn distorts<G, F>(
    model: DistortionModel,
    point: (Binary64, Binary64),
    radius: G,
    formula: F,
    out: (Binary64, Binary64),
) -> bool where
    G: FnOnce((Binary64, Binary64)) -> Binary64,
    F: FnOnce(DistortionModel, (Binary64, Binary64)) -> (Binary64, Binary64),
 {
    match model {
        DistortionModel::Ideal => out == point,
        DistortionModel::Fisheye { .. } => exists|distance: Binary64|
            #[trigger] call_ensures(radius, (point,), distance) && if near(distance) {
                out == point
            } else {
                call_ensures(formula, (model, point), out)
            },
        DistortionModel::BrownConrady { .. } => call_ensures(formula, (model, point), out),
    }
}

/// What the residual at an estimate may be, given the arithmetic:
/// `distorted` is the distortion of the estimate, and the residual is what
/// `subtract` makes of the distorted point and that.
pub open spec fn residual_at<G, F, D>(
    model: DistortionModel,
    target: (Binary64, Binary64),
    estimate: (Binary64, Binary64),
    radius: G,
    formula: F,
    subtract: D,
    distorted: (Binary64, Binary64),
    found: (Binary64, Binary64),
) -> bool where
    G: Fn((Binary64, Binary64)) -> Binary64,
    F: Fn(DistortionModel, (Binary64, Binary64)) -> (Binary64, Binary64),
    D: Fn((Binary64, Binary64), (Binary64, Binary64)) -> (Binary64, Binary64),
 {
    distorts(model, estimate, radius, formula, distorted) && call_ensures(
        subtract,
        (target, distorted),
        found,
    )
}

/// What the linear system at an estimate may come to, given the arithmetic.
/// The Jacobian is estimated by forward differences: the estimate is moved
/// by 1e-6 along x, then along y, and distorted at both places. `solve`
/// makes the determinant and the Newton step of the distortion at the
/// estimate, the two distortions beside it, the residual and the 1e-6.
pub open spec fn solved_at<G, F, A, S>(
    model: DistortionModel,
    estimate: (Binary64, Binary64),
    distorted: (Binary64, Binary64),
    found: (Binary64, Binary64),
    radius: G,
    formula: F,
    shift: A,
    solve: S,
    determinant: Binary64,
    delta: (Binary64, Binary64),
) -> bool where
    G: Fn((Binary64, Binary64)) -> Binary64,
    F: Fn(DistortionModel, (Binary64, Binary64)) -> (Binary64, Binary64),
    A: Fn(Binary64, Binary64) -> Binary64,
    S: Fn(
        (Binary64, Binary64),
        (Binary64, Binary64),
        (Binary64, Binary64),
        (Binary64, Binary64),
        Binary64,
    ) -> (Binary64, (Binary64, Binary64)),
 {
    let eps = Binary64 { bits: UNDISTORT_DIFFERENCE_STEP };
    exists|beside_x: Binary64, beside_y: Binary64, at_x: (Binary64, Binary64), at_y: (
        Binary64,
        Binary64,
    )|
        #![trigger
            distorts(model, (beside_x, estimate.1), radius, formula, at_x),
            distorts(model, (estimate.0, beside_y), radius, formula, at_y),
        ]
        {
            &&& call_ensures(shift, (estimate.0, eps), beside_x)
            &&& distorts(model, (beside_x, estimate.1), radius, formula, at_x)
            &&& call_ensures(shift, (estimate.1, eps), beside_y)
            &&& distorts(model, (estimate.0, beside_y), radius, formula, at_y)
            &&& call_ensures(solve, (distorted, at_x, at_y, found, eps), (determinant, delta))
        }
}

/// Where a Newton step leads from an estimate: `shift` adds the step to it,
/// coordinate by coordinate.
pub open spec fn moved<A>(
    estimate: (Binary64, Binary64),
    delta: (Binary64, Binary64),
    shift: A,
    next: (Binary64, Binary64),
) -> bool where
    A: Fn(Binary64, Binary64) -> Binary64,
 {
    call_ensures(shift, (estimate.0, delta.0), next.0) && call_ensures(
        shift,
        (estimate.1, delta.1),
        next.1,
    )
}

/// An iteration that does not settle the inversion: its residual is out of
/// tolerance, its Jacobian is not singular, and its step leads to `next`.
pub open spec fn goes_on<G, F, D, A, S>(
    model: DistortionModel,
    target: (Binary64, Binary64),
    radius: G,
    formula: F,
    subtract: D,
    shift: A,
    solve: S,
    estimate: (Binary64, Binary64),
    distorted: (Binary64, Binary64),
    found: (Binary64, Binary64),
    determinant: Binary64,
    delta: (Binary64, Binary64),
    next: (Binary64, Binary64),
) -> bool where
    G: Fn((Binary64, Binary64)) -> Binary64,
    F: Fn(DistortionModel, (Binary64, Binary64)) -> (Binary64, Binary64),
    D: Fn((Binary64, Binary64), (Binary64, Binary64)) -> (Binary64, Binary64),
    A: Fn(Binary64, Binary64) -> Binary64,
    S: Fn(
        (Binary64, Binary64),
        (Binary64, Binary64),
        (Binary64, Binary64),
        (Binary64, Binary64),
        Binary64,
    ) -> (Binary64, (Binary64, Binary64)),
 {
    &&& residual_at(model, target, estimate, radius, formula, subtract, distorted, found)
    &&& !undistort_policy().within_tolerance(found)
    &&& solved_at(model, estimate, distorted, found, radius, formula, shift, solve, determinant, delta)
    &&& !undistort_policy().singular(determinant)
    &&& moved(estimate, delta, shift, next)
}

/// An inversion under way: the iterations so far, none of which settled it,
/// and the estimate that the last step led to. The first estimate is the
/// distorted point.
pub open spec fn leads_to<G, F, D, A, S>(
    run: NewtonRun,
    model: DistortionModel,
    target: (Binary64, Binary64),
    radius: G,
    formula: F,
    subtract: D,
    shift: A,
    solve: S,
    current: (Binary64, Binary64),
) -> bool where
    G: Fn((Binary64, Binary64)) -> Binary64,
    F: Fn(DistortionModel, (Binary64, Binary64)) -> (Binary64, Binary64),
    D: Fn((Binary64, Binary64), (Binary64, Binary64)) -> (Binary64, Binary64),
    A: Fn(Binary64, Binary64) -> Binary64,
    S: Fn(
        (Binary64, Binary64),
        (Binary64, Binary64),
        (Binary64, Binary64),
        (Binary64, Binary64),
        Binary64,
    ) -> (Binary64, (Binary64, Binary64)),
 {
    let n = run.len();
    &&& run.wf()
    &&& n == 0 ==> current == target
    &&& n > 0 ==> run.estimates[0] == target
    &&& forall|i: int|
        0 <= i < n ==> goes_on(
            model,
            target,
            radius, formula, subtract, shift, solve,
            #[trigger] run.estimates[i],
            run.values[i],
            run.residuals[i],
            run.determinants[i],
            run.deltas[i],
            if i + 1 < n {
                run.estimates[i + 1]
            } else {
                current
            },
        )
}

/// What the inversion returns once the determinant at an estimate is known,
/// after `taken` iterations that did not settle it: the error of a singular
/// Jacobian, if the determinant is too small; the error of an exhausted
/// budget otherwise, which is the case only in the last iteration that the
/// budget allows.
pub open spec fn step_settles(
    taken: nat,
    determinant: Binary64,
    out: Result<(Binary64, Binary64), DistortionError>,
) -> bool {
    if undistort_policy().singular(determinant) {
        out == Err::<(Binary64, Binary64), DistortionError>(DistortionError::SingularJacobian)
    } else {
        taken + 1 == UNDISTORT_ITERATIONS && out == Err::<(Binary64, Binary64), DistortionError>(
            DistortionError::NonConvergent,
        )
    }
}

/// How the iteration at the current estimate settles an inversion that has
/// `taken` iterations behind it: with the estimate, if the residual at it is
/// within tolerance; otherwise with what the determinant at it settles.
pub open spec fn settles<G, F, D, A, S>(
    taken: nat,
    model: DistortionModel,
    target: (Binary64, Binary64),
    radius: G,
    formula: F,
    subtract: D,
    shift: A,
    solve: S,
    current: (Binary64, Binary64),
    out: Result<(Binary64, Binary64), DistortionError>,
) -> bool where
    G: Fn((Binary64, Binary64)) -> Binary64,
    F: Fn(DistortionModel, (Binary64, Binary64)) -> (Binary64, Binary64),
    D: Fn((Binary64, Binary64), (Binary64, Binary64)) -> (Binary64, Binary64),
    A: Fn(Binary64, Binary64) -> Binary64,
    S: Fn(
        (Binary64, Binary64),
        (Binary64, Binary64),
        (Binary64, Binary64),
        (Binary64, Binary64),
        Binary64,
    ) -> (Binary64, (Binary64, Binary64)),
 {
    exists|distorted: (Binary64, Binary64), found: (Binary64, Binary64)|
        {
            &&& #[trigger] residual_at(
                model,
                target,
                current,
                radius,
                formula,
                subtract,
                distorted,
                found,
            )
            &&& if undistort_policy().within_tolerance(found) {
                out == Ok::<(Binary64, Binary64), DistortionError>(current)
            } else {
                exists|determinant: Binary64, delta: (Binary64, Binary64)|
                    #[trigger] solved_at(
                        model,
                        current,
                        distorted,
                        found,
                        radius,
                        formula,
                        shift,
                        solve,
                        determinant,
                        delta,
                    ) && step_settles(taken, determinant, out)
            }
        }
}

/// What undistorting a point may return, given the arithmetic of the model:
/// without distortion the point itself; otherwise there are fewer than ten
/// iterations that did not settle the inversion, and the iteration at the
/// estimate that they lead to settles it.
pub open spec fn undistorts<G, F, D, A, S>(
    model: DistortionModel,
    point: (Binary64, Binary64),
    radius: G,
    formula: F,
    subtract: D,
    shift: A,
    solve: S,
    out: Result<(Binary64, Binary64), DistortionError>,
) -> bool where
    G: Fn((Binary64, Binary64)) -> Binary64,
    F: Fn(DistortionModel, (Binary64, Binary64)) -> (Binary64, Binary64),
    D: Fn((Binary64, Binary64), (Binary64, Binary64)) -> (Binary64, Binary64),
    A: Fn(Binary64, Binary64) -> Binary64,
    S: Fn(
        (Binary64, Binary64),
        (Binary64, Binary64),
        (Binary64, Binary64),
        (Binary64, Binary64),
        Binary64,
    ) -> (Binary64, (Binary64, Binary64)),
 {
    if model.identity() {
        out == Ok::<(Binary64, Binary64), DistortionError>(point)
    } else {
        exists|run: NewtonRun, current: (Binary64, Binary64)|
            {
                &&& #[trigger] leads_to(run, model, point, radius, formula, subtract, shift, solve, current)
                &&& run.len() < UNDISTORT_ITERATIONS
                &&& settles(run.len(), model, point, radius, formula, subtract, shift, solve, current, out)
            }
    }
}

/// The budget and thresholds of the inversion.
pub fn inversion_policy() -> (policy: NewtonPolicy)
    ensures
        policy == undistort_policy(),
{
    NewtonPolicy {
        max_iterations: UNDISTORT_ITERATIONS,
        first_tolerance: Binary64 { bits: UNDISTORT_TOLERANCE_X },
        second_tolerance: Binary64 { bits: UNDISTORT_TOLERANCE_Y },
        min_determinant: Binary64 { bits: UNDISTORT_MIN_DETERMINANT },
    }
}

/// The step by which the finite differences of the Jacobian move each axis.
pub fn difference_step() -> (step: Binary64)
    ensures
        step.bits == UNDISTORT_DIFFERENCE_STEP,
{
    Binary64 { bits: UNDISTORT_DIFFERENCE_STEP }
}

impl DistortionModel {
    /// Whether the model maps every point to itself.
    pub open spec fn identity(self) -> bool {
        self is Ideal
    }

    /// Whether the model maps every point to itself, so that distorting and
    /// undistorting need no arithmetic.
    pub fn is_identity(&self) -> (r: bool)
        ensures
            r == self.identity(),
    {
        match self {
            DistortionModel::Ideal => true,
            _ => false,
        }
    }

    /// Whether the fisheye model leaves a point at this distance from the
    /// axis where it is: the distance is below 1e-8, too small to divide by.
    /// A NaN distance is not.
    pub fn near_axis(radius: Binary64) -> (r: bool)
        ensures
            r == near(radius),
    {
        radius.lt(Binary64 { bits: UNDISTORT_TOLERANCE_X })
    }

    /// Distorts a point in normalized image coordinates. Without distortion
    /// the point is returned as it is. For the fisheye model `radius` gives
    /// the distance of the point from the optical axis, and a point nearer
    /// than 1e-8 is returned as it is. Every other point is what `formula`,
    /// the arithmetic of the model, makes of the model and the point.
    pub fn distort<G, F>(
        &self,
        x_norm: Binary64,
        y_norm: Binary64,
        radius: G,
        formula: F,
    ) -> (r: (Binary64, Binary64)) where
        G: FnOnce((Binary64, Binary64)) -> Binary64,
        F: FnOnce(DistortionModel, (Binary64, Binary64)) -> (Binary64, Binary64),

        requires
            call_requires(radius, ((x_norm, y_norm),)),
            call_requires(formula, (*self, (x_norm, y_norm))),
        ensures
            distorts(*self, (x_norm, y_norm), radius, formula, r),
    {
        match self {
            DistortionModel::Ideal => (x_norm, y_norm),
            DistortionModel::Fisheye { .. } => {
                let distance: Binary64 = radius((x_norm, y_norm));
                if Self::near_axis(distance) {
                    (x_norm, y_norm)
                } else {
                    formula(*self, (x_norm, y_norm))
                }
            },
            DistortionModel::BrownConrady { .. } => formula(*self, (x_norm, y_norm)),
        }
    }

    /// Removes the distortion from a point by Newton-Raphson iteration.
    ///
    /// Without distortion the point is returned as it is. Otherwise the
    /// iteration starts at the distorted point. At each estimate the
    /// residual is what `subtract` makes of the distorted point and the
    /// distortion of the estimate, which `distort` gives; the estimate is
    /// returned if the residual is below 1e-8 in x and below 1e-10 in y, in
    /// absolute value. Else the estimate is moved by 1e-6 along x and along
    /// y, by `shift`, and distorted at both places; of these forward
    /// differences `solve` makes the determinant of the Jacobian and the
    /// Newton step. Below 1e-18 in absolute value the Jacobian is singular;
    /// else `shift` adds the step to the estimate and the iteration goes on.
    /// After ten iterations it has not converged.
    pub fn undistort<G, F, D, A, S>(
        &self,
        x_dist: Binary64,
        y_dist: Binary64,
        radius: G,
        formula: F,
        subtract: D,
        shift: A,
        solve: S,
    ) -> (r: Result<(Binary64, Binary64), DistortionError>) where
        G: Fn((Binary64, Binary64)) -> Binary64 + Copy,
        F: Fn(DistortionModel, (Binary64, Binary64)) -> (Binary64, Binary64) + Copy,
        D: Fn((Binary64, Binary64), (Binary64, Binary64)) -> (Binary64, Binary64),
        A: Fn(Binary64, Binary64) -> Binary64,
        S: Fn(
        (Binary64, Binary64),
        (Binary64, Binary64),
        (Binary64, Binary64),
        (Binary64, Binary64),
        Binary64,
    ) -> (Binary64, (Binary64, Binary64)),

        requires
            forall|point: (Binary64, Binary64)| call_requires(radius, (point,)),
            forall|point: (Binary64, Binary64)| call_requires(formula, (*self, point)),
            forall|a: (Binary64, Binary64), b: (Binary64, Binary64)|
                call_requires(subtract, (a, b)),
            forall|a: Binary64, b: Binary64| call_requires(shift, (a, b)),
            forall|
                f: (Binary64, Binary64),
                fx: (Binary64, Binary64),
                fy: (Binary64, Binary64),
                r: (Binary64, Binary64),
                eps: Binary64,
            | call_requires(solve, (f, fx, fy, r, eps)),
        ensures
            undistorts(*self, (x_dist, y_dist), radius, formula, subtract, shift, solve, r),
    {
        if self.is_identity() {
            return Ok((x_dist, y_dist));
        }
        let target: (Binary64, Binary64) = (x_dist, y_dist);
        let eps: Binary64 = difference_step();
        let policy: NewtonPolicy = inversion_policy();
        let mut state: NewtonState = policy.start();
        let mut estimate: (Binary64, Binary64) = target;
        let ghost mut run: NewtonRun = NewtonRun::empty();
        while policy.allows(state)
            invariant
                policy == undistort_policy(),
                eps == (Binary64 { bits: UNDISTORT_DIFFERENCE_STEP }),
                !self.identity(),
                target == (x_dist, y_dist),
                forall|point: (Binary64, Binary64)| call_requires(radius, (point,)),
                forall|point: (Binary64, Binary64)| call_requires(formula, (*self, point)),
                forall|a: (Binary64, Binary64), b: (Binary64, Binary64)|
                    call_requires(subtract, (a, b)),
                forall|a: Binary64, b: Binary64| call_requires(shift, (a, b)),
                forall|
                    f: (Binary64, Binary64),
                    fx: (Binary64, Binary64),
                    fy: (Binary64, Binary64),
                    r: (Binary64, Binary64),
                    eps: Binary64,
                | call_requires(solve, (f, fx, fy, r, eps)),
                state.iteration < policy.max_iterations,
                run.len() == state.iteration,
                leads_to(run, *self, target, radius, formula, subtract, shift, solve, estimate),
            decreases policy.max_iterations - state.iteration,
        {
            let distorted: (Binary64, Binary64) = self.distort(
                estimate.0,
                estimate.1,
                radius,
                formula,
            );
            let found: (Binary64, Binary64) = subtract(target, distorted);
            proof {
                assert((estimate.0, estimate.1) == estimate);
                assert(residual_at(
                    *self,
                    target,
                    estimate,
                    radius,
                    formula,
                    subtract,
                    distorted,
                    found,
                ));
            }
            match policy.on_residual(state, found.0, found.1) {
                NewtonVerdict::Converged => {
                    return Ok(estimate);
                },
                _ => {},
            }
            let beside_x: Binary64 = shift(estimate.0, eps);
            let at_x: (Binary64, Binary64) = self.distort(beside_x, estimate.1, radius, formula);
            let beside_y: Binary64 = shift(estimate.1, eps);
            let at_y: (Binary64, Binary64) = self.distort(estimate.0, beside_y, radius, formula);
            let (determinant, delta) = solve(distorted, at_x, at_y, found, eps);
            proof {
                assert(solved_at(
                    *self,
                    estimate,
                    distorted,
                    found,
                    radius,
                    formula,
                    shift,
                    solve,
                    determinant,
                    delta,
                ));
            }
            match policy.on_determinant(state, determinant) {
                NewtonVerdict::Continue(state_after) => {
                    let next: (Binary64, Binary64) = (
                        shift(estimate.0, delta.0),
                        shift(estimate.1, delta.1),
                    );
                    proof {
                        lemma_extended(
                            run,
                            *self,
                            target,
                            radius, formula, subtract, shift, solve,
                            estimate,
                            distorted,
                            found,
                            determinant,
                            delta,
                            next,
                        );
                        run = run.push(estimate, distorted, found, determinant, delta);
                    }
                    state = state_after;
                    estimate = next;
                },
                NewtonVerdict::Singular { .. } => {
                    return Err(DistortionError::SingularJacobian);
                },
                _ => {
                    return Err(DistortionError::NonConvergent);
                },
            }
        }
        Err(DistortionError::NonConvergent)
    }
}

proof fn lemma_extended<G, F, D, A, S>(
    run: NewtonRun,
    model: DistortionModel,
    target: (Binary64, Binary64),
    radius: G,
    formula: F,
    subtract: D,
    shift: A,
    solve: S,
    current: (Binary64, Binary64),
    distorted: (Binary64, Binary64),
    found: (Binary64, Binary64),
    determinant: Binary64,
    delta: (Binary64, Binary64),
    next: (Binary64, Binary64),
) where
    G: Fn((Binary64, Binary64)) -> Binary64,
    F: Fn(DistortionModel, (Binary64, Binary64)) -> (Binary64, Binary64),
    D: Fn((Binary64, Binary64), (Binary64, Binary64)) -> (Binary64, Binary64),
    A: Fn(Binary64, Binary64) -> Binary64,
    S: Fn(
        (Binary64, Binary64),
        (Binary64, Binary64),
        (Binary64, Binary64),
        (Binary64, Binary64),
        Binary64,
    ) -> (Binary64, (Binary64, Binary64)),

    requires
        leads_to(run, model, target, radius, formula, subtract, shift, solve, current),
        goes_on(
            model,
            target,
            radius, formula, subtract, shift, solve,
            current,
            distorted,
            found,
            determinant,
            delta,
            next,
        ),
    ensures
        leads_to(
            run.push(current, distorted, found, determinant, delta),
            model,
            target,
            radius, formula, subtract, shift, solve,
            next,
        ),
{
    let done = run.push(current, distorted, found, determinant, delta);
    let n = run.len() as int;
    assert forall|i: int| 0 <= i < n + 1 implies goes_on(
        model,
        target,
        radius, formula, subtract, shift, solve,
        #[trigger] done.estimates[i],
        done.values[i],
        done.residuals[i],
        done.determinants[i],
        done.deltas[i],
        if i + 1 < n + 1 {
            done.estimates[i + 1]
        } else {
            next
        },
    ) by {
        if i < n {
            assert(done.estimates[i] == run.estimates[i]);
            assert(done.values[i] == run.values[i]);
            assert(done.residuals[i] == run.residuals[i]);
            assert(done.determinants[i] == run.determinants[i]);
            assert(done.deltas[i] == run.deltas[i]);
            if i + 1 < n {
                assert(done.estimates[i + 1] == run.estimates[i + 1]);
            } else {
                assert(done.estimates[i + 1] == current);
            }
        }
    }
    if n > 0 {
        assert(done.estimates[0] == run.estimates[0]);
    }
}

/// Without distortion, undistorting what distorting gave returns the point
/// itself, whatever arithmetic is handed in.
pub proof fn lemma_ideal_round_trip<G, F, D, A, S>(
    model: DistortionModel,
    point: (Binary64, Binary64),
    radius: G,
    formula: F,
    distorted: (Binary64, Binary64),
    subtract: D,
    shift: A,
    solve: S,
    restored: Result<(Binary64, Binary64), DistortionError>,
) where
    G: Fn((Binary64, Binary64)) -> Binary64,
    F: Fn(DistortionModel, (Binary64, Binary64)) -> (Binary64, Binary64),
    D: Fn((Binary64, Binary64), (Binary64, Binary64)) -> (Binary64, Binary64),
A: Fn(Binary64, Binary64) -> Binary64,
    S: Fn(
        (Binary64, Binary64),
        (Binary64, Binary64),
        (Binary64, Binary64),
        (Binary64, Binary64),
        Binary64,
    ) -> (Binary64, (Binary64, Binary64)),

    requires
        model.identity(),
        distorts(model, point, radius, formula, distorted),
        undistorts(model, distorted, radius, formula, subtract, shift, solve, restored),
    ensures
        restored == Ok::<(Binary64, Binary64), DistortionError>(point),
{
}

/// The fisheye model leaves a point where it is whenever the distance that
/// the arithmetic gives for it is below 1e-8, whatever its coefficients.
pub proof fn lemma_near_axis<G, F>(
    model: DistortionModel,
    point: (Binary64, Binary64),
    radius: G,
    formula: F,
    out: (Binary64, Binary64),
) where
    G: FnOnce((Binary64, Binary64)) -> Binary64,
    F: FnOnce(DistortionModel, (Binary64, Binary64)) -> (Binary64, Binary64),

    requires
        model is Fisheye,
        distorts(model, point, radius, formula, out),
        forall|distance: Binary64| call_ensures(radius, (point,), distance) ==> near(distance),
    ensures
        out == point,
{
}

/// An inversion gives no answer that it has not checked: with distortion,
/// the distorted point minus the distortion of a point that it returns is
/// within tolerance.
pub proof fn lemma_answers_meet_tolerance<G, F, D, A, S>(
    model: DistortionModel,
    point: (Binary64, Binary64),
    radius: G,
    formula: F,
    subtract: D,
    shift: A,
    solve: S,
    answer: (Binary64, Binary64),
) where
    G: Fn((Binary64, Binary64)) -> Binary64,
    F: Fn(DistortionModel, (Binary64, Binary64)) -> (Binary64, Binary64),
    D: Fn((Binary64, Binary64), (Binary64, Binary64)) -> (Binary64, Binary64),
    A: Fn(Binary64, Binary64) -> Binary64,
    S: Fn(
        (Binary64, Binary64),
        (Binary64, Binary64),
        (Binary64, Binary64),
        (Binary64, Binary64),
        Binary64,
    ) -> (Binary64, (Binary64, Binary64)),

    requires
        !model.identity(),
        undistorts(
            model,
            point,
            radius, formula, subtract, shift, solve,
            Ok::<(Binary64, Binary64), DistortionError>(answer),
        ),
    ensures
        exists|distorted: (Binary64, Binary64), found: (Binary64, Binary64)|
            {
                &&& #[trigger] distorts(model, answer, radius, formula, distorted)
                &&& #[trigger] call_ensures(subtract, (point, distorted), found)
                &&& undistort_policy().within_tolerance(found)
            },
{
    let out = Ok::<(Binary64, Binary64), DistortionError>(answer);
    let (run, current) = choose|run: NewtonRun, current: (Binary64, Binary64)|
        {
            &&& #[trigger] leads_to(run, model, point, radius, formula, subtract, shift, solve, current)
            &&& run.len() < UNDISTORT_ITERATIONS
            &&& settles(run.len(), model, point, radius, formula, subtract, shift, solve, current, out)
        };
    let (distorted, found) = choose|distorted: (Binary64, Binary64), found: (Binary64, Binary64)|
        {
            &&& #[trigger] residual_at(
                model,
                point,
                current,
                radius,
                formula,
                subtract,
                distorted,
                found,
            )
            &&& if undistort_policy().within_tolerance(found) {
                out == Ok::<(Binary64, Binary64), DistortionError>(current)
            } else {
                exists|determinant: Binary64, delta: (Binary64, Binary64)|
                    #[trigger] solved_at(
                        model,
                        current,
                        distorted,
                        found,
                        radius,
                        formula,
                        shift,
                        solve,
                        determinant,
                        delta,
                    ) && step_settles(run.len(), determinant, out)
            }
        };
    assert(distorts(model, answer, radius, formula, distorted) && call_ensures(
        subtract,
        (point, distorted),
        found,
    ) && undistort_policy().within_tolerance(found));
}

/// The constants are what their names say: the binary64 numbers of 1e-8,
/// 1e-10, 1e-18 and 1e-6.
pub proof fn lemma_undistort_constants()
    ensures
        (Binary64 { bits: UNDISTORT_TOLERANCE_X }).rounds(1, 100_000_000),
        (Binary64 { bits: UNDISTORT_TOLERANCE_Y }).rounds(1, 10_000_000_000),
        (Binary64 { bits: UNDISTORT_MIN_DETERMINANT }).rounds(1, 1_000_000_000_000_000_000),
        (Binary64 { bits: UNDISTORT_DIFFERENCE_STEP }).rounds(1, 1_000_000),
{
    lemma2_to64();
    lemma2_to64_rest();
    lemma_pow2_adds(64, 15);
    lemma_pow2_adds(64, 22);
    lemma_pow2_adds(64, 48);
    lemma_pow2_adds(64, 8);
    assert(pow2(79) == 604462909807314587353088);
    assert(pow2(86) == 77371252455336267181195264);
    assert(pow2(112) == 5192296858534827628530496329220096);
    assert(pow2(72) == 4722366482869645213696);
    let x = Binary64 { bits: UNDISTORT_TOLERANCE_X };
    lemma_fields(x);
    assert(x.exponent_field() == 996 && x.fraction_field() == 1541029470702650);
    lemma_rounds(x, 1, 100_000_000, 79);
    let y = Binary64 { bits: UNDISTORT_TOLERANCE_Y };
    lemma_fields(y);
    assert(y.exponent_field() == 989 && y.fraction_field() == 3233525618163131);
    lemma_rounds(y, 1, 10_000_000_000, 86);
    let d = Binary64 { bits: UNDISTORT_MIN_DETERMINANT };
    lemma_fields(d);
    assert(d.exponent_field() == 963 && d.fraction_field() == 688697231164332);
    lemma_rounds(d, 1, 1_000_000_000_000_000_000, 112);
    let s = Binary64 { bits: UNDISTORT_DIFFERENCE_STEP };
    lemma_fields(s);
    assert(s.exponent_field() == 1003 && s.fraction_field() == 218766855499149);
    lemma_rounds(s, 1, 1_000_000, 72);
}

} // verus!
