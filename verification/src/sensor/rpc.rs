//! The rational-polynomial sensor model: its coefficients, the order of its
//! polynomial basis, and its forward and inverse projection.
//!
//! The arithmetic on the coordinates comes from the caller, as functions of
//! the coefficients and the coordinates. What is decided here is the order
//! in which a polynomial is summed up, when a denominator has vanished, and
//! how the Newton-Raphson inversion runs: where it starts, that its residual
//! is the image coordinates minus the projection of the estimate, that its
//! Jacobian is estimated by forward differences of that projection, when it
//! accepts an estimate, with which iteration count it fails, and that it
//! never takes more than its twenty iterations.

use vstd::prelude::*;
use vstd::arithmetic::power2::{lemma2_to64, lemma2_to64_rest, lemma_pow2_adds, pow2};
use crate::binary64::{lemma_fields, lemma_rounds, Binary64};
use crate::coordinate::{
    converts_to_ecef, converts_to_lla, ecef_to_lla, lla_to_ecef, EcefCoord, LlaCoord,
};
use crate::error::{ProjectionError, RspError};
use crate::newton::{NewtonPolicy, NewtonRun, NewtonState, NewtonVerdict};

verus! {

/// Each polynomial has this many terms: the monomials of degree 0 to 3 in
/// three variables.
pub const RPC_TERMS: usize = 20;

/// The inverse projection takes at most this many Newton steps.
pub const INVERSION_ITERATIONS: usize = 20;

/// The encoding of 1e-6: the tolerance on the line and on the sample residual.
pub const INVERSION_TOLERANCE: u64 = 0x3eb0_c6f7_a0b5_ed8d;

/// The encoding of 1e-10: a denominator below it has vanished, and a
/// Jacobian with a determinant below it is singular.
pub const RPC_MIN_DIVISOR: u64 = 0x3ddb_7cdf_d9d7_bdbb;

/// The encoding of 1e-7: the step, in degrees, of the finite differences.
pub const INVERSION_DIFFERENCE_STEP: u64 = 0x3e7a_d7f2_9abc_af48;

/// The coefficients of the four polynomials, and the offsets and scales that
/// normalize ground and image coordinates.
#[derive(Clone, Copy, Debug)]
pub struct RpcCoefficients {
    pub line_num_coeff: [Binary64; 20],
    pub line_den_coeff: [Binary64; 20],
    pub samp_num_coeff: [Binary64; 20],
    pub samp_den_coeff: [Binary64; 20],
    pub lat_off: Binary64,
    pub lat_scale: Binary64,
    pub lon_off: Binary64,
    pub lon_scale: Binary64,
    pub height_off: Binary64,
    pub height_scale: Binary64,
    pub line_off: Binary64,
    pub line_scale: Binary64,
    pub samp_off: Binary64,
    pub samp_scale: Binary64,
}

/// What the four polynomials evaluate to at one ground point.
#[derive(Clone, Copy, Debug)]
pub struct Ratios {
    pub line_num: Binary64,
    pub line_den: Binary64,
    pub samp_num: Binary64,
    pub samp_den: Binary64,
}

/// A sensor model over one set of coefficients.
#[derive(Clone, Copy, Debug)]
pub struct RpcModel {
    coeffs: RpcCoefficients,
}

/// A normalized ground coordinate, as a factor of a monomial.
#[derive(Clone, Copy, Debug, PartialEq, Eq, Structural)]
pub enum Axis {
    /// The normalized latitude, `l`.
    Lat,
    /// The normalized longitude, `p`.
    Lon,
    /// The normalized height, `h`.
    Height,
}

/// The factors of the term with the given index, in the order in which they
/// are multiplied onto the coefficient. The index of a coefficient has its
/// meaning from this order alone.
pub open spec fn basis(index: int) -> Seq<Axis> {
    if index == 1 {
        seq![Axis::Lat]
    } else if index == 2 {
        seq![Axis::Lon]
    } else if index == 3 {
        seq![Axis::Height]
    } else if index == 4 {
        seq![Axis::Lat, Axis::Lon]
    } else if index == 5 {
        seq![Axis::Lat, Axis::Height]
    } else if index == 6 {
        seq![Axis::Lon, Axis::Height]
    } else if index == 7 {
        seq![Axis::Lat, Axis::Lat]
    } else if index == 8 {
        seq![Axis::Lon, Axis::Lon]
    } else if index == 9 {
        seq![Axis::Height, Axis::Height]
    } else if index == 10 {
        seq![Axis::Lon, Axis::Lat, Axis::Height]
    } else if index == 11 {
        seq![Axis::Lat, Axis::Lat, Axis::Lat]
    } else if index == 12 {
        seq![Axis::Lat, Axis::Lon, Axis::Lon]
    } else if index == 13 {
        seq![Axis::Lat, Axis::Height, Axis::Height]
    } else if index == 14 {
        seq![Axis::Lat, Axis::Lat, Axis::Lon]
    } else if index == 15 {
        seq![Axis::Lon, Axis::Lon, Axis::Lon]
    } else if index == 16 {
        seq![Axis::Lon, Axis::Height, Axis::Height]
    } else if index == 17 {
        seq![Axis::Lat, Axis::Lat, Axis::Height]
    } else if index == 18 {
        seq![Axis::Lon, Axis::Lon, Axis::Height]
    } else if index == 19 {
        seq![Axis::Height, Axis::Height, Axis::Height]
    } else {
        seq![]
    }
}

/// How often an axis occurs among the factors of a term.
pub open spec fn exponent(factors: Seq<Axis>, axis: Axis) -> nat
    decreases factors.len(),
{
    if factors.len() == 0 {
        0
    } else {
        exponent(factors.drop_last(), axis) + if factors.last() == axis {
            1nat
        } else {
            0nat
        }
    }
}

/// The exponents of latitude, longitude and height in a term.
pub open spec fn monomial(index: int) -> (nat, nat, nat) {
    (
        exponent(basis(index), Axis::Lat),
        exponent(basis(index), Axis::Lon),
        exponent(basis(index), Axis::Height),
    )
}

/// The factors of the term with the given index, in the order in which they
/// are multiplied onto its coefficient.
pub fn basis_term(index: usize) -> (factors: Vec<Axis>)
    requires
        index < RPC_TERMS,
    ensures
        factors@ == basis(index as int),
{
    let factors: Vec<Axis> = match index {
        0 => vec![],
        1 => vec![Axis::Lat],
        2 => vec![Axis::Lon],
        3 => vec![Axis::Height],
        4 => vec![Axis::Lat, Axis::Lon],
        5 => vec![Axis::Lat, Axis::Height],
        6 => vec![Axis::Lon, Axis::Height],
        7 => vec![Axis::Lat, Axis::Lat],
        8 => vec![Axis::Lon, Axis::Lon],
        9 => vec![Axis::Height, Axis::Height],
        10 => vec![Axis::Lon, Axis::Lat, Axis::Height],
        11 => vec![Axis::Lat, Axis::Lat, Axis::Lat],
        12 => vec![Axis::Lat, Axis::Lon, Axis::Lon],
        13 => vec![Axis::Lat, Axis::Height, Axis::Height],
        14 => vec![Axis::Lat, Axis::Lat, Axis::Lon],
        15 => vec![Axis::Lon, Axis::Lon, Axis::Lon],
        16 => vec![Axis::Lon, Axis::Height, Axis::Height],
        17 => vec![Axis::Lat, Axis::Lat, Axis::Height],
        18 => vec![Axis::Lon, Axis::Lon, Axis::Height],
        _ => vec![Axis::Height, Axis::Height, Axis::Height],
    };
    assert(factors@ =~= basis(index as int));
    factors
}

/// The normalized coordinate that an axis stands for, given the normalized
/// longitude `p`, latitude `l` and height `h`.
pub open spec fn variable(axis: Axis, p: Binary64, l: Binary64, h: Binary64) -> Binary64 {
    match axis {
        Axis::Lat => l,
        Axis::Lon => p,
        Axis::Height => h,
    }
}

/// What a term may come to, given the multiplication: the coefficient,
/// multiplied by the factors one after the other, from the first on.
pub open spec fn term_of<M>(
    coefficient: Binary64,
    factors: Seq<Axis>,
    p: Binary64,
    l: Binary64,
    h: Binary64,
    multiply: M,
    out: Binary64,
) -> bool where M: Fn(Binary64, Binary64) -> Binary64
    decreases factors.len(),
{
    if factors.len() == 0 {
        out == coefficient
    } else {
        exists|partial: Binary64|
            #![trigger call_ensures(multiply, (partial, variable(factors.last(), p, l, h)), out)]
            term_of(coefficient, factors.drop_last(), p, l, h, multiply, partial) && call_ensures(
                multiply,
                (partial, variable(factors.last(), p, l, h)),
                out,
            )
    }
}

/// What a polynomial may come to, given the multiplication and the
/// addition: the sum of its twenty terms in the order of the basis, added up
/// one after the other from the constant term on.
pub open spec fn evaluates<M, A>(
    coeffs: Seq<Binary64>,
    p: Binary64,
    l: Binary64,
    h: Binary64,
    multiply: M,
    sum_up: A,
    out: Binary64,
) -> bool where M: Fn(Binary64, Binary64) -> Binary64, A: Fn(Binary64, Binary64) -> Binary64 {
    exists|terms: Seq<Binary64>, sums: Seq<Binary64>|
        #![trigger terms.len(), sums.len()]
        {
            &&& terms.len() == RPC_TERMS
            &&& sums.len() == RPC_TERMS
            &&& forall|i: int|
                0 <= i < RPC_TERMS ==> term_of(
                    coeffs[i],
                    basis(i),
                    p,
                    l,
                    h,
                    multiply,
                    #[trigger] terms[i],
                )
            &&& sums[0] == terms[0]
            &&& forall|i: int|
                1 <= i < RPC_TERMS ==> call_ensures(sum_up, (sums[i - 1], terms[i]), #[trigger] sums[i])
            &&& out == sums[RPC_TERMS - 1]
        }
}

/// The normalized coordinate that an axis stands for.
pub fn variable_of(axis: Axis, p: Binary64, l: Binary64, h: Binary64) -> (r: Binary64)
    ensures
        r == variable(axis, p, l, h),
{
    match axis {
        Axis::Lat => l,
        Axis::Lon => p,
        Axis::Height => h,
    }
}

/// Evaluates a polynomial of twenty coefficients at the normalized longitude
/// `p`, latitude `l` and height `h`. The terms are taken in the order of the
/// basis; each is its coefficient multiplied by its factors in their order;
/// the sum starts with the constant term and takes up one term after the
/// other.
pub fn eval_polynomial<M, A>(
    coeffs: &[Binary64; 20],
    p: Binary64,
    l: Binary64,
    h: Binary64,
    multiply: M,
    sum_up: A,
) -> (r: Binary64) where M: Fn(Binary64, Binary64) -> Binary64, A: Fn(Binary64, Binary64) -> Binary64
    requires
        forall|a: Binary64, b: Binary64| call_requires(multiply, (a, b)),
        forall|a: Binary64, b: Binary64| call_requires(sum_up, (a, b)),
    ensures
        evaluates(coeffs@, p, l, h, multiply, sum_up, r),
{
    let mut sum: Binary64 = coeffs[0];
    let ghost mut terms: Seq<Binary64> = seq![sum];
    let ghost mut sums: Seq<Binary64> = seq![sum];
    let mut index: usize = 1;
    while index < RPC_TERMS
        invariant
            1 <= index <= RPC_TERMS,
            forall|a: Binary64, b: Binary64| call_requires(multiply, (a, b)),
            forall|a: Binary64, b: Binary64| call_requires(sum_up, (a, b)),
            terms.len() == index,
            sums.len() == index,
            sums[index - 1] == sum,
            sums[0] == terms[0],
            forall|i: int|
                0 <= i < index ==> term_of(
                    coeffs@[i],
                    basis(i),
                    p,
                    l,
                    h,
                    multiply,
                    #[trigger] terms[i],
                ),
            forall|i: int|
                1 <= i < index ==> call_ensures(sum_up, (sums[i - 1], terms[i]), #[trigger] sums[i]),
        decreases RPC_TERMS - index,
    {
        let factors: Vec<Axis> = basis_term(index);
        let mut term: Binary64 = coeffs[index];
        let mut done: usize = 0;
        while done < factors.len()
            invariant
                done <= factors.len(),
                index < RPC_TERMS,
                forall|a: Binary64, b: Binary64| call_requires(multiply, (a, b)),
                term_of(coeffs@[index as int], factors@.take(done as int), p, l, h, multiply, term),
            decreases factors.len() - done,
        {
            let factor: Binary64 = variable_of(factors[done], p, l, h);
            let product: Binary64 = multiply(term, factor);
            proof {
                let longer = factors@.take(done + 1);
                assert(longer.drop_last() =~= factors@.take(done as int));
                assert(longer.last() == factors@[done as int]);
                assert(term_of(
                    coeffs@[index as int],
                    longer.drop_last(),
                    p,
                    l,
                    h,
                    multiply,
                    term,
                ));
                lemma_term_extended(
                    coeffs@[index as int],
                    longer,
                    p,
                    l,
                    h,
                    multiply,
                    term,
                    product,
                );
            }
            term = product;
            done = done + 1;
        }
        let total: Binary64 = sum_up(sum, term);
        proof {
            assert(factors@.take(factors@.len() as int) =~= factors@);
            let old_terms = terms;
            let old_sums = sums;
            terms = old_terms.push(term);
            sums = old_sums.push(total);
            assert forall|i: int| 0 <= i < index + 1 implies term_of(
                coeffs@[i],
                basis(i),
                p,
                l,
                h,
                multiply,
                #[trigger] terms[i],
            ) by {
                if i < index {
                    assert(terms[i] == old_terms[i]);
                }
            }
            assert forall|i: int| 1 <= i < index + 1 implies call_ensures(
                sum_up,
                (sums[i - 1], terms[i]),
                #[trigger] sums[i],
            ) by {
                assert(sums[i - 1] == old_sums[i - 1]);
                if i < index {
                    assert(sums[i] == old_sums[i]);
                    assert(terms[i] == old_terms[i]);
                }
            }
            assert(sums[0] == old_sums[0]);
            assert(terms[0] == old_terms[0]);
        }
        sum = total;
        index = index + 1;
    }
    sum
}

proof fn lemma_term_extended<M>(
    coefficient: Binary64,
    factors: Seq<Axis>,
    p: Binary64,
    l: Binary64,
    h: Binary64,
    multiply: M,
    partial: Binary64,
    out: Binary64,
) where M: Fn(Binary64, Binary64) -> Binary64
    requires
        factors.len() > 0,
        term_of(coefficient, factors.drop_last(), p, l, h, multiply, partial),
        call_ensures(multiply, (partial, variable(factors.last(), p, l, h)), out),
    ensures
        term_of(coefficient, factors, p, l, h, multiply, out),
{
}

/// The budget and thresholds of the inverse projection.
pub open spec fn inversion_policy_spec() -> NewtonPolicy {
    NewtonPolicy {
        max_iterations: INVERSION_ITERATIONS,
        first_tolerance: Binary64 { bits: INVERSION_TOLERANCE },
        second_tolerance: Binary64 { bits: INVERSION_TOLERANCE },
        min_determinant: Binary64 { bits: RPC_MIN_DIVISOR },
    }
}

/// A denominator has vanished if it is below 1e-10 in absolute value. A NaN
/// has not.
pub open spec fn vanished(denominator: Binary64) -> bool {
    denominator.abs_spec().lt_spec(Binary64 { bits: RPC_MIN_DIVISOR })
}

/// What the forward projection answers for the two denominators.
pub open spec fn denominators_verdict(line_den: Binary64, samp_den: Binary64) -> Result<
    (),
    RspError,
> {
    if vanished(line_den) || vanished(samp_den) {
        Err(RspError::Projection(ProjectionError::InvalidRpc))
    } else {
        Ok(())
    }
}

/// The four polynomials at the normalized longitude `p`, latitude `l` and
/// height `h` may come to these, given the multiplication and the addition.
pub open spec fn ratios_of<M, A>(
    coeffs: RpcCoefficients,
    point: (Binary64, Binary64, Binary64),
    multiply: M,
    sum_up: A,
    ratios: Ratios,
) -> bool where M: Fn(Binary64, Binary64) -> Binary64, A: Fn(Binary64, Binary64) -> Binary64 {
    &&& evaluates(
        coeffs.line_num_coeff@,
        point.0,
        point.1,
        point.2,
        multiply,
        sum_up,
        ratios.line_num,
    )
    &&& evaluates(
        coeffs.line_den_coeff@,
        point.0,
        point.1,
        point.2,
        multiply,
        sum_up,
        ratios.line_den,
    )
    &&& evaluates(
        coeffs.samp_num_coeff@,
        point.0,
        point.1,
        point.2,
        multiply,
        sum_up,
        ratios.samp_num,
    )
    &&& evaluates(
        coeffs.samp_den_coeff@,
        point.0,
        point.1,
        point.2,
        multiply,
        sum_up,
        ratios.samp_den,
    )
}

/// What projecting a ground point may return, given the arithmetic of the
/// model: `normalize` makes the normalized longitude, latitude and height of
/// the coefficients and the point; the four polynomials are evaluated at
/// them; if a denominator has vanished the projection fails; otherwise the
/// result is the line and sample that `denormalize` makes of the
/// coefficients and the four.
pub open spec fn projects_to_image<N, M, A, D>(
    coeffs: RpcCoefficients,
    lla: LlaCoord,
    normalize: N,
    multiply: M,
    sum_up: A,
    denormalize: D,
    out: Result<(Binary64, Binary64), RspError>,
) -> bool where
    N: FnOnce(RpcCoefficients, LlaCoord) -> (Binary64, Binary64, Binary64),
    M: Fn(Binary64, Binary64) -> Binary64,
    A: Fn(Binary64, Binary64) -> Binary64,
    D: FnOnce(RpcCoefficients, Ratios) -> (Binary64, Binary64),
 {
    exists|point: (Binary64, Binary64, Binary64), ratios: Ratios|
        {
            &&& call_ensures(normalize, (coeffs, lla), point)
            &&& #[trigger] ratios_of(coeffs, point, multiply, sum_up, ratios)
            &&& if vanished(ratios.line_den) || vanished(ratios.samp_den) {
                out == Err::<(Binary64, Binary64), RspError>(
                    RspError::Projection(ProjectionError::InvalidRpc),
                )
            } else {
                out matches Ok(pixel) && call_ensures(denormalize, (coeffs, ratios), pixel)
            }
        }
}

/// What projecting an estimate at the given height may return.
pub open spec fn projected_at<N, M, A, D>(
    coeffs: RpcCoefficients,
    height: Binary64,
    estimate: (Binary64, Binary64),
    normalize: N,
    multiply: M,
    sum_up: A,
    denormalize: D,
    projected: Result<(Binary64, Binary64), RspError>,
) -> bool where
    N: Fn(RpcCoefficients, LlaCoord) -> (Binary64, Binary64, Binary64),
    M: Fn(Binary64, Binary64) -> Binary64,
    A: Fn(Binary64, Binary64) -> Binary64,
    D: Fn(RpcCoefficients, Ratios) -> (Binary64, Binary64),
 {
    projects_to_image(
        coeffs,
        LlaCoord { lat: estimate.0, lon: estimate.1, alt: height },
        normalize, multiply, sum_up, denormalize,
        projected,
    )
}

/// What the residual at an estimate may be, given the arithmetic: `pixel`
/// is the projection of the estimate at the given height, and the residual
/// is what `subtract` makes of the image coordinates and that.
pub open spec fn residual_at<N, M, A, D, T>(
    coeffs: RpcCoefficients,
    target: (Binary64, Binary64),
    height: Binary64,
    estimate: (Binary64, Binary64),
    normalize: N,
    multiply: M,
    sum_up: A,
    denormalize: D,
    subtract: T,
    pixel: (Binary64, Binary64),
    errors: (Binary64, Binary64),
) -> bool where
    N: Fn(RpcCoefficients, LlaCoord) -> (Binary64, Binary64, Binary64),
    M: Fn(Binary64, Binary64) -> Binary64,
    A: Fn(Binary64, Binary64) -> Binary64,
    D: Fn(RpcCoefficients, Ratios) -> (Binary64, Binary64),
    T: Fn((Binary64, Binary64), (Binary64, Binary64)) -> (Binary64, Binary64),
 {
    projected_at(
        coeffs,
        height,
        estimate,
        normalize, multiply, sum_up, denormalize,
        Ok::<(Binary64, Binary64), RspError>(pixel),
    ) && call_ensures(subtract, (target, pixel), errors)
}

/// The second half of the linear system at an estimate: the estimate is
/// moved by 1e-7 along the longitude and projected there; if that fails, so
/// does the system; otherwise `solve` makes the determinant and the Newton
/// step of the projection at the estimate, the two projections beside it,
/// the residual and the 1e-7.
pub open spec fn solved_beside<N, M, A, D, S>(
    coeffs: RpcCoefficients,
    height: Binary64,
    estimate: (Binary64, Binary64),
    pixel: (Binary64, Binary64),
    errors: (Binary64, Binary64),
    at_lat: (Binary64, Binary64),
    normalize: N,
    multiply: M,
    sum_up: A,
    denormalize: D,
    solve: S,
    stepped: Result<(Binary64, (Binary64, Binary64)), RspError>,
) -> bool where
    N: Fn(RpcCoefficients, LlaCoord) -> (Binary64, Binary64, Binary64),
    M: Fn(Binary64, Binary64) -> Binary64,
    A: Fn(Binary64, Binary64) -> Binary64,
    D: Fn(RpcCoefficients, Ratios) -> (Binary64, Binary64),
    S: Fn(
        (Binary64, Binary64),
        (Binary64, Binary64),
        (Binary64, Binary64),
        (Binary64, Binary64),
        Binary64,
    ) -> (Binary64, (Binary64, Binary64)),
 {
    let delta = Binary64 { bits: INVERSION_DIFFERENCE_STEP };
    exists|beside: Binary64, at_lon: Result<(Binary64, Binary64), RspError>|
        #![trigger projected_at(coeffs, height, (estimate.0, beside), normalize, multiply, sum_up, denormalize, at_lon)]
        {
            &&& call_ensures(sum_up, (estimate.1, delta), beside)
            &&& projected_at(coeffs, height, (estimate.0, beside), normalize, multiply, sum_up, denormalize, at_lon)
            &&& match at_lon {
                Err(error) => stepped == Err::<(Binary64, (Binary64, Binary64)), RspError>(error),
                Ok(beside_lon) => stepped matches Ok(pair) && call_ensures(
                    solve,
                    (pixel, at_lat, beside_lon, errors, delta),
                    pair,
                ),
            }
        }
}

/// What the linear system at an estimate may come to, given the arithmetic.
/// The Jacobian is estimated by forward differences: the estimate is moved
/// by 1e-7 along the latitude, then along the longitude, and projected at
/// both places. A projection that fails is the failure of the system.
pub open spec fn solved_at<N, M, A, D, S>(
    coeffs: RpcCoefficients,
    height: Binary64,
    estimate: (Binary64, Binary64),
    pixel: (Binary64, Binary64),
    errors: (Binary64, Binary64),
    normalize: N,
    multiply: M,
    sum_up: A,
    denormalize: D,
    solve: S,
    stepped: Result<(Binary64, (Binary64, Binary64)), RspError>,
) -> bool where
    N: Fn(RpcCoefficients, LlaCoord) -> (Binary64, Binary64, Binary64),
    M: Fn(Binary64, Binary64) -> Binary64,
    A: Fn(Binary64, Binary64) -> Binary64,
    D: Fn(RpcCoefficients, Ratios) -> (Binary64, Binary64),
    S: Fn(
        (Binary64, Binary64),
        (Binary64, Binary64),
        (Binary64, Binary64),
        (Binary64, Binary64),
        Binary64,
    ) -> (Binary64, (Binary64, Binary64)),
 {
    let delta = Binary64 { bits: INVERSION_DIFFERENCE_STEP };
    exists|beside: Binary64, at_lat: Result<(Binary64, Binary64), RspError>|
        #![trigger projected_at(coeffs, height, (beside, estimate.1), normalize, multiply, sum_up, denormalize, at_lat)]
        {
            &&& call_ensures(sum_up, (estimate.0, delta), beside)
            &&& projected_at(coeffs, height, (beside, estimate.1), normalize, multiply, sum_up, denormalize, at_lat)
            &&& match at_lat {
                Err(error) => stepped == Err::<(Binary64, (Binary64, Binary64)), RspError>(error),
                Ok(beside_lat) => solved_beside(
                    coeffs,
                    height,
                    estimate,
                    pixel,
                    errors,
                    beside_lat,
                    normalize, multiply, sum_up, denormalize,
                    solve,
                    stepped,
                ),
            }
        }
}

/// Where a Newton step leads from an estimate: `sum_up` adds the step to
/// it, coordinate by coordinate.
pub open spec fn moved<A>(
    estimate: (Binary64, Binary64),
    delta: (Binary64, Binary64),
    sum_up: A,
    next: (Binary64, Binary64),
) -> bool where
    A: Fn(Binary64, Binary64) -> Binary64,
 {
    call_ensures(sum_up, (estimate.0, delta.0), next.0) && call_ensures(
        sum_up,
        (estimate.1, delta.1),
        next.1,
    )
}

/// An iteration that does not settle the inverse projection: its residual
/// is out of tolerance, its Jacobian is not singular, and its step leads to
/// `next`.
pub open spec fn goes_on<N, M, A, D, T, S>(
    coeffs: RpcCoefficients,
    target: (Binary64, Binary64),
    height: Binary64,
    normalize: N,
    multiply: M,
    sum_up: A,
    denormalize: D,
    subtract: T,
    solve: S,
    estimate: (Binary64, Binary64),
    pixel: (Binary64, Binary64),
    errors: (Binary64, Binary64),
    determinant: Binary64,
    delta: (Binary64, Binary64),
    next: (Binary64, Binary64),
) -> bool where
    N: Fn(RpcCoefficients, LlaCoord) -> (Binary64, Binary64, Binary64),
    M: Fn(Binary64, Binary64) -> Binary64,
    A: Fn(Binary64, Binary64) -> Binary64,
    D: Fn(RpcCoefficients, Ratios) -> (Binary64, Binary64),
    T: Fn((Binary64, Binary64), (Binary64, Binary64)) -> (Binary64, Binary64),
    S: Fn(
        (Binary64, Binary64),
        (Binary64, Binary64),
        (Binary64, Binary64),
        (Binary64, Binary64),
        Binary64,
    ) -> (Binary64, (Binary64, Binary64)),
 {
    &&& residual_at(coeffs, target, height, estimate, normalize, multiply, sum_up, denormalize, subtract, pixel, errors)
    &&& !inversion_policy_spec().within_tolerance(errors)
    &&& solved_at(
        coeffs,
        height,
        estimate,
        pixel,
        errors,
        normalize, multiply, sum_up, denormalize,
        solve,
        Ok::<(Binary64, (Binary64, Binary64)), RspError>((determinant, delta)),
    )
    &&& !inversion_policy_spec().singular(determinant)
    &&& moved(estimate, delta, sum_up, next)
}

/// An inverse projection under way: the iterations so far, none of which
/// settled it, and the estimate that the last step led to. The first
/// estimate is made of the latitude and longitude offsets of the model.
pub open spec fn leads_to<N, M, A, D, T, S>(
    run: NewtonRun,
    coeffs: RpcCoefficients,
    target: (Binary64, Binary64),
    height: Binary64,
    normalize: N,
    multiply: M,
    sum_up: A,
    denormalize: D,
    subtract: T,
    solve: S,
    current: (Binary64, Binary64),
) -> bool where
    N: Fn(RpcCoefficients, LlaCoord) -> (Binary64, Binary64, Binary64),
    M: Fn(Binary64, Binary64) -> Binary64,
    A: Fn(Binary64, Binary64) -> Binary64,
    D: Fn(RpcCoefficients, Ratios) -> (Binary64, Binary64),
    T: Fn((Binary64, Binary64), (Binary64, Binary64)) -> (Binary64, Binary64),
    S: Fn(
        (Binary64, Binary64),
        (Binary64, Binary64),
        (Binary64, Binary64),
        (Binary64, Binary64),
        Binary64,
    ) -> (Binary64, (Binary64, Binary64)),
 {
    let n = run.len();
    &&& run.wf()
    &&& n == 0 ==> current == (coeffs.lat_off, coeffs.lon_off)
    &&& n > 0 ==> run.estimates[0] == (coeffs.lat_off, coeffs.lon_off)
    &&& forall|i: int|
        0 <= i < n ==> goes_on(
            coeffs,
            target,
            height,
            normalize, multiply, sum_up, denormalize, subtract, solve,
            #[trigger] run.estimates[i],
            run.values[i],
            run.residuals[i],
            run.determinants[i],
            run.deltas[i],
            if i + 1 < n {
                run.estimates[i + 1]
            } else {
                current
            },
        )
}

/// What the inverse projection returns once the linear system at an
/// estimate is known, after `taken` iterations that did not settle it: the
/// error of a projection, if one failed; `NoConvergence` with the iterations
/// behind it, if the Jacobian is singular; `NoConvergence` with the budget
/// otherwise, which is the case only in the last iteration that the budget
/// allows.
pub open spec fn step_settles(
    taken: nat,
    stepped: Result<(Binary64, (Binary64, Binary64)), RspError>,
    out: Result<LlaCoord, RspError>,
) -> bool {
    match stepped {
        Err(error) => out == Err::<LlaCoord, RspError>(error),
        Ok((determinant, _)) => if inversion_policy_spec().singular(determinant) {
            out == Err::<LlaCoord, RspError>(
                RspError::Projection(ProjectionError::NoConvergence(taken as usize)),
            )
        } else {
            taken + 1 == INVERSION_ITERATIONS && out == Err::<LlaCoord, RspError>(
                RspError::Projection(ProjectionError::NoConvergence(INVERSION_ITERATIONS)),
            )
        },
    }
}

/// What the inverse projection returns once the projection of an estimate
/// is known: the estimate at the given height, if the residual is within
/// tolerance; otherwise what the linear system at the estimate settles.
pub open spec fn residual_settles<N, M, A, D, T, S>(
    taken: nat,
    coeffs: RpcCoefficients,
    target: (Binary64, Binary64),
    height: Binary64,
    normalize: N,
    multiply: M,
    sum_up: A,
    denormalize: D,
    subtract: T,
    solve: S,
    current: (Binary64, Binary64),
    pixel: (Binary64, Binary64),
    out: Result<LlaCoord, RspError>,
) -> bool where
    N: Fn(RpcCoefficients, LlaCoord) -> (Binary64, Binary64, Binary64),
    M: Fn(Binary64, Binary64) -> Binary64,
    A: Fn(Binary64, Binary64) -> Binary64,
    D: Fn(RpcCoefficients, Ratios) -> (Binary64, Binary64),
    T: Fn((Binary64, Binary64), (Binary64, Binary64)) -> (Binary64, Binary64),
    S: Fn(
        (Binary64, Binary64),
        (Binary64, Binary64),
        (Binary64, Binary64),
        (Binary64, Binary64),
        Binary64,
    ) -> (Binary64, (Binary64, Binary64)),
 {
    exists|errors: (Binary64, Binary64)|
        #[trigger] call_ensures(subtract, (target, pixel), errors) && if inversion_policy_spec().within_tolerance(
            errors,
        ) {
            out == Ok::<LlaCoord, RspError>(
                LlaCoord { lat: current.0, lon: current.1, alt: height },
            )
        } else {
            exists|stepped: Result<(Binary64, (Binary64, Binary64)), RspError>|
                #[trigger] solved_at(
                    coeffs,
                    height,
                    current,
                    pixel,
                    errors,
                    normalize, multiply, sum_up, denormalize,
                    solve,
                    stepped,
                ) && step_settles(taken, stepped, out)
        }
}

/// How the iteration at the current estimate settles an inverse projection
/// that has `taken` iterations behind it: with the error of the projection
/// of the estimate, if that fails; otherwise with what the residual settles.
pub open spec fn settles<N, M, A, D, T, S>(
    taken: nat,
    coeffs: RpcCoefficients,
    target: (Binary64, Binary64),
    height: Binary64,
    normalize: N,
    multiply: M,
    sum_up: A,
    denormalize: D,
    subtract: T,
    solve: S,
    current: (Binary64, Binary64),
    out: Result<LlaCoord, RspError>,
) -> bool where
    N: Fn(RpcCoefficients, LlaCoord) -> (Binary64, Binary64, Binary64),
    M: Fn(Binary64, Binary64) -> Binary64,
    A: Fn(Binary64, Binary64) -> Binary64,
    D: Fn(RpcCoefficients, Ratios) -> (Binary64, Binary64),
    T: Fn((Binary64, Binary64), (Binary64, Binary64)) -> (Binary64, Binary64),
    S: Fn(
        (Binary64, Binary64),
        (Binary64, Binary64),
        (Binary64, Binary64),
        (Binary64, Binary64),
        Binary64,
    ) -> (Binary64, (Binary64, Binary64)),
 {
    exists|projected: Result<(Binary64, Binary64), RspError>|
        #[trigger] projected_at(coeffs, height, current, normalize, multiply, sum_up, denormalize, projected) && match projected {
            Err(error) => out == Err::<LlaCoord, RspError>(error),
            Ok(pixel) => residual_settles(
                taken,
                coeffs,
                target,
                height,
                normalize, multiply, sum_up, denormalize, subtract, solve,
                current,
                pixel,
                out,
            ),
        }
}

/// What the inverse projection may return, given the arithmetic of the
/// model: there are fewer than twenty iterations that did not settle it, and
/// the iteration at the estimate that they lead to settles it.
pub open spec fn inverts<N, M, A, D, T, S>(
    coeffs: RpcCoefficients,
    target: (Binary64, Binary64),
    height: Binary64,
    normalize: N,
    multiply: M,
    sum_up: A,
    denormalize: D,
    subtract: T,
    solve: S,
    out: Result<LlaCoord, RspError>,
) -> bool where
    N: Fn(RpcCoefficients, LlaCoord) -> (Binary64, Binary64, Binary64),
    M: Fn(Binary64, Binary64) -> Binary64,
    A: Fn(Binary64, Binary64) -> Binary64,
    D: Fn(RpcCoefficients, Ratios) -> (Binary64, Binary64),
    T: Fn((Binary64, Binary64), (Binary64, Binary64)) -> (Binary64, Binary64),
    S: Fn(
        (Binary64, Binary64),
        (Binary64, Binary64),
        (Binary64, Binary64),
        (Binary64, Binary64),
        Binary64,
    ) -> (Binary64, (Binary64, Binary64)),
 {
    exists|run: NewtonRun, current: (Binary64, Binary64)|
        {
            &&& #[trigger] leads_to(run, coeffs, target, height, normalize, multiply, sum_up, denormalize, subtract, solve, current)
            &&& run.len() < INVERSION_ITERATIONS
            &&& settles(run.len(), coeffs, target, height, normalize, multiply, sum_up, denormalize, subtract, solve, current, out)
        }
}

impl View for RpcModel {
    type V = RpcCoefficients;

    closed spec fn view(&self) -> RpcCoefficients {
        self.coeffs
    }
}

impl RpcModel {
    /// A model over the given coefficients.
    pub fn new(coeffs: RpcCoefficients) -> (model: RpcModel)
        ensures
            model@ == coeffs,
    {
        RpcModel { coeffs }
    }

    /// The coefficients of the model.
    pub fn coefficients(&self) -> (coeffs: &RpcCoefficients)
        ensures
            *coeffs == self@,
    {
        &self.coeffs
    }

    /// The budget and thresholds of the inverse projection.
    pub fn inversion_policy() -> (policy: NewtonPolicy)
        ensures
            policy == inversion_policy_spec(),
    {
        NewtonPolicy {
            max_iterations: INVERSION_ITERATIONS,
            first_tolerance: Binary64 { bits: INVERSION_TOLERANCE },
            second_tolerance: Binary64 { bits: INVERSION_TOLERANCE },
            min_determinant: Binary64 { bits: RPC_MIN_DIVISOR },
        }
    }

    /// The step by which the finite differences move latitude and longitude.
    pub fn difference_step() -> (step: Binary64)
        ensures
            step.bits == INVERSION_DIFFERENCE_STEP,
    {
        Binary64 { bits: INVERSION_DIFFERENCE_STEP }
    }

    /// Decides on the denominators of the line and of the sample polynomial:
    /// the projection fails if either has vanished.
    pub fn check_denominators(line_den: Binary64, samp_den: Binary64) -> (r: Result<(), RspError>)
        ensures
            r == denominators_verdict(line_den, samp_den),
    {
        let floor: Binary64 = Binary64 { bits: RPC_MIN_DIVISOR };
        if line_den.abs().lt(floor) || samp_den.abs().lt(floor) {
            Err(RspError::Projection(ProjectionError::InvalidRpc))
        } else {
            Ok(())
        }
    }

    /// Projects latitude, longitude and altitude to image coordinates, line
    /// and sample: the coordinate is normalized, the four polynomials are
    /// evaluated by `eval_polynomial`, and their quotients are denormalized.
    /// The projection fails with `InvalidRpc` if the denominator of the line
    /// or of the sample is below 1e-10 in absolute value.
    pub fn lla_to_image<N, M, A, D>(
        &self,
        lla: &LlaCoord,
        normalize: N,
        multiply: M,
        sum_up: A,
        denormalize: D,
    ) -> (r: Result<(Binary64, Binary64), RspError>) where
        N: FnOnce(RpcCoefficients, LlaCoord) -> (Binary64, Binary64, Binary64),
        M: Fn(Binary64, Binary64) -> Binary64 + Copy,
        A: Fn(Binary64, Binary64) -> Binary64 + Copy,
        D: FnOnce(RpcCoefficients, Ratios) -> (Binary64, Binary64),

        requires
            call_requires(normalize, (self@, *lla)),
            forall|a: Binary64, b: Binary64| call_requires(multiply, (a, b)),
            forall|a: Binary64, b: Binary64| call_requires(sum_up, (a, b)),
            forall|ratios: Ratios| call_requires(denormalize, (self@, ratios)),
        ensures
            projects_to_image(self@, *lla, normalize, multiply, sum_up, denormalize, r),
    {
        let (p, l, h) = normalize(self.coeffs, *lla);
        let ratios: Ratios = Ratios {
            line_num: eval_polynomial(&self.coeffs.line_num_coeff, p, l, h, multiply, sum_up),
            line_den: eval_polynomial(&self.coeffs.line_den_coeff, p, l, h, multiply, sum_up),
            samp_num: eval_polynomial(&self.coeffs.samp_num_coeff, p, l, h, multiply, sum_up),
            samp_den: eval_polynomial(&self.coeffs.samp_den_coeff, p, l, h, multiply, sum_up),
        };
        proof {
            assert(ratios_of(self@, (p, l, h), multiply, sum_up, ratios));
        }
        match Self::check_denominators(ratios.line_den, ratios.samp_den) {
            Err(error) => Err(error),
            Ok(()) => Ok(denormalize(self.coeffs, ratios)),
        }
    }

    /// Projects a point of the Earth-centered frame to image coordinates:
    /// the point is converted to latitude, longitude and altitude, and that
    /// coordinate is projected. A failure of the conversion is the failure of
    /// the projection.
    pub fn ground_to_image<S, F, G, N, M, A, D>(
        &self,
        ground_ecef: &EcefCoord,
        seed: S,
        refine: F,
        finish: G,
        normalize: N,
        multiply: M,
        sum_up: A,
        denormalize: D,
    ) -> (r: Result<(Binary64, Binary64), RspError>) where
        S: FnOnce(EcefCoord) -> (Binary64, Binary64),
        F: Fn(EcefCoord, (Binary64, Binary64)) -> (Binary64, Binary64),
        G: FnOnce(EcefCoord, (Binary64, Binary64)) -> LlaCoord,
        N: FnOnce(RpcCoefficients, LlaCoord) -> (Binary64, Binary64, Binary64),
        M: Fn(Binary64, Binary64) -> Binary64 + Copy,
        A: Fn(Binary64, Binary64) -> Binary64 + Copy,
        D: FnOnce(RpcCoefficients, Ratios) -> (Binary64, Binary64),

        requires
            call_requires(seed, (*ground_ecef,)),
            forall|estimate: (Binary64, Binary64)| call_requires(refine, (*ground_ecef, estimate)),
            forall|estimate: (Binary64, Binary64)| call_requires(finish, (*ground_ecef, estimate)),
            forall|lla: LlaCoord| call_requires(normalize, (self@, lla)),
            forall|a: Binary64, b: Binary64| call_requires(multiply, (a, b)),
            forall|a: Binary64, b: Binary64| call_requires(sum_up, (a, b)),
            forall|ratios: Ratios| call_requires(denormalize, (self@, ratios)),
        ensures
            exists|converted: Result<LlaCoord, RspError>|
                {
                    &&& #[trigger] converts_to_lla(*ground_ecef, seed, refine, finish, converted)
                    &&& match converted {
                        Err(error) => r == Err::<(Binary64, Binary64), RspError>(error),
                        Ok(lla) => projects_to_image(
                            self@,
                            lla,
                            normalize,
                            multiply,
                            sum_up,
                            denormalize,
                            r,
                        ),
                    }
                },
    {
        match ecef_to_lla(ground_ecef, seed, refine, finish) {
            Err(error) => Err(error),
            Ok(lla) => self.lla_to_image(&lla, normalize, multiply, sum_up, denormalize),
        }
    }

    /// Projects image coordinates to the ground point at the given height,
    /// in the Earth-centered frame: the coordinates are projected to
    /// latitude and longitude, and that coordinate is converted. A failure of
    /// either is the failure of the projection.
    pub fn image_to_ground<N, M, A, D, T, S, F>(
        &self,
        line: Binary64,
        sample: Binary64,
        height: Binary64,
        normalize: N,
        multiply: M,
        sum_up: A,
        denormalize: D,
        subtract: T,
        solve: S,
        convert: F,
    ) -> (r: Result<EcefCoord, RspError>) where
        N: Fn(RpcCoefficients, LlaCoord) -> (Binary64, Binary64, Binary64) + Copy,
        M: Fn(Binary64, Binary64) -> Binary64 + Copy,
        A: Fn(Binary64, Binary64) -> Binary64 + Copy,
        D: Fn(RpcCoefficients, Ratios) -> (Binary64, Binary64) + Copy,
        T: Fn((Binary64, Binary64), (Binary64, Binary64)) -> (Binary64, Binary64),
        S: Fn(
            (Binary64, Binary64),
            (Binary64, Binary64),
            (Binary64, Binary64),
            (Binary64, Binary64),
            Binary64,
        ) -> (Binary64, (Binary64, Binary64)),
        F: FnOnce(LlaCoord) -> EcefCoord,

        requires
            forall|lla: LlaCoord| call_requires(normalize, (self@, lla)),
            forall|a: Binary64, b: Binary64| call_requires(multiply, (a, b)),
            forall|a: Binary64, b: Binary64| call_requires(sum_up, (a, b)),
            forall|ratios: Ratios| call_requires(denormalize, (self@, ratios)),
            forall|a: (Binary64, Binary64), b: (Binary64, Binary64)|
                call_requires(subtract, (a, b)),
            forall|
                f: (Binary64, Binary64),
                fx: (Binary64, Binary64),
                fy: (Binary64, Binary64),
                r: (Binary64, Binary64),
                eps: Binary64,
            | call_requires(solve, (f, fx, fy, r, eps)),
            forall|lla: LlaCoord| call_requires(convert, (lla,)),
        ensures
            exists|inverted: Result<LlaCoord, RspError>|
                {
                    &&& #[trigger] inverts(self@, (line, sample), height, normalize, multiply, sum_up, denormalize, subtract, solve, inverted)
                    &&& match inverted {
                        Err(error) => r == Err::<EcefCoord, RspError>(error),
                        Ok(lla) => converts_to_ecef(lla, convert, r),
                    }
                },
    {
        match self.image_to_lla(
            line,
            sample,
            height,
            normalize,
            multiply,
            sum_up,
            denormalize,
            subtract,
            solve,
        ) {
            Err(error) => Err(error),
            Ok(lla) => lla_to_ecef(&lla, convert),
        }
    }

    /// Projects image coordinates to latitude and longitude at the given
    /// height by Newton-Raphson iteration.
    ///
    /// The iteration starts at the latitude and longitude offsets of the
    /// model. At each estimate the residual is what `subtract` makes of the
    /// image coordinates and the projection of the estimate, which
    /// `lla_to_image` gives; the estimate is returned if both components
    /// are below 1e-6 in absolute value. Else the estimate is moved by 1e-7
    /// along the latitude and along the longitude, by `sum_up`, and
    /// projected at both places; of these forward differences `solve` makes
    /// the determinant of the Jacobian and the Newton step. Below 1e-10 in
    /// absolute value the inversion fails with the number of the iteration,
    /// counted from 0; else `sum_up` adds the step to the estimate and the
    /// iteration goes on. After twenty iterations the inversion fails with
    /// 20. A projection that fails ends the inversion with its error.
    pub fn image_to_lla<N, M, A, D, T, S>(
        &self,
        line: Binary64,
        sample: Binary64,
        height: Binary64,
        normalize: N,
        multiply: M,
        sum_up: A,
        denormalize: D,
        subtract: T,
        solve: S,
    ) -> (r: Result<LlaCoord, RspError>) where
        N: Fn(RpcCoefficients, LlaCoord) -> (Binary64, Binary64, Binary64) + Copy,
        M: Fn(Binary64, Binary64) -> Binary64 + Copy,
        A: Fn(Binary64, Binary64) -> Binary64 + Copy,
        D: Fn(RpcCoefficients, Ratios) -> (Binary64, Binary64) + Copy,
        T: Fn((Binary64, Binary64), (Binary64, Binary64)) -> (Binary64, Binary64),
        S: Fn(
            (Binary64, Binary64),
            (Binary64, Binary64),
            (Binary64, Binary64),
            (Binary64, Binary64),
            Binary64,
        ) -> (Binary64, (Binary64, Binary64)),

        requires
            forall|lla: LlaCoord| call_requires(normalize, (self@, lla)),
            forall|a: Binary64, b: Binary64| call_requires(multiply, (a, b)),
            forall|a: Binary64, b: Binary64| call_requires(sum_up, (a, b)),
            forall|ratios: Ratios| call_requires(denormalize, (self@, ratios)),
            forall|a: (Binary64, Binary64), b: (Binary64, Binary64)|
                call_requires(subtract, (a, b)),
            forall|
                f: (Binary64, Binary64),
                fx: (Binary64, Binary64),
                fy: (Binary64, Binary64),
                r: (Binary64, Binary64),
                eps: Binary64,
            | call_requires(solve, (f, fx, fy, r, eps)),
        ensures
            inverts(self@, (line, sample), height, normalize, multiply, sum_up, denormalize, subtract, solve, r),
    {
        let coeffs: RpcCoefficients = self.coeffs;
        let target: (Binary64, Binary64) = (line, sample);
        let step: Binary64 = Self::difference_step();
        let policy: NewtonPolicy = Self::inversion_policy();
        let mut state: NewtonState = policy.start();
        let mut estimate: (Binary64, Binary64) = (coeffs.lat_off, coeffs.lon_off);
        let ghost mut run: NewtonRun = NewtonRun::empty();
        while policy.allows(state)
            invariant
                policy == inversion_policy_spec(),
                step == (Binary64 { bits: INVERSION_DIFFERENCE_STEP }),
                coeffs == self@,
                target == (line, sample),
            forall|lla: LlaCoord| call_requires(normalize, (self@, lla)),
            forall|a: Binary64, b: Binary64| call_requires(multiply, (a, b)),
            forall|a: Binary64, b: Binary64| call_requires(sum_up, (a, b)),
            forall|ratios: Ratios| call_requires(denormalize, (self@, ratios)),
            forall|a: (Binary64, Binary64), b: (Binary64, Binary64)|
                call_requires(subtract, (a, b)),
            forall|
                f: (Binary64, Binary64),
                fx: (Binary64, Binary64),
                fy: (Binary64, Binary64),
                r: (Binary64, Binary64),
                eps: Binary64,
            | call_requires(solve, (f, fx, fy, r, eps)),
                state.iteration < policy.max_iterations,
                run.len() == state.iteration,
                leads_to(run, coeffs, target, height, normalize, multiply, sum_up, denormalize, subtract, solve, estimate),
            decreases policy.max_iterations - state.iteration,
        {
            let lla: LlaCoord = LlaCoord { lat: estimate.0, lon: estimate.1, alt: height };
            let projected = self.lla_to_image(&lla, normalize, multiply, sum_up, denormalize);
            proof {
                assert(projected_at(coeffs, height, estimate, normalize, multiply, sum_up, denormalize, projected));
            }
            let pixel: (Binary64, Binary64) = match projected {
                Err(error) => {
                    return Err(error);
                },
                Ok(pixel) => pixel,
            };
            let errors: (Binary64, Binary64) = subtract(target, pixel);
            match policy.on_residual(state, errors.0, errors.1) {
                NewtonVerdict::Converged => {
                    proof {
                        assert(residual_settles(
                            run.len(),
                            coeffs,
                            target,
                            height,
                            normalize, multiply, sum_up, denormalize, subtract, solve,
                            estimate,
                            pixel,
                            Ok::<LlaCoord, RspError>(lla),
                        ));
                    }
                    return Ok(lla);
                },
                _ => {},
            }
            let beside_lat: Binary64 = sum_up(estimate.0, step);
            let lla_lat: LlaCoord = LlaCoord { lat: beside_lat, lon: estimate.1, alt: height };
            let at_lat = self.lla_to_image(&lla_lat, normalize, multiply, sum_up, denormalize);
            proof {
                assert(projected_at(coeffs, height, (beside_lat, estimate.1), normalize, multiply, sum_up, denormalize, at_lat));
            }
            let pixel_lat: (Binary64, Binary64) = match at_lat {
                Err(error) => {
                    proof {
                        let stepped = Err::<(Binary64, (Binary64, Binary64)), RspError>(error);
                        assert(solved_at(
                            coeffs,
                            height,
                            estimate,
                            pixel,
                            errors,
                            normalize, multiply, sum_up, denormalize,
                            solve,
                            stepped,
                        ));
                        assert(residual_settles(
                            run.len(),
                            coeffs,
                            target,
                            height,
                            normalize, multiply, sum_up, denormalize, subtract, solve,
                            estimate,
                            pixel,
                            Err::<LlaCoord, RspError>(error),
                        ));
                    }
                    return Err(error);
                },
                Ok(pixel_lat) => pixel_lat,
            };
            let beside_lon: Binary64 = sum_up(estimate.1, step);
            let lla_lon: LlaCoord = LlaCoord { lat: estimate.0, lon: beside_lon, alt: height };
            let at_lon = self.lla_to_image(&lla_lon, normalize, multiply, sum_up, denormalize);
            proof {
                assert(projected_at(coeffs, height, (estimate.0, beside_lon), normalize, multiply, sum_up, denormalize, at_lon));
            }
            let pixel_lon: (Binary64, Binary64) = match at_lon {
                Err(error) => {
                    proof {
                        let stepped = Err::<(Binary64, (Binary64, Binary64)), RspError>(error);
                        assert(solved_beside(
                            coeffs,
                            height,
                            estimate,
                            pixel,
                            errors,
                            pixel_lat,
                            normalize, multiply, sum_up, denormalize,
                            solve,
                            stepped,
                        ));
                        assert(solved_at(
                            coeffs,
                            height,
                            estimate,
                            pixel,
                            errors,
                            normalize, multiply, sum_up, denormalize,
                            solve,
                            stepped,
                        ));
                        assert(residual_settles(
                            run.len(),
                            coeffs,
                            target,
                            height,
                            normalize, multiply, sum_up, denormalize, subtract, solve,
                            estimate,
                            pixel,
                            Err::<LlaCoord, RspError>(error),
                        ));
                    }
                    return Err(error);
                },
                Ok(pixel_lon) => pixel_lon,
            };
            let solved: (Binary64, (Binary64, Binary64)) = solve(
                pixel,
                pixel_lat,
                pixel_lon,
                errors,
                step,
            );
            let determinant: Binary64 = solved.0;
            let delta: (Binary64, Binary64) = solved.1;
            proof {
                let stepped = Ok::<(Binary64, (Binary64, Binary64)), RspError>(solved);
                assert(solved == (determinant, delta));
                assert(solved_beside(
                    coeffs,
                    height,
                    estimate,
                    pixel,
                    errors,
                    pixel_lat,
                    normalize, multiply, sum_up, denormalize,
                    solve,
                    stepped,
                ));
                assert(solved_at(coeffs, height, estimate, pixel, errors, normalize, multiply, sum_up, denormalize, solve, stepped));
            }
            match policy.on_determinant(state, determinant) {
                NewtonVerdict::Continue(state_after) => {
                    let next: (Binary64, Binary64) = (
                        sum_up(estimate.0, delta.0),
                        sum_up(estimate.1, delta.1),
                    );
                    proof {
                        lemma_extended(
                            run,
                            coeffs,
                            target,
                            height,
                            normalize, multiply, sum_up, denormalize, subtract, solve,
                            estimate,
                            pixel,
                            errors,
                            determinant,
                            delta,
                            next,
                        );
                        run = run.push(estimate, pixel, errors, determinant, delta);
                    }
                    state = state_after;
                    estimate = next;
                },
                NewtonVerdict::Singular { iteration } => {
                    proof {
                        let out = Err::<LlaCoord, RspError>(
                            RspError::Projection(ProjectionError::NoConvergence(iteration)),
                        );
                        assert(residual_settles(
                            run.len(),
                            coeffs,
                            target,
                            height,
                            normalize, multiply, sum_up, denormalize, subtract, solve,
                            estimate,
                            pixel,
                            out,
                        ));
                    }
                    return Err(RspError::Projection(ProjectionError::NoConvergence(iteration)));
                },
                _ => {
                    proof {
                        let out = Err::<LlaCoord, RspError>(
                            RspError::Projection(
                                ProjectionError::NoConvergence(INVERSION_ITERATIONS),
                            ),
                        );
                        assert(residual_settles(
                            run.len(),
                            coeffs,
                            target,
                            height,
                            normalize, multiply, sum_up, denormalize, subtract, solve,
                            estimate,
                            pixel,
                            out,
                        ));
                    }
                    return Err(
                        RspError::Projection(
                            ProjectionError::NoConvergence(INVERSION_ITERATIONS),
                        ),
                    );
                },
            }
        }
        Err(RspError::Projection(ProjectionError::NoConvergence(INVERSION_ITERATIONS)))
    }
}

proof fn lemma_extended<N, M, A, D, T, S>(
    run: NewtonRun,
    coeffs: RpcCoefficients,
    target: (Binary64, Binary64),
    height: Binary64,
    normalize: N,
    multiply: M,
    sum_up: A,
    denormalize: D,
    subtract: T,
    solve: S,
    current: (Binary64, Binary64),
    pixel: (Binary64, Binary64),
    errors: (Binary64, Binary64),
    determinant: Binary64,
    delta: (Binary64, Binary64),
    next: (Binary64, Binary64),
) where
    N: Fn(RpcCoefficients, LlaCoord) -> (Binary64, Binary64, Binary64),
    M: Fn(Binary64, Binary64) -> Binary64,
    A: Fn(Binary64, Binary64) -> Binary64,
    D: Fn(RpcCoefficients, Ratios) -> (Binary64, Binary64),
    T: Fn((Binary64, Binary64), (Binary64, Binary64)) -> (Binary64, Binary64),
    S: Fn(
        (Binary64, Binary64),
        (Binary64, Binary64),
        (Binary64, Binary64),
        (Binary64, Binary64),
        Binary64,
    ) -> (Binary64, (Binary64, Binary64)),

    requires
        leads_to(run, coeffs, target, height, normalize, multiply, sum_up, denormalize, subtract, solve, current),
        goes_on(
            coeffs,
            target,
            height,
            normalize, multiply, sum_up, denormalize, subtract, solve,
            current,
            pixel,
            errors,
            determinant,
            delta,
            next,
        ),
    ensures
        leads_to(
            run.push(current, pixel, errors, determinant, delta),
            coeffs,
            target,
            height,
            normalize, multiply, sum_up, denormalize, subtract, solve,
            next,
        ),
{
    let done = run.push(current, pixel, errors, determinant, delta);
    let n = run.len() as int;
    assert forall|i: int| 0 <= i < n + 1 implies goes_on(
        coeffs,
        target,
        height,
        normalize, multiply, sum_up, denormalize, subtract, solve,
        #[trigger] done.estimates[i],
        done.values[i],
        done.residuals[i],
        done.determinants[i],
        done.deltas[i],
        if i + 1 < n + 1 {
            done.estimates[i + 1]
        } else {
            next
        },
    ) by {
        if i < n {
            assert(done.estimates[i] == run.estimates[i]);
            assert(done.values[i] == run.values[i]);
            assert(done.residuals[i] == run.residuals[i]);
            assert(done.determinants[i] == run.determinants[i]);
            assert(done.deltas[i] == run.deltas[i]);
            if i + 1 < n {
                assert(done.estimates[i + 1] == run.estimates[i + 1]);
            } else {
                assert(done.estimates[i + 1] == current);
            }
        }
    }
    if n > 0 {
        assert(done.estimates[0] == run.estimates[0]);
    }
}

/// The basis is the whole of the cubic monomials, each once: every choice of
/// exponents with a sum of at most 3 is the monomial of exactly one term.
pub proof fn lemma_basis_complete(lat: nat, lon: nat, height: nat)
    requires
        lat + lon + height <= 3,
    ensures
        exists|index: int| 0 <= index < 20 && #[trigger] monomial(index) == (lat, lon, height),
        forall|i: int, j: int|
            0 <= i < 20 && 0 <= j < 20 && #[trigger] monomial(i) == #[trigger] monomial(j) ==> i
                == j,
{
    lemma_monomials();
    let index: int = if lat == 0 && lon == 0 && height == 0 {
        0
    } else if lat == 1 && lon == 0 && height == 0 {
        1
    } else if lat == 0 && lon == 1 && height == 0 {
        2
    } else if lat == 0 && lon == 0 && height == 1 {
        3
    } else if lat == 1 && lon == 1 && height == 0 {
        4
    } else if lat == 1 && lon == 0 && height == 1 {
        5
    } else if lat == 0 && lon == 1 && height == 1 {
        6
    } else if lat == 2 && lon == 0 && height == 0 {
        7
    } else if lat == 0 && lon == 2 && height == 0 {
        8
    } else if lat == 0 && lon == 0 && height == 2 {
        9
    } else if lat == 1 && lon == 1 && height == 1 {
        10
    } else if lat == 3 && lon == 0 && height == 0 {
        11
    } else if lat == 1 && lon == 2 && height == 0 {
        12
    } else if lat == 1 && lon == 0 && height == 2 {
        13
    } else if lat == 2 && lon == 1 && height == 0 {
        14
    } else if lat == 0 && lon == 3 && height == 0 {
        15
    } else if lat == 0 && lon == 1 && height == 2 {
        16
    } else if lat == 2 && lon == 0 && height == 1 {
        17
    } else if lat == 0 && lon == 2 && height == 1 {
        18
    } else {
        19
    };
    assert(monomial(index) == (lat, lon, height));
}

/// The exponents of each term, written out.
pub proof fn lemma_monomials()
    ensures
        monomial(0) == (0nat, 0nat, 0nat),
        monomial(1) == (1nat, 0nat, 0nat),
        monomial(2) == (0nat, 1nat, 0nat),
        monomial(3) == (0nat, 0nat, 1nat),
        monomial(4) == (1nat, 1nat, 0nat),
        monomial(5) == (1nat, 0nat, 1nat),
        monomial(6) == (0nat, 1nat, 1nat),
        monomial(7) == (2nat, 0nat, 0nat),
        monomial(8) == (0nat, 2nat, 0nat),
        monomial(9) == (0nat, 0nat, 2nat),
        monomial(10) == (1nat, 1nat, 1nat),
        monomial(11) == (3nat, 0nat, 0nat),
        monomial(12) == (1nat, 2nat, 0nat),
        monomial(13) == (1nat, 0nat, 2nat),
        monomial(14) == (2nat, 1nat, 0nat),
        monomial(15) == (0nat, 3nat, 0nat),
        monomial(16) == (0nat, 1nat, 2nat),
        monomial(17) == (2nat, 0nat, 1nat),
        monomial(18) == (0nat, 2nat, 1nat),
        monomial(19) == (0nat, 0nat, 3nat),
{
    assert forall|index: int| 0 <= index < 20 implies #[trigger] monomial(index) == (
        count(basis(index), Axis::Lat),
        count(basis(index), Axis::Lon),
        count(basis(index), Axis::Height),
    ) by {
        lemma_exponent(basis(index), Axis::Lat);
        lemma_exponent(basis(index), Axis::Lon);
        lemma_exponent(basis(index), Axis::Height);
    }
}

/// The occurrences of an axis among at most three factors, without recursion.
pub open spec fn count(factors: Seq<Axis>, axis: Axis) -> nat {
    (if factors.len() > 0 && factors[0] == axis {
        1nat
    } else {
        0nat
    }) + (if factors.len() > 1 && factors[1] == axis {
        1nat
    } else {
        0nat
    }) + (if factors.len() > 2 && factors[2] == axis {
        1nat
    } else {
        0nat
    })
}

proof fn lemma_exponent(factors: Seq<Axis>, axis: Axis)
    requires
        factors.len() <= 3,
    ensures
        exponent(factors, axis) == count(factors, axis),
    decreases factors.len(),
{
    if factors.len() > 0 {
        lemma_exponent(factors.drop_last(), axis);
    }
}

/// The inverse projection fails for want of convergence only with an
/// iteration count from 0 to 20.
pub proof fn lemma_inversion_counts<N, M, A, D, T, S>(
    coeffs: RpcCoefficients,
    target: (Binary64, Binary64),
    height: Binary64,
    normalize: N,
    multiply: M,
    sum_up: A,
    denormalize: D,
    subtract: T,
    solve: S,
    out: Result<LlaCoord, RspError>,
    iterations: usize,
) where
    N: Fn(RpcCoefficients, LlaCoord) -> (Binary64, Binary64, Binary64),
    M: Fn(Binary64, Binary64) -> Binary64,
    A: Fn(Binary64, Binary64) -> Binary64,
    D: Fn(RpcCoefficients, Ratios) -> (Binary64, Binary64),
    T: Fn((Binary64, Binary64), (Binary64, Binary64)) -> (Binary64, Binary64),
    S: Fn(
        (Binary64, Binary64),
        (Binary64, Binary64),
        (Binary64, Binary64),
        (Binary64, Binary64),
        Binary64,
    ) -> (Binary64, (Binary64, Binary64)),

    requires
        inverts(coeffs, target, height, normalize, multiply, sum_up, denormalize, subtract, solve, out),
        out == Err::<LlaCoord, RspError>(
            RspError::Projection(ProjectionError::NoConvergence(iterations)),
        ),
    ensures
        iterations <= INVERSION_ITERATIONS,
{
    let (run, current) = choose|run: NewtonRun, current: (Binary64, Binary64)|
        {
            &&& #[trigger] leads_to(run, coeffs, target, height, normalize, multiply, sum_up, denormalize, subtract, solve, current)
            &&& run.len() < INVERSION_ITERATIONS
            &&& settles(run.len(), coeffs, target, height, normalize, multiply, sum_up, denormalize, subtract, solve, current, out)
        };
    let taken = run.len();
    let projected = choose|projected: Result<(Binary64, Binary64), RspError>|
        #[trigger] projected_at(coeffs, height, current, normalize, multiply, sum_up, denormalize, projected) && match projected {
            Err(error) => out == Err::<LlaCoord, RspError>(error),
            Ok(pixel) => residual_settles(
                taken,
                coeffs,
                target,
                height,
                normalize, multiply, sum_up, denormalize, subtract, solve,
                current,
                pixel,
                out,
            ),
        };
    lemma_projection_errors(
        coeffs,
        LlaCoord { lat: current.0, lon: current.1, alt: height },
        normalize, multiply, sum_up, denormalize,
        projected,
    );
    if let Ok(pixel) = projected {
        let errors = choose|errors: (Binary64, Binary64)|
            #[trigger] call_ensures(subtract, (target, pixel), errors) && if inversion_policy_spec().within_tolerance(
                errors,
            ) {
                out == Ok::<LlaCoord, RspError>(
                    LlaCoord { lat: current.0, lon: current.1, alt: height },
                )
            } else {
                exists|stepped: Result<(Binary64, (Binary64, Binary64)), RspError>|
                    #[trigger] solved_at(
                        coeffs,
                        height,
                        current,
                        pixel,
                        errors,
                        normalize, multiply, sum_up, denormalize,
                        solve,
                        stepped,
                    ) && step_settles(taken, stepped, out)
            };
        let stepped = choose|stepped: Result<(Binary64, (Binary64, Binary64)), RspError>|
            #[trigger] solved_at(coeffs, height, current, pixel, errors, normalize, multiply, sum_up, denormalize, solve, stepped)
                && step_settles(taken, stepped, out);
        if let Err(error) = stepped {
            lemma_system_errors(
                coeffs,
                height,
                current,
                pixel,
                errors,
                normalize, multiply, sum_up, denormalize,
                solve,
                stepped,
            );
        }
    }
}

/// The projection has no other error than `InvalidRpc`.
pub proof fn lemma_projection_errors<N, M, A, D>(
    coeffs: RpcCoefficients,
    lla: LlaCoord,
    normalize: N,
    multiply: M,
    sum_up: A,
    denormalize: D,
    out: Result<(Binary64, Binary64), RspError>,
) where
    N: FnOnce(RpcCoefficients, LlaCoord) -> (Binary64, Binary64, Binary64),
    M: Fn(Binary64, Binary64) -> Binary64,
    A: Fn(Binary64, Binary64) -> Binary64,
    D: FnOnce(RpcCoefficients, Ratios) -> (Binary64, Binary64),

    requires
        projects_to_image(coeffs, lla, normalize, multiply, sum_up, denormalize, out),
    ensures
        out is Err ==> out == Err::<(Binary64, Binary64), RspError>(
            RspError::Projection(ProjectionError::InvalidRpc),
        ),
{
}

proof fn lemma_system_errors<N, M, A, D, S>(
    coeffs: RpcCoefficients,
    height: Binary64,
    estimate: (Binary64, Binary64),
    pixel: (Binary64, Binary64),
    errors: (Binary64, Binary64),
    normalize: N,
    multiply: M,
    sum_up: A,
    denormalize: D,
    solve: S,
    stepped: Result<(Binary64, (Binary64, Binary64)), RspError>,
) where
    N: Fn(RpcCoefficients, LlaCoord) -> (Binary64, Binary64, Binary64),
    M: Fn(Binary64, Binary64) -> Binary64,
    A: Fn(Binary64, Binary64) -> Binary64,
    D: Fn(RpcCoefficients, Ratios) -> (Binary64, Binary64),
    S: Fn(
        (Binary64, Binary64),
        (Binary64, Binary64),
        (Binary64, Binary64),
        (Binary64, Binary64),
        Binary64,
    ) -> (Binary64, (Binary64, Binary64)),

    requires
        solved_at(coeffs, height, estimate, pixel, errors, normalize, multiply, sum_up, denormalize, solve, stepped),
    ensures
        stepped is Err ==> stepped == Err::<(Binary64, (Binary64, Binary64)), RspError>(
            RspError::Projection(ProjectionError::InvalidRpc),
        ),
{
    let delta = Binary64 { bits: INVERSION_DIFFERENCE_STEP };
    let (beside, at_lat) = choose|beside: Binary64, at_lat: Result<(Binary64, Binary64), RspError>|
        #![trigger projected_at(coeffs, height, (beside, estimate.1), normalize, multiply, sum_up, denormalize, at_lat)]
        {
            &&& call_ensures(sum_up, (estimate.0, delta), beside)
            &&& projected_at(coeffs, height, (beside, estimate.1), normalize, multiply, sum_up, denormalize, at_lat)
            &&& match at_lat {
                Err(error) => stepped == Err::<(Binary64, (Binary64, Binary64)), RspError>(error),
                Ok(beside_lat) => solved_beside(
                    coeffs,
                    height,
                    estimate,
                    pixel,
                    errors,
                    beside_lat,
                    normalize, multiply, sum_up, denormalize,
                    solve,
                    stepped,
                ),
            }
        };
    lemma_projection_errors(
        coeffs,
        LlaCoord { lat: beside, lon: estimate.1, alt: height },
        normalize, multiply, sum_up, denormalize,
        at_lat,
    );
    if let Ok(beside_lat) = at_lat {
        let (beside2, at_lon) = choose|
            beside2: Binary64,
            at_lon: Result<(Binary64, Binary64), RspError>,
        |
            #![trigger projected_at(coeffs, height, (estimate.0, beside2), normalize, multiply, sum_up, denormalize, at_lon)]
            {
                &&& call_ensures(sum_up, (estimate.1, delta), beside2)
                &&& projected_at(coeffs, height, (estimate.0, beside2), normalize, multiply, sum_up, denormalize, at_lon)
                &&& match at_lon {
                    Err(error) => stepped == Err::<(Binary64, (Binary64, Binary64)), RspError>(
                        error,
                    ),
                    Ok(beside_lon) => stepped matches Ok(pair) && call_ensures(
                        solve,
                        (pixel, beside_lat, beside_lon, errors, delta),
                        pair,
                    ),
                }
            };
        lemma_projection_errors(
            coeffs,
            LlaCoord { lat: estimate.0, lon: beside2, alt: height },
            normalize, multiply, sum_up, denormalize,
            at_lon,
        );
    }
}

/// The inverse projection gives no answer that it has not checked: the
/// coordinate that it returns is at the given height, it has a projection,
/// and the image coordinates minus that projection are within tolerance.
pub proof fn lemma_answers_meet_tolerance<N, M, A, D, T, S>(
    coeffs: RpcCoefficients,
    target: (Binary64, Binary64),
    height: Binary64,
    normalize: N,
    multiply: M,
    sum_up: A,
    denormalize: D,
    subtract: T,
    solve: S,
    answer: LlaCoord,
) where
    N: Fn(RpcCoefficients, LlaCoord) -> (Binary64, Binary64, Binary64),
    M: Fn(Binary64, Binary64) -> Binary64,
    A: Fn(Binary64, Binary64) -> Binary64,
    D: Fn(RpcCoefficients, Ratios) -> (Binary64, Binary64),
    T: Fn((Binary64, Binary64), (Binary64, Binary64)) -> (Binary64, Binary64),
    S: Fn(
        (Binary64, Binary64),
        (Binary64, Binary64),
        (Binary64, Binary64),
        (Binary64, Binary64),
        Binary64,
    ) -> (Binary64, (Binary64, Binary64)),

    requires
        inverts(coeffs, target, height, normalize, multiply, sum_up, denormalize, subtract, solve, Ok::<LlaCoord, RspError>(answer)),
    ensures
        answer.alt == height,
        exists|pixel: (Binary64, Binary64), errors: (Binary64, Binary64)|
            {
                &&& #[trigger] projects_to_image(
                    coeffs,
                    answer,
                    normalize, multiply, sum_up, denormalize,
                    Ok::<(Binary64, Binary64), RspError>(pixel),
                )
                &&& #[trigger] call_ensures(subtract, (target, pixel), errors)
                &&& inversion_policy_spec().within_tolerance(errors)
            },
{
    let out = Ok::<LlaCoord, RspError>(answer);
    let (run, current) = choose|run: NewtonRun, current: (Binary64, Binary64)|
        {
            &&& #[trigger] leads_to(run, coeffs, target, height, normalize, multiply, sum_up, denormalize, subtract, solve, current)
            &&& run.len() < INVERSION_ITERATIONS
            &&& settles(run.len(), coeffs, target, height, normalize, multiply, sum_up, denormalize, subtract, solve, current, out)
        };
    let projected = choose|projected: Result<(Binary64, Binary64), RspError>|
        #[trigger] projected_at(coeffs, height, current, normalize, multiply, sum_up, denormalize, projected) && match projected {
            Err(error) => out == Err::<LlaCoord, RspError>(error),
            Ok(pixel) => residual_settles(
                run.len(),
                coeffs,
                target,
                height,
                normalize, multiply, sum_up, denormalize, subtract, solve,
                current,
                pixel,
                out,
            ),
        };
    if let Ok(pixel) = projected {
        let errors = choose|errors: (Binary64, Binary64)|
            #[trigger] call_ensures(subtract, (target, pixel), errors) && if inversion_policy_spec().within_tolerance(
                errors,
            ) {
                out == Ok::<LlaCoord, RspError>(
                    LlaCoord { lat: current.0, lon: current.1, alt: height },
                )
            } else {
                exists|stepped: Result<(Binary64, (Binary64, Binary64)), RspError>|
                    #[trigger] solved_at(
                        coeffs,
                        height,
                        current,
                        pixel,
                        errors,
                        normalize, multiply, sum_up, denormalize,
                        solve,
                        stepped,
                    ) && step_settles(run.len(), stepped, out)
            };
        assert(answer == (LlaCoord { lat: current.0, lon: current.1, alt: height }));
        assert(projects_to_image(
            coeffs,
            answer,
            normalize, multiply, sum_up, denormalize,
            Ok::<(Binary64, Binary64), RspError>(pixel),
        ) && call_ensures(subtract, (target, pixel), errors)
            && inversion_policy_spec().within_tolerance(errors));
    }
}

/// The constants are what their names say: the binary64 numbers of 1e-6,
/// 1e-10 and 1e-7.
pub proof fn lemma_inversion_constants()
    ensures
        (Binary64 { bits: INVERSION_TOLERANCE }).rounds(1, 1_000_000),
        (Binary64 { bits: RPC_MIN_DIVISOR }).rounds(1, 10_000_000_000),
        (Binary64 { bits: INVERSION_DIFFERENCE_STEP }).rounds(1, 10_000_000),
{
    lemma2_to64();
    lemma2_to64_rest();
    lemma_pow2_adds(64, 8);
    lemma_pow2_adds(64, 22);
    lemma_pow2_adds(64, 12);
    assert(pow2(72) == 4722366482869645213696);
    assert(pow2(86) == 77371252455336267181195264);
    assert(pow2(76) == 75557863725914323419136);
    let t = Binary64 { bits: INVERSION_TOLERANCE };
    lemma_fields(t);
    assert(t.exponent_field() == 1003 && t.fraction_field() == 218766855499149);
    lemma_rounds(t, 1, 1_000_000, 72);
    let d = Binary64 { bits: RPC_MIN_DIVISOR };
    lemma_fields(d);
    assert(d.exponent_field() == 989 && d.fraction_field() == 3233525618163131);
    lemma_rounds(d, 1, 10_000_000_000, 86);
    let s = Binary64 { bits: INVERSION_DIFFERENCE_STEP };
    lemma_fields(s);
    assert(s.exponent_field() == 999 && s.fraction_field() == 3052186745220936);
    lemma_rounds(s, 1, 10_000_000, 76);
}

} // verus!
