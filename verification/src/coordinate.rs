//! Geodetic and Earth-centered coordinates over the WGS84 ellipsoid, and the
//! conversions between them: the range rule that both enforce and the fixed
//! number of refinements of the one that has no closed form. The arithmetic
//! of the datum comes from the caller, as functions of the coordinates.

use vstd::prelude::*;
use vstd::arithmetic::power2::{lemma2_to64, lemma2_to64_rest, lemma_pow2_adds, pow2};
use crate::binary64::{lemma_fields, lemma_rounds, Binary64};
use crate::error::{CoordinateError, RspError};

verus! {

/// The encoding of 6378137.0, the semi-major axis of the ellipsoid in meters.
pub const WGS84_A: u64 = 0x4158_54a6_4000_0000;

/// The encoding of 0.00669437999014, the square of the first eccentricity.
pub const WGS84_E2: u64 = 0x3f7b_6b90_f1fe_8f02;

/// The encoding of 90.0, the latitude of the north pole in degrees.
pub const LATITUDE_MAX: u64 = 0x4056_8000_0000_0000;

/// The encoding of -90.0, the latitude of the south pole in degrees.
pub const LATITUDE_MIN: u64 = 0xc056_8000_0000_0000;

/// The conversion from Earth-centered coordinates refines its latitude
/// exactly this many times, whether or not it has settled before.
pub const GEODETIC_ITERATIONS: usize = 10;

/// Latitude and longitude in degrees, altitude in meters above the ellipsoid.
#[derive(Clone, Copy, Debug)]
pub struct LlaCoord {
    pub lat: Binary64,
    pub lon: Binary64,
    pub alt: Binary64,
}

/// A point of the Earth-centered, Earth-fixed frame, in meters.
#[derive(Clone, Copy, Debug)]
pub struct EcefCoord {
    pub x: Binary64,
    pub y: Binary64,
    pub z: Binary64,
}

/// A latitude is in range if it is at least -90 and at most 90 degrees, and
/// out of range otherwise. A NaN is no such number: it is out of range.
pub open spec fn latitude_out_of_range(lat: Binary64) -> bool {
    !((Binary64 { bits: LATITUDE_MIN }).le_spec(lat) && lat.le_spec(
        Binary64 { bits: LATITUDE_MAX },
    ))
}

/// What the range rule answers for a latitude.
pub open spec fn latitude_verdict(lat: Binary64) -> Result<(), RspError> {
    if latitude_out_of_range(lat) {
        Err(RspError::CoordinateTransform(CoordinateError::InvalidLatitude(lat)))
    } else {
        Ok(())
    }
}

/// Enforces the range rule on a latitude in degrees: one that is not within
/// -90 and 90, a NaN included, is refused, and the error quotes it.
pub fn check_latitude(lat: Binary64) -> (r: Result<(), RspError>)
    ensures
        r == latitude_verdict(lat),
{
    if (Binary64 { bits: LATITUDE_MIN }).le(lat) && lat.le(Binary64 { bits: LATITUDE_MAX }) {
        Ok(())
    } else {
        Err(RspError::CoordinateTransform(CoordinateError::InvalidLatitude(lat)))
    }
}

impl LlaCoord {
    /// Whether the coordinate can be converted: its latitude is in range.
    /// The longitude is not restricted.
    pub open spec fn wf(self) -> bool {
        !latitude_out_of_range(self.lat)
    }
}

/// What converting a geodetic coordinate may return, given the arithmetic of
/// the datum: the error of its latitude if that is out of range, otherwise
/// the point that the arithmetic makes of the coordinate.
pub open spec fn converts_to_ecef<F>(lla: LlaCoord, convert: F, out: Result<EcefCoord, RspError>) -> bool where
    F: FnOnce(LlaCoord) -> EcefCoord,
 {
    if latitude_out_of_range(lla.lat) {
        out == Err::<EcefCoord, RspError>(
            RspError::CoordinateTransform(CoordinateError::InvalidLatitude(lla.lat)),
        )
    } else {
        out matches Ok(ecef) && call_ensures(convert, (lla,), ecef)
    }
}

/// The latitude and altitude that the fixed-point scheme reaches from a
/// point: the seed, refined exactly as often as the scheme says.
pub open spec fn refined<S, F>(
    ecef: EcefCoord,
    seed: S,
    refine: F,
    estimates: Seq<(Binary64, Binary64)>,
) -> bool where
    S: FnOnce(EcefCoord) -> (Binary64, Binary64),
    F: Fn(EcefCoord, (Binary64, Binary64)) -> (Binary64, Binary64),
 {
    &&& estimates.len() == GEODETIC_ITERATIONS + 1
    &&& call_ensures(seed, (ecef,), estimates[0])
    &&& forall|i: int|
        0 <= i < GEODETIC_ITERATIONS ==> call_ensures(
            refine,
            (ecef, estimates[i]),
            #[trigger] estimates[i + 1],
        )
}

/// What converting an Earth-centered point may return, given the arithmetic
/// of the datum: `seed` makes the first latitude and altitude of the point,
/// `refine` makes the next of the point and the last, ten times over, and
/// `finish` makes latitude and longitude in degrees and the altitude of the
/// point and the tenth. The result is that coordinate, unless its latitude
/// is out of range.
pub open spec fn converts_to_lla<S, F, G>(
    ecef: EcefCoord,
    seed: S,
    refine: F,
    finish: G,
    out: Result<LlaCoord, RspError>,
) -> bool where
    S: FnOnce(EcefCoord) -> (Binary64, Binary64),
    F: Fn(EcefCoord, (Binary64, Binary64)) -> (Binary64, Binary64),
    G: FnOnce(EcefCoord, (Binary64, Binary64)) -> LlaCoord,
 {
    exists|estimates: Seq<(Binary64, Binary64)>, lla: LlaCoord|
        {
            &&& #[trigger] refined(ecef, seed, refine, estimates)
            &&& #[trigger] call_ensures(
                finish,
                (ecef, estimates[GEODETIC_ITERATIONS as int]),
                lla,
            )
            &&& out == if latitude_out_of_range(lla.lat) {
                Err::<LlaCoord, RspError>(
                    RspError::CoordinateTransform(CoordinateError::InvalidLatitude(lla.lat)),
                )
            } else {
                Ok::<LlaCoord, RspError>(lla)
            }
        }
}

/// Converts latitude, longitude and altitude to a point of the
/// Earth-centered frame. A latitude that is not within -90 and 90 degrees is
/// refused before any arithmetic; the longitude is not restricted.
pub fn lla_to_ecef<F>(lla: &LlaCoord, convert: F) -> (r: Result<EcefCoord, RspError>) where
    F: FnOnce(LlaCoord) -> EcefCoord,

    requires
        call_requires(convert, (*lla,)),
    ensures
        converts_to_ecef(*lla, convert, r),
{
    match check_latitude(lla.lat) {
        Err(error) => Err(error),
        Ok(()) => Ok(convert(*lla)),
    }
}

/// Converts a point of the Earth-centered frame to latitude, longitude and
/// altitude. The latitude and altitude are refined exactly ten times from
/// their seed, with no test of convergence in between; a latitude that then
/// comes out as no number, as it does for a point on the polar axis, or not
/// within -90 and 90 degrees is refused.
pub fn ecef_to_lla<S, F, G>(ecef: &EcefCoord, seed: S, refine: F, finish: G) -> (r: Result<
    LlaCoord,
    RspError,
>) where
    S: FnOnce(EcefCoord) -> (Binary64, Binary64),
    F: Fn(EcefCoord, (Binary64, Binary64)) -> (Binary64, Binary64),
    G: FnOnce(EcefCoord, (Binary64, Binary64)) -> LlaCoord,

    requires
        call_requires(seed, (*ecef,)),
        forall|estimate: (Binary64, Binary64)| call_requires(refine, (*ecef, estimate)),
        forall|estimate: (Binary64, Binary64)| call_requires(finish, (*ecef, estimate)),
    ensures
        converts_to_lla(*ecef, seed, refine, finish, r),
{
    let mut estimate: (Binary64, Binary64) = seed(*ecef);
    let ghost mut estimates: Seq<(Binary64, Binary64)> = seq![estimate];
    let mut done: usize = 0;
    while done < GEODETIC_ITERATIONS
        invariant
            done <= GEODETIC_ITERATIONS,
            estimates.len() == done + 1,
            estimates[done as int] == estimate,
            call_ensures(seed, (*ecef,), estimates[0]),
            forall|estimate: (Binary64, Binary64)| call_requires(refine, (*ecef, estimate)),
            forall|i: int|
                0 <= i < done ==> call_ensures(
                    refine,
                    (*ecef, estimates[i]),
                    #[trigger] estimates[i + 1],
                ),
        decreases GEODETIC_ITERATIONS - done,
    {
        let next: (Binary64, Binary64) = refine(*ecef, estimate);
        proof {
            let before = estimates;
            estimates = before.push(next);
            assert forall|i: int| 0 <= i < done + 1 implies call_ensures(
                refine,
                (*ecef, estimates[i]),
                #[trigger] estimates[i + 1],
            ) by {
                assert(estimates[i] == before[i]);
                if i < done {
                    assert(estimates[i + 1] == before[i + 1]);
                }
            }
        }
        estimate = next;
        done = done + 1;
    }
    let lla: LlaCoord = finish(*ecef, estimate);
    proof {
        assert(refined(*ecef, seed, refine, estimates));
    }
    match check_latitude(lla.lat) {
        Err(error) => Err(error),
        Ok(()) => Ok(lla),
    }
}

/// The constants are what their names say: the semi-major axis is 6378137
/// and the poles are at 90 and -90 exactly, and the eccentricity is the
/// binary64 number of 0.00669437999014.
pub proof fn lemma_datum_constants()
    ensures
        (Binary64 { bits: WGS84_A }).scaled() == 6378137 * pow2(1074),
        (Binary64 { bits: WGS84_E2 }).rounds(669437999014, 100_000_000_000_000),
        (Binary64 { bits: LATITUDE_MAX }).scaled() == 90 * pow2(1074),
        (Binary64 { bits: LATITUDE_MIN }).scaled() == -90 * pow2(1074),
{
    lemma2_to64();
    lemma2_to64_rest();
    let a = Binary64 { bits: WGS84_A };
    lemma_fields(a);
    assert(a.exponent_field() == 1045 && a.fraction_field() == 2344872828731392);
    lemma_pow2_adds(30, 1044);
    assert(a.scaled() == 6378137 * pow2(1074)) by (nonlinear_arith)
        requires
            a.scaled() == 6848472456101888 * pow2(1044),
            pow2(1074) == 1073741824 * pow2(1044),
    ;
    let e = Binary64 { bits: WGS84_E2 };
    lemma_fields(e);
    assert(e.exponent_field() == 1015 && e.fraction_field() == 3214495023271682);
    lemma_rounds(e, 669437999014, 100_000_000_000_000, 60);
    let north = Binary64 { bits: LATITUDE_MAX };
    let south = Binary64 { bits: LATITUDE_MIN };
    lemma_fields(north);
    lemma_fields(south);
    assert(north.exponent_field() == 1029 && north.fraction_field() == 1829587348619264);
    assert(south.exponent_field() == 1029 && south.fraction_field() == 1829587348619264);
    lemma_pow2_adds(46, 1028);
    assert(north.scaled() == 90 * pow2(1074)) by (nonlinear_arith)
        requires
            north.scaled() == 6333186975989760 * pow2(1028),
            pow2(1074) == 70368744177664 * pow2(1028),
    ;
    assert(south.scaled() == -90 * pow2(1074)) by (nonlinear_arith)
        requires
            south.scaled() == -(6333186975989760 * pow2(1028)),
            pow2(1074) == 70368744177664 * pow2(1028),
    ;
}

/// The range rule in numbers: a latitude is in range exactly if it is a
/// number and its value is at least -90 and at most 90. Whatever a
/// conversion returns as a coordinate has such a latitude.
pub proof fn lemma_latitude_range(lat: Binary64)
    ensures
        !latitude_out_of_range(lat) <==> !lat.nan() && -90 * pow2(1074) <= lat.scaled() <= 90
            * pow2(1074),
        latitude_verdict(lat) is Ok <==> !latitude_out_of_range(lat),
{
    lemma_datum_constants();
    lemma_fields(Binary64 { bits: LATITUDE_MAX });
    lemma_fields(Binary64 { bits: LATITUDE_MIN });
}

/// Whatever the arithmetic, a coordinate that a conversion from the
/// Earth-centered frame returns has a latitude that is a number from -90 to
/// 90; and a coordinate that a conversion to that frame takes has one.
pub proof fn lemma_converted_latitude<S, F, G, C>(
    ecef: EcefCoord,
    seed: S,
    refine: F,
    finish: G,
    lla: LlaCoord,
    convert: C,
    point: EcefCoord,
) where
    S: FnOnce(EcefCoord) -> (Binary64, Binary64),
    F: Fn(EcefCoord, (Binary64, Binary64)) -> (Binary64, Binary64),
    G: FnOnce(EcefCoord, (Binary64, Binary64)) -> LlaCoord,
    C: FnOnce(LlaCoord) -> EcefCoord,

    requires
        converts_to_lla(ecef, seed, refine, finish, Ok::<LlaCoord, RspError>(lla))
            || converts_to_ecef(lla, convert, Ok::<EcefCoord, RspError>(point)),
    ensures
        !lla.lat.nan(),
        -90 * pow2(1074) <= lla.lat.scaled() <= 90 * pow2(1074),
{
    lemma_latitude_range(lla.lat);
}

} // verus!
