//! Camera models: what is common to the pinhole and the fisheye camera.
//!
//! A camera holds its calibration and decides which points it projects and
//! how an unprojection fails. The arithmetic on the coordinates comes from
//! the caller, as functions of the calibration and the point.

use vstd::prelude::*;
use crate::binary64::{lemma_fields, lemma_magnitude_zero, Binary64};
use crate::camera::distortion::{distorts, near, undistorts, DistortionError, DistortionModel};

pub mod distortion;
pub mod fisheye;
pub mod pinhole;

verus! {

/// What a camera is made of: the image size in pixels, the focal lengths,
/// the principal point and the distortion model.
#[derive(Clone, Copy, Debug)]
pub struct Calibration {
    pub width: usize,
    pub height: usize,
    pub fx: Binary64,
    pub fy: Binary64,
    pub cx: Binary64,
    pub cy: Binary64,
    pub distortion: DistortionModel,
}

impl Calibration {
    /// A calibration can be projected through: the image is not empty and
    /// neither focal length is zero.
    pub open spec fn wf(self) -> bool {
        self.width > 0 && self.height > 0 && self.fx.scaled() != 0 && self.fy.scaled() != 0
    }

    /// Whether the calibration can be projected through.
    pub fn is_valid(&self) -> (r: bool)
        ensures
            r == self.wf(),
    {
        self.width > 0 && self.height > 0 && !self.fx.is_zero() && !self.fy.is_zero()
    }
}

/// A point of the camera frame has an image if its depth, the coordinate
/// along the optical axis, is not `<= 0`. A point behind the camera or in its
/// plane has none. (A NaN depth is not `<= 0`.)
pub open spec fn in_front(depth: Binary64) -> bool {
    !depth.le_spec(Binary64 { bits: 0 })
}

/// What projecting a point of the camera frame may return, given the
/// arithmetic of the projection: nothing for a point that is not in front of
/// the camera. For any other, `normalize` makes the normalized image
/// coordinates of the point, the distortion of the calibration is applied to
/// them, and `to_pixel` makes the pixel of the calibration and the distorted
/// coordinates.
pub open spec fn projects<N, G, F, P>(
    calibration: Calibration,
    point: (Binary64, Binary64, Binary64),
    normalize: N,
    radius: G,
    formula: F,
    to_pixel: P,
    out: Option<(Binary64, Binary64)>,
) -> bool where
    N: FnOnce((Binary64, Binary64, Binary64)) -> (Binary64, Binary64),
    G: FnOnce((Binary64, Binary64)) -> Binary64,
    F: FnOnce(DistortionModel, (Binary64, Binary64)) -> (Binary64, Binary64),
    P: FnOnce(Calibration, (Binary64, Binary64)) -> (Binary64, Binary64),
 {
    if in_front(point.2) {
        exists|normalized: (Binary64, Binary64), distorted: (Binary64, Binary64)|
            {
                &&& call_ensures(normalize, (point,), normalized)
                &&& #[trigger] distorts(
                    calibration.distortion,
                    normalized,
                    radius,
                    formula,
                    distorted,
                )
                &&& out matches Some(pixel) && call_ensures(
                    to_pixel,
                    (calibration, distorted),
                    pixel,
                )
            }
    } else {
        out is None
    }
}

/// What unprojecting a pixel may return, given its arithmetic: `normalize`
/// makes the distorted point of the calibration and the pixel; the
/// distortion is removed from it; a failure to do so is the failure of the
/// unprojection; otherwise `ray` makes the unit ray of the undistorted
/// point.
pub open spec fn unprojects<N, G, F, D, A, S, V>(
    calibration: Calibration,
    pixel: (Binary64, Binary64),
    normalize: N,
    radius: G,
    formula: F,
    subtract: D,
    shift: A,
    solve: S,
    ray: V,
    out: Result<(Binary64, Binary64, Binary64), DistortionError>,
) -> bool where
    N: FnOnce(Calibration, (Binary64, Binary64)) -> (Binary64, Binary64),
    G: Fn((Binary64, Binary64)) -> Binary64,
    F: Fn(DistortionModel, (Binary64, Binary64)) -> (Binary64, Binary64),
    D: Fn((Binary64, Binary64), (Binary64, Binary64)) -> (Binary64, Binary64),
    A: Fn(Binary64, Binary64) -> Binary64,
    S: Fn(
        (Binary64, Binary64),
        (Binary64, Binary64),
        (Binary64, Binary64),
        (Binary64, Binary64),
        Binary64,
    ) -> (Binary64, (Binary64, Binary64)),
    V: FnOnce((Binary64, Binary64)) -> (Binary64, Binary64, Binary64),
 {
    exists|
        distorted: (Binary64, Binary64),
        restored: Result<(Binary64, Binary64), DistortionError>,
    |
        {
            &&& call_ensures(normalize, (calibration, pixel), distorted)
            &&& #[trigger] undistorts(
                calibration.distortion,
                distorted,
                radius,
                formula,
                subtract,
                shift,
                solve,
                restored,
            )
            &&& match restored {
                Ok(point) => out matches Ok(direction) && call_ensures(ray, (point,), direction),
                Err(error) => out == Err::<(Binary64, Binary64, Binary64), DistortionError>(error),
            }
        }
}

/// Whether a point at this depth has an image.
pub fn is_in_front(depth: Binary64) -> (r: bool)
    ensures
        r == in_front(depth),
{
    !depth.le(Binary64 { bits: 0 })
}

/// Projects a point of the camera frame through a calibration: a point that
/// is not in front of the camera has no image, and the arithmetic is not
/// asked; any other is normalized, distorted by `DistortionModel::distort`
/// and brought to pixel coordinates.
pub fn project_through<N, G, F, P>(
    calibration: Calibration,
    point: (Binary64, Binary64, Binary64),
    normalize: N,
    radius: G,
    formula: F,
    to_pixel: P,
) -> (r: Option<(Binary64, Binary64)>) where
    N: FnOnce((Binary64, Binary64, Binary64)) -> (Binary64, Binary64),
    G: FnOnce((Binary64, Binary64)) -> Binary64,
    F: FnOnce(DistortionModel, (Binary64, Binary64)) -> (Binary64, Binary64),
    P: FnOnce(Calibration, (Binary64, Binary64)) -> (Binary64, Binary64),

    requires
        call_requires(normalize, (point,)),
        forall|normalized: (Binary64, Binary64)| call_requires(radius, (normalized,)),
        forall|normalized: (Binary64, Binary64)|
            call_requires(formula, (calibration.distortion, normalized)),
        forall|distorted: (Binary64, Binary64)| call_requires(to_pixel, (calibration, distorted)),
    ensures
        projects(calibration, point, normalize, radius, formula, to_pixel, r),
{
    if is_in_front(point.2) {
        let normalized: (Binary64, Binary64) = normalize(point);
        let distorted: (Binary64, Binary64) = calibration.distortion.distort(
            normalized.0,
            normalized.1,
            radius,
            formula,
        );
        proof {
            assert((normalized.0, normalized.1) == normalized);
        }
        Some(to_pixel(calibration, distorted))
    } else {
        None
    }
}

/// Unprojects a pixel through a calibration to the unit ray of the camera
/// frame on which its points lie. The distortion is removed by
/// `DistortionModel::undistort`, and its failure is handed on unchanged.
pub fn unproject_through<N, G, F, D, A, S, V>(
    calibration: Calibration,
    pixel: (Binary64, Binary64),
    normalize: N,
    radius: G,
    formula: F,
    subtract: D,
    shift: A,
    solve: S,
    ray: V,
) -> (r: Result<(Binary64, Binary64, Binary64), DistortionError>) where
    N: FnOnce(Calibration, (Binary64, Binary64)) -> (Binary64, Binary64),
    G: Fn((Binary64, Binary64)) -> Binary64 + Copy,
    F: Fn(DistortionModel, (Binary64, Binary64)) -> (Binary64, Binary64) + Copy,
    D: Fn((Binary64, Binary64), (Binary64, Binary64)) -> (Binary64, Binary64),
    A: Fn(Binary64, Binary64) -> Binary64,
    S: Fn(
        (Binary64, Binary64),
        (Binary64, Binary64),
        (Binary64, Binary64),
        (Binary64, Binary64),
        Binary64,
    ) -> (Binary64, (Binary64, Binary64)),
    V: FnOnce((Binary64, Binary64)) -> (Binary64, Binary64, Binary64),

    requires
        call_requires(normalize, (calibration, pixel)),
        forall|point: (Binary64, Binary64)| call_requires(radius, (point,)),
        forall|point: (Binary64, Binary64)|
            call_requires(formula, (calibration.distortion, point)),
        forall|a: (Binary64, Binary64), b: (Binary64, Binary64)| call_requires(subtract, (a, b)),
        forall|a: Binary64, b: Binary64| call_requires(shift, (a, b)),
        forall|
            f: (Binary64, Binary64),
            fx: (Binary64, Binary64),
            fy: (Binary64, Binary64),
            r: (Binary64, Binary64),
            eps: Binary64,
        | call_requires(solve, (f, fx, fy, r, eps)),
        forall|point: (Binary64, Binary64)| call_requires(ray, (point,)),
    ensures
        unprojects(calibration, pixel, normalize, radius, formula, subtract, shift, solve, ray, r),
{
    let distorted: (Binary64, Binary64) = normalize(calibration, pixel);
    let restored = calibration.distortion.undistort(
        distorted.0,
        distorted.1,
        radius,
        formula,
        subtract,
        shift,
        solve,
    );
    proof {
        assert((distorted.0, distorted.1) == distorted);
    }
    match restored {
        Ok(point) => Ok(ray(point)),
        Err(error) => Err(error),
    }
}

/// The rule of projection in numbers: a point has an image exactly if its
/// depth is a positive number, an infinity included, or no number at all. No
/// point at a depth of zero or below has one, whatever the calibration and
/// the arithmetic.
pub proof fn lemma_behind_camera<N, G, F, P>(
    calibration: Calibration,
    point: (Binary64, Binary64, Binary64),
    normalize: N,
    radius: G,
    formula: F,
    to_pixel: P,
    out: Option<(Binary64, Binary64)>,
) where
    N: FnOnce((Binary64, Binary64, Binary64)) -> (Binary64, Binary64),
    G: FnOnce((Binary64, Binary64)) -> Binary64,
    F: FnOnce(DistortionModel, (Binary64, Binary64)) -> (Binary64, Binary64),
    P: FnOnce(Calibration, (Binary64, Binary64)) -> (Binary64, Binary64),

    requires
        projects(calibration, point, normalize, radius, formula, to_pixel, out),
    ensures
        in_front(point.2) <==> point.2.nan() || point.2.scaled() > 0,
        !point.2.nan() && point.2.scaled() <= 0 ==> out is None,
        out is Some <==> in_front(point.2),
{
    lemma_fields(Binary64 { bits: 0 });
    lemma_magnitude_zero(Binary64 { bits: 0 });
}

/// A point in front of a camera that its fisheye model leaves where it is,
/// as it does the points nearer to the optical axis than 1e-8, has the pixel
/// that `to_pixel` makes of its normalized coordinates themselves: a point
/// on the axis comes to the principal point without any division by its
/// distance from the axis.
pub proof fn lemma_fisheye_axis<N, G, F, P>(
    calibration: Calibration,
    point: (Binary64, Binary64, Binary64),
    normalize: N,
    radius: G,
    formula: F,
    to_pixel: P,
    out: Option<(Binary64, Binary64)>,
) where
    N: FnOnce((Binary64, Binary64, Binary64)) -> (Binary64, Binary64),
    G: FnOnce((Binary64, Binary64)) -> Binary64,
    F: FnOnce(DistortionModel, (Binary64, Binary64)) -> (Binary64, Binary64),
    P: FnOnce(Calibration, (Binary64, Binary64)) -> (Binary64, Binary64),

    requires
        calibration.distortion is Fisheye,
        in_front(point.2),
        projects(calibration, point, normalize, radius, formula, to_pixel, out),
        forall|normalized: (Binary64, Binary64), distance: Binary64|
            call_ensures(normalize, (point,), normalized) && call_ensures(
                radius,
                (normalized,),
                distance,
            ) ==> near(distance),
    ensures
        exists|normalized: (Binary64, Binary64)|
            {
                &&& #[trigger] call_ensures(normalize, (point,), normalized)
                &&& out matches Some(pixel) && call_ensures(
                    to_pixel,
                    (calibration, normalized),
                    pixel,
                )
            },
{
    let (normalized, distorted) = choose|
        normalized: (Binary64, Binary64),
        distorted: (Binary64, Binary64),
    |
        {
            &&& call_ensures(normalize, (point,), normalized)
            &&& #[trigger] distorts(calibration.distortion, normalized, radius, formula, distorted)
            &&& out matches Some(pixel) && call_ensures(to_pixel, (calibration, distorted), pixel)
        };
    assert(distorted == normalized);
    assert(call_ensures(normalize, (point,), normalized));
}

/// A camera: a calibration through which points are projected.
pub trait CameraModel {
    /// The calibration of the camera.
    spec fn calibration(&self) -> Calibration;

    /// The calibration of the camera.
    fn parameters(&self) -> (calibration: Calibration)
        ensures
            calibration == self.calibration(),
    ;

    /// Projects a point of the camera frame to image coordinates. A point
    /// that is not in front of the camera has no image.
    fn project<N, G, F, P>(
        &self,
        point: (Binary64, Binary64, Binary64),
        normalize: N,
        radius: G,
        formula: F,
        to_pixel: P,
    ) -> (r: Option<(Binary64, Binary64)>) where
        N: FnOnce((Binary64, Binary64, Binary64)) -> (Binary64, Binary64),
        G: FnOnce((Binary64, Binary64)) -> Binary64,
        F: FnOnce(DistortionModel, (Binary64, Binary64)) -> (Binary64, Binary64),
        P: FnOnce(Calibration, (Binary64, Binary64)) -> (Binary64, Binary64),

        requires
            call_requires(normalize, (point,)),
            forall|normalized: (Binary64, Binary64)| call_requires(radius, (normalized,)),
            forall|normalized: (Binary64, Binary64)|
                call_requires(formula, (self.calibration().distortion, normalized)),
            forall|distorted: (Binary64, Binary64)|
                call_requires(to_pixel, (self.calibration(), distorted)),
        ensures
            projects(self.calibration(), point, normalize, radius, formula, to_pixel, r),
    ;

    /// Unprojects image coordinates to the unit ray of the camera frame.
    fn unproject<N, G, F, D, A, S, V>(
        &self,
        pixel: (Binary64, Binary64),
        normalize: N,
        radius: G,
        formula: F,
        subtract: D,
        shift: A,
        solve: S,
        ray: V,
    ) -> (r: Result<(Binary64, Binary64, Binary64), DistortionError>) where
        N: FnOnce(Calibration, (Binary64, Binary64)) -> (Binary64, Binary64),
        G: Fn((Binary64, Binary64)) -> Binary64 + Copy,
        F: Fn(DistortionModel, (Binary64, Binary64)) -> (Binary64, Binary64) + Copy,
        D: Fn((Binary64, Binary64), (Binary64, Binary64)) -> (Binary64, Binary64),
        A: Fn(Binary64, Binary64) -> Binary64,
        S: Fn(
            (Binary64, Binary64),
            (Binary64, Binary64),
            (Binary64, Binary64),
            (Binary64, Binary64),
            Binary64,
        ) -> (Binary64, (Binary64, Binary64)),
        V: FnOnce((Binary64, Binary64)) -> (Binary64, Binary64, Binary64),

        requires
            call_requires(normalize, (self.calibration(), pixel)),
            forall|point: (Binary64, Binary64)| call_requires(radius, (point,)),
            forall|point: (Binary64, Binary64)|
                call_requires(formula, (self.calibration().distortion, point)),
            forall|a: (Binary64, Binary64), b: (Binary64, Binary64)|
                call_requires(subtract, (a, b)),
            forall|a: Binary64, b: Binary64| call_requires(shift, (a, b)),
            forall|
                f: (Binary64, Binary64),
                fx: (Binary64, Binary64),
                fy: (Binary64, Binary64),
                r: (Binary64, Binary64),
                eps: Binary64,
            | call_requires(solve, (f, fx, fy, r, eps)),
            forall|point: (Binary64, Binary64)| call_requires(ray, (point,)),
        ensures
            unprojects(
                self.calibration(),
                pixel,
                normalize,
                radius,
                formula,
                subtract,
                shift,
                solve,
                ray,
                r,
            ),
    ;

    /// The width and height, in pixels, of the image that the camera is
    /// calibrated for.
    fn image_size(&self) -> (size: (usize, usize))
        ensures
            size == (self.calibration().width, self.calibration().height),
    ;
}

} // verus!
