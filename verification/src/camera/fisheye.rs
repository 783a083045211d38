//! The fisheye camera with the equidistant distortion model.

use vstd::prelude::*;
use crate::binary64::Binary64;
use crate::camera::{project_through, unproject_through, Calibration, CameraModel};
use crate::camera::distortion::{DistortionError, DistortionModel};

verus! {

/// A fisheye camera.
#[derive(Clone, Copy, Debug)]
pub struct FisheyeCamera {
    calibration: Calibration,
}

impl View for FisheyeCamera {
    type V = Calibration;

    closed spec fn view(&self) -> Calibration {
        self.calibration
    }
}

impl FisheyeCamera {
    /// A fisheye camera with the coefficients of its equidistant polynomial.
    pub fn new(
        width: usize,
        height: usize,
        fx: Binary64,
        fy: Binary64,
        cx: Binary64,
        cy: Binary64,
        k1: Binary64,
        k2: Binary64,
        k3: Binary64,
        k4: Binary64,
    ) -> (camera: FisheyeCamera)
        ensures
            camera@ == (Calibration {
                width,
                height,
                fx,
                fy,
                cx,
                cy,
                distortion: DistortionModel::Fisheye { k1, k2, k3, k4 },
            }),
    {
        FisheyeCamera {
            calibration: Calibration {
                width,
                height,
                fx,
                fy,
                cx,
                cy,
                distortion: DistortionModel::Fisheye { k1, k2, k3, k4 },
            },
        }
    }

    /// The focal lengths along x and y.
    pub fn focal_length(&self) -> (f: (Binary64, Binary64))
        ensures
            f == (self@.fx, self@.fy),
    {
        (self.calibration.fx, self.calibration.fy)
    }

    /// The principal point.
    pub fn principal_point(&self) -> (c: (Binary64, Binary64))
        ensures
            c == (self@.cx, self@.cy),
    {
        (self.calibration.cx, self.calibration.cy)
    }
}

impl CameraModel for FisheyeCamera {
    open spec fn calibration(&self) -> Calibration {
        self@
    }

    fn parameters(&self) -> (calibration: Calibration) {
        self.calibration
    }

    fn project<N, G, F, P>(
        &self,
        point: (Binary64, Binary64, Binary64),
        normalize: N,
        radius: G,
        formula: F,
        to_pixel: P,
    ) -> (r: Option<(Binary64, Binary64)>) where
        N: FnOnce((Binary64, Binary64, Binary64)) -> (Binary64, Binary64),
        G: FnOnce((Binary64, Binary64)) -> Binary64,
        F: FnOnce(DistortionModel, (Binary64, Binary64)) -> (Binary64, Binary64),
        P: FnOnce(Calibration, (Binary64, Binary64)) -> (Binary64, Binary64),
     {
        project_through(self.calibration, point, normalize, radius, formula, to_pixel)
    }

    fn unproject<N, G, F, D, A, S, V>(
        &self,
        pixel: (Binary64, Binary64),
        normalize: N,
        radius: G,
        formula: F,
        subtract: D,
        shift: A,
        solve: S,
        ray: V,
    ) -> (r: Result<(Binary64, Binary64, Binary64), DistortionError>) where
        N: FnOnce(Calibration, (Binary64, Binary64)) -> (Binary64, Binary64),
        G: Fn((Binary64, Binary64)) -> Binary64 + Copy,
        F: Fn(DistortionModel, (Binary64, Binary64)) -> (Binary64, Binary64) + Copy,
        D: Fn((Binary64, Binary64), (Binary64, Binary64)) -> (Binary64, Binary64),
        A: Fn(Binary64, Binary64) -> Binary64,
        S: Fn(
            (Binary64, Binary64),
            (Binary64, Binary64),
            (Binary64, Binary64),
            (Binary64, Binary64),
            Binary64,
        ) -> (Binary64, (Binary64, Binary64)),
        V: FnOnce((Binary64, Binary64)) -> (Binary64, Binary64, Binary64),
     {
        unproject_through(self.calibration, pixel, normalize, radius, formula, subtract, shift, solve, ray)
    }

    fn image_size(&self) -> (size: (usize, usize)) {
        (self.calibration.width, self.calibration.height)
    }
}

} // verus!
