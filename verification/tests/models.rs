//! The sensor models end to end: the arithmetic is done here on hardware
//! floats and handed to the library, which runs every model.

use nalgebra::Vector3;
use rsp::binary64::Binary64;
use rsp::camera::distortion::{
    difference_step, inversion_policy, DistortionError, DistortionModel, UNDISTORT_ITERATIONS,
};
use rsp::camera::fisheye::FisheyeCamera;
use rsp::camera::pinhole::PinholeCamera;
use rsp::camera::{is_in_front, Calibration, CameraModel};
use rsp::coordinate::{
    check_latitude, EcefCoord, LlaCoord, GEODETIC_ITERATIONS, WGS84_A, WGS84_E2,
};
use rsp::error::{CoordinateError, ProjectionError, RspError};
use rsp::newton::{NewtonPolicy, NewtonState, NewtonVerdict};
use rsp::sensor::rpc::{
    basis_term, Axis, Ratios, RpcCoefficients, RpcModel, INVERSION_ITERATIONS, RPC_TERMS,
};
use std::cell::{Cell, RefCell};

fn enc(x: f64) -> Binary64 {
    Binary64::from_bits(x.to_bits())
}

fn dec(x: Binary64) -> f64 {
    f64::from_bits(x.to_bits())
}

fn enc2(p: (f64, f64)) -> (Binary64, Binary64) {
    (enc(p.0), enc(p.1))
}

fn dec2(p: (Binary64, Binary64)) -> (f64, f64) {
    (dec(p.0), dec(p.1))
}

fn formula(model: DistortionModel, point: (Binary64, Binary64)) -> (Binary64, Binary64) {
    let (x_norm, y_norm) = dec2(point);
    match model {
        DistortionModel::Ideal => panic!("the ideal model has no formula"),
        DistortionModel::BrownConrady { k1, k2, k3, p1, p2 } => {
            let (k1, k2, k3) = (dec(k1), dec(k2), dec(k3));
            let (p1, p2) = (dec(p1), dec(p2));
            let r2 = x_norm * x_norm + y_norm * y_norm;
            let r4 = r2 * r2;
            let r6 = r4 * r2;
            let radial = 1.0 + k1 * r2 + k2 * r4 + k3 * r6;
            let x_dist =
                x_norm * radial + 2.0 * p1 * x_norm * y_norm + p2 * (r2 + 2.0 * x_norm * x_norm);
            let y_dist =
                y_norm * radial + p1 * (r2 + 2.0 * y_norm * y_norm) + 2.0 * p2 * x_norm * y_norm;
            enc2((x_dist, y_dist))
        }
        DistortionModel::Fisheye { k1, k2, k3, k4 } => {
            let (k1, k2, k3, k4) = (dec(k1), dec(k2), dec(k3), dec(k4));
            let r = (x_norm * x_norm + y_norm * y_norm).sqrt();
            assert!(!(r < 1e-8), "the library asks for no formula near the axis");
            let theta = r.atan();
            let theta2 = theta * theta;
            let theta4 = theta2 * theta2;
            let theta6 = theta4 * theta2;
            let theta8 = theta4 * theta4;
            let theta_d = theta * (1.0 + k1 * theta2 + k2 * theta4 + k3 * theta6 + k4 * theta8);
            let scale = theta_d / r;
            enc2((x_norm * scale, y_norm * scale))
        }
    }
}

fn radius(point: (Binary64, Binary64)) -> Binary64 {
    let (x_norm, y_norm) = dec2(point);
    enc((x_norm * x_norm + y_norm * y_norm).sqrt())
}

fn distort(model: &DistortionModel, x_norm: f64, y_norm: f64) -> (f64, f64) {
    dec2(model.distort(enc(x_norm), enc(y_norm), radius, formula))
}

fn subtract(target: (Binary64, Binary64), other: (Binary64, Binary64)) -> (Binary64, Binary64) {
    let (a, b) = dec2(target);
    let (c, d) = dec2(other);
    enc2((a - c, b - d))
}

fn shift(a: Binary64, b: Binary64) -> Binary64 {
    enc(dec(a) + dec(b))
}

fn solve(
    at: (Binary64, Binary64),
    at_x: (Binary64, Binary64),
    at_y: (Binary64, Binary64),
    residual: (Binary64, Binary64),
    eps: Binary64,
) -> (Binary64, (Binary64, Binary64)) {
    let (fx, fy) = dec2(at);
    let (fx_x, fy_x) = dec2(at_x);
    let (fx_y, fy_y) = dec2(at_y);
    let (rx, ry) = dec2(residual);
    let eps = dec(eps);
    let j11 = (fx_x - fx) / eps;
    let j21 = (fy_x - fy) / eps;
    let j12 = (fx_y - fx) / eps;
    let j22 = (fy_y - fy) / eps;
    let det = j11 * j22 - j12 * j21;
    let dx = (j22 * rx - j12 * ry) / det;
    let dy = (-j21 * rx + j11 * ry) / det;
    (enc(det), enc2((dx, dy)))
}

/// A linear system that has the given determinant and leaves the estimate where it is.
fn stalled(
    determinant: f64,
) -> impl Fn(
    (Binary64, Binary64),
    (Binary64, Binary64),
    (Binary64, Binary64),
    (Binary64, Binary64),
    Binary64,
) -> (Binary64, (Binary64, Binary64)) {
    move |_, _, _, _, _| (enc(determinant), enc2((0.0, 0.0)))
}

fn undistort(model: &DistortionModel, x: f64, y: f64) -> Result<(f64, f64), DistortionError> {
    model.undistort(enc(x), enc(y), radius, formula, subtract, shift, solve).map(dec2)
}

/// Returns the answer, the number of residuals and the number of steps that were asked for.
fn undistort_counted(
    model: &DistortionModel,
    x: f64,
    y: f64,
) -> (Result<(f64, f64), DistortionError>, usize, usize) {
    let residuals = Cell::new(0);
    let steps = Cell::new(0);
    let result = model.undistort(
        enc(x),
        enc(y),
        radius,
        formula,
        |t, d| {
            residuals.set(residuals.get() + 1);
            subtract(t, d)
        },
        shift,
        |f, fx, fy, r, eps| {
            steps.set(steps.get() + 1);
            solve(f, fx, fy, r, eps)
        },
    );
    (result.map(dec2), residuals.get(), steps.get())
}

fn normalize_point(point: (Binary64, Binary64, Binary64)) -> (Binary64, Binary64) {
    let (x, y, z) = (dec(point.0), dec(point.1), dec(point.2));
    enc2((x / z, y / z))
}

fn to_pixel(calibration: Calibration, distorted: (Binary64, Binary64)) -> (Binary64, Binary64) {
    let (x_dist, y_dist) = dec2(distorted);
    let u = dec(calibration.fx) * x_dist + dec(calibration.cx);
    let v = dec(calibration.fy) * y_dist + dec(calibration.cy);
    enc2((u, v))
}

fn normalize(calibration: Calibration, pixel: (Binary64, Binary64)) -> (Binary64, Binary64) {
    let (u, v) = dec2(pixel);
    let x_dist = (u - dec(calibration.cx)) / dec(calibration.fx);
    let y_dist = (v - dec(calibration.cy)) / dec(calibration.fy);
    enc2((x_dist, y_dist))
}

fn ray(point: (Binary64, Binary64)) -> (Binary64, Binary64, Binary64) {
    let (x_norm, y_norm) = dec2(point);
    let v = Vector3::new(x_norm, y_norm, 1.0).normalize();
    (enc(v.x), enc(v.y), enc(v.z))
}

fn project<C: CameraModel>(camera: &C, point: &Vector3<f64>) -> Option<(f64, f64)> {
    camera
        .project(
            (enc(point.x), enc(point.y), enc(point.z)),
            normalize_point,
            radius,
            formula,
            to_pixel,
        )
        .map(dec2)
}

fn unproject<C: CameraModel>(
    camera: &C,
    pixel: (f64, f64),
) -> Result<Vector3<f64>, DistortionError> {
    let (x, y, z) = camera.unproject(enc2(pixel), normalize, radius, formula, subtract, shift, solve, ray)?;
    Ok(Vector3::new(dec(x), dec(y), dec(z)))
}

fn pinhole_ideal(w: usize, h: usize, fx: f64, fy: f64, cx: f64, cy: f64) -> PinholeCamera {
    PinholeCamera::new_ideal(w, h, enc(fx), enc(fy), enc(cx), enc(cy))
}

fn pinhole_project(camera: &PinholeCamera, point: &Vector3<f64>) -> Option<(f64, f64)> {
    project(camera, point)
}

fn pinhole_unproject(
    camera: &PinholeCamera,
    pixel: (f64, f64),
) -> Result<Vector3<f64>, DistortionError> {
    unproject(camera, pixel)
}

#[allow(clippy::too_many_arguments)]
fn fisheye(
    w: usize,
    h: usize,
    fx: f64,
    fy: f64,
    cx: f64,
    cy: f64,
    k1: f64,
    k2: f64,
    k3: f64,
    k4: f64,
) -> FisheyeCamera {
    FisheyeCamera::new(
        w,
        h,
        enc(fx),
        enc(fy),
        enc(cx),
        enc(cy),
        enc(k1),
        enc(k2),
        enc(k3),
        enc(k4),
    )
}

fn fisheye_project(camera: &FisheyeCamera, point: &Vector3<f64>) -> Option<(f64, f64)> {
    project(camera, point)
}

fn fisheye_unproject(
    camera: &FisheyeCamera,
    pixel: (f64, f64),
) -> Result<Vector3<f64>, DistortionError> {
    unproject(camera, pixel)
}

#[derive(Debug, Clone, Copy)]
struct Lla {
    lat: f64,
    lon: f64,
    alt: f64,
}

fn to_lla(lla: LlaCoord) -> Lla {
    Lla { lat: dec(lla.lat), lon: dec(lla.lon), alt: dec(lla.alt) }
}

fn from_lla(lla: &Lla) -> LlaCoord {
    LlaCoord { lat: enc(lla.lat), lon: enc(lla.lon), alt: enc(lla.alt) }
}

fn to_point(v: &Vector3<f64>) -> EcefCoord {
    EcefCoord { x: enc(v.x), y: enc(v.y), z: enc(v.z) }
}

fn to_vector(p: EcefCoord) -> Vector3<f64> {
    Vector3::new(dec(p.x), dec(p.y), dec(p.z))
}

fn convert(lla: LlaCoord) -> EcefCoord {
    let a = f64::from_bits(WGS84_A);
    let e2 = f64::from_bits(WGS84_E2);
    let (lat, lon, alt) = (dec(lla.lat), dec(lla.lon), dec(lla.alt));
    let lat_rad = lat.to_radians();
    let lon_rad = lon.to_radians();
    let sin_lat = lat_rad.sin();
    let cos_lat = lat_rad.cos();
    let sin_lon = lon_rad.sin();
    let cos_lon = lon_rad.cos();
    let n = a / (1.0 - e2 * sin_lat * sin_lat).sqrt();
    let x = (n + alt) * cos_lat * cos_lon;
    let y = (n + alt) * cos_lat * sin_lon;
    let z = (n * (1.0 - e2) + alt) * sin_lat;
    EcefCoord { x: enc(x), y: enc(y), z: enc(z) }
}

fn seed(ecef: EcefCoord) -> (Binary64, Binary64) {
    let (x, y, z) = (dec(ecef.x), dec(ecef.y), dec(ecef.z));
    let p = (x * x + y * y).sqrt();
    (enc((z / p).atan()), enc(0.0))
}

fn refine(ecef: EcefCoord, estimate: (Binary64, Binary64)) -> (Binary64, Binary64) {
    let a = f64::from_bits(WGS84_A);
    let e2 = f64::from_bits(WGS84_E2);
    let (x, y, z) = (dec(ecef.x), dec(ecef.y), dec(ecef.z));
    let p = (x * x + y * y).sqrt();
    let lat = dec(estimate.0);
    let sin_lat = lat.sin();
    let n = a / (1.0 - e2 * sin_lat * sin_lat).sqrt();
    let alt = p / lat.cos() - n;
    let lat = (z / p / (1.0 - e2 * n / (n + alt))).atan();
    (enc(lat), enc(alt))
}

fn finish(ecef: EcefCoord, estimate: (Binary64, Binary64)) -> LlaCoord {
    let (x, y) = (dec(ecef.x), dec(ecef.y));
    let lon = y.atan2(x).to_degrees();
    LlaCoord { lat: enc(dec(estimate.0).to_degrees()), lon: enc(lon), alt: estimate.1 }
}

fn lla_to_ecef(lla: &Lla) -> Result<Vector3<f64>, RspError> {
    rsp::coordinate::lla_to_ecef(&from_lla(lla), convert).map(to_vector)
}

fn ecef_to_lla(ecef: &Vector3<f64>) -> Result<Lla, RspError> {
    rsp::coordinate::ecef_to_lla(&to_point(ecef), seed, refine, finish).map(to_lla)
}

fn multiply(a: Binary64, b: Binary64) -> Binary64 {
    enc(dec(a) * dec(b))
}

fn sum_up(a: Binary64, b: Binary64) -> Binary64 {
    enc(dec(a) + dec(b))
}

fn eval_polynomial(coeffs: &[Binary64; 20], p: f64, l: f64, h: f64) -> f64 {
    dec(rsp::sensor::rpc::eval_polynomial(coeffs, enc(p), enc(l), enc(h), multiply, sum_up))
}

fn rpc_normalize(c: RpcCoefficients, lla: LlaCoord) -> (Binary64, Binary64, Binary64) {
    let p = (dec(lla.lon) - dec(c.lon_off)) / dec(c.lon_scale);
    let l = (dec(lla.lat) - dec(c.lat_off)) / dec(c.lat_scale);
    let h = (dec(lla.alt) - dec(c.height_off)) / dec(c.height_scale);
    (enc(p), enc(l), enc(h))
}

fn denormalize(c: RpcCoefficients, r: Ratios) -> (Binary64, Binary64) {
    let line = dec(r.line_num) / dec(r.line_den) * dec(c.line_scale) + dec(c.line_off);
    let samp = dec(r.samp_num) / dec(r.samp_den) * dec(c.samp_scale) + dec(c.samp_off);
    enc2((line, samp))
}

fn lla_to_image(rpc: &RpcModel, lla: &Lla) -> Result<(f64, f64), RspError> {
    rpc.lla_to_image(&from_lla(lla), rpc_normalize, multiply, sum_up, denormalize).map(dec2)
}

fn image_to_lla(rpc: &RpcModel, line: f64, sample: f64, height: f64) -> Result<Lla, RspError> {
    rpc.image_to_lla(
        enc(line),
        enc(sample),
        enc(height),
        rpc_normalize,
        multiply,
        sum_up,
        denormalize,
        subtract,
        solve,
    )
    .map(to_lla)
}

fn ground_to_image(rpc: &RpcModel, ecef: &Vector3<f64>) -> Result<(f64, f64), RspError> {
    rpc.ground_to_image(
        &to_point(ecef),
        seed,
        refine,
        finish,
        rpc_normalize,
        multiply,
        sum_up,
        denormalize,
    )
    .map(dec2)
}

fn image_to_ground(
    rpc: &RpcModel,
    line: f64,
    sample: f64,
    height: f64,
) -> Result<Vector3<f64>, RspError> {
    rpc.image_to_ground(
        enc(line),
        enc(sample),
        enc(height),
        rpc_normalize,
        multiply,
        sum_up,
        denormalize,
        subtract,
        solve,
        convert,
    )
    .map(to_vector)
}

fn create_simple_rpc() -> RpcCoefficients {
    let zero = enc(0.0);
    let mut coeffs = RpcCoefficients {
        line_num_coeff: [zero; 20],
        line_den_coeff: [zero; 20],
        samp_num_coeff: [zero; 20],
        samp_den_coeff: [zero; 20],
        lat_off: enc(39.0),
        lat_scale: enc(1.0),
        lon_off: enc(-77.0),
        lon_scale: enc(1.0),
        height_off: enc(100.0),
        height_scale: enc(500.0),
        line_off: enc(5000.0),
        line_scale: enc(5000.0),
        samp_off: enc(5000.0),
        samp_scale: enc(5000.0),
    };

    // Simple linear RPC (just for testing)
    coeffs.line_num_coeff[1] = enc(1.0); // lat term
    coeffs.line_den_coeff[0] = enc(1.0);
    coeffs.samp_num_coeff[2] = enc(1.0); // lon term
    coeffs.samp_den_coeff[0] = enc(1.0);

    coeffs
}

// ---- distortion ----

#[test]
fn none_round_trip() {
    let m = DistortionModel::Ideal;
    let (x, y) = (0.123, -0.456);
    let (xd, yd) = distort(&m, x, y);
    let (xu, yu) = undistort(&m, xd, yd).unwrap();
    assert!((x - xu).abs() < 1e-12);
    assert!((y - yu).abs() < 1e-12);
}

#[test]
fn brown_conrady_round_trip() {
    let m = DistortionModel::BrownConrady {
        k1: enc(-0.1),
        k2: enc(0.01),
        k3: enc(0.0),
        p1: enc(0.001),
        p2: enc(-0.001),
    };
    let (x, y) = (0.2, -0.15);
    let (xd, yd) = distort(&m, x, y);
    let (xu, yu) = undistort(&m, xd, yd).unwrap();
    assert!((x - xu).abs() < 1e-6);
    assert!((y - yu).abs() < 1e-6);
}

#[test]
fn fisheye_round_trip() {
    let m = DistortionModel::Fisheye { k1: enc(0.01), k2: enc(0.001), k3: enc(0.0), k4: enc(0.0) };
    let (x, y) = (0.3, 0.1);
    let (xd, yd) = distort(&m, x, y);
    let (xu, yu) = undistort(&m, xd, yd).unwrap();
    assert!((x - xu).abs() < 1e-6);
    assert!((y - yu).abs() < 1e-6);
}

#[test]
fn signals_non_convergence() {
    let m = DistortionModel::BrownConrady {
        k1: enc(1e6),
        k2: enc(1e6),
        k3: enc(1e6),
        p1: enc(1.0),
        p2: enc(-1.0),
    };

    let res = undistort(&m, 10.0, 10.0);
    assert!(matches!(res, Err(DistortionError::NonConvergent)));
}

#[test]
fn non_convergence_comes_after_exactly_ten_iterations() {
    let m = DistortionModel::BrownConrady {
        k1: enc(1e6),
        k2: enc(1e6),
        k3: enc(1e6),
        p1: enc(1.0),
        p2: enc(-1.0),
    };
    let (res, residuals, steps) = undistort_counted(&m, 10.0, 10.0);
    assert!(matches!(res, Err(DistortionError::NonConvergent)));
    assert_eq!(residuals, 10);
    assert_eq!(steps, 10);
    assert_eq!(UNDISTORT_ITERATIONS, 10);
}

#[test]
fn ideal_model_needs_no_arithmetic() {
    let m = DistortionModel::Ideal;
    assert!(m.is_identity());
    let (res, residuals, steps) = undistort_counted(&m, 3.25, -7.5);
    assert_eq!(res, Ok((3.25, -7.5)));
    assert_eq!((residuals, steps), (0, 0));
    // `formula` panics for the ideal model: it is not asked.
    assert_eq!(distort(&m, 3.25, -7.5), (3.25, -7.5));
}

#[test]
fn inversion_starts_at_the_distorted_point() {
    let m = DistortionModel::BrownConrady {
        k1: enc(0.0),
        k2: enc(0.0),
        k3: enc(0.0),
        p1: enc(0.0),
        p2: enc(0.0),
    };
    assert!(!m.is_identity());
    let seen = RefCell::new(Vec::new());
    let result = m.undistort(
        enc(0.25),
        enc(-0.125),
        radius,
        |_, estimate| {
            seen.borrow_mut().push(format!("distort {:?}", dec2(estimate)));
            enc2((7.0, 8.0))
        },
        |target, distorted| {
            seen.borrow_mut().push(format!("subtract {:?} {:?}", dec2(target), dec2(distorted)));
            enc2((0.0, 0.0))
        },
        shift,
        solve,
    );
    // The residual is made of the distorted point and the distortion of the estimate.
    assert_eq!(
        *seen.borrow(),
        vec![
            "distort (0.25, -0.125)".to_string(),
            "subtract (0.25, -0.125) (7.0, 8.0)".to_string()
        ]
    );
    // A residual of zero is within tolerance: the first estimate is the answer.
    assert_eq!(result.map(dec2), Ok((0.25, -0.125)));
}

#[test]
fn residual_tolerances_are_asymmetric() {
    let m = DistortionModel::Fisheye { k1: enc(0.0), k2: enc(0.0), k3: enc(0.0), k4: enc(0.0) };
    let accepts = |rx: f64, ry: f64| {
        let result = m.undistort(
            enc(1.0),
            enc(2.0),
            radius,
            formula,
            |_, _| enc2((rx, ry)),
            shift,
            stalled(0.0),
        );
        match result {
            Ok(point) => {
                assert_eq!(dec2(point), (1.0, 2.0));
                true
            }
            Err(error) => {
                assert_eq!(error, DistortionError::SingularJacobian);
                false
            }
        }
    };
    // 5e-9 is within the tolerance in x but not within the one in y.
    assert!(accepts(5e-9, 5e-11));
    assert!(accepts(-5e-9, -5e-11));
    assert!(!accepts(5e-11, 5e-9));
    // The tolerances themselves are not within tolerance.
    assert!(!accepts(1e-8, 0.0));
    assert!(!accepts(0.0, 1e-10));
    assert!(accepts(9.999999e-9, 9.999999e-11));
    // A NaN residual is never accepted.
    assert!(!accepts(f64::NAN, 0.0));
    assert!(!accepts(0.0, f64::NAN));
}

#[test]
fn singular_jacobian_is_detected() {
    let m = DistortionModel::BrownConrady {
        k1: enc(0.0),
        k2: enc(0.0),
        k3: enc(0.0),
        p1: enc(0.0),
        p2: enc(0.0),
    };
    // The determinant that the arithmetic reports at the given iteration, 1.0 before it.
    let run = |at: usize, determinant: f64| {
        let steps = Cell::new(0);
        let result = m.undistort(
            enc(1.0),
            enc(2.0),
            radius,
            formula,
            |_, _| enc2((1.0, 1.0)),
            shift,
            |_, _, _, _, _| {
                let taken = steps.get();
                steps.set(taken + 1);
                (enc(if taken == at { determinant } else { 1.0 }), enc2((0.0, 0.0)))
            },
        );
        (result.map(dec2), steps.get())
    };
    assert_eq!(run(0, 0.0), (Err(DistortionError::SingularJacobian), 1));
    assert_eq!(run(0, -9.9e-19), (Err(DistortionError::SingularJacobian), 1));
    assert_eq!(run(3, 9.9e-19), (Err(DistortionError::SingularJacobian), 4));
    // 1e-18 itself is not singular, nor is a NaN.
    assert_eq!(run(0, 1e-18), (Err(DistortionError::NonConvergent), 10));
    assert_eq!(run(0, f64::NAN), (Err(DistortionError::NonConvergent), 10));
    // On the last iteration of the budget a singular Jacobian still comes first.
    assert_eq!(run(9, 0.0), (Err(DistortionError::SingularJacobian), 10));
    assert_eq!(run(10, 0.0), (Err(DistortionError::NonConvergent), 10));
}

#[test]
fn nan_coefficients_use_up_the_budget() {
    // NaN coefficients give NaN residuals and determinants: never accepted, never singular.
    let m = DistortionModel::Fisheye {
        k1: enc(f64::NAN),
        k2: enc(0.0),
        k3: enc(0.0),
        k4: enc(0.0),
    };
    let (res, residuals, steps) = undistort_counted(&m, 0.5, 0.5);
    assert!(matches!(res, Err(DistortionError::NonConvergent)));
    assert_eq!((residuals, steps), (10, 10));
}

#[test]
fn convergence_stops_the_iteration() {
    let m = DistortionModel::BrownConrady {
        k1: enc(-0.1),
        k2: enc(0.01),
        k3: enc(0.0),
        p1: enc(0.001),
        p2: enc(-0.001),
    };
    let (xd, yd) = distort(&m, 0.2, -0.15);
    let (res, residuals, steps) = undistort_counted(&m, xd, yd);
    assert!(res.is_ok());
    // The residual that is within tolerance is the last thing asked for.
    assert_eq!(residuals, steps + 1);
    assert!(residuals <= 10);
    assert!(residuals >= 2);
}

#[test]
fn fisheye_leaves_points_on_the_axis() {
    let m = DistortionModel::Fisheye { k1: enc(0.5), k2: enc(0.5), k3: enc(0.5), k4: enc(0.5) };
    assert_eq!(distort(&m, 0.0, 0.0), (0.0, 0.0));
    assert_eq!(distort(&m, 5e-9, 0.0), (5e-9, 0.0));
    assert!(DistortionModel::near_axis(enc(9.99e-9)));
    assert!(!DistortionModel::near_axis(enc(1e-8)));
    assert!(!DistortionModel::near_axis(enc(f64::NAN)));
    // The rule goes by the distance that the arithmetic gives, and the formula is asked
    // exactly if that is not below 1e-8.
    for (distance, unchanged) in
        [(0.0, true), (9.99e-9, true), (1e-8, false), (0.5, false), (f64::NAN, false)]
    {
        let asked = Cell::new(false);
        let out = m.distort(
            enc(3.0),
            enc(4.0),
            |_| enc(distance),
            |_, _| {
                asked.set(true);
                enc2((30.0, 40.0))
            },
        );
        assert_eq!(asked.get(), !unchanged, "distance {:?}", distance);
        assert_eq!(dec2(out), if unchanged { (3.0, 4.0) } else { (30.0, 40.0) });
    }
    // The other models do not ask for the distance.
    let brown = DistortionModel::BrownConrady {
        k1: enc(0.0),
        k2: enc(0.0),
        k3: enc(0.0),
        p1: enc(0.0),
        p2: enc(0.0),
    };
    let out = brown.distort(enc(0.0), enc(0.0), |_| panic!("not asked"), |_, _| enc2((1.0, 2.0)));
    assert_eq!(dec2(out), (1.0, 2.0));
    let out = DistortionModel::Ideal.distort(
        enc(5.0),
        enc(6.0),
        |_| panic!("not asked"),
        |_, _| panic!("not asked"),
    );
    assert_eq!(dec2(out), (5.0, 6.0));
}

#[test]
fn fisheye_camera_maps_the_axis_to_the_principal_point() {
    for k in [0.0, -0.1, 7.5] {
        let camera = fisheye(1920, 1080, 800.0, 800.0, 960.0, 540.0, k, k, k, k);
        for depth in [1.0, 1e-3, 1e9] {
            let pixel = fisheye_project(&camera, &Vector3::new(0.0, 0.0, depth));
            assert_eq!(pixel, Some((960.0, 540.0)));
        }
        // A point so near the axis that its radius is below 1e-8 is passed through as well.
        let pixel = fisheye_project(&camera, &Vector3::new(4e-9, -3e-9, 1.0)).unwrap();
        assert_eq!(pixel, (800.0 * 4e-9 + 960.0, 800.0 * -3e-9 + 540.0));
    }
}

#[test]
fn brown_conrady_exact_value() {
    // r2 = 0.25, radial = 1 + 0.5*0.25 = 1.125; p1 = p2 = 0:
    let m = DistortionModel::BrownConrady {
        k1: enc(0.5),
        k2: enc(0.0),
        k3: enc(0.0),
        p1: enc(0.0),
        p2: enc(0.0),
    };
    assert_eq!(distort(&m, 0.5, 0.0), (0.5625, 0.0));
    // Tangential only: x_d = x + p2*(r2 + 2x^2) = 0.5 + 0.25*(0.25 + 0.5) = 0.6875
    let m = DistortionModel::BrownConrady {
        k1: enc(0.0),
        k2: enc(0.0),
        k3: enc(0.0),
        p1: enc(0.0),
        p2: enc(0.25),
    };
    assert_eq!(distort(&m, 0.5, 0.0), (0.6875, 0.0));
}

#[test]
fn undistort_policy_holds_the_documented_constants() {
    let policy: NewtonPolicy = inversion_policy();
    assert_eq!(policy.max_iterations, 10);
    assert_eq!(dec(policy.first_tolerance), 1e-8);
    assert_eq!(dec(policy.second_tolerance), 1e-10);
    assert_eq!(dec(policy.min_determinant), 1e-18);
    assert_eq!(dec(difference_step()), 1e-6);
}

// ---- the Newton iteration itself ----

#[test]
fn newton_budget_is_never_exceeded() {
    let policy = NewtonPolicy {
        max_iterations: 4,
        first_tolerance: enc(1e-3),
        second_tolerance: enc(1e-3),
        min_determinant: enc(1e-9),
    };
    let mut state = policy.start();
    let mut steps = 0;
    loop {
        assert!(policy.allows(state));
        match policy.on_residual(state, enc(1.0), enc(1.0)) {
            NewtonVerdict::Continue(same) => assert_eq!(same.iteration, state.iteration),
            other => panic!("unexpected answer: {:?}", other),
        }
        match policy.on_determinant(state, enc(2.0)) {
            NewtonVerdict::Continue(next) => {
                assert_eq!(next.iteration, state.iteration + 1);
                state = next;
                steps += 1;
            }
            NewtonVerdict::Exhausted { iterations } => {
                assert_eq!(iterations, 4);
                break;
            }
            other => panic!("unexpected answer: {:?}", other),
        }
    }
    assert_eq!(steps, 3);
    // A state beyond the budget is exhausted at once.
    let beyond = NewtonState { iteration: 17 };
    assert!(!policy.allows(beyond));
    assert!(matches!(
        policy.on_determinant(beyond, enc(2.0)),
        NewtonVerdict::Exhausted { iterations: 4 }
    ));
    let none = NewtonPolicy { max_iterations: 0, ..policy };
    assert!(!none.allows(none.start()));
    assert!(matches!(
        none.on_determinant(none.start(), enc(2.0)),
        NewtonVerdict::Exhausted { iterations: 0 }
    ));
}

#[test]
fn newton_reports_the_iteration_of_a_singular_jacobian() {
    let policy = RpcModel::inversion_policy();
    let state = NewtonState { iteration: 5 };
    assert!(matches!(
        policy.on_determinant(state, enc(1e-11)),
        NewtonVerdict::Singular { iteration: 5 }
    ));
    assert!(matches!(policy.on_residual(state, enc(9e-7), enc(-9e-7)), NewtonVerdict::Converged));
    assert!(matches!(
        policy.on_residual(state, enc(9e-7), enc(1e-6)),
        NewtonVerdict::Continue(NewtonState { iteration: 5 })
    ));
}

// ---- fisheye camera ----

#[test]
fn test_fisheye_construction() {
    let camera = fisheye(1920, 1080, 800.0, 800.0, 960.0, 540.0, -0.1, 0.05, -0.01, 0.001);

    let (w, h) = camera.image_size();
    assert_eq!(w, 1920);
    assert_eq!(h, 1080);
}

#[test]
fn test_fisheye_center_projection() {
    let camera = fisheye(1920, 1080, 800.0, 800.0, 960.0, 540.0, 0.0, 0.0, 0.0, 0.0);

    // Test center point
    let point = Vector3::new(0.0, 0.0, 1.0);
    let pixel = fisheye_project(&camera, &point).unwrap();

    // Should be close to principal point
    assert!((pixel.0 - 960.0).abs() < 1e-3);
    assert!((pixel.1 - 540.0).abs() < 1e-3);
}

#[test]
fn test_fisheye_behind_camera() {
    let camera = fisheye(1920, 1080, 800.0, 800.0, 960.0, 540.0, -0.1, 0.05, -0.01, 0.001);

    // Point behind camera
    let point = Vector3::new(0.0, 0.0, -1.0);
    let result = fisheye_project(&camera, &point);
    assert!(result.is_none());
}

#[test]
fn test_fisheye_unproject() {
    let camera = fisheye(1920, 1080, 800.0, 800.0, 960.0, 540.0, 0.0, 0.0, 0.0, 0.0);

    // Unproject center pixel
    let ray = fisheye_unproject(&camera, (960.0, 540.0)).unwrap();

    // Ray should be normalized and pointing forward
    assert!((ray.norm() - 1.0).abs() < 1e-6);
    assert!(ray.z > 0.0);
}

#[test]
fn test_fisheye_roundtrip_no_distortion() {
    let camera = fisheye(1920, 1080, 800.0, 800.0, 960.0, 540.0, 0.0, 0.0, 0.0, 0.0);

    let point = Vector3::new(0.5, 0.3, 2.0);
    let pixel = fisheye_project(&camera, &point).unwrap();
    let ray = fisheye_unproject(&camera, pixel).unwrap();

    // Ray direction should be parallel to original point
    let original_normalized = point.normalize();
    let dot = ray.dot(&original_normalized);
    assert!((dot - 1.0).abs() < 1e-6);
}

#[test]
fn test_fisheye_with_distortion() {
    let camera = fisheye(1920, 1080, 800.0, 800.0, 960.0, 540.0, -0.1, 0.05, -0.01, 0.001);

    // Test that distortion has some effect
    let point = Vector3::new(0.5, 0.3, 1.0);
    let pixel = fisheye_project(&camera, &point);
    assert!(pixel.is_some());

    let (u, v) = pixel.unwrap();
    assert!(u > 0.0 && u < 1920.0);
    assert!(v > 0.0 && v < 1080.0);
}

#[test]
fn test_fisheye_wide_angle() {
    let camera = fisheye(1920, 1080, 800.0, 800.0, 960.0, 540.0, -0.1, 0.05, -0.01, 0.001);

    // Fisheye cameras can handle wide angles
    let point = Vector3::new(1.5, 1.0, 1.0);
    let pixel = fisheye_project(&camera, &point);
    assert!(pixel.is_some());
}

#[test]
fn test_fisheye_image_size() {
    let camera = fisheye(2560, 1440, 1000.0, 1000.0, 1280.0, 720.0, -0.1, 0.05, -0.01, 0.001);

    let (w, h) = camera.image_size();
    assert_eq!(w, 2560);
    assert_eq!(h, 1440);
}

#[test]
fn fisheye_keeps_its_calibration() {
    let camera = fisheye(2560, 1440, 1000.5, 1001.5, 1280.25, 720.75, -0.1, 0.05, -0.01, 0.001);
    let (fx, fy) = camera.focal_length();
    let (cx, cy) = camera.principal_point();
    assert_eq!((dec(fx), dec(fy)), (1000.5, 1001.5));
    assert_eq!((dec(cx), dec(cy)), (1280.25, 720.75));
    match camera.parameters().distortion {
        DistortionModel::Fisheye { k1, k2, k3, k4 } => {
            assert_eq!((dec(k1), dec(k2), dec(k3), dec(k4)), (-0.1, 0.05, -0.01, 0.001))
        }
        other => panic!("unexpected model: {:?}", other),
    }
    assert!(camera.parameters().is_valid());
}

// ---- pinhole camera ----

#[test]
fn test_pinhole_ideal_projection() {
    let camera = pinhole_ideal(1920, 1080, 1000.0, 1000.0, 960.0, 540.0);

    // Test center point
    let point = Vector3::new(0.0, 0.0, 1.0);
    let pixel = pinhole_project(&camera, &point).unwrap();
    assert!((pixel.0 - 960.0).abs() < 1e-6);
    assert!((pixel.1 - 540.0).abs() < 1e-6);
}

#[test]
fn test_pinhole_ideal_offset_projection() {
    let camera = pinhole_ideal(1920, 1080, 1000.0, 1000.0, 960.0, 540.0);

    // Test offset point
    let point = Vector3::new(0.5, 0.3, 1.0);
    let pixel = pinhole_project(&camera, &point).unwrap();
    assert!((pixel.0 - 1460.0).abs() < 1e-6); // 960 + 1000 * 0.5
    assert!((pixel.1 - 840.0).abs() < 1e-6); // 540 + 1000 * 0.3
}

#[test]
fn test_pinhole_behind_camera() {
    let camera = pinhole_ideal(1920, 1080, 1000.0, 1000.0, 960.0, 540.0);

    // Point behind camera (negative Z)
    let point = Vector3::new(0.0, 0.0, -1.0);
    let result = pinhole_project(&camera, &point);
    assert!(result.is_none());
}

#[test]
fn test_pinhole_at_camera() {
    let camera = pinhole_ideal(1920, 1080, 1000.0, 1000.0, 960.0, 540.0);

    // Point at camera origin (Z = 0)
    let point = Vector3::new(0.0, 0.0, 0.0);
    let result = pinhole_project(&camera, &point);
    assert!(result.is_none());
}

#[test]
fn test_pinhole_unproject() {
    let camera = pinhole_ideal(1920, 1080, 1000.0, 1000.0, 960.0, 540.0);

    // Unproject center pixel
    let ray = pinhole_unproject(&camera, (960.0, 540.0)).unwrap();

    // Ray should be normalized and pointing forward
    assert!((ray.norm() - 1.0).abs() < 1e-6);
    assert!(ray.z > 0.0);
    assert!(ray.x.abs() < 1e-6);
    assert!(ray.y.abs() < 1e-6);
}

#[test]
fn test_pinhole_roundtrip() {
    let camera = pinhole_ideal(1920, 1080, 1000.0, 1000.0, 960.0, 540.0);

    // Test roundtrip: project then unproject
    let point = Vector3::new(0.5, 0.3, 2.0);
    let pixel = pinhole_project(&camera, &point).unwrap();
    let ray = pinhole_unproject(&camera, pixel).unwrap();

    // Ray direction should be parallel to original point
    let original_normalized = point.normalize();
    let dot = ray.dot(&original_normalized);
    assert!((dot - 1.0).abs() < 1e-6);
}

#[test]
fn test_pinhole_brown_conrady() {
    let camera = PinholeCamera::new_brown_conrady(
        1920,
        1080,
        enc(1000.0),
        enc(1000.0),
        enc(960.0),
        enc(540.0),
        enc(-0.1),
        enc(0.05),
        enc(0.0), // Radial distortion
        enc(0.001),
        enc(-0.001), // Tangential distortion
    );

    // Test that distortion has some effect
    let point = Vector3::new(0.5, 0.3, 1.0);
    let pixel = pinhole_project(&camera, &point).unwrap();

    // Pixel should be different from ideal case due to distortion
    // (exact values depend on distortion model)
    assert!(pixel.0 > 0.0 && pixel.0 < 1920.0);
    assert!(pixel.1 > 0.0 && pixel.1 < 1080.0);
}

#[test]
fn test_pinhole_focal_length() {
    let camera = pinhole_ideal(1920, 1080, 1234.5, 1234.6, 960.0, 540.0);
    let (fx, fy) = camera.focal_length();
    assert_eq!(dec(fx), 1234.5);
    assert_eq!(dec(fy), 1234.6);
}

#[test]
fn test_pinhole_principal_point() {
    let camera = pinhole_ideal(1920, 1080, 1000.0, 1000.0, 960.5, 540.3);
    let (cx, cy) = camera.principal_point();
    assert_eq!(dec(cx), 960.5);
    assert_eq!(dec(cy), 540.3);
}

#[test]
fn test_pinhole_image_size() {
    let camera = pinhole_ideal(1920, 1080, 1000.0, 1000.0, 960.0, 540.0);
    let (w, h) = camera.image_size();
    assert_eq!(w, 1920);
    assert_eq!(h, 1080);
}

#[test]
fn test_pinhole_different_focal_lengths() {
    let camera = pinhole_ideal(1920, 1080, 1000.0, 1500.0, 960.0, 540.0);

    let point = Vector3::new(1.0, 1.0, 1.0);
    let pixel = pinhole_project(&camera, &point).unwrap();

    // With different fx and fy, scaling should differ
    assert!((pixel.0 - 1960.0).abs() < 1e-6); // 960 + 1000 * 1.0
    assert!((pixel.1 - 2040.0).abs() < 1e-6); // 540 + 1500 * 1.0
}

#[test]
fn test_pinhole_extreme_angles() {
    let camera = pinhole_ideal(1920, 1080, 1000.0, 1000.0, 960.0, 540.0);

    // Test extreme viewing angle
    let point = Vector3::new(5.0, 0.0, 1.0);
    let pixel = pinhole_project(&camera, &point);
    assert!(pixel.is_some());

    // Should be far from center
    let (u, _) = pixel.unwrap();
    assert!(u > 2000.0);
}

#[test]
fn cameras_see_exactly_the_points_in_front() {
    let pinhole = pinhole_ideal(1920, 1080, 1000.0, 1000.0, 960.0, 540.0);
    let fish = fisheye(1920, 1080, 800.0, 800.0, 960.0, 540.0, 0.0, 0.0, 0.0, 0.0);
    let depths: Vec<f64> = vec![
        f64::NEG_INFINITY,
        -1e300,
        -1.0,
        -f64::MIN_POSITIVE,
        -f64::from_bits(1),
        -0.0,
        0.0,
        f64::from_bits(1),
        f64::MIN_POSITIVE,
        1.0,
        1e300,
        f64::INFINITY,
        f64::NAN,
    ];
    for z in depths {
        let expected = !(z <= 0.0);
        assert_eq!(is_in_front(enc(z)), expected, "depth {:?}", z);
        let point = Vector3::new(0.25, -0.5, z);
        assert_eq!(pinhole_project(&pinhole, &point).is_some(), expected, "depth {:?}", z);
        assert_eq!(fisheye_project(&fish, &point).is_some(), expected, "depth {:?}", z);
        // The arithmetic is asked exactly for the points in front.
        let asked = Cell::new(false);
        let pixel = pinhole.project(
            (enc(0.25), enc(-0.5), enc(z)),
            |_| {
                asked.set(true);
                enc2((1.5, 2.5))
            },
            radius,
            formula,
            |_, distorted| distorted,
        );
        assert_eq!(asked.get(), expected);
        assert_eq!(pixel.map(dec2), if expected { Some((1.5, 2.5)) } else { None });
    }
}

#[test]
fn projection_normalizes_distorts_and_scales() {
    let camera = PinholeCamera::new_brown_conrady(
        640,
        480,
        enc(500.0),
        enc(501.0),
        enc(320.0),
        enc(240.0),
        enc(1.0),
        enc(2.0),
        enc(3.0),
        enc(4.0),
        enc(5.0),
    );
    let seen = RefCell::new(Vec::new());
    let pixel = camera.project(
        (enc(1.0), enc(2.0), enc(4.0)),
        |point| {
            seen.borrow_mut().push(format!("normalize {:?}", (dec(point.0), dec(point.1), dec(point.2))));
            enc2((10.0, 20.0))
        },
        |_| panic!("only the fisheye model asks for the radius"),
        |model, point| {
            let coefficients = match model {
                DistortionModel::BrownConrady { k1, k2, k3, p1, p2 } => {
                    (dec(k1), dec(k2), dec(k3), dec(p1), dec(p2))
                }
                other => panic!("unexpected model: {:?}", other),
            };
            seen.borrow_mut().push(format!("distort {:?} {:?}", coefficients, dec2(point)));
            enc2((30.0, 40.0))
        },
        |calibration, point| {
            seen.borrow_mut().push(format!(
                "scale {:?} {:?}",
                (
                    calibration.width,
                    calibration.height,
                    dec(calibration.fx),
                    dec(calibration.fy),
                    dec(calibration.cx),
                    dec(calibration.cy)
                ),
                dec2(point)
            ));
            enc2((50.0, 60.0))
        },
    );
    assert_eq!(pixel.map(dec2), Some((50.0, 60.0)));
    assert_eq!(
        *seen.borrow(),
        vec![
            "normalize (1.0, 2.0, 4.0)".to_string(),
            "distort (1.0, 2.0, 3.0, 4.0, 5.0) (10.0, 20.0)".to_string(),
            "scale (640, 480, 500.0, 501.0, 320.0, 240.0) (30.0, 40.0)".to_string(),
        ]
    );
    let parameters = camera.parameters();
    assert_eq!((parameters.width, parameters.height), (640, 480));
    // Without distortion the arithmetic of a distortion is not asked.
    let ideal = pinhole_ideal(640, 480, 500.0, 501.0, 320.0, 240.0);
    let pixel = ideal.project(
        (enc(1.0), enc(2.0), enc(4.0)),
        normalize_point,
        radius,
        |_, _| panic!("the ideal model has no formula"),
        to_pixel,
    );
    assert_eq!(pixel.map(dec2), Some((500.0 * 0.25 + 320.0, 501.0 * 0.5 + 240.0)));
}

#[test]
fn unprojection_hands_on_the_failure_of_the_inversion() {
    let camera = PinholeCamera::new_brown_conrady(
        1920,
        1080,
        enc(1000.0),
        enc(1000.0),
        enc(960.0),
        enc(540.0),
        enc(1e6),
        enc(1e6),
        enc(1e6),
        enc(1.0),
        enc(-1.0),
    );
    // The pixel whose distorted point is (10, 10).
    let result = pinhole_unproject(&camera, (10960.0, 10540.0));
    assert_eq!(result, Err(DistortionError::NonConvergent));
    let asked = Cell::new(false);
    let result = camera.unproject(
        enc2((10960.0, 10540.0)),
        normalize,
        radius,
        formula,
        subtract,
        shift,
        stalled(0.0),
        |point| {
            asked.set(true);
            ray(point)
        },
    );
    assert!(matches!(result, Err(DistortionError::SingularJacobian)));
    assert!(!asked.get());
}

#[test]
fn unprojected_rays_point_forward() {
    let camera = pinhole_ideal(1920, 1080, 1000.0, 1000.0, 960.0, 540.0);
    for pixel in [(0.0, 0.0), (1919.0, 1079.0), (-5000.0, 7000.0), (960.0, 540.0)] {
        let direction = pinhole_unproject(&camera, pixel).unwrap();
        assert!(direction.z > 0.0);
        assert!((direction.norm() - 1.0).abs() < 1e-12);
    }
}

#[test]
fn camera_validity() {
    let valid = |camera: PinholeCamera| camera.parameters().is_valid();
    assert!(valid(pinhole_ideal(1920, 1080, 1000.0, 1000.0, 960.0, 540.0)));
    assert!(!valid(pinhole_ideal(0, 1080, 1000.0, 1000.0, 960.0, 540.0)));
    assert!(!valid(pinhole_ideal(1920, 0, 1000.0, 1000.0, 960.0, 540.0)));
    assert!(!valid(pinhole_ideal(1920, 1080, 0.0, 1000.0, 960.0, 540.0)));
    assert!(!valid(pinhole_ideal(1920, 1080, 1000.0, -0.0, 960.0, 540.0)));
    assert!(valid(pinhole_ideal(1920, 1080, -1000.0, 1e-300, 0.0, 0.0)));
    assert!(!fisheye(1, 1, 0.0, 1.0, 0.0, 0.0, 0.0, 0.0, 0.0, 0.0).parameters().is_valid());
    assert!(fisheye(1, 1, 1.0, 1.0, 0.0, 0.0, 0.0, 0.0, 0.0, 0.0).parameters().is_valid());
}

#[test]
fn pinhole_keeps_its_distortion() {
    let ideal = pinhole_ideal(1920, 1080, 1000.0, 1000.0, 960.0, 540.0);
    assert!(matches!(ideal.parameters().distortion, DistortionModel::Ideal));
    let camera = PinholeCamera::new_brown_conrady(
        640,
        480,
        enc(500.0),
        enc(501.0),
        enc(320.0),
        enc(240.0),
        enc(1.0),
        enc(2.0),
        enc(3.0),
        enc(4.0),
        enc(5.0),
    );
    assert_eq!(camera.image_size(), (640, 480));
    match camera.parameters().distortion {
        DistortionModel::BrownConrady { k1, k2, k3, p1, p2 } => assert_eq!(
            (dec(k1), dec(k2), dec(k3), dec(p1), dec(p2)),
            (1.0, 2.0, 3.0, 4.0, 5.0)
        ),
        other => panic!("unexpected model: {:?}", other),
    }
}

// ---- coordinates ----

#[test]
fn test_lla_ecef_roundtrip() {
    let lla = Lla {
        lat: 38.8977, // Washington DC
        lon: -77.0365,
        alt: 100.0,
    };

    let ecef = lla_to_ecef(&lla).unwrap();
    let lla2 = ecef_to_lla(&ecef).unwrap();

    assert!((lla.lat - lla2.lat).abs() < 1e-6);
    assert!((lla.lon - lla2.lon).abs() < 1e-6);
    assert!((lla.alt - lla2.alt).abs() < 1e-3);
}

#[test]
fn test_equator_prime_meridian() {
    // Test point on equator at prime meridian
    let lla = Lla { lat: 0.0, lon: 0.0, alt: 0.0 };

    let ecef = lla_to_ecef(&lla).unwrap();

    // At equator, prime meridian: x should be ~semi-major axis, y and z should be ~0
    assert!((ecef.x - f64::from_bits(WGS84_A)).abs() < 1.0);
    assert!(ecef.y.abs() < 1.0);
    assert!(ecef.z.abs() < 1.0);

    // Round trip
    let lla2 = ecef_to_lla(&ecef).unwrap();
    assert!((lla.lat - lla2.lat).abs() < 1e-6);
    assert!((lla.lon - lla2.lon).abs() < 1e-6);
    assert!((lla.alt - lla2.alt).abs() < 1e-3);
}

#[test]
fn test_north_pole() {
    let lla = Lla { lat: 90.0, lon: 0.0, alt: 1000.0 };

    let ecef = lla_to_ecef(&lla).unwrap();
    let lla2 = ecef_to_lla(&ecef).unwrap();

    // At north pole, x and y should be very small, z should be large
    assert!(ecef.x.abs() < 1.0);
    assert!(ecef.y.abs() < 1.0);
    assert!(ecef.z > 6_000_000.0); // Should be ~6.36M meters

    assert!((lla.lat - lla2.lat).abs() < 1e-6);
    assert!((lla.alt - lla2.alt).abs() < 1e-3);
}

#[test]
fn test_south_pole() {
    let lla = Lla { lat: -90.0, lon: 0.0, alt: 1000.0 };

    let ecef = lla_to_ecef(&lla).unwrap();
    let lla2 = ecef_to_lla(&ecef).unwrap();

    // At south pole, x and y should be very small, z should be large negative
    assert!(ecef.x.abs() < 1.0);
    assert!(ecef.y.abs() < 1.0);
    assert!(ecef.z < -6_000_000.0);

    assert!((lla.lat - lla2.lat).abs() < 1e-6);
    assert!((lla.alt - lla2.alt).abs() < 1e-3);
}

#[test]
fn test_high_altitude() {
    let lla = Lla {
        lat: 45.0,
        lon: 90.0,
        alt: 500000.0, // 500km altitude (ISS orbit)
    };

    let ecef = lla_to_ecef(&lla).unwrap();
    let lla2 = ecef_to_lla(&ecef).unwrap();

    assert!((lla.lat - lla2.lat).abs() < 1e-6);
    assert!((lla.lon - lla2.lon).abs() < 1e-6);
    assert!((lla.alt - lla2.alt).abs() < 1e-1);
}

#[test]
fn test_negative_altitude() {
    // Dead Sea is about 430m below sea level
    let lla = Lla { lat: 31.5, lon: 35.5, alt: -430.0 };

    let ecef = lla_to_ecef(&lla).unwrap();
    let lla2 = ecef_to_lla(&ecef).unwrap();

    assert!((lla.lat - lla2.lat).abs() < 1e-6);
    assert!((lla.lon - lla2.lon).abs() < 1e-6);
    assert!((lla.alt - lla2.alt).abs() < 1e-3);
}

#[test]
fn test_invalid_latitude_positive() {
    let lla = Lla { lat: 95.0, lon: 0.0, alt: 0.0 };

    let result = lla_to_ecef(&lla);
    assert!(result.is_err());
    assert!(matches!(result.unwrap_err(), RspError::CoordinateTransform(_)));
}

#[test]
fn test_invalid_latitude_negative() {
    let lla = Lla { lat: -95.0, lon: 0.0, alt: 0.0 };

    let result = lla_to_ecef(&lla);
    assert!(result.is_err());
}

#[test]
fn test_longitude_wraparound() {
    // Longitude values outside [-180, 180] should still work
    // Testing 181 degrees (same as -179)
    let lla1 = Lla { lat: 40.0, lon: 181.0, alt: 100.0 };
    let lla2 = Lla { lat: 40.0, lon: -179.0, alt: 100.0 };

    let ecef1 = lla_to_ecef(&lla1).unwrap();
    let ecef2 = lla_to_ecef(&lla2).unwrap();

    // These should produce nearly identical ECEF coordinates
    assert!((ecef1.x - ecef2.x).abs() < 1.0);
    assert!((ecef1.y - ecef2.y).abs() < 1.0);
    assert!((ecef1.z - ecef2.z).abs() < 1.0);
}

#[test]
fn test_known_location_tokyo() {
    // Tokyo, Japan
    let lla = Lla { lat: 35.6762, lon: 139.6503, alt: 40.0 };

    let ecef = lla_to_ecef(&lla).unwrap();
    let lla2 = ecef_to_lla(&ecef).unwrap();

    assert!((lla.lat - lla2.lat).abs() < 1e-6);
    assert!((lla.lon - lla2.lon).abs() < 1e-6);
    assert!((lla.alt - lla2.alt).abs() < 1e-3);
}

#[test]
fn test_known_location_sydney() {
    // Sydney, Australia (Southern hemisphere)
    let lla = Lla { lat: -33.8688, lon: 151.2093, alt: 50.0 };

    let ecef = lla_to_ecef(&lla).unwrap();
    let lla2 = ecef_to_lla(&ecef).unwrap();

    assert!((lla.lat - lla2.lat).abs() < 1e-6);
    assert!((lla.lon - lla2.lon).abs() < 1e-6);
    assert!((lla.alt - lla2.alt).abs() < 1e-3);
}

#[test]
fn latitude_rule_at_the_edges() {
    for lat in [-90.0, -89.999, 0.0, -0.0, 45.0, 90.0] {
        assert!(check_latitude(enc(lat)).is_ok(), "latitude {:?}", lat);
    }
    for lat in [90.00000000000001, -90.00000000000001, 95.0, -95.0, 1e300, f64::INFINITY] {
        match check_latitude(enc(lat)) {
            Err(RspError::CoordinateTransform(CoordinateError::InvalidLatitude(v))) => {
                assert_eq!(dec(v), lat)
            }
            other => panic!("latitude {:?}: unexpected {:?}", lat, other),
        }
    }
    // A NaN is not within -90 and 90.
    match check_latitude(enc(f64::NAN)) {
        Err(RspError::CoordinateTransform(CoordinateError::InvalidLatitude(v))) => {
            assert!(dec(v).is_nan())
        }
        other => panic!("unexpected answer: {:?}", other),
    }
}

#[test]
fn points_on_the_polar_axis_are_refused() {
    // On the axis the refinement divides zero by zero: the latitude is no number.
    for point in [(0.0, 0.0, 1.0), (0.0, 0.0, 6_356_752.0), (0.0, 0.0, -6_356_752.0), (0.0, 0.0, 0.0)]
    {
        let result = ecef_to_lla(&Vector3::new(point.0, point.1, point.2));
        match result {
            Err(RspError::CoordinateTransform(CoordinateError::InvalidLatitude(v))) => {
                assert!(dec(v).is_nan(), "point {:?}", point)
            }
            other => panic!("point {:?}: unexpected {:?}", point, other),
        }
    }
    // A latitude that is no number is refused on the way in as well.
    let result = lla_to_ecef(&Lla { lat: f64::NAN, lon: 0.0, alt: 0.0 });
    assert!(matches!(
        result,
        Err(RspError::CoordinateTransform(CoordinateError::InvalidLatitude(_)))
    ));
}

#[test]
fn conversions_refuse_latitudes_out_of_range() {
    // The arithmetic is not asked for a coordinate that is refused.
    let asked = Cell::new(false);
    let out = LlaCoord { lat: enc(-91.0), lon: enc(0.0), alt: enc(0.0) };
    let result = rsp::coordinate::lla_to_ecef(&out, |lla| {
        asked.set(true);
        convert(lla)
    });
    match result {
        Err(RspError::CoordinateTransform(CoordinateError::InvalidLatitude(v))) => {
            assert_eq!(dec(v), -91.0)
        }
        other => panic!("unexpected answer: {:?}", other),
    }
    assert!(!asked.get());
    // A latitude that comes out of range is refused and quoted.
    let point = EcefCoord { x: enc(1.0), y: enc(2.0), z: enc(3.0) };
    let result = rsp::coordinate::ecef_to_lla(&point, seed, refine, |_, _| LlaCoord {
        lat: enc(90.5),
        lon: enc(0.0),
        alt: enc(0.0),
    });
    match result {
        Err(RspError::CoordinateTransform(CoordinateError::InvalidLatitude(v))) => {
            assert_eq!(dec(v), 90.5)
        }
        other => panic!("unexpected answer: {:?}", other),
    }
    // Any longitude is taken.
    let far = LlaCoord { lat: enc(12.5), lon: enc(400.0), alt: enc(-3.0) };
    assert!(rsp::coordinate::lla_to_ecef(&far, convert).is_ok());
}

#[test]
fn latitude_is_refined_exactly_ten_times() {
    let point = EcefCoord { x: enc(4.0e6), y: enc(3.0e6), z: enc(3.5e6) };
    let refinements = Cell::new(0);
    let last = Cell::new(None);
    let result = rsp::coordinate::ecef_to_lla(
        &point,
        |_| enc2((0.0, 0.0)),
        |_, estimate| {
            refinements.set(refinements.get() + 1);
            // Each refinement counts one up: the estimate shows how often it was refined.
            enc2((dec(estimate.0) + 1.0, dec(estimate.1) + 2.0))
        },
        |_, estimate| {
            last.set(Some(dec2(estimate)));
            LlaCoord { lat: estimate.0, lon: enc(7.0), alt: estimate.1 }
        },
    );
    assert_eq!(refinements.get(), 10);
    assert_eq!(last.get(), Some((10.0, 20.0)));
    let lla = result.unwrap();
    assert_eq!((dec(lla.lat), dec(lla.lon), dec(lla.alt)), (10.0, 7.0, 20.0));
}

#[test]
fn datum_constants() {
    assert_eq!(f64::from_bits(WGS84_A), 6378137.0);
    assert_eq!(f64::from_bits(WGS84_E2), 0.00669437999014);
    assert_eq!(f64::from_bits(rsp::coordinate::LATITUDE_MAX), 90.0);
    assert_eq!(f64::from_bits(rsp::coordinate::LATITUDE_MIN), -90.0);
    assert_eq!(GEODETIC_ITERATIONS, 10);
}

// ---- rational polynomials ----

#[test]
fn test_rpc_roundtrip() {
    let coeffs = create_simple_rpc();
    let rpc = RpcModel::new(coeffs);

    // Test forward projection
    let lla = Lla { lat: 39.1, lon: -76.9, alt: 100.0 };

    let (line, samp) = lla_to_image(&rpc, &lla).unwrap();

    // Test inverse projection (should get close to original)
    let lla2 = image_to_lla(&rpc, line, samp, 100.0).unwrap();

    assert!((lla.lat - lla2.lat).abs() < 1e-3);
    assert!((lla.lon - lla2.lon).abs() < 1e-3);
}

#[test]
fn test_rpc_ground_to_image() {
    let coeffs = create_simple_rpc();
    let rpc = RpcModel::new(coeffs);

    let lla = Lla { lat: 39.0, lon: -77.0, alt: 100.0 };

    // Convert to ECEF
    let ecef = lla_to_ecef(&lla).unwrap();

    // Project to image using ECEF
    let (line, samp) = ground_to_image(&rpc, &ecef).unwrap();

    // Verify it's in reasonable range
    assert!(line > 0.0);
    assert!(samp > 0.0);
}

#[test]
fn test_rpc_image_to_ground() {
    let coeffs = create_simple_rpc();
    let rpc = RpcModel::new(coeffs);

    let line = 5000.0;
    let samp = 5000.0;
    let height = 100.0;

    // This should converge to a point
    let result = image_to_ground(&rpc, line, samp, height);
    assert!(result.is_ok());

    let ecef = result.unwrap();
    // Verify it's a reasonable ECEF coordinate
    let magnitude = (ecef.x * ecef.x + ecef.y * ecef.y + ecef.z * ecef.z).sqrt();
    assert!(magnitude > 6_000_000.0); // Should be at least Earth radius
    assert!(magnitude < 7_000_000.0); // But not too far
}

#[test]
fn test_rpc_coefficients_access() {
    let coeffs = create_simple_rpc();
    let rpc = RpcModel::new(coeffs);

    let retrieved = rpc.coefficients();
    assert_eq!(dec(retrieved.lat_off), dec(coeffs.lat_off));
    assert_eq!(dec(retrieved.lon_off), dec(coeffs.lon_off));
    assert_eq!(dec(retrieved.height_off), dec(coeffs.height_off));
}

#[test]
fn test_rpc_multiple_points() {
    let coeffs = create_simple_rpc();
    let rpc = RpcModel::new(coeffs);

    let test_points = vec![
        Lla { lat: 38.8, lon: -77.1, alt: 100.0 },
        Lla { lat: 39.0, lon: -77.0, alt: 100.0 },
        Lla { lat: 39.2, lon: -76.9, alt: 100.0 },
    ];

    for lla in test_points {
        let (line, samp) = lla_to_image(&rpc, &lla).unwrap();
        let lla2 = image_to_lla(&rpc, line, samp, lla.alt).unwrap();

        assert!((lla.lat - lla2.lat).abs() < 1e-3);
        assert!((lla.lon - lla2.lon).abs() < 1e-3);
    }
}

#[test]
fn test_rpc_different_heights() {
    let coeffs = create_simple_rpc();
    let rpc = RpcModel::new(coeffs);

    let lat = 39.0;
    let lon = -77.0;
    let heights = vec![0.0, 100.0, 500.0, 1000.0];

    for height in heights {
        let lla = Lla { lat, lon, alt: height };
        let (line, samp) = lla_to_image(&rpc, &lla).unwrap();
        let lla2 = image_to_lla(&rpc, line, samp, height).unwrap();

        assert!((lla.lat - lla2.lat).abs() < 1e-3);
        assert!((lla.lon - lla2.lon).abs() < 1e-3);
    }
}

#[test]
fn test_eval_polynomial() {
    // Test polynomial evaluation with known values
    let values = [
        1.0, 2.0, 3.0, 4.0, 5.0, 6.0, 7.0, 8.0, 9.0, 10.0, 11.0, 12.0, 13.0, 14.0, 15.0, 16.0,
        17.0, 18.0, 19.0, 20.0,
    ];
    let coeffs = values.map(enc);

    let p = 0.0;
    let l = 0.0;
    let h = 0.0;

    // With all zeros, only constant term should contribute
    let result = eval_polynomial(&coeffs, p, l, h);
    assert_eq!(result, 1.0);
}

#[test]
fn test_rpc_normalization() {
    let coeffs = create_simple_rpc();
    let rpc = RpcModel::new(coeffs);

    // Test that coordinates near the offset work properly
    let lla = Lla {
        lat: 39.0,  // Equal to lat_off
        lon: -77.0, // Equal to lon_off
        alt: 100.0, // Equal to height_off
    };

    let result = lla_to_image(&rpc, &lla);
    assert!(result.is_ok());
}

#[test]
fn test_rpc_zero_denominator() {
    // Create RPC with potential zero denominator
    let mut coeffs = create_simple_rpc();

    // Set denominator coefficients to all zeros (which would cause division by zero)
    coeffs.line_den_coeff = [enc(0.0); 20];
    coeffs.samp_den_coeff = [enc(0.0); 20];

    let rpc = RpcModel::new(coeffs);

    let lla = Lla { lat: 39.0, lon: -77.0, alt: 100.0 };

    let result = lla_to_image(&rpc, &lla);
    assert!(result.is_err());
    assert!(matches!(result.unwrap_err(), RspError::Projection(ProjectionError::InvalidRpc)));
}

#[test]
fn polynomial_follows_the_basis_order() {
    // With p = 2, l = 3, h = 5 every monomial has its own value, so each coefficient alone
    // shows which monomial its index stands for.
    let (p, l, h) = (2.0, 3.0, 5.0);
    let expected = [
        1.0,
        l,
        p,
        h,
        l * p,
        l * h,
        p * h,
        l * l,
        p * p,
        h * h,
        p * l * h,
        l * l * l,
        l * p * p,
        l * h * h,
        l * l * p,
        p * p * p,
        p * h * h,
        l * l * h,
        p * p * h,
        h * h * h,
    ];
    for index in 0..20 {
        let mut coeffs = [enc(0.0); 20];
        coeffs[index] = enc(1.0);
        assert_eq!(eval_polynomial(&coeffs, p, l, h), expected[index], "term {}", index);
    }
    let all = [enc(1.0); 20];
    let sum: f64 = expected.iter().sum();
    assert_eq!(eval_polynomial(&all, p, l, h), sum);
}

#[test]
fn basis_terms_in_order() {
    assert_eq!(RPC_TERMS, 20);
    assert_eq!(basis_term(0), vec![]);
    assert_eq!(basis_term(1), vec![Axis::Lat]);
    assert_eq!(basis_term(2), vec![Axis::Lon]);
    assert_eq!(basis_term(3), vec![Axis::Height]);
    assert_eq!(basis_term(4), vec![Axis::Lat, Axis::Lon]);
    assert_eq!(basis_term(10), vec![Axis::Lon, Axis::Lat, Axis::Height]);
    assert_eq!(basis_term(12), vec![Axis::Lat, Axis::Lon, Axis::Lon]);
    assert_eq!(basis_term(14), vec![Axis::Lat, Axis::Lat, Axis::Lon]);
    assert_eq!(basis_term(19), vec![Axis::Height, Axis::Height, Axis::Height]);
    // Every monomial of degree at most three occurs once.
    let mut seen: Vec<(usize, usize, usize)> = Vec::new();
    for index in 0..RPC_TERMS {
        let factors = basis_term(index);
        assert!(factors.len() <= 3);
        let count = |axis: Axis| factors.iter().filter(|&&f| f == axis).count();
        let monomial = (count(Axis::Lat), count(Axis::Lon), count(Axis::Height));
        assert!(!seen.contains(&monomial), "term {} repeats a monomial", index);
        seen.push(monomial);
    }
    assert_eq!(seen.len(), 20);
}

#[test]
fn denominators_rule_at_the_edges() {
    assert!(RpcModel::check_denominators(enc(1.0), enc(1.0)).is_ok());
    assert!(RpcModel::check_denominators(enc(1e-10), enc(-1e-10)).is_ok());
    assert!(RpcModel::check_denominators(enc(f64::NAN), enc(1.0)).is_ok());
    for (line_den, samp_den) in [(0.0, 1.0), (1.0, 0.0), (9.9e-11, 1.0), (1.0, -9.9e-11)] {
        let result = RpcModel::check_denominators(enc(line_den), enc(samp_den));
        assert!(
            matches!(result, Err(RspError::Projection(ProjectionError::InvalidRpc))),
            "denominators {:?}, {:?}",
            line_den,
            samp_den
        );
    }
}

#[test]
fn inversion_starts_at_the_offsets() {
    let rpc = RpcModel::new(create_simple_rpc());
    let seen = RefCell::new(Vec::new());
    let result = rpc.image_to_lla(
        enc(1.0),
        enc(2.0),
        enc(250.0),
        |c, lla| {
            seen.borrow_mut().push(format!(
                "project {:?}",
                (dec(lla.lat), dec(lla.lon), dec(lla.alt))
            ));
            rpc_normalize(c, lla)
        },
        multiply,
        sum_up,
        |_, _| enc2((30.0, 40.0)),
        |target, projected| {
            seen.borrow_mut().push(format!("subtract {:?} {:?}", dec2(target), dec2(projected)));
            enc2((0.0, 0.0))
        },
        solve,
    );
    // The residual is made of the image coordinates and the projection of the estimate.
    assert_eq!(
        *seen.borrow(),
        vec![
            "project (39.0, -77.0, 250.0)".to_string(),
            "subtract (1.0, 2.0) (30.0, 40.0)".to_string()
        ]
    );
    let lla = result.unwrap();
    assert_eq!((dec(lla.lat), dec(lla.lon), dec(lla.alt)), (39.0, -77.0, 250.0));
    let policy = RpcModel::inversion_policy();
    assert_eq!(policy.max_iterations, 20);
    assert_eq!(INVERSION_ITERATIONS, 20);
    assert_eq!(dec(policy.first_tolerance), 1e-6);
    assert_eq!(dec(policy.second_tolerance), 1e-6);
    assert_eq!(dec(policy.min_determinant), 1e-10);
    assert_eq!(dec(RpcModel::difference_step()), 1e-7);
}

#[test]
fn inversion_failures_carry_the_iteration() {
    let rpc = RpcModel::new(create_simple_rpc());
    // The determinant that the arithmetic reports at the given iteration, 1.0 before it.
    let run = |at: usize, determinant: f64| {
        let steps = Cell::new(0);
        let result = rpc.image_to_lla(
            enc(1.0),
            enc(2.0),
            enc(0.0),
            rpc_normalize,
            multiply,
            sum_up,
            denormalize,
            |_, _| enc2((1.0, 1.0)),
            |_, _, _, _, _| {
                let taken = steps.get();
                steps.set(taken + 1);
                (enc(if taken == at { determinant } else { 1.0 }), enc2((0.0, 0.0)))
            },
        );
        match result {
            Err(RspError::Projection(ProjectionError::NoConvergence(n))) => (n, steps.get()),
            other => panic!("unexpected answer: {:?}", other),
        }
    };
    assert_eq!(run(0, 0.0), (0, 1));
    assert_eq!(run(4, 1e-11), (4, 5));
    assert_eq!(run(4, -9.9e-11), (4, 5));
    assert_eq!(run(19, 0.0), (19, 20));
    // 1e-10 itself is not singular: the budget runs out.
    assert_eq!(run(4, 1e-10), (20, 20));
    assert_eq!(run(20, 0.0), (20, 20));
    assert_eq!(run(0, f64::NAN), (20, 20));
}

#[test]
fn inversion_accepts_within_a_millionth() {
    let rpc = RpcModel::new(create_simple_rpc());
    let accepts = |line_err: f64, samp_err: f64| {
        let result = rpc.image_to_lla(
            enc(1.0),
            enc(2.0),
            enc(0.0),
            rpc_normalize,
            multiply,
            sum_up,
            denormalize,
            |_, _| enc2((line_err, samp_err)),
            stalled(0.0),
        );
        result.is_ok()
    };
    assert!(accepts(-9.9e-7, 9.9e-7));
    assert!(accepts(0.0, -0.0));
    assert!(!accepts(1e-6, 0.0));
    assert!(!accepts(0.0, -1e-6));
    assert!(!accepts(f64::NAN, 0.0));
}

#[test]
fn inversion_hands_on_the_failures_of_the_projection() {
    // A projection that fails ends the inversion with its error, before any subtraction.
    let mut coeffs = create_simple_rpc();
    coeffs.samp_den_coeff = [enc(0.0); 20];
    let rpc = RpcModel::new(coeffs);
    let result = rpc.image_to_lla(
        enc(1.0),
        enc(2.0),
        enc(0.0),
        rpc_normalize,
        multiply,
        sum_up,
        denormalize,
        |_, _| panic!("nothing to subtract"),
        solve,
    );
    assert!(matches!(result, Err(RspError::Projection(ProjectionError::InvalidRpc))));
    // So does one beside the estimate: the denominator vanishes only off the offsets.
    let mut coeffs = create_simple_rpc();
    coeffs.samp_den_coeff[0] = enc(0.0);
    coeffs.samp_den_coeff[1] = enc(1.0);
    coeffs.lat_off = enc(39.5);
    let rpc = RpcModel::new(coeffs);
    let asked = Cell::new(0);
    let result = rpc.image_to_lla(
        enc(1.0),
        enc(2.0),
        enc(0.0),
        |c, lla| {
            asked.set(asked.get() + 1);
            // The first estimate projects; the one beside it along the latitude does too;
            // the one beside it along the longitude is made to sit where the denominator is 0.
            let (p, l, h) = rpc_normalize(c, lla);
            if asked.get() == 3 {
                (p, enc(0.0), h)
            } else {
                (p, enc(dec(l) + 1.0), h)
            }
        },
        multiply,
        sum_up,
        denormalize,
        |_, _| enc2((1.0, 1.0)),
        |_, _, _, _, _| panic!("nothing to solve"),
    );
    assert!(matches!(result, Err(RspError::Projection(ProjectionError::InvalidRpc))));
    assert_eq!(asked.get(), 3);
}

#[test]
fn jacobians_are_estimated_by_forward_differences() {
    // The distortion is asked at the estimate, then 1e-6 beside it along x and along y.
    let m = DistortionModel::BrownConrady {
        k1: enc(0.0),
        k2: enc(0.0),
        k3: enc(0.0),
        p1: enc(0.0),
        p2: enc(0.0),
    };
    let places = RefCell::new(Vec::new());
    let handed = RefCell::new(Vec::new());
    let result = m.undistort(
        enc(0.25),
        enc(-0.5),
        radius,
        |_, point| {
            places.borrow_mut().push(dec2(point));
            enc2((dec(point.0) * 2.0, dec(point.1) * 4.0))
        },
        subtract,
        shift,
        |f, fx, fy, r, eps| {
            handed.borrow_mut().push((dec2(f), dec2(fx), dec2(fy), dec2(r), dec(eps)));
            (enc(0.0), enc2((0.0, 0.0)))
        },
    );
    assert_eq!(result.map(dec2), Err(DistortionError::SingularJacobian));
    assert_eq!(*places.borrow(), vec![(0.25, -0.5), (0.25 + 1e-6, -0.5), (0.25, -0.5 + 1e-6)]);
    assert_eq!(
        *handed.borrow(),
        vec![(
            (0.5, -2.0),
            ((0.25 + 1e-6) * 2.0, -2.0),
            (0.5, (-0.5 + 1e-6) * 4.0),
            (0.25 - 0.5, -0.5 + 2.0),
            1e-6
        )]
    );
    // The projection is asked at the estimate, then 1e-7 beside it along latitude and longitude.
    let rpc = RpcModel::new(create_simple_rpc());
    let places = RefCell::new(Vec::new());
    let handed = RefCell::new(Vec::new());
    let result = rpc.image_to_lla(
        enc(5100.0),
        enc(5200.0),
        enc(100.0),
        |c, lla| {
            places.borrow_mut().push((dec(lla.lat), dec(lla.lon), dec(lla.alt)));
            rpc_normalize(c, lla)
        },
        multiply,
        sum_up,
        denormalize,
        subtract,
        |f, at_lat, at_lon, r, delta| {
            handed.borrow_mut().push((dec2(f), dec2(at_lat), dec2(at_lon), dec2(r), dec(delta)));
            (enc(0.0), enc2((0.0, 0.0)))
        },
    );
    assert!(matches!(result, Err(RspError::Projection(ProjectionError::NoConvergence(0)))));
    assert_eq!(
        *places.borrow(),
        vec![(39.0, -77.0, 100.0), (39.0 + 1e-7, -77.0, 100.0), (39.0, -77.0 + 1e-7, 100.0)]
    );
    let rows = handed.borrow();
    assert_eq!(rows.len(), 1);
    assert_eq!(rows[0].0, (5000.0, 5000.0));
    assert_eq!(rows[0].3, (100.0, 200.0));
    assert_eq!(rows[0].4, 1e-7);
    assert!(rows[0].1 .0 > 5000.0 && rows[0].1 .1 == 5000.0);
    assert!(rows[0].2 .0 == 5000.0 && rows[0].2 .1 > 5000.0);
}

#[test]
fn compositions_hand_on_the_first_failure() {
    let rpc = RpcModel::new(create_simple_rpc());
    // A point whose latitude comes out of range never reaches the polynomials.
    let asked = Cell::new(false);
    let point = EcefCoord { x: enc(1.0), y: enc(2.0), z: enc(3.0) };
    let result = rpc.ground_to_image(
        &point,
        seed,
        refine,
        |_, _| LlaCoord { lat: enc(-100.0), lon: enc(0.0), alt: enc(0.0) },
        |c, lla| {
            asked.set(true);
            rpc_normalize(c, lla)
        },
        multiply,
        sum_up,
        denormalize,
    );
    assert!(matches!(
        result,
        Err(RspError::CoordinateTransform(CoordinateError::InvalidLatitude(_)))
    ));
    assert!(!asked.get());
    // An inversion that fails never reaches the datum.
    let asked = Cell::new(false);
    let result = rpc.image_to_ground(
        enc(1.0),
        enc(2.0),
        enc(0.0),
        rpc_normalize,
        multiply,
        sum_up,
        denormalize,
        |_, _| enc2((1.0, 1.0)),
        stalled(0.0),
        |lla| {
            asked.set(true);
            convert(lla)
        },
    );
    assert!(matches!(result, Err(RspError::Projection(ProjectionError::NoConvergence(0)))));
    assert!(!asked.get());
    // An inversion that ends out of range is refused by the datum.
    let moved = Cell::new(false);
    let result = rpc.image_to_ground(
        enc(1.0),
        enc(2.0),
        enc(0.0),
        rpc_normalize,
        multiply,
        sum_up,
        denormalize,
        |_, _| if moved.get() { enc2((0.0, 0.0)) } else { enc2((1.0, 1.0)) },
        |_, _, _, _, _| {
            moved.set(true);
            // From the latitude offset of 39 the step leads to 95.
            (enc(1.0), enc2((56.0, 0.0)))
        },
        convert,
    );
    match result {
        Err(RspError::CoordinateTransform(CoordinateError::InvalidLatitude(v))) => {
            assert_eq!(dec(v), 95.0)
        }
        other => panic!("unexpected answer: {:?}", other),
    }
}

#[test]
fn degenerate_rpc_fails_the_inversion_at_once() {
    // A model whose image does not depend on the ground has a zero Jacobian.
    let mut coeffs = create_simple_rpc();
    coeffs.line_num_coeff = [enc(0.0); 20];
    coeffs.samp_num_coeff = [enc(0.0); 20];
    let rpc = RpcModel::new(coeffs);
    let result = image_to_lla(&rpc, 1.0, 2.0, 100.0);
    assert!(matches!(result, Err(RspError::Projection(ProjectionError::NoConvergence(0)))));
    // A vanished denominator inside the inversion comes out as it is.
    let mut coeffs = create_simple_rpc();
    coeffs.line_den_coeff = [enc(0.0); 20];
    let rpc = RpcModel::new(coeffs);
    let result = image_to_lla(&rpc, 5000.0, 5000.0, 100.0);
    assert!(matches!(result, Err(RspError::Projection(ProjectionError::InvalidRpc))));
}
