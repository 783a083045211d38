use rsp::binary64::Binary64;
use rsp::decimal::decimal;
use rsp::error::{CoordinateError, ProjectionError, RspError};
use rsp::image_io::Ioerror;

#[test]
fn test_projection_error_display() {
    let err = ProjectionError::BehindCamera;
    assert_eq!(err.to_string(), "Point behind camera");

    let err = ProjectionError::OutOfBounds;
    assert_eq!(err.to_string(), "Point outside image bounds");

    let err = ProjectionError::InvalidRpc;
    assert_eq!(err.to_string(), "Invalid RPC coefficients");

    let err = ProjectionError::NoConvergence(20);
    assert_eq!(err.to_string(), "Projection did not converge after 20 iterations");
}

#[test]
fn test_rsp_error_from_projection_error() {
    let proj_err = ProjectionError::BehindCamera;
    let rsp_err: RspError = proj_err.into();
    assert!(matches!(rsp_err, RspError::Projection(_)));
}

#[test]
fn test_rsp_error_from_coordinate_error() {
    let coord_err = CoordinateError::InvalidLatitude(Binary64::from_bits(95.0f64.to_bits()));
    let rsp_err: RspError = coord_err.into();
    assert!(matches!(rsp_err, RspError::CoordinateTransform(_)));
}

#[test]
fn from_keeps_the_error_it_wraps() {
    let rsp_err = RspError::from(ProjectionError::NoConvergence(7));
    assert!(matches!(rsp_err, RspError::Projection(ProjectionError::NoConvergence(7))));
    let lat = Binary64::from_bits((-95.0f64).to_bits());
    match RspError::from(CoordinateError::InvalidLatitude(lat)) {
        RspError::CoordinateTransform(CoordinateError::InvalidLatitude(v)) => {
            assert_eq!(f64::from_bits(v.to_bits()), -95.0)
        }
        other => panic!("unexpected error: {:?}", other),
    }
}

#[test]
fn no_convergence_quotes_every_count_in_decimal() {
    assert_eq!(
        ProjectionError::NoConvergence(0).to_string(),
        "Projection did not converge after 0 iterations"
    );
    assert_eq!(
        ProjectionError::NoConvergence(9).to_string(),
        "Projection did not converge after 9 iterations"
    );
    assert_eq!(
        ProjectionError::NoConvergence(1005).to_string(),
        "Projection did not converge after 1005 iterations"
    );
}

#[test]
fn decimal_matches_the_standard_notation() {
    let samples: Vec<usize> = vec![0, 1, 9, 10, 11, 19, 20, 99, 100, 101, 4096, 65535, 1000000];
    for n in samples {
        assert_eq!(decimal(n), format!("{}", n));
    }
    assert_eq!(decimal(usize::MAX), format!("{}", usize::MAX));
}

#[test]
fn io_error_messages() {
    let err = Ioerror::ImageRead("truncated file".to_string());
    assert_eq!(err.to_string(), "Image read error: truncated file");
    let err = Ioerror::ExifParse("bad tag".to_string());
    assert_eq!(err.to_string(), "EXIF parse error: bad tag");
    let err = Ioerror::ImageRead(String::new());
    assert_eq!(err.to_string(), "Image read error: ");
}

fn notation(value: Binary64) -> String {
    format!("{}", f64::from_bits(value.to_bits()))
}

fn enc(x: f64) -> Binary64 {
    Binary64::from_bits(x.to_bits())
}

#[test]
fn test_coordinate_error_display() {
    let err = CoordinateError::InvalidLatitude(enc(95.0));
    assert_eq!(err.to_string(notation), "Invalid latitude: 95 (must be -90 to 90)");

    let err = CoordinateError::InvalidLongitude(enc(200.0));
    assert_eq!(err.to_string(notation), "Invalid longitude: 200 (must be -180 to 180)");

    let err = CoordinateError::InvalidHeight(enc(-1000000.0));
    assert_eq!(err.to_string(notation), "Invalid height: -1000000");
}

#[test]
fn test_rsp_error_io() {
    let err = RspError::Io("File not found".to_string());
    assert_eq!(err.to_string(notation), "I/O error: File not found");
}

#[test]
fn test_rsp_error_invalid_input() {
    let err = RspError::InvalidInput("Invalid parameter".to_string());
    assert_eq!(err.to_string(notation), "Invalid input: Invalid parameter");
}

#[test]
fn test_rsp_error_numerical() {
    let err = RspError::Numerical("Matrix is singular".to_string());
    assert_eq!(err.to_string(notation), "Numerical error: Matrix is singular");
}

#[test]
fn wrapped_errors_are_quoted_in_full() {
    let err = RspError::from(ProjectionError::NoConvergence(3));
    assert_eq!(
        err.to_string(notation),
        "Projection error: Projection did not converge after 3 iterations"
    );
    let err = RspError::from(CoordinateError::InvalidLatitude(enc(-90.5)));
    assert_eq!(
        err.to_string(notation),
        "Coordinate transform error: Invalid latitude: -90.5 (must be -90 to 90)"
    );
    let err = RspError::from(CoordinateError::TransformFailed("no datum".to_string()));
    assert_eq!(
        err.to_string(notation),
        "Coordinate transform error: Coordinate transform failed: no datum"
    );
    // The notation is the caller's.
    let err = CoordinateError::InvalidHeight(enc(1.5));
    assert_eq!(err.to_string(|_| "<number>".to_string()), "Invalid height: <number>");
}
