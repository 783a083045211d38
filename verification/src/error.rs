//! The failures that the sensor models report, and their texts.
//!
//! A text that quotes a coordinate takes the notation of the number from the
//! caller, as a function.

use vstd::prelude::*;
use vstd::string::*;
use crate::binary64::Binary64;
use crate::decimal::{decimal, decimal_digits};

verus! {

/// A projection between ground and image that has no answer.
#[derive(Clone, Copy, Debug, PartialEq, Eq, Structural)]
pub enum ProjectionError {
    /// The point lies behind the camera.
    BehindCamera,
    /// The point falls outside the image.
    OutOfBounds,
    /// A denominator of the rational polynomials vanished.
    InvalidRpc,
    /// The inverse projection gave up at the given iteration.
    NoConvergence(usize),
}

/// A coordinate that the datum conversions do not take.
#[derive(Clone, Debug)]
pub enum CoordinateError {
    /// A latitude, in degrees, outside -90 to 90.
    InvalidLatitude(Binary64),
    /// A longitude, in degrees, outside -180 to 180.
    InvalidLongitude(Binary64),
    /// A height, in meters, that no point has.
    InvalidHeight(Binary64),
    /// Any other failure of a conversion.
    TransformFailed(String),
}

/// Every failure of the library.
#[derive(Clone, Debug)]
pub enum RspError {
    Projection(ProjectionError),
    CoordinateTransform(CoordinateError),
    Io(String),
    InvalidInput(String),
    Numerical(String),
}

impl ProjectionError {
    /// The text of the error.
    pub open spec fn message(self) -> Seq<char> {
        match self {
            ProjectionError::BehindCamera => "Point behind camera"@,
            ProjectionError::OutOfBounds => "Point outside image bounds"@,
            ProjectionError::InvalidRpc => "Invalid RPC coefficients"@,
            ProjectionError::NoConvergence(iterations) => "Projection did not converge after "@
                + decimal_digits(iterations as nat) + " iterations"@,
        }
    }

    /// The text of the error, the iteration count in decimal notation.
    pub fn to_string(&self) -> (text: String)
        ensures
            text@ == self.message(),
    {
        match self {
            ProjectionError::BehindCamera => String::from_str("Point behind camera"),
            ProjectionError::OutOfBounds => String::from_str("Point outside image bounds"),
            ProjectionError::InvalidRpc => String::from_str("Invalid RPC coefficients"),
            ProjectionError::NoConvergence(iterations) => {
                let mut text: String = String::from_str("Projection did not converge after ");
                let count: String = decimal(*iterations);
                text.append(count.as_str());
                text.append(" iterations");
                text
            },
        }
    }
}

/// What the text of a coordinate error may be, given the notation of
/// numbers: the kind of the error and the number in that notation, or the
/// reason that the error was made with.
pub open spec fn describes<F>(error: CoordinateError, notation: F, text: Seq<char>) -> bool where
    F: Fn(Binary64) -> String,
 {
    match error {
        CoordinateError::InvalidLatitude(value) => exists|shown: String|
            #[trigger] call_ensures(notation, (value,), shown) && text == "Invalid latitude: "@
                + shown@ + " (must be -90 to 90)"@,
        CoordinateError::InvalidLongitude(value) => exists|shown: String|
            #[trigger] call_ensures(notation, (value,), shown) && text == "Invalid longitude: "@
                + shown@ + " (must be -180 to 180)"@,
        CoordinateError::InvalidHeight(value) => exists|shown: String|
            #[trigger] call_ensures(notation, (value,), shown) && text == "Invalid height: "@
                + shown@,
        CoordinateError::TransformFailed(reason) => text == "Coordinate transform failed: "@
            + reason@,
    }
}

/// What the text of an error may be, given the notation of numbers: the
/// kind of the error, and the text of the error that it wraps or the reason
/// that it was made with.
pub open spec fn reports<F>(error: RspError, notation: F, text: Seq<char>) -> bool where
    F: Fn(Binary64) -> String,
 {
    match error {
        RspError::Projection(inner) => text == "Projection error: "@ + inner.message(),
        RspError::CoordinateTransform(inner) => exists|described: Seq<char>|
            #[trigger] describes(inner, notation, described) && text
                == "Coordinate transform error: "@ + described,
        RspError::Io(reason) => text == "I/O error: "@ + reason@,
        RspError::InvalidInput(reason) => text == "Invalid input: "@ + reason@,
        RspError::Numerical(reason) => text == "Numerical error: "@ + reason@,
    }
}

impl CoordinateError {
    /// The text of the error. `notation` writes the number that the error
    /// quotes.
    pub fn to_string<F>(&self, notation: F) -> (text: String) where F: Fn(Binary64) -> String
        requires
            forall|value: Binary64| call_requires(notation, (value,)),
        ensures
            describes(*self, notation, text@),
    {
        match self {
            CoordinateError::InvalidLatitude(value) => {
                let mut text: String = String::from_str("Invalid latitude: ");
                let shown: String = notation(*value);
                text.append(shown.as_str());
                text.append(" (must be -90 to 90)");
                text
            },
            CoordinateError::InvalidLongitude(value) => {
                let mut text: String = String::from_str("Invalid longitude: ");
                let shown: String = notation(*value);
                text.append(shown.as_str());
                text.append(" (must be -180 to 180)");
                text
            },
            CoordinateError::InvalidHeight(value) => {
                let mut text: String = String::from_str("Invalid height: ");
                let shown: String = notation(*value);
                text.append(shown.as_str());
                text
            },
            CoordinateError::TransformFailed(reason) => {
                let mut text: String = String::from_str("Coordinate transform failed: ");
                text.append(reason.as_str());
                text
            },
        }
    }
}

impl RspError {
    /// The text of the error. `notation` writes the number that a
    /// coordinate error quotes.
    pub fn to_string<F>(&self, notation: F) -> (text: String) where F: Fn(Binary64) -> String
        requires
            forall|value: Binary64| call_requires(notation, (value,)),
        ensures
            reports(*self, notation, text@),
    {
        match self {
            RspError::Projection(inner) => {
                let mut text: String = String::from_str("Projection error: ");
                let described: String = inner.to_string();
                text.append(described.as_str());
                text
            },
            RspError::CoordinateTransform(inner) => {
                let mut text: String = String::from_str("Coordinate transform error: ");
                let described: String = inner.to_string(notation);
                text.append(described.as_str());
                text
            },
            RspError::Io(reason) => {
                let mut text: String = String::from_str("I/O error: ");
                text.append(reason.as_str());
                text
            },
            RspError::InvalidInput(reason) => {
                let mut text: String = String::from_str("Invalid input: ");
                text.append(reason.as_str());
                text
            },
            RspError::Numerical(reason) => {
                let mut text: String = String::from_str("Numerical error: ");
                text.append(reason.as_str());
                text
            },
        }
    }
}

impl From<ProjectionError> for RspError {
    fn from(error: ProjectionError) -> (r: RspError) {
        RspError::Projection(error)
    }
}

impl vstd::std_specs::convert::FromSpecImpl<ProjectionError> for RspError {
    open spec fn obeys_from_spec() -> bool {
        true
    }

    open spec fn from_spec(error: ProjectionError) -> RspError {
        RspError::Projection(error)
    }
}

impl From<CoordinateError> for RspError {
    fn from(error: CoordinateError) -> (r: RspError) {
        RspError::CoordinateTransform(error)
    }
}

impl vstd::std_specs::convert::FromSpecImpl<CoordinateError> for RspError {
    open spec fn obeys_from_spec() -> bool {
        true
    }

    open spec fn from_spec(error: CoordinateError) -> RspError {
        RspError::CoordinateTransform(error)
    }
}

} // verus!
