//! Geometric sensor models for photogrammetry: lens distortion, pinhole and
//! fisheye cameras, the rational-polynomial satellite model and the WGS84
//! datum, with the image files and metadata that they are fed from.
//!
//! Coordinates are binary64 numbers, held as their bits. The library runs
//! every model and makes every decision of it: which points a camera
//! projects, which latitudes the datum takes, when a denominator has
//! vanished, when a Newton-Raphson inversion accepts its estimate, fails or
//! gives up. The arithmetic between the decisions is floating-point
//! arithmetic, which is not reasoned about here: each model takes it from
//! its caller, as functions, and says of its result what holds whatever
//! those functions compute.

pub mod binary64;
pub mod camera;
pub mod coordinate;
pub mod decimal;
pub mod error;
pub mod image_io;
pub mod metadata;
pub mod newton;
pub mod raster;
pub mod sensor;
