//! Raster images in memory: decoding the contents of an image file and
//! encoding an image for one. Reading and writing the file is the caller's.

use vstd::prelude::*;
use vstd::string::*;
use image::{DynamicImage, ImageError, ImageFormat};

verus! {

/// A decoded image of the `image` crate. Nothing of its pixels is visible to
/// the proofs.
#[verifier::external_type_specification]
#[verifier::external_body]
pub struct ExDynamicImage(image::DynamicImage);

/// The error of the `image` crate.
#[verifier::external_type_specification]
#[verifier::external_body]
pub struct ExImageError(image::ImageError);

/// A raster file format that the `image` crate knows.
#[verifier::external_type_specification]
#[verifier::external_body]
pub struct ExImageFormat(image::ImageFormat);

/// What `image::ImageFormat::from_path` returns for a path: the format that
/// the extension of the path names, or the error for a path without a known
/// extension.
pub uninterp spec fn format_of_path(path: Seq<char>) -> Result<ImageFormat, ImageError>;

/// What `image::load_from_memory_with_format` returns for the contents of a
/// file and a format.
pub uninterp spec fn decoded(contents: Seq<u8>, format: ImageFormat) -> Result<
    DynamicImage,
    ImageError,
>;

/// What `image::DynamicImage::write_to` writes for an image and a format, or
/// the error it returns.
pub uninterp spec fn encoded(img: DynamicImage, format: ImageFormat) -> Result<
    Seq<u8>,
    ImageError,
>;

/// Why an image file could not be taken in.
#[derive(Clone, Debug)]
pub enum Ioerror {
    /// The image could not be read.
    ImageRead(String),
    /// The EXIF block could not be parsed.
    ExifParse(String),
}

impl Ioerror {
    /// The text of the error.
    pub open spec fn message(self) -> Seq<char> {
        match self {
            Ioerror::ImageRead(reason) => "Image read error: "@ + reason@,
            Ioerror::ExifParse(reason) => "EXIF parse error: "@ + reason@,
        }
    }

    /// The text of the error: its kind, then the reason it was made with.
    pub fn to_string(&self) -> (text: String)
        ensures
            text@ == self.message(),
    {
        match self {
            Ioerror::ImageRead(reason) => {
                let mut text: String = String::from_str("Image read error: ");
                text.append(reason.as_str());
                text
            },
            Ioerror::ExifParse(reason) => {
                let mut text: String = String::from_str("EXIF parse error: ");
                text.append(reason.as_str());
                text
            },
        }
    }
}

/// Calls `image::ImageFormat::from_path`, which looks at the extension of
/// the path and at nothing on disk. The contract claims only that the answer
/// is a function of the path.
#[verifier::external_body]
fn format_from_path(path: &str) -> (r: Result<ImageFormat, ImageError>)
    ensures
        r == format_of_path(path@),
{
    ImageFormat::from_path(path)
}

/// Calls `image::load_from_memory_with_format`, which decodes a byte slice
/// in the given format. The contract claims only that the answer is a
/// function of the bytes and the format.
#[verifier::external_body]
fn decode(contents: &[u8], format: ImageFormat) -> (r: Result<DynamicImage, ImageError>)
    ensures
        r == decoded(contents@, format),
{
    image::load_from_memory_with_format(contents, format)
}

/// Calls `image::DynamicImage::write_to` on a buffer in memory and hands the
/// buffer back. The contract claims only that the bytes written, or the
/// error, are a function of the image and the format.
#[verifier::external_body]
fn encode(img: &DynamicImage, format: ImageFormat) -> (r: Result<Vec<u8>, ImageError>)
    ensures
        match r {
            Ok(bytes) => encoded(*img, format) == Ok::<Seq<u8>, ImageError>(bytes@),
            Err(error) => encoded(*img, format) == Err::<Seq<u8>, ImageError>(error),
        },
{
    let mut buffer: Vec<u8> = Vec::new();
    img.write_to(&mut std::io::Cursor::new(&mut buffer), format)?;
    Ok(buffer)
}

/// What loading answers for a path and the contents of the file at it.
pub open spec fn loaded(path: Seq<char>, contents: Seq<u8>) -> Result<DynamicImage, ImageError> {
    match format_of_path(path) {
        Ok(format) => decoded(contents, format),
        Err(error) => Err(error),
    }
}

/// What saving answers for an image and the path it is meant for.
pub open spec fn saved(img: DynamicImage, path: Seq<char>) -> Result<Seq<u8>, ImageError> {
    match format_of_path(path) {
        Ok(format) => encoded(img, format),
        Err(error) => Err(error),
    }
}

/// Decodes the contents of the image file at `path`. The format is the one
/// that the extension of the path names, whatever the contents look like; a
/// path without a known extension is an error, and so are contents that are
/// no image of that format.
pub fn load_image(path: &str, contents: &[u8]) -> (r: Result<DynamicImage, ImageError>)
    ensures
        r == loaded(path@, contents@),
{
    match format_from_path(path) {
        Ok(format) => decode(contents, format),
        Err(error) => Err(error),
    }
}

/// Encodes an image as the contents of a file at `path`, in the format that
/// the extension of the path names. A path without a known extension is an
/// error, and so is an image that the format cannot hold.
pub fn save_image(img: &DynamicImage, path: &str) -> (r: Result<Vec<u8>, ImageError>)
    ensures
        match r {
            Ok(bytes) => saved(*img, path@) == Ok::<Seq<u8>, ImageError>(bytes@),
            Err(error) => saved(*img, path@) == Err::<Seq<u8>, ImageError>(error),
        },
{
    match format_from_path(path) {
        Ok(format) => encode(img, format),
        Err(error) => Err(error),
    }
}

} // verus!
