//! Reading a window of a raster image band by band.
//!
//! Getting at the bands of an image file is the caller's. What is decided
//! here is whether a window lies within the image, whether every band has
//! the pixel type that was asked for, in which order the bands are asked
//! for, and where each pixel of each band comes to stand in the result.

use vstd::prelude::*;
use vstd::string::*;
use crate::binary64::Binary64;
use crate::metadata::{extracts, items_of, ImageMetadata};
use crate::sensor::rpc::RpcCoefficients;
use crate::error::RspError;

verus! {

/// The pixel type of a band, as far as reading tells them apart.
#[derive(Clone, Copy, Debug, PartialEq, Eq, Structural)]
pub enum BandType {
    UInt8,
    UInt16,
    Float32,
    Other,
}

/// Why a window could not be read.
#[derive(Debug)]
pub enum ReadError<E> {
    /// The source of the bands failed.
    Gdal(E),
    /// The window does not lie within the image.
    InvalidDimensions,
    /// A band has another pixel type than was asked for.
    InvalidBandType { expected: BandType, found: BandType },
}

/// The size of an image in pixels and the number of its bands.
#[derive(Clone, Copy, Debug, PartialEq, Eq, Structural)]
pub struct ImageShape {
    pub width: usize,
    pub height: usize,
    pub band_count: usize,
}

/// A window of an image: the column and row of its first pixel, and its
/// width and height.
#[derive(Clone, Copy, Debug, PartialEq, Eq, Structural)]
pub struct Window {
    pub x_off: usize,
    pub y_off: usize,
    pub width: usize,
    pub height: usize,
}

/// Where the pixel of a column, row and band stands in the result: the rows
/// follow each other, in each row the columns, in each column the bands.
pub open spec fn pixel_index(x: int, y: int, band: int, width: int, band_count: int) -> int {
    (y * width + x) * band_count + band
}

impl ImageShape {
    /// Whether a window lies within the image.
    pub open spec fn holds(self, window: Window) -> bool {
        window.x_off + window.width <= self.width && window.y_off + window.height <= self.height
    }

    /// The window that is the whole image.
    pub fn whole(&self) -> (window: Window)
        ensures
            window == (Window { x_off: 0, y_off: 0, width: self.width, height: self.height }),
            self.holds(window),
    {
        Window { x_off: 0, y_off: 0, width: self.width, height: self.height }
    }

    /// Whether a window lies within the image.
    pub fn fits(&self, window: &Window) -> (r: bool)
        ensures
            r == self.holds(*window),
    {
        window.x_off <= self.width && window.width <= self.width - window.x_off && window.y_off
            <= self.height && window.height <= self.height - window.y_off
    }
}

/// Checks the pixel type of a band against the one that was asked for.
pub fn validate_band_type<E>(actual: BandType, expected: BandType) -> (r: Result<(), ReadError<E>>)
    ensures
        actual == expected ==> r is Ok,
        actual != expected ==> r == Err::<(), ReadError<E>>(
            ReadError::InvalidBandType { expected, found: actual },
        ),
{
    if actual == expected {
        Ok(())
    } else {
        Err(ReadError::InvalidBandType { expected, found: actual })
    }
}

/// The bands up to `count` have the pixel type that was asked for.
pub open spec fn bands_match<V, E>(band_type: V, expected: BandType, count: int) -> bool where
    V: Fn(usize) -> Result<BandType, E>,
 {
    forall|band: int|
        1 <= band <= count ==> #[trigger] call_ensures(
            band_type,
            (band as usize,),
            Ok::<BandType, E>(expected),
        )
}

/// What checking the pixel types of all bands may return, given the source
/// of the bands: the bands are asked for their type from band 1 on; the
/// first that cannot be asked, or is of another type, ends the check.
pub open spec fn validates<V, E>(
    band_count: usize,
    expected: BandType,
    band_type: V,
    out: Result<(), ReadError<E>>,
) -> bool where V: Fn(usize) -> Result<BandType, E> {
    match out {
        Ok(()) => bands_match(band_type, expected, band_count as int),
        Err(error) => exists|band: int, found: Result<BandType, E>|
            {
                &&& 1 <= band <= band_count
                &&& bands_match(band_type, expected, band - 1)
                &&& #[trigger] call_ensures(band_type, (band as usize,), found)
                &&& match found {
                    Err(cause) => error == ReadError::<E>::Gdal(cause),
                    Ok(actual) => actual != expected && error == (ReadError::<E>::InvalidBandType { expected, found: actual }),
                }
            },
    }
}

/// Checks that every band of an image has the pixel type that was asked for.
pub fn validate_band_types<V, E>(band_count: usize, expected: BandType, band_type: V) -> (r:
    Result<(), ReadError<E>>) where V: Fn(usize) -> Result<BandType, E>
    requires
        forall|band: usize| call_requires(band_type, (band,)),
    ensures
        validates(band_count, expected, band_type, r),
{
    let mut done: usize = 0;
    while done < band_count
        invariant
            done <= band_count,
            forall|band: usize| call_requires(band_type, (band,)),
            bands_match(band_type, expected, done as int),
        decreases band_count - done,
    {
        let band: usize = done + 1;
        let found = band_type(band);
        match found {
            Err(cause) => {
                return Err(ReadError::Gdal(cause));
            },
            Ok(actual) => {
                if actual != expected {
                    return Err(ReadError::InvalidBandType { expected, found: actual });
                }
            },
        }
        done = band;
    }
    Ok(())
}

/// The pixels of a band of the window, as the source gave them.
pub open spec fn band_read<T, R, E>(read_band: R, window: Window, band: int, pixels: Seq<T>) -> bool where
    R: Fn(usize, Window) -> Result<Vec<T>, E>,
 {
    exists|buffer: Vec<T>|
        #[trigger] call_ensures(read_band, (band as usize, window), Ok::<Vec<T>, E>(buffer))
            && buffer@ == pixels
}

/// The pixels of the bands up to `count`, as the source gave them: each band
/// has the pixels of the window row by row.
pub open spec fn bands_read<T, R, E>(
    read_band: R,
    window: Window,
    pixels: Seq<Seq<T>>,
    count: int,
) -> bool where R: Fn(usize, Window) -> Result<Vec<T>, E> {
    &&& pixels.len() == count
    &&& forall|band: int|
        0 <= band < count ==> band_read(read_band, window, band + 1, #[trigger] pixels[band])
}

/// The result holds each pixel of each band at its place.
pub open spec fn interleaved<T>(data: Seq<T>, pixels: Seq<Seq<T>>, window: Window) -> bool {
    &&& data.len() == window.height * window.width * pixels.len()
    &&& forall|y: int, x: int, band: int|
        0 <= y < window.height && 0 <= x < window.width && 0 <= band < pixels.len()
            ==> #[trigger] data[pixel_index(x, y, band, window.width as int, pixels.len() as int)]
            == pixels[band][y * window.width + x]
}

/// The bands up to `count` have been read, and each has as many pixels as
/// the window.
pub open spec fn bands_fit<T, R, E>(
    read_band: R,
    window: Window,
    pixels: Seq<Seq<T>>,
    count: int,
) -> bool where R: Fn(usize, Window) -> Result<Vec<T>, E> {
    &&& bands_read(read_band, window, pixels, count)
    &&& forall|band: int|
        0 <= band < count ==> (#[trigger] pixels[band]).len() == window.width * window.height
}

/// How the reading of the pixels ends after the bands in `pixels`: with the
/// pixels of all bands, each at its place; or with the failure of the source
/// at the next band; or with the refusal of the next band, which has not as
/// many pixels as the window.
pub open spec fn reading_ends<T, R, E>(
    shape: ImageShape,
    window: Window,
    read_band: R,
    pixels: Seq<Seq<T>>,
    out: Result<Vec<T>, ReadError<E>>,
) -> bool where R: Fn(usize, Window) -> Result<Vec<T>, E> {
    match out {
        Ok(data) => pixels.len() == shape.band_count && interleaved(data@, pixels, window),
        Err(ReadError::Gdal(cause)) => pixels.len() < shape.band_count && call_ensures(
            read_band,
            ((pixels.len() + 1) as usize, window),
            Err::<Vec<T>, E>(cause),
        ),
        Err(ReadError::InvalidDimensions) => pixels.len() < shape.band_count && exists|
            buffer: Vec<T>,
        |
            #[trigger] call_ensures(
                read_band,
                ((pixels.len() + 1) as usize, window),
                Ok::<Vec<T>, E>(buffer),
            ) && buffer@.len() != window.width * window.height,
        Err(_) => false,
    }
}

/// What reading a window may return, given the source of the bands. A
/// window that does not lie within the image is refused before the source is
/// asked. Then every band is asked for its type, from band 1 on. A result
/// too large to be held is refused like a window that does not fit. Then
/// every band is asked for its pixels, from band 1 on. The first failure ends
/// the reading. The result holds each pixel of each band at its place.
pub open spec fn reads_window<T, V, R, E>(
    shape: ImageShape,
    window: Window,
    expected: BandType,
    band_type: V,
    read_band: R,
    out: Result<Vec<T>, ReadError<E>>,
) -> bool where V: Fn(usize) -> Result<BandType, E>, R: Fn(usize, Window) -> Result<Vec<T>, E> {
    if !shape.holds(window) {
        out == Err::<Vec<T>, ReadError<E>>(ReadError::InvalidDimensions)
    } else {
        exists|validated: Result<(), ReadError<E>>|
            {
                &&& #[trigger] validates(shape.band_count, expected, band_type, validated)
                &&& match validated {
                    Err(error) => out == Err::<Vec<T>, ReadError<E>>(error),
                    Ok(()) => if window.height * window.width * shape.band_count > usize::MAX {
                        out == Err::<Vec<T>, ReadError<E>>(ReadError::InvalidDimensions)
                    } else {
                        exists|pixels: Seq<Seq<T>>|
                            #![trigger bands_fit(read_band, window, pixels, pixels.len() as int)]
                            {
                                &&& bands_fit(read_band, window, pixels, pixels.len() as int)
                                &&& reading_ends(shape, window, read_band, pixels, out)
                            }
                    },
                }
            }
    }
}

/// Whether the pixels of a window in all bands are too many to be held.
pub fn too_large(window: &Window, band_count: usize) -> (r: bool)
    ensures
        r == (window.height * window.width * band_count > usize::MAX),
{
    if band_count == 0 {
        assert(window.height * window.width * band_count == 0) by (nonlinear_arith)
            requires
                band_count == 0,
        ;
        return false;
    }
    match window.height.checked_mul(window.width) {
        None => {
            proof {
                lemma_no_room(window.height as int, window.width as int, band_count as int);
            }
            true
        },
        Some(area) => area.checked_mul(band_count).is_none(),
    }
}

/// Reads a window of an image. `band_type` gives the pixel type of a band
/// and `read_band` the pixels of the window in a band, row by row; both count
/// the bands from 1. The result holds the pixels row by row, in each row
/// column by column, in each column band by band.
pub fn read_window<T: Copy, V, R, E>(
    shape: &ImageShape,
    window: &Window,
    expected: BandType,
    band_type: V,
    read_band: R,
) -> (r: Result<Vec<T>, ReadError<E>>) where
    V: Fn(usize) -> Result<BandType, E>,
    R: Fn(usize, Window) -> Result<Vec<T>, E>,

    requires
        forall|band: usize| call_requires(band_type, (band,)),
        forall|band: usize| call_requires(read_band, (band, *window)),
    ensures
        reads_window(*shape, *window, expected, band_type, read_band, r),
{
    if !shape.fits(window) {
        return Err(ReadError::InvalidDimensions);
    }
    match validate_band_types(shape.band_count, expected, band_type) {
        Err(error) => {
            return Err(error);
        },
        Ok(()) => {},
    }
    let band_count: usize = shape.band_count;
    if too_large(window, band_count) {
        return Err(ReadError::InvalidDimensions);
    }
    let mut bands: Vec<Vec<T>> = Vec::new();
    let ghost mut pixels: Seq<Seq<T>> = Seq::empty();
    while bands.len() < band_count
        invariant
            bands@.len() <= band_count,
            pixels.len() == bands@.len(),
            forall|band: usize| call_requires(read_band, (band, *window)),
            bands_fit(read_band, *window, pixels, pixels.len() as int),
            forall|band: int| 0 <= band < bands@.len() ==> (#[trigger] bands@[band])@ == pixels[band],
            validates(band_count, expected, band_type, Ok::<(), ReadError<E>>(())),
            shape.holds(*window),
            band_count == shape.band_count,
            window.height * window.width * band_count <= usize::MAX,
        decreases band_count - bands@.len(),
    {
        let band: usize = bands.len() + 1;
        match read_band(band, *window) {
            Err(cause) => {
                return Err(ReadError::Gdal(cause));
            },
            Ok(buffer) => {
                proof {
                    lemma_one_band(window.height as int, window.width as int, band_count as int);
                }
                if buffer.len() != window.width * window.height {
                    return Err(ReadError::InvalidDimensions);
                }
                proof {
                    let before = pixels;
                    pixels = before.push(buffer@);
                    assert(band_read(read_band, *window, band as int, buffer@));
                    assert forall|b: int| 0 <= b < pixels.len() implies band_read(
                        read_band,
                        *window,
                        b + 1,
                        #[trigger] pixels[b],
                    ) by {
                        if b < before.len() {
                            assert(pixels[b] == before[b]);
                        }
                    }
                    assert forall|b: int| 0 <= b < pixels.len() implies (#[trigger] pixels[b]).len()
                        == window.width * window.height by {
                        if b < before.len() {
                            assert(pixels[b] == before[b]);
                        }
                    }
                }
                bands.push(buffer);
            },
        }
    }
    let data: Vec<T> = match interleave(&bands, window.width, window.height) {
        Some(data) => data,
        None => {
            return Err(ReadError::InvalidDimensions);
        },
    };
    proof {
        assert(interleaved(data@, pixels, *window)) by {
            assert forall|y: int, x: int, band: int|
                0 <= y < window.height && 0 <= x < window.width && 0 <= band
                    < pixels.len() implies #[trigger] data@[pixel_index(
                x,
                y,
                band,
                window.width as int,
                pixels.len() as int,
            )] == pixels[band][y * window.width + x] by {
                assert(bands@[band]@ == pixels[band]);
            }
        }
    }
    Ok(data)
}

/// Brings the pixels of the bands of a window, each band row by row, into
/// one sequence that holds them row by row, in each row column by column, in
/// each column band by band. There is no such sequence if it would be too
/// long to be held.
pub fn interleave<T: Copy>(bands: &Vec<Vec<T>>, width: usize, height: usize) -> (r: Option<Vec<T>>)
    requires
        forall|band: int| 0 <= band < bands@.len() ==> (#[trigger] bands@[band])@.len() == width
            * height,
    ensures
        r is None <==> height * width * bands@.len() > usize::MAX,
        r matches Some(data) ==> {
            &&& data@.len() == height * width * bands@.len()
            &&& forall|y: int, x: int, band: int|
                0 <= y < height && 0 <= x < width && 0 <= band < bands@.len()
                    ==> #[trigger] data@[pixel_index(x, y, band, width as int, bands@.len() as int)]
                    == bands@[band]@[y * width + x]
        },
{
    let band_count: usize = bands.len();
    let area: usize = match height.checked_mul(width) {
        Some(area) => area,
        None => {
            proof {
                lemma_no_room(height as int, width as int, band_count as int);
            }
            if band_count == 0 {
                return Some(Vec::new());
            }
            return None;
        },
    };
    let total: usize = match area.checked_mul(band_count) {
        Some(total) => total,
        None => {
            return None;
        },
    };
    let mut data: Vec<T> = Vec::new();
    let mut y: usize = 0;
    assert(y * width * band_count == 0) by (nonlinear_arith)
        requires
            y == 0,
    ;
    while y < height
        invariant
            y <= height,
            band_count == bands@.len(),
            area == height * width,
            total == area * band_count,
            forall|band: int|
                0 <= band < bands@.len() ==> (#[trigger] bands@[band])@.len() == width * height,
            data@.len() == y * width * band_count,
            forall|j: int, x: int, band: int|
                0 <= j < y && 0 <= x < width && 0 <= band < band_count
                    ==> #[trigger] data@[pixel_index(x, j, band, width as int, band_count as int)]
                    == bands@[band]@[j * width + x],
        decreases height - y,
    {
        let mut x: usize = 0;
        while x < width
            invariant
                x <= width,
                y < height,
                band_count == bands@.len(),
                area == height * width,
                total == area * band_count,
                forall|band: int|
                    0 <= band < bands@.len() ==> (#[trigger] bands@[band])@.len() == width
                        * height,
                data@.len() == (y * width + x) * band_count,
                forall|j: int, i: int, band: int|
                    0 <= j < y && 0 <= i < width && 0 <= band < band_count
                        ==> #[trigger] data@[pixel_index(i, j, band, width as int, band_count as int)]
                        == bands@[band]@[j * width + i],
                forall|i: int, band: int|
                    0 <= i < x && 0 <= band < band_count ==> #[trigger] data@[pixel_index(
                        i,
                        y as int,
                        band,
                        width as int,
                        band_count as int,
                    )] == bands@[band]@[y * width + i],
            decreases width - x,
        {
            proof {
                lemma_in_area(x as int, y as int, width as int, height as int);
            }
            let source: usize = y * width + x;
            let mut band: usize = 0;
            while band < band_count
                invariant
                    band <= band_count,
                    x < width,
                    y < height,
                    source == y * width + x,
                    source < width * height,
                    band_count == bands@.len(),
                    area == height * width,
                    total == area * band_count,
                    forall|b: int|
                        0 <= b < bands@.len() ==> (#[trigger] bands@[b])@.len() == width * height,
                    data@.len() == (y * width + x) * band_count + band,
                    forall|j: int, i: int, b: int|
                        0 <= j < y && 0 <= i < width && 0 <= b < band_count
                            ==> #[trigger] data@[pixel_index(i, j, b, width as int, band_count as int)]
                            == bands@[b]@[j * width + i],
                    forall|i: int, b: int|
                        0 <= i < x && 0 <= b < band_count ==> #[trigger] data@[pixel_index(
                            i,
                            y as int,
                            b,
                            width as int,
                            band_count as int,
                        )] == bands@[b]@[y * width + i],
                    forall|b: int|
                        0 <= b < band ==> #[trigger] data@[pixel_index(
                            x as int,
                            y as int,
                            b,
                            width as int,
                            band_count as int,
                        )] == bands@[b]@[y * width + x],
                decreases band_count - band,
            {
                let ghost before = data@;
                let value: T = bands[band][source];
                data.push(value);
                proof {
                    lemma_places(
                        x as int,
                        y as int,
                        band as int,
                        width as int,
                        height as int,
                        band_count as int,
                    );
                    assert forall|j: int, i: int, b: int|
                        0 <= j < y && 0 <= i < width && 0 <= b < band_count implies #[trigger] data@[pixel_index(
                        i,
                        j,
                        b,
                        width as int,
                        band_count as int,
                    )] == bands@[b]@[j * width + i] by {
                        lemma_earlier(
                            i,
                            j,
                            b,
                            x as int,
                            y as int,
                            band as int,
                            width as int,
                            band_count as int,
                        );
                        assert(data@[pixel_index(i, j, b, width as int, band_count as int)]
                            == before[pixel_index(i, j, b, width as int, band_count as int)]);
                    }
                    assert forall|i: int, b: int|
                        0 <= i < x && 0 <= b < band_count implies #[trigger] data@[pixel_index(
                        i,
                        y as int,
                        b,
                        width as int,
                        band_count as int,
                    )] == bands@[b]@[y * width + i] by {
                        lemma_earlier(
                            i,
                            y as int,
                            b,
                            x as int,
                            y as int,
                            band as int,
                            width as int,
                            band_count as int,
                        );
                        assert(data@[pixel_index(i, y as int, b, width as int, band_count as int)]
                            == before[pixel_index(i, y as int, b, width as int, band_count as int)]);
                    }
                    assert forall|b: int| 0 <= b < band + 1 implies #[trigger] data@[pixel_index(
                        x as int,
                        y as int,
                        b,
                        width as int,
                        band_count as int,
                    )] == bands@[b]@[y * width + x] by {
                        if b < band {
                            assert(data@[pixel_index(
                                x as int,
                                y as int,
                                b,
                                width as int,
                                band_count as int,
                            )] == before[pixel_index(
                                x as int,
                                y as int,
                                b,
                                width as int,
                                band_count as int,
                            )]);
                        }
                    }
                }
                band = band + 1;
            }
            proof {
                assert((y * width + x) * band_count + band_count == (y * width + (x + 1))
                    * band_count) by (nonlinear_arith);
            }
            x = x + 1;
        }
        proof {
            assert((y * width + width) * band_count == (y + 1) * width * band_count)
                by (nonlinear_arith);
            assert((y + 1) * width * band_count == ((y + 1) * width + 0) * band_count);
        }
        y = y + 1;
    }
    proof {
        assert(height * width * band_count == total) by (nonlinear_arith)
            requires
                area == height * width,
                total == area * band_count,
        ;
    }
    Some(data)
}

/// Where there is room for the pixels of all bands, and there is a band,
/// there is room for the pixels of one.
proof fn lemma_one_band(height: int, width: int, band_count: int)
    requires
        height >= 0,
        width >= 0,
        band_count > 0,
        height * width * band_count <= usize::MAX,
    ensures
        0 <= width * height <= usize::MAX,
{
    assert(0 <= width * height <= height * width * band_count) by (nonlinear_arith)
        requires
            height >= 0,
            width >= 0,
            band_count > 0,
    ;
}

/// Without room for the pixels of one band there is room for all bands only
/// if there is none.
proof fn lemma_no_room(height: int, width: int, band_count: int)
    requires
        height >= 0,
        width >= 0,
        band_count >= 0,
        height * width > usize::MAX,
    ensures
        band_count > 0 ==> height * width * band_count > usize::MAX,
        band_count == 0 ==> height * width * band_count == 0,
{
    assert(band_count > 0 ==> height * width * band_count >= height * width) by (nonlinear_arith)
        requires
            height * width >= 0,
            band_count >= 0,
    ;
    assert(band_count == 0 ==> height * width * band_count == 0) by (nonlinear_arith);
}

/// A pixel of the window has a place in each band.
proof fn lemma_in_area(x: int, y: int, width: int, height: int)
    requires
        0 <= x < width,
        0 <= y < height,
    ensures
        0 <= y * width + x < width * height,
        y * width + x < height * width,
{
    assert(y * width + x < width * height && y * width + x >= 0 && width * height == height
        * width) by (nonlinear_arith)
        requires
            0 <= x < width,
            0 <= y < height,
    ;
}

/// The place of a pixel is within the result, and it is the place that the
/// next pixel is put at when all before it have been put.
proof fn lemma_places(x: int, y: int, band: int, width: int, height: int, band_count: int)
    requires
        0 <= x < width,
        0 <= y < height,
        0 <= band < band_count,
    ensures
        pixel_index(x, y, band, width, band_count) == (y * width + x) * band_count + band,
        0 <= pixel_index(x, y, band, width, band_count) < height * width * band_count,
{
    lemma_in_area(x, y, width, height);
    let source = y * width + x;
    assert(source * band_count + band < height * width * band_count && source * band_count + band
        >= 0) by (nonlinear_arith)
        requires
            0 <= source < height * width,
            0 <= band < band_count,
    ;
}

/// A pixel that comes before another in the order of the result has a
/// smaller place.
proof fn lemma_earlier(
    i: int,
    j: int,
    b: int,
    x: int,
    y: int,
    band: int,
    width: int,
    band_count: int,
)
    requires
        0 <= i < width,
        0 <= x < width,
        0 <= j,
        0 <= y,
        0 <= b < band_count,
        0 <= band < band_count,
        j < y || (j == y && i < x),
    ensures
        0 <= pixel_index(i, j, b, width, band_count) < pixel_index(x, y, band, width, band_count),
{
    let first = j * width + i;
    let second = y * width + x;
    assert(0 <= first < second) by (nonlinear_arith)
        requires
            first == j * width + i,
            second == y * width + x,
            0 <= i < width,
            0 <= x < width,
            0 <= j,
            0 <= y,
            j < y || (j == y && i < x),
    ;
    assert(0 <= first * band_count + b < second * band_count + band) by (nonlinear_arith)
        requires
            0 <= first < second,
            0 <= b < band_count,
            0 <= band < band_count,
    ;
}

/// An image: the dataset that its bands are read from, its shape and its
/// metadata.
pub struct Image<D> {
    dataset: D,
    shape: ImageShape,
    metadata: ImageMetadata,
}

impl<D> Image<D> {
    /// The shape of the image.
    pub closed spec fn shape(&self) -> ImageShape {
        self.shape
    }

    /// The metadata of the image.
    pub closed spec fn data(&self) -> ImageMetadata {
        self.metadata
    }

    /// The dataset of the image.
    pub closed spec fn source(&self) -> D {
        self.dataset
    }

    /// An image over a dataset of the given size and number of bands. Its
    /// metadata are the coefficients of the rational-polynomial model, if
    /// they can be extracted from the items of the metadata domain that
    /// holds them, and nothing else.
    pub fn from_dataset<P>(
        dataset: D,
        size: (usize, usize),
        band_count: usize,
        rpc_domain: Option<&Vec<String>>,
        parse: P,
    ) -> (image: Image<D>) where P: Fn(String) -> Option<Binary64> + Copy
        requires
            forall|text: String| call_requires(parse, (text,)),
        ensures
            image.source() == dataset,
            image.shape() == (ImageShape { width: size.0, height: size.1, band_count }),
            exists|extracted: Result<RpcCoefficients, RspError>|
                #[trigger] extracts(items_of(rpc_domain), parse, extracted) && image.data().rpc
                    == match extracted {
                    Ok(coeffs) => Some(coeffs),
                    Err(_) => None::<RpcCoefficients>,
                },
            image.data().gps_position is None,
            image.data().imu_orientation is None,
            image.data().timestamp is None,
            image.data().camera_id is None,
    {
        Image {
            dataset,
            shape: ImageShape { width: size.0, height: size.1, band_count },
            metadata: ImageMetadata::from_gdal_dataset(rpc_domain, parse),
        }
    }

    /// The dataset that the bands are read from.
    pub fn dataset(&self) -> (dataset: &D)
        ensures
            *dataset == self.source(),
    {
        &self.dataset
    }

    /// The metadata of the image.
    pub fn metadata(&self) -> (metadata: &ImageMetadata)
        ensures
            *metadata == self.data(),
    {
        &self.metadata
    }

    /// The metadata of the image, to be changed in place.
    pub fn metadata_mut(&mut self) -> (metadata: &mut ImageMetadata)
        ensures
            *metadata == old(self).data(),
            final(self).data() == *final(metadata),
            final(self).shape() == old(self).shape(),
            final(self).source() == old(self).source(),
    {
        &mut self.metadata
    }

    /// The width and height of the image.
    pub fn size(&self) -> (r: (usize, usize))
        ensures
            r == (self.shape().width, self.shape().height),
    {
        (self.shape.width, self.shape.height)
    }

    /// The width of the image.
    pub fn width(&self) -> (r: usize)
        ensures
            r == self.shape().width,
    {
        self.shape.width
    }

    /// The height of the image.
    pub fn height(&self) -> (r: usize)
        ensures
            r == self.shape().height,
    {
        self.shape.height
    }

    /// The number of bands of the image.
    pub fn band_count(&self) -> (r: usize)
        ensures
            r == self.shape().band_count,
    {
        self.shape.band_count
    }

    /// Reads the whole image as bytes.
    pub fn read_u8<V, R, E>(&self, band_type: V, read_band: R) -> (r: Result<
        Vec<u8>,
        ReadError<E>,
    >) where V: Fn(usize) -> Result<BandType, E>, R: Fn(usize, Window) -> Result<Vec<u8>, E>
        requires
            forall|band: usize| call_requires(band_type, (band,)),
            forall|band: usize, window: Window| call_requires(read_band, (band, window)),
        ensures
            reads_window(
                self.shape(),
                Window { x_off: 0, y_off: 0, width: self.shape().width, height: self.shape().height },
                BandType::UInt8,
                band_type,
                read_band,
                r,
            ),
    {
        read_window(&self.shape, &self.shape.whole(), BandType::UInt8, band_type, read_band)
    }

    /// Reads a window of the image as bytes: `width` columns from column
    /// `x_off` on, `height` rows from row `y_off` on.
    pub fn read_window_u8<V, R, E>(
        &self,
        x_off: usize,
        y_off: usize,
        width: usize,
        height: usize,
        band_type: V,
        read_band: R,
    ) -> (r: Result<Vec<u8>, ReadError<E>>) where
        V: Fn(usize) -> Result<BandType, E>,
        R: Fn(usize, Window) -> Result<Vec<u8>, E>,

        requires
            forall|band: usize| call_requires(band_type, (band,)),
            forall|band: usize, window: Window| call_requires(read_band, (band, window)),
        ensures
            reads_window(
                self.shape(),
                Window { x_off, y_off, width, height },
                BandType::UInt8,
                band_type,
                read_band,
                r,
            ),
    {
        let window: Window = Window { x_off, y_off, width, height };
        read_window(&self.shape, &window, BandType::UInt8, band_type, read_band)
    }

    /// Reads the whole image as sixteen-bit numbers.
    pub fn read_u16<V, R, E>(&self, band_type: V, read_band: R) -> (r: Result<
        Vec<u16>,
        ReadError<E>,
    >) where V: Fn(usize) -> Result<BandType, E>, R: Fn(usize, Window) -> Result<Vec<u16>, E>
        requires
            forall|band: usize| call_requires(band_type, (band,)),
            forall|band: usize, window: Window| call_requires(read_band, (band, window)),
        ensures
            reads_window(
                self.shape(),
                Window { x_off: 0, y_off: 0, width: self.shape().width, height: self.shape().height },
                BandType::UInt16,
                band_type,
                read_band,
                r,
            ),
    {
        read_window(&self.shape, &self.shape.whole(), BandType::UInt16, band_type, read_band)
    }

    /// Reads a window of the image as sixteen-bit numbers.
    pub fn read_window_u16<V, R, E>(
        &self,
        x_off: usize,
        y_off: usize,
        width: usize,
        height: usize,
        band_type: V,
        read_band: R,
    ) -> (r: Result<Vec<u16>, ReadError<E>>) where
        V: Fn(usize) -> Result<BandType, E>,
        R: Fn(usize, Window) -> Result<Vec<u16>, E>,

        requires
            forall|band: usize| call_requires(band_type, (band,)),
            forall|band: usize, window: Window| call_requires(read_band, (band, window)),
        ensures
            reads_window(
                self.shape(),
                Window { x_off, y_off, width, height },
                BandType::UInt16,
                band_type,
                read_band,
                r,
            ),
    {
        let window: Window = Window { x_off, y_off, width, height };
        read_window(&self.shape, &window, BandType::UInt16, band_type, read_band)
    }

    /// Reads the whole image as single-precision numbers, which are held in
    /// the type `T` of the caller's choice.
    pub fn read_f32<T: Copy, V, R, E>(&self, band_type: V, read_band: R) -> (r: Result<
        Vec<T>,
        ReadError<E>,
    >) where V: Fn(usize) -> Result<BandType, E>, R: Fn(usize, Window) -> Result<Vec<T>, E>
        requires
            forall|band: usize| call_requires(band_type, (band,)),
            forall|band: usize, window: Window| call_requires(read_band, (band, window)),
        ensures
            reads_window(
                self.shape(),
                Window { x_off: 0, y_off: 0, width: self.shape().width, height: self.shape().height },
                BandType::Float32,
                band_type,
                read_band,
                r,
            ),
    {
        read_window(&self.shape, &self.shape.whole(), BandType::Float32, band_type, read_band)
    }

    /// Reads a window of the image as single-precision numbers, which are
    /// held in the type `T` of the caller's choice.
    pub fn read_window_f32<T: Copy, V, R, E>(
        &self,
        x_off: usize,
        y_off: usize,
        width: usize,
        height: usize,
        band_type: V,
        read_band: R,
    ) -> (r: Result<Vec<T>, ReadError<E>>) where
        V: Fn(usize) -> Result<BandType, E>,
        R: Fn(usize, Window) -> Result<Vec<T>, E>,

        requires
            forall|band: usize| call_requires(band_type, (band,)),
            forall|band: usize, window: Window| call_requires(read_band, (band, window)),
        ensures
            reads_window(
                self.shape(),
                Window { x_off, y_off, width, height },
                BandType::Float32,
                band_type,
                read_band,
                r,
            ),
    {
        let window: Window = Window { x_off, y_off, width, height };
        read_window(&self.shape, &window, BandType::Float32, band_type, read_band)
    }
}

/// The projection of an image, if it has one: a dataset without projection
/// gives an empty text.
pub fn projection(text: String) -> (r: Option<String>)
    ensures
        text@.len() == 0 ==> r is None,
        text@.len() > 0 ==> r == Some(text),
{
    if text.as_str().unicode_len() == 0 {
        None
    } else {
        Some(text)
    }
}

} // verus!
