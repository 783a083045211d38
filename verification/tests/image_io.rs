use image::{DynamicImage, GenericImageView, ImageError, Rgb, RgbImage};
use rsp::image_io::{load_image, save_image};

fn pattern() -> RgbImage {
    RgbImage::from_fn(100, 100, |x, y| Rgb([(x % 256) as u8, (y % 256) as u8, 128]))
}

#[test]
fn test_round_trip() {
    // Create test image
    let img = pattern();

    let dynamic = DynamicImage::ImageRgb8(img.clone());

    // Save and reload
    let contents = save_image(&dynamic, "test_output.png").unwrap();
    let loaded = load_image("test_output.png", &contents).unwrap();

    // Verify dimensions match
    assert_eq!(loaded.width(), 100);
    assert_eq!(loaded.height(), 100);
}

#[test]
fn round_trip_keeps_every_pixel() {
    let img = pattern();
    let dynamic = DynamicImage::ImageRgb8(img.clone());
    let contents = save_image(&dynamic, "pattern.png").unwrap();
    // The contents are a PNG file, not the pixel buffer handed back.
    assert_eq!(&contents[..8], &[0x89, b'P', b'N', b'G', 0x0d, 0x0a, 0x1a, 0x0a]);
    assert_ne!(contents.as_slice(), img.as_raw().as_slice());
    let loaded = load_image("pattern.png", &contents).unwrap();
    assert_eq!(loaded.to_rgb8().as_raw(), img.as_raw());
    assert_eq!(loaded.get_pixel(7, 9).0, [7, 9, 128, 255]);
}

#[test]
fn the_extension_names_the_format() {
    let dynamic = DynamicImage::ImageRgb8(pattern());
    let contents = save_image(&dynamic, "picture.png").unwrap();
    // Upper case extensions are the same format.
    assert!(load_image("PICTURE.PNG", &contents).is_ok());
    // Without an extension, or with an unknown one, no format is named.
    assert!(matches!(save_image(&dynamic, "picture"), Err(ImageError::Unsupported(_))));
    assert!(matches!(save_image(&dynamic, "picture.xyz"), Err(ImageError::Unsupported(_))));
    assert!(matches!(load_image("picture", &contents), Err(ImageError::Unsupported(_))));
    assert!(matches!(load_image("picture.xyz", &contents), Err(ImageError::Unsupported(_))));
}

#[test]
fn contents_that_are_no_image_are_refused() {
    assert!(load_image("empty.png", &[]).is_err());
    assert!(load_image("text.png", b"not an image at all").is_err());
    let dynamic = DynamicImage::ImageRgb8(pattern());
    let contents = save_image(&dynamic, "picture.png").unwrap();
    assert!(load_image("cut.png", &contents[..contents.len() / 2]).is_err());
}
