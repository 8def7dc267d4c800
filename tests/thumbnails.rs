use photo_cache::error::GenerationError;
use photo_cache::thumbnail::{make_thumbnail, THUMBNAIL_BOUND};

fn png_of(width: u32, height: u32) -> Vec<u8> {
    let img = image::DynamicImage::ImageRgb8(image::RgbImage::from_pixel(width, height, image::Rgb([200, 40, 90])));
    let mut out = std::io::Cursor::new(Vec::new());
    img.write_to(&mut out, image::ImageFormat::Png).unwrap();
    out.into_inner()
}

fn thumbnail_size(width: u32, height: u32) -> (u32, u32) {
    let t = make_thumbnail("/album/x.png", &png_of(width, height), "/cache/thumbnails/x.jpg").ok().unwrap();
    assert_eq!((t.source_width, t.source_height), (width, height));
    assert_eq!(image::guess_format(&t.jpeg).unwrap(), image::ImageFormat::Jpeg);
    let decoded = image::load_from_memory(&t.jpeg).unwrap();
    assert_eq!((decoded.width(), decoded.height()), (t.width, t.height));
    (t.width, t.height)
}

#[test]
fn wide_image_fits_the_bound() {
    assert_eq!(THUMBNAIL_BOUND, 400);
    assert_eq!(thumbnail_size(1000, 500), (400, 200));
}

#[test]
fn tall_image_fits_the_bound() {
    let (w, h) = thumbnail_size(300, 900);
    assert_eq!(h, 400);
    assert!(w == 133 || w == 134);
}

#[test]
fn bounded_image_keeps_within_the_bound() {
    assert_eq!(thumbnail_size(320, 240), (400, 300));
    assert_eq!(thumbnail_size(400, 400), (400, 400));
}

#[test]
fn corrupt_original_is_a_decode_error() {
    match make_thumbnail("/album/x.jpg", b"not a jpeg", "/cache/thumbnails/x.jpg") {
        Err(GenerationError::Decode { path, cause }) => {
            assert_eq!(path, "/album/x.jpg");
            assert!(!cause.is_empty());
        }
        _ => panic!("expected a decode error"),
    }
}

#[test]
fn unknown_extension_is_a_decode_error() {
    let r = make_thumbnail("/album/x.unknownformat", &png_of(10, 10), "/cache/thumbnails/x.jpg");
    assert!(matches!(r, Err(GenerationError::Decode { .. })));
}

#[test]
fn png_contents_under_a_jpeg_name_do_not_decode() {
    let r = make_thumbnail("/album/x.jpg", &png_of(10, 10), "/cache/thumbnails/x.jpg");
    assert!(matches!(r, Err(GenerationError::Decode { .. })));
}

#[test]
fn extension_case_does_not_matter() {
    let t = make_thumbnail("/album/x.PNG", &png_of(800, 100), "/cache/thumbnails/x.jpg").ok().unwrap();
    assert_eq!((t.width, t.height), (400, 50));
}
