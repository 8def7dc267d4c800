//! Bounded-size JPEG thumbnails of raster originals.
use vstd::prelude::*;
use crate::classify::{raster_format, raster_format_of, RasterFormat};
use crate::error::GenerationError;

verus! {

#[verifier::external_type_specification]
#[verifier::external_body]
pub struct ExDynamicImage(image::DynamicImage);

#[verifier::external_type_specification]
#[verifier::external_body]
pub struct ExImageError(image::ImageError);

/// Neither side of a thumbnail exceeds this many pixels.
pub const THUMBNAIL_BOUND: u32 = 400;

/// `data` decodes as an image of `format`.
pub uninterp spec fn decodes(data: Seq<u8>, format: RasterFormat) -> bool;

/// Relies on image::load_from_memory_with_format: `data` decoded as
/// `format`; whether that succeeds depends on the bytes and the format
/// alone.
#[verifier::external_body]
fn decode(data: &[u8], format: RasterFormat) -> (r: Result<image::DynamicImage, image::ImageError>)
    ensures
        r is Ok <==> decodes(data@, format),
{
    let f = match format {
        RasterFormat::Jpeg => image::ImageFormat::Jpeg,
        RasterFormat::Png => image::ImageFormat::Png,
        RasterFormat::Gif => image::ImageFormat::Gif,
        RasterFormat::Bmp => image::ImageFormat::Bmp,
        RasterFormat::WebP => image::ImageFormat::WebP,
    };
    image::load_from_memory_with_format(data, f)
}

/// `w` by `h` is `width` by `height` scaled to fit `bound` by `bound`: both
/// sides within the bound, one side on it, and the aspect ratio kept up to
/// rounding.
pub open spec fn fits_box(width: u32, height: u32, w: u32, h: u32, bound: u32) -> bool {
    &&& 1 <= w <= bound
    &&& 1 <= h <= bound
    &&& (w == bound || h == bound)
    &&& -(if width >= height { width as int } else { height as int })
        <= w as int * height as int - h as int * width as int
        <= (if width >= height { width as int } else { height as int })
}

/// Relies on image::DynamicImage::thumbnail, which sizes its result by
/// `resize_dimensions(width, height, bound, bound, false)`: the image scaled,
/// aspect ratio kept, to the largest size within `bound` by `bound`. Hands
/// back the thumbnail, the source's width and height, and the thumbnail's.
#[verifier::external_body]
fn scale_down(img: &image::DynamicImage, bound: u32) -> (r: (image::DynamicImage, u32, u32, u32, u32))
    requires
        bound >= 1,
    ensures
        1 <= r.3 <= bound,
        1 <= r.4 <= bound,
        r.1 >= 1 && r.2 >= 1 ==> fits_box(r.1, r.2, r.3, r.4, bound),
{
    let t = img.thumbnail(bound, bound);
    let (w, h) = (t.width(), t.height());
    (t, img.width(), img.height(), w, h)
}

/// Relies on image::DynamicImage::write_to: the image encoded as JPEG.
#[verifier::external_body]
fn encode_jpeg(img: &image::DynamicImage) -> (r: Result<Vec<u8>, image::ImageError>) {
    let mut out = std::io::Cursor::new(Vec::new());
    img.write_to(&mut out, image::ImageFormat::Jpeg).map(|_| out.into_inner())
}

/// Relies on the `Display` text of image::ImageError.
#[verifier::external_body]
fn image_error_text(e: &image::ImageError) -> String {
    e.to_string()
}

/// A JPEG thumbnail with its size and that of its source.
pub struct Thumbnail {
    pub jpeg: Vec<u8>,
    pub width: u32,
    pub height: u32,
    pub source_width: u32,
    pub source_height: u32,
}

/// The JPEG thumbnail of the raster original at `original`, whose contents
/// are `contents`, to be stored at `target`. The encoding follows the
/// original's extension; the image is scaled to fit `THUMBNAIL_BOUND` by
/// `THUMBNAIL_BOUND`. An unknown extension or undecodable contents give a
/// decode error naming the original; a decodable image gives the thumbnail
/// unless the JPEG encoder fails, which is a write error naming the target.
pub fn make_thumbnail(original: &str, contents: &[u8], target: &str) -> (r: Result<Thumbnail, GenerationError>)
    ensures
        raster_format_of(original@) is None ==> (r matches Err(GenerationError::Decode { path, .. })
            && path@ == original@),
        raster_format_of(original@) matches Some(f) && !decodes(contents@, f) ==> (r matches Err(
            GenerationError::Decode { path, .. }) && path@ == original@),
        raster_format_of(original@) matches Some(f) && decodes(contents@, f) ==> (r is Ok || (r matches Err(
            GenerationError::Write { path, .. }) && path@ == target@)),
        r matches Ok(t) ==> 1 <= t.width <= THUMBNAIL_BOUND && 1 <= t.height <= THUMBNAIL_BOUND,
        r matches Ok(t) ==> (t.source_width >= 1 && t.source_height >= 1 ==> fits_box(
            t.source_width, t.source_height, t.width, t.height, THUMBNAIL_BOUND)),
{
    let format = match raster_format(original) {
        Some(f) => f,
        None => {
            return Err(GenerationError::Decode {
                path: String::from_str(original),
                cause: String::from_str("unsupported image format"),
            });
        },
    };
    let img = match decode(contents, format) {
        Ok(i) => i,
        Err(e) => {
            return Err(GenerationError::Decode { path: String::from_str(original), cause: image_error_text(&e) });
        },
    };
    let (small, source_width, source_height, width, height) = scale_down(&img, THUMBNAIL_BOUND);
    match encode_jpeg(&small) {
        Ok(jpeg) => Ok(Thumbnail { jpeg, width, height, source_width, source_height }),
        Err(e) => Err(GenerationError::Write { path: String::from_str(target), cause: image_error_text(&e) }),
    }
}

} // verus!
