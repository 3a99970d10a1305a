//! Pictures as plain bytes.

use super::cache::POSTER_SIZE;
use image::AnimationDecoder;
use vstd::prelude::*;

verus! {

/// A decoded image of the image crate.
#[verifier::external_type_specification]
#[verifier::external_body]
pub struct ExDynamicImage(image::DynamicImage);

/// Whether this is what `ImageReader::decode` makes of the bytes of an image file, read as the
/// format that its file name's extension stands for, on some machine; `None` where it fails. The
/// decoders have code of their own for some processors, so that more than one outcome may be.
pub uninterp spec fn decodes_to(
    data: Seq<u8>,
    ext: Seq<char>,
    picture: Option<image::DynamicImage>,
) -> bool;

/// Calls `ImageFormat::from_extension` and `ImageReader::decode` of the image crate on bytes in
/// memory. That the outcome belongs to the bytes and the extension is all that is said of it: when
/// there is a picture, and of which size and pixels, is left to the decoders.
#[verifier::external_body]
fn decode_picture(data: &[u8], ext: &str) -> (picture: Option<image::DynamicImage>)
    ensures
        decodes_to(data@, ext@, picture),
{
    let format = image::ImageFormat::from_extension(ext)?;
    image::ImageReader::with_format(std::io::Cursor::new(data), format).decode().ok()
}

/// The width and the height of a picture in pixels.
pub uninterp spec fn picture_size(picture: image::DynamicImage) -> (u32, u32);

/// Calls `GenericImageView::dimensions` of the image crate, which gives the width and the height
/// that a picture has.
#[verifier::external_body]
fn size_of_picture(picture: &image::DynamicImage) -> (size: (u32, u32))
    ensures
        size == picture_size(*picture),
{
    image::GenericImageView::dimensions(picture)
}

/// What the pixels of a scaled picture are made of.
#[derive(Debug, Clone, Copy, PartialEq, Eq, Structural)]
pub enum Sampling {
    /// The pixel that is nearest.
    Nearest,
    /// All pixels that are near, the nearer ones more.
    Triangle,
}

/// The bound on how elongated a picture may be that is scaled to cover a square. Its longer side,
/// times the side of the square, is at most this many times the greater of its shorter side and
/// the side of the square. Up to there single precision still tells neighbouring pixels apart.
pub const MAX_STRETCH: u32 = 2097152;

/// Whether a picture can be scaled and cropped to a square: it has pixels, is not too elongated,
/// and what comes about on the way, with 16 bytes for each pixel at most, can be addressed.
pub open spec fn can_fill(size: (u32, u32), side: u32) -> bool {
    let (long, short) = if size.0 > size.1 {
        (size.0, size.1)
    } else {
        (size.1, size.0)
    };
    let base = if side > short {
        side
    } else {
        short
    };
    &&& short >= 1
    &&& long * side <= MAX_STRETCH * base
    &&& 16 * (base * ((long * side) / (short as int) + 1)) <= isize::MAX
}

/// The pixels that scaling and cropping a picture with `DynamicImage::resize_to_fill` to a square
/// leads to, as `DynamicImage::to_rgb8` gives them: three bytes for each.
pub uninterp spec fn filled_square(
    picture: image::DynamicImage,
    side: u32,
    sampling: Sampling,
) -> Seq<u8>;

/// Calls `DynamicImage::resize_to_fill` of the image crate for a square, and hands the pixels out
/// with `DynamicImage::to_rgb8`. The scaled picture covers the square and is cropped to it. Both
/// kinds of sampling take basic arithmetic alone, so that the pixels hang on the arguments only.
#[verifier::external_body]
fn fill_square(picture: &image::DynamicImage, side: u32, sampling: Sampling) -> (rgb: Vec<u8>)
    requires
        1 <= side <= POSTER_SIZE,
        can_fill(picture_size(*picture), side),
    ensures
        rgb@ == filled_square(*picture, side, sampling),
        rgb@.len() == side * side * 3,
{
    let filter = match sampling {
        Sampling::Nearest => image::imageops::FilterType::Nearest,
        Sampling::Triangle => image::imageops::FilterType::Triangle,
    };
    picture.resize_to_fill(side, side, filter).to_rgb8().into_raw()
}

/// The bytes of an optional vector.
pub open spec fn opt_bytes(bytes: Option<Vec<u8>>) -> Option<Seq<u8>> {
    match bytes {
        Some(b) => Some(b@),
        None => None,
    }
}

/// The bytes, or the message, of a result.
pub open spec fn result_view(result: Result<Vec<u8>, String>) -> Result<Seq<u8>, Seq<char>> {
    match result {
        Ok(bytes) => Ok(bytes@),
        Err(message) => Err(message@),
    }
}

/// The file that `JpegEncoder::encode_image` writes for pixels of three bytes each, or the message
/// of its error.
pub uninterp spec fn rgb_jpeg(rgb: Seq<u8>, width: u32, height: u32, quality: u8) -> Result<
    Seq<u8>,
    Seq<char>,
>;

/// Whether a JPEG file can have this size.
pub open spec fn jpeg_size(width: u32, height: u32) -> bool {
    1 <= width <= 65535 && 1 <= height <= 65535
}

/// Calls `JpegEncoder::encode_image` of the image crate, with the quality given, on an `RgbImage`
/// of the pixels. It fails just for sides of no pixel or of more than a JPEG file can tell, and
/// never writes an empty file.
#[verifier::external_body]
fn encode_rgb(rgb: Vec<u8>, width: u32, height: u32, quality: u8) -> (file: Result<Vec<u8>, String>)
    requires
        width >= 1,
        height >= 1,
        rgb@.len() == width * height * 3,
        1 <= quality <= 100,
    ensures
        result_view(file) == rgb_jpeg(rgb@, width, height, quality),
        file is Ok <==> jpeg_size(width, height),
        file matches Ok(bytes) ==> bytes@.len() > 0,
{
    let picture = image::RgbImage::from_raw(width, height, rgb).expect("a buffer of this size");
    let mut file = Vec::new();
    image::codecs::jpeg::JpegEncoder::new_with_quality(&mut file, quality)
        .encode_image(&picture)
        .map_err(|e| e.to_string())?;
    Ok(file)
}

/// The file that `JpegEncoder::encode_image` writes for pixels of four bytes each, or the message
/// of its error.
pub uninterp spec fn rgba_jpeg(rgba: Seq<u8>, width: u32, height: u32, quality: u8) -> Result<
    Seq<u8>,
    Seq<char>,
>;

/// Calls `JpegEncoder::encode_image` of the image crate, with the quality given, on an `RgbaImage`
/// of the pixels. It fails just for sides of no pixel or of more than a JPEG file can tell, and
/// never writes an empty file.
#[verifier::external_body]
pub(crate) fn encode_rgba(rgba: Vec<u8>, width: u32, height: u32, quality: u8) -> (file: Result<
    Vec<u8>,
    String,
>)
    requires
        width >= 1,
        height >= 1,
        rgba@.len() == width * height * 4,
        1 <= quality <= 100,
    ensures
        result_view(file) == rgba_jpeg(rgba@, width, height, quality),
        file is Ok <==> jpeg_size(width, height),
        file matches Ok(bytes) ==> bytes@.len() > 0,
{
    let picture = image::RgbaImage::from_raw(width, height, rgba).expect("a buffer of this size");
    let mut file = Vec::new();
    image::codecs::jpeg::JpegEncoder::new_with_quality(&mut file, quality)
        .encode_image(&picture)
        .map_err(|e| e.to_string())?;
    Ok(file)
}

/// One byte of a sheet on which a tile was put with its upper left corner at (`x`, `y`): the
/// tile's where the tile is, the sheet's elsewhere. Both hold four bytes for each pixel, row by
/// row.
pub open spec fn tiled_byte(
    sheet: Seq<u8>,
    sheet_width: int,
    tile: Seq<u8>,
    tile_width: int,
    tile_height: int,
    x: int,
    y: int,
    k: int,
) -> u8 {
    let col = (k / 4) % sheet_width;
    let row = (k / 4) / sheet_width;
    if x <= col < x + tile_width && y <= row < y + tile_height {
        tile[((row - y) * tile_width + (col - x)) * 4 + k % 4]
    } else {
        sheet[k]
    }
}

/// A sheet on which a tile was put.
pub open spec fn tiled(
    sheet: Seq<u8>,
    sheet_width: int,
    tile: Seq<u8>,
    tile_width: int,
    tile_height: int,
    x: int,
    y: int,
) -> Seq<u8> {
    Seq::new(
        sheet.len(),
        |k: int| tiled_byte(sheet, sheet_width, tile, tile_width, tile_height, x, y, k),
    )
}

/// Calls `imageops::replace` of the image crate, which puts the pixels of the tile in the place of
/// those of the sheet, from (`x`, `y`) on.
#[verifier::external_body]
pub(crate) fn put_tile(sheet: Vec<u8>, sheet_size: (u32, u32), tile: &[u8], tile_size: (u32, u32), x: u32, y: u32) -> (out:
    Vec<u8>)
    requires
        sheet_size.0 >= 1,
        sheet_size.1 >= 1,
        tile_size.0 >= 1,
        tile_size.1 >= 1,
        sheet@.len() == sheet_size.0 * sheet_size.1 * 4,
        tile@.len() == tile_size.0 * tile_size.1 * 4,
        x + tile_size.0 <= sheet_size.0,
        y + tile_size.1 <= sheet_size.1,
    ensures
        out@ == tiled(
            sheet@,
            sheet_size.0 as int,
            tile@,
            tile_size.0 as int,
            tile_size.1 as int,
            x as int,
            y as int,
        ),
{
    let (w, h) = sheet_size;
    let mut bottom = image::RgbaImage::from_raw(w, h, sheet).expect("a buffer of this size");
    let (w, h) = tile_size;
    let top = image::ImageBuffer::<image::Rgba<u8>, &[u8]>::from_raw(w, h, tile)
        .expect("a buffer of this size");
    image::imageops::replace(&mut bottom, &top, i64::from(x), i64::from(y));
    bottom.into_raw()
}

/// One picture of an animated image.
#[derive(Debug)]
pub struct GifFrame {
    pub width: u32,
    pub height: u32,
    /// How long the picture stays, in nanoseconds.
    pub delay: u128,
    /// Four bytes for each pixel, row by row.
    pub rgba: Vec<u8>,
}

/// What [`GifFrame`] holds: width, height, time to stay and pixels.
pub open spec fn gif_frame_view(frame: GifFrame) -> (u32, u32, u128, Seq<u8>) {
    (frame.width, frame.height, frame.delay, frame.rgba@)
}

/// What the pictures of an animation hold, or the message of an error.
pub open spec fn gif_frames_view(frames: Result<Vec<GifFrame>, String>) -> Result<
    Seq<(u32, u32, u128, Seq<u8>)>,
    Seq<char>,
> {
    match frames {
        Ok(frames) => Ok(frames@.map_values(|f: GifFrame| gif_frame_view(f))),
        Err(message) => Err(message@),
    }
}

/// The pictures that `GifDecoder` finds in the bytes of a GIF file, or the message of its error.
pub uninterp spec fn gif_pictures(data: Seq<u8>) -> Result<
    Seq<(u32, u32, u128, Seq<u8>)>,
    Seq<char>,
>;

/// Calls `GifDecoder::new`, `into_frames` and `collect_frames` of the image crate on bytes in
/// memory.
#[verifier::external_body]
pub(crate) fn gif_frames(data: &[u8]) -> (frames: Result<Vec<GifFrame>, String>)
    ensures
        gif_frames_view(frames) == gif_pictures(data@),
{
    let decoder = image::codecs::gif::GifDecoder::new(std::io::Cursor::new(data))
        .map_err(|e| e.to_string())?;
    let frames = decoder.into_frames().collect_frames().map_err(|e| e.to_string())?;
    Ok(frames.into_iter().map(|frame| {
        let delay = std::time::Duration::from(frame.delay()).as_nanos();
        let (width, height) = frame.buffer().dimensions();
        GifFrame { width, height, delay, rgba: frame.into_buffer().into_raw() }
    }).collect())
}

/// The quality of posters.
pub const POSTER_QUALITY: u8 = 82;

/// The file of a poster of the given pixels.
pub open spec fn poster_of(rgb: Seq<u8>) -> Option<Seq<u8>> {
    if rgb.len() == 49152 {
        match rgb_jpeg(rgb, POSTER_SIZE, POSTER_SIZE, POSTER_QUALITY) {
            Ok(file) => Some(file),
            Err(_) => None,
        }
    } else {
        None
    }
}

/// The file of a poster with the given pixels, three bytes for each. There has to be one pixel
/// for each place of the poster.
pub fn encode_poster(rgb: Vec<u8>) -> (file: Option<Vec<u8>>)
    ensures
        opt_bytes(file) == poster_of(rgb@),
        file is Some <==> rgb@.len() == 49152,
        file matches Some(bytes) ==> bytes@.len() > 0,
{
    if rgb.len() != 49152 {
        return None;
    }
    match encode_rgb(rgb, POSTER_SIZE, POSTER_SIZE, POSTER_QUALITY) {
        Ok(file) => Some(file),
        Err(_) => None,
    }
}

/// The file of the poster of a picture, if there is one: its pixels are those of the picture,
/// scaled and cropped to a square. There is none of a picture without pixels, or of one that is
/// too elongated.
pub open spec fn picture_poster_of(picture: Option<image::DynamicImage>) -> Option<Seq<u8>> {
    match picture {
        Some(p) => if can_fill(picture_size(p), POSTER_SIZE) {
            poster_of(filled_square(p, POSTER_SIZE, Sampling::Triangle))
        } else {
            None
        },
        None => None,
    }
}

fn fills_poster(width: u32, height: u32) -> (fills: bool)
    ensures
        fills == can_fill((width, height), POSTER_SIZE),
{
    let (long, short): (u128, u128) = if width > height {
        (width as u128, height as u128)
    } else {
        (height as u128, width as u128)
    };
    let side: u128 = POSTER_SIZE as u128;
    if short == 0 {
        return false;
    }
    let base: u128 = if side > short {
        side
    } else {
        short
    };
    let scaled: u128 = (long * side) / short + 1;
    assert(scaled <= 549755813761) by (nonlinear_arith)
        requires
            long <= 4294967295,
            side == 128,
            short >= 1,
            scaled == (long * side) / (short as int) + 1,
    ;
    assert(0 <= base * scaled <= 4294967295 * 549755813761) by (nonlinear_arith)
        requires
            base <= 4294967295,
            scaled <= 549755813761,
    ;
    long * side <= MAX_STRETCH as u128 * base && 16 * (base * scaled) <= isize::MAX as u128
}

/// The file of a poster of a picture.
pub fn picture_poster(picture: &image::DynamicImage) -> (file: Option<Vec<u8>>)
    ensures
        opt_bytes(file) == picture_poster_of(Some(*picture)),
        file is Some <==> can_fill(picture_size(*picture), POSTER_SIZE),
        file matches Some(bytes) ==> bytes@.len() > 0,
{
    let (width, height) = size_of_picture(picture);
    if !fills_poster(width, height) {
        return None;
    }
    encode_poster(fill_square(picture, POSTER_SIZE, Sampling::Triangle))
}

/// The file of a poster of an image, given what the image's file holds and the extension of its
/// name. `None` for what cannot be decoded, and for pictures that have no poster.
pub fn image_poster(data: &[u8], ext: &str) -> (file: Option<Vec<u8>>)
    ensures
        exists|picture: Option<image::DynamicImage>| #[trigger]
            decodes_to(data@, ext@, picture) && opt_bytes(file) == picture_poster_of(picture),
        file matches Some(bytes) ==> bytes@.len() > 0,
{
    match decode_picture(data, ext) {
        Some(picture) => {
            let file = picture_poster(&picture);
            assert(decodes_to(data@, ext@, Some(picture)));
            file
        },
        None => None,
    }
}

/// The pixels of four bytes each without their last byte, which is how far they let what is
/// behind them shine through.
pub open spec fn without_alpha(rgba: Seq<u8>) -> Seq<u8> {
    Seq::new(rgba.len() / 4 * 3, |k: int| rgba[k / 3 * 4 + k % 3])
}

/// Takes away how far pixels let what is behind them shine through.
pub fn drop_alpha(rgba: &[u8]) -> (rgb: Vec<u8>)
    ensures
        rgb@ == without_alpha(rgba@),
{
    let mut rgb: Vec<u8> = Vec::new();
    let pixels = rgba.len() / 4;
    let mut i: usize = 0;
    while i < pixels
        invariant
            i <= pixels,
            pixels == rgba.len() / 4,
            rgb.len() == 3 * i,
            forall|k: int| 0 <= k < 3 * i ==> #[trigger] rgb@[k] == rgba@[k / 3 * 4 + k % 3],
        decreases pixels - i,
    {
        rgb.push(rgba[4 * i]);
        rgb.push(rgba[4 * i + 1]);
        rgb.push(rgba[4 * i + 2]);
        i += 1;
    }
    assert(rgb@ =~= without_alpha(rgba@));
    rgb
}

} // verus!
