//! The image pipeline: decode a source file, scale it to fit a square box,
//! encode it again and wrap the bytes as text.

use crate::codec::{
    base64_encode, base64_text, block_side, content_depth, content_dimensions, decode_image,
    decoded_content, encode_image, encoded_content, image_content, image_depth, image_dimensions,
    probe_dimensions, probed_dimensions, sample_ceiling, scalable, scale_image, scaled_content,
    SampleDepth, MAX_BITMAP_PIXELS, MAX_SCALABLE_SIDE,
};
use crate::error::{SpicaError, SpicaErrorKind};
use crate::format::{get_image_format, path_format, ImageFormat};
use image::DynamicImage;
use vstd::prelude::*;
use vstd::string::StringExecFns;

verus! {

// ---------------------------------------------------------------------------
// Box fit
// ---------------------------------------------------------------------------
/// One side of the scaled bitmap: `side * box_size / longer`, rounded to the
/// nearest whole pixel, and never less than one pixel.
pub open spec fn scaled_side(side: u32, longer: u32, box_size: u32) -> int {
    let rounded = (side * box_size + longer / 2) / (longer as int);
    if rounded < 1 {
        1
    } else {
        rounded
    }
}

/// The dimensions of a `width` by `height` bitmap scaled to fit a square of
/// side `box_size`: the longer side becomes `box_size`, the other keeps the
/// aspect ratio. No side is ever less than one pixel.
pub open spec fn fit_within_box(width: u32, height: u32, box_size: u32) -> (int, int) {
    let longer = if width >= height {
        width
    } else {
        height
    };
    if longer == 0 {
        (1, 1)
    } else {
        (scaled_side(width, longer, box_size), scaled_side(height, longer, box_size))
    }
}

proof fn lemma_scaled_side_bounds(side: u32, longer: u32, box_size: u32)
    requires
        side <= longer,
        longer >= 1,
    ensures
        1 <= scaled_side(side, longer, box_size),
        scaled_side(side, longer, box_size) <= if box_size >= 1 {
            box_size as int
        } else {
            1
        },
        side == longer && box_size >= 1 ==> scaled_side(side, longer, box_size) == box_size,
        (scaled_side(side, longer, box_size) - 1) * longer <= side * box_size,
        box_size >= 1 ==> side * box_size <= (scaled_side(side, longer, box_size) + 1) * longer,
{
    let s = side as int;
    let l = longer as int;
    let b = box_size as int;
    let n = s * b + l / 2;
    let q = n / l;
    assert(0 <= s * b) by (nonlinear_arith)
        requires
            0 <= s,
            0 <= b,
    ;
    assert(s * b <= l * b) by (nonlinear_arith)
        requires
            0 <= s <= l,
            0 <= b,
    ;
    assert(q * l <= n < (q + 1) * l) by (nonlinear_arith)
        requires
            q == n / l,
            l >= 1,
            n >= 0,
    ;
    assert(q >= 0) by (nonlinear_arith)
        requires
            q == n / l,
            l >= 1,
            n >= 0,
    ;
    // n < l * b + l, so q <= b; and q == b when s == l
    assert(q <= b) by (nonlinear_arith)
        requires
            q * l <= n,
            n <= l * b + l / 2,
            l / 2 < l,
            l >= 1,
            q >= 0,
            b >= 0,
    ;
    if s == l {
        assert(q >= b) by (nonlinear_arith)
            requires
                n < (q + 1) * l,
                n == l * b + l / 2,
                l / 2 >= 0,
                l >= 1,
        ;
    }
    // (q - 1) * l <= n - l <= s * b, and s * b <= n < (q + 1) * l
    assert((q - 1) * l <= s * b) by (nonlinear_arith)
        requires
            q * l <= n,
            n == s * b + l / 2,
            l / 2 <= l,
    ;
    assert(s * b <= (q + 1) * l) by (nonlinear_arith)
        requires
            n < (q + 1) * l,
            n == s * b + l / 2,
            l / 2 >= 0,
    ;
    if q < 1 {
        assert((1 - 1) * l == 0);
        assert(s * b <= 2 * l) by (nonlinear_arith)
            requires
                s * b <= (q + 1) * l,
                q < 1,
                l >= 1,
        ;
    }
}

/// Box fit keeps its promises. The scaled bitmap has at least one pixel each
/// way; it fits the box; its longer side fills the box; and the shorter side
/// is within one pixel of where the aspect ratio puts it.
pub proof fn lemma_fit_within_box(width: u32, height: u32, box_size: u32)
    ensures
        ({
            let (w, h) = fit_within_box(width, height, box_size);
            &&& 1 <= w
            &&& 1 <= h
            &&& box_size >= 1 ==> w <= box_size && h <= box_size
            &&& box_size == 0 ==> w == 1 && h == 1
            &&& box_size >= 1 && width >= height && width >= 1 ==> w == box_size && (h - 1)
                * width <= height * box_size <= (h + 1) * width
            &&& box_size >= 1 && height >= width && height >= 1 ==> h == box_size && (w - 1)
                * height <= width * box_size <= (w + 1) * height
        }),
{
    let longer = if width >= height {
        width
    } else {
        height
    };
    if longer >= 1 {
        lemma_scaled_side_bounds(width, longer, box_size);
        lemma_scaled_side_bounds(height, longer, box_size);
    }
}

fn scale_side(side: u32, longer: u32, box_size: u32) -> (scaled: u32)
    requires
        side <= longer,
        longer >= 1,
    ensures
        scaled == scaled_side(side, longer, box_size),
{
    proof {
        lemma_scaled_side_bounds(side, longer, box_size);
        assert(side * box_size <= 0xffff_ffff * 0xffff_ffff) by (nonlinear_arith)
            requires
                0 <= side <= 0xffff_ffff,
                0 <= box_size <= 0xffff_ffff,
        ;
    }
    let product: u64 = (side as u64) * (box_size as u64);
    let rounded: u64 = (product + (longer as u64) / 2) / (longer as u64);
    if rounded < 1 {
        1
    } else {
        rounded as u32
    }
}

/// The dimensions that a `width` by `height` bitmap is scaled to so that it
/// fits a square of side `box_size` without cropping.
pub fn thumbnail_dimensions(width: u32, height: u32, box_size: u32) -> (fitted: (u32, u32))
    ensures
        (fitted.0 as int, fitted.1 as int) == fit_within_box(width, height, box_size),
        1 <= fitted.0,
        1 <= fitted.1,
        box_size >= 1 ==> fitted.0 <= box_size && fitted.1 <= box_size,
{
    proof {
        lemma_fit_within_box(width, height, box_size);
    }
    let longer = if width >= height {
        width
    } else {
        height
    };
    if longer == 0 {
        (1, 1)
    } else {
        (scale_side(width, longer, box_size), scale_side(height, longer, box_size))
    }
}

// ---------------------------------------------------------------------------
// Encoding for transport
// ---------------------------------------------------------------------------
/// Whether `length` bytes can be wrapped as text: the text must not be longer
/// than a buffer can be.
pub open spec fn encodable(length: nat) -> bool {
    4 * ((length + 2) / 3) <= usize::MAX / 2
}

/// The transport text of `bytes`, or the kind of failure where they are too
/// many to wrap.
pub open spec fn wrapped(bytes: Seq<u8>) -> Result<Seq<char>, SpicaErrorKind> {
    if encodable(bytes.len()) {
        Ok(base64_text(bytes))
    } else {
        Err(SpicaErrorKind::ImageError)
    }
}

/// The format a bitmap is written out in when `format` is asked for: JPEG
/// where none is named.
pub open spec fn written_as(format: ImageFormat) -> ImageFormat {
    if format == ImageFormat::Unknown {
        ImageFormat::Jpeg
    } else {
        format
    }
}

/// The transport text of the bitmap with the given content, written out in
/// `format`.
pub open spec fn rendered(content: Seq<u8>, format: ImageFormat) -> Result<
    Seq<char>,
    SpicaErrorKind,
> {
    match encoded_content(content, written_as(format)) {
        Some(bytes) => wrapped(bytes),
        None => Err(SpicaErrorKind::ImageError),
    }
}

/// The thumbnail of the bitmap with the given content: the bitmap scaled to
/// fit a square of side `size`, written out as JPEG, as transport text.
pub open spec fn thumbnail_of(content: Seq<u8>, size: u32) -> Result<Seq<char>, SpicaErrorKind> {
    let (width, height) = content_dimensions(content);
    let (w, h) = fit_within_box(width, height, size);
    if !scalable((width, height), content_depth(content), w as u32, h as u32) {
        Err(SpicaErrorKind::ImageError)
    } else {
        rendered(scaled_content(content, w as u32, h as u32), ImageFormat::Jpeg)
    }
}

/// What `generate_thumbnail` makes of a file at `path` that holds `data`.
pub open spec fn thumbnail_outcome(path: Seq<char>, data: Seq<u8>, size: u32) -> Result<
    Seq<char>,
    SpicaErrorKind,
> {
    let format = path_format(path);
    if format == ImageFormat::Unknown {
        Err(SpicaErrorKind::InvalidFormat)
    } else {
        match decoded_content(data, format) {
            Some(content) => thumbnail_of(content, size),
            None => Err(SpicaErrorKind::DecodeError),
        }
    }
}

/// What `load_image_as_base64` makes of a file at `path` that holds `data`.
/// The bytes of a GIF go out as they are, so that an animation survives.
pub open spec fn full_image_outcome(path: Seq<char>, data: Seq<u8>) -> Result<
    Seq<char>,
    SpicaErrorKind,
> {
    let format = path_format(path);
    if format == ImageFormat::Unknown {
        Err(SpicaErrorKind::InvalidFormat)
    } else if format == ImageFormat::Gif {
        wrapped(data)
    } else {
        match decoded_content(data, format) {
            Some(content) => rendered(content, format),
            None => Err(SpicaErrorKind::DecodeError),
        }
    }
}

/// What `get_image_dimensions` makes of a file at `path` that holds `data`.
pub open spec fn dimensions_outcome(path: Seq<char>, data: Seq<u8>) -> Result<
    (u32, u32),
    SpicaErrorKind,
> {
    let format = path_format(path);
    if format == ImageFormat::Unknown {
        Err(SpicaErrorKind::InvalidFormat)
    } else {
        match probed_dimensions(data, format) {
            Some(size) => Ok(size),
            None => Err(SpicaErrorKind::DecodeError),
        }
    }
}

/// Whether `result` is the text, or the kind of failure, that `outcome` names.
pub open spec fn text_agrees(
    result: Result<String, SpicaError>,
    outcome: Result<Seq<char>, SpicaErrorKind>,
) -> bool {
    match result {
        Ok(text) => outcome == Ok::<Seq<char>, SpicaErrorKind>(text@),
        Err(error) => outcome == Err::<Seq<char>, SpicaErrorKind>(error.spec_kind()),
    }
}

/// Wraps `bytes` as base64 text.
pub fn bytes_to_base64(bytes: &[u8]) -> (result: Result<String, SpicaError>)
    ensures
        text_agrees(result, wrapped(bytes@)),
        result matches Ok(text) ==> text@.len() == 4 * ((bytes@.len() + 2) / 3),
{
    let groups = bytes.len() / 3 + if bytes.len() % 3 != 0 {
        1
    } else {
        0
    };
    assert(groups == (bytes@.len() + 2) / 3);
    if groups <= usize::MAX / 2 / 4 {
        Ok(base64_encode(bytes))
    } else {
        Err(SpicaError::ImageError(String::from_str("Image is too large to encode as text")))
    }
}

/// Writes the bitmap out in `format` and wraps the file as base64 text.
/// `Unknown` is written as JPEG.
pub fn image_to_base64(image: &DynamicImage, format: ImageFormat) -> (result: Result<
    String,
    SpicaError,
>)
    ensures
        text_agrees(result, rendered(image_content(*image), format)),
{
    let target = if format == ImageFormat::Unknown {
        ImageFormat::Jpeg
    } else {
        format
    };
    match encode_image(image, target) {
        Ok(bytes) => bytes_to_base64(bytes.as_slice()),
        Err(error) => Err(SpicaError::ImageError(error.to_string())),
    }
}

/// Whether a bitmap of the given dimensions and sample depth can be scaled
/// to `width` by `height`.
pub fn is_scalable(source: (u32, u32), depth: SampleDepth, width: u32, height: u32) -> (ok: bool)
    ensures
        ok == scalable(source, depth, width, height),
{
    if width < 1 || height < 1 {
        return false;
    }
    assert(width * height <= 0xffff_ffff * 0xffff_ffff) by (nonlinear_arith)
        requires
            0 <= width <= 0xffff_ffff,
            0 <= height <= 0xffff_ffff,
    ;
    if (width as u64) * (height as u64) > MAX_BITMAP_PIXELS {
        return false;
    }
    if source.0 > MAX_SCALABLE_SIDE || source.1 > MAX_SCALABLE_SIDE {
        return false;
    }
    let across: u64 = (source.0 / width) as u64 + 4;
    let down: u64 = (source.1 / height) as u64 + 4;
    let ceiling: u64 = match depth {
        SampleDepth::Eight => 0x100,
        SampleDepth::Sixteen => 0x1_0000,
        SampleDepth::Float => 1,
    };
    assert(across == block_side(source.0, width));
    assert(down == block_side(source.1, height));
    assert(ceiling == sample_ceiling(depth));
    assert(across * down <= 0x100_0003 * 0x100_0003) by (nonlinear_arith)
        requires
            0 <= across <= 0x100_0003,
            0 <= down <= 0x100_0003,
    ;
    let block: u64 = across * down;
    if block > 0xffff_ffff {
        assert(block * ceiling > 0xffff_ffff) by (nonlinear_arith)
            requires
                block > 0xffff_ffff,
                ceiling >= 1,
        ;
        return false;
    }
    assert(block * ceiling <= 0xffff_ffff * 0x1_0000) by (nonlinear_arith)
        requires
            0 <= block <= 0xffff_ffff,
            0 <= ceiling <= 0x1_0000,
    ;
    block * ceiling <= 0xffff_ffff
}

/// Scales a bitmap to fit a square of side `box_size` without cropping: the
/// longer side becomes `box_size`, the aspect ratio is kept. A bitmap that
/// cannot be scaled to those dimensions is refused: the result would have too
/// many pixels, or too many bright source pixels would go into one of its
/// pixels for their sum to be held.
pub fn resize_to_box(image: &DynamicImage, box_size: u32) -> (result: Result<
    DynamicImage,
    SpicaError,
>)
    ensures
        ({
            let content = image_content(*image);
            let source = content_dimensions(content);
            let (w, h) = fit_within_box(source.0, source.1, box_size);
            let fits = scalable(source, content_depth(content), w as u32, h as u32);
            match result {
                Ok(scaled) => {
                    &&& fits
                    &&& image_content(scaled) == scaled_content(content, w as u32, h as u32)
                    &&& content_dimensions(image_content(scaled)) == (w as u32, h as u32)
                },
                Err(error) => !fits && error.spec_kind() == SpicaErrorKind::ImageError,
            }
        }),
{
    let source = image_dimensions(image);
    let (w, h) = thumbnail_dimensions(source.0, source.1, box_size);
    if !is_scalable(source, image_depth(image), w, h) {
        return Err(
            SpicaError::ImageError(String::from_str("Image cannot be scaled to this size")),
        );
    }
    Ok(scale_image(image, w, h))
}

/// The thumbnail of a decoded bitmap: scaled to fit a square of side `size`
/// with its aspect ratio kept, written out as JPEG, as base64 text.
pub fn thumbnail_from_image(image: &DynamicImage, size: u32) -> (result: Result<
    String,
    SpicaError,
>)
    ensures
        text_agrees(result, thumbnail_of(image_content(*image), size)),
{
    match resize_to_box(image, size) {
        Ok(scaled) => image_to_base64(&scaled, ImageFormat::Jpeg),
        Err(error) => Err(error),
    }
}

/// Generates the thumbnail of the image file at `path`, whose contents are
/// `data`, for a square of side `size`. The extension of the path says how
/// the contents are decoded.
pub fn generate_thumbnail(path: &str, data: &[u8], size: u32) -> (result: Result<
    String,
    SpicaError,
>)
    ensures
        text_agrees(result, thumbnail_outcome(path@, data@, size)),
{
    let format = match get_image_format(path) {
        Some(format) => format,
        None => {
            return Err(SpicaError::InvalidFormat(String::from_str("Unsupported file format")));
        },
    };
    match decode_image(data, format) {
        Ok(image) => thumbnail_from_image(&image, size),
        Err(error) => Err(SpicaError::DecodeError(error.to_string())),
    }
}

/// The image file at `path`, whose contents are `data`, as base64 text for
/// display at full size. A GIF is passed through byte for byte; any other
/// format is decoded and written out again in its own format.
pub fn load_image_as_base64(path: &str, data: &[u8]) -> (result: Result<String, SpicaError>)
    ensures
        text_agrees(result, full_image_outcome(path@, data@)),
        path_format(path@) == ImageFormat::Gif ==> (result matches Ok(text) ==> text@
            == base64_text(data@) && text@.len() == 4 * ((data@.len() + 2) / 3)),
        path_format(path@) == ImageFormat::Gif && encodable(data@.len()) ==> result is Ok,
{
    let format = match get_image_format(path) {
        Some(format) => format,
        None => {
            return Err(SpicaError::InvalidFormat(String::from_str("Unsupported file format")));
        },
    };
    if format == ImageFormat::Gif {
        return bytes_to_base64(data);
    }
    match decode_image(data, format) {
        Ok(image) => image_to_base64(&image, format),
        Err(error) => Err(SpicaError::DecodeError(error.to_string())),
    }
}

/// Width and height of the image file at `path`, whose contents are `data`,
/// read from its header without decoding the pixels.
pub fn get_image_dimensions(path: &str, data: &[u8]) -> (result: Result<(u32, u32), SpicaError>)
    ensures
        match result {
            Ok(size) => dimensions_outcome(path@, data@) == Ok::<(u32, u32), SpicaErrorKind>(size),
            Err(error) => dimensions_outcome(path@, data@) == Err::<(u32, u32), SpicaErrorKind>(
                error.spec_kind(),
            ),
        },
{
    let format = match get_image_format(path) {
        Some(format) => format,
        None => {
            return Err(SpicaError::InvalidFormat(String::from_str("Unsupported file format")));
        },
    };
    match probe_dimensions(data, format) {
        Ok(size) => Ok(size),
        Err(error) => Err(SpicaError::DecodeError(error.to_string())),
    }
}

} // verus!
