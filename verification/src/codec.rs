//! The image codecs and the text encoding, which other crates provide. Every
//! function here is a thin call into one of them; its contract is taken on
//! trust from that crate's source and documentation.

use crate::format::ImageFormat;
use base64::Engine;
use image::DynamicImage;
use image::ImageError;
use vstd::prelude::*;

verus! {

/// A decoded bitmap of the `image` crate. Nothing inside it is visible here.
#[verifier::external_type_specification]
#[verifier::external_body]
pub struct ExDynamicImage(image::DynamicImage);

/// The error type of the `image` crate.
#[verifier::external_type_specification]
#[verifier::external_body]
pub struct ExImageError(image::ImageError);

/// The most pixels a bitmap made here may have. At sixteen bytes a pixel, the
/// largest layout there is, such a bitmap still fits the address space of a
/// 32-bit machine.
pub const MAX_BITMAP_PIXELS: u64 = 0x400_0000;

/// The largest side a bitmap may have to be scaled here. Up to it, every
/// pixel position is a whole number that single-precision arithmetic holds
/// exactly.
pub const MAX_SCALABLE_SIDE: u32 = 0xff_ffff;

/// How wide the samples of a bitmap are.
#[derive(Debug, Clone, Copy, PartialEq, Eq, Structural)]
pub enum SampleDepth {
    /// Eight bits a sample.
    Eight,
    /// Sixteen bits a sample.
    Sixteen,
    /// A floating-point number a sample.
    Float,
}

/// Everything that a bitmap holds: its colour type, its dimensions and its
/// samples, as one sequence of bytes.
pub uninterp spec fn image_content(image: DynamicImage) -> Seq<u8>;

/// The content of the bitmap that `data` decodes to when read as `format`;
/// `None` where the decoder rejects it.
pub uninterp spec fn decoded_content(data: Seq<u8>, format: ImageFormat) -> Option<Seq<u8>>;

/// Width and height of the bitmap with the given content.
pub uninterp spec fn content_dimensions(content: Seq<u8>) -> (u32, u32);

/// How wide the samples of the bitmap with the given content are.
pub uninterp spec fn content_depth(content: Seq<u8>) -> SampleDepth;

/// The content of a bitmap after it was resampled to `width` by `height`.
pub uninterp spec fn scaled_content(content: Seq<u8>, width: u32, height: u32) -> Seq<u8>;

/// The file that a bitmap is written out as in `format`; `None` where the
/// encoder refuses it.
pub uninterp spec fn encoded_content(content: Seq<u8>, format: ImageFormat) -> Option<Seq<u8>>;

/// Width and height that the header of `data` declares when read as
/// `format`; `None` where the header cannot be read.
pub uninterp spec fn probed_dimensions(data: Seq<u8>, format: ImageFormat) -> Option<(u32, u32)>;

/// The standard base64 text of `data`, with padding.
pub uninterp spec fn base64_text(data: Seq<u8>) -> Seq<char>;

/// The most source pixels along one side that go into one pixel of the
/// scaled bitmap: the whole ratio of the two sides, and four more for what
/// rounding can add.
pub open spec fn block_side(source: u32, target: u32) -> int {
    source as int / target as int + 4
}

/// One more than the largest value a sample of the given depth can have; one
/// for floating-point samples, which are summed in floating point.
pub open spec fn sample_ceiling(depth: SampleDepth) -> int {
    match depth {
        SampleDepth::Eight => 0x100,
        SampleDepth::Sixteen => 0x1_0000,
        SampleDepth::Float => 1,
    }
}

/// Whether a bitmap of the given dimensions and depth can be scaled to
/// `width` by `height`. Scaling averages each block of source pixels in a
/// 32-bit sum: the sum of a block of the brightest samples, and half the
/// block's size for rounding, must fit in it.
pub open spec fn scalable(
    source: (u32, u32),
    depth: SampleDepth,
    width: u32,
    height: u32,
) -> bool {
    &&& 1 <= width
    &&& 1 <= height
    &&& width * height <= MAX_BITMAP_PIXELS
    &&& source.0 <= MAX_SCALABLE_SIDE
    &&& source.1 <= MAX_SCALABLE_SIDE
    &&& block_side(source.0, width) * block_side(source.1, height) * sample_ceiling(depth)
        <= u32::MAX
}

/// Calls `image::load_from_memory_with_format`, which decodes `data` with the
/// decoder of the named format and no other. What comes back depends on the
/// bytes and the format alone.
#[verifier::external_body]
pub(crate) fn decode_image(data: &[u8], format: ImageFormat) -> (decoded: Result<
    DynamicImage,
    ImageError,
>)
    requires
        format != ImageFormat::Unknown,
    ensures
        match decoded {
            Ok(image) => decoded_content(data@, format) == Some(image_content(image)),
            Err(_) => decoded_content(data@, format) is None,
        },
{
    let codec = match format {
        ImageFormat::Png => image::ImageFormat::Png,
        ImageFormat::Webp => image::ImageFormat::WebP,
        ImageFormat::Gif => image::ImageFormat::Gif,
        _ => image::ImageFormat::Jpeg,
    };
    image::load_from_memory_with_format(data, codec)
}

/// Calls `GenericImageView::dimensions` on the bitmap: its width and height.
#[verifier::external_body]
pub(crate) fn image_dimensions(image: &DynamicImage) -> (size: (u32, u32))
    ensures
        size == content_dimensions(image_content(*image)),
{
    image::GenericImageView::dimensions(image)
}

/// Calls `DynamicImage::color` and tells the colour types apart by the width
/// of their samples.
#[verifier::external_body]
pub(crate) fn image_depth(image: &DynamicImage) -> (depth: SampleDepth)
    ensures
        depth == content_depth(image_content(*image)),
{
    match image.color() {
        image::ColorType::L8
        | image::ColorType::La8
        | image::ColorType::Rgb8
        | image::ColorType::Rgba8 => SampleDepth::Eight,
        image::ColorType::Rgb32F | image::ColorType::Rgba32F => SampleDepth::Float,
        _ => SampleDepth::Sixteen,
    }
}

/// Calls `DynamicImage::thumbnail_exact`, which resamples the bitmap to
/// exactly the dimensions given, without regard to its aspect ratio. It sums
/// each block of source pixels in 32 bits and allocates the new buffer:
/// `scalable` keeps the sums from overflowing and the buffer's size within
/// `isize`.
#[verifier::external_body]
pub(crate) fn scale_image(image: &DynamicImage, width: u32, height: u32) -> (scaled: DynamicImage)
    requires
        scalable(
            content_dimensions(image_content(*image)),
            content_depth(image_content(*image)),
            width,
            height,
        ),
    ensures
        image_content(scaled) == scaled_content(image_content(*image), width, height),
        content_dimensions(image_content(scaled)) == (width, height),
{
    image.thumbnail_exact(width, height)
}

/// Calls `DynamicImage::write_to` on a buffer in memory, which encodes the
/// bitmap as a file of the named format.
#[verifier::external_body]
pub(crate) fn encode_image(image: &DynamicImage, format: ImageFormat) -> (encoded: Result<
    Vec<u8>,
    ImageError,
>)
    requires
        format != ImageFormat::Unknown,
    ensures
        match encoded {
            Ok(bytes) => encoded_content(image_content(*image), format) == Some(bytes@),
            Err(_) => encoded_content(image_content(*image), format) is None,
        },
{
    let codec = match format {
        ImageFormat::Png => image::ImageFormat::Png,
        ImageFormat::Webp => image::ImageFormat::WebP,
        ImageFormat::Gif => image::ImageFormat::Gif,
        _ => image::ImageFormat::Jpeg,
    };
    let mut bytes = Vec::new();
    image.write_to(&mut std::io::Cursor::new(&mut bytes), codec)?;
    Ok(bytes)
}

/// Calls `ImageReader::into_dimensions` on a reader made with
/// `ImageReader::with_format`: the decoder of the named format reads the
/// header and reports the dimensions it declares, without decoding the
/// pixels.
#[verifier::external_body]
pub(crate) fn probe_dimensions(data: &[u8], format: ImageFormat) -> (size: Result<
    (u32, u32),
    ImageError,
>)
    requires
        format != ImageFormat::Unknown,
    ensures
        match size {
            Ok(found) => probed_dimensions(data@, format) == Some(found),
            Err(_) => probed_dimensions(data@, format) is None,
        },
{
    let codec = match format {
        ImageFormat::Png => image::ImageFormat::Png,
        ImageFormat::Webp => image::ImageFormat::WebP,
        ImageFormat::Gif => image::ImageFormat::Gif,
        _ => image::ImageFormat::Jpeg,
    };
    image::ImageReader::with_format(std::io::Cursor::new(data), codec).into_dimensions()
}

/// Calls `Engine::encode` of `base64::engine::general_purpose::STANDARD`:
/// four characters of text for every three bytes, the last group padded. The
/// bound keeps the length of the text within `isize`.
#[verifier::external_body]
pub(crate) fn base64_encode(data: &[u8]) -> (text: String)
    requires
        4 * ((data@.len() + 2) / 3) <= usize::MAX / 2,
    ensures
        text@ == base64_text(data@),
        text@.len() == 4 * ((data@.len() + 2) / 3),
{
    base64::engine::general_purpose::STANDARD.encode(data)
}

} // verus!
