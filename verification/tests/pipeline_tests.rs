use base64::Engine;
use image::{DynamicImage, ImageBuffer, Luma, Rgb};
use spica_photo_viewer::codec::SampleDepth;
use spica_photo_viewer::error::SpicaErrorKind;
use spica_photo_viewer::format::ImageFormat;
use spica_photo_viewer::pipeline::{
    bytes_to_base64, generate_thumbnail, get_image_dimensions, image_to_base64, is_scalable,
    load_image_as_base64, resize_to_box, thumbnail_dimensions, thumbnail_from_image,
};
use std::io::Cursor;

fn solid(width: u32, height: u32, rgb: [u8; 3]) -> DynamicImage {
    DynamicImage::ImageRgb8(ImageBuffer::from_fn(width, height, |_x, _y| Rgb(rgb)))
}

fn encoded(image: &DynamicImage, format: image::ImageFormat) -> Vec<u8> {
    let mut bytes = Vec::new();
    image
        .write_to(&mut Cursor::new(&mut bytes), format)
        .expect("encoding a test image");
    bytes
}

/// A 1x1 red JPEG, as the file `test.jpg` would hold it.
fn create_test_jpeg() -> Vec<u8> {
    encoded(&solid(1, 1, [255, 0, 0]), image::ImageFormat::Jpeg)
}

/// A 1x1 green PNG.
fn create_test_png() -> Vec<u8> {
    encoded(&solid(1, 1, [0, 255, 0]), image::ImageFormat::Png)
}

/// JPEG bytes under a `.webp` name.
fn create_test_webp() -> Vec<u8> {
    encoded(&solid(1, 1, [0, 0, 255]), image::ImageFormat::Jpeg)
}

/// A minimal valid GIF: one black pixel.
fn create_test_gif() -> Vec<u8> {
    vec![
        0x47, 0x49, 0x46, 0x38, 0x39, 0x61, 0x01, 0x00, 0x01, 0x00, 0x80, 0x00, 0x00, 0x00, 0x00,
        0x00, 0xFF, 0xFF, 0xFF, 0x21, 0xF9, 0x04, 0x01, 0x00, 0x00, 0x00, 0x00, 0x2C, 0x00, 0x00,
        0x00, 0x00, 0x01, 0x00, 0x01, 0x00, 0x00, 0x02, 0x02, 0x04, 0x01, 0x00, 0x3B,
    ]
}

fn create_invalid_image() -> Vec<u8> {
    b"invalid image data".to_vec()
}

fn decode_payload(payload: &str) -> DynamicImage {
    let bytes = base64::engine::general_purpose::STANDARD
        .decode(payload)
        .expect("payload is base64");
    image::load_from_memory(&bytes).expect("payload is an image")
}

#[test]
fn test_get_image_dimensions_with_jpeg() {
    let result = get_image_dimensions("test.jpg", &create_test_jpeg());
    assert!(result.is_ok());
    let (width, height) = result.unwrap();
    assert_eq!(width, 1);
    assert_eq!(height, 1);
}

#[test]
fn test_get_image_dimensions_with_png() {
    let result = get_image_dimensions("test.png", &create_test_png());
    assert!(result.is_ok());
    let (width, height) = result.unwrap();
    assert_eq!(width, 1);
    assert_eq!(height, 1);
}

#[test]
fn test_get_image_dimensions_with_webp() {
    let result = get_image_dimensions("test.webp", &create_test_webp());
    match result {
        Ok((width, height)) => {
            assert!(width > 0);
            assert!(height > 0);
        }
        Err(_) => {}
    }
}

#[test]
fn test_get_image_dimensions_with_gif() {
    let result = get_image_dimensions("test.gif", &create_test_gif());
    assert!(result.is_ok());
    let (width, height) = result.unwrap();
    assert_eq!(width, 1);
    assert_eq!(height, 1);
}

#[test]
fn test_get_image_dimensions_with_invalid_file() {
    let result = get_image_dimensions("invalid.jpg", &create_invalid_image());
    assert!(result.is_err());
}

#[test]
fn test_load_image_as_base64_with_jpeg() {
    let result = load_image_as_base64("test.jpg", &create_test_jpeg());
    assert!(result.is_ok());
    let base64_data = result.unwrap();
    assert!(!base64_data.is_empty());
}

#[test]
fn test_load_image_as_base64_with_gif() {
    let result = load_image_as_base64("test.gif", &create_test_gif());
    assert!(result.is_ok());
    let base64_data = result.unwrap();
    assert!(!base64_data.is_empty());
    assert!(base64_data.len() > 0);
}

#[test]
fn test_load_image_as_base64_with_invalid_file() {
    let result = load_image_as_base64("invalid.jpg", &create_invalid_image());
    assert!(result.is_err());
}

#[test]
fn test_generate_thumbnail_with_valid_image() {
    let result = generate_thumbnail("test.jpg", &create_test_jpeg(), 30);
    assert!(result.is_ok());
    let thumbnail_data = result.unwrap();
    assert!(!thumbnail_data.is_empty());
}

#[test]
fn test_generate_thumbnail_with_invalid_file() {
    let result = generate_thumbnail("invalid.jpg", &create_invalid_image(), 30);
    assert!(result.is_err());
}

#[test]
fn gif_bytes_pass_through_unchanged() {
    let gif = create_test_gif();
    let payload = load_image_as_base64("anim.GIF", &gif).unwrap();
    let back = base64::engine::general_purpose::STANDARD
        .decode(payload)
        .unwrap();
    assert_eq!(back, gif);
}

#[test]
fn gif_is_not_decoded_for_full_size_display() {
    let payload = load_image_as_base64("broken.gif", b"not a gif at all").unwrap();
    assert_eq!(payload, "bm90IGEgZ2lmIGF0IGFsbA==");
}

#[test]
fn base64_is_standard_and_padded() {
    assert_eq!(bytes_to_base64(b"").unwrap(), "");
    assert_eq!(bytes_to_base64(b"f").unwrap(), "Zg==");
    assert_eq!(bytes_to_base64(b"fo").unwrap(), "Zm8=");
    assert_eq!(bytes_to_base64(b"foo").unwrap(), "Zm9v");
    assert_eq!(bytes_to_base64(b"foobar").unwrap(), "Zm9vYmFy");
    assert_eq!(bytes_to_base64(&[0xfb, 0xff]).unwrap(), "+/8=");
}

#[test]
fn base64_text_has_four_characters_per_three_bytes() {
    for length in 0usize..20 {
        let bytes = vec![7u8; length];
        assert_eq!(bytes_to_base64(&bytes).unwrap().len(), 4 * ((length + 2) / 3));
    }
}

#[test]
fn png_is_written_out_as_png_again() {
    let payload = load_image_as_base64("test.png", &create_test_png()).unwrap();
    let bytes = base64::engine::general_purpose::STANDARD
        .decode(payload)
        .unwrap();
    assert_eq!(
        image::guess_format(&bytes).unwrap(),
        image::ImageFormat::Png
    );
}

#[test]
fn unsupported_extension_is_rejected_before_decoding() {
    let jpeg = create_test_jpeg();
    assert_eq!(
        generate_thumbnail("photo.bmp", &jpeg, 30).unwrap_err().kind(),
        SpicaErrorKind::InvalidFormat
    );
    assert_eq!(
        load_image_as_base64("photo", &jpeg).unwrap_err().kind(),
        SpicaErrorKind::InvalidFormat
    );
    assert_eq!(
        get_image_dimensions("photo.txt", &jpeg).unwrap_err().kind(),
        SpicaErrorKind::InvalidFormat
    );
}

#[test]
fn undecodable_contents_are_a_decode_error() {
    assert_eq!(
        generate_thumbnail("photo.jpg", b"This is not an image", 30)
            .unwrap_err()
            .kind(),
        SpicaErrorKind::DecodeError
    );
    assert_eq!(
        load_image_as_base64("photo.png", b"This is not an image")
            .unwrap_err()
            .kind(),
        SpicaErrorKind::DecodeError
    );
    assert_eq!(
        get_image_dimensions("photo.jpg", b"This is not an image")
            .unwrap_err()
            .kind(),
        SpicaErrorKind::DecodeError
    );
}

#[test]
fn contents_are_decoded_as_the_extension_says() {
    // JPEG bytes under a PNG name: the PNG decoder refuses them.
    assert_eq!(
        generate_thumbnail("photo.png", &create_test_jpeg(), 30)
            .unwrap_err()
            .kind(),
        SpicaErrorKind::DecodeError
    );
}

#[test]
fn thumbnail_dimensions_exact_values() {
    assert_eq!(thumbnail_dimensions(4000, 3000, 30), (30, 23));
    assert_eq!(thumbnail_dimensions(3000, 4000, 30), (23, 30));
    assert_eq!(thumbnail_dimensions(100, 100, 30), (30, 30));
    assert_eq!(thumbnail_dimensions(1, 1, 30), (30, 30));
    assert_eq!(thumbnail_dimensions(10, 4, 5), (5, 2));
    assert_eq!(thumbnail_dimensions(10, 5, 3), (3, 2));
    assert_eq!(thumbnail_dimensions(10, 3, 5), (5, 2));
    assert_eq!(thumbnail_dimensions(10000, 1, 30), (30, 1));
    assert_eq!(thumbnail_dimensions(640, 480, 0), (1, 1));
    assert_eq!(thumbnail_dimensions(0, 0, 30), (1, 1));
    assert_eq!(thumbnail_dimensions(0, 7, 30), (1, 30));
    assert_eq!(
        thumbnail_dimensions(u32::MAX, u32::MAX, u32::MAX),
        (u32::MAX, u32::MAX)
    );
    assert_eq!(thumbnail_dimensions(u32::MAX, 1, u32::MAX), (u32::MAX, 1));
}

#[test]
fn thumbnail_fits_the_box_and_keeps_the_aspect_ratio() {
    for &(width, height) in &[(4000u32, 3000u32), (3000, 4000), (17, 5), (5, 17), (1, 900)] {
        for &size in &[1u32, 2, 30, 64, 4096] {
            let (w, h) = thumbnail_dimensions(width, height, size);
            assert!(1 <= w && w <= size);
            assert!(1 <= h && h <= size);
            assert_eq!(w.max(h), size);
            let (w, h, width, height) = (w as u64, h as u64, width as u64, height as u64);
            let size = size as u64;
            if width >= height {
                assert!((h - 1) * width <= height * size && height * size <= (h + 1) * width);
            } else {
                assert!((w - 1) * height <= width * size && width * size <= (w + 1) * height);
            }
        }
    }
}

#[test]
fn thumbnail_of_a_large_jpeg_fits_thirty_pixels() {
    let source = encoded(&solid(4000, 3000, [10, 120, 200]), image::ImageFormat::Jpeg);
    let payload = generate_thumbnail("/photos/large.jpg", &source, 30).unwrap();
    let thumbnail = decode_payload(&payload);
    assert!(thumbnail.width() <= 30);
    assert!(thumbnail.height() <= 30);
    assert_eq!((thumbnail.width(), thumbnail.height()), (30, 23));
}

#[test]
fn thumbnail_payload_is_a_jpeg() {
    let payload = generate_thumbnail("test.png", &create_test_png(), 8).unwrap();
    let bytes = base64::engine::general_purpose::STANDARD
        .decode(payload)
        .unwrap();
    assert_eq!(
        image::guess_format(&bytes).unwrap(),
        image::ImageFormat::Jpeg
    );
    let thumbnail = image::load_from_memory(&bytes).unwrap();
    assert_eq!((thumbnail.width(), thumbnail.height()), (8, 8));
}

#[test]
fn thumbnail_is_the_same_on_every_call() {
    let source = encoded(&solid(40, 30, [1, 2, 3]), image::ImageFormat::Png);
    let first = generate_thumbnail("a.png", &source, 30).unwrap();
    let second = generate_thumbnail("a.png", &source, 30).unwrap();
    assert_eq!(first, second);
}

#[test]
fn thumbnail_from_image_scales_a_bitmap_in_memory() {
    let payload = thumbnail_from_image(&solid(200, 50, [9, 9, 9]), 20).unwrap();
    let thumbnail = decode_payload(&payload);
    assert_eq!((thumbnail.width(), thumbnail.height()), (20, 5));
}

#[test]
fn thumbnail_too_large_for_a_bitmap_is_refused() {
    let error = thumbnail_from_image(&solid(2, 2, [0, 0, 0]), 100_000).unwrap_err();
    assert_eq!(error.kind(), SpicaErrorKind::ImageError);
}

#[test]
fn image_to_base64_writes_the_named_format() {
    let image = solid(3, 2, [200, 100, 50]);
    for (format, expected) in [
        (ImageFormat::Png, image::ImageFormat::Png),
        (ImageFormat::Jpeg, image::ImageFormat::Jpeg),
        (ImageFormat::Gif, image::ImageFormat::Gif),
        (ImageFormat::Webp, image::ImageFormat::WebP),
        (ImageFormat::Unknown, image::ImageFormat::Jpeg),
    ] {
        let payload = image_to_base64(&image, format).unwrap();
        let bytes = base64::engine::general_purpose::STANDARD
            .decode(payload)
            .unwrap();
        assert_eq!(image::guess_format(&bytes).unwrap(), expected);
        let back = image::load_from_memory(&bytes).unwrap();
        assert_eq!((back.width(), back.height()), (3, 2));
    }
}

#[test]
fn resize_to_box_fills_the_box_on_the_longer_side() {
    let wide = resize_to_box(&solid(300, 100, [1, 1, 1]), 30).unwrap();
    assert_eq!((wide.width(), wide.height()), (30, 10));
    let tall = resize_to_box(&solid(100, 300, [1, 1, 1]), 30).unwrap();
    assert_eq!((tall.width(), tall.height()), (10, 30));
    // a small bitmap is scaled up to the box
    let small = resize_to_box(&solid(2, 1, [1, 1, 1]), 8).unwrap();
    assert_eq!((small.width(), small.height()), (8, 4));
    // a box of nothing still leaves one pixel
    let dot = resize_to_box(&solid(20, 10, [1, 1, 1]), 0).unwrap();
    assert_eq!((dot.width(), dot.height()), (1, 1));
    assert_eq!(
        resize_to_box(&solid(2, 2, [0, 0, 0]), 10_000).unwrap_err().kind(),
        SpicaErrorKind::ImageError
    );
}

#[test]
fn bright_sixteen_bit_image_is_refused_where_its_blocks_cannot_be_summed() {
    // 300 x 300 samples of 65535 into one pixel: more than 32 bits hold.
    let white = DynamicImage::ImageLuma16(ImageBuffer::from_pixel(300, 300, Luma([65535u16])));
    let source = encoded(&white, image::ImageFormat::Png);
    let refused = generate_thumbnail("x.png", &source, 1).unwrap_err();
    assert_eq!(refused.kind(), SpicaErrorKind::ImageError);
    assert_eq!(resize_to_box(&white, 1).unwrap_err().kind(), SpicaErrorKind::ImageError);
    // at a larger box the blocks are small enough
    let scaled = resize_to_box(&white, 30).unwrap();
    assert_eq!((scaled.width(), scaled.height()), (30, 30));
    assert_eq!(scaled.to_luma16().get_pixel(15, 15).0, [65535]);
    let payload = generate_thumbnail("x.png", &source, 30).unwrap();
    assert_eq!(decode_payload(&payload).width(), 30);
}

#[test]
fn bright_eight_bit_image_is_scaled_to_one_pixel() {
    let white = solid(300, 300, [255, 255, 255]);
    let dot = resize_to_box(&white, 1).unwrap();
    assert_eq!((dot.width(), dot.height()), (1, 1));
    assert_eq!(dot.to_rgb8().get_pixel(0, 0).0, [255, 255, 255]);
}

#[test]
fn scalability_exact_values() {
    // block sides are 300 / 1 + 4 = 304 each: 92416 pixels a block
    assert!(is_scalable((300, 300), SampleDepth::Eight, 1, 1));
    assert!(!is_scalable((300, 300), SampleDepth::Sixteen, 1, 1));
    assert!(is_scalable((300, 300), SampleDepth::Float, 1, 1));
    // 255 * 255 * 65536 is below 2^32, 256 * 256 * 65536 is 2^32
    assert!(is_scalable((251, 251), SampleDepth::Sixteen, 1, 1));
    assert!(!is_scalable((252, 252), SampleDepth::Sixteen, 1, 1));
    // 4095 * 4095 * 256 is below 2^32, 4096 * 4096 * 256 is 2^32
    assert!(is_scalable((4091, 4091), SampleDepth::Eight, 1, 1));
    assert!(!is_scalable((4092, 4092), SampleDepth::Eight, 1, 1));
    assert!(is_scalable((4000, 3000), SampleDepth::Eight, 30, 23));
    assert!(is_scalable((12000, 9000), SampleDepth::Eight, 30, 23));
    // no side of nothing, no more than 2^26 pixels, no side above 2^24 - 1
    assert!(!is_scalable((10, 10), SampleDepth::Eight, 0, 1));
    assert!(!is_scalable((10, 10), SampleDepth::Eight, 1, 0));
    assert!(is_scalable((10, 10), SampleDepth::Eight, 8192, 8192));
    assert!(!is_scalable((10, 10), SampleDepth::Eight, 8193, 8192));
    assert!(is_scalable((0xff_ffff, 1), SampleDepth::Eight, 0xff_ffff, 1));
    assert!(!is_scalable((0x100_0000, 1), SampleDepth::Eight, 0xff_ffff, 1));
    assert!(!is_scalable((1, 0x100_0000), SampleDepth::Float, 1, 1));
}

#[test]
fn gif_text_has_the_length_of_its_bytes_in_base64() {
    let gif = create_test_gif();
    let payload = load_image_as_base64("a.gif", &gif).unwrap();
    assert_eq!(payload.len(), 4 * ((gif.len() + 2) / 3));
    assert_eq!(gif.len(), 43);
    assert_eq!(payload.len(), 60);
}
