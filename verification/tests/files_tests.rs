use image::{DynamicImage, ImageBuffer, Rgb};
use spica_photo_viewer::error::{describe, SpicaError, SpicaErrorKind};
use spica_photo_viewer::files::{
    check_image_path, check_image_source, generate_image_thumbnail,
    generate_thumbnail_with_dimensions,
    get_image_info, get_startup_file, handle_dropped_file, load_image, validate_image_file,
    FileProbe,
};
use spica_photo_viewer::cache::CacheStore;
use spica_photo_viewer::format::ImageFormat;
use spica_photo_viewer::reply::{folder_scan_response, image_load_response, thumbnail_response};
use spica_photo_viewer::scan::{scan_folder, FolderListing, FolderScanRequest};
use spica_photo_viewer::thumbnail::{create_thumbnail, get_or_create_thumbnail, ThumbnailRequest};
use std::io::Cursor;
use std::path::Path;

fn encoded(width: u32, height: u32, rgb: [u8; 3], format: image::ImageFormat) -> Vec<u8> {
    let image = DynamicImage::ImageRgb8(ImageBuffer::from_fn(width, height, |_x, _y| Rgb(rgb)));
    let mut bytes = Vec::new();
    image
        .write_to(&mut Cursor::new(&mut bytes), format)
        .expect("encoding a test image");
    bytes
}

/// A 1x1 red JPEG.
fn create_test_jpeg() -> Vec<u8> {
    encoded(1, 1, [255, 0, 0], image::ImageFormat::Jpeg)
}

/// A 1x1 green PNG.
fn create_test_png() -> Vec<u8> {
    encoded(1, 1, [0, 255, 0], image::ImageFormat::Png)
}

/// A minimal valid GIF: one black pixel.
fn create_test_gif() -> Vec<u8> {
    vec![
        0x47, 0x49, 0x46, 0x38, 0x39, 0x61, 0x01, 0x00, 0x01, 0x00, 0x80, 0x00, 0x00, 0x00, 0x00,
        0x00, 0xFF, 0xFF, 0xFF, 0x21, 0xF9, 0x04, 0x01, 0x00, 0x00, 0x00, 0x00, 0x2C, 0x00, 0x00,
        0x00, 0x00, 0x01, 0x00, 0x01, 0x00, 0x00, 0x02, 0x02, 0x04, 0x01, 0x00, 0x3B,
    ]
}

fn create_fake_image() -> Vec<u8> {
    b"This is not an image".to_vec()
}

/// The probe of an existing file with the given contents.
fn probe(path: &str, contents: &[u8]) -> FileProbe {
    FileProbe {
        path: path.to_string(),
        is_file: true,
        size: Some(contents.len() as u64),
        modified: Some(1_700_000_000),
        header: Some(contents.iter().copied().take(16).collect()),
    }
}

/// The probe of a path that leads nowhere.
fn missing(path: &str) -> FileProbe {
    FileProbe {
        path: path.to_string(),
        is_file: false,
        size: None,
        modified: None,
        header: None,
    }
}

#[test]
fn test_load_image_with_valid_file() {
    let path = "/tmp/.tmpq1w2e3/test.jpg";
    let result = load_image(path, true, &create_test_jpeg());
    assert!(result.is_ok());

    let image_data = result.unwrap();
    assert_eq!(image_data.path, path);
    assert!(!image_data.base64.is_empty());
    assert_eq!(image_data.width, 1);
    assert_eq!(image_data.height, 1);
    assert_eq!(image_data.format, "jpg");
}

#[test]
fn test_load_image_with_nonexistent_file() {
    let path = "/nonexistent/image.jpg";
    let result = load_image(path, Path::new(path).is_file(), &[]);
    assert!(result.is_err());
    assert!(result.unwrap_err().message().contains("File not found"));
}

#[test]
fn test_load_image_with_unsupported_format() {
    let result = load_image("/tmp/.tmpq1w2e3/test.txt", true, b"not an image");
    assert!(result.is_err());
    assert!(result
        .unwrap_err()
        .message()
        .contains("Unsupported file format"));
}

#[test]
fn test_load_image_with_corrupted_file() {
    let result = load_image("/tmp/.tmpq1w2e3/corrupted.jpg", true, &create_fake_image());
    assert!(result.is_err());
    assert!(result.unwrap_err().message().contains("Failed to load image"));
}

#[test]
fn test_load_image_with_different_formats() {
    let result = load_image("/t/test.jpeg", true, &create_test_jpeg());
    assert!(result.is_ok());
    assert_eq!(result.unwrap().format, "jpeg");

    let result = load_image("/t/test.png", true, &create_test_png());
    assert!(result.is_ok());
    assert_eq!(result.unwrap().format, "png");

    let result = load_image("/t/test.gif", true, &create_test_gif());
    assert!(result.is_ok());
    assert_eq!(result.unwrap().format, "gif");
}

#[test]
fn test_handle_dropped_file_with_valid_image() {
    let file = probe("/tmp/.tmpq1w2e3/dropped.jpg", &create_test_jpeg());
    let result = handle_dropped_file(&file);
    assert!(result.is_ok());

    let image_info = result.unwrap();
    assert_eq!(image_info.filename, "dropped.jpg");
    assert_eq!(image_info.format, "jpg");
}

#[test]
fn test_handle_dropped_file_with_nonexistent_file() {
    let result = handle_dropped_file(&missing("/nonexistent/file.jpg"));
    assert!(result.is_err());
    assert!(result.unwrap_err().message().contains("File not found"));
}

#[test]
fn test_handle_dropped_file_with_unsupported_format() {
    let result = handle_dropped_file(&probe("/tmp/.tmpq1w2e3/text.txt", b"not an image"));
    assert!(result.is_err());
    assert!(result
        .unwrap_err()
        .message()
        .contains("Unsupported file format"));
}

#[test]
fn test_handle_dropped_file_with_corrupted_image() {
    let result = handle_dropped_file(&probe("/tmp/.tmpq1w2e3/corrupted.jpg", &create_fake_image()));
    assert!(result.is_err());
}

#[test]
fn test_validate_image_file_with_valid_image() {
    let result = validate_image_file("/tmp/.tmpq1w2e3/valid.jpg", true);
    assert!(result.is_ok());
    assert!(result.unwrap());
}

#[test]
fn test_validate_image_file_with_nonexistent_file() {
    let path = "/nonexistent/file.jpg";
    let result = validate_image_file(path, Path::new(path).is_file());
    assert!(result.is_ok());
    assert!(!result.unwrap());
}

#[test]
fn test_validate_image_file_with_unsupported_format() {
    let result = validate_image_file("/tmp/.tmpq1w2e3/text.txt", true);
    assert!(result.is_ok());
    assert!(!result.unwrap());
}

#[test]
fn test_validate_image_file_with_directory() {
    let temp_dir = tempfile::tempdir().expect("Failed to create temp directory");
    let path = temp_dir.path().to_string_lossy().to_string();
    let result = validate_image_file(&path, temp_dir.path().is_file());
    assert!(result.is_ok());
    assert!(!result.unwrap());
}

#[test]
fn test_get_startup_file_with_no_args() {
    let arguments = vec![missing("spica-photo-viewer")];
    let result = get_startup_file(&arguments);
    assert!(result.is_ok());
    assert_eq!(result.unwrap(), None);
}

#[test]
fn test_get_startup_file_functionality() {
    let result = get_startup_file(&Vec::new());
    assert!(result.is_ok());
    assert_eq!(result.unwrap(), None);

    let jpeg = create_test_jpeg();
    let arguments = vec![
        probe("/usr/bin/viewer.png", &jpeg),
        missing("--verbose"),
        probe("/home/me/notes.txt", b"text"),
        missing("/home/me/gone.jpg"),
        probe("/home/me/first.jpg", &jpeg),
        probe("/home/me/second.png", &jpeg),
    ];
    assert_eq!(
        get_startup_file(&arguments).unwrap(),
        Some("/home/me/first.jpg".to_string())
    );
}

#[test]
fn test_generate_image_thumbnail_with_valid_image() {
    let result = generate_image_thumbnail("/t/thumbnail_test.jpg", true, &create_test_jpeg(), Some(30));
    assert!(result.is_ok());
    let thumbnail_data = result.unwrap();
    assert!(!thumbnail_data.is_empty());
}

#[test]
fn test_generate_image_thumbnail_with_default_size() {
    let jpeg = create_test_jpeg();
    let result = generate_image_thumbnail("/t/thumbnail_test.jpg", true, &jpeg, None);
    assert!(result.is_ok());
    let thumbnail_data = result.unwrap();
    assert!(!thumbnail_data.is_empty());
    assert_eq!(
        thumbnail_data,
        generate_image_thumbnail("/t/thumbnail_test.jpg", true, &jpeg, Some(30)).unwrap()
    );
}

#[test]
fn test_generate_image_thumbnail_with_nonexistent_file() {
    let path = "/nonexistent/file.jpg";
    let result = generate_image_thumbnail(path, Path::new(path).is_file(), &[], Some(30));
    assert!(result.is_err());
    assert!(result.unwrap_err().message().contains("File not found"));
}

#[test]
fn test_generate_image_thumbnail_with_unsupported_format() {
    let result = generate_image_thumbnail("/t/text.txt", true, b"not an image", Some(30));
    assert!(result.is_err());
    assert!(result
        .unwrap_err()
        .message()
        .contains("Unsupported file format"));
}

#[test]
fn test_generate_image_thumbnail_with_corrupted_file() {
    let result = generate_image_thumbnail("/t/corrupted.jpg", true, &create_fake_image(), Some(30));
    assert!(result.is_err());
    assert!(result
        .unwrap_err()
        .message()
        .contains("Failed to generate thumbnail"));
}

#[test]
fn thumbnail_with_dimensions_reports_the_original_size() {
    let source = encoded(40, 20, [5, 6, 7], image::ImageFormat::Png);
    let made = generate_thumbnail_with_dimensions("/t/wide.png", true, &source, 10).unwrap();
    assert_eq!((made.original_width, made.original_height), (40, 20));
    assert!(!made.thumbnail_base64.is_empty());

    let junk = generate_thumbnail_with_dimensions("/t/wide.png", true, b"junk", 10).unwrap_err();
    assert_eq!(junk.kind(), SpicaErrorKind::InvalidFormat);
    assert!(junk.message().contains("Failed to get image dimensions"));
    // a good header in front of nothing that can be decoded
    let failed =
        generate_thumbnail_with_dimensions("/t/wide.png", true, &source[..12], 10).unwrap_err();
    assert_eq!(failed.kind(), SpicaErrorKind::DecodeError);
    assert!(failed.message().contains("Failed to get image dimensions"));
    let gone = generate_thumbnail_with_dimensions("/t/wide.png", false, &source, 10).unwrap_err();
    assert_eq!(gone.kind(), SpicaErrorKind::FileNotFound);
}

#[test]
fn descriptor_carries_what_the_probe_found() {
    let png = create_test_png();
    let info = get_image_info(&FileProbe {
        path: "/photos/2024/IMG_0001.PNG".to_string(),
        is_file: true,
        size: Some(123_456),
        modified: Some(1_600_000_000),
        header: Some(png.clone()),
    })
    .unwrap();
    assert_eq!(info.path, "/photos/2024/IMG_0001.PNG");
    assert_eq!(info.filename, "IMG_0001.PNG");
    assert_eq!(info.size, 123_456);
    assert_eq!(info.modified, 1_600_000_000);
    assert_eq!(info.format, "png");
}

#[test]
fn incomplete_probe_is_an_io_error() {
    let png = create_test_png();
    let mut file = probe("/a.png", &png);
    file.size = None;
    assert_eq!(get_image_info(&file).unwrap_err().kind(), SpicaErrorKind::IoError);
    let mut file = probe("/a.png", &png);
    file.modified = None;
    assert_eq!(get_image_info(&file).unwrap_err().kind(), SpicaErrorKind::IoError);
    let mut file = probe("/a.png", &png);
    file.header = None;
    assert_eq!(get_image_info(&file).unwrap_err().kind(), SpicaErrorKind::IoError);
}

#[test]
fn descriptor_needs_a_header_that_matches_the_extension() {
    let renamed = get_image_info(&probe("/a.jpg", &create_test_png())).unwrap_err();
    assert_eq!(renamed.kind(), SpicaErrorKind::InvalidFormat);
    let fake = get_image_info(&probe("/a.jpg", &create_fake_image())).unwrap_err();
    assert_eq!(fake.kind(), SpicaErrorKind::InvalidFormat);
}

#[test]
fn path_check_answers_before_anything_is_read() {
    assert_eq!(check_image_path("/a.JPG", true).unwrap(), ImageFormat::Jpeg);
    assert_eq!(check_image_path("/a.webp", true).unwrap(), ImageFormat::Webp);
    assert_eq!(
        check_image_path("/a.jpg", false).unwrap_err().kind(),
        SpicaErrorKind::FileNotFound
    );
    assert_eq!(
        check_image_path("/a.bmp", true).unwrap_err().kind(),
        SpicaErrorKind::InvalidFormat
    );
    // a missing file is reported as missing, whatever its extension
    assert_eq!(
        check_image_path("/a.bmp", false).unwrap_err().kind(),
        SpicaErrorKind::FileNotFound
    );
}

#[test]
fn every_error_kind_has_its_message() {
    let cases = [
        (SpicaError::FileNotFound("x".to_string()), SpicaErrorKind::FileNotFound, "File not found: x"),
        (SpicaError::InvalidFormat("x".to_string()), SpicaErrorKind::InvalidFormat, "Invalid image format: x"),
        (SpicaError::PermissionDenied("x".to_string()), SpicaErrorKind::PermissionDenied, "Permission denied: x"),
        (SpicaError::CacheError("x".to_string()), SpicaErrorKind::CacheError, "Cache error: x"),
        (SpicaError::DecodeError("x".to_string()), SpicaErrorKind::DecodeError, "Decode error: x"),
        (SpicaError::IoError("x".to_string()), SpicaErrorKind::IoError, "IO error: x"),
        (SpicaError::ImageError("x".to_string()), SpicaErrorKind::ImageError, "Image processing error: x"),
        (SpicaError::Unknown("x".to_string()), SpicaErrorKind::Unknown, "Unknown error: x"),
    ];
    for (error, kind, message) in cases {
        assert_eq!(error.kind(), kind);
        assert_eq!(error.message(), message);
        let wrapped = error.in_context("while testing: ");
        assert_eq!(wrapped.kind(), kind);
        assert_eq!(
            wrapped.message(),
            message.replace(": x", ": while testing: x")
        );
    }
    assert_eq!(describe("a", "b"), "ab");
}

#[test]
fn arbitrary_bytes_under_an_image_name_never_reach_the_decoder() {
    let fake = create_fake_image();
    let thumbnail = generate_image_thumbnail("/t/photo.jpg", true, &fake, Some(30)).unwrap_err();
    assert_eq!(thumbnail.kind(), SpicaErrorKind::InvalidFormat);
    assert!(thumbnail
        .message()
        .contains("Failed to detect valid image format"));
    let full = load_image("/t/photo.jpg", true, &fake).unwrap_err();
    assert_eq!(full.kind(), SpicaErrorKind::InvalidFormat);
    let sized = generate_thumbnail_with_dimensions("/t/photo.jpg", true, &fake, 30).unwrap_err();
    assert_eq!(sized.kind(), SpicaErrorKind::InvalidFormat);
}

#[test]
fn renamed_image_is_turned_away_though_it_would_decode() {
    // A sound PNG under a JPEG name, and a sound JPEG under a GIF name.
    let renamed = load_image("/t/photo.jpg", true, &create_test_png()).unwrap_err();
    assert_eq!(renamed.kind(), SpicaErrorKind::InvalidFormat);
    assert!(renamed.message().contains("does not match"));
    let gif = load_image("/t/photo.gif", true, &create_test_jpeg()).unwrap_err();
    assert_eq!(gif.kind(), SpicaErrorKind::InvalidFormat);
    let thumbnail =
        generate_image_thumbnail("/t/photo.png", true, &create_test_jpeg(), None).unwrap_err();
    assert_eq!(thumbnail.kind(), SpicaErrorKind::InvalidFormat);
}

#[test]
fn decoder_failure_behind_a_good_header_is_a_decode_error() {
    let png = create_test_png();
    let failed = load_image("/t/a.png", true, &png[..12]).unwrap_err();
    assert_eq!(failed.kind(), SpicaErrorKind::DecodeError);
    assert!(failed.message().contains("Failed to load image"));
    let thumbnail = generate_image_thumbnail("/t/a.png", true, &png[..12], None).unwrap_err();
    assert_eq!(thumbnail.kind(), SpicaErrorKind::DecodeError);
    assert!(thumbnail.message().contains("Failed to generate thumbnail"));
}

#[test]
fn source_check_answers_in_order() {
    let png = create_test_png();
    assert_eq!(
        check_image_source("/a.png", true, &png, "x: ").unwrap(),
        ImageFormat::Png
    );
    assert_eq!(
        check_image_source("/a.png", false, &png, "x: ").unwrap_err().kind(),
        SpicaErrorKind::FileNotFound
    );
    assert_eq!(
        check_image_source("/a.txt", true, &png, "x: ").unwrap_err().kind(),
        SpicaErrorKind::InvalidFormat
    );
    let mismatch = check_image_source("/a.gif", true, &png, "x: ").unwrap_err();
    assert_eq!(mismatch.kind(), SpicaErrorKind::InvalidFormat);
    assert!(mismatch.message().contains("x: Image header does not match"));
}

#[test]
fn replies_carry_data_or_an_error_never_both() {
    let loaded = image_load_response(load_image("/t/test.png", true, &create_test_png()));
    assert!(loaded.success);
    assert!(loaded.error.is_none());
    let data = loaded.data.unwrap();
    assert_eq!((data.width, data.height), (1, 1));
    assert_eq!(data.format, "png");
    assert!(!data.base64_data.is_empty());

    let failed = image_load_response(load_image("/t/test.png", false, &[]));
    assert!(!failed.success);
    assert!(failed.data.is_none());
    assert_eq!(failed.error.unwrap(), "File not found: File not found");

    let scanned = folder_scan_response(scan_folder(
        &FolderScanRequest {
            folder_path: "/d".to_string(),
            sort_order: None,
        },
        &FolderListing {
            is_dir: true,
            entries: vec![probe("/d/a.png", &create_test_png())],
        },
    ));
    assert!(scanned.success);
    assert_eq!(scanned.data.unwrap().total_count, 1);
    let no_folder = folder_scan_response(scan_folder(
        &FolderScanRequest {
            folder_path: "/nowhere".to_string(),
            sort_order: None,
        },
        &FolderListing {
            is_dir: false,
            entries: Vec::new(),
        },
    ));
    assert!(!no_folder.success);
    assert_eq!(no_folder.error.unwrap(), "File not found: Invalid folder path");

    let mut store = CacheStore::new();
    let request = ThumbnailRequest {
        image_path: "/t/test.png".to_string(),
        size: 4,
        force_regenerate: None,
    };
    let made = thumbnail_response(get_or_create_thumbnail(
        &mut store,
        &request,
        true,
        &create_test_png(),
        7,
    ));
    assert!(made.success);
    assert_eq!(made.data.unwrap().generated_at, 7);
    let refused = thumbnail_response(create_thumbnail(&mut store, &request, true, b"junk", 8));
    assert!(!refused.success);
    assert!(refused.data.is_none());
    assert!(refused.error.unwrap().starts_with("Invalid image format: "));
}
