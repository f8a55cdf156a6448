//! Image files as the viewer sees them: what a probe of the file system
//! found, the descriptor made from it, and the requests that work on one
//! file. Nothing here touches the file system; the caller probes and reads,
//! and hands over what it found.

use crate::cache::DEFAULT_THUMBNAIL_SIZE;
use crate::error::{SpicaError, SpicaErrorKind};
use crate::format::{
    file_name, format_label, get_file_name, get_format_label, header_matches, is_supported_image,
    path_format, validate_image_header, ImageFormat,
};
use crate::pipeline::{
    dimensions_outcome, full_image_outcome, generate_thumbnail, get_image_dimensions,
    load_image_as_base64, thumbnail_outcome,
};
use vstd::prelude::*;
use vstd::string::StringExecFns;

verus! {

/// What the file system reported about one path. A field that could not be
/// read is `None`.
#[derive(Debug)]
pub struct FileProbe {
    /// The path that was probed.
    pub path: String,
    /// Whether the path exists and leads to a regular file.
    pub is_file: bool,
    /// The size of the file in bytes.
    pub size: Option<u64>,
    /// When the file was last modified, in seconds since the epoch.
    pub modified: Option<u64>,
    /// The first bytes of the file.
    pub header: Option<Vec<u8>>,
}

/// The descriptor of an image file. One is made only for a file whose header
/// passed validation.
#[derive(Debug)]
pub struct ImageInfo {
    pub path: String,
    pub filename: String,
    pub size: u64,
    pub modified: u64,
    pub format: String,
}

/// An image prepared for display at full size.
#[derive(Debug)]
pub struct ImageData {
    pub path: String,
    pub base64: String,
    pub width: u32,
    pub height: u32,
    pub format: String,
}

/// A thumbnail together with the dimensions of the image it was made from.
#[derive(Debug)]
pub struct ThumbnailWithDimensions {
    pub thumbnail_base64: String,
    pub original_width: u32,
    pub original_height: u32,
}

/// The mathematical value of a `FileProbe`.
pub struct FileProbeView {
    pub path: Seq<char>,
    pub is_file: bool,
    pub size: Option<u64>,
    pub modified: Option<u64>,
    pub header: Option<Seq<u8>>,
}

/// The mathematical value of an `ImageInfo`.
pub struct ImageInfoView {
    pub path: Seq<char>,
    pub filename: Seq<char>,
    pub size: u64,
    pub modified: u64,
    pub format: Seq<char>,
}

impl View for FileProbe {
    type V = FileProbeView;

    open spec fn view(&self) -> FileProbeView {
        FileProbeView {
            path: self.path@,
            is_file: self.is_file,
            size: self.size,
            modified: self.modified,
            header: match self.header {
                Some(bytes) => Some(bytes@),
                None => None,
            },
        }
    }
}

impl View for ImageInfo {
    type V = ImageInfoView;

    open spec fn view(&self) -> ImageInfoView {
        ImageInfoView {
            path: self.path@,
            filename: self.filename@,
            size: self.size,
            modified: self.modified,
            format: self.format@,
        }
    }
}

// ---------------------------------------------------------------------------
// Descriptors
// ---------------------------------------------------------------------------
/// The descriptor of the probed file, or the kind of failure that keeps it
/// from having one: a field that could not be read, or a header that does not
/// pass validation.
pub open spec fn described(file: FileProbeView) -> Result<ImageInfoView, SpicaErrorKind> {
    if file.size is None || file.modified is None || file.header is None {
        Err(SpicaErrorKind::IoError)
    } else if !header_matches(file.path, file.header.unwrap()) {
        Err(SpicaErrorKind::InvalidFormat)
    } else {
        Ok(
            ImageInfoView {
                path: file.path,
                filename: file_name(file.path),
                size: file.size.unwrap(),
                modified: file.modified.unwrap(),
                format: format_label(file.path),
            },
        )
    }
}

/// Whether `result` is the descriptor, or the kind of failure, that
/// `outcome` names.
pub open spec fn info_agrees(
    result: Result<ImageInfo, SpicaError>,
    outcome: Result<ImageInfoView, SpicaErrorKind>,
) -> bool {
    match result {
        Ok(info) => outcome == Ok::<ImageInfoView, SpicaErrorKind>(info@),
        Err(error) => outcome == Err::<ImageInfoView, SpicaErrorKind>(error.spec_kind()),
    }
}

/// Makes the descriptor of a probed file. The header is validated against the
/// extension: a file with an image extension and other contents gets none.
pub fn get_image_info(file: &FileProbe) -> (result: Result<ImageInfo, SpicaError>)
    ensures
        info_agrees(result, described(file@)),
{
    let size = match file.size {
        Some(size) => size,
        None => {
            return Err(SpicaError::IoError(String::from_str("Failed to read file metadata")));
        },
    };
    let modified = match file.modified {
        Some(modified) => modified,
        None => {
            return Err(SpicaError::IoError(String::from_str("Failed to get modification time")));
        },
    };
    let header = match &file.header {
        Some(header) => header,
        None => {
            return Err(SpicaError::IoError(String::from_str("Failed to open image file")));
        },
    };
    match validate_image_header(file.path.as_str(), header.as_slice()) {
        Ok(()) => {},
        Err(error) => {
            return Err(error);
        },
    }
    Ok(
        ImageInfo {
            path: file.path.clone(),
            filename: get_file_name(file.path.as_str()),
            size,
            modified,
            format: get_format_label(file.path.as_str()),
        },
    )
}

/// What is decided of a path before anything is read from it: the format
/// that it declares, or why the request stops here.
pub open spec fn path_check(path: Seq<char>, is_file: bool) -> Result<ImageFormat, SpicaErrorKind> {
    if !is_file {
        Err(SpicaErrorKind::FileNotFound)
    } else if path_format(path) == ImageFormat::Unknown {
        Err(SpicaErrorKind::InvalidFormat)
    } else {
        Ok(path_format(path))
    }
}

/// Decides whether a request on the file at `path` may go on. It needs the
/// path and one fact about it, so it can be asked before anything is read.
pub fn check_image_path(path: &str, is_file: bool) -> (result: Result<ImageFormat, SpicaError>)
    ensures
        match result {
            Ok(format) => path_check(path@, is_file) == Ok::<ImageFormat, SpicaErrorKind>(format),
            Err(error) => path_check(path@, is_file) == Err::<ImageFormat, SpicaErrorKind>(
                error.spec_kind(),
            ),
        },
        result matches Err(SpicaError::FileNotFound(detail)) ==> detail@ == "File not found"@,
        result matches Err(SpicaError::InvalidFormat(detail)) ==> detail@
            == "Unsupported file format"@,
{
    if !is_file {
        return Err(SpicaError::FileNotFound(String::from_str("File not found")));
    }
    match crate::format::get_image_format(path) {
        Some(format) => Ok(format),
        None => Err(SpicaError::InvalidFormat(String::from_str("Unsupported file format"))),
    }
}

/// Whether the path leads to a file that the viewer would open: it is a
/// regular file and its extension names a supported format.
pub fn validate_image_file(path: &str, is_file: bool) -> (result: Result<bool, SpicaError>)
    ensures
        result matches Ok(valid) && valid == (is_file && path_format(path@)
            != ImageFormat::Unknown),
{
    Ok(is_file && is_supported_image(path))
}

/// The descriptor of a file that was dropped onto the viewer.
pub fn handle_dropped_file(file: &FileProbe) -> (result: Result<ImageInfo, SpicaError>)
    ensures
        info_agrees(
            result,
            match path_check(file.path@, file.is_file) {
                Ok(_) => described(file@),
                Err(kind) => Err(kind),
            },
        ),
{
    match check_image_path(file.path.as_str(), file.is_file) {
        Ok(_) => get_image_info(file),
        Err(error) => Err(error),
    }
}

/// The first of the candidates that the viewer would open, not counting the
/// one at the head of the list, which names the program itself.
pub open spec fn startup_choice(candidates: Seq<FileProbe>, from: int) -> Option<Seq<char>>
    decreases candidates.len() - from,
{
    if from < 1 || from >= candidates.len() {
        None
    } else if candidates[from].is_file && path_format(candidates[from].path@)
        != ImageFormat::Unknown {
        Some(candidates[from].path@)
    } else {
        startup_choice(candidates, from + 1)
    }
}

/// The image that the viewer was started for: the first command-line
/// argument, after the program's own name, that leads to a supported file.
pub fn get_startup_file(arguments: &Vec<FileProbe>) -> (result: Result<Option<String>, SpicaError>)
    ensures
        result is Ok,
        match result->Ok_0 {
            Some(path) => startup_choice(arguments@, 1) == Some(path@),
            None => startup_choice(arguments@, 1) is None,
        },
{
    let mut i: usize = 1;
    while i < arguments.len()
        invariant
            1 <= i,
            startup_choice(arguments@, 1) == startup_choice(arguments@, i as int),
        decreases arguments.len() - i,
    {
        let candidate = &arguments[i];
        if candidate.is_file && is_supported_image(candidate.path.as_str()) {
            return Ok(Some(candidate.path.clone()));
        }
        i += 1;
    }
    Ok(None)
}

// ---------------------------------------------------------------------------
// Requests on one file
// ---------------------------------------------------------------------------
/// Whether `error` is of the kind `kind` and its detail begins with `context`.
pub open spec fn failed_in(error: SpicaError, kind: SpicaErrorKind, context: Seq<char>) -> bool {
    error.spec_kind() == kind && context.len() <= error.detail().len() && error.detail().subrange(
        0,
        context.len() as int,
    ) == context
}

/// What is decided of a source before a decoder sees it: the path must lead
/// to a file with a supported extension, and the first bytes of the file must
/// be the magic number of the format that the extension names.
pub open spec fn source_check(path: Seq<char>, is_file: bool, data: Seq<u8>) -> Result<
    ImageFormat,
    SpicaErrorKind,
> {
    match path_check(path, is_file) {
        Err(kind) => Err(kind),
        Ok(format) => if header_matches(path, data) {
            Ok(format)
        } else {
            Err(SpicaErrorKind::InvalidFormat)
        },
    }
}

/// Checks a source before it is handed to a decoder. A header that does not
/// pass validation is reported as an invalid format, with `context` in front
/// of the reason.
pub fn check_image_source(path: &str, is_file: bool, data: &[u8], context: &str) -> (result:
    Result<ImageFormat, SpicaError>)
    ensures
        match result {
            Ok(format) => source_check(path@, is_file, data@) == Ok::<ImageFormat, SpicaErrorKind>(
                format,
            ),
            Err(error) => source_check(path@, is_file, data@) == Err::<
                ImageFormat,
                SpicaErrorKind,
            >(error.spec_kind()),
        },
        result is Err && path_check(path@, is_file) is Ok ==> failed_in(
            result->Err_0,
            SpicaErrorKind::InvalidFormat,
            context@,
        ),
{
    let format = match check_image_path(path, is_file) {
        Ok(format) => format,
        Err(error) => {
            return Err(error);
        },
    };
    match validate_image_header(path, data) {
        Ok(()) => Ok(format),
        Err(error) => {
            let wrapped = error.in_context(context);
            assert(wrapped.detail().subrange(0, context@.len() as int) == context@);
            Err(wrapped)
        },
    }
}

/// Prepares the image file at `path`, whose contents are `data`, for display
/// at full size: the contents as transport text, the dimensions, and the
/// format that the extension declares. A file whose header does not agree
/// with its extension is turned away before anything is decoded.
pub fn load_image(path: &str, is_file: bool, data: &[u8]) -> (result: Result<
    ImageData,
    SpicaError,
>)
    ensures
        match result {
            Ok(image) => {
                &&& source_check(path@, is_file, data@) is Ok
                &&& full_image_outcome(path@, data@) == Ok::<Seq<char>, SpicaErrorKind>(
                    image.base64@,
                )
                &&& dimensions_outcome(path@, data@) == Ok::<(u32, u32), SpicaErrorKind>(
                    (image.width, image.height),
                )
                &&& image.path@ == path@
                &&& image.format@ == format_label(path@)
            },
            Err(error) => match source_check(path@, is_file, data@) {
                Err(kind) => error.spec_kind() == kind,
                Ok(_) => match full_image_outcome(path@, data@) {
                    Err(kind) => failed_in(error, kind, "Failed to load image: "@),
                    Ok(_) => dimensions_outcome(path@, data@) matches Err(kind) && failed_in(
                        error,
                        kind,
                        "Failed to get image dimensions: "@,
                    ),
                },
            },
        },
        path_check(path@, is_file) is Ok && !header_matches(path@, data@) ==> result is Err
            && failed_in(result->Err_0, SpicaErrorKind::InvalidFormat, "Failed to load image: "@),
{
    match check_image_source(path, is_file, data, "Failed to load image: ") {
        Ok(_) => {},
        Err(error) => {
            return Err(error);
        },
    }
    let base64 = match load_image_as_base64(path, data) {
        Ok(text) => text,
        Err(error) => {
            let wrapped = error.in_context("Failed to load image: ");
            assert(wrapped.detail().subrange(0, "Failed to load image: "@.len() as int)
                == "Failed to load image: "@);
            return Err(wrapped);
        },
    };
    let (width, height) = match get_image_dimensions(path, data) {
        Ok(size) => size,
        Err(error) => {
            let wrapped = error.in_context("Failed to get image dimensions: ");
            assert(wrapped.detail().subrange(0, "Failed to get image dimensions: "@.len() as int)
                == "Failed to get image dimensions: "@);
            return Err(wrapped);
        },
    };
    Ok(
        ImageData {
            path: String::from_str(path),
            base64,
            width,
            height,
            format: get_format_label(path),
        },
    )
}

/// The side of the box that a request stands for: the one it names, else the
/// default.
pub open spec fn box_size(size: Option<u32>) -> u32 {
    match size {
        Some(side) => side,
        None => DEFAULT_THUMBNAIL_SIZE,
    }
}

/// Generates the thumbnail of the image file at `path`, whose contents are
/// `data`, at the size asked for, or at the default size. A file whose header
/// does not agree with its extension is turned away before anything is
/// decoded.
pub fn generate_image_thumbnail(path: &str, is_file: bool, data: &[u8], size: Option<u32>) -> (
    result: Result<String, SpicaError>
)
    ensures
        match result {
            Ok(payload) => source_check(path@, is_file, data@) is Ok && thumbnail_outcome(
                path@,
                data@,
                box_size(size),
            ) == Ok::<Seq<char>, SpicaErrorKind>(payload@),
            Err(error) => match source_check(path@, is_file, data@) {
                Err(kind) => error.spec_kind() == kind,
                Ok(_) => thumbnail_outcome(path@, data@, box_size(size)) matches Err(kind)
                    && failed_in(error, kind, "Failed to generate thumbnail: "@),
            },
        },
        path_check(path@, is_file) is Ok && !header_matches(path@, data@) ==> result is Err
            && failed_in(result->Err_0, SpicaErrorKind::InvalidFormat, "Failed to generate thumbnail: "@),
{
    match check_image_source(path, is_file, data, "Failed to generate thumbnail: ") {
        Ok(_) => {},
        Err(error) => {
            return Err(error);
        },
    }
    let side = match size {
        Some(side) => side,
        None => DEFAULT_THUMBNAIL_SIZE,
    };
    match generate_thumbnail(path, data, side) {
        Ok(payload) => Ok(payload),
        Err(error) => {
            let wrapped = error.in_context("Failed to generate thumbnail: ");
            assert(wrapped.detail().subrange(0, "Failed to generate thumbnail: "@.len() as int)
                == "Failed to generate thumbnail: "@);
            Err(wrapped)
        },
    }
}

/// Generates the thumbnail of the image file at `path` and reports the
/// dimensions of the source image with it. A file whose header does not agree
/// with its extension is turned away before anything is decoded.
pub fn generate_thumbnail_with_dimensions(path: &str, is_file: bool, data: &[u8], size: u32) -> (
    result: Result<ThumbnailWithDimensions, SpicaError>
)
    ensures
        match result {
            Ok(made) => {
                &&& source_check(path@, is_file, data@) is Ok
                &&& dimensions_outcome(path@, data@) == Ok::<(u32, u32), SpicaErrorKind>(
                    (made.original_width, made.original_height),
                )
                &&& thumbnail_outcome(path@, data@, size) == Ok::<Seq<char>, SpicaErrorKind>(
                    made.thumbnail_base64@,
                )
            },
            Err(error) => match source_check(path@, is_file, data@) {
                Err(kind) => error.spec_kind() == kind,
                Ok(_) => match dimensions_outcome(path@, data@) {
                    Err(kind) => failed_in(error, kind, "Failed to get image dimensions: "@),
                    Ok(_) => thumbnail_outcome(path@, data@, size) matches Err(kind) && failed_in(
                        error,
                        kind,
                        "Failed to generate thumbnail: "@,
                    ),
                },
            },
        },
        path_check(path@, is_file) is Ok && !header_matches(path@, data@) ==> result is Err
            && failed_in(result->Err_0, SpicaErrorKind::InvalidFormat, "Failed to get image dimensions: "@),
{
    match check_image_source(path, is_file, data, "Failed to get image dimensions: ") {
        Ok(_) => {},
        Err(error) => {
            return Err(error);
        },
    }
    let (original_width, original_height) = match get_image_dimensions(path, data) {
        Ok(size) => size,
        Err(error) => {
            let wrapped = error.in_context("Failed to get image dimensions: ");
            assert(wrapped.detail().subrange(0, "Failed to get image dimensions: "@.len() as int)
                == "Failed to get image dimensions: "@);
            return Err(wrapped);
        },
    };
    let thumbnail_base64 = match generate_thumbnail(path, data, size) {
        Ok(payload) => payload,
        Err(error) => {
            let wrapped = error.in_context("Failed to generate thumbnail: ");
            assert(wrapped.detail().subrange(0, "Failed to generate thumbnail: "@.len() as int)
                == "Failed to generate thumbnail: "@);
            return Err(wrapped);
        },
    };
    Ok(ThumbnailWithDimensions { thumbnail_base64, original_width, original_height })
}

} // verus!
