//! Replies as the user interface receives them: a flag, and with it either
//! the data of a request that succeeded or the message of one that failed.

use crate::error::SpicaError;
use crate::files::ImageData;
use crate::scan::FolderScanData;
use crate::thumbnail::ThumbnailData;
use vstd::prelude::*;

verus! {

/// The reply to a folder scan.
#[derive(Debug)]
pub struct FolderScanResponse {
    pub success: bool,
    pub data: Option<FolderScanData>,
    pub error: Option<String>,
}

/// An image prepared for display, as a reply carries it.
#[derive(Debug)]
pub struct ImageLoadData {
    pub base64_data: String,
    pub width: u32,
    pub height: u32,
    pub format: String,
}

/// The reply to a request for an image at full size.
#[derive(Debug)]
pub struct ImageLoadResponse {
    pub success: bool,
    pub data: Option<ImageLoadData>,
    pub error: Option<String>,
}

/// The reply to a request for a thumbnail.
#[derive(Debug)]
pub struct ThumbnailResponse {
    pub success: bool,
    pub data: Option<ThumbnailData>,
    pub error: Option<String>,
}

/// The text that a reply carries for a failure: the error's message.
pub open spec fn failure_text(error: SpicaError) -> Seq<char> {
    error.prefix() + error.detail()
}

/// Whether a reply's flag and its two fields say the same: data and no error
/// on success, an error and no data on failure.
pub open spec fn consistent<T>(success: bool, data: Option<T>, error: Option<String>) -> bool {
    (success <==> data is Some) && (success <==> error is None)
}

/// The reply to a folder scan that ended as `result` says.
pub fn folder_scan_response(result: Result<FolderScanData, SpicaError>) -> (reply:
    FolderScanResponse)
    ensures
        consistent(reply.success, reply.data, reply.error),
        match result {
            Ok(data) => reply.data == Some(data),
            Err(error) => reply.error matches Some(text) && text@ == failure_text(error),
        },
{
    match result {
        Ok(data) => FolderScanResponse { success: true, data: Some(data), error: None },
        Err(error) => FolderScanResponse {
            success: false,
            data: None,
            error: Some(error.message()),
        },
    }
}

/// The reply to a request for an image that ended as `result` says.
pub fn image_load_response(result: Result<ImageData, SpicaError>) -> (reply: ImageLoadResponse)
    ensures
        consistent(reply.success, reply.data, reply.error),
        match result {
            Ok(image) => reply.data matches Some(data) && data.base64_data == image.base64
                && data.width == image.width && data.height == image.height && data.format
                == image.format,
            Err(error) => reply.error matches Some(text) && text@ == failure_text(error),
        },
{
    match result {
        Ok(image) => ImageLoadResponse {
            success: true,
            data: Some(
                ImageLoadData {
                    base64_data: image.base64,
                    width: image.width,
                    height: image.height,
                    format: image.format,
                },
            ),
            error: None,
        },
        Err(error) => ImageLoadResponse {
            success: false,
            data: None,
            error: Some(error.message()),
        },
    }
}

/// The reply to a request for a thumbnail that ended as `result` says.
pub fn thumbnail_response(result: Result<ThumbnailData, SpicaError>) -> (reply: ThumbnailResponse)
    ensures
        consistent(reply.success, reply.data, reply.error),
        match result {
            Ok(data) => reply.data == Some(data),
            Err(error) => reply.error matches Some(text) && text@ == failure_text(error),
        },
{
    match result {
        Ok(data) => ThumbnailResponse { success: true, data: Some(data), error: None },
        Err(error) => ThumbnailResponse {
            success: false,
            data: None,
            error: Some(error.message()),
        },
    }
}

} // verus!
