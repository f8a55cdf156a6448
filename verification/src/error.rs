//! The error type shared by every component.

use vstd::prelude::*;
use vstd::string::StringExecFns;

verus! {

/// The kinds of failure, without their details.
#[derive(Debug, Clone, Copy, PartialEq, Eq, Structural)]
pub enum SpicaErrorKind {
    FileNotFound,
    InvalidFormat,
    PermissionDenied,
    CacheError,
    DecodeError,
    IoError,
    ImageError,
    Unknown,
}

/// Why an operation failed. Each variant carries a human-readable detail.
#[derive(Debug)]
pub enum SpicaError {
    /// The path or folder does not exist, or is not of the expected kind.
    FileNotFound(String),
    /// The extension or the header of the file was rejected.
    InvalidFormat(String),
    /// The file system refused access.
    PermissionDenied(String),
    /// A stored cache entry could not be used.
    CacheError(String),
    /// The codec failed on input that had passed format detection.
    DecodeError(String),
    /// Reading or writing a source or cache file failed.
    IoError(String),
    /// The image library failed while encoding or transforming.
    ImageError(String),
    /// Anything else.
    Unknown(String),
}

impl SpicaError {
    /// The kind of failure that the error reports.
    pub open spec fn spec_kind(&self) -> SpicaErrorKind {
        match self {
            SpicaError::FileNotFound(_) => SpicaErrorKind::FileNotFound,
            SpicaError::InvalidFormat(_) => SpicaErrorKind::InvalidFormat,
            SpicaError::PermissionDenied(_) => SpicaErrorKind::PermissionDenied,
            SpicaError::CacheError(_) => SpicaErrorKind::CacheError,
            SpicaError::DecodeError(_) => SpicaErrorKind::DecodeError,
            SpicaError::IoError(_) => SpicaErrorKind::IoError,
            SpicaError::ImageError(_) => SpicaErrorKind::ImageError,
            SpicaError::Unknown(_) => SpicaErrorKind::Unknown,
        }
    }

    /// The kind of failure that the error reports.
    #[verifier::when_used_as_spec(spec_kind)]
    pub fn kind(&self) -> (kind: SpicaErrorKind)
        ensures
            kind == self.spec_kind(),
    {
        match self {
            SpicaError::FileNotFound(_) => SpicaErrorKind::FileNotFound,
            SpicaError::InvalidFormat(_) => SpicaErrorKind::InvalidFormat,
            SpicaError::PermissionDenied(_) => SpicaErrorKind::PermissionDenied,
            SpicaError::CacheError(_) => SpicaErrorKind::CacheError,
            SpicaError::DecodeError(_) => SpicaErrorKind::DecodeError,
            SpicaError::IoError(_) => SpicaErrorKind::IoError,
            SpicaError::ImageError(_) => SpicaErrorKind::ImageError,
            SpicaError::Unknown(_) => SpicaErrorKind::Unknown,
        }
    }

    /// The same kind of error, with `context` put before its detail.
    pub fn in_context(self, context: &str) -> (wrapped: SpicaError)
        ensures
            wrapped.spec_kind() == self.spec_kind(),
            wrapped.detail() == context@ + self.detail(),
    {
        match self {
            SpicaError::FileNotFound(d) => SpicaError::FileNotFound(describe(context, d.as_str())),
            SpicaError::InvalidFormat(d) => SpicaError::InvalidFormat(
                describe(context, d.as_str()),
            ),
            SpicaError::PermissionDenied(d) => SpicaError::PermissionDenied(
                describe(context, d.as_str()),
            ),
            SpicaError::CacheError(d) => SpicaError::CacheError(describe(context, d.as_str())),
            SpicaError::DecodeError(d) => SpicaError::DecodeError(describe(context, d.as_str())),
            SpicaError::IoError(d) => SpicaError::IoError(describe(context, d.as_str())),
            SpicaError::ImageError(d) => SpicaError::ImageError(describe(context, d.as_str())),
            SpicaError::Unknown(d) => SpicaError::Unknown(describe(context, d.as_str())),
        }
    }

    /// The detail carried by the error.
    pub open spec fn detail(self) -> Seq<char> {
        match self {
            SpicaError::FileNotFound(d) => d@,
            SpicaError::InvalidFormat(d) => d@,
            SpicaError::PermissionDenied(d) => d@,
            SpicaError::CacheError(d) => d@,
            SpicaError::DecodeError(d) => d@,
            SpicaError::IoError(d) => d@,
            SpicaError::ImageError(d) => d@,
            SpicaError::Unknown(d) => d@,
        }
    }

    /// The fixed text that introduces the detail in `message`.
    pub open spec fn prefix(self) -> Seq<char> {
        match self {
            SpicaError::FileNotFound(_) => "File not found: "@,
            SpicaError::InvalidFormat(_) => "Invalid image format: "@,
            SpicaError::PermissionDenied(_) => "Permission denied: "@,
            SpicaError::CacheError(_) => "Cache error: "@,
            SpicaError::DecodeError(_) => "Decode error: "@,
            SpicaError::IoError(_) => "IO error: "@,
            SpicaError::ImageError(_) => "Image processing error: "@,
            SpicaError::Unknown(_) => "Unknown error: "@,
        }
    }

    /// The text shown to the user: the variant's prefix followed by the detail.
    pub fn message(&self) -> (text: String)
        ensures
            text@ == self.prefix() + self.detail(),
    {
        match self {
            SpicaError::FileNotFound(d) => String::from_str("File not found: ").concat(d.as_str()),
            SpicaError::InvalidFormat(d) => String::from_str("Invalid image format: ").concat(
                d.as_str(),
            ),
            SpicaError::PermissionDenied(d) => String::from_str("Permission denied: ").concat(
                d.as_str(),
            ),
            SpicaError::CacheError(d) => String::from_str("Cache error: ").concat(d.as_str()),
            SpicaError::DecodeError(d) => String::from_str("Decode error: ").concat(d.as_str()),
            SpicaError::IoError(d) => String::from_str("IO error: ").concat(d.as_str()),
            SpicaError::ImageError(d) => String::from_str("Image processing error: ").concat(
                d.as_str(),
            ),
            SpicaError::Unknown(d) => String::from_str("Unknown error: ").concat(d.as_str()),
        }
    }
}

/// `prefix` followed by `detail`, as one string.
pub fn describe(prefix: &str, detail: &str) -> (text: String)
    ensures
        text@ == prefix@ + detail@,
{
    String::from_str(prefix).concat(detail)
}

} // verus!
