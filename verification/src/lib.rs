//! Thumbnail generation and caching for an image viewer: format detection,
//! the image pipeline, cache keys, the cache store and its janitor.

pub mod cache;
pub mod codec;
pub mod error;
pub mod files;
pub mod format;
pub mod key;
pub mod pipeline;
pub mod reply;
pub mod scan;
pub mod thumbnail;
