//! Thumbnail requests from start to end: derive the key, ask the cache,
//! and only on a miss validate the source, run the pipeline and store what
//! it made.

use crate::cache::{
    after_lookup, lookup, CacheEntry, CacheStore, EntryView, RecordView,
};
use crate::error::{SpicaError, SpicaErrorKind};
use crate::files::{check_image_path, source_check};
use crate::format::{
    header_matches, magic_format, validate_image_header, ImageFormat,
};
use crate::key::{cache_key, get_cache_key};
use crate::pipeline::{generate_thumbnail, thumbnail_outcome};
use vstd::prelude::*;
use vstd::string::StringExecFns;

verus! {

/// A request for the thumbnail of one image.
#[derive(Debug)]
pub struct ThumbnailRequest {
    /// The path of the source image.
    pub image_path: String,
    /// The side of the square that the thumbnail must fit in.
    pub size: u32,
    /// Whether to pass the cache by and generate anew; `None` means no.
    pub force_regenerate: Option<bool>,
}

/// A thumbnail as it is handed back.
#[derive(Debug)]
pub struct ThumbnailData {
    /// The thumbnail as transport text.
    pub base64_data: String,
    /// The name of the file that holds the entry in the cache directory.
    pub cache_path: String,
    /// When the thumbnail was stored, in seconds since the epoch.
    pub generated_at: u64,
}

/// The mathematical value of a `ThumbnailData`.
pub struct ThumbnailDataView {
    pub base64_data: Seq<char>,
    pub cache_path: Seq<char>,
    pub generated_at: u64,
}

impl View for ThumbnailData {
    type V = ThumbnailDataView;

    open spec fn view(&self) -> ThumbnailDataView {
        ThumbnailDataView {
            base64_data: self.base64_data@,
            cache_path: self.cache_path@,
            generated_at: self.generated_at,
        }
    }
}

impl ThumbnailRequest {
    /// Whether the request passes the cache by.
    pub open spec fn forced(&self) -> bool {
        self.force_regenerate == Some(true)
    }

    /// The key under which the thumbnail of the request is stored.
    pub open spec fn key(&self) -> Seq<char> {
        cache_key(self.image_path@, self.size)
    }
}

/// The name of the file that holds the entry stored under `key`.
pub open spec fn entry_file_name(key: Seq<char>) -> Seq<char> {
    key + ".json"@
}

/// The name of the file that holds the entry stored under `key`: one file per
/// key, named after it.
pub fn cache_file_name(key: &str) -> (name: String)
    ensures
        name@ == entry_file_name(key@),
{
    String::from_str(key).concat(".json")
}

/// What the cache answers to a request: the entry stored for it, unless the
/// request passes the cache by.
pub open spec fn cache_answer(
    store: Map<Seq<char>, RecordView>,
    request: ThumbnailRequest,
    now: u64,
) -> Option<ThumbnailDataView> {
    if request.forced() {
        None
    } else {
        match lookup(store, request.key(), now) {
            Some(entry) => Some(
                ThumbnailDataView {
                    base64_data: entry.thumbnail,
                    cache_path: entry_file_name(request.key()),
                    generated_at: entry.created,
                },
            ),
            None => None,
        }
    }
}

/// The store after the cache was asked: a forced request leaves it alone, any
/// other is a lookup.
pub open spec fn store_after_asking(
    store: Map<Seq<char>, RecordView>,
    request: ThumbnailRequest,
    now: u64,
) -> Map<Seq<char>, RecordView> {
    if request.forced() {
        store
    } else {
        after_lookup(store, request.key(), now)
    }
}

/// What generating makes of the source of a request: the payload, or the
/// kind of failure. The source must be a file, its extension supported and
/// its header in agreement with the extension before the decoder sees it.
pub open spec fn generated(request: ThumbnailRequest, is_file: bool, data: Seq<u8>) -> Result<
    Seq<char>,
    SpicaErrorKind,
> {
    match source_check(request.image_path@, is_file, data) {
        Err(kind) => Err(kind),
        Ok(_) => thumbnail_outcome(request.image_path@, data, request.size),
    }
}

/// The store after the thumbnail of a request was generated: on success the
/// new entry stands under the request's key, stamped `now`; on failure
/// nothing was written.
pub open spec fn store_after_generating(
    store: Map<Seq<char>, RecordView>,
    request: ThumbnailRequest,
    is_file: bool,
    data: Seq<u8>,
    now: u64,
) -> Map<Seq<char>, RecordView> {
    match generated(request, is_file, data) {
        Ok(payload) => store.insert(
            request.key(),
            RecordView::Entry(EntryView { thumbnail: payload, created: now }),
        ),
        Err(_) => store,
    }
}

/// Whether `result` is what generating was to hand back.
pub open spec fn generation_agrees(
    result: Result<ThumbnailData, SpicaError>,
    request: ThumbnailRequest,
    is_file: bool,
    data: Seq<u8>,
    now: u64,
) -> bool {
    match result {
        Ok(made) => generated(request, is_file, data) == Ok::<Seq<char>, SpicaErrorKind>(
            made.base64_data@,
        ) && made.cache_path@ == entry_file_name(request.key()) && made.generated_at == now,
        Err(error) => generated(request, is_file, data) == Err::<Seq<char>, SpicaErrorKind>(
            error.spec_kind(),
        ),
    }
}

/// The first half of a request: asks the cache. A fresh entry ends the
/// request here, before the source is read. A forced request is never
/// answered from the cache.
pub fn find_thumbnail(store: &mut CacheStore, request: &ThumbnailRequest, now: u64) -> (found:
    Option<ThumbnailData>)
    requires
        old(store).wf(),
    ensures
        final(store).wf(),
        match found {
            Some(data) => cache_answer(old(store)@, *request, now) == Some(data@),
            None => cache_answer(old(store)@, *request, now) is None,
        },
        final(store)@ == store_after_asking(old(store)@, *request, now),
{
    let forced = match request.force_regenerate {
        Some(flag) => flag,
        None => false,
    };
    if forced {
        return None;
    }
    let key = get_cache_key(request.image_path.as_str(), request.size);
    match store.get(key.as_str(), now) {
        Some(entry) => Some(
            ThumbnailData {
                base64_data: entry.thumbnail,
                cache_path: cache_file_name(key.as_str()),
                generated_at: entry.created,
            },
        ),
        None => None,
    }
}

/// The second half of a request: validates the source, generates the
/// thumbnail and stores it, stamped `now`. On any failure the store is left
/// as it was.
pub fn create_thumbnail(
    store: &mut CacheStore,
    request: &ThumbnailRequest,
    is_file: bool,
    data: &[u8],
    now: u64,
) -> (result: Result<ThumbnailData, SpicaError>)
    requires
        old(store).wf(),
    ensures
        final(store).wf(),
        generation_agrees(result, *request, is_file, data@, now),
        final(store)@ == store_after_generating(old(store)@, *request, is_file, data@, now),
{
    let path = request.image_path.as_str();
    match check_image_path(path, is_file) {
        Ok(_) => {},
        Err(error) => {
            return Err(error);
        },
    }
    match validate_image_header(path, data) {
        Ok(()) => {},
        Err(error) => {
            return Err(error);
        },
    }
    let payload = match generate_thumbnail(path, data, request.size) {
        Ok(payload) => payload,
        Err(error) => {
            return Err(error);
        },
    };
    let key = get_cache_key(path, request.size);
    store.put(key.as_str(), CacheEntry { thumbnail: payload.clone(), created: now }, now);
    Ok(
        ThumbnailData {
            base64_data: payload,
            cache_path: cache_file_name(key.as_str()),
            generated_at: now,
        },
    )
}

/// A whole request with the source at hand: the cached thumbnail where a
/// fresh one is stored and the request is not forced, else a new one, which
/// is stored. A failure writes nothing.
pub fn get_or_create_thumbnail(
    store: &mut CacheStore,
    request: &ThumbnailRequest,
    is_file: bool,
    data: &[u8],
    now: u64,
) -> (result: Result<ThumbnailData, SpicaError>)
    requires
        old(store).wf(),
    ensures
        final(store).wf(),
        match cache_answer(old(store)@, *request, now) {
            Some(cached) => {
                &&& result matches Ok(data) && data@ == cached
                &&& final(store)@ == old(store)@
            },
            None => {
                &&& generation_agrees(result, *request, is_file, data@, now)
                &&& final(store)@ == store_after_generating(
                    store_after_asking(old(store)@, *request, now),
                    *request,
                    is_file,
                    data@,
                    now,
                )
            },
        },
{
    match find_thumbnail(store, request, now) {
        Some(found) => Ok(found),
        None => create_thumbnail(store, request, is_file, data, now),
    }
}

// ---------------------------------------------------------------------------
// What holds of every request
// ---------------------------------------------------------------------------
/// Header before decoder. A file whose first bytes are the magic number of no supported
/// format fails header validation under every name, and a request for its
/// thumbnail ends as an invalid format whatever a decoder would make of the
/// bytes; the store is not written.
pub proof fn lemma_unknown_header_is_rejected(
    store: Map<Seq<char>, RecordView>,
    request: ThumbnailRequest,
    is_file: bool,
    data: Seq<u8>,
    now: u64,
)
    requires
        magic_format(data) == ImageFormat::Unknown,
    ensures
        !header_matches(request.image_path@, data),
        generated(request, is_file, data) is Err,
        is_file ==> generated(request, is_file, data) == Err::<Seq<char>, SpicaErrorKind>(
            SpicaErrorKind::InvalidFormat,
        ),
        store_after_generating(store, request, is_file, data, now) == store,
{
}

/// A second, identical request is answered from the cache. After a thumbnail
/// was generated and stored at `stored`, the same request, not forced and
/// asked within the expiry window, gets the very same payload from the cache
/// and leaves the store as it is: the pipeline is not run again.
pub proof fn lemma_repeat_request_hits_cache(
    store: Map<Seq<char>, RecordView>,
    request: ThumbnailRequest,
    is_file: bool,
    data: Seq<u8>,
    stored: u64,
    now: u64,
)
    requires
        !request.forced(),
        generated(request, is_file, data) is Ok,
        now - stored <= crate::cache::CACHE_DURATION,
    ensures
        ({
            let filled = store_after_generating(store, request, is_file, data, stored);
            &&& cache_answer(filled, request, now) matches Some(cached)
            &&& Ok::<Seq<char>, SpicaErrorKind>(cached.base64_data) == generated(
                request,
                is_file,
                data,
            )
            &&& cached.generated_at == stored
            &&& store_after_asking(filled, request, now) == filled
        }),
{
}

/// A forced request never reads the cache and never changes it by asking.
pub proof fn lemma_forced_request_skips_cache(
    store: Map<Seq<char>, RecordView>,
    request: ThumbnailRequest,
    now: u64,
)
    requires
        request.forced(),
    ensures
        cache_answer(store, request, now) is None,
        store_after_asking(store, request, now) == store,
{
}

} // verus!
