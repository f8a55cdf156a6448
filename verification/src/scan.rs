//! Folder scans: from what a walk through a folder found to the ordered list
//! of image descriptors. A file that fails validation is left out; it never
//! fails the scan.

use crate::error::SpicaError;
use crate::files::{described, get_image_info, FileProbe, FileProbeView, ImageInfo, ImageInfoView};
use crate::format::{is_supported_image, path_format, ImageFormat};
use vstd::prelude::*;
use vstd::seq_lib::{to_multiset_build, to_multiset_insert};
use vstd::string::StringExecFns;
use vstd::utf8::encode_utf8;

verus! {

/// The order in which a scan lists the images of a folder.
#[derive(Debug, Clone, Copy, PartialEq, Eq, Structural)]
pub enum SortOrder {
    /// By file name, ascending.
    NameAsc,
    /// By file name, descending.
    NameDesc,
    /// By modification time, oldest first.
    DateAsc,
    /// By modification time, newest first.
    DateDesc,
}

/// A request to scan a folder.
#[derive(Debug)]
pub struct FolderScanRequest {
    pub folder_path: String,
    /// The order of the listing; by name, ascending, where none is given.
    pub sort_order: Option<SortOrder>,
}

/// The result of a scan.
#[derive(Debug)]
pub struct FolderScanData {
    pub folder_path: String,
    pub image_files: Vec<ImageInfo>,
    pub total_count: usize,
}

/// What a walk through a folder found: whether the path leads to a folder at
/// all, and a probe of each of its direct children.
#[derive(Debug)]
pub struct FolderListing {
    pub is_dir: bool,
    pub entries: Vec<FileProbe>,
}

// ---------------------------------------------------------------------------
// Order
// ---------------------------------------------------------------------------
/// Whether `a` comes at or before `b` when the two are compared byte by byte,
/// a prefix before what extends it.
pub open spec fn lex_le(a: Seq<u8>, b: Seq<u8>) -> bool
    decreases a.len(),
{
    if a.len() == 0 {
        true
    } else if b.len() == 0 {
        false
    } else if a[0] != b[0] {
        a[0] < b[0]
    } else {
        lex_le(a.drop_first(), b.drop_first())
    }
}

/// Whether `a` may stand before `b` in a listing in the given order. Names
/// are compared by their UTF-8 bytes.
pub open spec fn precedes(order: SortOrder, a: ImageInfoView, b: ImageInfoView) -> bool {
    match order {
        SortOrder::NameAsc => lex_le(encode_utf8(a.filename), encode_utf8(b.filename)),
        SortOrder::NameDesc => lex_le(encode_utf8(b.filename), encode_utf8(a.filename)),
        SortOrder::DateAsc => a.modified <= b.modified,
        SortOrder::DateDesc => b.modified <= a.modified,
    }
}

/// Whether every item of `list` may stand before every later one.
pub open spec fn sorted(order: SortOrder, list: Seq<ImageInfoView>) -> bool {
    forall|i: int, j: int| 0 <= i < j < list.len() ==> precedes(order, list[i], list[j])
}

/// The order of the request, or the default where it names none.
pub open spec fn requested_order(order: Option<SortOrder>) -> SortOrder {
    match order {
        Some(order) => order,
        None => SortOrder::NameAsc,
    }
}

proof fn lemma_lex_le_total(a: Seq<u8>, b: Seq<u8>)
    ensures
        lex_le(a, b) || lex_le(b, a),
    decreases a.len(),
{
    if a.len() > 0 && b.len() > 0 && a[0] == b[0] {
        lemma_lex_le_total(a.drop_first(), b.drop_first());
    }
}

proof fn lemma_lex_le_transitive(a: Seq<u8>, b: Seq<u8>, c: Seq<u8>)
    requires
        lex_le(a, b),
        lex_le(b, c),
    ensures
        lex_le(a, c),
    decreases a.len(),
{
    if a.len() > 0 && b.len() > 0 && c.len() > 0 && a[0] == b[0] && b[0] == c[0] {
        lemma_lex_le_transitive(a.drop_first(), b.drop_first(), c.drop_first());
    }
}

/// Of any two descriptors, one may stand before the other.
pub proof fn lemma_precedes_total(order: SortOrder, a: ImageInfoView, b: ImageInfoView)
    ensures
        precedes(order, a, b) || precedes(order, b, a),
{
    lemma_lex_le_total(encode_utf8(a.filename), encode_utf8(b.filename));
}

/// What may stand before something that may stand before a third may stand
/// before the third.
pub proof fn lemma_precedes_transitive(
    order: SortOrder,
    a: ImageInfoView,
    b: ImageInfoView,
    c: ImageInfoView,
)
    requires
        precedes(order, a, b),
        precedes(order, b, c),
    ensures
        precedes(order, a, c),
{
    match order {
        SortOrder::NameAsc => lemma_lex_le_transitive(
            encode_utf8(a.filename),
            encode_utf8(b.filename),
            encode_utf8(c.filename),
        ),
        SortOrder::NameDesc => lemma_lex_le_transitive(
            encode_utf8(c.filename),
            encode_utf8(b.filename),
            encode_utf8(a.filename),
        ),
        _ => {},
    }
}

fn bytes_le(a: &[u8], b: &[u8]) -> (le: bool)
    ensures
        le == lex_le(a@, b@),
{
    let mut i: usize = 0;
    assert(a@.skip(0) == a@);
    assert(b@.skip(0) == b@);
    while i < a.len() && i < b.len()
        invariant
            i <= a.len(),
            i <= b.len(),
            lex_le(a@, b@) == lex_le(a@.skip(i as int), b@.skip(i as int)),
        decreases a.len() - i,
    {
        assert(a@.skip(i as int)[0] == a@[i as int]);
        assert(b@.skip(i as int)[0] == b@[i as int]);
        assert(a@.skip(i as int).drop_first() == a@.skip(i + 1));
        assert(b@.skip(i as int).drop_first() == b@.skip(i + 1));
        if a[i] != b[i] {
            return a[i] < b[i];
        }
        i += 1;
    }
    i >= a.len()
}

fn comes_before(order: SortOrder, a: &ImageInfo, b: &ImageInfo) -> (before: bool)
    ensures
        before == precedes(order, a@, b@),
{
    match order {
        SortOrder::NameAsc => bytes_le(a.filename.as_str().as_bytes(), b.filename.as_str().as_bytes()),
        SortOrder::NameDesc => bytes_le(
            b.filename.as_str().as_bytes(),
            a.filename.as_str().as_bytes(),
        ),
        SortOrder::DateAsc => a.modified <= b.modified,
        SortOrder::DateDesc => b.modified <= a.modified,
    }
}

// ---------------------------------------------------------------------------
// Listing
// ---------------------------------------------------------------------------
/// The descriptor under which a probed file is listed, if it is listed at
/// all: it must be a regular file with a supported extension whose probe is
/// complete and whose header passes validation.
pub open spec fn listed(file: FileProbeView) -> Option<ImageInfoView> {
    if file.is_file && path_format(file.path) != ImageFormat::Unknown {
        match described(file) {
            Ok(info) => Some(info),
            Err(_) => None,
        }
    } else {
        None
    }
}

/// The descriptors of the probed files that are listed, in the order of the
/// probes.
pub open spec fn accepted(entries: Seq<FileProbe>) -> Seq<ImageInfoView>
    decreases entries.len(),
{
    if entries.len() == 0 {
        Seq::empty()
    } else {
        match listed(entries.last()@) {
            Some(info) => accepted(entries.drop_last()).push(info),
            None => accepted(entries.drop_last()),
        }
    }
}

/// The mathematical values of a list of descriptors.
pub open spec fn views(list: Seq<ImageInfo>) -> Seq<ImageInfoView> {
    Seq::new(list.len(), |i: int| list[i]@)
}

/// A scan lists no more files than it was shown.
pub proof fn lemma_accepted_len(entries: Seq<FileProbe>)
    ensures
        accepted(entries).len() <= entries.len(),
    decreases entries.len(),
{
    if entries.len() > 0 {
        lemma_accepted_len(entries.drop_last());
    }
}

/// Every descriptor that a scan lists belongs to a file whose header passed
/// validation: a file with an image extension and other contents is skipped.
pub proof fn lemma_accepted_are_valid(entries: Seq<FileProbe>, i: int)
    requires
        0 <= i < accepted(entries).len(),
    ensures
        exists|k: int|
            0 <= k < entries.len() && #[trigger] listed(entries[k]@) == Some(accepted(entries)[i]),
    decreases entries.len(),
{
    let rest = entries.drop_last();
    match listed(entries.last()@) {
        Some(info) => {
            if i < accepted(rest).len() {
                lemma_accepted_are_valid(rest, i);
                let k = choose|k: int|
                    0 <= k < rest.len() && #[trigger] listed(rest[k]@) == Some(accepted(rest)[i]);
                assert(rest[k] == entries[k]);
                assert(listed(entries[k]@) == Some(accepted(entries)[i]));
            } else {
                assert(listed(entries[entries.len() - 1]@) == Some(accepted(entries)[i]));
            }
        },
        None => {
            lemma_accepted_are_valid(rest, i);
            let k = choose|k: int|
                0 <= k < rest.len() && #[trigger] listed(rest[k]@) == Some(accepted(rest)[i]);
            assert(rest[k] == entries[k]);
            assert(listed(entries[k]@) == Some(accepted(entries)[i]));
        },
    }
}

proof fn lemma_insert_sorted(order: SortOrder, list: Seq<ImageInfoView>, at: int, item: ImageInfoView)
    requires
        sorted(order, list),
        0 <= at <= list.len(),
        forall|j: int| 0 <= j < at ==> precedes(order, #[trigger] list[j], item),
        forall|j: int| at <= j < list.len() ==> precedes(order, item, #[trigger] list[j]),
    ensures
        sorted(order, list.insert(at, item)),
{
    let longer = list.insert(at, item);
    list.insert_ensures(at, item);
    assert forall|i: int, j: int| 0 <= i < j < longer.len() implies precedes(
        order,
        longer[i],
        longer[j],
    ) by {
        if i < at {
            assert(longer[i] == list[i]);
        } else if i > at {
            assert(longer[i] == list[i - 1]);
        }
        if j < at {
            assert(longer[j] == list[j]);
        } else if j > at {
            assert(longer[j] == list[j - 1]);
        }
    }
}

/// The descriptor under which a probed file is listed, if it is.
fn list_entry(file: &FileProbe) -> (info: Option<ImageInfo>)
    ensures
        match info {
            Some(info) => listed(file@) == Some(info@),
            None => listed(file@) is None,
        },
{
    if file.is_file && is_supported_image(file.path.as_str()) {
        match get_image_info(file) {
            Ok(info) => Some(info),
            Err(_) => None,
        }
    } else {
        None
    }
}

/// Puts `info` into the sorted `list`, behind everything that may stand
/// before it.
fn insert_sorted(list: &mut Vec<ImageInfo>, info: ImageInfo, order: SortOrder)
    requires
        sorted(order, views(old(list)@)),
    ensures
        sorted(order, views(final(list)@)),
        views(final(list)@).to_multiset() == views(old(list)@).to_multiset().insert(info@),
        final(list).len() == old(list).len() + 1,
{
    let ghost before = views(list@);
    let mut at: usize = list.len();
    while at > 0 && !comes_before(order, &list[at - 1], &info)
        invariant
            at <= list.len(),
            list@ == old(list)@,
            before == views(list@),
            forall|j: int| at <= j < list.len() ==> precedes(order, info@, #[trigger] before[j]),
        decreases at,
    {
        proof {
            lemma_precedes_total(order, before[at - 1], info@);
        }
        at -= 1;
    }
    proof {
        assert forall|j: int| 0 <= j < at implies precedes(order, #[trigger] before[j], info@) by {
            if j < at - 1 {
                lemma_precedes_transitive(order, before[j], before[at - 1], info@);
            }
        }
        lemma_insert_sorted(order, before, at as int, info@);
        to_multiset_insert(before, at as int, info@);
    }
    list.insert(at, info);
    assert(views(list@) =~= before.insert(at as int, info@));
}

/// The descriptors of the probed files that are listed, in the given order.
/// Files that are not listed are passed over silently.
pub fn list_images(entries: &Vec<FileProbe>, order: SortOrder) -> (images: Vec<ImageInfo>)
    ensures
        sorted(order, views(images@)),
        views(images@).to_multiset() == accepted(entries@).to_multiset(),
        images.len() == accepted(entries@).len(),
{
    let mut images: Vec<ImageInfo> = Vec::new();
    let mut i: usize = 0;
    assert(entries@.take(0) == Seq::<FileProbe>::empty());
    assert(views(images@) =~= accepted(entries@.take(0)));
    while i < entries.len()
        invariant
            i <= entries.len(),
            sorted(order, views(images@)),
            views(images@).to_multiset() == accepted(entries@.take(i as int)).to_multiset(),
            images.len() == accepted(entries@.take(i as int)).len(),
        decreases entries.len() - i,
    {
        proof {
            let next = entries@.take(i + 1);
            assert(next.drop_last() == entries@.take(i as int));
            assert(next.last() == entries@[i as int]);
            lemma_accepted_len(entries@.take(i as int));
            match listed(entries@[i as int]@) {
                Some(info) => to_multiset_build(accepted(entries@.take(i as int)), info),
                None => {},
            }
        }
        match list_entry(&entries[i]) {
            Some(info) => insert_sorted(&mut images, info, order),
            None => {},
        }
        i += 1;
    }
    assert(entries@.take(i as int) == entries@);
    images
}

/// Scans a folder: lists the images among its direct children by file name.
/// A path that leads to no folder is an error, not an empty list.
pub fn get_folder_images(folder: &FolderListing) -> (result: Result<Vec<ImageInfo>, SpicaError>)
    ensures
        match result {
            Ok(images) => {
                &&& folder.is_dir
                &&& sorted(SortOrder::NameAsc, views(images@))
                &&& views(images@).to_multiset() == accepted(folder.entries@).to_multiset()
                &&& images.len() == accepted(folder.entries@).len()
            },
            Err(error) => {
                &&& !folder.is_dir
                &&& error matches SpicaError::FileNotFound(detail)
                &&& detail@ == "Invalid folder path"@
            },
        },
{
    if !folder.is_dir {
        return Err(SpicaError::FileNotFound(String::from_str("Invalid folder path")));
    }
    Ok(list_images(&folder.entries, SortOrder::NameAsc))
}

/// Scans a folder as the request asks: the images among its direct children,
/// in the requested order, and their number.
pub fn scan_folder(request: &FolderScanRequest, folder: &FolderListing) -> (result: Result<
    FolderScanData,
    SpicaError,
>)
    ensures
        match result {
            Ok(data) => {
                &&& folder.is_dir
                &&& data.folder_path@ == request.folder_path@
                &&& sorted(requested_order(request.sort_order), views(data.image_files@))
                &&& views(data.image_files@).to_multiset() == accepted(
                    folder.entries@,
                ).to_multiset()
                &&& data.total_count == accepted(folder.entries@).len()
                &&& data.total_count == data.image_files.len()
            },
            Err(error) => {
                &&& !folder.is_dir
                &&& error matches SpicaError::FileNotFound(detail)
                &&& detail@ == "Invalid folder path"@
            },
        },
{
    if !folder.is_dir {
        return Err(SpicaError::FileNotFound(String::from_str("Invalid folder path")));
    }
    let order = match request.sort_order {
        Some(order) => order,
        None => SortOrder::NameAsc,
    };
    let image_files = list_images(&folder.entries, order);
    let total_count = image_files.len();
    Ok(FolderScanData { folder_path: request.folder_path.clone(), image_files, total_count })
}

} // verus!
