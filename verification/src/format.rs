//! Format detection: a file is classified by the extension of its path and,
//! independently, by the magic number at the start of its contents.

use crate::error::SpicaError;
use vstd::prelude::*;
use vstd::string::StringExecFns;

verus! {

/// The image formats the viewer can show, and `Unknown` for everything else.
#[derive(Debug, Clone, Copy, PartialEq, Eq, Structural)]
pub enum ImageFormat {
    Jpeg,
    Png,
    Webp,
    Gif,
    Unknown,
}

/// How many leading bytes of a file header validation looks at, at most.
pub const IMAGE_HEADER_BUFFER_SIZE: usize = 16;

// ---------------------------------------------------------------------------
// Extensions
// ---------------------------------------------------------------------------
/// Both separators are honoured on every platform, so that a path is
/// classified the same way wherever it was written.
pub open spec fn is_separator(c: char) -> bool {
    c == '/' || c == '\\'
}

/// The ASCII lower-case form of `c`; other characters are left as they are.
pub open spec fn ascii_lower(c: char) -> char {
    if 'A' <= c && c <= 'Z' {
        ((c as u8) + 32) as char
    } else {
        c
    }
}

/// `s` with every ASCII letter in lower case.
pub open spec fn lower(s: Seq<char>) -> Seq<char> {
    Seq::new(s.len(), |i: int| ascii_lower(s[i]))
}

/// Whether the last character of `path` says nothing of where it leads: a
/// separator at the end, or a segment at the end that is a single dot, as in
/// `photos/a.jpg/` and `photos/a.jpg/.`.
pub open spec fn ends_idle(path: Seq<char>) -> bool {
    path.len() > 0 && (is_separator(path.last()) || (path.last() == '.' && path.len() >= 2
        && is_separator(path[path.len() - 2])))
}

/// `path` without the separators and single-dot segments at its end. What is
/// left ends in the name of the file or folder that the path leads to.
pub open spec fn trimmed(path: Seq<char>) -> Seq<char>
    decreases path.len(),
{
    if ends_idle(path) {
        trimmed(path.drop_last())
    } else {
        path
    }
}

/// The index of the dot that introduces the extension of the last segment of
/// a trimmed `path`. A segment ends at a separator; a dot that opens the
/// segment (as in `.hidden`) introduces no extension.
pub open spec fn extension_dot(path: Seq<char>) -> Option<int>
    decreases path.len(),
{
    if path.len() == 0 || is_separator(path.last()) {
        None
    } else if path.last() == '.' {
        if path.len() == 1 || is_separator(path[path.len() - 2]) {
            None
        } else {
            Some(path.len() - 1)
        }
    } else {
        extension_dot(path.drop_last())
    }
}

/// The extension of `path`: what follows the last dot of the name it leads
/// to. Separators and single-dot segments at the end of the path are passed
/// over, so `a.jpg`, `a.jpg/` and `a.jpg/.` have the same extension.
pub open spec fn extension(path: Seq<char>) -> Option<Seq<char>> {
    let name = trimmed(path);
    match extension_dot(name) {
        Some(dot) => Some(name.subrange(dot + 1, name.len() as int)),
        None => None,
    }
}

/// The format that an extension stands for, compared without regard to case.
pub open spec fn extension_format(ext: Seq<char>) -> ImageFormat {
    let e = lower(ext);
    if e == seq!['j', 'p', 'g'] || e == seq!['j', 'p', 'e', 'g'] {
        ImageFormat::Jpeg
    } else if e == seq!['p', 'n', 'g'] {
        ImageFormat::Png
    } else if e == seq!['w', 'e', 'b', 'p'] {
        ImageFormat::Webp
    } else if e == seq!['g', 'i', 'f'] {
        ImageFormat::Gif
    } else {
        ImageFormat::Unknown
    }
}

/// The format that the extension of `path` declares.
pub open spec fn path_format(path: Seq<char>) -> ImageFormat {
    match extension(path) {
        Some(ext) => extension_format(ext),
        None => ImageFormat::Unknown,
    }
}

/// The lower-case extension of a supported path, and `unknown` for any other.
pub open spec fn format_label(path: Seq<char>) -> Seq<char> {
    if path_format(path) == ImageFormat::Unknown {
        seq!['u', 'n', 'k', 'n', 'o', 'w', 'n']
    } else {
        lower(extension(path).unwrap())
    }
}

/// Where the last segment of a trimmed `path` starts: behind its last
/// separator.
pub open spec fn file_name_start(path: Seq<char>) -> int
    decreases path.len(),
{
    if path.len() == 0 || is_separator(path.last()) {
        path.len() as int
    } else {
        file_name_start(path.drop_last())
    }
}

/// The name of the file that `path` leads to: the last segment of the
/// trimmed path.
pub open spec fn file_name(path: Seq<char>) -> Seq<char> {
    let name = trimmed(path);
    name.subrange(file_name_start(name), name.len() as int)
}

/// Trimming cuts a path at its end and nowhere else.
pub proof fn lemma_trimmed_is_prefix(path: Seq<char>)
    ensures
        trimmed(path).len() <= path.len(),
        trimmed(path) == path.take(trimmed(path).len() as int),
        !ends_idle(trimmed(path)),
    decreases path.len(),
{
    if ends_idle(path) {
        let shorter = path.drop_last();
        lemma_trimmed_is_prefix(shorter);
        assert(shorter.take(trimmed(path).len() as int) == path.take(trimmed(path).len() as int));
    } else {
        assert(path.take(path.len() as int) == path);
    }
}

/// A path that ends in separators or single-dot segments is classified as
/// the path without them.
pub proof fn lemma_trailing_separator_is_ignored(path: Seq<char>, tail: char)
    requires
        is_separator(tail),
    ensures
        extension(path.push(tail)) == extension(path),
        path_format(path.push(tail)) == path_format(path),
        file_name(path.push(tail)) == file_name(path),
        extension(path.push(tail).push('.')) == extension(path),
        file_name(path.push(tail).push('.')) == file_name(path),
{
    let slashed = path.push(tail);
    assert(slashed.drop_last() == path);
    assert(ends_idle(slashed));
    let dotted = slashed.push('.');
    assert(dotted.drop_last() == slashed);
    assert(dotted[dotted.len() - 2] == tail);
    assert(ends_idle(dotted));
}

/// A dot found by `extension_dot` lies inside the path.
pub proof fn lemma_extension_dot_in_range(path: Seq<char>)
    ensures
        extension_dot(path) matches Some(dot) ==> 0 < dot < path.len() && path[dot] == '.',
    decreases path.len(),
{
    if path.len() == 0 || is_separator(path.last()) {
    } else if path.last() == '.' {
    } else {
        lemma_extension_dot_in_range(path.drop_last());
    }
}

/// The last segment starts inside the path, right after a separator or at
/// the very beginning, and holds no separator itself.
pub proof fn lemma_file_name_start(path: Seq<char>)
    ensures
        0 <= file_name_start(path) <= path.len(),
        file_name_start(path) > 0 ==> is_separator(path[file_name_start(path) - 1]),
        forall|i: int| file_name_start(path) <= i < path.len() ==> !is_separator(path[i]),
    decreases path.len(),
{
    if path.len() == 0 || is_separator(path.last()) {
    } else {
        let shorter = path.drop_last();
        lemma_file_name_start(shorter);
        assert forall|i: int| file_name_start(path) <= i < path.len() implies !is_separator(
            path[i],
        ) by {
            if i < shorter.len() {
                assert(path[i] == shorter[i]);
            }
        }
    }
}

fn to_lower(c: char) -> (r: char)
    ensures
        r == ascii_lower(c),
{
    if 'A' <= c && c <= 'Z' {
        ((c as u8) + 32) as char
    } else {
        c
    }
}

fn separates(c: char) -> (r: bool)
    ensures
        r == is_separator(c),
{
    c == '/' || c == '\\'
}

/// The characters of `path`, in order.
fn path_chars(path: &str) -> (chars: Vec<char>)
    ensures
        chars@ == path@,
{
    let mut chars: Vec<char> = Vec::new();
    for c in it: path.chars()
        invariant
            chars@ == path@.take(it.index() as int),
            it.seq() == path@,
    {
        chars.push(c);
    }
    chars
}

/// Whether the character before `end` says nothing of where the path leads.
fn idle_before(chars: &Vec<char>, end: usize) -> (idle: bool)
    requires
        0 < end <= chars.len(),
    ensures
        idle == ends_idle(chars@.take(end as int)),
{
    let ghost prefix = chars@.take(end as int);
    assert(prefix.last() == chars@[end - 1]);
    let last = chars[end - 1];
    if separates(last) {
        true
    } else if last == '.' && end >= 2 {
        assert(prefix[prefix.len() - 2] == chars@[end - 2]);
        separates(chars[end - 2])
    } else {
        false
    }
}

/// The characters of `path` without the separators and single-dot segments
/// at its end.
fn name_chars(path: &str) -> (chars: Vec<char>)
    ensures
        chars@ == trimmed(path@),
{
    let mut chars = path_chars(path);
    let mut end: usize = chars.len();
    assert(chars@.take(end as int) == chars@);
    while end > 0 && idle_before(&chars, end)
        invariant
            end <= chars.len(),
            chars@ == path@,
            trimmed(path@) == trimmed(chars@.take(end as int)),
        decreases end,
    {
        assert(chars@.take(end as int).drop_last() == chars@.take(end - 1));
        end -= 1;
    }
    chars.truncate(end);
    assert(chars@ == path@.take(end as int));
    chars
}

fn find_extension_dot(chars: &Vec<char>) -> (r: Option<usize>)
    ensures
        match r {
            Some(dot) => extension_dot(chars@) == Some(dot as int),
            None => extension_dot(chars@) is None,
        },
{
    let mut i: usize = chars.len();
    assert(chars@.take(i as int) == chars@);
    while i > 0
        invariant
            i <= chars.len(),
            extension_dot(chars@) == extension_dot(chars@.take(i as int)),
        decreases i,
    {
        let ghost prefix = chars@.take(i as int);
        assert(prefix.last() == chars@[i - 1]);
        assert(prefix.drop_last() == chars@.take(i - 1));
        let c = chars[i - 1];
        if separates(c) {
            return None;
        }
        if c == '.' {
            if i == 1 {
                return None;
            }
            assert(prefix[prefix.len() - 2] == chars@[i - 2]);
            if separates(chars[i - 2]) {
                return None;
            }
            return Some(i - 1);
        }
        i -= 1;
    }
    None
}

fn find_file_name_start(chars: &Vec<char>) -> (r: usize)
    ensures
        r == file_name_start(chars@),
{
    let mut i: usize = chars.len();
    assert(chars@.take(i as int) == chars@);
    while i > 0
        invariant
            i <= chars.len(),
            file_name_start(chars@) == file_name_start(chars@.take(i as int)),
        decreases i,
    {
        let ghost prefix = chars@.take(i as int);
        assert(prefix.last() == chars@[i - 1]);
        assert(prefix.drop_last() == chars@.take(i - 1));
        if separates(chars[i - 1]) {
            return i;
        }
        i -= 1;
    }
    0
}

/// Whether what follows `chars[dot]` is `word`, letter case aside.
fn extension_is<const N: usize>(chars: &Vec<char>, dot: usize, word: &[char; N]) -> (r: bool)
    requires
        dot < chars.len(),
    ensures
        r == (lower(chars@.subrange(dot + 1, chars.len() as int)) == word@),
{
    let ghost ext = chars@.subrange(dot + 1, chars.len() as int);
    if chars.len() - dot - 1 != N {
        assert(lower(ext).len() != word@.len());
        return false;
    }
    let mut i: usize = 0;
    while i < N
        invariant
            i <= N,
            dot < chars.len(),
            chars.len() - dot - 1 == N,
            ext == chars@.subrange(dot + 1, chars.len() as int),
            forall|j: int| 0 <= j < i ==> lower(ext)[j] == word@[j],
        decreases N - i,
    {
        if to_lower(chars[dot + 1 + i]) != word[i] {
            assert(lower(ext)[i as int] != word@[i as int]);
            return false;
        }
        i += 1;
    }
    assert(lower(ext) =~= word@);
    true
}

/// The format that the extension opened by `chars[dot]` stands for, with the
/// extension's canonical spelling.
fn classify_extension(chars: &Vec<char>, dot: usize) -> (r: (ImageFormat, &'static str))
    requires
        dot < chars.len(),
    ensures
        r.0 == extension_format(chars@.subrange(dot + 1, chars.len() as int)),
        r.0 != ImageFormat::Unknown ==> r.1@ == lower(
            chars@.subrange(dot + 1, chars.len() as int),
        ),
        r.0 == ImageFormat::Unknown ==> r.1@ == seq!['u', 'n', 'k', 'n', 'o', 'w', 'n'],
{
    proof {
        reveal_strlit("jpg");
        reveal_strlit("jpeg");
        reveal_strlit("png");
        reveal_strlit("webp");
        reveal_strlit("gif");
        reveal_strlit("unknown");
    }
    let ghost e = lower(chars@.subrange(dot + 1, chars.len() as int));
    if extension_is(chars, dot, &['j', 'p', 'g']) {
        assert("jpg"@ =~= e);
        (ImageFormat::Jpeg, "jpg")
    } else if extension_is(chars, dot, &['j', 'p', 'e', 'g']) {
        assert("jpeg"@ =~= e);
        (ImageFormat::Jpeg, "jpeg")
    } else if extension_is(chars, dot, &['p', 'n', 'g']) {
        assert("png"@ =~= e);
        (ImageFormat::Png, "png")
    } else if extension_is(chars, dot, &['w', 'e', 'b', 'p']) {
        assert("webp"@ =~= e);
        (ImageFormat::Webp, "webp")
    } else if extension_is(chars, dot, &['g', 'i', 'f']) {
        assert("gif"@ =~= e);
        (ImageFormat::Gif, "gif")
    } else {
        assert("unknown"@ =~= seq!['u', 'n', 'k', 'n', 'o', 'w', 'n']);
        (ImageFormat::Unknown, "unknown")
    }
}

/// The format declared by the extension of `path`, with its label.
fn classify_path(path: &str) -> (r: (ImageFormat, &'static str))
    ensures
        r.0 == path_format(path@),
        r.1@ == format_label(path@),
{
    let chars = name_chars(path);
    match find_extension_dot(&chars) {
        Some(dot) => {
            proof {
                lemma_extension_dot_in_range(chars@);
            }
            classify_extension(&chars, dot)
        },
        None => {
            proof {
                reveal_strlit("unknown");
            }
            assert("unknown"@ =~= seq!['u', 'n', 'k', 'n', 'o', 'w', 'n']);
            (ImageFormat::Unknown, "unknown")
        },
    }
}

/// Whether the extension of `path` names a supported image format. Only the
/// text of the path is looked at.
pub fn is_supported_image(path: &str) -> (supported: bool)
    ensures
        supported == (path_format(path@) != ImageFormat::Unknown),
{
    let (format, _) = classify_path(path);
    format != ImageFormat::Unknown
}

/// The supported format that the extension of `path` declares, if any.
pub fn get_image_format(path: &str) -> (format: Option<ImageFormat>)
    ensures
        match format {
            Some(f) => f == path_format(path@) && f != ImageFormat::Unknown,
            None => path_format(path@) == ImageFormat::Unknown,
        },
{
    let (format, _) = classify_path(path);
    if format != ImageFormat::Unknown {
        Some(format)
    } else {
        None
    }
}

/// The lower-case extension of a supported path, `unknown` for any other.
pub fn get_format_label(path: &str) -> (label: String)
    ensures
        label@ == format_label(path@),
{
    let (_, label) = classify_path(path);
    String::from_str(label)
}

/// The name of the file that `path` leads to: its last segment.
pub fn get_file_name(path: &str) -> (name: String)
    ensures
        name@ == file_name(path@),
{
    let chars = name_chars(path);
    let start = find_file_name_start(&chars);
    proof {
        lemma_file_name_start(chars@);
        lemma_trimmed_is_prefix(path@);
    }
    let name = path.substring_char(start, chars.len());
    assert(name@ == file_name(path@));
    String::from_str(name)
}

// ---------------------------------------------------------------------------
// Magic numbers
// ---------------------------------------------------------------------------
/// Whether `data` begins with the bytes of `signature`.
pub open spec fn has_prefix(data: Seq<u8>, signature: Seq<u8>) -> bool {
    signature.len() <= data.len() && data.subrange(0, signature.len() as int) == signature
}

/// The eight bytes that open every PNG file.
pub open spec fn png_signature() -> Seq<u8> {
    seq![0x89u8, 0x50u8, 0x4eu8, 0x47u8, 0x0du8, 0x0au8, 0x1au8, 0x0au8]
}

/// The three bytes that open every JPEG file.
pub open spec fn jpeg_signature() -> Seq<u8> {
    seq![0xffu8, 0xd8u8, 0xffu8]
}

/// `GIF89a`.
pub open spec fn gif89_signature() -> Seq<u8> {
    seq![0x47u8, 0x49u8, 0x46u8, 0x38u8, 0x39u8, 0x61u8]
}

/// `GIF87a`.
pub open spec fn gif87_signature() -> Seq<u8> {
    seq![0x47u8, 0x49u8, 0x46u8, 0x38u8, 0x37u8, 0x61u8]
}

/// `RIFF`, which opens the container of a WebP file.
pub open spec fn riff_signature() -> Seq<u8> {
    seq![0x52u8, 0x49u8, 0x46u8, 0x46u8]
}

/// `WEBP`, which follows the four length bytes of the container.
pub open spec fn webp_signature() -> Seq<u8> {
    seq![0x57u8, 0x45u8, 0x42u8, 0x50u8]
}

/// The supported format whose magic number opens `header`, `Unknown` where
/// none does. Nothing past the twelfth byte matters.
pub open spec fn magic_format(header: Seq<u8>) -> ImageFormat {
    if has_prefix(header, png_signature()) {
        ImageFormat::Png
    } else if has_prefix(header, jpeg_signature()) {
        ImageFormat::Jpeg
    } else if has_prefix(header, gif89_signature()) || has_prefix(header, gif87_signature()) {
        ImageFormat::Gif
    } else if header.len() >= 12 && has_prefix(header, riff_signature()) && header.subrange(8, 12)
        == webp_signature() {
        ImageFormat::Webp
    } else {
        ImageFormat::Unknown
    }
}

/// Whether a file at `path` that begins with `header` passes validation: the
/// extension names a supported format and the magic number names the same one.
pub open spec fn header_matches(path: Seq<char>, header: Seq<u8>) -> bool {
    path_format(path) != ImageFormat::Unknown && magic_format(header) == path_format(path)
}

/// Reading no more than the first `IMAGE_HEADER_BUFFER_SIZE` bytes of a file
/// loses nothing: the magic number lies within them.
pub proof fn lemma_magic_needs_only_prefix(contents: Seq<u8>)
    requires
        contents.len() >= IMAGE_HEADER_BUFFER_SIZE,
    ensures
        magic_format(contents.take(IMAGE_HEADER_BUFFER_SIZE as int)) == magic_format(contents),
{
    let head = contents.take(IMAGE_HEADER_BUFFER_SIZE as int);
    assert(head.subrange(0, 8) == contents.subrange(0, 8));
    assert(head.subrange(0, 3) == contents.subrange(0, 3));
    assert(head.subrange(0, 6) == contents.subrange(0, 6));
    assert(head.subrange(0, 4) == contents.subrange(0, 4));
    assert(head.subrange(8, 12) == contents.subrange(8, 12));
}

/// Calls `image::guess_format` and keeps the answer where it is one of the
/// four supported formats. That function walks a fixed table of signatures and
/// returns the first that opens the buffer; the table starts with PNG, JPEG,
/// `GIF89a`, `GIF87a` and `RIFF`....`WEBP`, in that order, which is what
/// `magic_format` writes down. Every later entry, and a buffer that nothing
/// matches, is `Unknown` here.
#[verifier::external_body]
fn sniff_format(header: &[u8]) -> (format: ImageFormat)
    ensures
        format == magic_format(header@),
{
    match image::guess_format(header) {
        Ok(image::ImageFormat::Png) => ImageFormat::Png,
        Ok(image::ImageFormat::Jpeg) => ImageFormat::Jpeg,
        Ok(image::ImageFormat::Gif) => ImageFormat::Gif,
        Ok(image::ImageFormat::WebP) => ImageFormat::Webp,
        _ => ImageFormat::Unknown,
    }
}

/// The format of a file from its extension and its header together: the
/// format that both name, `Unknown` where they disagree or either names none.
pub fn detect_image_format(path: &str, header: &[u8]) -> (format: ImageFormat)
    ensures
        format == if header_matches(path@, header@) {
            path_format(path@)
        } else {
            ImageFormat::Unknown
        },
{
    let (declared, _) = classify_path(path);
    if declared != ImageFormat::Unknown && sniff_format(header) == declared {
        declared
    } else {
        ImageFormat::Unknown
    }
}

/// What `validate_image_header` reports for a header that fails validation.
pub open spec fn header_rejection(path: Seq<char>, header: Seq<u8>) -> Seq<char> {
    if path_format(path) == ImageFormat::Unknown {
        "Unsupported file format"@
    } else if magic_format(header) == ImageFormat::Unknown {
        "Failed to detect valid image format"@
    } else {
        "Image header does not match the file extension"@
    }
}

/// Checks the first bytes of a file against the format that its extension
/// declares. A header that names no supported format, or another one than the
/// extension, is rejected, whatever the extension says.
pub fn validate_image_header(path: &str, header: &[u8]) -> (outcome: Result<(), SpicaError>)
    ensures
        outcome is Ok <==> header_matches(path@, header@),
        outcome matches Err(e) ==> e matches SpicaError::InvalidFormat(detail) && detail@
            == header_rejection(path@, header@),
{
    let (declared, _) = classify_path(path);
    if declared == ImageFormat::Unknown {
        return Err(SpicaError::InvalidFormat(String::from_str("Unsupported file format")));
    }
    let found = sniff_format(header);
    if found == ImageFormat::Unknown {
        Err(SpicaError::InvalidFormat(String::from_str("Failed to detect valid image format")))
    } else if found != declared {
        Err(
            SpicaError::InvalidFormat(
                String::from_str("Image header does not match the file extension"),
            ),
        )
    } else {
        Ok(())
    }
}

} // verus!
