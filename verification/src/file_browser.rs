//! The listing of a directory and the selection that moves through it.
//!
//! Reading directories and files is the caller's part: a listing is handed
//! in as a vector of [`FileItem`]s, and the first bytes of a file as a
//! sample.
use vstd::prelude::*;
use vstd::string::StringExecFns;

use crate::strings::{
    chars_of, last_index_of, push_chars, rfind_char, same_chars, to_lowercase, unicode_lowercase,
};

verus! {

/// How many bytes of a file are looked at to tell what it holds.
pub const CONTENT_DETECTION_BUFFER_SIZE: usize = 512;

/// A point in time, in nanoseconds since the Unix epoch; negative before it.
#[derive(Debug, Clone, Copy, PartialEq, Eq, Structural)]
pub struct Timestamp {
    pub nanos: i128,
}

impl Timestamp {
    /// The Unix epoch.
    pub fn epoch() -> (r: Self)
        ensures
            r.nanos == 0,
    {
        Timestamp { nanos: 0 }
    }

    /// The point `nanos` nanoseconds after the Unix epoch.
    pub fn from_nanos(nanos: i128) -> (r: Self)
        ensures
            r.nanos == nanos,
    {
        Timestamp { nanos }
    }
}

/// The order of a listing.  Directories come first in every order.
#[derive(Debug, Clone, Copy, PartialEq, Eq, Structural)]
pub enum SortMode {
    Name,
    DateNewestFirst,
    DateOldestFirst,
}

/// An entry of a directory.
#[derive(Debug)]
pub struct FileItem {
    pub name: String,
    pub path: String,
    pub is_directory: bool,
    pub modified: Timestamp,
}

impl Clone for FileItem {
    fn clone(&self) -> (r: Self)
        ensures
            r == *self,
    {
        FileItem {
            name: self.name.clone(),
            path: self.path.clone(),
            is_directory: self.is_directory,
            modified: self.modified,
        }
    }
}

/// What the first bytes of a file look like.
#[derive(Debug, Clone, Copy, PartialEq, Eq, Structural)]
pub enum ContentKind {
    Binary,
    Utf8,
    Utf8Bom,
    Utf16Le,
    Utf16Be,
    Utf32Le,
    Utf32Be,
}

/// Whether one of the first 1024 bytes of a sample is zero.
pub open spec fn has_zero_byte(sample: Seq<u8>) -> bool {
    exists|i: int| 0 <= i < sample.len() && i < 1024 && #[trigger] sample[i] == 0
}

/// What a sample of bytes is judged to be.
///
/// A byte-order mark at the start names the encoding: of UTF-8, UTF-32
/// (big-endian, then little-endian) or UTF-16 (big-endian, then
/// little-endian), tried in this order.  Without one, a zero byte among
/// the first 1024 bytes makes the sample binary, and so does the start of a
/// PDF or PNG file.  Anything else is taken for UTF-8 text.
pub open spec fn inspected(sample: Seq<u8>) -> ContentKind {
    if bytes_at(sample, seq![0xefu8, 0xbbu8, 0xbfu8], 0) {
        ContentKind::Utf8Bom
    } else if bytes_at(sample, seq![0x00u8, 0x00u8, 0xfeu8, 0xffu8], 0) {
        ContentKind::Utf32Be
    } else if bytes_at(sample, seq![0xffu8, 0xfeu8, 0x00u8, 0x00u8], 0) {
        ContentKind::Utf32Le
    } else if bytes_at(sample, seq![0xfeu8, 0xffu8], 0) {
        ContentKind::Utf16Be
    } else if bytes_at(sample, seq![0xffu8, 0xfeu8], 0) {
        ContentKind::Utf16Le
    } else if has_zero_byte(sample) {
        ContentKind::Binary
    } else if bytes_at(sample, seq![0x25u8, 0x50u8, 0x44u8, 0x46u8], 0) || bytes_at(
        sample,
        seq![0x89u8, 0x50u8, 0x4eu8, 0x47u8],
        0,
    ) {
        ContentKind::Binary
    } else {
        ContentKind::Utf8
    }
}

/// Judges what a sample of bytes is: text in some encoding, or binary data.
///
/// Wraps `content_inspector::inspect`, which looks for a byte-order mark,
/// then for a zero byte among the first 1024 bytes, then for the magic
/// numbers of PDF and PNG, as [`inspected`] states.
#[verifier::external_body]
pub(crate) fn inspect(sample: &[u8]) -> (r: ContentKind)
    ensures
        r == inspected(sample@),
{
    match content_inspector::inspect(sample) {
        content_inspector::ContentType::BINARY => ContentKind::Binary,
        content_inspector::ContentType::UTF_8 => ContentKind::Utf8,
        content_inspector::ContentType::UTF_8_BOM => ContentKind::Utf8Bom,
        content_inspector::ContentType::UTF_16LE => ContentKind::Utf16Le,
        content_inspector::ContentType::UTF_16BE => ContentKind::Utf16Be,
        content_inspector::ContentType::UTF_32LE => ContentKind::Utf32Le,
        content_inspector::ContentType::UTF_32BE => ContentKind::Utf32Be,
    }
}

/// Whether `needle` stands in `hay` at position `i`.
pub open spec fn bytes_at(hay: Seq<u8>, needle: Seq<u8>, i: int) -> bool {
    &&& 0 <= i
    &&& i + needle.len() <= hay.len()
    &&& hay.subrange(i, i + needle.len()) == needle
}

/// Whether `needle` stands somewhere in `hay`.
pub open spec fn bytes_contain(hay: Seq<u8>, needle: Seq<u8>) -> bool {
    exists|i: int| bytes_at(hay, needle, i)
}

/// An ASCII capital letter made small; any other byte as it is.
pub open spec fn ascii_lower(b: u8) -> u8 {
    if 0x41 <= b <= 0x5a {
        (b + 0x20) as u8
    } else {
        b
    }
}

/// Whether `needle`, which is in small letters, stands in `hay` at position
/// `i` when the case of ASCII letters is ignored.
pub open spec fn bytes_at_ignoring_case(hay: Seq<u8>, needle: Seq<u8>, i: int) -> bool {
    &&& 0 <= i
    &&& i + needle.len() <= hay.len()
    &&& forall|k: int| 0 <= k < needle.len() ==> ascii_lower(#[trigger] hay[i + k]) == needle[k]
}

/// Whether `needle`, which is in small letters, stands somewhere in `hay`
/// when the case of ASCII letters is ignored.
pub open spec fn bytes_contain_ignoring_case(hay: Seq<u8>, needle: Seq<u8>) -> bool {
    exists|i: int| bytes_at_ignoring_case(hay, needle, i)
}

/// Whether binary data begins like an image: JPEG, PNG, GIF, WebP, BMP or
/// TIFF.  Fewer than four bytes are never an image.
pub open spec fn has_image_signature(sample: Seq<u8>) -> bool {
    &&& sample.len() >= 4
    &&& {
        ||| bytes_at(sample, seq![0xffu8, 0xd8u8, 0xffu8], 0)
        ||| bytes_at(sample, seq![0x89u8, 0x50u8, 0x4eu8, 0x47u8], 0)
        ||| bytes_at(sample, seq![0x47u8, 0x49u8, 0x46u8, 0x38u8], 0)
        ||| (bytes_at(sample, seq![0x52u8, 0x49u8, 0x46u8, 0x46u8], 0) && bytes_at(
            sample,
            seq![0x57u8, 0x45u8, 0x42u8, 0x50u8],
            8,
        ))
        ||| bytes_at(sample, seq![0x42u8, 0x4du8], 0)
        ||| bytes_at(sample, seq![0x49u8, 0x49u8, 0x2au8, 0x00u8], 0)
        ||| bytes_at(sample, seq![0x4du8, 0x4du8, 0x00u8, 0x2au8], 0)
    }
}

/// Whether text looks like an SVG image: it holds `<svg`, `</svg>`, `<SVG`
/// or `</SVG>`, or it holds `<?xml` and, in whatever case, `svg`.
pub open spec fn looks_like_svg(sample: Seq<u8>) -> bool {
    ||| bytes_contain(sample, seq![0x3cu8, 0x73u8, 0x76u8, 0x67u8])
    ||| bytes_contain(sample, seq![0x3cu8, 0x2fu8, 0x73u8, 0x76u8, 0x67u8, 0x3eu8])
    ||| bytes_contain(sample, seq![0x3cu8, 0x53u8, 0x56u8, 0x47u8])
    ||| bytes_contain(sample, seq![0x3cu8, 0x2fu8, 0x53u8, 0x56u8, 0x47u8, 0x3eu8])
    ||| (bytes_contain(sample, seq![0x3cu8, 0x3fu8, 0x78u8, 0x6du8, 0x6cu8])
        && bytes_contain_ignoring_case(sample, seq![0x73u8, 0x76u8, 0x67u8]))
}

/// Whether a sample of the given kind is the beginning of an image.
pub open spec fn image_content(kind: ContentKind, sample: Seq<u8>) -> bool {
    match kind {
        ContentKind::Binary => has_image_signature(sample),
        ContentKind::Utf8 => looks_like_svg(sample),
        _ => false,
    }
}

/// Whether a sample of the given kind is text.
pub open spec fn text_content(kind: ContentKind) -> bool {
    kind != ContentKind::Binary
}

/// A sample that begins like a PNG file is the beginning of an image.  So
/// is one that begins like any other image and has a zero byte among its
/// first 1024 bytes, as the headers of those formats do.
pub proof fn lemma_signature_is_image(sample: Seq<u8>)
    requires
        has_image_signature(sample),
        has_zero_byte(sample) || bytes_at(sample, seq![0x89u8, 0x50u8, 0x4eu8, 0x47u8], 0),
    ensures
        inspected(sample) == ContentKind::Binary,
        image_content(inspected(sample), sample),
{
    // No image begins with a byte-order mark.
    let first = sample[0];
    let second = sample[1];
    assert(bytes_at(sample, seq![0xefu8, 0xbbu8, 0xbfu8], 0) ==> sample.subrange(0, 3)[0]
        == 0xef);
    assert(bytes_at(sample, seq![0x00u8, 0x00u8, 0xfeu8, 0xffu8], 0) ==> sample.subrange(0, 4)[0]
        == 0x00);
    assert(bytes_at(sample, seq![0xffu8, 0xfeu8, 0x00u8, 0x00u8], 0) ==> sample.subrange(0, 4)[1]
        == 0xfe);
    assert(bytes_at(sample, seq![0xfeu8, 0xffu8], 0) ==> sample.subrange(0, 2)[0] == 0xfe);
    assert(bytes_at(sample, seq![0xffu8, 0xfeu8], 0) ==> sample.subrange(0, 2)[1] == 0xfe);
    assert(bytes_at(sample, seq![0xffu8, 0xd8u8, 0xffu8], 0) ==> sample.subrange(0, 3)[0] == 0xff
        && sample.subrange(0, 3)[1] == 0xd8);
    assert(bytes_at(sample, seq![0x89u8, 0x50u8, 0x4eu8, 0x47u8], 0) ==> sample.subrange(0, 4)[0]
        == 0x89);
    assert(bytes_at(sample, seq![0x47u8, 0x49u8, 0x46u8, 0x38u8], 0) ==> sample.subrange(0, 4)[0]
        == 0x47);
    assert(bytes_at(sample, seq![0x52u8, 0x49u8, 0x46u8, 0x46u8], 0) ==> sample.subrange(0, 4)[0]
        == 0x52);
    assert(bytes_at(sample, seq![0x42u8, 0x4du8], 0) ==> sample.subrange(0, 2)[0] == 0x42);
    assert(bytes_at(sample, seq![0x49u8, 0x49u8, 0x2au8, 0x00u8], 0) ==> sample.subrange(0, 4)[0]
        == 0x49);
    assert(bytes_at(sample, seq![0x4du8, 0x4du8, 0x00u8, 0x2au8], 0) ==> sample.subrange(0, 4)[0]
        == 0x4d);
}

fn match_bytes(hay: &[u8], needle: &[u8], i: usize, ignore_case: bool) -> (r: bool)
    ensures
        r == if ignore_case {
            bytes_at_ignoring_case(hay@, needle@, i as int)
        } else {
            bytes_at(hay@, needle@, i as int)
        },
{
    if needle.len() > hay.len() || i > hay.len() - needle.len() {
        return false;
    }
    let mut j: usize = 0;
    while j < needle.len()
        invariant
            j <= needle@.len(),
            i + needle@.len() <= hay@.len() <= usize::MAX,
            ignore_case ==> forall|k: int|
                0 <= k < j ==> ascii_lower(#[trigger] hay@[i + k]) == needle@[k],
            !ignore_case ==> forall|k: int| 0 <= k < j ==> hay@[i + k] == needle@[k],
        decreases needle@.len() - j,
    {
        let b = hay[i + j];
        let seen: u8 = if ignore_case && 0x41 <= b && b <= 0x5a {
            b + 0x20
        } else {
            b
        };
        if seen != needle[j] {
            assert(hay@.subrange(i as int, i + needle@.len())[j as int] == hay@[i + j]);
            return false;
        }
        j += 1;
    }
    assert(!ignore_case ==> hay@.subrange(i as int, i + needle@.len()) =~= needle@);
    true
}

fn search_bytes(hay: &[u8], needle: &[u8], ignore_case: bool) -> (r: bool)
    ensures
        r == if ignore_case {
            bytes_contain_ignoring_case(hay@, needle@)
        } else {
            bytes_contain(hay@, needle@)
        },
{
    if needle.len() > hay.len() {
        return false;
    }
    let last: usize = hay.len() - needle.len();
    let mut i: usize = 0;
    while i < last
        invariant
            i <= last,
            last == hay@.len() - needle@.len(),
            ignore_case ==> forall|k: int|
                0 <= k < i ==> !bytes_at_ignoring_case(hay@, needle@, k),
            !ignore_case ==> forall|k: int| 0 <= k < i ==> !bytes_at(hay@, needle@, k),
        decreases last - i,
    {
        if match_bytes(hay, needle, i, ignore_case) {
            return true;
        }
        i += 1;
    }
    match_bytes(hay, needle, last, ignore_case)
}

/// Tests whether binary data begins like an image.
pub fn is_image_signature(sample: &[u8]) -> (r: bool)
    ensures
        r == has_image_signature(sample@),
{
    if sample.len() < 4 {
        return false;
    }
    let jpeg: [u8; 3] = [0xff, 0xd8, 0xff];
    let png: [u8; 4] = [0x89, 0x50, 0x4e, 0x47];
    let gif: [u8; 4] = [0x47, 0x49, 0x46, 0x38];
    let riff: [u8; 4] = [0x52, 0x49, 0x46, 0x46];
    let webp: [u8; 4] = [0x57, 0x45, 0x42, 0x50];
    let bmp: [u8; 2] = [0x42, 0x4d];
    let tiff_little: [u8; 4] = [0x49, 0x49, 0x2a, 0x00];
    let tiff_big: [u8; 4] = [0x4d, 0x4d, 0x00, 0x2a];
    proof {
        assert(jpeg@ =~= seq![0xffu8, 0xd8u8, 0xffu8]);
        assert(png@ =~= seq![0x89u8, 0x50u8, 0x4eu8, 0x47u8]);
        assert(gif@ =~= seq![0x47u8, 0x49u8, 0x46u8, 0x38u8]);
        assert(riff@ =~= seq![0x52u8, 0x49u8, 0x46u8, 0x46u8]);
        assert(webp@ =~= seq![0x57u8, 0x45u8, 0x42u8, 0x50u8]);
        assert(bmp@ =~= seq![0x42u8, 0x4du8]);
        assert(tiff_little@ =~= seq![0x49u8, 0x49u8, 0x2au8, 0x00u8]);
        assert(tiff_big@ =~= seq![0x4du8, 0x4du8, 0x00u8, 0x2au8]);
    }
    match_bytes(sample, &jpeg, 0, false) || match_bytes(sample, &png, 0, false) || match_bytes(
        sample,
        &gif,
        0,
        false,
    ) || (match_bytes(sample, &riff, 0, false) && match_bytes(sample, &webp, 8, false))
        || match_bytes(sample, &bmp, 0, false) || match_bytes(sample, &tiff_little, 0, false)
        || match_bytes(sample, &tiff_big, 0, false)
}

/// Tests whether text looks like an SVG image.
pub fn is_svg_text(sample: &[u8]) -> (r: bool)
    ensures
        r == looks_like_svg(sample@),
{
    let open_small: [u8; 4] = [0x3c, 0x73, 0x76, 0x67];
    let close_small: [u8; 6] = [0x3c, 0x2f, 0x73, 0x76, 0x67, 0x3e];
    let open_capital: [u8; 4] = [0x3c, 0x53, 0x56, 0x47];
    let close_capital: [u8; 6] = [0x3c, 0x2f, 0x53, 0x56, 0x47, 0x3e];
    let xml: [u8; 5] = [0x3c, 0x3f, 0x78, 0x6d, 0x6c];
    let svg: [u8; 3] = [0x73, 0x76, 0x67];
    proof {
        assert(open_small@ =~= seq![0x3cu8, 0x73u8, 0x76u8, 0x67u8]);
        assert(close_small@ =~= seq![0x3cu8, 0x2fu8, 0x73u8, 0x76u8, 0x67u8, 0x3eu8]);
        assert(open_capital@ =~= seq![0x3cu8, 0x53u8, 0x56u8, 0x47u8]);
        assert(close_capital@ =~= seq![0x3cu8, 0x2fu8, 0x53u8, 0x56u8, 0x47u8, 0x3eu8]);
        assert(xml@ =~= seq![0x3cu8, 0x3fu8, 0x78u8, 0x6du8, 0x6cu8]);
        assert(svg@ =~= seq![0x73u8, 0x76u8, 0x67u8]);
    }
    search_bytes(sample, &open_small, false) || search_bytes(sample, &close_small, false)
        || search_bytes(sample, &open_capital, false) || search_bytes(sample, &close_capital, false)
        || (search_bytes(sample, &xml, false) && search_bytes(sample, &svg, true))
}

/// Tests whether a sample of the given kind is the beginning of an image.
pub fn is_image_content(kind: ContentKind, sample: &[u8]) -> (r: bool)
    ensures
        r == image_content(kind, sample@),
{
    match kind {
        ContentKind::Binary => is_image_signature(sample),
        ContentKind::Utf8 => is_svg_text(sample),
        _ => false,
    }
}

/// The part of a path behind its last dot; the whole path where it has
/// none.
pub open spec fn extension_of(path: Seq<char>) -> Seq<char> {
    match last_index_of(path, '.') {
        Some(dot) => path.subrange(dot + 1, path.len() as int),
        None => path,
    }
}

/// The view of an optional sample.
pub open spec fn sample_view(sample: Option<&[u8]>) -> Option<Seq<u8>> {
    match sample {
        Some(bytes) => Some(bytes@),
        None => None,
    }
}

impl FileItem {
    pub fn new(name: String, path: String, is_directory: bool, modified: Timestamp) -> (r: Self)
        ensures
            r == (FileItem { name, path, is_directory, modified }),
    {
        FileItem { name, path, is_directory, modified }
    }

    /// Whether the entry is an image, judged by the first bytes of the
    /// file; `None` stands for a file that could not be read.
    pub open spec fn spec_is_image(&self, sample: Option<Seq<u8>>) -> bool {
        match sample {
            Some(bytes) => !self.is_directory && image_content(inspected(bytes), bytes),
            None => false,
        }
    }

    /// Whether the entry is a file of ASCII art: its path ends in `.ascii`,
    /// in whatever case.
    pub open spec fn spec_is_ascii_file(&self) -> bool {
        !self.is_directory && unicode_lowercase(extension_of(self.path@)) == "ascii"@
    }

    /// Whether the entry is a text file, judged by the first bytes of the
    /// file; `None` stands for a file that could not be read.  A file of
    /// ASCII art is no text file.
    pub open spec fn spec_is_text_file(&self, sample: Option<Seq<u8>>) -> bool {
        match sample {
            Some(bytes) => !self.is_directory && !self.spec_is_ascii_file() && text_content(
                inspected(bytes),
            ),
            None => false,
        }
    }

    /// Tests whether the entry is an image.
    pub fn is_image(&self, sample: Option<&[u8]>) -> (r: bool)
        ensures
            r == self.spec_is_image(sample_view(sample)),
    {
        if self.is_directory {
            return false;
        }
        match sample {
            Some(bytes) => is_image_content(inspect(bytes), bytes),
            None => false,
        }
    }

    /// Tests whether the entry is a file of ASCII art.
    pub fn is_ascii_file(&self) -> (r: bool)
        ensures
            r == self.spec_is_ascii_file(),
    {
        if self.is_directory {
            return false;
        }
        let path = chars_of(self.path.as_str());
        let len: usize = path.len();
        let mut extension = String::new();
        match rfind_char(&path, '.') {
            Some(dot) => {
                push_chars(&mut extension, &path, dot + 1, len);
            },
            None => {
                push_chars(&mut extension, &path, 0, path.len());
                assert(path@.subrange(0, path@.len() as int) =~= path@);
            },
        }
        assert(extension@ =~= extension_of(self.path@));
        let lower = to_lowercase(extension.as_str());
        let lower_chars = chars_of(lower.as_str());
        let ascii = chars_of("ascii");
        same_chars(&lower_chars, &ascii)
    }

    /// Tests whether the entry is a text file.
    pub fn is_text_file(&self, sample: Option<&[u8]>) -> (r: bool)
        ensures
            r == self.spec_is_text_file(sample_view(sample)),
    {
        if self.is_directory {
            return false;
        }
        if self.is_ascii_file() {
            return false;
        }
        match sample {
            Some(bytes) => {
                match inspect(bytes) {
                    ContentKind::Binary => false,
                    _ => true,
                }
            },
            None => false,
        }
    }

    /// Tests whether the entry can be previewed: it is an image, a text
    /// file or a file of ASCII art.
    pub fn can_preview(&self, sample: Option<&[u8]>) -> (r: bool)
        ensures
            r == (self.spec_is_image(sample_view(sample)) || self.spec_is_text_file(
                sample_view(sample),
            ) || self.spec_is_ascii_file()),
    {
        self.is_image(sample) || self.is_text_file(sample) || self.is_ascii_file()
    }
}


/// Whether `a` comes before `b` in the order of the dictionary, characters
/// compared by their code points.
pub open spec fn lex_less(a: Seq<char>, b: Seq<char>) -> bool
    decreases a.len(),
{
    if b.len() == 0 {
        false
    } else if a.len() == 0 {
        true
    } else if a[0] != b[0] {
        a[0] < b[0]
    } else {
        lex_less(a.drop_first(), b.drop_first())
    }
}

/// The name by which an entry is ordered: its name in small letters.
pub open spec fn name_key(item: FileItem) -> Seq<char> {
    unicode_lowercase(item.name@)
}

/// Whether `a` must stand before `b` in a listing: a directory before a
/// file; among two of a kind, the smaller name, the later time or the
/// earlier time, as the order says.
pub open spec fn sorts_before(a: FileItem, b: FileItem, mode: SortMode) -> bool {
    if a.is_directory != b.is_directory {
        a.is_directory
    } else {
        match mode {
            SortMode::Name => lex_less(name_key(a), name_key(b)),
            SortMode::DateNewestFirst => b.modified.nanos < a.modified.nanos,
            SortMode::DateOldestFirst => a.modified.nanos < b.modified.nanos,
        }
    }
}

/// A sorted listing with one more entry, which takes its place behind the
/// entries that must stand before it and before all others.
pub open spec fn insert_before(sorted: Seq<FileItem>, item: FileItem, mode: SortMode) -> Seq<
    FileItem,
>
    decreases sorted.len(),
{
    if sorted.len() == 0 {
        seq![item]
    } else if sorts_before(sorted.first(), item, mode) {
        seq![sorted.first()] + insert_before(sorted.drop_first(), item, mode)
    } else {
        seq![item] + sorted
    }
}

/// The listing in order.  Entries of which neither must stand before the
/// other keep the order they came in.
pub open spec fn sorted_files(files: Seq<FileItem>, mode: SortMode) -> Seq<FileItem>
    decreases files.len(),
{
    if files.len() == 0 {
        Seq::empty()
    } else {
        insert_before(sorted_files(files.drop_first(), mode), files.first(), mode)
    }
}

/// The place at which `insert_before` puts an entry: the number of leading
/// entries that must stand before it.
pub open spec fn insertion_point(sorted: Seq<FileItem>, item: FileItem, mode: SortMode) -> int
    decreases sorted.len(),
{
    if sorted.len() == 0 {
        0
    } else if sorts_before(sorted.first(), item, mode) {
        1 + insertion_point(sorted.drop_first(), item, mode)
    } else {
        0
    }
}

/// `insert_before` inserts at the `insertion_point`.
pub proof fn lemma_insert_before(sorted: Seq<FileItem>, item: FileItem, mode: SortMode)
    ensures
        0 <= insertion_point(sorted, item, mode) <= sorted.len(),
        insert_before(sorted, item, mode) == sorted.insert(
            insertion_point(sorted, item, mode),
            item,
        ),
        forall|k: int|
            0 <= k < insertion_point(sorted, item, mode) ==> sorts_before(
                #[trigger] sorted[k],
                item,
                mode,
            ),
        insertion_point(sorted, item, mode) < sorted.len() ==> !sorts_before(
            sorted[insertion_point(sorted, item, mode)],
            item,
            mode,
        ),
    decreases sorted.len(),
{
    if sorted.len() == 0 {
        assert(sorted.insert(0, item) =~= seq![item]);
    } else if sorts_before(sorted.first(), item, mode) {
        let rest = sorted.drop_first();
        lemma_insert_before(rest, item, mode);
        let p = insertion_point(rest, item, mode);
        assert(seq![sorted.first()] + rest.insert(p, item) =~= sorted.insert(p + 1, item));
        assert forall|k: int| 0 <= k < p + 1 implies sorts_before(
            #[trigger] sorted[k],
            item,
            mode,
        ) by {
            if k > 0 {
                assert(sorted[k] == rest[k - 1]);
            }
        }
        if p + 1 < sorted.len() {
            assert(sorted[p + 1] == rest[p]);
        }
    } else {
        assert(seq![item] + sorted =~= sorted.insert(0, item));
    }
}

/// Sorting keeps every entry, as often as it occurred.
pub proof fn lemma_sorted_files_permutes(files: Seq<FileItem>, mode: SortMode)
    ensures
        sorted_files(files, mode).to_multiset() == files.to_multiset(),
        sorted_files(files, mode).len() == files.len(),
    decreases files.len(),
{
    broadcast use vstd::seq_lib::group_to_multiset_ensures;

    if files.len() > 0 {
        let rest = files.drop_first();
        lemma_sorted_files_permutes(rest, mode);
        let sorted = sorted_files(rest, mode);
        lemma_insert_before(sorted, files.first(), mode);
        let p = insertion_point(sorted, files.first(), mode);
        vstd::seq_lib::to_multiset_insert(sorted, p, files.first());
        assert(files =~= rest.insert(0, files.first()));
        vstd::seq_lib::to_multiset_insert(rest, 0, files.first());
    } else {
        assert(sorted_files(files, mode) =~= files);
    }
}

/// No text comes before itself, and of two texts at most one comes before
/// the other.
pub proof fn lemma_lex_asymmetric(a: Seq<char>, b: Seq<char>)
    ensures
        !(lex_less(a, b) && lex_less(b, a)),
    decreases a.len(),
{
    if a.len() > 0 && b.len() > 0 && a[0] == b[0] {
        lemma_lex_asymmetric(a.drop_first(), b.drop_first());
    }
}

/// Of two different texts one comes before the other.
pub proof fn lemma_lex_total(a: Seq<char>, b: Seq<char>)
    ensures
        lex_less(a, b) || lex_less(b, a) || a == b,
    decreases a.len(),
{
    if a.len() > 0 && b.len() > 0 && a[0] == b[0] {
        lemma_lex_total(a.drop_first(), b.drop_first());
        if a.drop_first() == b.drop_first() {
            assert(a =~= seq![a[0]] + a.drop_first());
            assert(b =~= seq![b[0]] + b.drop_first());
        }
    } else if a.len() == 0 && b.len() == 0 {
        assert(a =~= b);
    }
}

/// What comes before a text that comes before a third comes before the
/// third.
pub proof fn lemma_lex_transitive(a: Seq<char>, b: Seq<char>, c: Seq<char>)
    requires
        lex_less(a, b),
        lex_less(b, c),
    ensures
        lex_less(a, c),
    decreases a.len(),
{
    if a.len() > 0 && b.len() > 0 && c.len() > 0 && a[0] == b[0] && b[0] == c[0] {
        lemma_lex_transitive(a.drop_first(), b.drop_first(), c.drop_first());
    }
}

/// The order of a listing is strict: of two entries at most one must stand
/// before the other.
pub proof fn lemma_sorts_before_asymmetric(a: FileItem, b: FileItem, mode: SortMode)
    ensures
        !(sorts_before(a, b, mode) && sorts_before(b, a, mode)),
{
    lemma_lex_asymmetric(name_key(a), name_key(b));
}

/// Where `a` need not stand behind `b`, nor `b` behind `c`, `a` need not
/// stand behind `c`.
pub proof fn lemma_sorts_before_chain(a: FileItem, b: FileItem, c: FileItem, mode: SortMode)
    requires
        !sorts_before(b, a, mode),
        !sorts_before(c, b, mode),
    ensures
        !sorts_before(c, a, mode),
{
    if sorts_before(c, a, mode) {
        if a.is_directory == b.is_directory && b.is_directory == c.is_directory {
            match mode {
                SortMode::Name => {
                    let (ka, kb, kc) = (name_key(a), name_key(b), name_key(c));
                    lemma_lex_total(ka, kb);
                    lemma_lex_total(kb, kc);
                    if lex_less(ka, kb) {
                        lemma_lex_transitive(kc, ka, kb);
                    } else if lex_less(kb, kc) {
                        lemma_lex_transitive(kb, kc, ka);
                    }
                },
                _ => {},
            }
        }
    }
}

/// Whether no entry of a listing must stand before an earlier one.
pub open spec fn in_order(files: Seq<FileItem>, mode: SortMode) -> bool {
    forall|i: int, j: int|
        0 <= i < j < files.len() ==> !sorts_before(#[trigger] files[j], #[trigger] files[i], mode)
}

/// A listing that is put in order is in order.
pub proof fn lemma_sorted_files_in_order(files: Seq<FileItem>, mode: SortMode)
    ensures
        in_order(sorted_files(files, mode), mode),
    decreases files.len(),
{
    if files.len() > 0 {
        let item = files.first();
        let sorted = sorted_files(files.drop_first(), mode);
        lemma_sorted_files_in_order(files.drop_first(), mode);
        lemma_insert_before(sorted, item, mode);
        let p = insertion_point(sorted, item, mode);
        let after = sorted.insert(p, item);
        assert forall|i: int, j: int| 0 <= i < j < after.len() implies !sorts_before(
            #[trigger] after[j],
            #[trigger] after[i],
            mode,
        ) by {
            if j == p {
                // An entry before the new one must stand before it.
                assert(after[i] == sorted[i]);
                lemma_sorts_before_asymmetric(sorted[i], item, mode);
            } else if i == p {
                // The new entry need not stand behind the one that was at
                // its place, nor that one behind any later one.
                assert(after[j] == sorted[j - 1]);
                if j - 1 > p {
                    lemma_sorts_before_chain(item, sorted[p], sorted[j - 1], mode);
                }
            } else {
                let a = if i < p {
                    i
                } else {
                    i - 1
                };
                let b = if j < p {
                    j
                } else {
                    j - 1
                };
                assert(after[i] == sorted[a] && after[j] == sorted[b]);
            }
        }
    }
}

fn lex_before(a: &Vec<char>, b: &Vec<char>) -> (r: bool)
    ensures
        r == lex_less(a@, b@),
{
    let mut i: usize = 0;
    assert(a@.skip(0) =~= a@ && b@.skip(0) =~= b@);
    while i < a.len() && i < b.len()
        invariant
            i <= a@.len(),
            i <= b@.len(),
            lex_less(a@, b@) == lex_less(a@.skip(i as int), b@.skip(i as int)),
        decreases a@.len() - i,
    {
        proof {
            assert(a@.skip(i as int)[0] == a@[i as int]);
            assert(b@.skip(i as int)[0] == b@[i as int]);
            assert(a@.skip(i as int).drop_first() =~= a@.skip(i + 1));
            assert(b@.skip(i as int).drop_first() =~= b@.skip(i + 1));
        }
        if a[i] != b[i] {
            return a[i] < b[i];
        }
        i += 1;
    }
    i < b.len()
}

/// The listing of a directory, the entry that is selected, and the part of
/// the listing that is on screen.
#[derive(Debug)]
pub struct FileBrowser {
    pub current_dir: String,
    pub files: Vec<FileItem>,
    pub selected_index: usize,
    pub scroll_offset: usize,
    pub max_visible_files: usize,
    pub sort_mode: SortMode,
    /// For each directory that was entered, where it was entered from and
    /// which entry was selected there.
    pub dir_stack: Vec<(String, usize)>,
}

/// The scroll offset that shows the selection when it has moved below the
/// part on screen: the selection becomes the last entry on screen.
pub open spec fn scrolled_down(selected: int, scroll: int, max_visible: int) -> int {
    if selected >= scroll + max_visible {
        let above = if max_visible >= 1 {
            max_visible - 1
        } else {
            0
        };
        if selected >= above {
            selected - above
        } else {
            0
        }
    } else {
        scroll
    }
}

/// The scroll offset that shows the selection wherever it has moved: it
/// becomes the first entry on screen when it was above, the last when it
/// was below.
pub open spec fn scrolled_to(selected: int, scroll: int, max_visible: int) -> int {
    if selected < scroll {
        selected
    } else {
        scrolled_down(selected, scroll, max_visible)
    }
}

/// The scroll offset that puts the selection in the middle of the screen,
/// as far as the listing reaches.
pub open spec fn centered(selected: int, scroll: int, max_visible: int, len: int) -> int {
    if max_visible == 0 {
        scroll
    } else {
        let half = max_visible / 2;
        let wanted = if selected >= half {
            selected - half
        } else {
            0
        };
        let max_scroll = if len >= max_visible {
            len - max_visible
        } else {
            0
        };
        if wanted > max_scroll {
            max_scroll
        } else {
            wanted
        }
    }
}

/// The place of the first entry with the given path, if there is one.
pub open spec fn position_of_path(files: Seq<FileItem>, path: Seq<char>) -> Option<int>
    decreases files.len(),
{
    if files.len() == 0 {
        None
    } else {
        match position_of_path(files.drop_last(), path) {
            Some(p) => Some(p),
            None => if files.last().path@ == path {
                Some(files.len() - 1)
            } else {
                None
            },
        }
    }
}

/// How many entries a page turn moves by: a screenful, or ten where the
/// screen shows nothing.
pub open spec fn page_size(max_visible: usize) -> int {
    if max_visible > 0 {
        max_visible as int
    } else {
        10
    }
}

/// How many entries a jump moves by.
pub const JUMP_SIZE: usize = 10;

/// How long a directory's path may be before it is shown shortened.
pub const DIR_DISPLAY_LIMIT: usize = 30;

fn scroll_down_to(selected: usize, scroll: usize, max_visible: usize) -> (r: usize)
    ensures
        r == scrolled_down(selected as int, scroll as int, max_visible as int),
{
    if selected as u128 >= scroll as u128 + max_visible as u128 {
        let above: usize = if max_visible >= 1 {
            max_visible - 1
        } else {
            0
        };
        if selected >= above {
            selected - above
        } else {
            0
        }
    } else {
        scroll
    }
}

impl FileBrowser {
    /// A browser over the listing of `dir`, in order of name, with the
    /// first entry selected.
    pub fn new_with_dir(dir: String, entries: Vec<FileItem>) -> (r: Self)
        ensures
            r.current_dir == dir,
            r.files@ == sorted_files(entries@, SortMode::Name),
            r.selected_index == 0,
            r.scroll_offset == 0,
            r.max_visible_files == 20,
            r.sort_mode == SortMode::Name,
            r.dir_stack@.len() == 0,
    {
        let mut browser = FileBrowser {
            current_dir: dir,
            files: Vec::new(),
            selected_index: 0,
            scroll_offset: 0,
            max_visible_files: 20,
            sort_mode: SortMode::Name,
            dir_stack: Vec::new(),
        };
        browser.refresh_files(entries);
        browser
    }

    /// Whether everything but the listing is as in `before`.
    pub open spec fn same_place(self, before: Self) -> bool {
        &&& self.current_dir == before.current_dir
        &&& self.selected_index == before.selected_index
        &&& self.scroll_offset == before.scroll_offset
        &&& self.max_visible_files == before.max_visible_files
        &&& self.sort_mode == before.sort_mode
        &&& self.dir_stack == before.dir_stack
    }

    /// Whether everything but selection and scroll offset is as in
    /// `before`.
    pub open spec fn same_listing(self, before: Self) -> bool {
        &&& self.current_dir == before.current_dir
        &&& self.files == before.files
        &&& self.max_visible_files == before.max_visible_files
        &&& self.sort_mode == before.sort_mode
        &&& self.dir_stack == before.dir_stack
    }

    /// Takes a new listing of the current directory and puts it in order.
    pub fn refresh_files(&mut self, entries: Vec<FileItem>)
        ensures
            final(self).files@ == sorted_files(entries@, old(self).sort_mode),
            final(self).same_place(*old(self)),
    {
        self.files = entries;
        self.sort_files();
    }

    /// Puts the listing in order.
    pub fn sort_files(&mut self)
        ensures
            final(self).files@ == sorted_files(old(self).files@, old(self).sort_mode),
            final(self).same_place(*old(self)),
    {
        let mode = self.sort_mode;
        let mut pending: Vec<FileItem> = Vec::new();
        std::mem::swap(&mut self.files, &mut pending);
        let ghost unsorted = pending@;
        let mut sorted: Vec<FileItem> = Vec::new();
        let mut keys: Vec<Vec<char>> = Vec::new();
        assert(unsorted.skip(unsorted.len() as int) =~= Seq::<FileItem>::empty());
        while pending.len() > 0
            invariant
                pending@ == unsorted.take(pending@.len() as int),
                pending@.len() <= unsorted.len(),
                sorted@ == sorted_files(unsorted.skip(pending@.len() as int), mode),
                keys@.len() == sorted@.len(),
                forall|k: int| 0 <= k < keys@.len() ==> (#[trigger] keys@[k])@ == name_key(sorted@[k]),
            decreases pending@.len(),
        {
            let ghost before = pending@;
            let item = pending.pop().unwrap();
            let ghost rest = unsorted.skip(before.len() as int);
            proof {
                assert(item == unsorted[before.len() - 1]);
                assert(unsorted.skip(before.len() - 1).drop_first() =~= rest);
                assert(unsorted.skip(before.len() - 1).first() == item);
                assert(pending@ =~= unsorted.take(pending@.len() as int));
                lemma_insert_before(sorted@, item, mode);
            }
            let lower = to_lowercase(item.name.as_str());
            let key = chars_of(lower.as_str());
            let mut p: usize = 0;
            assert(sorted@.skip(0) =~= sorted@);
            while p < sorted.len() && Self::stands_before(&sorted[p], &keys[p], &item, &key, mode)
                invariant
                    p <= sorted@.len(),
                    keys@.len() == sorted@.len(),
                    key@ == name_key(item),
                    forall|k: int|
                        0 <= k < keys@.len() ==> (#[trigger] keys@[k])@ == name_key(sorted@[k]),
                    insertion_point(sorted@, item, mode) == p + insertion_point(
                        sorted@.skip(p as int),
                        item,
                        mode,
                    ),
                decreases sorted@.len() - p,
            {
                proof {
                    assert(sorted@.skip(p as int).first() == sorted@[p as int]);
                    assert(sorted@.skip(p as int).drop_first() =~= sorted@.skip(p + 1));
                }
                p += 1;
            }
            proof {
                if p < sorted@.len() {
                    assert(sorted@.skip(p as int).first() == sorted@[p as int]);
                }
                assert(p == insertion_point(sorted@, item, mode));
            }
            sorted.insert(p, item);
            keys.insert(p, key);
        }
        assert(unsorted.skip(0) =~= unsorted);
        self.files = sorted;
    }

    fn stands_before(
        a: &FileItem,
        a_key: &Vec<char>,
        b: &FileItem,
        b_key: &Vec<char>,
        mode: SortMode,
    ) -> (r: bool)
        requires
            a_key@ == name_key(*a),
            b_key@ == name_key(*b),
        ensures
            r == sorts_before(*a, *b, mode),
    {
        if a.is_directory != b.is_directory {
            a.is_directory
        } else {
            match mode {
                SortMode::Name => lex_before(a_key, b_key),
                SortMode::DateNewestFirst => b.modified.nanos < a.modified.nanos,
                SortMode::DateOldestFirst => a.modified.nanos < b.modified.nanos,
            }
        }
    }

    /// The entry that is selected, if the selection points at one.
    pub fn get_selected_file(&self) -> (r: Option<&FileItem>)
        ensures
            r == if self.selected_index < self.files@.len() {
                Some(&self.files@[self.selected_index as int])
            } else {
                None
            },
    {
        if self.selected_index < self.files.len() {
            Some(&self.files[self.selected_index])
        } else {
            None
        }
    }

    /// Selects the next entry, if there is one, and scrolls down where it
    /// is below the screen.
    pub fn move_down(&mut self)
        ensures
            final(self).same_listing(*old(self)),
            old(self).selected_index + 1 < old(self).files@.len() ==> {
                &&& final(self).selected_index == old(self).selected_index + 1
                &&& final(self).scroll_offset == scrolled_down(
                    old(self).selected_index + 1,
                    old(self).scroll_offset as int,
                    old(self).max_visible_files as int,
                )
            },
            old(self).selected_index + 1 >= old(self).files@.len() ==> *final(self) == *old(self),
    {
        let len: usize = self.files.len();
        if len > 0 && self.selected_index < len - 1 {
            self.selected_index = self.selected_index + 1;
            self.scroll_offset = scroll_down_to(
                self.selected_index,
                self.scroll_offset,
                self.max_visible_files,
            );
        }
    }

    /// Selects the entry before, if there is one, and scrolls up where it
    /// is above the screen.
    pub fn move_up(&mut self)
        ensures
            final(self).same_listing(*old(self)),
            old(self).selected_index > 0 ==> {
                &&& final(self).selected_index == old(self).selected_index - 1
                &&& final(self).scroll_offset == if old(self).selected_index - 1 < old(self).scroll_offset {
                    (old(self).selected_index - 1) as usize
                } else {
                    old(self).scroll_offset
                }
            },
            old(self).selected_index == 0 ==> *final(self) == *old(self),
    {
        if self.selected_index > 0 {
            self.selected_index = self.selected_index - 1;
            if self.selected_index < self.scroll_offset {
                self.scroll_offset = self.selected_index;
            }
        }
    }

    /// Scrolls so that the selection is on screen.
    fn update_scroll_for_selection(&mut self)
        ensures
            final(self).same_listing(*old(self)),
            final(self).selected_index == old(self).selected_index,
            final(self).scroll_offset == scrolled_to(
                old(self).selected_index as int,
                old(self).scroll_offset as int,
                old(self).max_visible_files as int,
            ),
    {
        if self.selected_index < self.scroll_offset {
            self.scroll_offset = self.selected_index;
        } else {
            self.scroll_offset = scroll_down_to(
                self.selected_index,
                self.scroll_offset,
                self.max_visible_files,
            );
        }
    }

    /// Whether `self` is `before` with the entry at `target` selected and
    /// scrolled onto the screen.
    pub open spec fn moved_to(self, before: Self, target: int) -> bool {
        &&& self.same_listing(before)
        &&& self.selected_index == target
        &&& self.scroll_offset == scrolled_to(
            target,
            before.scroll_offset as int,
            before.max_visible_files as int,
        )
    }

    /// Moves the selection a page down, to the last entry at most.
    pub fn page_down(&mut self)
        ensures
            old(self).files@.len() == 0 ==> *final(self) == *old(self),
            old(self).files@.len() > 0 ==> final(self).moved_to(
                *old(self),
                if old(self).selected_index + page_size(old(self).max_visible_files) < old(self).files@.len() {
                    old(self).selected_index + page_size(old(self).max_visible_files)
                } else {
                    old(self).files@.len() - 1
                },
            ),
    {
        let len: usize = self.files.len();
        if len == 0 {
            return ;
        }
        let step: usize = if self.max_visible_files > 0 {
            self.max_visible_files
        } else {
            10
        };
        self.selected_index = if self.selected_index < len - 1 && step < len - 1
            - self.selected_index {
            self.selected_index + step
        } else {
            len - 1
        };
        self.update_scroll_for_selection();
    }

    /// Moves the selection a page up, to the first entry at most.
    pub fn page_up(&mut self)
        ensures
            old(self).files@.len() == 0 ==> *final(self) == *old(self),
            old(self).files@.len() > 0 ==> final(self).moved_to(
                *old(self),
                if old(self).selected_index <= page_size(old(self).max_visible_files) {
                    0
                } else {
                    old(self).selected_index - page_size(old(self).max_visible_files)
                },
            ),
    {
        if self.files.len() == 0 {
            return ;
        }
        let step: usize = if self.max_visible_files > 0 {
            self.max_visible_files
        } else {
            10
        };
        self.selected_index = if self.selected_index <= step {
            0
        } else {
            self.selected_index - step
        };
        self.update_scroll_for_selection();
    }

    /// Moves the selection ten entries down, to the last entry at most.
    pub fn jump_forward(&mut self)
        ensures
            old(self).files@.len() == 0 ==> *final(self) == *old(self),
            old(self).files@.len() > 0 ==> final(self).moved_to(
                *old(self),
                if old(self).selected_index + JUMP_SIZE < old(self).files@.len() {
                    old(self).selected_index + JUMP_SIZE
                } else {
                    old(self).files@.len() - 1
                },
            ),
    {
        let len: usize = self.files.len();
        if len == 0 {
            return ;
        }
        self.selected_index = if self.selected_index < len - 1 && JUMP_SIZE < len - 1
            - self.selected_index {
            self.selected_index + JUMP_SIZE
        } else {
            len - 1
        };
        self.update_scroll_for_selection();
    }

    /// Moves the selection ten entries up, to the first entry at most.
    pub fn jump_backward(&mut self)
        ensures
            old(self).files@.len() == 0 ==> *final(self) == *old(self),
            old(self).files@.len() > 0 ==> final(self).moved_to(
                *old(self),
                if old(self).selected_index >= JUMP_SIZE {
                    old(self).selected_index - JUMP_SIZE
                } else {
                    0
                },
            ),
    {
        if self.files.len() == 0 {
            return ;
        }
        self.selected_index = if self.selected_index >= JUMP_SIZE {
            self.selected_index - JUMP_SIZE
        } else {
            0
        };
        self.update_scroll_for_selection();
    }

    /// Selects the first entry and scrolls to the top.
    pub fn move_to_start(&mut self)
        ensures
            final(self).same_listing(*old(self)),
            old(self).files@.len() == 0 ==> *final(self) == *old(self),
            old(self).files@.len() > 0 ==> final(self).selected_index == 0 && final(self).scroll_offset == 0,
    {
        if self.files.len() > 0 {
            self.selected_index = 0;
            self.scroll_offset = 0;
        }
    }

    /// Selects the last entry and scrolls it onto the screen.
    pub fn move_to_end(&mut self)
        ensures
            old(self).files@.len() == 0 ==> *final(self) == *old(self),
            old(self).files@.len() > 0 ==> final(self).moved_to(
                *old(self),
                old(self).files@.len() - 1,
            ),
    {
        let len: usize = self.files.len();
        if len > 0 {
            self.selected_index = len - 1;
            self.update_scroll_for_selection();
        }
    }

    /// Whether `self` is `before` put in the order `mode`, with the entry
    /// that was selected still selected, and centred, where it is found by
    /// its path; else with selection and scroll offset unchanged.
    pub open spec fn resorted(self, before: Self, mode: SortMode) -> bool {
        let files = sorted_files(before.files@, mode);
        &&& self.files@ == files
        &&& self.sort_mode == mode
        &&& self.current_dir == before.current_dir
        &&& self.max_visible_files == before.max_visible_files
        &&& self.dir_stack == before.dir_stack
        &&& if before.selected_index < before.files@.len() {
            match position_of_path(files, before.files@[before.selected_index as int].path@) {
                Some(p) => self.selected_index == p && self.scroll_offset == centered(
                    p,
                    before.scroll_offset as int,
                    before.max_visible_files as int,
                    files.len() as int,
                ),
                None => self.selected_index == before.selected_index && self.scroll_offset
                    == before.scroll_offset,
            }
        } else {
            self.selected_index == before.selected_index && self.scroll_offset
                == before.scroll_offset
        }
    }

    fn sort_keeping_selection(&mut self, mode: SortMode)
        ensures
            final(self).resorted(*old(self), mode),
    {
        let selected_path: Option<String> = match self.get_selected_file() {
            Some(file) => Some(file.path.clone()),
            None => None,
        };
        self.sort_mode = mode;
        self.sort_files();
        match selected_path {
            Some(path) => {
                self.find_and_select_file(path.as_str());
            },
            None => {},
        }
    }

    /// Puts the listing in order of name, unless it is already.
    pub fn sort_by_name(&mut self)
        ensures
            old(self).sort_mode == SortMode::Name ==> *final(self) == *old(self),
            old(self).sort_mode != SortMode::Name ==> final(self).resorted(
                *old(self),
                SortMode::Name,
            ),
    {
        match self.sort_mode {
            SortMode::Name => {},
            _ => {
                self.sort_keeping_selection(SortMode::Name);
            },
        }
    }

    /// The order that a request to sort by date leads to: oldest first
    /// where the order was newest first, else newest first.
    pub open spec fn next_date_mode(mode: SortMode) -> SortMode {
        match mode {
            SortMode::DateNewestFirst => SortMode::DateOldestFirst,
            _ => SortMode::DateNewestFirst,
        }
    }

    /// Puts the listing in order of date, turning the order round where it
    /// was by date before.  Returns the key of the message that says which
    /// order it is now.
    pub fn sort_by_date(&mut self) -> (r: &'static str)
        ensures
            final(self).resorted(*old(self), Self::next_date_mode(old(self).sort_mode)),
            r@ == if final(self).sort_mode == SortMode::DateOldestFirst {
                "date_sort_oldest_first"@
            } else {
                "date_sort_newest_first"@
            },
    {
        let (mode, message_key) = match self.sort_mode {
            SortMode::DateNewestFirst => (SortMode::DateOldestFirst, "date_sort_oldest_first"),
            SortMode::DateOldestFirst => (SortMode::DateNewestFirst, "date_sort_newest_first"),
            SortMode::Name => (SortMode::DateNewestFirst, "date_sort_newest_first"),
        };
        self.sort_keeping_selection(mode);
        message_key
    }

    /// Selects the first entry with the given path, if there is one, and
    /// centres it.
    pub fn find_and_select_file(&mut self, file_path: &str)
        ensures
            final(self).same_listing(*old(self)),
            match position_of_path(old(self).files@, file_path@) {
                Some(p) => final(self).selected_index == p && final(self).scroll_offset
                    == centered(
                    p,
                    old(self).scroll_offset as int,
                    old(self).max_visible_files as int,
                    old(self).files@.len() as int,
                ),
                None => final(self).selected_index == old(self).selected_index && final(self).scroll_offset == old(self).scroll_offset,
            },
    {
        let wanted = file_path.to_owned();
        let mut found: Option<usize> = None;
        let mut i: usize = 0;
        while i < self.files.len()
            invariant
                i <= self.files@.len(),
                wanted@ == file_path@,
                match found {
                    Some(p) => position_of_path(self.files@.take(i as int), file_path@) == Some(
                        p as int,
                    ) && p < i,
                    None => position_of_path(self.files@.take(i as int), file_path@) is None,
                },
            decreases self.files@.len() - i,
        {
            proof {
                assert(self.files@.take(i + 1).drop_last() =~= self.files@.take(i as int));
                assert(self.files@.take(i + 1).last() == self.files@[i as int]);
            }
            if found.is_none() && self.files[i].path == wanted {
                found = Some(i);
            }
            i += 1;
        }
        assert(self.files@.take(self.files@.len() as int) =~= self.files@);
        match found {
            Some(p) => {
                self.selected_index = p;
                self.center_on_selection();
            },
            None => {},
        }
    }

    /// Whether `self` is `before` after the directory `target` was entered
    /// from it, whose listing is `entries`.
    pub open spec fn entered(self, before: Self, target: FileItem, entries: Seq<FileItem>) -> bool {
        &&& self.current_dir@ == target.path@
        &&& self.files@ == sorted_files(entries, before.sort_mode)
        &&& self.selected_index == 0
        &&& self.scroll_offset == 0
        &&& self.max_visible_files == before.max_visible_files
        &&& self.sort_mode == before.sort_mode
        &&& self.dir_stack@.len() == before.dir_stack@.len() + 1
        &&& self.dir_stack@.take(before.dir_stack@.len() as int) == before.dir_stack@
        &&& self.dir_stack@.last().0@ == before.current_dir@
        &&& self.dir_stack@.last().1 == before.selected_index
    }

    /// Enters the directory that is selected, whose listing is `entries`,
    /// and remembers where it was entered from.  Returns whether a
    /// directory was selected; nothing happens where none was.
    pub fn enter_directory(&mut self, entries: Vec<FileItem>) -> (r: bool)
        ensures
            r == (old(self).selected_index < old(self).files@.len() && old(self).files@[old(self).selected_index as int].is_directory),
            !r ==> *final(self) == *old(self),
            r ==> final(self).entered(
                *old(self),
                old(self).files@[old(self).selected_index as int],
                entries@,
            ),
    {
        let target: Option<String> = match self.get_selected_file() {
            Some(file) => if file.is_directory {
                Some(file.path.clone())
            } else {
                None
            },
            None => None,
        };
        match target {
            Some(path) => {
                let ghost stack = self.dir_stack@;
                self.dir_stack.push((self.current_dir.clone(), self.selected_index));
                assert(self.dir_stack@.take(stack.len() as int) =~= stack);
                self.current_dir = path;
                self.selected_index = 0;
                self.scroll_offset = 0;
                self.refresh_files(entries);
                true
            },
            None => false,
        }
    }

    /// The entry to select after going up to `parent`: the one that was
    /// selected when the directory was entered, if it was entered from
    /// `parent` and the listing still reaches that far; else the first.
    pub open spec fn restored_selection(
        stack: Seq<(String, usize)>,
        parent: Seq<char>,
        len: int,
    ) -> int {
        if stack.len() > 0 && stack.last().0@ == parent && stack.last().1 < len {
            stack.last().1 as int
        } else {
            0
        }
    }

    /// Whether `self` is `before` after going up to the directory `parent`,
    /// whose listing is `entries`.
    pub open spec fn gone_up(self, before: Self, parent: Seq<char>, entries: Seq<FileItem>) -> bool {
        let files = sorted_files(entries, before.sort_mode);
        let selected = Self::restored_selection(before.dir_stack@, parent, files.len() as int);
        &&& self.current_dir@ == parent
        &&& self.files@ == files
        &&& self.selected_index == selected
        &&& self.scroll_offset == centered(
            selected,
            0,
            before.max_visible_files as int,
            files.len() as int,
        )
        &&& self.max_visible_files == before.max_visible_files
        &&& self.sort_mode == before.sort_mode
        &&& self.dir_stack@ == if before.dir_stack@.len() > 0 {
            before.dir_stack@.drop_last()
        } else {
            before.dir_stack@
        }
    }

    /// Goes up to the parent directory, given its path and its listing, or
    /// nothing where the current directory has no parent.  Returns whether
    /// there was a parent; nothing happens where there was none.
    pub fn go_to_parent(&mut self, parent: Option<(String, Vec<FileItem>)>) -> (r: bool)
        ensures
            r == parent is Some,
            !r ==> *final(self) == *old(self),
            parent matches Some(up) ==> final(self).gone_up(*old(self), up.0@, up.1@),
    {
        match parent {
            Some((path, entries)) => {
                let restored: Option<usize> = match self.dir_stack.pop() {
                    Some((from, index)) => if from == path {
                        Some(index)
                    } else {
                        None
                    },
                    None => None,
                };
                self.current_dir = path;
                self.scroll_offset = 0;
                self.refresh_files(entries);
                self.selected_index = match restored {
                    Some(index) => if index < self.files.len() {
                        index
                    } else {
                        0
                    },
                    None => 0,
                };
                proof {
                    lemma_sorted_files_permutes(entries@, old(self).sort_mode);
                }
                self.center_on_selection();
                true
            },
            None => false,
        }
    }

    /// Takes the number of entries that the screen shows.  A scroll offset
    /// beyond the listing goes back to the top.
    pub fn update_max_visible_files(&mut self, max_visible: usize)
        ensures
            final(self).max_visible_files == max_visible,
            final(self).scroll_offset == if old(self).scroll_offset >= old(self).files@.len() {
                0
            } else {
                old(self).scroll_offset
            },
            final(self).current_dir == old(self).current_dir,
            final(self).files == old(self).files,
            final(self).selected_index == old(self).selected_index,
            final(self).sort_mode == old(self).sort_mode,
            final(self).dir_stack == old(self).dir_stack,
    {
        self.max_visible_files = max_visible;
        if self.scroll_offset >= self.files.len() {
            self.scroll_offset = 0;
        }
    }

    /// Selects the entry at `index` and centres it; nothing happens where
    /// the listing has no such entry.
    pub fn set_selected_index(&mut self, index: usize)
        ensures
            final(self).same_listing(*old(self)),
            index >= old(self).files@.len() ==> *final(self) == *old(self),
            index < old(self).files@.len() ==> final(self).selected_index == index && final(self).scroll_offset == centered(
                index as int,
                old(self).scroll_offset as int,
                old(self).max_visible_files as int,
                old(self).files@.len() as int,
            ),
    {
        if index < self.files.len() {
            self.selected_index = index;
            self.center_on_selection();
        }
    }

    /// Scrolls so that the selection is in the middle of the screen, as far
    /// as the listing reaches.
    pub fn center_on_selection(&mut self)
        ensures
            final(self).same_listing(*old(self)),
            final(self).selected_index == old(self).selected_index,
            final(self).scroll_offset == centered(
                old(self).selected_index as int,
                old(self).scroll_offset as int,
                old(self).max_visible_files as int,
                old(self).files@.len() as int,
            ),
    {
        if self.max_visible_files == 0 {
            return ;
        }
        let half: usize = self.max_visible_files / 2;
        self.scroll_offset = if self.selected_index >= half {
            self.selected_index - half
        } else {
            0
        };
        let len: usize = self.files.len();
        let max_scroll: usize = if len >= self.max_visible_files {
            len - self.max_visible_files
        } else {
            0
        };
        if self.scroll_offset > max_scroll {
            self.scroll_offset = max_scroll;
        }
    }

    /// The number of entries on screen.
    pub open spec fn visible_count(self) -> int {
        if self.scroll_offset >= self.files@.len() {
            0
        } else if self.files@.len() - self.scroll_offset < self.max_visible_files {
            self.files@.len() - self.scroll_offset
        } else {
            self.max_visible_files as int
        }
    }

    /// The entries on screen, each with its place in the listing.
    pub fn get_display_files(&self) -> (r: Vec<(usize, &FileItem)>)
        ensures
            r@.len() == self.visible_count(),
            forall|k: int|
                0 <= k < r@.len() ==> (#[trigger] r@[k]).0 == self.scroll_offset + k && r@[k].1
                    == &self.files@[self.scroll_offset + k],
    {
        let mut shown: Vec<(usize, &FileItem)> = Vec::new();
        let len: usize = self.files.len();
        if self.scroll_offset >= len {
            return shown;
        }
        let count: usize = if len - self.scroll_offset < self.max_visible_files {
            len - self.scroll_offset
        } else {
            self.max_visible_files
        };
        let mut k: usize = 0;
        while k < count
            invariant
                k <= count,
                self.scroll_offset + count <= self.files@.len(),
                self.files@.len() <= usize::MAX,
                shown@.len() == k,
                forall|j: int|
                    0 <= j < k ==> (#[trigger] shown@[j]).0 == self.scroll_offset + j && shown@[j].1
                        == &self.files@[self.scroll_offset + j],
            decreases count - k,
        {
            shown.push((self.scroll_offset + k, &self.files[self.scroll_offset + k]));
            k += 1;
        }
        shown
    }

    /// The path to show for the current directory: the path itself where
    /// it has at most thirty characters, else `...` and its last
    /// twenty-seven.
    pub open spec fn dir_display(path: Seq<char>) -> Seq<char> {
        if path.len() > DIR_DISPLAY_LIMIT {
            "..."@ + path.subrange(path.len() - 27, path.len() as int)
        } else {
            path
        }
    }

    /// The path to show for the current directory.
    pub fn get_current_dir_display(&self) -> (r: String)
        ensures
            r@ == Self::dir_display(self.current_dir@),
    {
        let chars = chars_of(self.current_dir.as_str());
        if chars.len() > DIR_DISPLAY_LIMIT {
            let mut shown = "...".to_owned();
            push_chars(&mut shown, &chars, chars.len() - 27, chars.len());
            shown
        } else {
            self.current_dir.clone()
        }
    }
}

} // verus!
