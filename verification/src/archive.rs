//! The archive format: a tar stream of members, and the bundle of a manifest
//! and a layer stream that travels as one such stream, with or without gzip
//! framing.

use vstd::prelude::*;
use crate::text::{chars_of, same_text};
use crate::tree::{EntryKind, EntryView, TreeEntry};

verus! {

/// `std::io::Error`, taken as it comes: a value of it is carried through,
/// and nothing is known of what it holds.
#[verifier::external_type_specification]
#[verifier::external_body]
pub struct ExIoError(std::io::Error);

/// Why an archive could not be written or read.
#[derive(Debug)]
pub enum ArchiveError {
    /// The archive or compression library refused the stream; its own words.
    Codec(String),
    /// The bundle holds no manifest.
    MissingMetadata,
    /// The bundle holds no layer stream.
    MissingLayer,
    /// A member's path starts at the root of the file system.
    AbsolutePath(String),
    /// A member's path climbs to a parent directory.
    ParentReference(String),
    /// An entry or a member is neither a file nor a directory; its path.
    Unsupported(String),
}

impl ArchiveError {
    /// The error speaks of the structure of the archive, not of its bytes.
    pub open spec fn is_structural(self) -> bool {
        !(self is Codec)
    }

    /// Whether the error speaks of the structure of the archive.
    pub fn structural(&self) -> (r: bool)
        ensures
            r == self.is_structural(),
    {
        match self {
            ArchiveError::Codec(_) => false,
            _ => true,
        }
    }

    /// The words of the error.
    pub open spec fn message_text(self) -> Seq<char> {
        match self {
            ArchiveError::Codec(s) => s@,
            ArchiveError::MissingMetadata => "Missing metadata.json in export archive"@,
            ArchiveError::MissingLayer => "Missing layer.tar in export archive"@,
            ArchiveError::AbsolutePath(p) => "Absolute paths are not allowed: "@ + p@,
            ArchiveError::ParentReference(p) => "Path contains parent directory reference: "@ + p@,
            ArchiveError::Unsupported(p) => "Neither a file nor a directory: "@ + p@,
        }
    }

    /// The error in words.
    pub fn message(&self) -> (r: String)
        ensures
            r@ == self.message_text(),
    {
        match self {
            ArchiveError::Codec(s) => s.clone(),
            ArchiveError::MissingMetadata => "Missing metadata.json in export archive".to_owned(),
            ArchiveError::MissingLayer => "Missing layer.tar in export archive".to_owned(),
            ArchiveError::AbsolutePath(p) => "Absolute paths are not allowed: ".to_owned().concat(
                p.as_str(),
            ),
            ArchiveError::ParentReference(p) => "Path contains parent directory reference: "
                .to_owned().concat(p.as_str()),
            ArchiveError::Unsupported(p) => "Neither a file nor a directory: ".to_owned().concat(
                p.as_str(),
            ),
        }
    }
}

/// `std::io::Error::to_string`, taken on trust; nothing is claimed of the
/// words it gives.
#[verifier::external_body]
fn io_error_text(e: &std::io::Error) -> String {
    e.to_string()
}

/// Turns the answer of the archive or compression library into the library's
/// own: a value stays the value, a refusal becomes [`ArchiveError::Codec`].
pub fn from_codec<T>(outcome: Result<T, std::io::Error>) -> (r: Result<T, ArchiveError>)
    ensures
        match outcome {
            Ok(v) => r == Ok::<T, ArchiveError>(v),
            Err(_) => r matches Err(e) && e is Codec,
        },
{
    match outcome {
        Ok(v) => Ok(v),
        Err(e) => Err(ArchiveError::Codec(io_error_text(&e))),
    }
}

/// One member of a tar stream, as the archive library takes and gives it.
#[derive(Debug)]
pub struct Member {
    pub path: String,
    /// The type byte of the member's header.
    pub typeflag: u8,
    pub content: Vec<u8>,
    pub mode: u32,
    pub mtime: u64,
    pub uid: u64,
    pub gid: u64,
}

/// The mathematical value of a [`Member`].
pub ghost struct MemberView {
    pub path: Seq<char>,
    pub typeflag: u8,
    pub content: Seq<u8>,
    pub mode: u32,
    pub mtime: u64,
    pub uid: u64,
    pub gid: u64,
}

impl View for Member {
    type V = MemberView;

    open spec fn view(&self) -> MemberView {
        MemberView {
            path: self.path@,
            typeflag: self.typeflag,
            content: self.content@,
            mode: self.mode,
            mtime: self.mtime,
            uid: self.uid,
            gid: self.gid,
        }
    }
}

/// The value of a list of members.
pub open spec fn member_views(members: Seq<Member>) -> Seq<MemberView> {
    Seq::new(members.len(), |i: int| members[i]@)
}

/// The type byte of a regular file.
pub const TYPE_FILE: u8 = 0x30;

/// The type byte of a directory.
pub const TYPE_DIRECTORY: u8 = 0x35;

/// A type byte marks a link (`1`, `2`) or a record that only extends the
/// member behind it (`x`, `g`, `L`, `K`).
pub open spec fn is_link_or_extension(typeflag: u8) -> bool {
    ||| typeflag == 0x31
    ||| typeflag == 0x32
    ||| typeflag == 0x78
    ||| typeflag == 0x67
    ||| typeflag == 0x4c
    ||| typeflag == 0x4b
}

/// What a member is, by its type byte: a directory, a link or an extension,
/// which stand for no entry of a tree, or a file. Every other type byte,
/// that of a device or of a pipe among them, is taken for that of a file, as
/// a reader of tar does with a type byte that it cannot act on.
pub open spec fn kind_of(typeflag: u8) -> EntryKind {
    if typeflag == TYPE_DIRECTORY {
        EntryKind::Directory
    } else if is_link_or_extension(typeflag) {
        EntryKind::Other
    } else {
        EntryKind::File
    }
}

/// The tree entry that a member stands for.
pub open spec fn entry_of(m: MemberView) -> EntryView {
    EntryView {
        path: m.path,
        kind: kind_of(m.typeflag),
        content: m.content,
        mode: m.mode,
        mtime: m.mtime,
        uid: m.uid,
        gid: m.gid,
    }
}

/// The tree entries that a list of members stands for.
pub open spec fn entries_of(members: Seq<MemberView>) -> Seq<EntryView> {
    Seq::new(members.len(), |i: int| entry_of(members[i]))
}

/// An entry goes into the archive: a file, or a directory other than the
/// root of the tree.
pub open spec fn is_archived(e: EntryView) -> bool {
    e.kind == EntryKind::File || (e.kind == EntryKind::Directory && e.path.len() > 0)
}

/// The member that stands for an archived entry; a directory has no content.
pub open spec fn member_of(e: EntryView) -> MemberView {
    MemberView {
        path: e.path,
        typeflag: if e.kind == EntryKind::File {
            TYPE_FILE
        } else {
            TYPE_DIRECTORY
        },
        content: if e.kind == EntryKind::File {
            e.content
        } else {
            Seq::empty()
        },
        mode: e.mode,
        mtime: e.mtime,
        uid: e.uid,
        gid: e.gid,
    }
}

/// The members that stand for a list of entries, taken as they stand; what
/// is not archived is left out.
pub open spec fn members_of(entries: Seq<EntryView>) -> Seq<MemberView>
    decreases entries.len(),
{
    if entries.len() == 0 {
        Seq::empty()
    } else if is_archived(entries.last()) {
        members_of(entries.drop_last()).push(member_of(entries.last()))
    } else {
        members_of(entries.drop_last())
    }
}

/// A tar stream under construction. It holds the members appended so far.
/// Two things are told of it: the members as they were handed in, of which
/// its bytes are made, and what the archive holds of each, which is what is
/// read back.
#[verifier::external_body]
pub struct ArchiveWriter {
    inner: tar::Builder<Vec<u8>>,
}

/// What a writer keeps: for each member that it took, the member as the
/// archive holds it, in the order they came.
pub uninterp spec fn written(w: ArchiveWriter) -> Seq<MemberView>;

/// What a writer was given: the members that it took, as they were handed
/// in, in the order they came.
pub uninterp spec fn appended(w: ArchiveWriter) -> Seq<MemberView>;

/// What the archive holds of a member that is written into it, or `None`
/// where the archive library refuses the member.
pub uninterp spec fn tar_stored(m: MemberView) -> Option<MemberView>;

/// The bytes of the finished tar stream that the archive library makes of
/// the given members, handed in one after the other.
pub uninterp spec fn tar_stream(members: Seq<MemberView>) -> Seq<u8>;

/// The members that the archive library reads out of a byte string, or
/// `None` where it refuses the bytes.
pub uninterp spec fn tar_members(stream: Seq<u8>) -> Option<Seq<MemberView>>;

/// What the compression library makes of a byte string at its default level.
pub uninterp spec fn gzip_stream(data: Seq<u8>) -> Seq<u8>;

/// What the compression library reads out of a gzip stream, or `None` where
/// it refuses the bytes.
pub uninterp spec fn gzip_payload(stream: Seq<u8>) -> Option<Seq<u8>>;

/// A type byte marks a file or a directory: what a member that is written
/// may be.
pub open spec fn is_entry_type(typeflag: u8) -> bool {
    typeflag == TYPE_FILE || typeflag == TYPE_DIRECTORY
}

/// The component `.` stands in the path at position `i`.
pub open spec fn dot_component_at(path: Seq<char>, i: int) -> bool {
    &&& 0 <= i < path.len()
    &&& path[i] == '.'
    &&& (i == 0 || path[i - 1] == '/')
    &&& (i + 1 == path.len() || path[i + 1] == '/')
}

/// Two separators stand in the path at positions `i` and `i + 1`.
pub open spec fn double_separator_at(path: Seq<char>, i: int) -> bool {
    &&& 0 <= i < path.len() - 1
    &&& path[i] == '/'
    &&& path[i + 1] == '/'
}

/// A path as a walk through a tree gives it: names separated by single
/// separators, none of them empty, `.` or `..`, no separator at either end,
/// and no character zero.
pub open spec fn is_plain_path(path: Seq<char>) -> bool {
    &&& path.len() > 0
    &&& path[0] != '/'
    &&& path.last() != '/'
    &&& forall|i: int| 0 <= i < path.len() ==> path[i] != '\0'
    &&& forall|i: int| !double_separator_at(path, i)
    &&& forall|i: int| !dot_component_at(path, i)
    &&& forall|i: int| !parent_component_at(path, i)
}

/// The largest mode that the header of a member holds: seven octal digits.
pub const MAX_MODE: u32 = 0o7777777;

/// The largest owner or group that the header of a member holds.
pub const MAX_OWNER: u64 = 0x7fff_ffff_ffff_ffff;

/// A member that the archive holds as it is: a file or a directory under a
/// plain path, with a mode and owners that the header has room for.
pub open spec fn is_plain_member(m: MemberView) -> bool {
    &&& is_entry_type(m.typeflag)
    &&& is_plain_path(m.path)
    &&& m.mode <= MAX_MODE
    &&& m.uid <= MAX_OWNER
    &&& m.gid <= MAX_OWNER
}

/// `tar::Builder::new` over an empty vector, taken on trust: the new writer
/// holds no member and was given none.
#[verifier::external_body]
fn tar_writer() -> (w: ArchiveWriter)
    ensures
        written(w) == Seq::<MemberView>::empty(),
        appended(w) == Seq::<MemberView>::empty(),
{
    ArchiveWriter { inner: tar::Builder::new(Vec::new()) }
}

/// `tar::Builder::append_data` with a fresh GNU header that carries the
/// member's type byte, size and attributes, taken on trust. It takes the
/// member or refuses it, which depends on the member alone, since writing
/// into a vector does not fail: where it takes the member, the writer keeps
/// what the archive holds of it, and has been given the member as it is;
/// where it refuses, the writer is as it was. A plain member is taken and held as it is: its path goes into the
/// name field of the header or, where it has no room there, into a long-name
/// record, and is read back whole; mode and owners fit their fields. All
/// this is said of a system on which a path is a string of bytes with `/`
/// between its components.
#[verifier::external_body]
fn tar_append(w: &mut ArchiveWriter, m: &Member) -> (r: Result<(), std::io::Error>)
    requires
        is_entry_type(m.typeflag),
    ensures
        match r {
            Ok(_) => {
                &&& tar_stored(m@) matches Some(kept)
                &&& written(*final(w)) == written(*old(w)).push(kept)
                &&& appended(*final(w)) == appended(*old(w)).push(m@)
                &&& is_plain_member(m@) ==> kept == m@
            },
            Err(_) => {
                &&& tar_stored(m@) is None
                &&& written(*final(w)) == written(*old(w))
                &&& appended(*final(w)) == appended(*old(w))
                &&& !is_plain_member(m@)
            },
        },
{
    let mut header = tar::Header::new_gnu();
    header.set_entry_type(tar::EntryType::new(m.typeflag));
    header.set_size(m.content.len() as u64);
    header.set_mode(m.mode);
    header.set_mtime(m.mtime);
    header.set_uid(m.uid);
    header.set_gid(m.gid);
    w.inner.append_data(&mut header, &m.path, &m.content[..])
}

/// `tar::Builder::into_inner`, taken on trust: it succeeds, since writing
/// the end of the stream into a vector does not fail, and hands out the
/// finished stream, which depends on the members that the writer was given
/// and on nothing else, and which the archive library reads back as what
/// the writer keeps. The stream is not marked as gzip: it begins with the
/// name field of its first header, which holds text, or, where it holds no
/// member, with zeros.
#[verifier::external_body]
fn tar_finish(w: ArchiveWriter) -> (r: Result<Vec<u8>, std::io::Error>)
    ensures
        r is Ok,
        r matches Ok(bytes) ==> bytes@ == tar_stream(appended(w)),
        r matches Ok(bytes) ==> tar_members(bytes@) == Some(written(w)),
        r matches Ok(bytes) ==> !is_gzip(bytes@),
{
    w.inner.into_inner()
}

/// `tar::Archive::entries` over a byte string, each entry handed out with
/// its path, type byte, attributes and content, taken on trust: the members
/// are those that the library reads, and it fails where the library refuses
/// the bytes.
#[verifier::external_body]
fn tar_read(stream: &[u8]) -> (r: Result<Vec<Member>, std::io::Error>)
    ensures
        match r {
            Ok(members) => tar_members(stream@) == Some(member_views(members@)),
            Err(_) => tar_members(stream@) is None,
        },
{
    let mut members = Vec::new();
    for entry in tar::Archive::new(stream).entries()? {
        let mut e = entry?;
        let mut content = Vec::new();
        std::io::Read::read_to_end(&mut e, &mut content)?;
        let path = String::from_utf8_lossy(&e.path_bytes()).into_owned();
        let h = e.header();
        let typeflag = h.entry_type().as_byte();
        members.push(Member { path, typeflag, content, mode: h.mode()?, mtime: h.mtime()?, uid: h.uid()?, gid: h.gid()? });
    }
    Ok(members)
}

/// `flate2::write::GzEncoder` at the default level, fed the whole input and
/// finished, taken on trust: it succeeds, since writing into a vector does
/// not fail; what it hands out is the gzip stream of the input, begins with
/// the two bytes that mark a gzip stream, and is read back as the input.
#[verifier::external_body]
fn gzip_encode(input: &[u8]) -> (r: Result<Vec<u8>, std::io::Error>)
    ensures
        r is Ok,
        r matches Ok(out) ==> {
            &&& out@ == gzip_stream(input@)
            &&& gzip_payload(out@) == Some(input@)
            &&& is_gzip(out@)
        },
{
    let mut encoder = flate2::write::GzEncoder::new(Vec::new(), flate2::Compression::default());
    std::io::Write::write_all(&mut encoder, input)?;
    encoder.finish()
}

/// `flate2::read::GzDecoder`, read to its end, taken on trust: it hands out
/// what the library reads out of the stream, and fails where the library
/// refuses the bytes.
#[verifier::external_body]
fn gzip_decode(input: &[u8]) -> (r: Result<Vec<u8>, std::io::Error>)
    ensures
        match r {
            Ok(out) => gzip_payload(input@) == Some(out@),
            Err(_) => gzip_payload(input@) is None,
        },
{
    let mut output = Vec::new();
    std::io::Read::read_to_end(&mut flate2::read::GzDecoder::new(input), &mut output)?;
    Ok(output)
}

/// A byte string begins with the two bytes that mark a gzip stream.
pub open spec fn is_gzip(data: Seq<u8>) -> bool {
    data.len() >= 2 && data[0] == 0x1f && data[1] == 0x8b
}

/// Whether a file's bytes are gzip framed, by their first two bytes.
pub fn is_gzip_file(data: &[u8]) -> (r: bool)
    ensures
        r == is_gzip(data@),
{
    data.len() >= 2 && data[0] == 0x1f && data[1] == 0x8b
}

/// The gzip stream of the input; it never fails. What comes out is marked as
/// gzip, and [`decompress_data`] gives the input back for it.
pub fn compress_data(input: &[u8]) -> (r: Result<Vec<u8>, ArchiveError>)
    ensures
        r matches Ok(out) && {
            &&& out@ == gzip_stream(input@)
            &&& gzip_payload(out@) == Some(input@)
            &&& is_gzip(out@)
        },
{
    from_codec(gzip_encode(input))
}

/// What a gzip stream holds; fails where the bytes are no gzip stream.
pub fn decompress_data(input: &[u8]) -> (r: Result<Vec<u8>, ArchiveError>)
    ensures
        match r {
            Ok(out) => gzip_payload(input@) == Some(out@),
            Err(e) => gzip_payload(input@) is None && e is Codec,
        },
{
    from_codec(gzip_decode(input))
}

/// The bytes after compression and decompression: compression is
/// transparent, so they are the bytes that went in, whatever they are.
pub fn compress_and_decompress(input: &[u8]) -> (r: Result<Vec<u8>, ArchiveError>)
    ensures
        r matches Ok(out) && out@ == input@,
{
    match compress_data(input) {
        Ok(packed) => decompress_data(packed.as_slice()),
        Err(e) => Err(e),
    }
}

/// A path starts at the root of the file system.
pub open spec fn is_absolute(path: Seq<char>) -> bool {
    path.len() > 0 && path[0] == '/'
}

/// The component `..` stands in the path at position `i`.
pub open spec fn parent_component_at(path: Seq<char>, i: int) -> bool {
    &&& 0 <= i
    &&& i + 2 <= path.len()
    &&& path[i] == '.'
    &&& path[i + 1] == '.'
    &&& (i == 0 || path[i - 1] == '/')
    &&& (i + 2 == path.len() || path[i + 2] == '/')
}

/// One of the components of the path is `..`.
pub open spec fn has_parent_component(path: Seq<char>) -> bool {
    exists|i: int| parent_component_at(path, i)
}

/// The path would leave the directory it is resolved in.
pub open spec fn escapes(path: Seq<char>) -> bool {
    is_absolute(path) || has_parent_component(path)
}

/// The error that belongs to an escaping path: the absolute path is named
/// before the parent reference.
pub open spec fn is_escape_error(e: ArchiveError, path: Seq<char>) -> bool {
    if is_absolute(path) {
        e matches ArchiveError::AbsolutePath(p) && p@ == path
    } else {
        has_parent_component(path) && (e matches ArchiveError::ParentReference(p) && p@ == path)
    }
}

/// Accepts a path that stays inside the directory it is resolved in, and
/// refuses an absolute path and one with a component `..`.
pub fn validate_file_path(path: &str) -> (r: Result<(), ArchiveError>)
    ensures
        match r {
            Ok(_) => !escapes(path@),
            Err(e) => escapes(path@) && is_escape_error(e, path@) && e.is_structural(),
        },
{
    let v = chars_of(path);
    let n = v.len();
    if n > 0 && v[0] == '/' {
        return Err(ArchiveError::AbsolutePath(path.to_owned()));
    }
    let mut i: usize = 0;
    while i < n
        invariant
            n == v@.len(),
            v@ == path@,
            i <= n,
            !is_absolute(path@),
            forall|j: int| 0 <= j < i ==> !parent_component_at(path@, j),
        decreases n - i,
    {
        if n - i >= 2 && v[i] == '.' && v[i + 1] == '.' && (i == 0 || v[i - 1] == '/') && (i + 2
            == n || v[i + 2] == '/') {
            assert(parent_component_at(path@, i as int));
            return Err(ArchiveError::ParentReference(path.to_owned()));
        }
        i += 1;
    }
    Ok(())
}

/// The kind of entry that a type byte marks.
pub fn kind_of_type(typeflag: u8) -> (r: EntryKind)
    ensures
        r == kind_of(typeflag),
{
    if typeflag == TYPE_DIRECTORY {
        EntryKind::Directory
    } else if typeflag == 0x31 || typeflag == 0x32 || typeflag == 0x78 || typeflag == 0x67
        || typeflag == 0x4c || typeflag == 0x4b {
        EntryKind::Other
    } else {
        EntryKind::File
    }
}

/// Whether a type byte marks a file.
pub fn is_file_type(typeflag: u8) -> (r: bool)
    ensures
        r == (kind_of(typeflag) == EntryKind::File),
{
    kind_of_type(typeflag) == EntryKind::File
}

/// Whether an entry goes into the archive.
pub fn archived(entry: &TreeEntry) -> (r: bool)
    ensures
        r == is_archived(entry@),
{
    match entry.kind {
        EntryKind::File => true,
        EntryKind::Directory => !entry.path.as_str().is_empty(),
        EntryKind::Other => false,
    }
}

/// The member that stands for an archived entry.
pub fn to_member(entry: &TreeEntry) -> (m: Member)
    ensures
        m@ == member_of(entry@),
{
    match entry.kind {
        EntryKind::File => Member {
            path: entry.path.clone(),
            typeflag: TYPE_FILE,
            content: entry.content.clone(),
            mode: entry.mode,
            mtime: entry.mtime,
            uid: entry.uid,
            gid: entry.gid,
        },
        _ => Member {
            path: entry.path.clone(),
            typeflag: TYPE_DIRECTORY,
            content: Vec::new(),
            mode: entry.mode,
            mtime: entry.mtime,
            uid: entry.uid,
            gid: entry.gid,
        },
    }
}

/// A writer that holds no member yet.
pub fn new_writer() -> (w: ArchiveWriter)
    ensures
        written(w) == Seq::<MemberView>::empty(),
        appended(w) == Seq::<MemberView>::empty(),
{
    tar_writer()
}

/// What [`append_member`] answers, and what the writer keeps after it. A
/// member that is neither file nor directory is refused outright; of the
/// others the archive library takes what it can store.
pub open spec fn is_appended(
    before: Seq<MemberView>,
    m: MemberView,
    after: Seq<MemberView>,
    r: Result<(), ArchiveError>,
) -> bool {
    if !is_entry_type(m.typeflag) {
        &&& r matches Err(e)
        &&& e matches ArchiveError::Unsupported(p)
        &&& p@ == m.path
        &&& after == before
    } else {
        &&& is_plain_member(m) ==> tar_stored(m) == Some(m)
        &&& match tar_stored(m) {
            Some(kept) => r is Ok && after == before.push(kept),
            None => (r matches Err(e) && e is Codec) && after == before,
        }
    }
}

/// Appends one member. Where the archive library takes it, the writer keeps
/// behind the others what the archive holds of it, and has been given the
/// member as it is.
pub fn append_member(w: &mut ArchiveWriter, m: &Member) -> (r: Result<(), ArchiveError>)
    ensures
        is_appended(written(*old(w)), m@, written(*final(w)), r),
        appended(*final(w)) == if r is Ok {
            appended(*old(w)).push(m@)
        } else {
            appended(*old(w))
        },
{
    if m.typeflag != TYPE_FILE && m.typeflag != TYPE_DIRECTORY {
        return Err(ArchiveError::Unsupported(m.path.clone()));
    }
    from_codec(tar_append(w, m))
}

/// Finishes the stream and hands it out; it never fails. The stream is that
/// of the members that the writer was given; the archive library reads it
/// back as what the writer kept, and it is not marked as gzip.
pub fn finish_writer(w: ArchiveWriter) -> (r: Result<Vec<u8>, ArchiveError>)
    ensures
        r matches Ok(bytes) && bytes@ == tar_stream(appended(w)) && tar_members(bytes@) == Some(
            written(w),
        ) && !is_gzip(bytes@),
{
    from_codec(tar_finish(w))
}

/// The members of a tar stream, in the order they stand in it.
pub fn read_members(stream: &[u8]) -> (r: Result<Vec<Member>, ArchiveError>)
    ensures
        match r {
            Ok(members) => tar_members(stream@) == Some(member_views(members@)),
            Err(e) => tar_members(stream@) is None && e is Codec,
        },
{
    from_codec(tar_read(stream))
}

/// Position `i` holds the first member whose path escapes.
pub open spec fn first_escape(members: Seq<MemberView>, i: int) -> bool {
    &&& 0 <= i < members.len()
    &&& escapes(members[i].path)
    &&& forall|j: int| 0 <= j < i ==> !escapes(#[trigger] members[j].path)
}

/// No member's path escapes.
pub open spec fn all_contained(members: Seq<MemberView>) -> bool {
    forall|j: int| 0 <= j < members.len() ==> !escapes(#[trigger] members[j].path)
}

/// What [`extract_members`] answers for the given members.
pub open spec fn is_extraction(
    members: Seq<MemberView>,
    r: Result<Vec<TreeEntry>, ArchiveError>,
) -> bool {
    match r {
        Ok(tree) => {
            &&& all_contained(members)
            &&& crate::tree::tree_view(tree@) == entries_of(members)
        },
        Err(e) => exists|i: int|
            first_escape(members, i) && is_escape_error(e, #[trigger] members[i].path),
    }
}

/// The tree that the members of a layer stream stand for. A member whose path
/// is absolute or climbs to a parent directory is refused, and with it the
/// whole stream: then no entry is handed out.
pub fn extract_members(members: Vec<Member>) -> (r: Result<Vec<TreeEntry>, ArchiveError>)
    ensures
        is_extraction(member_views(members@), r),
{
    let ghost views = member_views(members@);
    let mut i: usize = 0;
    while i < members.len()
        invariant
            i <= members.len(),
            views == member_views(members@),
            forall|j: int| 0 <= j < i ==> !escapes(#[trigger] views[j].path),
        decreases members.len() - i,
    {
        let m = &members[i];
        assert(views[i as int] == m@);
        match validate_file_path(m.path.as_str()) {
            Ok(_) => {},
            Err(e) => {
                assert(first_escape(views, i as int));
                assert(is_escape_error(e, views[i as int].path));
                return Err(e);
            },
        }
        i += 1;
    }
    Ok(to_entries(&members))
}

/// The tree that a layer stream holds: what [`extract_members`] makes of the
/// members that the archive library reads out of it.
pub fn extract_tar_archive(layer: &[u8]) -> (r: Result<Vec<TreeEntry>, ArchiveError>)
    ensures
        match tar_members(layer@) {
            None => r matches Err(e) && e is Codec,
            Some(members) => is_extraction(members, r),
        },
{
    match read_members(layer) {
        Ok(members) => extract_members(members),
        Err(e) => Err(e),
    }
}

/// The name under which a bundle holds its manifest.
pub open spec fn manifest_name() -> Seq<char> {
    "metadata.json"@
}

/// The name under which a bundle holds its layer stream.
pub open spec fn layer_name() -> Seq<char> {
    "layer.tar"@
}

/// Member `i` is a file of the given name.
pub open spec fn is_named_file(members: Seq<MemberView>, name: Seq<char>, i: int) -> bool {
    &&& 0 <= i < members.len()
    &&& members[i].path == name
    &&& kind_of(members[i].typeflag) == EntryKind::File
}

/// Member `i` is the last file of the given name.
pub open spec fn last_named_file(members: Seq<MemberView>, name: Seq<char>, i: int) -> bool {
    &&& is_named_file(members, name, i)
    &&& forall|j: int| i < j < members.len() ==> !is_named_file(members, name, j)
}

/// Some member is a file of the given name.
pub open spec fn has_named_file(members: Seq<MemberView>, name: Seq<char>) -> bool {
    exists|i: int| is_named_file(members, name, i)
}

/// The position of the last file of the given name, if there is one.
pub fn find_member(members: &Vec<Member>, name: &str) -> (r: Option<usize>)
    ensures
        match r {
            Some(i) => last_named_file(member_views(members@), name@, i as int),
            None => !has_named_file(member_views(members@), name@),
        },
{
    let ghost views = member_views(members@);
    let mut i: usize = members.len();
    while i > 0
        invariant
            i <= members.len(),
            views == member_views(members@),
            forall|j: int| i <= j < members.len() ==> !is_named_file(views, name@, j),
        decreases i,
    {
        i -= 1;
        let m = &members[i];
        assert(views[i as int] == m@);
        if is_file_type(m.typeflag) && same_text(m.path.as_str(), name) {
            return Some(i);
        }
    }
    None
}

/// The member of a bundle that holds a file with the given content, as
/// [`compose`] writes it.
pub open spec fn bundle_member(name: Seq<char>, content: Seq<u8>) -> MemberView {
    MemberView {
        path: name,
        typeflag: TYPE_FILE,
        content: content,
        mode: 0o644,
        mtime: 0,
        uid: 0,
        gid: 0,
    }
}

/// The two members of a bundle: the manifest first, then the layer stream.
pub open spec fn bundle_members(manifest: Seq<u8>, layer: Seq<u8>) -> Seq<MemberView> {
    seq![bundle_member(manifest_name(), manifest), bundle_member(layer_name(), layer)]
}

fn bundle_file(name: &str, content: &[u8]) -> (m: Member)
    ensures
        m@ == bundle_member(name@, content@),
{
    Member {
        path: name.to_owned(),
        typeflag: TYPE_FILE,
        content: vstd::slice::slice_to_vec(content),
        mode: 0o644,
        mtime: 0,
        uid: 0,
        gid: 0,
    }
}

/// The two names of a bundle are plain paths.
pub proof fn lemma_bundle_names_plain()
    ensures
        is_plain_path(manifest_name()),
        is_plain_path(layer_name()),
{
    reveal_strlit("metadata.json");
    reveal_strlit("layer.tar");
    let a = manifest_name();
    let b = layer_name();
    assert(a =~= seq!['m', 'e', 't', 'a', 'd', 'a', 't', 'a', '.', 'j', 's', 'o', 'n']);
    assert(b =~= seq!['l', 'a', 'y', 'e', 'r', '.', 't', 'a', 'r']);
    assert forall|i: int| !dot_component_at(a, i) by {
        if dot_component_at(a, i) {
            assert(i == 8);
        }
    }
    assert forall|i: int| !parent_component_at(a, i) by {
        if parent_component_at(a, i) {
            assert(i == 8);
        }
    }
    assert forall|i: int| !dot_component_at(b, i) by {
        if dot_component_at(b, i) {
            assert(i == 5);
        }
    }
    assert forall|i: int| !parent_component_at(b, i) by {
        if parent_component_at(b, i) {
            assert(i == 5);
        }
    }
}

/// Wraps a manifest and a layer stream into one bundle: a tar stream of two
/// members, `metadata.json` first and `layer.tar` second. It never fails;
/// the archive library reads the bundle back as these two members, and the
/// bundle is not marked as gzip.
pub fn compose(manifest: &[u8], layer: &[u8]) -> (r: Result<Vec<u8>, ArchiveError>)
    ensures
        r matches Ok(bytes) && bytes@ == tar_stream(bundle_members(manifest@, layer@))
            && tar_members(bytes@) == Some(bundle_members(manifest@, layer@)) && !is_gzip(bytes@),
{
    proof {
        lemma_bundle_names_plain();
    }
    let mut w = new_writer();
    let first = bundle_file("metadata.json", manifest);
    assert(is_plain_member(first@));
    match append_member(&mut w, &first) {
        Ok(_) => {},
        Err(e) => {
            return Err(e);
        },
    }
    let second = bundle_file("layer.tar", layer);
    assert(is_plain_member(second@));
    match append_member(&mut w, &second) {
        Ok(_) => {},
        Err(e) => {
            return Err(e);
        },
    }
    assert(written(w) =~= bundle_members(manifest@, layer@));
    assert(appended(w) =~= bundle_members(manifest@, layer@));
    finish_writer(w)
}

/// What [`split_bundle`] answers for the given members.
pub open spec fn is_split(
    members: Seq<MemberView>,
    r: Result<(Vec<u8>, Vec<u8>), ArchiveError>,
) -> bool {
    match r {
        Ok((manifest, layer)) => exists|i: int, j: int|
            #![trigger members[i], members[j]]
            {
                &&& last_named_file(members, manifest_name(), i)
                &&& last_named_file(members, layer_name(), j)
                &&& manifest@ == members[i].content
                &&& layer@ == members[j].content
            },
        Err(e) => if has_named_file(members, manifest_name()) {
            e is MissingLayer && !has_named_file(members, layer_name())
        } else {
            e is MissingMetadata
        },
    }
}

/// The manifest and the layer stream among the members of a bundle. A
/// bundle without a file `metadata.json` is refused, then one without a file
/// `layer.tar`; of several files of one name the last counts.
pub fn split_bundle(members: &Vec<Member>) -> (r: Result<(Vec<u8>, Vec<u8>), ArchiveError>)
    ensures
        is_split(member_views(members@), r),
{
    let ghost views = member_views(members@);
    let i = match find_member(members, "metadata.json") {
        Some(i) => i,
        None => {
            return Err(ArchiveError::MissingMetadata);
        },
    };
    let j = match find_member(members, "layer.tar") {
        Some(j) => j,
        None => {
            assert(is_named_file(views, manifest_name(), i as int));
            return Err(ArchiveError::MissingLayer);
        },
    };
    let manifest = members[i].content.clone();
    let layer = members[j].content.clone();
    assert(views[i as int] == members@[i as int]@);
    assert(views[j as int] == members@[j as int]@);
    assert(is_named_file(views, manifest_name(), i as int));
    Ok((manifest, layer))
}

/// Unwraps a bundle into its manifest and its layer stream.
pub fn decompose(bundle: &[u8]) -> (r: Result<(Vec<u8>, Vec<u8>), ArchiveError>)
    ensures
        match tar_members(bundle@) {
            None => r matches Err(e) && e is Codec,
            Some(members) => is_split(members, r),
        },
{
    match read_members(bundle) {
        Ok(members) => split_bundle(&members),
        Err(e) => Err(e),
    }
}

/// The tree that a list of members stands for, member by member.
pub fn to_entries(members: &Vec<Member>) -> (tree: Vec<TreeEntry>)
    ensures
        crate::tree::tree_view(tree@) == entries_of(member_views(members@)),
{
    let ghost views = member_views(members@);
    let mut tree: Vec<TreeEntry> = Vec::new();
    let mut i: usize = 0;
    while i < members.len()
        invariant
            i <= members.len(),
            views == member_views(members@),
            tree@.len() == i,
            forall|j: int| 0 <= j < i ==> (#[trigger] tree@[j])@ == entry_of(views[j]),
        decreases members.len() - i,
    {
        let m = &members[i];
        assert(views[i as int] == m@);
        tree.push(
            TreeEntry {
                path: m.path.clone(),
                kind: kind_of_type(m.typeflag),
                content: m.content.clone(),
                mode: m.mode,
                mtime: m.mtime,
                uid: m.uid,
                gid: m.gid,
            },
        );
        i += 1;
    }
    assert(crate::tree::tree_view(tree@) =~= entries_of(views));
    tree
}

/// An opened bundle: its two parts, and whether it came gzip framed.
#[derive(Debug)]
pub struct Bundle {
    pub manifest: Vec<u8>,
    pub layer: Vec<u8>,
    pub compressed: bool,
}

/// The tar stream inside the input: what the gzip framing holds where the
/// input is marked as gzip, the input itself otherwise; `None` where the
/// input is marked as gzip and is no gzip stream.
pub open spec fn unframed(input: Seq<u8>) -> Option<Seq<u8>> {
    if is_gzip(input) {
        gzip_payload(input)
    } else {
        Some(input)
    }
}

/// What [`open_bundle`] answers for an input.
pub open spec fn is_opened(input: Seq<u8>, r: Result<Bundle, ArchiveError>) -> bool {
    match unframed(input) {
        None => r matches Err(e) && e is Codec,
        Some(outer) => match tar_members(outer) {
            None => r matches Err(e) && e is Codec,
            Some(members) => match r {
                Ok(bundle) => bundle.compressed == is_gzip(input) && is_split(
                    members,
                    Ok((bundle.manifest, bundle.layer)),
                ),
                Err(e) => is_split(members, Err(e)),
            },
        },
    }
}

/// Opens an archive file: takes off the gzip framing where the first two
/// bytes mark one, and unwraps the bundle into its manifest and its layer
/// stream.
pub fn open_bundle(input: &[u8]) -> (r: Result<Bundle, ArchiveError>)
    ensures
        is_opened(input@, r),
{
    let compressed = is_gzip_file(input);
    let parts = if compressed {
        match decompress_data(input) {
            Ok(outer) => decompose(outer.as_slice()),
            Err(e) => {
                return Err(e);
            },
        }
    } else {
        decompose(input)
    };
    match parts {
        Ok((manifest, layer)) => Ok(Bundle { manifest, layer, compressed }),
        Err(e) => Err(e),
    }
}

/// What [`seal_bundle`] hands out.
pub open spec fn is_sealed(manifest: Seq<u8>, layer: Seq<u8>, compress: bool, out: Seq<u8>) -> bool {
    let outer = tar_stream(bundle_members(manifest, layer));
    &&& tar_members(outer) == Some(bundle_members(manifest, layer))
    &&& !is_gzip(outer)
    &&& if compress {
        &&& out == gzip_stream(outer)
        &&& is_gzip(out)
        &&& gzip_payload(out) == Some(outer)
    } else {
        out == outer
    }
}

/// Makes an archive file of a manifest and a layer stream: the bundle of
/// the two, gzip framed where that is asked for. It never fails.
pub fn seal_bundle(manifest: &[u8], layer: &[u8], compress: bool) -> (r: Result<
    Vec<u8>,
    ArchiveError,
>)
    ensures
        r matches Ok(out) && is_sealed(manifest@, layer@, compress, out@),
{
    match compose(manifest, layer) {
        Ok(outer) => if compress {
            compress_data(outer.as_slice())
        } else {
            Ok(outer)
        },
        Err(e) => Err(e),
    }
}

/// An archive file that was sealed opens again: opening it succeeds and
/// hands out the manifest and the layer stream that went in, and says
/// whether the file is gzip framed.
pub proof fn lemma_sealed_bundle_opens(
    manifest: Seq<u8>,
    layer: Seq<u8>,
    compress: bool,
    out: Seq<u8>,
    r: Result<Bundle, ArchiveError>,
)
    requires
        is_sealed(manifest, layer, compress, out),
        is_opened(out, r),
    ensures
        r matches Ok(bundle) && bundle.manifest@ == manifest && bundle.layer@ == layer
            && bundle.compressed == compress,
{
    reveal_strlit("metadata.json");
    reveal_strlit("layer.tar");
    let members = bundle_members(manifest, layer);
    assert(manifest_name().len() != layer_name().len());
    assert(is_named_file(members, manifest_name(), 0));
    assert(is_named_file(members, layer_name(), 1));
    assert(!is_named_file(members, manifest_name(), 1));
    assert(!is_named_file(members, layer_name(), 0));
    assert(unframed(out) == Some(tar_stream(members)));
}

} // verus!
