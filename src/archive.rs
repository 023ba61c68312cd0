//! Archive blobs: reading their entries, packing entries into one, and the tree, unpack and
//! `cat` views built from what they hold.
use crate::file_tree::{holds_paths, lines_view, path_view, render, tree, FileTree};
use crate::listing::{cat_lines, cat_listing, CatEntry, CatLine, Filter};
use crate::unpack::{all_steps, steps_view, unpack_steps, ArchiveEntry, UnpackStep};
use std::io::{Cursor, Write};
use vstd::prelude::*;
use vstd::string::StringSliceAdditionalSpecFns;
use vstd::utf8::encode_utf8;
use zip::result::ZipError;
use zip::{ZipArchive, ZipWriter};

verus! {

#[verifier::external_type_specification]
#[verifier::external_body]
#[verifier::reject_recursive_types(R)]
pub struct ExZipArchive<R>(ZipArchive<R>);

#[verifier::external_type_specification]
#[verifier::external_body]
#[verifier::reject_recursive_types(T)]
pub struct ExCursor<T>(Cursor<T>);

#[verifier::external_type_specification]
#[verifier::external_body]
pub struct ExZipError(ZipError);

/// An archive being written into memory, held as an opaque value whose contents are known
/// through `written` and `file_open`.
#[verifier::external_body]
pub struct ArchiveWriter {
    inner: ZipWriter<Cursor<Vec<u8>>>,
}

/// What one entry of an archive holds: its path components (as `mangled_name` gives them),
/// whether it is a directory, its stored mode bits, its content, and whether that content
/// is stored uncompressed.
pub open spec fn entry_view(e: ArchiveEntry) -> (Seq<Seq<char>>, bool, Option<u32>, Seq<u8>, bool) {
    (path_view(e.path@), e.is_dir, e.unix_mode, e.data@, e.stored)
}

/// The entries of an open archive, in the archive's order.
pub uninterp spec fn archive_entries(a: ZipArchive<Cursor<Vec<u8>>>) -> Seq<
    (Seq<Seq<char>>, bool, Option<u32>, Seq<u8>, bool),
>;

/// Whether the `i`-th entry of an open archive can be opened and its content read to the
/// end.
pub uninterp spec fn entry_readable(a: ZipArchive<Cursor<Vec<u8>>>, i: int) -> bool;

/// Whether every entry of an open archive can be opened and read to the end.
pub open spec fn all_entries_readable(a: ZipArchive<Cursor<Vec<u8>>>) -> bool {
    forall|i: int| 0 <= i < archive_entries(a).len() ==> #[trigger] entry_readable(a, i)
}

/// The entries of the archive that a blob holds, in the archive's order.
pub uninterp spec fn entries_of(bytes: Seq<u8>) -> Seq<
    (Seq<Seq<char>>, bool, Option<u32>, Seq<u8>, bool),
>;

/// Whether a blob is an archive that opens and whose every entry reads to the end.
pub uninterp spec fn readable_archive(bytes: Seq<u8>) -> bool;

/// Relies on `zip::ZipArchive::new`: reads the central directory of the blob. What it lists,
/// and whether it and its entries read, depend on the blob alone.
#[verifier::external_body]
fn open_archive(bytes: Vec<u8>) -> (r: Result<ZipArchive<Cursor<Vec<u8>>>, ZipError>)
    ensures
        r matches Ok(a) ==> archive_entries(a) == entries_of(bytes@) && all_entries_readable(a)
            == readable_archive(bytes@),
        readable_archive(bytes@) ==> r is Ok,
{
    ZipArchive::new(Cursor::new(bytes))
}

/// Relies on `zip::ZipArchive::len`: the number of entries.
#[verifier::external_body]
fn entry_count(a: &ZipArchive<Cursor<Vec<u8>>>) -> (r: usize)
    ensures
        r == archive_entries(*a).len(),
{
    a.len()
}

/// Relies on `zip::ZipArchive::by_index` and, on the entry it gives, `mangled_name`,
/// `is_dir`, `unix_mode`, `compression` and `Read::read_to_end`: the `i`-th entry, read
/// exactly when it is readable. Reading an entry leaves the archive as it is.
#[verifier::external_body]
fn read_entry(a: &mut ZipArchive<Cursor<Vec<u8>>>, i: usize) -> (r: Result<ArchiveEntry, ZipError>)
    ensures
        archive_entries(*final(a)) == archive_entries(*old(a)),
        forall|j: int| #[trigger] entry_readable(*final(a), j) == entry_readable(*old(a), j),
        r is Ok <==> i < archive_entries(*old(a)).len() && entry_readable(*old(a), i as int),
        r matches Ok(e) ==> entry_view(e) == archive_entries(*old(a))[i as int],
{
    let mut file = a.by_index(i)?;
    let path = file.mangled_name().iter().map(|c| c.to_string_lossy().into_owned()).collect();
    let (is_dir, unix_mode) = (file.is_dir(), file.unix_mode());
    let stored = matches!(file.compression(), zip::CompressionMethod::Stored);
    let mut data = Vec::new();
    std::io::Read::read_to_end(&mut file, &mut data)?;
    Ok(ArchiveEntry { path, is_dir, unix_mode, data, stored })
}

/// Relies on `zip::result::ZipError`'s `Display`: a description of the error.
#[verifier::external_body]
fn describe(e: &ZipError) -> (r: String) {
    e.to_string()
}

/// Why an archive blob could not be read.
pub enum ArchiveError {
    /// The blob is not an archive.
    Open(String),
    /// An entry of the archive could not be read.
    Entry(String),
}

impl ArchiveError {
    /// The message under which this failure is reported.
    pub fn message(&self) -> (r: String)
        ensures
            r@ == match self {
                ArchiveError::Open(d) => "E28 Failed to open zip: "@ + d@,
                ArchiveError::Entry(d) => "E29 Failed to open archive: "@ + d@,
            },
    {
        let mut m = match self {
            ArchiveError::Open(_) => String::from_str("E28 Failed to open zip: "),
            ArchiveError::Entry(_) => String::from_str("E29 Failed to open archive: "),
        };
        match self {
            ArchiveError::Open(d) => m.append(d.as_str()),
            ArchiveError::Entry(d) => m.append(d.as_str()),
        }
        m
    }
}

/// The entries of an archive blob, in the archive's order. It succeeds exactly on a blob
/// that reads.
pub fn read_archive(bytes: Vec<u8>) -> (r: Result<Vec<ArchiveEntry>, ArchiveError>)
    ensures
        r is Ok <==> readable_archive(bytes@),
        r matches Ok(es) ==> es@.map_values(|e: ArchiveEntry| entry_view(e)) == entries_of(bytes@),
{
    let ghost blob = bytes@;
    let mut a = match open_archive(bytes) {
        Ok(a) => a,
        Err(e) => return Err(ArchiveError::Open(describe(&e))),
    };
    let ghost a0 = a;
    let n = entry_count(&a);
    let mut es: Vec<ArchiveEntry> = Vec::new();
    let mut i: usize = 0;
    while i < n
        invariant
            blob == bytes@,
            0 <= i <= n,
            n == archive_entries(a).len(),
            archive_entries(a) == entries_of(blob),
            all_entries_readable(a0) == readable_archive(blob),
            archive_entries(a0) == archive_entries(a),
            forall|j: int| #[trigger] entry_readable(a, j) == entry_readable(a0, j),
            forall|j: int| 0 <= j < i ==> #[trigger] entry_readable(a0, j),
            es@.map_values(|e: ArchiveEntry| entry_view(e)) == entries_of(blob).subrange(0, i as int),
        decreases n - i,
    {
        match read_entry(&mut a, i) {
            Ok(e) => {
                let ghost before = es@;
                es.push(e);
                proof {
                    assert(es@.map_values(|e: ArchiveEntry| entry_view(e)) =~= before.map_values(
                        |e: ArchiveEntry| entry_view(e),
                    ).push(entry_view(e)));
                    assert(entries_of(blob).subrange(0, i + 1) =~= entries_of(blob).subrange(
                        0,
                        i as int,
                    ).push(entries_of(blob)[i as int]));
                }
            },
            Err(e) => return Err(ArchiveError::Entry(describe(&e))),
        }
        i += 1;
    }
    proof {
        assert(entries_of(blob).subrange(0, i as int) =~= entries_of(blob));
        assert(all_entries_readable(a0));
    }
    Ok(es)
}

/// The paths of the entries of an archive blob, one string per component, in the archive's
/// order. It succeeds exactly on a blob that reads.
pub fn archive_paths(bytes: Vec<u8>) -> (r: Result<Vec<Vec<String>>, ArchiveError>)
    ensures
        r is Ok <==> readable_archive(bytes@),
        r matches Ok(ps) ==> ps@.len() == entries_of(bytes@).len() && forall|k: int|
            0 <= k < ps@.len() ==> path_view(#[trigger] ps@[k]@) == entries_of(bytes@)[k].0,
{
    let ghost blob = bytes@;
    let es = read_archive(bytes)?;
    let mut ps: Vec<Vec<String>> = Vec::new();
    let mut i: usize = 0;
    while i < es.len()
        invariant
            blob == bytes@,
            0 <= i <= es@.len(),
            es@.map_values(|e: ArchiveEntry| entry_view(e)) == entries_of(blob),
            ps@.len() == i,
            forall|k: int| 0 <= k < i ==> path_view(#[trigger] ps@[k]@) == entries_of(blob)[k].0,
        decreases es@.len() - i,
    {
        proof {
            assert(entry_view(es@[i as int]) == entries_of(blob)[i as int]);
        }
        ps.push(es[i].path.clone());
        proof {
            assert(ps@[i as int]@ == es@[i as int].path@);
        }
        i += 1;
    }
    Ok(ps)
}

/// The lines that draw the tree of an archive blob's entries under a root named
/// `file_name`.
pub fn print_tree(bytes: Vec<u8>, file_name: String, show_hidden: bool) -> (r: Result<
    Vec<String>,
    ArchiveError,
>)
    ensures
        r is Ok <==> readable_archive(bytes@),
        r matches Ok(lines) ==> exists|ps: Seq<Vec<String>>, t: FileTree|
            {
                &&& ps.len() == entries_of(bytes@).len()
                &&& forall|k: int|
                    0 <= k < ps.len() ==> path_view(#[trigger] ps[k]@) == entries_of(bytes@)[k].0
                &&& holds_paths(t, file_name@, ps)
                &&& lines_view(lines@) == render(t, Seq::empty(), true, true, show_hidden)
            },
{
    let ps = archive_paths(bytes)?;
    let lines = tree(file_name, &ps, show_hidden);
    Ok(lines)
}

/// Each entry written so far, in order: its raw name, its content, its permission bits,
/// and whether its content is stored uncompressed.
pub uninterp spec fn written(w: ArchiveWriter) -> Seq<(Seq<char>, Seq<u8>, u32, bool)>;

/// Whether a file entry is open for its content to be written.
pub uninterp spec fn file_open(w: ArchiveWriter) -> bool;

/// The path components that `mangled_name` gives for an entry stored under this raw name.
pub uninterp spec fn name_components(name: Seq<char>) -> Seq<Seq<char>>;

/// Whether an entry stored under this raw name reads back as a directory: its name ends
/// with a separator.
pub open spec fn is_dir_name(name: Seq<char>) -> bool {
    name.len() > 0 && (name.last() == '/' || name.last() == '\\')
}

/// The raw name `add_directory` stores a directory under: a separator is appended unless
/// the name already ends with one.
pub open spec fn directory_name(name: Seq<char>) -> Seq<char> {
    if is_dir_name(name) {
        name
    } else {
        name.push('/')
    }
}

/// The permission bits an entry is stored with: those of `mode`, or `default` without one.
pub open spec fn permission_bits(mode: Option<u32>, default: u32) -> u32 {
    match mode {
        Some(m) => m & 0o777,
        None => default,
    }
}

/// The most bytes a name may take in an entry header.
pub const MAX_NAME_BYTES: usize = 65535;

/// The most bytes an entry's content may take without the large-file extension.
pub const MAX_ENTRY_BYTES: u64 = 0xFFFF_FFFF;

/// Whether some entry already written has this raw name.
pub open spec fn has_name(entries: Seq<(Seq<char>, Seq<u8>, u32, bool)>, name: Seq<char>) -> bool {
    exists|k: int| 0 <= k < entries.len() && #[trigger] entries[k].0 == name
}

/// How an entry's content is kept in the archive.
#[derive(Clone, Copy, Debug, PartialEq, Eq, Structural)]
pub enum Compression {
    /// As it is, uncompressed.
    Stored,
}

/// Relies on `zip::ZipWriter::new` over an empty in-memory buffer: nothing is written yet and
/// no file is open.
#[verifier::external_body]
fn new_writer() -> (w: ArchiveWriter)
    ensures
        written(w) == Seq::<(Seq<char>, Seq<u8>, u32, bool)>::empty(),
        !file_open(w),
{
    ArchiveWriter { inner: ZipWriter::new(Cursor::new(Vec::new())) }
}

/// Relies on `zip::ZipWriter::start_file` with `FileOptions::compression_method` and
/// `unix_permissions`: a name already in the archive is refused; any other is accepted and a
/// new, empty, open file entry follows the earlier ones, with the permission bits of `mode`
/// (0o644 without one). Writing to an in-memory buffer cannot fail.
#[verifier::external_body]
fn start_file(w: &mut ArchiveWriter, name: &str, mode: Option<u32>, method: Compression) -> (r:
    Result<(), ZipError>)
    requires
        name.spec_bytes().len() <= MAX_NAME_BYTES,
    ensures
        r is Ok <==> !has_name(written(*old(w)), name@),
        r is Ok ==> written(*final(w)) == written(*old(w)).push(
            (name@, Seq::<u8>::empty(), permission_bits(mode, 0o644), method == Compression::Stored),
        ) && file_open(*final(w)),
{
    let method = match method {
        Compression::Stored => zip::CompressionMethod::Stored,
    };
    let options = zip::write::SimpleFileOptions::default().compression_method(method);
    let options = match mode {
        Some(m) => options.unix_permissions(m),
        None => options,
    };
    w.inner.start_file(name, options)
}

/// Relies on `zip::ZipWriter::add_directory`: the name gets a trailing separator when it
/// lacks one; a name already in the archive is refused; any other is accepted and a new,
/// empty, stored entry follows the earlier ones, with the permission bits of `mode` (0o755
/// without one). No file is left open.
#[verifier::external_body]
fn add_directory(w: &mut ArchiveWriter, name: &str, mode: Option<u32>) -> (r: Result<(), ZipError>)
    requires
        name.spec_bytes().len() < MAX_NAME_BYTES,
    ensures
        r is Ok <==> !has_name(written(*old(w)), directory_name(name@)),
        r is Ok ==> written(*final(w)) == written(*old(w)).push(
            (directory_name(name@), Seq::<u8>::empty(), permission_bits(mode, 0o755), true),
        ) && !file_open(*final(w)),
{
    let options = zip::write::SimpleFileOptions::default();
    let options = match mode {
        Some(m) => options.unix_permissions(m),
        None => options,
    };
    w.inner.add_directory(name, options)
}

/// Relies on `std::io::Write::write_all` on `zip::ZipWriter`: with a file open, the bytes are
/// appended to its content, and this succeeds while the content stays within
/// [`MAX_ENTRY_BYTES`].
#[verifier::external_body]
fn write_data(w: &mut ArchiveWriter, data: &[u8]) -> (r: Result<(), ZipError>)
    requires
        file_open(*old(w)),
        written(*old(w)).len() > 0,
    ensures
        written(*old(w)).last().1.len() + data@.len() <= MAX_ENTRY_BYTES ==> r is Ok,
        r is Ok ==> file_open(*final(w)) && written(*final(w)) == written(*old(w)).update(
            written(*old(w)).len() - 1,
            (
                written(*old(w)).last().0,
                written(*old(w)).last().1 + data@,
                written(*old(w)).last().2,
                written(*old(w)).last().3,
            ),
        ),
{
    w.inner.write_all(data).map_err(ZipError::Io)
}

/// Relies on `zip::ZipWriter::finish` and `Cursor::into_inner`: with every entry within
/// [`MAX_ENTRY_BYTES`] it succeeds; the finished archive reads, and lists the written entries
/// in order, each with the path components of its name, the kind its name gives, its
/// permission bits, its content and its compression.
#[verifier::external_body]
fn finish(w: ArchiveWriter) -> (r: Result<Vec<u8>, ZipError>)
    ensures
        (forall|k: int|
            0 <= k < written(w).len() ==> (#[trigger] written(w)[k]).1.len() <= MAX_ENTRY_BYTES)
            ==> r is Ok,
        r matches Ok(b) ==> {
            &&& readable_archive(b@)
            &&& entries_of(b@).len() == written(w).len()
            &&& forall|k: int|
                0 <= k < written(w).len() ==> {
                    &&& (#[trigger] entries_of(b@)[k]).0 == name_components(written(w)[k].0)
                    &&& entries_of(b@)[k].1 == is_dir_name(written(w)[k].0)
                    &&& (entries_of(b@)[k].2 matches Some(m) && m & 0o777 == written(w)[k].2)
                    &&& entries_of(b@)[k].3 == written(w)[k].1
                    &&& entries_of(b@)[k].4 == written(w)[k].3
                }
        },
{
    Ok(w.inner.finish()?.into_inner())
}

/// One file or directory to pack.
pub struct PackEntry {
    /// The path relative to the packed root, components separated by `/`.
    pub name: String,
    /// A file rather than a directory.
    pub is_file: bool,
    /// The file's content; ignored for a directory.
    pub data: Vec<u8>,
    /// The mode bits whose permission part is stored, where the platform has them.
    pub unix_mode: Option<u32>,
}

/// The raw name an entry is stored under.
pub open spec fn stored_name(e: PackEntry) -> Seq<char> {
    if e.is_file {
        e.name@
    } else {
        directory_name(e.name@)
    }
}

/// What an entry is stored as: its raw name, its content (none for a directory), its
/// permission bits, and uncompressed.
pub open spec fn stored(e: PackEntry) -> (Seq<char>, Seq<u8>, u32, bool) {
    if e.is_file {
        (stored_name(e), e.data@, permission_bits(e.unix_mode, 0o644), true)
    } else {
        (stored_name(e), Seq::empty(), permission_bits(e.unix_mode, 0o755), true)
    }
}

/// An entry fits the archive format: its name fits a header (with room for a directory's
/// separator) and its content needs no large-file extension.
pub open spec fn fits_format(e: PackEntry) -> bool {
    &&& encode_utf8(e.name@).len() < MAX_NAME_BYTES
    &&& e.data@.len() <= MAX_ENTRY_BYTES
}

/// No two entries are stored under the same name.
pub open spec fn distinct_names(entries: Seq<PackEntry>) -> bool {
    forall|j: int, k: int|
        0 <= j < k < entries.len() ==> stored_name(#[trigger] entries[j]) != stored_name(
            #[trigger] entries[k],
        )
}

/// `b` is an archive that reads and lists `entries` in order: each with the path components
/// of its stored name, as a directory exactly when that name ends with a separator, with
/// the permission bits of its mode, with its content, and stored uncompressed.
pub open spec fn packed_as(entries: Seq<PackEntry>, b: Seq<u8>) -> bool {
    &&& readable_archive(b)
    &&& entries_of(b).len() == entries.len()
    &&& forall|k: int|
        0 <= k < entries.len() ==> {
            &&& (#[trigger] entries_of(b)[k]).0 == name_components(stored_name(entries[k]))
            &&& entries_of(b)[k].1 == is_dir_name(stored_name(entries[k]))
            &&& (entries_of(b)[k].2 matches Some(m) && m & 0o777 == stored(entries[k]).2)
            &&& entries_of(b)[k].3 == stored(entries[k]).1
            &&& entries_of(b)[k].4
        }
}

/// Packs the entries, in order, into an archive that stores every entry uncompressed. It
/// succeeds exactly when no two entries are stored under the same name.
pub fn pack_entries(entries: &Vec<PackEntry>) -> (r: Result<Vec<u8>, ArchiveError>)
    requires
        forall|k: int| 0 <= k < entries@.len() ==> fits_format(#[trigger] entries@[k]),
    ensures
        r is Ok <==> distinct_names(entries@),
        r matches Ok(b) ==> packed_as(entries@, b@),
{
    let mut w = new_writer();
    let mut k: usize = 0;
    while k < entries.len()
        invariant
            0 <= k <= entries@.len(),
            forall|i: int| 0 <= i < entries@.len() ==> fits_format(#[trigger] entries@[i]),
            written(w) == entries@.subrange(0, k as int).map_values(|e: PackEntry| stored(e)),
            distinct_names(entries@.subrange(0, k as int)),
        decreases entries@.len() - k,
    {
        let e = &entries[k];
        let ghost before = written(w);
        let ghost done = entries@.subrange(0, k as int);
        proof {
            assert(fits_format(entries@[k as int]));
            assert forall|i: int|
                0 <= i < k && stored_name(entries@[i]) == stored_name(*e) implies has_name(
                before,
                stored_name(*e),
            ) by {
                assert(before[i].0 == stored_name(entries@[i]));
            }
            assert forall|i: int| 0 <= i < before.len() && before[i].0 == stored_name(*e) implies !distinct_names(
                entries@,
            ) by {
                assert(before[i] == stored(entries@[i]));
                assert(stored_name(entries@[i]) == stored_name(entries@[k as int]));
            }
        }
        if e.is_file {
            match start_file(&mut w, e.name.as_str(), e.unix_mode, Compression::Stored) {
                Ok(()) => {},
                Err(err) => return Err(ArchiveError::Entry(describe(&err))),
            }
            match write_data(&mut w, e.data.as_slice()) {
                Ok(()) => {},
                Err(err) => return Err(ArchiveError::Entry(describe(&err))),
            }
        } else {
            match add_directory(&mut w, e.name.as_str(), e.unix_mode) {
                Ok(()) => {},
                Err(err) => return Err(ArchiveError::Entry(describe(&err))),
            }
        }
        proof {
            assert(written(w) =~= entries@.subrange(0, k + 1).map_values(|e: PackEntry| stored(e)));
            assert forall|i: int, j: int|
                0 <= i < j < k + 1 implies stored_name(
                #[trigger] entries@.subrange(0, k + 1)[i],
            ) != stored_name(#[trigger] entries@.subrange(0, k + 1)[j]) by {
                if j < k {
                    assert(done[i] == entries@[i] && done[j] == entries@[j]);
                } else if stored_name(entries@[i]) == stored_name(entries@[j]) {
                    assert(before[i].0 == stored_name(entries@[i]));
                }
            }
        }
        k += 1;
    }
    proof {
        assert(entries@.subrange(0, k as int) =~= entries@);
        assert forall|i: int| 0 <= i < written(w).len() implies (#[trigger] written(w)[i]).1.len()
            <= MAX_ENTRY_BYTES by {
            assert(fits_format(entries@[i]));
        }
    }
    match finish(w) {
        Ok(b) => Ok(b),
        Err(err) => Err(ArchiveError::Open(describe(&err))),
    }
}

/// Reading back a packed archive gives each entry's path components, kind, permission bits
/// and content, in the order packed, every entry stored uncompressed.
pub proof fn law_read_after_pack(entries: Seq<PackEntry>, b: Seq<u8>, read: Seq<ArchiveEntry>)
    requires
        packed_as(entries, b),
        read.map_values(|e: ArchiveEntry| entry_view(e)) == entries_of(b),
    ensures
        readable_archive(b),
        read.len() == entries.len(),
        forall|k: int|
            0 <= k < entries.len() ==> {
                &&& path_view((#[trigger] read[k]).path@) == name_components(stored_name(entries[k]))
                &&& read[k].is_dir == is_dir_name(stored_name(entries[k]))
                &&& (entries[k].is_file ==> read[k].data@ == entries[k].data@)
                &&& (entries[k].unix_mode matches Some(m) ==> (read[k].unix_mode matches Some(x)
                    && x & 0o777 == m & 0o777))
                &&& read[k].stored
            },
{
    assert forall|k: int| 0 <= k < entries.len() implies {
        &&& path_view((#[trigger] read[k]).path@) == name_components(stored_name(entries[k]))
        &&& read[k].is_dir == is_dir_name(stored_name(entries[k]))
        &&& (entries[k].is_file ==> read[k].data@ == entries[k].data@)
        &&& (entries[k].unix_mode matches Some(m) ==> (read[k].unix_mode matches Some(x) && x
            & 0o777 == m & 0o777))
        &&& read[k].stored
    } by {
        assert(entry_view(read[k]) == entries_of(b)[k]);
    }
}

/// The filesystem steps that recreate an archive blob's entries under a destination
/// directory. It succeeds exactly on a blob that reads.
pub fn unpack_archive(bytes: Vec<u8>) -> (r: Result<Vec<UnpackStep>, ArchiveError>)
    ensures
        r is Ok <==> readable_archive(bytes@),
        r matches Ok(steps) ==> exists|es: Seq<ArchiveEntry>|
            es.map_values(|e: ArchiveEntry| entry_view(e)) == entries_of(bytes@) && steps_view(
                steps@,
            ) == all_steps(es),
{
    let es = read_archive(bytes)?;
    Ok(unpack_steps(&es))
}

/// What `Path::extension` gives for a file name.
pub uninterp spec fn extension_of(name: Seq<char>) -> Option<Seq<char>>;

/// The lines that `BufRead::lines` yields from some bytes, up to the first that is not
/// UTF-8.
pub uninterp spec fn lines_of(data: Seq<u8>) -> Seq<Seq<char>>;

/// Relies on `std::path::Path::extension`: the extension of a file name, which depends on the
/// name alone.
#[verifier::external_body]
fn file_extension(name: &str) -> (r: Option<String>)
    ensures
        match r {
            Some(x) => extension_of(name@) == Some(x@),
            None => extension_of(name@) is None,
        },
{
    std::path::Path::new(name).extension().map(|x| x.to_string_lossy().into_owned())
}

/// Relies on `std::io::BufRead::lines` over a byte slice: its lines, up to the first that
/// is not UTF-8.
#[verifier::external_body]
fn text_lines(data: &[u8]) -> (r: Vec<String>)
    ensures
        path_view(r@) == lines_of(data@),
{
    std::io::BufRead::lines(data).map_while(Result::ok).collect()
}

/// Components joined by `/`.
pub open spec fn slash_joined(parts: Seq<Seq<char>>) -> Seq<char>
    decreases parts.len(),
{
    if parts.len() == 0 {
        Seq::empty()
    } else if parts.len() == 1 {
        parts[0]
    } else {
        slash_joined(parts.drop_last()) + seq!['/'] + parts.last()
    }
}

/// `c` is how the `cat` listing sees the archive entry `e`: its path joined by `/`, its last
/// component as file name, that name's extension, its kind, and its content's lines.
pub open spec fn describes(c: CatEntry, e: ArchiveEntry) -> bool {
    let p = path_view(e.path@);
    &&& c.path@ == slash_joined(p)
    &&& c.is_dir == e.is_dir
    &&& path_view(c.lines@) == lines_of(e.data@)
    &&& if p.len() == 0 {
        c.file_name is None && c.extension is None
    } else {
        &&& (c.file_name matches Some(f) && f@ == p.last())
        &&& match c.extension {
            Some(x) => extension_of(p.last()) == Some(x@),
            None => extension_of(p.last()) is None,
        }
    }
}

/// How the `cat` listing sees one archive entry.
fn cat_entry(e: &ArchiveEntry) -> (r: CatEntry)
    ensures
        describes(r, *e),
{
    let ghost p = path_view(e.path@);
    let mut path = String::new();
    let mut i: usize = 0;
    while i < e.path.len()
        invariant
            0 <= i <= e.path@.len(),
            p == path_view(e.path@),
            path@ == slash_joined(p.subrange(0, i as int)),
        decreases e.path@.len() - i,
    {
        proof {
            reveal_strlit("/");
            assert(p.subrange(0, i + 1).drop_last() =~= p.subrange(0, i as int));
        }
        let ghost before = path@;
        if i > 0 {
            path.append("/");
        }
        path.append(e.path[i].as_str());
        proof {
            if i == 0 {
                assert(path@ =~= slash_joined(p.subrange(0, 1)));
            } else {
                assert(path@ =~= slash_joined(p.subrange(0, i as int)) + seq!['/'] + p[i as int]);
            }
        }
        i += 1;
    }
    proof {
        assert(p.subrange(0, i as int) =~= p);
    }
    let n = e.path.len();
    let (file_name, extension) = if n == 0 {
        (None, None)
    } else {
        let last = &e.path[n - 1];
        (Some(last.clone()), file_extension(last.as_str()))
    };
    CatEntry { path, file_name, extension, is_dir: e.is_dir, lines: text_lines(e.data.as_slice()) }
}

/// The `cat` listing of an archive blob under `filter`. It succeeds exactly on a blob that reads.
pub fn cat_archive(bytes: Vec<u8>, filter: &Filter) -> (r: Result<Vec<CatLine>, ArchiveError>)
    ensures
        r is Ok <==> readable_archive(bytes@),
        r matches Ok(lines) ==> exists|es: Seq<ArchiveEntry>, cs: Seq<CatEntry>|
            {
                &&& es.map_values(|e: ArchiveEntry| entry_view(e)) == entries_of(bytes@)
                &&& cs.len() == es.len()
                &&& forall|k: int| 0 <= k < es.len() ==> describes(#[trigger] cs[k], es[k])
                &&& lines@ == cat_lines(cs, *filter)
            },
{
    let es = read_archive(bytes)?;
    let mut cs: Vec<CatEntry> = Vec::new();
    let mut k: usize = 0;
    while k < es.len()
        invariant
            0 <= k <= es@.len(),
            cs@.len() == k,
            forall|j: int| 0 <= j < k ==> describes(#[trigger] cs@[j], es@[j]),
        decreases es@.len() - k,
    {
        cs.push(cat_entry(&es[k]));
        k += 1;
    }
    Ok(cat_listing(&cs, filter))
}

} // verus!
