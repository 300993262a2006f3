//! Reading and writing zip containers held in memory.
//!
//! Entries are read where they are stored or deflated, the two methods that
//! jar files use; an entry of another method is reported as an error.

use std::io::Cursor;
use std::io::Read;
use std::io::Write;
use vstd::prelude::*;
use zip::result::ZipError;
use zip::write::FileOptions;
use zip::DateTime;
use zip::ZipArchive;
use zip::ZipWriter;

verus! {

/// `zip::ZipArchive`, an open archive. Nothing inside it is visible here.
#[verifier::external_type_specification]
#[verifier::external_body]
#[verifier::reject_recursive_types(R)]
pub struct ExZipArchive<R>(ZipArchive<R>);

/// `std::io::Cursor`, the reader over bytes in memory that an archive is
/// opened on.
#[verifier::external_type_specification]
#[verifier::external_body]
#[verifier::reject_recursive_types(T)]
pub struct ExCursor<T>(Cursor<T>);

/// `zip::result::ZipError`, the error of the `zip` crate.
#[verifier::external_type_specification]
#[verifier::external_body]
pub struct ExZipError(ZipError);

/// The bytes that an open archive reads from.
pub uninterp spec fn archive_source(archive: ZipArchive<Cursor<&[u8]>>) -> Seq<u8>;

/// Whether `zip::ZipArchive::new` finds and reads a central directory in
/// `bytes`.
pub uninterp spec fn zip_readable(bytes: Seq<u8>) -> bool;

/// The number of entries in the central directory of `bytes`.
pub uninterp spec fn zip_entry_count(bytes: Seq<u8>) -> nat;

/// The name of entry `index` of `bytes`, or `None` where the entry cannot be
/// opened.
pub uninterp spec fn zip_entry_name(bytes: Seq<u8>, index: int) -> Option<Seq<char>>;

/// The content of entry `index` of `bytes` as text, or `None` where the entry
/// cannot be opened or its content cannot be read as text.
pub uninterp spec fn zip_entry_text(bytes: Seq<u8>, index: int) -> Option<Seq<char>>;

/// Calls `zip::ZipArchive::new` on a cursor over `bytes`. The call reads the
/// central directory and fails where it finds none or cannot read it. Whether
/// it succeeds depends on the bytes alone; the archive it hands back reads
/// from these bytes.
#[verifier::external_body]
pub(crate) fn open_archive<'a>(bytes: &'a [u8]) -> (opened: Result<
    ZipArchive<Cursor<&'a [u8]>>,
    ZipError,
>)
    ensures
        opened is Ok <==> zip_readable(bytes@),
        opened matches Ok(archive) ==> archive_source(archive) == bytes@,
{
    ZipArchive::new(Cursor::new(bytes))
}

/// Calls `zip::ZipArchive::len`, the number of entries that were found in
/// the central directory when the archive was opened.
#[verifier::external_body]
pub(crate) fn entry_count(archive: &ZipArchive<Cursor<&[u8]>>) -> (count: usize)
    ensures
        count == zip_entry_count(archive_source(*archive)),
{
    archive.len()
}

/// Calls `zip::ZipArchive::by_index_decrypt` with an empty password and takes
/// the entry's name by `ZipFile::name`. An entry that is not encrypted is
/// opened as `by_index` opens it. An entry for which the empty password is
/// refused is reported with the error that `by_index` has for an encrypted
/// entry; `by_index` itself would stop the program on an entry that carries
/// AES data without being marked as encrypted. An encrypted entry whose
/// one-byte password check the empty password happens to pass is opened with
/// that password. The outcome depends on the archive's bytes and the index
/// alone, and the archive goes on reading from the same bytes.
#[verifier::external_body]
pub(crate) fn entry_name(archive: &mut ZipArchive<Cursor<&[u8]>>, index: usize) -> (name: Result<
    String,
    ZipError,
>)
    ensures
        archive_source(*final(archive)) == archive_source(*old(archive)),
        name is Ok <==> zip_entry_name(archive_source(*old(archive)), index as int) is Some,
        name matches Ok(text) ==> zip_entry_name(archive_source(*old(archive)), index as int)
            == Some(text@),
{
    match archive.by_index_decrypt(index, &[])? {
        Ok(file) => Ok(file.name().to_string()),
        Err(_) => Err(ZipError::UnsupportedArchive(ZipError::PASSWORD_REQUIRED)),
    }
}

/// Opens the entry as `entry_name` does and reads it to its end with
/// `std::io::Read::read_to_string`, which decompresses the content, checks
/// its checksum and fails on bytes that are not UTF-8. The outcome depends on
/// the archive's bytes and the index alone, and the archive goes on reading
/// from the same bytes.
#[verifier::external_body]
pub(crate) fn entry_text(archive: &mut ZipArchive<Cursor<&[u8]>>, index: usize) -> (content: Result<
    String,
    ZipError,
>)
    ensures
        archive_source(*final(archive)) == archive_source(*old(archive)),
        content is Ok <==> zip_entry_text(archive_source(*old(archive)), index as int) is Some,
        content matches Ok(text) ==> zip_entry_text(archive_source(*old(archive)), index as int)
            == Some(text@),
{
    let mut text = String::new();
    match archive.by_index_decrypt(index, &[])? {
        Ok(mut file) => file.read_to_string(&mut text)?,
        Err(_) => return Err(ZipError::UnsupportedArchive(ZipError::PASSWORD_REQUIRED)),
    };
    Ok(text)
}

/// A `zip::ZipWriter` that writes into a buffer in memory. Nothing inside it
/// is visible here.
#[verifier::external_body]
pub struct BundleWriter {
    inner: ZipWriter<Cursor<Vec<u8>>>,
}

/// The entries that were handed to a writer so far, each a name with its
/// content, in the order in which they were started. This speaks of a writer
/// on which every call so far has succeeded; of a writer on which a call has
/// failed nothing is said.
pub uninterp spec fn writer_entries(writer: BundleWriter) -> Seq<(Seq<char>, Seq<u8>)>;

/// Whether `zip::ZipWriter::start_file` starts an entry named `name` in a
/// writer that holds `entries`.
pub uninterp spec fn zip_starts(entries: Seq<(Seq<char>, Seq<u8>)>, name: Seq<char>) -> bool;

/// Whether a writer that holds `entries`, the last of them still without
/// content, takes `data` as the content of that entry.
pub uninterp spec fn zip_takes(entries: Seq<(Seq<char>, Seq<u8>)>, data: Seq<u8>) -> bool;

/// The bytes of the container that `zip::ZipWriter` writes for `entries`
/// with its default options and the fixed time stamp `DateTime::default()`,
/// each entry's content handed over in one piece; `None` where the container
/// cannot be finished.
pub uninterp spec fn zip_image(entries: Seq<(Seq<char>, Seq<u8>)>) -> Option<Seq<u8>>;

/// Calls `zip::ZipWriter::new` on an empty buffer in memory. The new writer
/// holds no entry.
#[verifier::external_body]
pub(crate) fn writer_new() -> (writer: BundleWriter)
    ensures
        writer_entries(writer) == Seq::<(Seq<char>, Seq<u8>)>::empty(),
{
    BundleWriter { inner: ZipWriter::new(Cursor::new(Vec::new())) }
}

/// Calls `zip::ZipWriter::start_file` with `FileOptions::default()` and the
/// time stamp set to `DateTime::default()`, so that no clock is read into
/// the entry. Whether the call succeeds depends on what the writer holds and
/// on the name. Where it succeeds the writer has one more entry, of that name
/// and still without content.
#[verifier::external_body]
pub(crate) fn writer_start_file(writer: &mut BundleWriter, name: &str) -> (r: Result<
    (),
    ZipError,
>)
    ensures
        r is Ok <==> zip_starts(writer_entries(*old(writer)), name@),
        r is Ok ==> writer_entries(*final(writer)) == writer_entries(*old(writer)).push(
            (name@, Seq::<u8>::empty()),
        ),
{
    writer.inner.start_file(name, FileOptions::default().last_modified_time(DateTime::default()))
}

/// Calls `write_all` of the writer's `std::io::Write`, once for an entry.
/// Whether the call succeeds depends on what the writer holds and on the
/// bytes. Where it succeeds the bytes are the content of the entry that was
/// started last.
#[verifier::external_body]
pub(crate) fn writer_write_all(writer: &mut BundleWriter, data: &[u8]) -> (r: Result<
    (),
    ZipError,
>)
    requires
        writer_entries(*old(writer)).len() > 0,
        writer_entries(*old(writer)).last().1.len() == 0,
    ensures
        r is Ok <==> zip_takes(writer_entries(*old(writer)), data@),
        r is Ok ==> writer_entries(*final(writer)) == writer_entries(*old(writer)).drop_last().push(
            (writer_entries(*old(writer)).last().0, data@),
        ),
{
    writer.inner.write_all(data).map_err(ZipError::Io)
}

/// Calls `zip::ZipWriter::finish`, which writes the central directory, and
/// takes the buffer out of the cursor that it hands back. The writer is used
/// up by the call. The outcome depends on what the writer held alone. Where
/// the call succeeds the bytes are the container of the entries that the
/// writer held.
#[verifier::external_body]
pub(crate) fn writer_finish(writer: BundleWriter) -> (r: Result<Vec<u8>, ZipError>)
    ensures
        r is Ok <==> zip_image(writer_entries(writer)) is Some,
        r matches Ok(bytes) ==> zip_image(writer_entries(writer)) == Some(bytes@),
{
    let mut writer = writer;
    writer.inner.finish().map(|cursor| cursor.into_inner())
}

} // verus!
