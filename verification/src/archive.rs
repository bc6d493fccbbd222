//! The embedded archive: the `zip` crate behind a handful of contracts, and
//! the verified bookkeeping around it.
//!
//! Nothing in this file is proved about the `zip` crate itself. Each function
//! marked `external_body` makes one step of its reader or writer; what Verus
//! is told of that step is said above it. Bytes go to the reader only
//! through `open_checked`, which first looks for the one thing that the
//! reader must not be given: a directory entry that names a place for its
//! record near the end of the 64-bit range.

use vstd::prelude::*;
use crate::error::DecodeError;

verus! {

/// `std::io::Cursor`, which gives the archive reader and writer a buffer in
/// memory to work on. Verus sees nothing inside it.
#[verifier::external_type_specification]
#[verifier::external_body]
#[verifier::reject_recursive_types(T)]
pub struct ExCursor<T>(std::io::Cursor<T>);

/// `zip::ZipArchive`, an opened archive. Verus sees nothing inside it; what
/// it holds goes by the name `archive_contents`.
#[verifier::external_type_specification]
#[verifier::external_body]
#[verifier::reject_recursive_types(R)]
pub struct ExZipArchive<R>(zip::ZipArchive<R>);

/// `zip::result::ZipError`. Verus sees nothing inside it; it is only ever
/// turned into an error of this crate.
#[verifier::external_type_specification]
#[verifier::external_body]
pub struct ExZipError(zip::result::ZipError);

/// A `zip::ZipWriter` that builds an archive in memory. Its generic form is
/// bound by `std::io::Write` and `std::io::Seek`, so it is kept behind this
/// struct; only the functions of this file touch it. A writer is handed on
/// by value and given up when a step fails, so every writer at hand has
/// taken each of its records without an error.
#[verifier::external_body]
pub struct ArchiveWriter {
    inner: zip::ZipWriter<std::io::Cursor<Vec<u8>>>,
}

/// One record on its way into an archive: its name and its bytes.
pub type Entry = (Seq<char>, Seq<u8>);

/// What a reader sees in an archive: for each name that the archive lists,
/// the bytes of that record, or `None` where the record cannot be unpacked.
pub type Contents = Map<Seq<char>, Option<Seq<u8>>>;

/// What `zip::ZipArchive::new` makes of `bytes`: `None` where it refuses
/// them, else what the archive it returns holds.
pub uninterp spec fn archive_index(bytes: Seq<u8>) -> Option<Map<Seq<char>, Option<Seq<u8>>>>;

/// What an opened archive holds.
pub uninterp spec fn archive_contents(
    archive: zip::ZipArchive<std::io::Cursor<Vec<u8>>>,
) -> Map<Seq<char>, Option<Seq<u8>>>;

/// The records that a writer has taken so far, first one first.
pub uninterp spec fn writer_entries(writer: ArchiveWriter) -> Seq<(Seq<char>, Seq<u8>)>;

/// Whether a writer that has taken `written` takes one more record with
/// this name and these bytes.
pub uninterp spec fn entry_admitted(
    written: Seq<(Seq<char>, Seq<u8>)>,
    name: Seq<char>,
    data: Seq<u8>,
) -> bool;

/// The bytes of the finished archive that holds `entries` in this order, or
/// `None` where the writer cannot finish it.
pub uninterp spec fn archive_image(entries: Seq<(Seq<char>, Seq<u8>)>) -> Option<Seq<u8>>;

/// Whether `name` is one of `names`.
pub open spec fn listed(names: Seq<String>, name: Seq<char>) -> bool {
    exists|i: int| 0 <= i < names.len() && (#[trigger] names[i])@ == name
}

/// Whether every record of `contents` can be unpacked to the bytes that
/// `entries` gives for its name, and `contents` lists no other name.
pub open spec fn holds_exactly(contents: Contents, entries: Seq<Entry>) -> bool {
    &&& forall|i: int|
        0 <= i < entries.len() ==> #[trigger] contents.contains_key(entries[i].0)
            && contents[entries[i].0] == Some(entries[i].1)
    &&& forall|name: Seq<char>| #[trigger]
        contents.contains_key(name) ==> exists|i: int|
            0 <= i < entries.len() && (#[trigger] entries[i]).0 == name
}

/// Whether a fresh writer takes every record of `entries`, one after the
/// other.
pub open spec fn all_admitted(entries: Seq<Entry>) -> bool
    decreases entries.len(),
{
    entries.len() == 0 || {
        let last = entries.last();
        all_admitted(entries.drop_last()) && entry_admitted(entries.drop_last(), last.0, last.1)
    }
}

/// A fresh writer takes a list of records exactly if it takes all but the
/// last and then, having taken them, the last.
pub proof fn lemma_all_admitted_push(entries: Seq<Entry>, name: Seq<char>, data: Seq<u8>)
    ensures
        all_admitted(entries.push((name, data))) <==> all_admitted(entries) && entry_admitted(
            entries,
            name,
            data,
        ),
{
    assert(entries.push((name, data)).drop_last() =~= entries);
}

/// The archive that a fresh writer makes of `entries`: its bytes where the
/// writer takes each record and finishes, `None` otherwise.
pub open spec fn packed(entries: Seq<Entry>) -> Option<Seq<u8>> {
    if all_admitted(entries) {
        archive_image(entries)
    } else {
        None
    }
}

/// The number that two bytes of `bytes` stand for, the first at `at`, least
/// significant byte first.
pub open spec fn spec_u16_le_at(bytes: Seq<u8>, at: int) -> int {
    bytes[at] as int + 0x100 * bytes[at + 1] as int
}

/// The number that eight bytes of `bytes` stand for, the first at `at`, least
/// significant byte first.
pub open spec fn spec_u64_le_at(bytes: Seq<u8>, at: int) -> int {
    bytes[at] as int + 0x100 * bytes[at + 1] as int + 0x1_0000 * bytes[at + 2] as int
        + 0x100_0000 * bytes[at + 3] as int + 0x1_0000_0000 * bytes[at + 4] as int
        + 0x100_0000_0000 * bytes[at + 5] as int + 0x1_0000_0000_0000 * bytes[at + 6] as int
        + 0x100_0000_0000_0000 * bytes[at + 7] as int
}

/// Whether the 46 bytes from `entry` on have the form of a directory entry
/// that leaves the place of its record to its extra field: they begin with the
/// signature of a directory entry and their four offset bytes are all `0xFF`.
pub open spec fn defers_offset(bytes: Seq<u8>, entry: int) -> bool {
    &&& 0 <= entry
    &&& entry + 46 <= bytes.len()
    &&& bytes[entry] == 0x50
    &&& bytes[entry + 1] == 0x4b
    &&& bytes[entry + 2] == 0x01
    &&& bytes[entry + 3] == 0x02
    &&& bytes[entry + 42] == 0xff
    &&& bytes[entry + 43] == 0xff
    &&& bytes[entry + 44] == 0xff
    &&& bytes[entry + 45] == 0xff
}

/// Where the extra field of the directory entry at `entry` begins: behind
/// its 46 fixed bytes and its name.
pub open spec fn extra_start(bytes: Seq<u8>, entry: int) -> int {
    entry + 46 + spec_u16_le_at(bytes, entry + 28)
}

/// Where the extra field of the directory entry at `entry` ends.
pub open spec fn extra_end(bytes: Seq<u8>, entry: int) -> int {
    extra_start(bytes, entry) + spec_u16_le_at(bytes, entry + 30)
}

/// Whether eight bytes at `at`, inside the extra field of a directory entry
/// at `entry` that leaves the place of its record to that field, stand for a
/// place so far out that the length of `bytes` added to it leaves 64 bits.
pub open spec fn offset_wraps(bytes: Seq<u8>, entry: int, at: int) -> bool {
    &&& defers_offset(bytes, entry)
    &&& extra_start(bytes, entry) <= at
    &&& at + 8 <= extra_end(bytes, entry)
    &&& extra_end(bytes, entry) <= bytes.len()
    &&& spec_u64_le_at(bytes, at) + bytes.len() > u64::MAX
}

/// Whether no directory entry in `bytes`, wherever it may stand, can name a
/// place for its record that the archive reader could not add its own
/// 64-bit offset to. In bytes that fail this and are shorter than 2^63, an
/// entry names a place beyond their end.
pub open spec fn offsets_in_range(bytes: Seq<u8>) -> bool {
    forall|entry: int, at: int| !#[trigger] offset_wraps(bytes, entry, at)
}

/// Calls `zip::ZipArchive::new` on a `std::io::Cursor` over `bytes`.
///
/// Required: `offsets_in_range`. The call adds the offset at which it found
/// the archive in `bytes`, which is at most their length, to the place that
/// each directory entry names for its record, without looking at the sum.
/// An entry names that place in four bytes or, where these are all `0xFF`,
/// in eight bytes of its extra field; these are the entries and the bytes
/// that `offsets_in_range` speaks of, so with it the sum stays in 64 bits.
///
/// Claimed: whether the call succeeds, which names the returned archive
/// lists and what each record unpacks to depend on `bytes` alone.
#[verifier::external_body]
fn open_archive(bytes: Vec<u8>) -> (r: Result<
    zip::ZipArchive<std::io::Cursor<Vec<u8>>>,
    zip::result::ZipError,
>)
    requires
        offsets_in_range(bytes@),
    ensures
        match r {
            Ok(archive) => archive_index(bytes@) == Some(archive_contents(archive)),
            Err(_) => archive_index(bytes@) is None,
        },
{
    zip::ZipArchive::new(std::io::Cursor::new(bytes))
}

/// What opening `bytes` as an archive shows: `None` where a directory entry
/// names a place too far out or where the archive reader refuses the bytes.
pub open spec fn spec_open(bytes: Seq<u8>) -> Option<Contents> {
    if offsets_in_range(bytes) {
        archive_index(bytes)
    } else {
        None
    }
}

/// Whether the archive that a fresh writer makes of `entries`, where it
/// makes one and where that archive opens, shows a reader exactly these
/// records. Nothing in this crate claims that it does: laws that need it
/// ask for it.
pub open spec fn reads_back(entries: Seq<Entry>) -> bool {
    packed(entries) matches Some(image) ==> (spec_open(image) matches Some(contents)
        ==> holds_exactly(contents, entries))
}

/// Opens `bytes` as an archive. Bytes in which a directory entry names a
/// place too far out never reach the archive reader; they are a corrupt
/// archive, as are bytes that the reader refuses.
pub fn open_checked(bytes: Vec<u8>) -> (r: Result<
    zip::ZipArchive<std::io::Cursor<Vec<u8>>>,
    DecodeError,
>)
    ensures
        match spec_open(bytes@) {
            Some(contents) => r matches Ok(archive) && archive_contents(archive) == contents,
            None => r matches Err(e) && e == DecodeError::CorruptArchive,
        },
{
    if !check_offsets(bytes.as_slice()) {
        return Err(DecodeError::CorruptArchive);
    }
    match open_archive(bytes) {
        Ok(archive) => Ok(archive),
        Err(_) => Err(DecodeError::CorruptArchive),
    }
}

/// Collects what `zip::ZipArchive::file_names` yields.
///
/// Claimed: the names handed out are those that the archive lists, in no
/// stated order.
#[verifier::external_body]
pub(crate) fn entry_names(archive: &zip::ZipArchive<std::io::Cursor<Vec<u8>>>) -> (names: Vec<
    String,
>)
    ensures
        forall|name: Seq<char>| #[trigger]
            listed(names@, name) <==> archive_contents(*archive).contains_key(name),
{
    archive.file_names().map(|name| name.to_owned()).collect()
}

/// Calls `zip::ZipArchive::by_name` and reads the `zip::read::ZipFile` that
/// it returns to its end, which unpacks the record and checks its CRC.
///
/// Claimed: the call succeeds exactly for a listed name whose record can be
/// unpacked and then returns that record's bytes; the archive holds
/// afterwards what it held before.
#[verifier::external_body]
pub(crate) fn extract_entry(
    archive: &mut zip::ZipArchive<std::io::Cursor<Vec<u8>>>,
    name: &str,
) -> (r: Result<Vec<u8>, zip::result::ZipError>)
    ensures
        archive_contents(*final(archive)) == archive_contents(*old(archive)),
        match r {
            Ok(data) => {
                &&& archive_contents(*old(archive)).contains_key(name@)
                &&& archive_contents(*old(archive))[name@] == Some(data@)
            },
            Err(_) => {
                ||| !archive_contents(*old(archive)).contains_key(name@)
                ||| archive_contents(*old(archive))[name@] is None
            },
        },
{
    let mut data = Vec::new();
    let mut file = archive.by_name(name)?;
    std::io::Read::read_to_end(&mut file, &mut data)?;
    Ok(data)
}

/// Calls `zip::ZipWriter::new` on a `std::io::Cursor` over an empty vector.
///
/// Claimed: the new writer has taken no record.
#[verifier::external_body]
pub(crate) fn new_writer() -> (writer: ArchiveWriter)
    ensures
        writer_entries(writer) == Seq::<Entry>::empty(),
{
    ArchiveWriter { inner: zip::ZipWriter::new(std::io::Cursor::new(Vec::new())) }
}

/// Calls `zip::ZipWriter::start_file` with deflate compression and the
/// crate's fixed default timestamp, then `std::io::Write::write_all` with the
/// record's bytes.
///
/// Claimed: whether the two calls succeed depends on the records taken
/// before, the name and the bytes alone; on success the writer has taken
/// this record after the others.
#[verifier::external_body]
pub(crate) fn add_entry(writer: ArchiveWriter, name: &str, data: &[u8]) -> (r: Result<
    ArchiveWriter,
    zip::result::ZipError,
>)
    ensures
        match r {
            Ok(next) => {
                &&& entry_admitted(writer_entries(writer), name@, data@)
                &&& writer_entries(next) == writer_entries(writer).push((name@, data@))
            },
            Err(_) => !entry_admitted(writer_entries(writer), name@, data@),
        },
{
    let options = zip::write::FileOptions::default()
        .compression_method(zip::CompressionMethod::DEFLATE)
        .last_modified_time(zip::DateTime::default());
    let mut inner = writer.inner;
    inner.start_file(name, options)?;
    std::io::Write::write_all(&mut inner, data)?;
    Ok(ArchiveWriter { inner })
}

/// Calls `zip::ZipWriter::finish` and takes the vector out of the cursor
/// that it returns.
///
/// Claimed: whether the call succeeds, and the bytes that it gives, depend
/// on the records taken alone.
#[verifier::external_body]
pub(crate) fn finish_archive(writer: ArchiveWriter) -> (r: Result<Vec<u8>, zip::result::ZipError>)
    ensures
        match r {
            Ok(bytes) => archive_image(writer_entries(writer)) == Some(bytes@),
            Err(_) => archive_image(writer_entries(writer)) is None,
        },
{
    let mut inner = writer.inner;
    Ok(inner.finish()?.into_inner())
}

/// Tells whether `name` is among `names`.
pub fn has_entry(names: &Vec<String>, name: &str) -> (found: bool)
    ensures
        found == listed(names@, name@),
{
    let wanted = name.to_owned();
    let mut i: usize = 0;
    while i < names.len()
        invariant
            i <= names.len(),
            wanted@ == name@,
            forall|k: int| 0 <= k < i ==> (#[trigger] names@[k])@ != name@,
        decreases names.len() - i,
    {
        if names[i] == wanted {
            return true;
        }
        i += 1;
    }
    false
}

/// Reads the two bytes at `at` as a number, least significant byte first.
fn u16_le_at(bytes: &[u8], at: usize) -> (value: usize)
    requires
        at + 2 <= bytes@.len(),
    ensures
        value == spec_u16_le_at(bytes@, at as int),
        value <= 0xffff,
{
    let low: usize = bytes[at] as usize;
    let high: usize = bytes[at + 1] as usize;
    low + 0x100 * high
}

/// Reads the eight bytes at `at` as a number, least significant byte first.
fn u64_le_at(bytes: &[u8], at: usize) -> (value: u64)
    requires
        at + 8 <= bytes@.len(),
    ensures
        value == spec_u64_le_at(bytes@, at as int),
{
    let b0: u64 = bytes[at] as u64;
    let b1: u64 = bytes[at + 1] as u64;
    let b2: u64 = bytes[at + 2] as u64;
    let b3: u64 = bytes[at + 3] as u64;
    let b4: u64 = bytes[at + 4] as u64;
    let b5: u64 = bytes[at + 5] as u64;
    let b6: u64 = bytes[at + 6] as u64;
    let b7: u64 = bytes[at + 7] as u64;
    b0 + 0x100 * b1 + 0x1_0000 * b2 + 0x100_0000 * b3 + 0x1_0000_0000 * b4 + 0x100_0000_0000 * b5
        + 0x1_0000_0000_0000 * b6 + 0x100_0000_0000_0000 * b7
}

/// Tells whether the 46 bytes from `entry` on have the form of a directory
/// entry that leaves the place of its record to its extra field.
fn entry_defers_offset(bytes: &[u8], entry: usize) -> (defers: bool)
    requires
        entry + 46 <= bytes@.len(),
    ensures
        defers == defers_offset(bytes@, entry as int),
{
    bytes[entry] == 0x50 && bytes[entry + 1] == 0x4b && bytes[entry + 2] == 0x01 && bytes[entry
        + 3] == 0x02 && bytes[entry + 42] == 0xff && bytes[entry + 43] == 0xff && bytes[entry + 44]
        == 0xff && bytes[entry + 45] == 0xff
}

/// Tells whether the extra field of the directory entry at `entry`, which
/// leaves the place of its record to that field, holds no eight bytes that
/// stand for a place too far out.
fn extra_field_in_range(bytes: &[u8], entry: usize) -> (ok: bool)
    requires
        defers_offset(bytes@, entry as int),
    ensures
        ok == forall|at: int| !#[trigger] offset_wraps(bytes@, entry as int, at),
{
    let len = bytes.len();
    let name_len = u16_le_at(bytes, entry + 28);
    let extra_len = u16_le_at(bytes, entry + 30);
    if name_len + extra_len > len - (entry + 46) {
        return true;
    }
    let end = entry + 46 + name_len + extra_len;
    let limit: u64 = u64::MAX - (len as u64);
    let mut at = entry + 46 + name_len;
    while end - at >= 8
        invariant
            defers_offset(bytes@, entry as int),
            len == bytes@.len(),
            limit == u64::MAX - len,
            end == extra_end(bytes@, entry as int),
            end <= len,
            extra_start(bytes@, entry as int) <= at <= end,
            forall|k: int| extra_start(bytes@, entry as int) <= k < at ==> !#[trigger] offset_wraps(
                bytes@,
                entry as int,
                k,
            ),
        decreases end - at,
    {
        if u64_le_at(bytes, at) > limit {
            assert(offset_wraps(bytes@, entry as int, at as int));
            return false;
        }
        at += 1;
    }
    true
}

/// Tells whether no directory entry in `bytes` can name a place for its
/// record that is too far out for the archive reader. Looks at every
/// position, since only the reader knows where the directory stands.
pub fn check_offsets(bytes: &[u8]) -> (ok: bool)
    ensures
        ok == offsets_in_range(bytes@),
{
    let len = bytes.len();
    if len < 46 {
        return true;
    }
    let mut entry: usize = 0;
    while entry <= len - 46
        invariant
            len == bytes@.len(),
            len >= 46,
            entry <= len - 46 + 1,
            forall|e: int, at: int| 0 <= e < entry ==> !#[trigger] offset_wraps(bytes@, e, at),
        decreases len - entry,
    {
        if entry_defers_offset(bytes, entry) {
            if !extra_field_in_range(bytes, entry) {
                return false;
            }
        }
        entry += 1;
    }
    true
}

} // verus!
