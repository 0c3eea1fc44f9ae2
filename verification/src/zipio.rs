//! Trusted boundary to the `zip` crate, over in-memory byte buffers.  An
//! archive's members are modelled as a sequence of (name, bytes) pairs; a
//! writer is modelled by the entries already finished plus the entry in
//! progress.  All entries are written with one fixed set of options —
//! `SimpleFileOptions::default()` with stored (uncompressed) entries — so the
//! bytes a writer produces, and the conditions under which each writer call
//! succeeds, are functions of the entry list alone.  Two build choices are
//! load-bearing here: the crate's `time` feature is off, so entries carry the
//! format's fixed default timestamp rather than the current time, and entries
//! are stored rather than compressed, so an entry's on-disk size equals its
//! input size and the crate's size-field checks become checks on the input.

use vstd::prelude::*;

verus! {

#[verifier::external_type_specification]
#[verifier::external_body]
#[verifier::reject_recursive_types(T)]
pub struct ExCursor<T>(std::io::Cursor<T>);

#[verifier::external_type_specification]
#[verifier::external_body]
#[verifier::reject_recursive_types(R)]
pub struct ExZipArchive<R>(zip::ZipArchive<R>);

#[verifier::external_type_specification]
#[verifier::external_body]
pub struct ExZipError(zip::result::ZipError);

#[verifier::external_type_specification]
#[verifier::external_body]
pub struct ExIoError(std::io::Error);

/// An opened in-memory zip archive.
pub type ZipReader = zip::ZipArchive<std::io::Cursor<Vec<u8>>>;

/// An in-memory zip archive being written.  The writer type's trait bounds
/// keep it from being declared to the verifier directly, so it sits opaque in
/// a field here.
#[verifier::external_body]
pub struct ZipSink {
    inner: zip::ZipWriter<std::io::Cursor<Vec<u8>>>,
}

/// The largest value a plain (non-zip64) zip size field holds; an entry
/// beyond it needs the large-file option, which this library does not use.
pub const ZIP_PLAIN_SIZE_MAX: u64 = 0xffff_ffff;

/// The longest entry name a zip header can carry, in UTF-8 bytes.
pub const ZIP_NAME_MAX: usize = 0xffff;

/// The member list (name, decompressed bytes) that the `zip` crate reads out
/// of an archive's bytes, in index order; `None` when the bytes are not a
/// readable zip archive.  Parsing is a function of the bytes alone.
pub uninterp spec fn zip_parse(bytes: Seq<u8>) -> Option<Seq<(Seq<char>, Seq<u8>)>>;

/// The members an opened archive holds, in index order.
pub uninterp spec fn zip_entries(ar: ZipReader) -> Seq<(Seq<char>, Seq<u8>)>;

/// The bytes an opened archive was opened from.
pub uninterp spec fn zip_source(ar: ZipReader) -> Seq<u8>;

/// Whether member `i` of the zip archive held in `bytes` can be extracted:
/// located, decompressed and checksum-verified.  Extraction runs
/// deterministic code over the archive's bytes, so the outcome is a function
/// of the bytes and the index alone — a member with an unsupported or
/// encrypted method, or corrupt data, fails on every run alike.
pub uninterp spec fn zip_member_ok(bytes: Seq<u8>, i: int) -> bool;

/// The entries a writer has finished, in the order they were started.
pub uninterp spec fn zip_written(w: ZipSink) -> Seq<(Seq<char>, Seq<u8>)>;

/// The entry a writer holds in progress: its name and the bytes fed so far.
pub uninterp spec fn zip_open_entry(w: ZipSink) -> Option<(Seq<char>, Seq<u8>)>;

/// Whether a writer is healthy: freshly made, or touched only by calls that
/// returned success.  After a failed call nothing is promised of a writer,
/// and it should be discarded.
pub uninterp spec fn zip_sink_ok(w: ZipSink) -> bool;

/// The archive bytes the `zip` crate writes for the given entries, under the
/// library's fixed entry options.
pub uninterp spec fn zip_bytes_of(entries: Seq<(Seq<char>, Seq<u8>)>) -> Seq<u8>;

/// The entry list of a finished writer: what was finished plus the entry
/// still in progress, if any.
pub open spec fn zip_final_entries(w: ZipSink) -> Seq<(Seq<char>, Seq<u8>)> {
    zip_written(w) + (match zip_open_entry(w) {
        Some(e) => seq![e],
        None => Seq::<(Seq<char>, Seq<u8>)>::empty(),
    })
}

/// Relies on `zip::ZipArchive::new` over `std::io::Cursor`: opening succeeds
/// exactly when the bytes parse as a zip archive, and the opened archive
/// holds the parsed members and remembers its source bytes.
#[verifier::external_body]
pub(crate) fn open_zip(bytes: Vec<u8>) -> (r: Result<ZipReader, zip::result::ZipError>)
    ensures
        (r is Ok) == (zip_parse(bytes@) is Some),
        (r matches Ok(ar) ==> zip_parse(bytes@) == Some(zip_entries(ar))),
        (r matches Ok(ar) ==> zip_source(ar) == bytes@),
{
    zip::ZipArchive::new(std::io::Cursor::new(bytes))
}

/// Relies on `zip::ZipArchive::len`: the number of members.
#[verifier::external_body]
pub(crate) fn zip_len(ar: &ZipReader) -> (r: usize)
    ensures
        r == zip_entries(*ar).len(),
{
    ar.len()
}

/// Relies on `zip::ZipArchive::by_index`, the member's `name` accessor and
/// its `std::io::Read` impl: one member's name and decompressed bytes.
/// Extraction succeeds exactly when the member is extractable from the
/// archive's bytes — a deterministic fact of the bytes and the index — and
/// leaves the archive unchanged.
#[verifier::external_body]
pub(crate) fn zip_member_at(ar: &mut ZipReader, i: usize) -> (r: Result<
    (String, Vec<u8>),
    zip::result::ZipError,
>)
    requires
        i < zip_entries(*old(ar)).len(),
    ensures
        zip_entries(*final(ar)) == zip_entries(*old(ar)),
        zip_source(*final(ar)) == zip_source(*old(ar)),
        (r is Ok) == zip_member_ok(zip_source(*old(ar)), i as int),
        (r matches Ok(m) ==> (m.0@, m.1@) == zip_entries(*old(ar))[i as int]),
{
    let mut file = ar.by_index(i)?;
    let name = file.name().to_owned();
    let mut data = Vec::new();
    std::io::Read::read_to_end(&mut file, &mut data)?;
    Ok((name, data))
}

/// Relies on `zip::ZipWriter::new` over an empty `std::io::Cursor`: a writer
/// with nothing written and no entry in progress.
#[verifier::external_body]
pub(crate) fn new_zip_writer() -> (w: ZipSink)
    ensures
        zip_written(w) == Seq::<(Seq<char>, Seq<u8>)>::empty(),
        zip_open_entry(w) is None,
        zip_sink_ok(w),
{
    ZipSink { inner: zip::ZipWriter::new(std::io::Cursor::new(Vec::new())) }
}

/// Relies on `zip::ZipWriter::start_file` with the library's fixed options:
/// on success it finishes the entry in progress and begins an empty one
/// under the given name.  On a healthy in-memory writer the call succeeds
/// whenever the name is fresh and fits the header's 16-bit length field and
/// any entry in progress fits a plain size field: the crate refuses only a
/// duplicate name, an oversized name, or an oversized finished entry, and
/// the in-memory sink produces no input/output failures.
#[verifier::external_body]
pub(crate) fn zip_start_file(w: &mut ZipSink, name: &str) -> (r: Result<
    (),
    zip::result::ZipError,
>)
    ensures
        r is Ok ==> zip_written(*final(w)) == zip_written(*old(w)) + (match zip_open_entry(
            *old(w),
        ) {
            Some(e) => seq![e],
            None => Seq::<(Seq<char>, Seq<u8>)>::empty(),
        }),
        r is Ok ==> zip_open_entry(*final(w)) == Some((name@, Seq::<u8>::empty())),
        r is Ok ==> zip_sink_ok(*final(w)),
        (zip_sink_ok(*old(w)) && (forall|j: int|
            0 <= j < zip_written(*old(w)).len() ==> (#[trigger] zip_written(*old(w))[j]).0
                != name@) && (zip_open_entry(*old(w)) matches Some(e) ==> e.0 != name@
            && e.1.len() <= ZIP_PLAIN_SIZE_MAX) && vstd::utf8::encode_utf8(name@).len()
            <= ZIP_NAME_MAX) ==> r is Ok,
{
    w.inner.start_file(
        name,
        zip::write::SimpleFileOptions::default().compression_method(
            zip::CompressionMethod::Stored,
        ),
    )
}

/// Relies on the `std::io::Write` impl of `zip::ZipWriter` (`write_all`): on
/// success the bytes are appended to the entry in progress.  On a healthy
/// writer the call succeeds whenever an entry is in progress and its bytes
/// stay within a plain size field; writing with no entry in progress fails.
#[verifier::external_body]
pub(crate) fn zip_write_data(w: &mut ZipSink, data: &[u8]) -> (r: Result<(), std::io::Error>)
    ensures
        r is Ok ==> zip_open_entry(*old(w)) is Some,
        r is Ok ==> zip_written(*final(w)) == zip_written(*old(w)),
        r is Ok ==> zip_open_entry(*final(w)) == Some(
            (zip_open_entry(*old(w))->Some_0.0, zip_open_entry(*old(w))->Some_0.1 + data@),
        ),
        r is Ok ==> zip_sink_ok(*final(w)),
        (zip_sink_ok(*old(w)) && (zip_open_entry(*old(w)) matches Some(e) ==> e.1.len()
            + data@.len() <= ZIP_PLAIN_SIZE_MAX) && zip_open_entry(*old(w)) is Some) ==> r is Ok,
{
    std::io::Write::write_all(&mut w.inner, data)
}

/// Relies on `zip::ZipWriter::finish` and `std::io::Cursor::into_inner`: the
/// bytes of the finished archive, holding the finished entries plus the one
/// in progress.  On a healthy writer finishing succeeds whenever the entry
/// in progress, if any, fits a plain size field: the remaining work writes
/// headers and the central directory into the in-memory sink, which cannot
/// fail.
#[verifier::external_body]
pub(crate) fn zip_finish(w: ZipSink) -> (r: Result<Vec<u8>, zip::result::ZipError>)
    ensures
        (r matches Ok(bytes) ==> bytes@ == zip_bytes_of(zip_final_entries(w))),
        (zip_sink_ok(w) && (zip_open_entry(w) matches Some(e) ==> e.1.len()
            <= ZIP_PLAIN_SIZE_MAX)) ==> r is Ok,
{
    Ok(w.inner.finish()?.into_inner())
}

} // verus!
