//! Trusted boundary to the `zip` crate: an in-memory archive writer whose
//! entries are modelled as a sequence of (name, payload, stored-uncompressed)
//! triples. All archive-structure decisions are made by verified callers;
//! only the encoding into zip bytes is delegated.

use std::io::Cursor;
use std::io::Write;
use vstd::prelude::*;

verus! {

#[verifier::external_type_specification]
#[verifier::external_body]
pub struct ExZipError(zip::result::ZipError);

/// An in-memory zip archive being written. The `zip` writer itself carries
/// trait bounds Verus does not take, so it is held opaquely here.
#[verifier::external_body]
pub struct ArchiveWriter {
    inner: zip::ZipWriter<Cursor<Vec<u8>>>,
}

/// The entries written to the archive so far, in order: entry name, payload
/// bytes, and whether the entry is stored uncompressed.
pub uninterp spec fn written_entries(w: ArchiveWriter) -> Seq<(Seq<char>, Seq<u8>, bool)>;

/// The bytes of the finished archive, as a function of the entries written:
/// with a fixed timestamp, a fixed system field and a fixed compression
/// choice per entry, the zip encoding depends on the entries alone.
pub uninterp spec fn zip_bytes(entries: Seq<(Seq<char>, Seq<u8>, bool)>) -> Seq<u8>;

/// Whether the writer accepts one more entry, as a function of the entries
/// already written and the entry itself. On an in-memory buffer this is
/// deterministic: the name must not repeat an earlier one and must fit the
/// format's name-length field, the payload must stay under the format's
/// plain-size limit, and — because a deflated entry's compressed size is
/// checked only when the next entry begins — the previous entry's encoding
/// must have fit as well.
pub uninterp spec fn entry_fits(
    prior: Seq<(Seq<char>, Seq<u8>, bool)>,
    name: Seq<char>,
    data: Seq<u8>,
    stored: bool,
) -> bool;

/// Whether the writer can be finished, as a function of the entries
/// written: on an in-memory buffer only the closing size check of the last
/// entry's encoding can still fail.
pub uninterp spec fn archive_fits(entries: Seq<(Seq<char>, Seq<u8>, bool)>) -> bool;

/// Relies on `zip::ZipWriter::new`: a writer over a fresh in-memory buffer
/// holds no entries.
#[verifier::external_body]
pub(crate) fn new_writer() -> (w: ArchiveWriter)
    ensures
        written_entries(w) == Seq::<(Seq<char>, Seq<u8>, bool)>::empty(),
{
    ArchiveWriter { inner: zip::ZipWriter::new(Cursor::new(Vec::new())) }
}

/// Relies on `zip::ZipWriter::start_file` and `std::io::Write::write_all` on
/// the writer: on success, exactly one entry with the given name, the given
/// payload, and the requested compression method (store or the default
/// deflate) is appended. Writing to an in-memory buffer, the pair of calls
/// succeeds or fails deterministically in the entries written so far and
/// the entry handed over — `start_file` rejects a name already present or
/// too long for the format, and the size checks bound the payload — which
/// `entry_fits` names.
#[verifier::external_body]
pub(crate) fn add_entry(w: &mut ArchiveWriter, name: &str, data: &[u8], stored: bool) -> (r: Result<
    (),
    zip::result::ZipError,
>)
    ensures
        r is Ok <==> entry_fits(written_entries(*old(w)), name@, data@, stored),
        r is Ok ==> written_entries(*final(w)) == written_entries(*old(w)).push(
            (name@, data@, stored),
        ),
{
    let method = if stored {
        zip::CompressionMethod::Stored
    } else {
        zip::CompressionMethod::Deflated
    };
    let options = zip::write::SimpleFileOptions::default().compression_method(method).system(
        zip::System::Unix,
    );
    w.inner.start_file(name, options)?;
    w.inner.write_all(data).map_err(zip::result::ZipError::Io)
}

/// Relies on `zip::ZipWriter::finish` and `std::io::Cursor::into_inner`: on
/// success the returned buffer holds the finished archive, whose bytes are a
/// function of the entries written. Writing to an in-memory buffer, finish
/// succeeds or fails deterministically in the entries written, which
/// `archive_fits` names.
#[verifier::external_body]
pub(crate) fn finish_writer(w: ArchiveWriter) -> (r: Result<Vec<u8>, zip::result::ZipError>)
    ensures
        r is Ok <==> archive_fits(written_entries(w)),
        r is Ok ==> r->Ok_0@ == zip_bytes(written_entries(w)),
{
    w.inner.finish().map(|c| c.into_inner())
}

} // verus!
