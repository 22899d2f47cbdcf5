//! In-memory zip archives, behind trusted wrappers around the `zip` crate.
//!
//! An archive is modelled as the sequence of its entries, each a name, a
//! file/directory flag, and the entry's bytes. Writing records entries in
//! order; `archive_decodes_to` names the relation between an archive's
//! bytes and the entries reading them yields, which ties a finished archive
//! to what a later open returns. All archive bytes stay in memory; putting
//! them on disk, or fetching them, happens outside the crate.

use vstd::prelude::*;

use crate::errors::Error;

verus! {

/// What one archive holds: (name, is-file, bytes) per entry, in order.
pub uninterp spec fn writer_entries(w: &ArchiveWriter) -> Seq<(Seq<char>, bool, Seq<u8>)>;

/// What one opened archive holds, in entry-index order.
pub uninterp spec fn reader_entries(r: &ArchiveReader) -> Seq<(Seq<char>, bool, Seq<u8>)>;

/// Whether reading the given archive bytes yields exactly these entries.
/// Reading is a deterministic function of the bytes, so at most one entry
/// sequence decodes from given bytes.
pub uninterp spec fn archive_decodes_to(
    bytes: Seq<u8>,
    entries: Seq<(Seq<char>, bool, Seq<u8>)>,
) -> bool;

/// Whether an opened archive's entries all read back successfully. The
/// writer establishes this for its own output; nothing is assumed of
/// archives from elsewhere.
pub uninterp spec fn reader_readable(r: &ArchiveReader) -> bool;

/// The name under which a directory entry is stored: a `/` is appended
/// unless the name already ends with a separator.
pub open spec fn dir_entry_name(name: Seq<char>) -> Seq<char> {
    if name.len() > 0 && (name.last() == '/' || name.last() == '\\') {
        name
    } else {
        name + seq!['/']
    }
}

/// The stored names of a sequence of entries.
pub open spec fn stored_names(es: Seq<(Seq<char>, bool, Seq<u8>)>) -> Seq<Seq<char>> {
    es.map_values(|e: (Seq<char>, bool, Seq<u8>)| e.0)
}

/// A stored name surely within the format's 16-bit name-length field, even
/// at four UTF-8 bytes per character.
pub open spec fn name_fits(name: Seq<char>) -> bool {
    name.len() <= 0x3fff
}

/// File bytes surely within the format's 32-bit size fields, with room
/// left for the worst-case deflate overhead on the compressed side.
pub open spec fn data_fits(data: Seq<u8>) -> bool {
    data.len() <= 0xf000_0000
}

/// Entries the writer can always build on: every name and every file's
/// bytes within the format's fields.
pub open spec fn entries_fit(es: Seq<(Seq<char>, bool, Seq<u8>)>) -> bool {
    forall|k: int|
        0 <= k < es.len() ==> name_fits((#[trigger] es[k]).0) && data_fits(es[k].2)
}

/// A zip archive being written into an in-memory buffer.
#[verifier::external_body]
pub struct ArchiveWriter {
    inner: zip::ZipWriter<std::io::Cursor<Vec<u8>>>,
}

impl ArchiveWriter {
    /// Relies on `zip::ZipWriter::new` over an in-memory buffer: a fresh
    /// archive holds no entries.
    #[verifier::external_body]
    pub(crate) fn new() -> (r: ArchiveWriter)
        ensures
            writer_entries(&r) == Seq::<(Seq<char>, bool, Seq<u8>)>::empty(),
    {
        ArchiveWriter { inner: zip::ZipWriter::new(std::io::Cursor::new(Vec::new())) }
    }

    /// Relies on `zip::ZipWriter::add_directory`: on success one directory
    /// entry is recorded, its stored name given a trailing separator when
    /// the name lacks one. Over an in-memory buffer the only refusals are a
    /// stored name already present, a name overflowing its 16-bit length
    /// field, or an earlier file outgrowing the 32-bit size fields; inside
    /// those bounds the call succeeds.
    #[verifier::external_body]
    pub(crate) fn add_directory(&mut self, name: &str) -> (r: Result<(), Error>)
        ensures
            r is Ok ==> writer_entries(final(self)) == writer_entries(old(self)).push(
                (dir_entry_name(name@), false, Seq::empty()),
            ),
            entries_fit(writer_entries(old(self))) && name_fits(dir_entry_name(name@))
                && !stored_names(writer_entries(old(self))).contains(dir_entry_name(name@))
                ==> r is Ok,
    {
        match self.inner.add_directory(name, zip::write::SimpleFileOptions::default()) {
            Ok(()) => Ok(()),
            Err(e) => Err(Error::IoError(format!("add directory to archive: {e}"))),
        }
    }

    /// Relies on `zip::ZipWriter::start_file`: on success one file entry is
    /// recorded under the given name, with no bytes yet. The format treats
    /// a separator-terminated name as a directory on reading, so such a
    /// name is excluded here. The refusals over an in-memory buffer are the
    /// same as for `add_directory`; inside those bounds the call succeeds.
    #[verifier::external_body]
    pub(crate) fn start_file(&mut self, name: &str) -> (r: Result<(), Error>)
        requires
            name@.len() > 0 ==> name@.last() != '/' && name@.last() != '\\',
        ensures
            r is Ok ==> writer_entries(final(self)) == writer_entries(old(self)).push(
                (name@, true, Seq::empty()),
            ),
            entries_fit(writer_entries(old(self))) && name_fits(name@) && !stored_names(
                writer_entries(old(self)),
            ).contains(name@) ==> r is Ok,
    {
        match self.inner.start_file(name, zip::write::SimpleFileOptions::default()) {
            Ok(()) => Ok(()),
            Err(e) => Err(Error::IoError(format!("start archive file: {e}"))),
        }
    }

    /// Relies on the `std::io::Write` impl of `zip::ZipWriter` through
    /// std's `write_all`: writing nothing is a no-op that always succeeds;
    /// writing bytes succeeds only onto the file entry most recently
    /// started, appending them to it, and is refused once the file would
    /// outgrow the format's 32-bit size field — within that bound, onto a
    /// started file, it succeeds.
    #[verifier::external_body]
    pub(crate) fn write_data(&mut self, data: &[u8]) -> (r: Result<(), Error>)
        ensures
            data@.len() == 0 ==> r is Ok && writer_entries(final(self)) == writer_entries(
                old(self),
            ),
            data@.len() > 0 && r is Ok ==> writer_entries(old(self)).len() > 0 && writer_entries(
                old(self),
            ).last().1 && writer_entries(final(self)) == writer_entries(old(self)).update(
                writer_entries(old(self)).len() - 1,
                (
                    writer_entries(old(self)).last().0,
                    true,
                    writer_entries(old(self)).last().2 + data@,
                ),
            ),
            data@.len() > 0 && writer_entries(old(self)).len() > 0 && writer_entries(
                old(self),
            ).last().1 && data_fits(writer_entries(old(self)).last().2 + data@) ==> r is Ok,
    {
        match std::io::Write::write_all(&mut self.inner, data) {
            Ok(()) => Ok(()),
            Err(e) => Err(Error::IoError(format!("write archive data: {e}"))),
        }
    }

    /// Relies on `zip::ZipWriter::finish`: the bytes of the completed
    /// archive, which read back as exactly the recorded entries, every one
    /// of them successfully. Over an in-memory buffer, finalization of
    /// entries within the format's fields cannot fail.
    #[verifier::external_body]
    pub(crate) fn finish(self) -> (r: Result<Vec<u8>, Error>)
        ensures
            r is Ok ==> archive_decodes_to(r->Ok_0@, writer_entries(&self)),
            entries_fit(writer_entries(&self)) ==> r is Ok,
    {
        match self.inner.finish() {
            Ok(cursor) => Ok(cursor.into_inner()),
            Err(e) => Err(Error::IoError(format!("finish archive: {e}"))),
        }
    }
}

/// A zip archive opened from in-memory bytes.
#[verifier::external_body]
pub struct ArchiveReader {
    inner: zip::ZipArchive<std::io::Cursor<Vec<u8>>>,
}

impl ArchiveReader {
    /// Relies on `zip::ZipArchive::new`: parsing the archive directory is a
    /// deterministic function of the bytes, so bytes known to decode to an
    /// entry sequence open successfully and yield exactly those entries —
    /// and, the bytes being the writer's own output, every entry reads
    /// back.
    #[verifier::external_body]
    pub(crate) fn open(bytes: Vec<u8>) -> (r: Result<ArchiveReader, Error>)
        ensures
            forall|es: Seq<(Seq<char>, bool, Seq<u8>)>|
                archive_decodes_to(bytes@, es) ==> r is Ok && reader_entries(&r->Ok_0) == es
                    && reader_readable(&r->Ok_0),
    {
        match zip::ZipArchive::new(std::io::Cursor::new(bytes)) {
            Ok(inner) => Ok(ArchiveReader { inner }),
            Err(e) => Err(Error::IoError(format!("open archive: {e}"))),
        }
    }

    /// Relies on `zip::ZipArchive::len`: how many entries the archive holds.
    #[verifier::external_body]
    pub(crate) fn len(&self) -> (r: usize)
        ensures
            r == reader_entries(self).len(),
    {
        self.inner.len()
    }

    /// Relies on `zip::ZipArchive::by_index` and `std::io::Read`: the
    /// indexed entry's stored name, file flag and bytes; the archive's
    /// entries are unchanged by reading, and an archive whose entries all
    /// read back yields this one without failure.
    #[verifier::external_body]
    pub(crate) fn read_entry(&mut self, i: usize) -> (r: Result<(String, bool, Vec<u8>), Error>)
        requires
            i < reader_entries(old(self)).len(),
        ensures
            reader_entries(final(self)) == reader_entries(old(self)),
            reader_readable(final(self)) == reader_readable(old(self)),
            r is Ok ==> (r->Ok_0.0@, r->Ok_0.1, r->Ok_0.2@) == reader_entries(old(self))[
                i as int
            ],
            reader_readable(old(self)) ==> r is Ok,
    {
        let mut entry = match self.inner.by_index(i) {
            Ok(entry) => entry,
            Err(e) => {
                return Err(Error::IoError(format!("read archive entry: {e}")));
            },
        };
        let name = entry.name().to_owned();
        let is_file = entry.is_file();
        let mut data = Vec::new();
        if let Err(e) = std::io::Read::read_to_end(&mut entry, &mut data) {
            return Err(Error::IoError(format!("read archive entry bytes: {e}")));
        }
        Ok((name, is_file, data))
    }
}

/// The views of a sequence of owned entries.
pub open spec fn entry_views(v: Seq<(String, bool, Vec<u8>)>) -> Seq<(Seq<char>, bool, Seq<u8>)> {
    v.map_values(|e: (String, bool, Vec<u8>)| (e.0@, e.1, e.2@))
}

/// Every entry of an archive, read out in order. On success the result is
/// exactly what the bytes decode to.
pub fn read_archive_entries(bytes: Vec<u8>) -> (r: Result<Vec<(String, bool, Vec<u8>)>, Error>)
    ensures
        r is Ok ==> forall|es: Seq<(Seq<char>, bool, Seq<u8>)>|
            archive_decodes_to(bytes@, es) ==> entry_views(r->Ok_0@) == es,
        (exists|es: Seq<(Seq<char>, bool, Seq<u8>)>| archive_decodes_to(bytes@, es)) ==> r is Ok,
{
    let ghost bv = bytes@;
    let ghost decodable = exists|es: Seq<(Seq<char>, bool, Seq<u8>)>| archive_decodes_to(bv, es);
    let mut reader = match ArchiveReader::open(bytes) {
        Ok(a) => a,
        Err(e) => {
            proof {
                if decodable {
                    let es = choose|es: Seq<(Seq<char>, bool, Seq<u8>)>|
                        archive_decodes_to(bv, es);
                    assert(archive_decodes_to(bv, es));
                }
            }
            return Err(e);
        },
    };
    let n = reader.len();
    let mut out: Vec<(String, bool, Vec<u8>)> = Vec::new();
    let mut i: usize = 0;
    proof {
        assert(reader_entries(&reader).subrange(0, 0) =~= Seq::<(Seq<char>, bool, Seq<u8>)>::empty());
        if decodable {
            let es = choose|es: Seq<(Seq<char>, bool, Seq<u8>)>| archive_decodes_to(bv, es);
            assert(archive_decodes_to(bv, es));
        }
    }
    while i < n
        invariant
            bv == bytes@,
            n == reader_entries(&reader).len(),
            forall|es: Seq<(Seq<char>, bool, Seq<u8>)>|
                archive_decodes_to(bv, es) ==> reader_entries(&reader) == es,
            decodable == exists|es: Seq<(Seq<char>, bool, Seq<u8>)>| archive_decodes_to(bv, es),
            decodable ==> reader_readable(&reader),
            i <= n,
            out@.len() == i,
            entry_views(out@) =~= reader_entries(&reader).subrange(0, i as int),
        decreases n - i,
    {
        let entry = match reader.read_entry(i) {
            Ok(e) => e,
            Err(e) => {
                proof {
                    assert(!decodable);
                }
                return Err(e);
            },
        };
        out.push(entry);
        proof {
            assert(entry_views(out@) =~= reader_entries(&reader).subrange(0, i + 1 as int));
        }
        i += 1;
    }
    proof {
        assert(reader_entries(&reader).subrange(0, n as int) =~= reader_entries(&reader));
    }
    Ok(out)
}

} // verus!
