//! Trusted boundary to the `zip` crate: an in-memory archive writer and
//! reader, each modelled as a sequence of `(name, bytes)` pairs. Directory
//! entries appear as a name with a trailing slash and empty bytes.
//!
//! Everything here is believed, not proved; each item's doc comment names the
//! outside function it relies on.

use vstd::prelude::*;

use crate::TransferError;

verus! {

/// The entries encoded in an archive byte string, in archive order.
/// Unspecified for bytes that are not a well-formed archive.
pub uninterp spec fn zip_entries(bytes: Seq<u8>) -> Seq<(Seq<char>, Seq<u8>)>;

/// The byte string is a well-formed archive: its directory parses and every
/// entry decompresses.
pub uninterp spec fn zip_well_formed(bytes: Seq<u8>) -> bool;

/// An archive writer over an in-memory buffer.
#[verifier::external_body]
pub struct ZipBuilder {
    inner: zip::ZipWriter<std::io::Cursor<Vec<u8>>>,
}

/// The entries written into the builder so far, in order.
pub uninterp spec fn builder_entries(b: ZipBuilder) -> Seq<(Seq<char>, Seq<u8>)>;

/// The names already written into the builder, in order.
pub open spec fn builder_names(b: ZipBuilder) -> Seq<Seq<char>> {
    builder_entries(b).map_values(|e: (Seq<char>, Seq<u8>)| e.0)
}

/// An archive reader over an in-memory buffer.
#[verifier::external_body]
pub struct ZipReader {
    inner: zip::ZipArchive<std::io::Cursor<Vec<u8>>>,
}

/// The entries of the archive the reader was opened on, in archive order.
pub uninterp spec fn reader_entries(r: ZipReader) -> Seq<(Seq<char>, Seq<u8>)>;

/// Every entry of the reader decompresses without error.
pub uninterp spec fn reader_sound(r: ZipReader) -> bool;

impl ZipBuilder {
    /// Relies on `zip::ZipWriter::new` over an in-memory cursor: a fresh
    /// writer holds no entries.
    #[verifier::external_body]
    pub(crate) fn new() -> (r: ZipBuilder)
        ensures
            builder_entries(r) == Seq::<(Seq<char>, Seq<u8>)>::empty(),
    {
        ZipBuilder { inner: zip::ZipWriter::new(std::io::Cursor::new(Vec::new())) }
    }

    /// Relies on `zip::ZipWriter::start_file` and `std::io::Write::write_all`:
    /// on success the archive gains one entry holding the given name and
    /// exactly the given bytes (deflate-compressed, mode 0o755). Over an
    /// in-memory buffer, and within the two size bounds, the only failure the
    /// crate's source leaves is a duplicate name. The name bound keeps the
    /// name's byte length inside the format's 16-bit field, which the crate
    /// enforces with a panic; the data bound keeps the entry — its compressed
    /// size included, which worst-case deflate expansion stays inside the
    /// bound's headroom — within the format's 32-bit size fields, past which
    /// the crate aborts the entry (on the write, or when the entry's header
    /// is patched during the next call or at finish) since this writer does
    /// not enable the large-file extension.
    #[verifier::external_body]
    pub(crate) fn add_file(&mut self, name: &str, data: &Vec<u8>) -> (r: Result<(), TransferError>)
        requires
            name@.len() <= crate::entry::MAX_ENTRY_NAME_CHARS,
            data@.len() <= crate::entry::MAX_ENTRY_DATA_BYTES,
        ensures
            (r is Ok) == !builder_names(*old(self)).contains(name@),
            r is Ok ==> builder_entries(*final(self)) == builder_entries(*old(self)).push(
                (name@, data@),
            ),
            r matches Err(e) ==> e is ArchiveWrite,
    {
        let opts = zip::write::SimpleFileOptions::default().compression_method(
            zip::CompressionMethod::Deflated,
        ).unix_permissions(0o755);
        if self.inner.start_file(name, opts).is_err() {
            return Err(TransferError::ArchiveWrite);
        }
        match std::io::Write::write_all(&mut self.inner, data.as_slice()) {
            Ok(()) => Ok(()),
            Err(_) => Err(TransferError::ArchiveWrite),
        }
    }

    /// Relies on `zip::ZipWriter::add_directory`: on success the archive gains
    /// one directory entry, stored under the given name with a slash appended
    /// (the crate appends it whenever the name ends in neither slash kind)
    /// and with no data. Over an in-memory buffer the only failure the
    /// crate's source leaves is a duplicate stored name. The length bound
    /// keeps the name's byte length, slash included, inside the format's
    /// 16-bit field, which the crate enforces with a panic.
    #[verifier::external_body]
    pub(crate) fn add_directory(&mut self, name: &str) -> (r: Result<(), TransferError>)
        requires
            name@.len() > 0,
            name@.len() <= crate::entry::MAX_ENTRY_NAME_CHARS,
            name@[name@.len() - 1] != '/',
            name@[name@.len() - 1] != '\\',
        ensures
            (r is Ok) == !builder_names(*old(self)).contains(name@ + seq!['/']),
            r is Ok ==> builder_entries(*final(self)) == builder_entries(*old(self)).push(
                (name@ + seq!['/'], Seq::<u8>::empty()),
            ),
            r matches Err(e) ==> e is ArchiveWrite,
    {
        let opts = zip::write::SimpleFileOptions::default().unix_permissions(0o755);
        match self.inner.add_directory(name, opts) {
            Ok(()) => Ok(()),
            Err(_) => Err(TransferError::ArchiveWrite),
        }
    }

    /// Relies on `zip::ZipWriter::finish` together with `zip::ZipArchive`'s
    /// reading side: a finished buffer is a well-formed archive that parses
    /// back to exactly the entries that were written, in order. Finishing
    /// patches the last entry's header — within the sizes the other wrappers
    /// admit, compressed output included, that stays inside the format's
    /// 32-bit fields — and then writes the archive directory to the
    /// in-memory buffer, which cannot fail.
    #[verifier::external_body]
    pub(crate) fn finish(self) -> (r: Result<Vec<u8>, TransferError>)
        ensures
            r is Ok,
            r matches Ok(bytes) ==> zip_well_formed(bytes@) && zip_entries(bytes@)
                == builder_entries(self),
    {
        match self.inner.finish() {
            Ok(cursor) => Ok(cursor.into_inner()),
            Err(_) => Err(TransferError::ArchiveWrite),
        }
    }
}

impl ZipReader {
    /// Relies on `zip::ZipArchive::new`: opening a well-formed archive
    /// succeeds and exposes its entries.
    #[verifier::external_body]
    pub(crate) fn new(bytes: Vec<u8>) -> (r: Result<ZipReader, TransferError>)
        ensures
            zip_well_formed(bytes@) ==> r is Ok,
            r matches Ok(reader) ==> reader_entries(reader) == zip_entries(bytes@) && (
            zip_well_formed(bytes@) ==> reader_sound(reader)),
            r matches Err(e) ==> e is ArchiveRead,
    {
        match zip::ZipArchive::new(std::io::Cursor::new(bytes)) {
            Ok(inner) => Ok(ZipReader { inner }),
            Err(_) => Err(TransferError::ArchiveRead),
        }
    }

    /// Relies on `zip::ZipArchive::len`: the number of entries.
    #[verifier::external_body]
    pub(crate) fn len(&self) -> (r: usize)
        ensures
            r == reader_entries(*self).len(),
    {
        self.inner.len()
    }

    /// Relies on `zip::ZipArchive::by_index` and `std::io::Read::read_to_end`:
    /// the name and decompressed bytes of one entry; a directory entry reads
    /// back as empty bytes. Fails only when the entry's data is corrupt,
    /// which a well-formed archive rules out.
    #[verifier::external_body]
    pub(crate) fn entry_at(&mut self, i: usize) -> (r: Result<(String, Vec<u8>), TransferError>)
        requires
            i < reader_entries(*old(self)).len(),
        ensures
            reader_entries(*final(self)) == reader_entries(*old(self)),
            reader_sound(*final(self)) == reader_sound(*old(self)),
            reader_sound(*old(self)) ==> r is Ok,
            r matches Ok(e) ==> (e.0@, e.1@) == reader_entries(*old(self))[i as int],
            r matches Err(e) ==> e is ArchiveRead,
    {
        let mut file = match self.inner.by_index(i) {
            Ok(f) => f,
            Err(_) => return Err(TransferError::ArchiveRead),
        };
        let name = file.name().to_string();
        let mut data = Vec::new();
        match std::io::Read::read_to_end(&mut file, &mut data) {
            Ok(_) => Ok((name, data)),
            Err(_) => Err(TransferError::ArchiveRead),
        }
    }
}

} // verus!
