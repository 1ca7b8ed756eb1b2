//! Packs a directory tree into a compressed archive, uploads it as one
//! multipart request, and streams a remote archive back down with progress
//! reporting and traversal-safe extraction.
//!
//! The archive encoding itself, percent-encoding, and JSON field lookup are
//! done by outside crates behind small trusted wrappers; everything that
//! decides (entry-name safety, progress cadence, response interpretation)
//! is verified.

use vstd::prelude::*;

pub mod archive;
pub mod entry;
pub mod progress;
pub mod text_io;
pub mod upload;
pub mod zip_io;

verus! {

/// One failure value per kind of fault the transfer pipeline can hit.
#[derive(Debug)]
pub enum TransferError {
    /// The remote endpoint answered with a non-success HTTP status;
    /// the response body is kept for diagnostics.
    HttpStatus { status: u16, body: String },
    /// A success status arrived but the body was not a well-formed
    /// upload response; the raw body is kept for diagnostics.
    InvalidResponse { body: String },
    /// A well-formed upload response carried neither URL field.
    MissingUrl,
    /// The archive writer rejected an entry or could not finish.
    ArchiveWrite,
    /// The downloaded bytes do not parse as an archive.
    ArchiveRead,
}

} // verus!
