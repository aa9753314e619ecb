//! The ways in which the pipeline can fail.
use vstd::prelude::*;

verus! {

/// A failure of one step of the pipeline, with the message of its cause.
#[derive(Debug, PartialEq, Eq)]
pub enum Error {
    /// The archive or one of its files cannot be opened.
    Open(String),
    /// An entry of the archive cannot be read.
    ArchiveRead(String),
    /// Neither database file name variant is in the archive.
    NoDatabaseFound,
    /// The configuration or model blobs are malformed, or name a missing model.
    Mapping(String),
    /// A read or write of the relational store failed.
    Query(String),
    /// A media file could not be copied into the working directory.
    Copy(String),
    /// Writing the new archive failed.
    Export(String),
}

} // verus!
