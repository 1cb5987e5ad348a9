//! What can go wrong when an archive is read or written.

use vstd::prelude::*;

verus! {

/// Why a reader refused an operation.
#[derive(Debug, Clone, Copy, PartialEq, Eq, Structural)]
pub enum ReadError {
    /// The bytes handed to the reader are no zstd stream.
    InvalidStream,
    /// The stream ends before the newline that closes the index.
    TruncatedHeader,
    /// The line before the first newline is no index.
    MalformedIndex,
    /// The index has no descriptor with the path asked for.
    NotFound,
    /// The path asked for is in the index, but it is not the file at the
    /// cursor.
    OutOfOrderAccess,
    /// The stream ends before the bytes that the index announces.
    TruncatedPayload,
    /// An earlier operation failed on the stream itself.
    Faulted,
}

/// Why a writer refused an operation.
#[derive(Debug, Clone, Copy, PartialEq, Eq, Structural)]
pub enum WriteError {
    /// Two files of the listing share a path.
    DuplicatePath,
    /// The index could not be written as one line that reads back as itself.
    IndexEncoding,
    /// A file's bytes are not as many as the listing announced.
    SourceFileChanged,
    /// More files were handed over than the listing holds.
    UnexpectedFile,
    /// Fewer files were handed over than the listing holds.
    MissingFiles,
    /// zstd refused to compress the stream.
    Compression,
    /// The compressed bytes do not decompress to the stream.
    Verification,
    /// An earlier operation of this writer failed.
    Aborted,
}

} // verus!
