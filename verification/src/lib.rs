//! A single-stream archive: an ordered index of files followed by their
//! concatenated bytes, the whole compressed with zstd.
//!
//! The decompressed stream is one line of text, the index, then a newline,
//! then the bytes of every file in the order of the index, with nothing
//! between them. Where one file ends and the next begins is known from the
//! sizes in the index alone.
//!
//! - [`entry`]: descriptors and the index they form.
//! - [`index`]: the index as its line of text.
//! - [`writer`]: packing files into an archive.
//! - [`reader`]: loading the index and extracting the files, front to back.
//! - [`laws`]: what holds of writers and readers together.
//! - [`inspect`]: a look into extracted bytes, apart from the archive.
//! - [`json`], [`codec`]: the calls into `serde_json` and `zstd`.
//! - [`bytes`], [`error`]: helpers and error types.

use vstd::prelude::*;

pub use entry::FileEntry;
pub use error::{ReadError, WriteError};
pub use reader::{ReaderState, ZstdReader};
pub use writer::{pack, ArchiveWriter};

pub mod bytes;
pub mod codec;
pub mod entry;
pub mod error;
pub mod index;
pub mod inspect;
pub mod json;
pub mod laws;
pub mod reader;
pub mod writer;

verus! {

/// Adds two byte counts.
pub fn add(left: u64, right: u64) -> (sum: u64)
    requires
        left + right <= u64::MAX,
    ensures
        sum == left + right,
{
    left + right
}

} // verus!
