//! Writing an archive: the index line, then every file in the order of the
//! index, the whole compressed as one zstd frame.
//!
//! A writer is handed the listing first, so that the index can head the
//! stream, and then the bytes of each file in turn. The order of the listing
//! is the order of the archive. A listing that names a path twice is
//! refused; a file may be empty; a path is any string. A file whose length is
//! not the one that the listing announced aborts the writer: an archive
//! whose payload does not match its index cannot be read. `finish`
//! compresses the stream and decompresses the result once, so that what it
//! hands out is known to read back as the stream.

use crate::bytes::same_bytes;
use crate::codec::{compress, decompress, zstd_decoded, zstd_encoded, COMPRESSION_LEVEL};
use crate::entry::{paths_unique, prefix_size, unique_paths, FileEntry, FileEntryView};
use crate::error::WriteError;
use crate::index::{encode_index, encoded_index, NEWLINE};
use vstd::prelude::*;

verus! {

/// What a writer stands for in contracts.
pub struct WriterView {
    /// The listing that the archive is written for.
    pub index: Seq<FileEntryView>,
    /// How many files are written.
    pub done: int,
    /// Where the payload starts in the stream: behind the index line and
    /// its newline.
    pub start: int,
    /// The stream so far: index line, newline, and the files that are
    /// written.
    pub stream: Seq<u8>,
    /// Whether an operation failed.
    pub aborted: bool,
}

/// The archive that is made of a finished stream: its compressed form,
/// provided that it decompresses to the stream again.
pub open spec fn sealed(stream: Seq<u8>) -> Result<Seq<u8>, WriteError> {
    match zstd_encoded(stream, COMPRESSION_LEVEL) {
        None => Err(WriteError::Compression),
        Some(archive) => if zstd_decoded(archive) == Some(stream) {
            Ok(archive)
        } else {
            Err(WriteError::Verification)
        },
    }
}

impl WriterView {
    /// The writer that is made for `index`, its line written.
    /// `DuplicatePath` where a path occurs twice; `IndexEncoding` where the
    /// index has no line.
    pub open spec fn begin(index: Seq<FileEntryView>) -> Result<WriterView, WriteError> {
        if !unique_paths(index) {
            Err(WriteError::DuplicatePath)
        } else {
            match encoded_index(index) {
                None => Err(WriteError::IndexEncoding),
                Some(line) => Ok(
                    WriterView {
                        index,
                        done: 0,
                        start: (line.len() + 1) as int,
                        stream: line.push(NEWLINE),
                        aborted: false,
                    },
                ),
            }
        }
    }

    /// No more files are written than the listing holds; the stream starts
    /// with the line of the index and a newline; and behind them it holds
    /// exactly as many bytes as the listing announces for the files that are
    /// written.
    pub open spec fn wf(self) -> bool {
        &&& 0 <= self.done <= self.index.len()
        &&& unique_paths(self.index)
        &&& encoded_index(self.index) matches Some(line)
        &&& self.start == line.len() + 1
        &&& self.start <= self.stream.len()
        &&& self.stream.take(self.start) == line.push(NEWLINE)
        &&& self.stream.len() == self.start + prefix_size(self.index, self.done)
    }

    /// This writer after a failure.
    pub open spec fn abort(self) -> WriterView {
        WriterView { aborted: true, ..self }
    }

    /// Writing the next file: the writer afterwards, and whether it took the
    /// bytes.
    ///
    /// An aborted writer stays as it is. A file beyond the listing is
    /// `UnexpectedFile`; one whose length is not the announced size is
    /// `SourceFileChanged`. Both abort the writer. Otherwise the bytes are
    /// appended to the stream.
    pub open spec fn write(self, data: Seq<u8>) -> (WriterView, Result<(), WriteError>) {
        if self.aborted {
            (self, Err(WriteError::Aborted))
        } else if self.done >= self.index.len() {
            (self.abort(), Err(WriteError::UnexpectedFile))
        } else if data.len() != self.index[self.done].size {
            (self.abort(), Err(WriteError::SourceFileChanged))
        } else {
            (WriterView { done: self.done + 1, stream: self.stream + data, ..self }, Ok(()))
        }
    }

    /// Finishing: the archive, or why there is none. `Aborted` after a
    /// failure, `MissingFiles` before the last file is written, otherwise
    /// what `sealed` makes of the stream.
    pub open spec fn finish(self) -> Result<Seq<u8>, WriteError> {
        if self.aborted {
            Err(WriteError::Aborted)
        } else if self.done < self.index.len() {
            Err(WriteError::MissingFiles)
        } else {
            sealed(self.stream)
        }
    }
}

/// The listing of some files: each path with the length of its bytes.
pub open spec fn listing(files: Seq<(Seq<char>, Seq<u8>)>) -> Seq<FileEntryView> {
    Seq::new(
        files.len(),
        |i: int| FileEntryView { path: files[i].0, size: files[i].1.len() as u64 },
    )
}

/// The bytes of the first `k` files, one after the other.
pub open spec fn payload(files: Seq<(Seq<char>, Seq<u8>)>, k: int) -> Seq<u8>
    decreases k,
{
    if k <= 0 || k > files.len() {
        Seq::empty()
    } else {
        payload(files, k - 1) + files[k - 1].1
    }
}

/// The archive that `pack` makes of some files.
pub open spec fn packed(files: Seq<(Seq<char>, Seq<u8>)>) -> Result<Seq<u8>, WriteError> {
    if !unique_paths(listing(files)) {
        Err(WriteError::DuplicatePath)
    } else {
        match encoded_index(listing(files)) {
            None => Err(WriteError::IndexEncoding),
            Some(line) => sealed(line.push(NEWLINE) + payload(files, files.len() as int)),
        }
    }
}

/// A writer of one archive.
pub struct ArchiveWriter {
    index: Vec<FileEntry>,
    done: usize,
    start: usize,
    stream: Vec<u8>,
    aborted: bool,
}

impl View for ArchiveWriter {
    type V = WriterView;

    closed spec fn view(&self) -> WriterView {
        WriterView {
            index: self.index.deep_view(),
            done: self.done as int,
            start: self.start as int,
            stream: self.stream@,
            aborted: self.aborted,
        }
    }
}

/// Compresses a finished stream and checks that it reads back.
pub fn seal(stream: &[u8]) -> (r: Result<Vec<u8>, WriteError>)
    ensures
        match r {
            Ok(archive) => sealed(stream@) == Ok::<Seq<u8>, WriteError>(archive@),
            Err(e) => sealed(stream@) == Err::<Seq<u8>, WriteError>(e),
        },
{
    let archive = match compress(stream, COMPRESSION_LEVEL) {
        Ok(archive) => archive,
        Err(_) => {
            return Err(WriteError::Compression);
        },
    };
    match decompress(archive.as_slice()) {
        Ok(back) => {
            if same_bytes(back.as_slice(), stream) {
                Ok(archive)
            } else {
                Err(WriteError::Verification)
            }
        },
        Err(_) => Err(WriteError::Verification),
    }
}

impl ArchiveWriter {
    /// Whether this writer is in order; every writer that this module hands
    /// out is.
    pub open spec fn wf(&self) -> bool {
        self@.wf()
    }

    /// Makes a writer for a listing and writes the index line.
    ///
    /// The result is that of `WriterView::begin`.
    pub fn new(index: Vec<FileEntry>) -> (r: Result<ArchiveWriter, WriteError>)
        ensures
            match r {
                Ok(w) => w.wf() && WriterView::begin(index.deep_view()) == Ok::<
                    WriterView,
                    WriteError,
                >(w@),
                Err(e) => WriterView::begin(index.deep_view()) == Err::<WriterView, WriteError>(e),
            },
            (r matches Err(e) && e == WriteError::DuplicatePath) <==> !unique_paths(
                index.deep_view(),
            ),
    {
        if !paths_unique(&index) {
            return Err(WriteError::DuplicatePath);
        }
        let mut stream = match encode_index(&index) {
            Ok(line) => line,
            Err(_) => {
                return Err(WriteError::IndexEncoding);
            },
        };
        stream.push(NEWLINE);
        let start = stream.len();
        assert(stream@.take(start as int) =~= stream@);
        Ok(ArchiveWriter { index, done: 0, start, stream, aborted: false })
    }

    /// How many files the listing holds.
    pub fn file_count(&self) -> (n: usize)
        ensures
            n == self@.index.len(),
    {
        self.index.len()
    }

    /// How many files are written.
    pub fn files_written(&self) -> (n: usize)
        ensures
            n == self@.done,
    {
        self.done
    }

    /// Writes the bytes of the next file of the listing.
    ///
    /// The writer afterwards and the result are those of
    /// `WriterView::write`.
    pub fn write_file(&mut self, data: &[u8]) -> (r: Result<(), WriteError>)
        requires
            old(self).wf(),
        ensures
            final(self).wf(),
            final(self)@ == old(self)@.write(data@).0,
            r == old(self)@.write(data@).1,
    {
        if self.aborted {
            return Err(WriteError::Aborted);
        }
        if self.done >= self.index.len() {
            self.aborted = true;
            return Err(WriteError::UnexpectedFile);
        }
        assert(self@.index[self.done as int] == self.index[self.done as int]@);
        if data.len() as u64 != self.index[self.done].size {
            self.aborted = true;
            return Err(WriteError::SourceFileChanged);
        }
        self.stream.extend_from_slice(data);
        self.done = self.done + 1;
        assert(self@.stream == old(self)@.stream + data@);
        assert(self@.stream.take(self@.start) =~= old(self)@.stream.take(self@.start));
        Ok(())
    }

    /// Compresses the stream and hands the archive out.
    ///
    /// The result is that of `WriterView::finish`.
    pub fn finish(self) -> (r: Result<Vec<u8>, WriteError>)
        requires
            self.wf(),
        ensures
            match r {
                Ok(archive) => self@.finish() == Ok::<Seq<u8>, WriteError>(archive@),
                Err(e) => self@.finish() == Err::<Seq<u8>, WriteError>(e),
            },
    {
        if self.aborted {
            return Err(WriteError::Aborted);
        }
        if self.done < self.index.len() {
            return Err(WriteError::MissingFiles);
        }
        seal(self.stream.as_slice())
    }
}

/// Packs files, each given as its path and its bytes, into one archive, in
/// the order given.
///
/// Fails with `DuplicatePath` where two files share a path, and otherwise
/// as writing the index and sealing the stream do.
pub fn pack(files: &Vec<(String, Vec<u8>)>) -> (r: Result<Vec<u8>, WriteError>)
    ensures
        match r {
            Ok(archive) => packed(files.deep_view()) == Ok::<Seq<u8>, WriteError>(archive@),
            Err(e) => packed(files.deep_view()) == Err::<Seq<u8>, WriteError>(e),
        },
        (r matches Err(e) && e == WriteError::DuplicatePath) <==> !unique_paths(
            listing(files.deep_view()),
        ),
{
    let ghost view = files.deep_view();
    let mut index: Vec<FileEntry> = Vec::new();
    let mut i: usize = 0;
    while i < files.len()
        invariant
            i <= files.len(),
            index.len() == i,
            view == files.deep_view(),
            forall|j: int| 0 <= j < i ==> #[trigger] index[j]@ == listing(view)[j],
        decreases files.len() - i,
    {
        assert(view[i as int].1 =~= files[i as int].1@);
        index.push(FileEntry { path: files[i].0.clone(), size: files[i].1.len() as u64 });
        i += 1;
    }
    assert(index.deep_view() =~= listing(view));
    let mut writer = match ArchiveWriter::new(index) {
        Ok(writer) => writer,
        Err(e) => {
            return Err(e);
        },
    };
    let ghost head = writer@.stream;
    let mut k: usize = 0;
    while k < files.len()
        invariant
            k <= files.len(),
            view == files.deep_view(),
            writer.wf(),
            writer@.index == listing(view),
            writer@.done == k,
            !writer@.aborted,
            writer@.stream == head + payload(view, k as int),
        decreases files.len() - k,
    {
        assert(view[k as int].1 =~= files[k as int].1@);
        let data = files[k].1.as_slice();
        assert(listing(view)[k as int].size == data.len());
        match writer.write_file(data) {
            Ok(()) => {},
            Err(e) => {
                assert(false);
                return Err(e);
            },
        }
        assert(writer@.stream =~= head + payload(view, k + 1));
        k += 1;
    }
    writer.finish()
}

} // verus!
