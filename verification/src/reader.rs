//! Reading an archive: the index first, then the files, front to back.
//!
//! A reader holds the decompressed stream and a cursor into it. The cursor
//! only moves forward: past the index line when the index is loaded, then
//! past one file with every extraction. Files therefore come out in the order
//! of the index and once each; a request for any other file of the index is
//! refused and leaves the reader as it was.

use crate::codec::{decompress, zstd_decoded};
use crate::entry::{
    clone_index, find_entry, has_path, prefix_size, unique_paths, FileEntry, FileEntryView,
};
use crate::error::ReadError;
use crate::index::{index_of_text, parse_index, NEWLINE};
use vstd::prelude::*;
use vstd::slice::{slice_subrange, slice_to_vec};

verus! {

/// Where a reader stands.
#[derive(Debug, Clone, Copy, PartialEq, Eq, Structural)]
pub enum ReaderState {
    /// The stream is attached and the index is not read yet.
    Created,
    /// The index is read and no file is extracted yet.
    IndexLoaded,
    /// Some files are extracted.
    Advancing,
    /// The cursor is at the end of the stream.
    Exhausted,
    /// The stream turned out to be broken; nothing more can be read.
    Faulted,
}

/// What a reader stands for in contracts.
pub struct ReaderView {
    /// The decompressed stream: index line, newline, payload.
    pub stream: Seq<u8>,
    /// Where the payload starts: behind the newline that ends the index
    /// line. It is 0 as long as the index is not loaded.
    pub start: int,
    /// The cursor: how many bytes of the stream are consumed.
    pub pos: int,
    /// The index, once it is loaded.
    pub index: Option<Seq<FileEntryView>>,
    /// How many files are extracted.
    pub next: int,
    /// Whether the stream turned out to be broken.
    pub faulted: bool,
}

/// What a request for `path` gets, where `index` is loaded, `next` files are
/// extracted and the stream has `left` bytes behind the cursor: the number
/// of bytes to hand out, or the refusal.
///
/// A path that the index does not hold is `NotFound`. A path that is not the
/// one of descriptor `next` is `OutOfOrderAccess`. A file that is longer
/// than what is left is `TruncatedPayload`.
pub open spec fn located(index: Seq<FileEntryView>, next: int, left: int, path: Seq<char>) -> Result<
    int,
    ReadError,
> {
    if !has_path(index, path) {
        Err(ReadError::NotFound)
    } else if !(0 <= next < index.len()) || index[next].path != path {
        Err(ReadError::OutOfOrderAccess)
    } else if left < index[next].size {
        Err(ReadError::TruncatedPayload)
    } else {
        Ok(index[next].size as int)
    }
}

impl ReaderView {
    /// A reader over a decompressed stream, with nothing consumed.
    pub open spec fn over(stream: Seq<u8>) -> ReaderView {
        ReaderView { stream, start: 0, pos: 0, index: None, next: 0, faulted: false }
    }

    /// The reader that is made of `data`: one over the decompressed bytes.
    /// `InvalidStream` where `data` does not decompress.
    pub open spec fn open(data: Seq<u8>) -> Result<ReaderView, ReadError> {
        match zstd_decoded(data) {
            Some(stream) => Ok(ReaderView::over(stream)),
            None => Err(ReadError::InvalidStream),
        }
    }

    /// The cursor is inside the stream. Where the index is loaded, it is
    /// what the line before the first newline stands for, it names no path
    /// twice, and the cursor stands behind that newline and the files that
    /// were extracted: at the first byte of the next file.
    pub open spec fn wf(self) -> bool {
        &&& 0 <= self.pos <= self.stream.len()
        &&& match self.index {
            Some(index) => {
                &&& 0 <= self.next <= index.len()
                &&& unique_paths(index)
                &&& self.stream.index_of_first(NEWLINE) == Some(self.start - 1)
                &&& index_of_text(self.stream.take(self.start - 1)) == Some(index)
                &&& self.pos == self.start + prefix_size(index, self.next)
            },
            None => self.start == 0 && self.pos == 0 && self.next == 0,
        }
    }

    /// This reader after a failure on the stream.
    pub open spec fn fault(self) -> ReaderView {
        ReaderView { faulted: true, ..self }
    }

    /// Where this reader stands.
    pub open spec fn state(self) -> ReaderState {
        if self.faulted {
            ReaderState::Faulted
        } else if self.index is None {
            ReaderState::Created
        } else if self.pos == self.stream.len() {
            ReaderState::Exhausted
        } else if self.next == 0 {
            ReaderState::IndexLoaded
        } else {
            ReaderState::Advancing
        }
    }

    /// Loading the index: the reader afterwards, and the index or the
    /// failure.
    ///
    /// A faulted reader stays as it is. A loaded index is handed out again.
    /// Otherwise the line up to the first newline is read as the index and
    /// the cursor moves behind that newline; where there is no newline
    /// (`TruncatedHeader`) or the line is no index (`MalformedIndex`), the
    /// reader is faulted.
    pub open spec fn load(self) -> (ReaderView, Result<Seq<FileEntryView>, ReadError>) {
        if self.faulted {
            (self, Err(ReadError::Faulted))
        } else {
            match self.index {
                Some(index) => (self, Ok(index)),
                None => match self.stream.index_of_first(NEWLINE) {
                    None => (self.fault(), Err(ReadError::TruncatedHeader)),
                    Some(end) => match index_of_text(self.stream.take(end)) {
                        None => (self.fault(), Err(ReadError::MalformedIndex)),
                        Some(index) => (
                            ReaderView {
                                start: end + 1,
                                pos: end + 1,
                                index: Some(index),
                                next: 0,
                                ..self
                            },
                            Ok(index),
                        ),
                    },
                },
            }
        }
    }

    /// Extracting `path`: the reader afterwards, and the file's bytes or the
    /// failure.
    ///
    /// The index is loaded first where it is not yet, and a failure to do so
    /// is the result. Then `located` decides. `NotFound` and
    /// `OutOfOrderAccess` leave the reader as it is after loading;
    /// `TruncatedPayload` leaves it faulted. Otherwise the next `size` bytes
    /// are the file, and the cursor moves past them.
    pub open spec fn extract(self, path: Seq<char>) -> (ReaderView, Result<Seq<u8>, ReadError>) {
        let (loaded, r) = self.load();
        match r {
            Err(e) => (loaded, Err(e)),
            Ok(index) => match located(
                index,
                loaded.next,
                loaded.stream.len() - loaded.pos,
                path,
            ) {
                Err(ReadError::TruncatedPayload) => (
                    loaded.fault(),
                    Err(ReadError::TruncatedPayload),
                ),
                Err(e) => (loaded, Err(e)),
                Ok(size) => (
                    ReaderView { pos: loaded.pos + size, next: loaded.next + 1, ..loaded },
                    Ok(loaded.stream.subrange(loaded.pos, loaded.pos + size)),
                ),
            },
        }
    }
}

/// A reader over one archive.
pub struct ZstdReader {
    stream: Vec<u8>,
    start: usize,
    pos: usize,
    file_list: Option<Vec<FileEntry>>,
    next: usize,
    faulted: bool,
}

impl View for ZstdReader {
    type V = ReaderView;

    closed spec fn view(&self) -> ReaderView {
        ReaderView {
            stream: self.stream@,
            start: self.start as int,
            pos: self.pos as int,
            index: match self.file_list {
                Some(list) => Some(list.deep_view()),
                None => None,
            },
            next: self.next as int,
            faulted: self.faulted,
        }
    }
}

/// Decides what a request for `path` gets: see `located`.
pub fn locate(index: &Vec<FileEntry>, next: usize, left: usize, path: &str) -> (r: Result<
    usize,
    ReadError,
>)
    ensures
        match r {
            Ok(size) => located(index.deep_view(), next as int, left as int, path@) == Ok::<
                int,
                ReadError,
            >(size as int),
            Err(e) => located(index.deep_view(), next as int, left as int, path@) == Err::<
                int,
                ReadError,
            >(e),
        },
{
    if find_entry(index, path).is_none() {
        return Err(ReadError::NotFound);
    }
    if next >= index.len() {
        return Err(ReadError::OutOfOrderAccess);
    }
    let wanted = path.to_owned();
    assert(index.deep_view()[next as int] == index[next as int]@);
    if !(index[next].path == wanted) {
        return Err(ReadError::OutOfOrderAccess);
    }
    if index[next].size > left as u64 {
        return Err(ReadError::TruncatedPayload);
    }
    Ok(index[next].size as usize)
}

/// The place of the first newline of `bytes`.
pub fn find_newline(bytes: &Vec<u8>) -> (r: Option<usize>)
    ensures
        match r {
            Some(k) => bytes@.index_of_first(NEWLINE) == Some(k as int) && k < bytes.len(),
            None => bytes@.index_of_first(NEWLINE) is None,
        },
{
    let mut i: usize = 0;
    while i < bytes.len()
        invariant
            i <= bytes.len(),
            forall|j: int| 0 <= j < i ==> bytes[j] != NEWLINE,
        decreases bytes.len() - i,
    {
        if bytes[i] == NEWLINE {
            proof {
                bytes@.index_of_first_ensures(NEWLINE);
                assert(bytes@.contains(NEWLINE));
            }
            return Some(i);
        }
        i += 1;
    }
    proof {
        bytes@.index_of_first_ensures(NEWLINE);
    }
    None
}

impl ZstdReader {
    /// Whether this reader is in order; every reader that this module hands
    /// out is.
    pub open spec fn wf(&self) -> bool {
        self@.wf()
    }

    /// Makes a reader of the bytes of an archive.
    ///
    /// Fails with `InvalidStream` where the bytes do not decompress.
    pub fn new(data: &[u8]) -> (r: Result<ZstdReader, ReadError>)
        ensures
            match r {
                Ok(reader) => reader.wf() && ReaderView::open(data@) == Ok::<ReaderView, ReadError>(
                    reader@,
                ),
                Err(e) => ReaderView::open(data@) == Err::<ReaderView, ReadError>(e),
            },
    {
        match decompress(data) {
            Ok(stream) => Ok(ZstdReader::from_stream(stream)),
            Err(_) => Err(ReadError::InvalidStream),
        }
    }

    /// Makes a reader of a stream that is decompressed already.
    pub fn from_stream(stream: Vec<u8>) -> (reader: ZstdReader)
        ensures
            reader.wf(),
            reader@ == ReaderView::over(stream@),
    {
        ZstdReader { stream, start: 0, pos: 0, file_list: None, next: 0, faulted: false }
    }

    /// Where this reader stands.
    pub fn state(&self) -> (s: ReaderState)
        ensures
            s == self@.state(),
    {
        if self.faulted {
            ReaderState::Faulted
        } else if self.file_list.is_none() {
            ReaderState::Created
        } else if self.pos == self.stream.len() {
            ReaderState::Exhausted
        } else if self.next == 0 {
            ReaderState::IndexLoaded
        } else {
            ReaderState::Advancing
        }
    }

    /// Reads the index where it is not read yet, and leaves the reader
    /// faulted where that fails.
    fn load_index(&mut self) -> (r: Result<(), ReadError>)
        requires
            old(self).wf(),
        ensures
            final(self).wf(),
            final(self)@ == old(self)@.load().0,
            match r {
                Ok(()) => old(self)@.load().1 is Ok,
                Err(e) => old(self)@.load().1 == Err::<Seq<FileEntryView>, ReadError>(e),
            },
    {
        if self.faulted {
            return Err(ReadError::Faulted);
        }
        if self.file_list.is_some() {
            return Ok(());
        }
        let end = match find_newline(&self.stream) {
            Some(end) => end,
            None => {
                self.faulted = true;
                return Err(ReadError::TruncatedHeader);
            },
        };
        let parsed = parse_index(slice_subrange(self.stream.as_slice(), 0, end));
        match parsed {
            Ok(index) => {
                self.file_list = Some(index);
                self.start = end + 1;
                self.pos = end + 1;
                self.next = 0;
                Ok(())
            },
            Err(_) => {
                self.faulted = true;
                Err(ReadError::MalformedIndex)
            },
        }
    }

    /// Hands out the index, loading it on the first call.
    ///
    /// The reader afterwards and the result are those of `ReaderView::load`.
    pub fn get_file_list(&mut self) -> (r: Result<Vec<FileEntry>, ReadError>)
        requires
            old(self).wf(),
        ensures
            final(self).wf(),
            final(self)@ == old(self)@.load().0,
            match r {
                Ok(list) => old(self)@.load().1 == Ok::<Seq<FileEntryView>, ReadError>(
                    list.deep_view(),
                ),
                Err(e) => old(self)@.load().1 == Err::<Seq<FileEntryView>, ReadError>(e),
            },
    {
        match self.load_index() {
            Ok(()) => {},
            Err(e) => {
                return Err(e);
            },
        }
        match &self.file_list {
            Some(list) => Ok(clone_index(list)),
            None => Err(ReadError::Faulted),
        }
    }

    /// Hands out the bytes of the file `path`, which must be the next of the
    /// index.
    ///
    /// The reader afterwards and the result are those of
    /// `ReaderView::extract`.
    pub fn extract_file(&mut self, path: &str) -> (r: Result<Vec<u8>, ReadError>)
        requires
            old(self).wf(),
        ensures
            final(self).wf(),
            final(self)@ == old(self)@.extract(path@).0,
            match r {
                Ok(bytes) => old(self)@.extract(path@).1 == Ok::<Seq<u8>, ReadError>(bytes@),
                Err(e) => old(self)@.extract(path@).1 == Err::<Seq<u8>, ReadError>(e),
            },
    {
        match self.load_index() {
            Ok(()) => {},
            Err(e) => {
                return Err(e);
            },
        }
        let left = self.stream.len() - self.pos;
        let located = match &self.file_list {
            Some(list) => {
                assert(self.next <= list.len());
                locate(list, self.next, left, path)
            },
            None => Err(ReadError::Faulted),
        };
        let size = match located {
            Ok(size) => size,
            Err(ReadError::TruncatedPayload) => {
                self.faulted = true;
                return Err(ReadError::TruncatedPayload);
            },
            Err(e) => {
                return Err(e);
            },
        };
        let end = self.pos + size;
        let bytes = slice_to_vec(slice_subrange(self.stream.as_slice(), self.pos, end));
        self.pos = end;
        self.next = self.next + 1;
        Ok(bytes)
    }
}

} // verus!
