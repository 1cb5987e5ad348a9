//! What holds of readers and writers together.
//!
//! Every statement here is about `ReaderView` and `packed`, the models that
//! the contracts of `ZstdReader` and `pack` are written in: what is proved
//! of the models holds of every call.

use crate::entry::{has_path, prefix_size, total_size, FileEntryView};
use crate::error::{ReadError, WriteError};
use crate::index::{encoded_index, NEWLINE};
use crate::reader::{ReaderState, ReaderView};
use crate::writer::{listing, packed, payload, WriterView};
use vstd::prelude::*;

verus! {

/// `reader` after the first `k` files of `index` were asked for, in order.
pub open spec fn after_extracting(reader: ReaderView, index: Seq<FileEntryView>, k: int) -> ReaderView
    decreases k,
{
    if k <= 0 || k > index.len() {
        reader
    } else {
        after_extracting(reader, index, k - 1).extract(index[k - 1].path).0
    }
}

/// The bytes of the first `k` files are the front of the bytes of the first
/// `n`.
proof fn lemma_payload_prefix(files: Seq<(Seq<char>, Seq<u8>)>, k: int, n: int)
    requires
        0 <= k <= n <= files.len(),
    ensures
        payload(files, k).len() <= payload(files, n).len(),
        payload(files, n).take(payload(files, k).len() as int) == payload(files, k),
    decreases n,
{
    if k < n {
        lemma_payload_prefix(files, k, n - 1);
        assert(payload(files, n).take(payload(files, k).len() as int) =~= payload(files, n - 1).take(
            payload(files, k).len() as int,
        ));
    } else {
        assert(payload(files, n).take(payload(files, n).len() as int) =~= payload(files, n));
    }
}

/// Where the line `line` holds no newline, the first newline of a stream
/// that starts with the line and a newline is the one behind the line.
proof fn lemma_header_end(line: Seq<u8>, rest: Seq<u8>)
    requires
        !line.contains(NEWLINE),
    ensures
        (line.push(NEWLINE) + rest).index_of_first(NEWLINE) == Some(line.len() as int),
        (line.push(NEWLINE) + rest).take(line.len() as int) == line,
{
    let stream = line.push(NEWLINE) + rest;
    stream.index_of_first_ensures(NEWLINE);
    assert(stream[line.len() as int] == NEWLINE);
    assert(stream.contains(NEWLINE));
    let found = stream.index_of_first(NEWLINE).unwrap();
    if found < line.len() {
        assert(line[found] == NEWLINE);
        assert(line.contains(NEWLINE));
    }
    assert(stream.take(line.len() as int) =~= line);
}

/// An archive that `pack` made opens, and its index reads back as the
/// listing of the files that were packed, with the cursor at the first
/// byte of the first file.
pub proof fn lemma_packed_index_reads_back(files: Seq<(Seq<char>, Seq<u8>)>, archive: Seq<u8>)
    requires
        packed(files) == Ok::<Seq<u8>, WriteError>(archive),
    ensures
        ReaderView::open(archive) is Ok,
        ({
            let reader = ReaderView::open(archive).unwrap();
            let line = encoded_index(listing(files)).unwrap();
            &&& reader.wf()
            &&& encoded_index(listing(files)) is Some
            &&& reader.stream == line.push(NEWLINE) + payload(files, files.len() as int)
            &&& reader.load().1 == Ok::<Seq<FileEntryView>, ReadError>(listing(files))
            &&& reader.load().0 == ReaderView {
                stream: reader.stream,
                start: (line.len() + 1) as int,
                pos: (line.len() + 1) as int,
                index: Some(listing(files)),
                next: 0,
                faulted: false,
            }
        }),
{
    let line = encoded_index(listing(files)).unwrap();
    lemma_header_end(line, payload(files, files.len() as int));
}

/// The sizes that the listing of some files announces add up to the length
/// of their bytes, file by file.
pub proof fn lemma_listing_sizes_add_up(files: Seq<(Seq<char>, Seq<u8>)>, k: int)
    requires
        forall|i: int| 0 <= i < files.len() ==> (#[trigger] files[i]).1.len() <= u64::MAX,
        0 <= k <= files.len(),
    ensures
        prefix_size(listing(files), k) == payload(files, k).len(),
        k == files.len() ==> total_size(listing(files)) == payload(files, k).len(),
    decreases k,
{
    if k > 0 {
        lemma_listing_sizes_add_up(files, k - 1);
        assert(listing(files)[k - 1].size == files[k - 1].1.len());
    }
}

/// Round trip. Of an archive that `pack` made, the files come out as they
/// went in: after the index is loaded and the first `k` files are extracted
/// in the order of the index, extracting file `k` hands out its bytes. The
/// files are any whose lengths fit in 64 bits, as every length in memory
/// does.
pub proof fn lemma_round_trip(files: Seq<(Seq<char>, Seq<u8>)>, archive: Seq<u8>, k: int)
    requires
        packed(files) == Ok::<Seq<u8>, WriteError>(archive),
        forall|i: int| 0 <= i < files.len() ==> (#[trigger] files[i]).1.len() <= u64::MAX,
        0 <= k < files.len(),
    ensures
        ReaderView::open(archive) is Ok,
        ({
            let loaded = ReaderView::open(archive).unwrap().load().0;
            let before = after_extracting(loaded, listing(files), k);
            &&& before.wf()
            &&& !before.faulted
            &&& before.next == k
            &&& before.extract(files[k].0).1 == Ok::<Seq<u8>, ReadError>(files[k].1)
            &&& before.extract(files[k].0).0 == after_extracting(loaded, listing(files), k + 1)
        }),
{
    lemma_packed_index_reads_back(files, archive);
    let loaded = ReaderView::open(archive).unwrap().load().0;
    let line = encoded_index(listing(files)).unwrap();
    lemma_extracting_packed(files, loaded, line, k);
    lemma_extracting_packed(files, loaded, line, k + 1);
    lemma_listing_sizes_add_up(files, k);
    lemma_payload_prefix(files, k, files.len() as int);
}

/// Where a reader stands after `k` files of a packed stream are extracted in
/// order: behind the bytes of those files, with nothing else changed.
proof fn lemma_extracting_packed(
    files: Seq<(Seq<char>, Seq<u8>)>,
    loaded: ReaderView,
    line: Seq<u8>,
    k: int,
)
    requires
        forall|i: int| 0 <= i < files.len() ==> (#[trigger] files[i]).1.len() <= u64::MAX,
        0 <= k <= files.len(),
        loaded == (ReaderView {
            stream: line.push(NEWLINE) + payload(files, files.len() as int),
            start: (line.len() + 1) as int,
            pos: (line.len() + 1) as int,
            index: Some(listing(files)),
            next: 0,
            faulted: false,
        }),
    ensures
        after_extracting(loaded, listing(files), k) == (ReaderView {
            pos: (line.len() + 1 + payload(files, k).len()) as int,
            next: k,
            ..loaded
        }),
        k > 0 ==> after_extracting(loaded, listing(files), k - 1).extract(files[k - 1].0).1 == Ok::<
            Seq<u8>,
            ReadError,
        >(files[k - 1].1),
    decreases k,
{
    if k > 0 {
        lemma_extracting_packed(files, loaded, line, k - 1);
        let index = listing(files);
        let before = after_extracting(loaded, index, k - 1);
        let n = files.len() as int;
        lemma_payload_prefix(files, k - 1, n);
        lemma_payload_prefix(files, k, n);
        assert(index[k - 1].path == files[k - 1].0);
        assert(has_path(index, files[k - 1].0));
        assert(index[k - 1].size == files[k - 1].1.len());
        let start = before.pos;
        let end = start + files[k - 1].1.len();
        assert(payload(files, k) == payload(files, k - 1) + files[k - 1].1);
        assert(loaded.stream.subrange(start, end) =~= payload(files, n).take(
            payload(files, k).len() as int,
        ).skip(payload(files, k - 1).len() as int));
        assert(loaded.stream.subrange(start, end) =~= files[k - 1].1);
    }
}

/// Order. A file that the index holds but that is not the next one is
/// refused with `OutOfOrderAccess`, and the reader stays as it was: no
/// request ever hands out the bytes of another file.
pub proof fn lemma_out_of_order_refused(reader: ReaderView, path: Seq<char>)
    requires
        reader.wf(),
        !reader.faulted,
        reader.index is Some,
        has_path(reader.index.unwrap(), path),
        reader.next == reader.index.unwrap().len() || reader.index.unwrap()[reader.next].path
            != path,
    ensures
        reader.extract(path) == (reader, Err::<Seq<u8>, ReadError>(ReadError::OutOfOrderAccess)),
{
}

/// What a reader hands out is the file that was asked for: the path is the
/// one of the next descriptor, and the bytes are as many as that descriptor
/// announces, taken at the cursor.
pub proof fn lemma_extract_hands_out_next(reader: ReaderView, path: Seq<char>)
    requires
        reader.wf(),
        reader.extract(path).1 is Ok,
    ensures
        ({
            let loaded = reader.load().0;
            let (after, r) = reader.extract(path);
            let index = loaded.index.unwrap();
            &&& loaded.index is Some
            &&& 0 <= loaded.next < index.len()
            &&& index[loaded.next].path == path
            &&& r.unwrap() == loaded.stream.subrange(
                loaded.pos,
                loaded.pos + index[loaded.next].size,
            )
            &&& after.pos == loaded.pos + index[loaded.next].size
            &&& after.next == loaded.next + 1
            &&& after.wf()
        }),
{
    reader.stream.index_of_first_ensures(NEWLINE);
    lemma_steps_keep_wf(reader, path);
}

/// Truncation. Where the payload is shorter than the index announces, the
/// files that are whole come out, and the first that is not fails with
/// `TruncatedPayload` and leaves the reader faulted. Here `reader` has its
/// index loaded and nothing extracted, and file `k` is the first that the
/// payload does not hold in full.
pub proof fn lemma_short_payload_faults(reader: ReaderView, k: int)
    requires
        reader.wf(),
        !reader.faulted,
        reader.index is Some,
        reader.next == 0,
        0 <= k < reader.index.unwrap().len(),
        prefix_size(reader.index.unwrap(), k) <= reader.stream.len() - reader.pos < prefix_size(
            reader.index.unwrap(),
            k + 1,
        ),
    ensures
        ({
            let index = reader.index.unwrap();
            let before = after_extracting(reader, index, k);
            &&& forall|j: int|
                0 <= j < k ==> (#[trigger] after_extracting(reader, index, j)).extract(
                    index[j].path,
                ).1 is Ok
            &&& before.extract(index[k].path) == (
                before.fault(),
                Err::<Seq<u8>, ReadError>(ReadError::TruncatedPayload),
            )
        }),
{
    let index = reader.index.unwrap();
    assert forall|j: int| 0 <= j <= k implies (#[trigger] after_extracting(reader, index, j))
        == (ReaderView { pos: reader.pos + prefix_size(index, j), next: j, ..reader }) && (j < k
        ==> after_extracting(reader, index, j).extract(index[j].path).1 is Ok) by {
        lemma_extracting_whole(reader, k, j);
    }
    assert(has_path(index, index[k].path));
}

/// The first `j` descriptors announce no more bytes than the first `k`,
/// where `j` is at most `k`.
proof fn lemma_prefix_size_grows(index: Seq<FileEntryView>, j: int, k: int)
    requires
        0 <= j <= k <= index.len(),
    ensures
        prefix_size(index, j) <= prefix_size(index, k),
    decreases k,
{
    if j < k {
        lemma_prefix_size_grows(index, j, k - 1);
    }
}

/// Where a reader stands after `j` files are extracted in order, all of
/// them held in full by the payload, and what the next extraction hands out.
proof fn lemma_extracting_whole(reader: ReaderView, k: int, j: int)
    requires
        reader.wf(),
        !reader.faulted,
        reader.index is Some,
        reader.next == 0,
        0 <= j <= k <= reader.index.unwrap().len(),
        prefix_size(reader.index.unwrap(), k) <= reader.stream.len() - reader.pos,
    ensures
        after_extracting(reader, reader.index.unwrap(), j) == (ReaderView {
            pos: reader.pos + prefix_size(reader.index.unwrap(), j),
            next: j,
            ..reader
        }),
        j < k ==> after_extracting(reader, reader.index.unwrap(), j).extract(
            reader.index.unwrap()[j].path,
        ).1 == Ok::<Seq<u8>, ReadError>(
            reader.stream.subrange(
                reader.pos + prefix_size(reader.index.unwrap(), j),
                reader.pos + prefix_size(reader.index.unwrap(), j + 1),
            ),
        ),
    decreases j,
{
    let index = reader.index.unwrap();
    if j > 0 {
        lemma_extracting_whole(reader, k, j - 1);
        lemma_prefix_size_grows(index, j, k);
        assert(has_path(index, index[j - 1].path));
    }
    if j < k {
        lemma_prefix_size_grows(index, j + 1, k);
        assert(has_path(index, index[j].path));
    }
}

/// An archive that a writer finished reads in full. Its index is the
/// writer's listing, and after the first `k` files are extracted in order,
/// extracting file `k` hands out the bytes that the writer's stream holds
/// for it: those between the sizes of the first `k` and of the first
/// `k + 1` files, counted from the start of the payload.
pub proof fn lemma_finished_archive_reads_in_full(writer: WriterView, archive: Seq<u8>, k: int)
    requires
        writer.wf(),
        writer.finish() == Ok::<Seq<u8>, WriteError>(archive),
        0 <= k < writer.index.len(),
    ensures
        ReaderView::open(archive) is Ok,
        ({
            let reader = ReaderView::open(archive).unwrap();
            let loaded = reader.load().0;
            &&& reader.load().1 == Ok::<Seq<FileEntryView>, ReadError>(writer.index)
            &&& loaded.start == writer.start
            &&& after_extracting(loaded, writer.index, k).extract(writer.index[k].path).1 == Ok::<
                Seq<u8>,
                ReadError,
            >(
                writer.stream.subrange(
                    writer.start + prefix_size(writer.index, k),
                    writer.start + prefix_size(writer.index, k + 1),
                ),
            )
        }),
{
    let line = encoded_index(writer.index).unwrap();
    let rest = writer.stream.skip(writer.start);
    assert(writer.stream =~= writer.stream.take(writer.start) + rest);
    lemma_header_end(line, rest);
    let loaded = ReaderView::open(archive).unwrap().load().0;
    lemma_extracting_whole(loaded, writer.index.len() as int, k);
}

/// What a writer takes is where a reader will look for it: the bytes of
/// file `done` stand in the stream behind those of the files before it, and
/// what was written before stays as it was.
pub proof fn lemma_write_appends_file(writer: WriterView, data: Seq<u8>)
    requires
        writer.wf(),
        writer.write(data).1 is Ok,
    ensures
        ({
            let after = writer.write(data).0;
            &&& after.wf()
            &&& after.done == writer.done + 1
            &&& after.stream.take(writer.stream.len() as int) == writer.stream
            &&& after.stream.subrange(
                writer.start + prefix_size(writer.index, writer.done),
                writer.start + prefix_size(writer.index, writer.done + 1),
            ) == data
        }),
{
    let after = writer.write(data).0;
    assert(after.stream.take(writer.stream.len() as int) =~= writer.stream);
    assert(after.stream.take(after.start) =~= writer.stream.take(writer.start));
    assert(after.stream.subrange(
        writer.start + prefix_size(writer.index, writer.done),
        writer.start + prefix_size(writer.index, writer.done + 1),
    ) =~= data);
}

/// A faulted reader refuses everything and stays as it is.
pub proof fn lemma_faulted_refuses(reader: ReaderView, path: Seq<char>)
    requires
        reader.faulted,
    ensures
        reader.load() == (reader, Err::<Seq<FileEntryView>, ReadError>(ReadError::Faulted)),
        reader.extract(path) == (reader, Err::<Seq<u8>, ReadError>(ReadError::Faulted)),
{
}

/// Of an archive without files nothing can be extracted: whatever the path,
/// the answer is `NotFound` and the reader stays as it was.
pub proof fn lemma_empty_index_finds_nothing(reader: ReaderView, path: Seq<char>)
    requires
        !reader.faulted,
        reader.index == Some(Seq::<FileEntryView>::empty()),
    ensures
        reader.extract(path) == (reader, Err::<Seq<u8>, ReadError>(ReadError::NotFound)),
{
}

/// Loading and extracting keep a reader in order, and an index that is
/// loaded is handed out again by every later call.
pub proof fn lemma_steps_keep_wf(reader: ReaderView, path: Seq<char>)
    requires
        reader.wf(),
    ensures
        reader.load().0.wf(),
        reader.extract(path).0.wf(),
        reader.load().1 is Ok ==> reader.load().0.load() == reader.load(),
{
    reader.stream.index_of_first_ensures(NEWLINE);
    let loaded = reader.load().0;
    if loaded.index is Some && 0 <= loaded.next < loaded.index.unwrap().len() {
        let index = loaded.index.unwrap();
        assert(prefix_size(index, loaded.next + 1) == prefix_size(index, loaded.next)
            + index[loaded.next].size);
    }
}

/// Order, for an archive that `pack` made. After the first `k` files are
/// extracted in order, a request for any other file `j` of the archive is
/// refused with `OutOfOrderAccess` and leaves the reader as it was.
pub proof fn lemma_round_trip_out_of_order(
    files: Seq<(Seq<char>, Seq<u8>)>,
    archive: Seq<u8>,
    k: int,
    j: int,
)
    requires
        packed(files) == Ok::<Seq<u8>, WriteError>(archive),
        forall|i: int| 0 <= i < files.len() ==> (#[trigger] files[i]).1.len() <= u64::MAX,
        0 <= k <= files.len(),
        0 <= j < files.len(),
        j != k,
    ensures
        ReaderView::open(archive) is Ok,
        ({
            let loaded = ReaderView::open(archive).unwrap().load().0;
            let before = after_extracting(loaded, listing(files), k);
            before.extract(files[j].0) == (
                before,
                Err::<Seq<u8>, ReadError>(ReadError::OutOfOrderAccess),
            )
        }),
{
    lemma_packed_index_reads_back(files, archive);
    let loaded = ReaderView::open(archive).unwrap().load().0;
    let line = encoded_index(listing(files)).unwrap();
    lemma_extracting_packed(files, loaded, line, k);
    let index = listing(files);
    assert(index[j].path == files[j].0);
    assert(has_path(index, files[j].0));
    if k < files.len() {
        assert(index[k].path == files[k].0);
        if j < k {
            assert(index[j].path != index[k].path);
        } else {
            assert(index[k].path != index[j].path);
        }
    }
}

/// An archive that `pack` made of no files opens, its index is empty, and
/// whatever path is asked for is `NotFound`, before the index is loaded and
/// after.
pub proof fn lemma_empty_archive(archive: Seq<u8>, path: Seq<char>)
    requires
        packed(Seq::<(Seq<char>, Seq<u8>)>::empty()) == Ok::<Seq<u8>, WriteError>(archive),
    ensures
        ReaderView::open(archive) is Ok,
        ({
            let reader = ReaderView::open(archive).unwrap();
            let loaded = reader.load().0;
            &&& reader.load().1 == Ok::<Seq<FileEntryView>, ReadError>(Seq::empty())
            &&& loaded.state() == ReaderState::Exhausted
            &&& reader.extract(path) == (loaded, Err::<Seq<u8>, ReadError>(ReadError::NotFound))
            &&& loaded.extract(path) == (loaded, Err::<Seq<u8>, ReadError>(ReadError::NotFound))
        }),
{
    let files = Seq::<(Seq<char>, Seq<u8>)>::empty();
    lemma_packed_index_reads_back(files, archive);
    assert(listing(files) =~= Seq::<FileEntryView>::empty());
    let line = encoded_index(listing(files)).unwrap();
    assert(payload(files, 0) =~= Seq::<u8>::empty());
    assert((line.push(NEWLINE) + payload(files, 0)).len() == line.len() + 1);
}

} // verus!
