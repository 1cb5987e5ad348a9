//! A look into bytes that were extracted: where a RIFF container starts in
//! them and what its VP8 chunks announce.
//!
//! This is no part of reading an archive. It takes bytes that a reader
//! handed out and reports what it finds, for a caller that wants to log it.
//! Every offset that the bytes announce is held against their length before
//! it is followed, so that bytes that are cut off or made up yield a report
//! with less in it, never a failure.

use crate::bytes::{ascii, ascii_bytes, head};
use vstd::prelude::*;
use vstd::slice::slice_subrange;

verus! {

/// How many bytes a preview shows at most.
pub const PREVIEW_LEN: usize = 16;

/// How many bytes lie between the start of a RIFF container and its first
/// chunk: the tag, the length and the form type.
pub const RIFF_HEADER_LEN: usize = 12;

/// `tag` stands in `data` at `i`.
pub open spec fn tag_at(data: Seq<u8>, i: int, tag: Seq<u8>) -> bool {
    0 <= i && i + tag.len() <= data.len() && data.subrange(i, i + tag.len()) == tag
}

/// `tag` stands in `data` somewhere from `from` on.
pub open spec fn has_tag(data: Seq<u8>, from: int, tag: Seq<u8>) -> bool {
    exists|i: int| from <= i && #[trigger] tag_at(data, i, tag)
}

/// `i` is the first place from `from` on at which `tag` stands in `data`.
pub open spec fn first_tag_at(data: Seq<u8>, from: int, tag: Seq<u8>, i: int) -> bool {
    &&& from <= i
    &&& tag_at(data, i, tag)
    &&& forall|j: int| from <= j < i ==> !#[trigger] tag_at(data, j, tag)
}

/// The unsigned 32-bit number whose four bytes stand in `data` at `at`,
/// lowest first.
pub open spec fn le_u32(data: Seq<u8>, at: int) -> int {
    data[at] + 0x100 * data[at + 1] + 0x1_0000 * data[at + 2] + 0x100_0000 * data[at + 3]
}

/// The first bytes of `data`, up to `PREVIEW_LEN` of them.
pub open spec fn preview_of(data: Seq<u8>) -> Seq<u8> {
    data.take(
        if data.len() < PREVIEW_LEN {
            data.len() as int
        } else {
            PREVIEW_LEN as int
        },
    )
}

/// What is found of one chunk.
#[derive(Debug, Clone, PartialEq, Eq)]
pub struct ChunkInfo {
    /// Where the chunk's tag stands, counted from the first chunk.
    pub offset: usize,
    /// The length that the chunk announces, where its four bytes are there.
    pub size: Option<u32>,
    /// The first bytes of the chunk's data, where the data is there in full.
    pub preview: Option<Vec<u8>>,
}

/// What is found of a RIFF container.
#[derive(Debug, Clone, PartialEq, Eq)]
pub struct RiffInfo {
    /// Where the container starts.
    pub riff_pos: usize,
    /// The form type, where the header is there in full.
    pub form: Option<Vec<u8>>,
    /// The `VP8X` chunk, where there is one.
    pub vp8x: Option<ChunkInfo>,
    /// The `VP8 ` chunk, where there is one.
    pub vp8: Option<ChunkInfo>,
}

/// `info` is what `data` holds of the first chunk tagged `tag` from `base`
/// on: its place; its announced length, provided that the four bytes behind
/// the tag lie inside `data`; and the head of its data, provided that as
/// many bytes as announced lie inside `data`.
pub open spec fn describes_chunk(info: ChunkInfo, data: Seq<u8>, base: int, tag: Seq<u8>) -> bool {
    let size_at = base + info.offset + tag.len();
    &&& first_tag_at(data, base, tag, base + info.offset)
    &&& match info.size {
        Some(n) => size_at + 4 <= data.len() && n == le_u32(data, size_at),
        None => size_at + 4 > data.len() && info.preview is None,
    }
    &&& match info.preview {
        Some(bytes) => info.size is Some && size_at + 4 + info.size.unwrap() <= data.len()
            && bytes@ == preview_of(
            data.subrange(size_at + 4, size_at + 4 + info.size.unwrap()),
        ),
        None => info.size is Some ==> size_at + 4 + info.size.unwrap() > data.len(),
    }
}

/// `found` is what `data` holds of the first chunk tagged `tag` from `base`
/// on, or nothing where there is no such chunk.
pub open spec fn describes_chunk_if_any(
    found: Option<ChunkInfo>,
    data: Seq<u8>,
    base: int,
    tag: Seq<u8>,
) -> bool {
    match found {
        Some(info) => describes_chunk(info, data, base, tag),
        None => !has_tag(data, base, tag),
    }
}

/// `info` is what `data` holds of its first RIFF container: its place; and,
/// provided that the twelve bytes of its header lie inside `data`, its form
/// type and its `VP8X` and `VP8 ` chunks.
pub open spec fn describes_riff(info: RiffInfo, data: Seq<u8>) -> bool {
    let base = info.riff_pos + RIFF_HEADER_LEN;
    &&& first_tag_at(data, 0, ascii_bytes("RIFF"@), info.riff_pos as int)
    &&& if base <= data.len() {
        &&& info.form matches Some(form)
        &&& form@ == data.subrange(info.riff_pos + 8, base)
        &&& describes_chunk_if_any(info.vp8x, data, base, ascii_bytes("VP8X"@))
        &&& describes_chunk_if_any(info.vp8, data, base, ascii_bytes("VP8 "@))
    } else {
        info.form is None && info.vp8x is None && info.vp8 is None
    }
}

/// Tells whether `tag` stands in `data` at `i`.
pub fn tag_stands_at(data: &[u8], i: usize, tag: &[u8]) -> (r: bool)
    ensures
        r == tag_at(data@, i as int, tag@),
{
    if i > data.len() || tag.len() > data.len() - i {
        return false;
    }
    let mut k: usize = 0;
    while k < tag.len()
        invariant
            k <= tag.len(),
            i + tag.len() <= data.len(),
            forall|j: int| 0 <= j < k ==> data[i + j] == tag[j],
        decreases tag.len() - k,
    {
        if data[i + k] != tag[k] {
            assert(data@.subrange(i as int, i + tag.len())[k as int] != tag@[k as int]);
            return false;
        }
        k += 1;
    }
    assert(data@.subrange(i as int, i + tag.len()) =~= tag@);
    true
}

/// Finds the first place from `from` on at which `tag` stands in `data`.
pub fn find_tag(data: &[u8], from: usize, tag: &[u8]) -> (r: Option<usize>)
    ensures
        match r {
            Some(i) => first_tag_at(data@, from as int, tag@, i as int),
            None => !has_tag(data@, from as int, tag@),
        },
{
    if from > data.len() {
        return None;
    }
    let mut i: usize = from;
    while i < data.len()
        invariant
            from <= i <= data.len(),
            forall|j: int| from <= j < i ==> !#[trigger] tag_at(data@, j, tag@),
        decreases data.len() - i,
    {
        if tag_stands_at(data, i, tag) {
            return Some(i);
        }
        i += 1;
    }
    if tag_stands_at(data, i, tag) {
        return Some(i);
    }
    None
}

/// Reads the unsigned 32-bit number whose four bytes stand at `at`, lowest
/// first, where they lie inside `data`.
pub fn read_le_u32(data: &[u8], at: usize) -> (r: Option<u32>)
    ensures
        match r {
            Some(v) => at + 4 <= data.len() && v == le_u32(data@, at as int),
            None => at + 4 > data.len(),
        },
{
    if at > data.len() || data.len() - at < 4 {
        return None;
    }
    let b0 = data[at] as u32;
    let b1 = data[at + 1] as u32;
    let b2 = data[at + 2] as u32;
    let b3 = data[at + 3] as u32;
    Some(b0 + 0x100 * b1 + 0x1_0000 * b2 + 0x100_0000 * b3)
}

/// Reports the first chunk tagged `tag` from `base` on.
pub fn inspect_chunk(data: &[u8], base: usize, tag: &[u8]) -> (r: Option<ChunkInfo>)
    ensures
        describes_chunk_if_any(r, data@, base as int, tag@),
{
    let at = match find_tag(data, base, tag) {
        Some(at) => at,
        None => {
            return None;
        },
    };
    assert(at + tag.len() <= data.len());
    let size_at = at + tag.len();
    let size = match read_le_u32(data, size_at) {
        Some(size) => size,
        None => {
            return Some(ChunkInfo { offset: at - base, size: None, preview: None });
        },
    };
    let start = size_at + 4;
    if size as u64 > (data.len() - start) as u64 {
        return Some(ChunkInfo { offset: at - base, size: Some(size), preview: None });
    }
    let end = start + size as usize;
    let preview = head(slice_subrange(data, start, end), PREVIEW_LEN);
    Some(ChunkInfo { offset: at - base, size: Some(size), preview: Some(preview) })
}

/// Reports the first RIFF container of `data`, or nothing where `data`
/// holds no `RIFF` tag.
pub fn inspect_riff(data: &[u8]) -> (r: Option<RiffInfo>)
    ensures
        match r {
            Some(info) => describes_riff(info, data@),
            None => !has_tag(data@, 0, ascii_bytes("RIFF"@)),
        },
{
    proof {
        reveal_strlit("RIFF");
        reveal_strlit("VP8X");
        reveal_strlit("VP8 ");
    }
    let riff_pos = match find_tag(data, 0, ascii("RIFF")) {
        Some(at) => at,
        None => {
            return None;
        },
    };
    if data.len() - riff_pos < RIFF_HEADER_LEN {
        return Some(RiffInfo { riff_pos, form: None, vp8x: None, vp8: None });
    }
    let base = riff_pos + RIFF_HEADER_LEN;
    let form = head(slice_subrange(data, riff_pos + 8, base), 4);
    assert(form@ =~= data@.subrange(riff_pos + 8, base as int));
    let vp8x = inspect_chunk(data, base, ascii("VP8X"));
    let vp8 = inspect_chunk(data, base, ascii("VP8 "));
    Some(RiffInfo { riff_pos, form: Some(form), vp8x, vp8 })
}

/// The first bytes of `data`, up to `PREVIEW_LEN` of them.
pub fn preview(data: &[u8]) -> (r: Vec<u8>)
    ensures
        r@ == preview_of(data@),
{
    head(data, PREVIEW_LEN)
}

} // verus!
