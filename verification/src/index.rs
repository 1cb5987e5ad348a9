//! The index as one line of text.
//!
//! The line is a JSON array with one object per file, each with a string
//! member `path` and a number member `size`, written without any white space:
//! `[{"path":"a.txt","size":3},{"path":"b.bin","size":0}]`.

use crate::bytes::{ascii_bytes, has_byte, push_ascii};
use crate::entry::{paths_unique, same_index, unique_paths, FileEntry, FileEntryView};
use crate::error::{ReadError, WriteError};
use crate::json::{
    json_quoted, json_records, json_string, json_u64, read_records, read_string, read_u64,
    write_string,
};
use vstd::prelude::*;

verus! {

/// The byte that ends the index line.
pub const NEWLINE: u8 = 0x0a;

/// `n` in decimal digits, without leading zeros.
pub open spec fn decimal(n: nat) -> Seq<u8>
    decreases n,
{
    if n < 10 {
        seq![(0x30 + n) as u8]
    } else {
        decimal(n / 10).push((0x30 + n % 10) as u8)
    }
}

/// The object that stands for a descriptor whose path is written as the
/// JSON string `quoted`.
pub open spec fn entry_object(quoted: Seq<u8>, size: u64) -> Seq<u8> {
    ascii_bytes("{\"path\":"@) + quoted + ascii_bytes(",\"size\":"@) + decimal(size as nat)
        + ascii_bytes("}"@)
}

/// The object that stands for one descriptor, where `serde_json` can quote
/// its path.
pub open spec fn entry_text(e: FileEntryView) -> Option<Seq<u8>> {
    match json_quoted(e.path) {
        Some(quoted) => Some(entry_object(quoted, e.size)),
        None => None,
    }
}

/// The objects of the first `k` descriptors, with a comma between each two.
pub open spec fn entries_text(index: Seq<FileEntryView>, k: int) -> Option<Seq<u8>>
    decreases k,
{
    if k <= 0 || k > index.len() {
        Some(Seq::empty())
    } else {
        match (entries_text(index, k - 1), entry_text(index[k - 1])) {
            (Some(before), Some(last)) => Some(
                if k == 1 {
                    last
                } else {
                    before + ascii_bytes(","@) + last
                },
            ),
            _ => None,
        }
    }
}

/// The array that stands for `index`.
pub open spec fn index_text(index: Seq<FileEntryView>) -> Option<Seq<u8>> {
    match entries_text(index, index.len() as int) {
        Some(inner) => Some(ascii_bytes("["@) + inner + ascii_bytes("]"@)),
        None => None,
    }
}

/// The raw text of the first member called `name`, among the first `k`
/// members.
pub open spec fn member(fields: Seq<(Seq<char>, Seq<u8>)>, name: Seq<char>, k: int) -> Option<
    Seq<u8>,
>
    decreases k,
{
    if k <= 0 || k > fields.len() {
        None
    } else {
        match member(fields, name, k - 1) {
            Some(raw) => Some(raw),
            None => if fields[k - 1].0 == name {
                Some(fields[k - 1].1)
            } else {
                None
            },
        }
    }
}

/// The descriptor that an object with the members `fields` stands for: its
/// `path` must read as a string and its `size` as an unsigned 64-bit number.
/// Other members are passed over.
pub open spec fn entry_of_fields(fields: Seq<(Seq<char>, Seq<u8>)>) -> Option<FileEntryView> {
    match (member(fields, "path"@, fields.len() as int), member(fields, "size"@, fields.len() as int)) {
        (Some(path_raw), Some(size_raw)) => match (json_string(path_raw), json_u64(size_raw)) {
            (Some(path), Some(size)) => Some(FileEntryView { path, size }),
            _ => None,
        },
        _ => None,
    }
}

/// The index that `text` stands for: `text` must be an array of objects, each
/// of them a descriptor, and no path may occur twice.
pub open spec fn index_of_text(text: Seq<u8>) -> Option<Seq<FileEntryView>> {
    match json_records(text) {
        Some(rows) => {
            let index = Seq::new(rows.len(), |i: int| entry_of_fields(rows[i]).unwrap());
            if (forall|i: int| 0 <= i < rows.len() ==> (#[trigger] entry_of_fields(rows[i])) is Some)
                && unique_paths(index) {
                Some(index)
            } else {
                None
            }
        },
        None => None,
    }
}

/// The line that is written for `index`: its text, provided that the text
/// holds no newline and reads back as `index`.
pub open spec fn encoded_index(index: Seq<FileEntryView>) -> Option<Seq<u8>> {
    match index_text(index) {
        Some(text) => if !text.contains(NEWLINE) && index_of_text(text) == Some(index) {
            Some(text)
        } else {
            None
        },
        None => None,
    }
}

/// Writes `n` in decimal digits.
pub fn decimal_digits(n: u64) -> (r: Vec<u8>)
    ensures
        r@ == decimal(n as nat),
{
    let mut rev: Vec<u8> = Vec::new();
    rev.push(0x30u8 + (n % 10) as u8);
    let mut m: u64 = n / 10;
    while m > 0
        invariant
            rev.len() > 0,
            decimal(n as nat) == (if m == 0 {
                Seq::<u8>::empty()
            } else {
                decimal(m as nat)
            }) + rev@.reverse(),
        decreases m,
    {
        let ghost before = rev@;
        rev.push(0x30u8 + (m % 10) as u8);
        assert(rev@.reverse() =~= seq![(0x30 + m % 10) as u8] + before.reverse());
        m = m / 10;
    }
    let mut out: Vec<u8> = Vec::new();
    let mut i: usize = rev.len();
    while i > 0
        invariant
            i <= rev.len(),
            out.len() == rev.len() - i,
            forall|j: int| 0 <= j < out.len() ==> out[j] == rev[rev.len() - 1 - j],
        decreases i,
    {
        i -= 1;
        out.push(rev[i]);
    }
    assert(out@ =~= rev@.reverse());
    out
}

/// Appends the object that stands for a descriptor whose path is written
/// as the JSON string `quoted`.
pub fn push_entry(out: &mut Vec<u8>, quoted: &[u8], size: u64)
    ensures
        final(out)@ == old(out)@ + entry_object(quoted@, size),
{
    proof {
        reveal_strlit("{\"path\":");
        reveal_strlit(",\"size\":");
        reveal_strlit("}");
    }
    let digits = decimal_digits(size);
    push_ascii(out, "{\"path\":");
    out.extend_from_slice(quoted);
    push_ascii(out, ",\"size\":");
    out.extend_from_slice(digits.as_slice());
    push_ascii(out, "}");
    assert(final(out)@ =~= old(out)@ + entry_object(quoted@, size));
}

/// Appends the object that stands for `e`, or leaves `out` as it is where
/// the path cannot be quoted.
fn write_entry(out: &mut Vec<u8>, e: &FileEntry) -> (ok: bool)
    ensures
        match entry_text(e@) {
            Some(text) => ok && final(out)@ == old(out)@ + text,
            None => !ok && final(out)@ == old(out)@,
        },
{
    match write_string(e.path.as_str()) {
        Ok(quoted) => {
            push_entry(out, quoted.as_slice(), e.size);
            true
        },
        Err(_) => false,
    }
}

/// Once a member called `name` is found, later members do not change what
/// `member` gives.
proof fn lemma_member_found(fields: Seq<(Seq<char>, Seq<u8>)>, name: Seq<char>, i: int, k: int)
    requires
        0 <= i < k <= fields.len(),
        member(fields, name, i) is None,
        fields[i].0 == name,
    ensures
        member(fields, name, k) == Some(fields[i].1),
    decreases k,
{
    if k > i + 1 {
        lemma_member_found(fields, name, i, k - 1);
    }
}

/// Finds the first member called `name`.
pub fn find_member(fields: &Vec<(String, Vec<u8>)>, name: &String) -> (r: Option<usize>)
    ensures
        match r {
            Some(i) => i < fields.len() && member(
                fields.deep_view(),
                name@,
                fields.len() as int,
            ) == Some(fields[i as int].1@),
            None => member(fields.deep_view(), name@, fields.len() as int) is None,
        },
{
    let mut i: usize = 0;
    while i < fields.len()
        invariant
            i <= fields.len(),
            member(fields.deep_view(), name@, i as int) is None,
        decreases fields.len() - i,
    {
        if fields[i].0 == *name {
            proof {
                lemma_member_found(fields.deep_view(), name@, i as int, fields.len() as int);
                assert(fields.deep_view()[i as int].1 =~= fields[i as int].1@);
            }
            return Some(i);
        }
        i += 1;
    }
    None
}

/// Reads one descriptor out of the members of an object.
fn parse_entry(fields: &Vec<(String, Vec<u8>)>, path_name: &String, size_name: &String) -> (r:
    Option<FileEntry>)
    requires
        path_name@ == "path"@,
        size_name@ == "size"@,
    ensures
        match r {
            Some(e) => entry_of_fields(fields.deep_view()) == Some(e@),
            None => entry_of_fields(fields.deep_view()) is None,
        },
{
    let path_at = match find_member(fields, path_name) {
        Some(i) => i,
        None => {
            return None;
        },
    };
    let size_at = match find_member(fields, size_name) {
        Some(i) => i,
        None => {
            return None;
        },
    };
    let path = match read_string(fields[path_at].1.as_slice()) {
        Ok(s) => s,
        Err(_) => {
            return None;
        },
    };
    let size = match read_u64(fields[size_at].1.as_slice()) {
        Ok(n) => n,
        Err(_) => {
            return None;
        },
    };
    Some(FileEntry { path, size })
}

/// Reads an index out of its line.
///
/// Fails with `MalformedIndex` where the line is no array of descriptors, or
/// names a path twice.
pub fn parse_index(text: &[u8]) -> (r: Result<Vec<FileEntry>, ReadError>)
    ensures
        match r {
            Ok(index) => index_of_text(text@) == Some(index.deep_view()),
            Err(e) => e == ReadError::MalformedIndex && index_of_text(text@) is None,
        },
{
    let rows = match read_records(text) {
        Ok(rows) => rows,
        Err(_) => {
            return Err(ReadError::MalformedIndex);
        },
    };
    let path_name = "path".to_owned();
    let size_name = "size".to_owned();
    let ghost records = rows.deep_view();
    let mut index: Vec<FileEntry> = Vec::new();
    let mut i: usize = 0;
    while i < rows.len()
        invariant
            i <= rows.len(),
            index.len() == i,
            records == rows.deep_view(),
            json_records(text@) == Some(records),
            path_name@ == "path"@,
            size_name@ == "size"@,
            forall|j: int| 0 <= j < i ==> (#[trigger] entry_of_fields(records[j])) == Some(index[j]@),
        decreases rows.len() - i,
    {
        match parse_entry(&rows[i], &path_name, &size_name) {
            Some(e) => {
                index.push(e);
            },
            None => {
                assert(entry_of_fields(records[i as int]) is None);
                return Err(ReadError::MalformedIndex);
            },
        }
        i += 1;
    }
    proof {
        assert(index.deep_view() =~= Seq::new(
            records.len(),
            |i: int| entry_of_fields(records[i]).unwrap(),
        ));
    }
    if paths_unique(&index) {
        Ok(index)
    } else {
        Err(ReadError::MalformedIndex)
    }
}

/// Writes an index as its line.
///
/// Fails with `IndexEncoding` where a path cannot be written, or where the
/// line would hold a newline or would not read back as the same index; the
/// last is the case whenever a path occurs twice.
pub fn encode_index(index: &Vec<FileEntry>) -> (r: Result<Vec<u8>, WriteError>)
    ensures
        match r {
            Ok(line) => encoded_index(index.deep_view()) == Some(line@),
            Err(e) => e == WriteError::IndexEncoding && encoded_index(index.deep_view()) is None,
        },
        r matches Ok(line) ==> !line@.contains(NEWLINE) && index_of_text(line@) == Some(
            index.deep_view(),
        ),
{
    let ghost view = index.deep_view();
    let mut inner: Vec<u8> = Vec::new();
    let mut i: usize = 0;
    while i < index.len()
        invariant
            i <= index.len(),
            view == index.deep_view(),
            entries_text(view, i as int) == Some(inner@),
        decreases index.len() - i,
    {
        proof {
            reveal_strlit(",");
        }
        if i > 0 {
            push_ascii(&mut inner, ",");
        }
        if !write_entry(&mut inner, &index[i]) {
            proof {
                lemma_entries_text_fails(view, i + 1, index.len() as int);
            }
            return Err(WriteError::IndexEncoding);
        }
        assert(inner@ =~= entries_text(view, i + 1).unwrap());
        i += 1;
    }
    proof {
        reveal_strlit("[");
        reveal_strlit("]");
    }
    let mut line: Vec<u8> = Vec::new();
    push_ascii(&mut line, "[");
    line.extend_from_slice(inner.as_slice());
    push_ascii(&mut line, "]");
    assert(index_text(view) == Some(line@));
    if has_byte(line.as_slice(), NEWLINE) {
        return Err(WriteError::IndexEncoding);
    }
    match parse_index(line.as_slice()) {
        Ok(back) => {
            if same_index(&back, index) {
                Ok(line)
            } else {
                Err(WriteError::IndexEncoding)
            }
        },
        Err(_) => Err(WriteError::IndexEncoding),
    }
}

/// Where the text of the first `k` descriptors cannot be written, neither
/// can the text of more.
proof fn lemma_entries_text_fails(index: Seq<FileEntryView>, k: int, n: int)
    requires
        0 < k <= n <= index.len(),
        entries_text(index, k) is None,
    ensures
        entries_text(index, n) is None,
    decreases n,
{
    if n > k {
        lemma_entries_text_fails(index, k, n - 1);
    }
}

} // verus!
