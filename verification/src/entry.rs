//! File descriptors and the index they form.
//!
//! An index is an ordered list of descriptors. Its order is the order of the
//! files' bytes in the payload, and no two of its descriptors share a path.

use vstd::prelude::*;

verus! {

/// One file of an archive: its relative path and its length in bytes.
#[derive(Debug, Clone, PartialEq, Eq)]
pub struct FileEntry {
    pub path: String,
    pub size: u64,
}

/// What a `FileEntry` stands for in contracts.
pub struct FileEntryView {
    pub path: Seq<char>,
    pub size: u64,
}

impl View for FileEntry {
    type V = FileEntryView;

    open spec fn view(&self) -> FileEntryView {
        FileEntryView { path: self.path@, size: self.size }
    }
}

impl DeepView for FileEntry {
    type V = FileEntryView;

    open spec fn deep_view(&self) -> FileEntryView {
        self@
    }
}

/// Some descriptor of `index` has the path `path`.
pub open spec fn has_path(index: Seq<FileEntryView>, path: Seq<char>) -> bool {
    exists|i: int| 0 <= i < index.len() && #[trigger] index[i].path == path
}

/// `i` is the first place of `index` whose descriptor has the path `path`.
pub open spec fn is_first_with_path(index: Seq<FileEntryView>, path: Seq<char>, i: int) -> bool {
    &&& 0 <= i < index.len()
    &&& index[i].path == path
    &&& forall|j: int| 0 <= j < i ==> #[trigger] index[j].path != path
}

/// No two descriptors of `index` share a path.
pub open spec fn unique_paths(index: Seq<FileEntryView>) -> bool {
    forall|i: int, j: int|
        0 <= i < j < index.len() ==> #[trigger] index[i].path != #[trigger] index[j].path
}

/// The bytes that the first `k` descriptors of `index` announce together.
pub open spec fn prefix_size(index: Seq<FileEntryView>, k: int) -> nat
    decreases k,
{
    if k <= 0 || k > index.len() {
        0
    } else {
        prefix_size(index, k - 1) + index[k - 1].size as nat
    }
}

/// The bytes that all descriptors of `index` announce together: the length
/// that the payload must have.
pub open spec fn total_size(index: Seq<FileEntryView>) -> nat {
    prefix_size(index, index.len() as int)
}

/// Looks `path` up in `index` by exact match.
pub fn find_entry(index: &Vec<FileEntry>, path: &str) -> (r: Option<usize>)
    ensures
        match r {
            Some(i) => is_first_with_path(index.deep_view(), path@, i as int),
            None => !has_path(index.deep_view(), path@),
        },
{
    let wanted = path.to_owned();
    let mut i: usize = 0;
    while i < index.len()
        invariant
            i <= index.len(),
            wanted@ == path@,
            forall|j: int| 0 <= j < i ==> #[trigger] index.deep_view()[j].path != path@,
        decreases index.len() - i,
    {
        if index[i].path == wanted {
            return Some(i);
        }
        i += 1;
    }
    None
}

/// Tells whether every path of `index` occurs once.
pub fn paths_unique(index: &Vec<FileEntry>) -> (r: bool)
    ensures
        r == unique_paths(index.deep_view()),
{
    let ghost view = index.deep_view();
    let mut j: usize = 0;
    while j < index.len()
        invariant
            j <= index.len(),
            view == index.deep_view(),
            forall|a: int, b: int|
                0 <= a < b < j ==> #[trigger] view[a].path != #[trigger] view[b].path,
        decreases index.len() - j,
    {
        let mut i: usize = 0;
        while i < j
            invariant
                i <= j < index.len(),
                view == index.deep_view(),
                forall|a: int| 0 <= a < i ==> #[trigger] view[a].path != view[j as int].path,
            decreases j - i,
        {
            if index[i].path == index[j].path {
                assert(view[i as int].path == view[j as int].path);
                return false;
            }
            i += 1;
        }
        j += 1;
    }
    true
}

/// Copies an index.
pub fn clone_index(index: &Vec<FileEntry>) -> (r: Vec<FileEntry>)
    ensures
        r.deep_view() == index.deep_view(),
{
    let mut out: Vec<FileEntry> = Vec::new();
    let mut i: usize = 0;
    while i < index.len()
        invariant
            i <= index.len(),
            out.len() == i,
            forall|j: int| 0 <= j < i ==> #[trigger] out[j]@ == index[j]@,
        decreases index.len() - i,
    {
        out.push(FileEntry { path: index[i].path.clone(), size: index[i].size });
        i += 1;
    }
    assert(out.deep_view() =~= index.deep_view());
    out
}

/// Tells whether two indexes list the same descriptors in the same order.
pub fn same_index(a: &Vec<FileEntry>, b: &Vec<FileEntry>) -> (r: bool)
    ensures
        r == (a.deep_view() == b.deep_view()),
{
    if a.len() != b.len() {
        assert(a.deep_view().len() != b.deep_view().len());
        return false;
    }
    let mut i: usize = 0;
    while i < a.len()
        invariant
            i <= a.len(),
            a.len() == b.len(),
            forall|j: int| 0 <= j < i ==> #[trigger] a[j]@ == b[j]@,
        decreases a.len() - i,
    {
        if !(a[i].path == b[i].path) || a[i].size != b[i].size {
            assert(a.deep_view()[i as int] != b.deep_view()[i as int]);
            return false;
        }
        i += 1;
    }
    assert(a.deep_view() =~= b.deep_view());
    true
}

} // verus!
