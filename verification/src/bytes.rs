//! Small helpers on runs of bytes.

use vstd::prelude::*;
use vstd::string::*;

verus! {

/// The bytes of a run of ASCII characters.
pub open spec fn ascii_bytes(s: Seq<char>) -> Seq<u8> {
    Seq::new(s.len(), |i: int| s[i] as u8)
}

/// The bytes of an ASCII string.
pub(crate) fn ascii(s: &str) -> (r: &[u8])
    requires
        s.is_ascii(),
    ensures
        r@ == ascii_bytes(s@),
{
    broadcast use is_ascii_spec_bytes;

    s.as_bytes()
}

/// Appends the bytes of an ASCII string.
pub(crate) fn push_ascii(out: &mut Vec<u8>, s: &str)
    requires
        s.is_ascii(),
    ensures
        final(out)@ == old(out)@ + ascii_bytes(s@),
{
    out.extend_from_slice(ascii(s));
}

/// Tells whether `b` occurs in `bytes`.
pub fn has_byte(bytes: &[u8], b: u8) -> (r: bool)
    ensures
        r == bytes@.contains(b),
{
    let mut i: usize = 0;
    while i < bytes.len()
        invariant
            i <= bytes.len(),
            forall|j: int| 0 <= j < i ==> bytes[j] != b,
        decreases bytes.len() - i,
    {
        if bytes[i] == b {
            return true;
        }
        i += 1;
    }
    false
}

/// Tells whether two runs of bytes are the same.
pub fn same_bytes(a: &[u8], b: &[u8]) -> (r: bool)
    ensures
        r == (a@ == b@),
{
    if a.len() != b.len() {
        return false;
    }
    let mut i: usize = 0;
    while i < a.len()
        invariant
            i <= a.len(),
            a.len() == b.len(),
            forall|j: int| 0 <= j < i ==> a[j] == b[j],
        decreases a.len() - i,
    {
        if a[i] != b[i] {
            return false;
        }
        i += 1;
    }
    assert(a@ =~= b@);
    true
}

/// The first bytes of `data`, up to `limit` of them.
pub fn head(data: &[u8], limit: usize) -> (r: Vec<u8>)
    ensures
        r@ == data@.take(
            if data.len() < limit {
                data.len() as int
            } else {
                limit as int
            },
        ),
{
    let n = if data.len() < limit {
        data.len()
    } else {
        limit
    };
    let r = vstd::slice::slice_to_vec(vstd::slice::slice_subrange(data, 0, n));
    assert(r@ =~= data@.take(n as int));
    r
}

} // verus!
