//! Byte strings: copying, comparing and the few views that several modules share.

use vstd::prelude::*;

verus! {

/// The byte strings held by a sequence of byte vectors.
pub open spec fn bytes_views(v: Seq<Vec<u8>>) -> Seq<Seq<u8>> {
    Seq::new(v.len(), |i: int| v[i]@)
}

/// Copies a byte string.
pub fn copy_bytes(b: &[u8]) -> (r: Vec<u8>)
    ensures
        r@ == b@,
{
    vstd::slice::slice_to_vec(b)
}

/// Compares two byte strings.
pub fn same_bytes(a: &[u8], b: &[u8]) -> (r: bool)
    ensures
        r == (a@ == b@),
{
    if a.len() != b.len() {
        return false;
    }
    let mut i: usize = 0;
    while i < a.len()
        invariant
            i <= a.len(),
            a.len() == b.len(),
            forall|k: int| 0 <= k < i ==> a@[k] == b@[k],
        decreases a.len() - i,
    {
        if a[i] != b[i] {
            return false;
        }
        i = i + 1;
    }
    assert(a@ =~= b@);
    true
}

/// Copies a list of byte strings.
pub fn copy_byte_lists(v: &Vec<Vec<u8>>) -> (r: Vec<Vec<u8>>)
    ensures
        bytes_views(r@) == bytes_views(v@),
{
    proof {
        assert(bytes_views(v@).take(v@.len() as int) =~= bytes_views(v@));
    }
    copy_byte_lists_prefix(v, v.len())
}

/// Copies the first `n` byte strings of a list.
pub fn copy_byte_lists_prefix(v: &Vec<Vec<u8>>, n: usize) -> (r: Vec<Vec<u8>>)
    requires
        n <= v.len(),
    ensures
        bytes_views(r@) == bytes_views(v@).take(n as int),
{
    let mut r: Vec<Vec<u8>> = Vec::new();
    let mut i: usize = 0;
    while i < n
        invariant
            i <= n <= v.len(),
            r.len() == i,
            forall|k: int| 0 <= k < i ==> r@[k]@ == v@[k]@,
        decreases n - i,
    {
        r.push(copy_bytes(v[i].as_slice()));
        i = i + 1;
    }
    assert(bytes_views(r@) =~= bytes_views(v@).take(n as int));
    r
}

/// Compares two lists of byte strings.
pub fn same_byte_lists(a: &Vec<Vec<u8>>, b: &Vec<Vec<u8>>) -> (r: bool)
    ensures
        r == (bytes_views(a@) == bytes_views(b@)),
{
    if a.len() != b.len() {
        assert(bytes_views(a@).len() != bytes_views(b@).len());
        return false;
    }
    let mut i: usize = 0;
    while i < a.len()
        invariant
            i <= a.len(),
            a.len() == b.len(),
            forall|k: int| 0 <= k < i ==> a@[k]@ == b@[k]@,
        decreases a.len() - i,
    {
        if !same_bytes(a[i].as_slice(), b[i].as_slice()) {
            assert(bytes_views(a@)[i as int] != bytes_views(b@)[i as int]);
            return false;
        }
        i = i + 1;
    }
    assert(bytes_views(a@) =~= bytes_views(b@));
    true
}

} // verus!
