//! Byte-string helpers shared by the keyed containers of this crate.

use vstd::prelude::*;

verus! {

/// Whether two byte strings hold the same bytes.
pub fn bytes_eq(a: &[u8], b: &[u8]) -> (same: bool)
    ensures
        same == (a@ == b@),
{
    if a.len() != b.len() {
        return false;
    }
    let mut i: usize = 0;
    while i < a.len()
        invariant
            a@.len() == b@.len(),
            i <= a@.len(),
            forall|j: int| 0 <= j < i ==> a@[j] == b@[j],
        decreases a@.len() - i,
    {
        if a[i] != b[i] {
            return false;
        }
        i += 1;
    }
    assert(a@ =~= b@);
    true
}

/// A fresh copy of a byte string.
pub fn copy_bytes(source: &[u8]) -> (copy: Vec<u8>)
    ensures
        copy@ == source@,
{
    let mut copy: Vec<u8> = Vec::with_capacity(source.len());
    let mut i: usize = 0;
    while i < source.len()
        invariant
            i <= source@.len(),
            copy@ == source@.take(i as int),
        decreases source@.len() - i,
    {
        copy.push(source[i]);
        assert(source@.take(i as int).push(source@[i as int]) =~= source@.take(i + 1));
        i += 1;
    }
    assert(source@.take(source@.len() as int) =~= source@);
    copy
}

} // verus!
