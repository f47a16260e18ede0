//! Copies of bytes.
use vstd::prelude::*;

verus! {

/// A copy of the first `count` bytes.
pub fn copy_of_first(data: &[u8], count: usize) -> (r: Vec<u8>)
    requires
        count <= data@.len(),
    ensures
        r@ == data@.take(count as int),
{
    let mut out: Vec<u8> = Vec::new();
    let mut i: usize = 0;
    while i < count
        invariant
            i <= count <= data@.len(),
            out@ == data@.take(i as int),
        decreases count - i,
    {
        out.push(data[i]);
        assert(out@ =~= data@.take(i + 1));
        i = i + 1;
    }
    out
}

/// A copy of all bytes.
pub fn copy_of_all(data: &[u8]) -> (r: Vec<u8>)
    ensures
        r@ == data@,
{
    assert(data@.take(data@.len() as int) =~= data@);
    copy_of_first(data, data.len())
}

} // verus!
