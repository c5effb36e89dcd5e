//! The byte-relay hook of the plain TCP and UDP forwarders: each datagram
//! or chunk passes through here on its way to the other side, unchanged
//! unless an inspection step is added.

use vstd::prelude::*;

verus! {

/// Hand a relayed chunk on.  Today this is the identity on the bytes.
pub fn process_data(data: &[u8]) -> (r: Vec<u8>)
    ensures
        r@ == data@,
{
    let n: usize = data.len();
    let mut r: Vec<u8> = Vec::new();
    let mut i: usize = 0;
    while i < n
        invariant
            n == data@.len(),
            i <= n,
            r@ == data@.subrange(0, i as int),
        decreases n - i,
    {
        r.push(data[i]);
        proof {
            assert(r@ =~= data@.subrange(0, i + 1));
        }
        i = i + 1;
    }
    proof {
        assert(r@ =~= data@);
    }
    r
}

} // verus!
