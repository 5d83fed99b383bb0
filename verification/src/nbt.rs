//! Opaque binary tag data: the protocol carries it length-prefixed and the
//! engine never looks inside, so it is held as raw bytes.

use vstd::prelude::*;

verus! {

/// A raw binary tag payload.
#[derive(Debug, Clone, PartialEq)]
pub struct NbtData {
    bytes: Vec<u8>,
}

impl View for NbtData {
    type V = Seq<u8>;

    closed spec fn view(&self) -> Seq<u8> {
        self.bytes@
    }
}

impl NbtData {
    /// Wraps the given bytes.
    pub fn from_bytes(bytes: &[u8]) -> (r: NbtData)
        ensures
            r@ == bytes@,
    {
        let n = bytes.len();
        let mut out: Vec<u8> = Vec::new();
        let mut i: usize = 0;
        proof {
            assert(out@ =~= bytes@.take(0));
        }
        while i < n
            invariant
                n == bytes@.len(),
                i <= n,
                out@ == bytes@.take(i as int),
            decreases n - i,
        {
            out.push(bytes[i]);
            proof {
                assert(out@ =~= bytes@.take(i + 1));
            }
            i += 1;
        }
        proof {
            assert(bytes@.take(n as int) =~= bytes@);
        }
        NbtData { bytes: out }
    }

    /// The payload length in bytes.
    pub fn len(&self) -> (r: usize)
        ensures
            r == self@.len(),
    {
        self.bytes.len()
    }

    /// A copy of the payload bytes.
    pub fn to_bytes(&self) -> (r: Vec<u8>)
        ensures
            r@ == self@,
    {
        self.bytes.clone()
    }
}

} // verus!
