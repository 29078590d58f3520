//! Source spans as identities of markup nodes.

use vstd::prelude::*;

verus! {

/// Identity of a markup node: the byte range it covers in the source text.
///
/// Two keys are the same key exactly when both offsets agree.
#[derive(Clone, Copy, Debug, PartialEq, Eq, Structural, Hash)]
pub struct SpanKey {
    pub lo: u32,
    pub hi: u32,
}

impl SpanKey {
    /// The two offsets packed into one integer, `lo` in the upper half.
    pub open spec fn packed(self) -> int {
        self.lo as int * 0x1_0000_0000 + self.hi as int
    }

    pub fn new(lo: u32, hi: u32) -> (key: SpanKey)
        ensures
            key.lo == lo,
            key.hi == hi,
    {
        SpanKey { lo, hi }
    }

    /// The packed form of the key, under which a record stores it.
    pub fn pack(&self) -> (k: u64)
        ensures
            k as int == self.packed(),
    {
        let lo: u64 = self.lo as u64;
        let hi: u64 = self.hi as u64;
        lo * 0x1_0000_0000u64 + hi
    }

    /// Packing loses nothing: equal packed forms come from equal keys.
    pub proof fn packed_injective(a: SpanKey, b: SpanKey)
        ensures
            a.packed() == b.packed() <==> a == b,
    {
    }
}

} // verus!
