//! Principals: the identities that pay, play, administer and receive prizes.

use vstd::prelude::*;

verus! {

/// A principal identifier: 32 opaque bytes.
#[derive(Clone, Copy, Debug, PartialEq, Eq)]
pub struct Principal {
    pub bytes: [u8; 32],
}

impl Principal {
    /// The principal with the given bytes.
    pub fn new(bytes: [u8; 32]) -> (p: Principal)
        ensures
            p.bytes == bytes,
    {
        Principal { bytes }
    }

    /// Whether two identifiers name the same principal.
    pub fn same(&self, other: &Principal) -> (r: bool)
        ensures
            r == (*self == *other),
    {
        let mut i: usize = 0;
        while i < 32
            invariant
                i <= 32,
                forall|j: int| 0 <= j < i ==> self.bytes[j] == other.bytes[j],
            decreases 32 - i,
        {
            if self.bytes[i] != other.bytes[i] {
                return false;
            }
            i += 1;
        }
        assert(self.bytes =~= other.bytes);
        true
    }
}

} // verus!
