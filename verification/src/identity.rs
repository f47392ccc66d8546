//! Identities of bettors, referrers and the oracle: 32-byte public keys.

use vstd::prelude::*;

verus! {

/// A 32-byte public key.
#[derive(Clone, Copy, Debug, PartialEq, Eq, Hash)]
pub struct Identity {
    pub bytes: [u8; 32],
}

/// The identity whose bytes are all zero. It stands where no key has been
/// configured.
pub open spec fn zero_identity() -> Identity {
    Identity { bytes: vstd::array::spec_array_fill_for_copy_type::<u8, 32>(0u8) }
}

impl Identity {
    /// The all-zero identity.
    pub fn zero() -> (id: Identity)
        ensures
            id == zero_identity(),
    {
        Identity { bytes: [0u8; 32] }
    }

    /// Wraps the raw key bytes.
    pub fn new(bytes: [u8; 32]) -> (id: Identity)
        ensures
            id.bytes == bytes,
    {
        Identity { bytes }
    }

    /// Byte-wise comparison of two identities.
    pub fn same(&self, other: &Identity) -> (r: bool)
        ensures
            r == (*self == *other),
    {
        let mut i: usize = 0;
        while i < 32
            invariant
                i <= 32,
                forall|k: int| 0 <= k < i ==> self.bytes[k] == other.bytes[k],
            decreases 32 - i,
        {
            if self.bytes[i] != other.bytes[i] {
                return false;
            }
            i += 1;
        }
        assert(self.bytes =~= other.bytes);
        true
    }
}

} // verus!
