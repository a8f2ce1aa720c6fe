//! Fixed-size identifiers shared by the consensus records.

use vstd::prelude::*;

verus! {

/// A 32-byte opaque identifier: a parent link, a randomness commitment or a state root.
#[derive(Clone, Copy, Debug, PartialEq, Eq)]
pub struct Hash256 {
    pub bytes: [u8; 32],
}

impl View for Hash256 {
    type V = Seq<u8>;

    open spec fn view(&self) -> Seq<u8> {
        self.bytes@
    }
}

/// The sentinel that stands for "unset" or "genesis": thirty-two zero bytes.
pub open spec fn zero_hash() -> Seq<u8> {
    Seq::new(32, |i: int| 0u8)
}

/// Two hash values with the same bytes are the same hash value.
pub proof fn lemma_hash_known_by_view(a: Hash256, b: Hash256)
    requires
        a@ == b@,
    ensures
        a == b,
{
    assert(a.bytes =~= b.bytes);
}

impl Hash256 {
    /// The zero hash.
    pub fn zero() -> (h: Hash256)
        ensures
            h@ == zero_hash(),
    {
        let h = Hash256 { bytes: [0u8; 32] };
        assert(h@ =~= zero_hash());
        h
    }

    /// Whether this is the zero hash.
    pub fn is_zero(&self) -> (b: bool)
        ensures
            b == (self@ == zero_hash()),
    {
        let mut i: usize = 0;
        while i < 32
            invariant
                i <= 32,
                forall|j: int| 0 <= j < i ==> self.bytes@[j] == 0u8,
            decreases 32 - i,
        {
            if self.bytes[i] != 0 {
                assert(self@[i as int] != zero_hash()[i as int]);
                return false;
            }
            i += 1;
        }
        assert(self@ =~= zero_hash());
        true
    }
}

} // verus!
