//! Identities: the thirty-two byte keys by which owners and grantees are known.

use vstd::prelude::*;

verus! {

/// An already-authenticated identity, held as its thirty-two raw bytes.
#[derive(Clone, Copy, Debug, PartialEq, Eq, Hash)]
pub struct Identity {
    pub bytes: [u8; 32],
}

impl View for Identity {
    type V = Seq<u8>;

    open spec fn view(&self) -> Seq<u8> {
        self.bytes@
    }
}

impl Identity {
    /// Wraps thirty-two raw bytes.
    pub fn new(bytes: [u8; 32]) -> (id: Identity)
        ensures
            id.bytes == bytes,
            id@ == bytes@,
    {
        Identity { bytes }
    }

    /// Whether two identities are the same key.
    pub fn same(&self, other: &Identity) -> (eq: bool)
        ensures
            eq == (self@ == other@),
            eq == (*self == *other),
    {
        proof {
            lemma_identity_by_bytes(*self, *other);
        }
        let mut i: usize = 0;
        while i < 32
            invariant
                i <= 32,
                forall|k: int| 0 <= k < i ==> self.bytes[k] == other.bytes[k],
            decreases 32 - i,
        {
            if self.bytes[i] != other.bytes[i] {
                return false;
            }
            i += 1;
        }
        assert(self@ =~= other@);
        true
    }
}

/// Identities are the same exactly when their bytes are.
pub proof fn lemma_identity_by_bytes(a: Identity, b: Identity)
    ensures
        (a@ == b@) <==> (a == b),
{
    if a@ == b@ {
        assert(a.bytes =~= b.bytes);
    }
}

} // verus!
