//! Identities: opaque 32-byte addresses. An identity names a record, an
//! external signer, or a derived signer that only a program can act for.

use vstd::prelude::*;
use crate::codec::{bytes_eq, clone_bytes};

verus! {

/// An opaque 32-byte address.
#[derive(Debug)]
pub struct Identity {
    pub bytes: Vec<u8>,
}

impl View for Identity {
    type V = Seq<u8>;

    open spec fn view(&self) -> Seq<u8> {
        self.bytes@
    }
}

/// The all-zero address: the identity of the external runtime's allocator
/// (the system program).
pub open spec fn zero_identity() -> Seq<u8> {
    Seq::new(32, |i: int| 0u8)
}

impl Identity {
    /// A well-formed identity holds exactly 32 bytes.
    pub open spec fn wf(&self) -> bool {
        self@.len() == 32
    }

    pub fn from_bytes(bytes: Vec<u8>) -> (r: Identity)
        requires
            bytes@.len() == 32,
        ensures
            r@ == bytes@,
            r.wf(),
    {
        Identity { bytes }
    }

    /// The all-zero identity.
    pub fn zeroed() -> (r: Identity)
        ensures
            r@ == zero_identity(),
            r.wf(),
    {
        let mut bytes: Vec<u8> = Vec::new();
        let mut i: usize = 0;
        while i < 32
            invariant
                i <= 32,
                bytes@.len() == i,
                forall|j: int| 0 <= j < i ==> bytes@[j] == 0u8,
            decreases 32 - i,
        {
            bytes.push(0u8);
            i += 1;
        }
        proof {
            assert(bytes@ =~= zero_identity());
        }
        Identity { bytes }
    }

    /// Whether two identities are the same address.
    pub fn same_as(&self, other: &Identity) -> (r: bool)
        ensures
            r == (self@ == other@),
    {
        bytes_eq(&self.bytes, &other.bytes)
    }

    /// Whether this is the all-zero address.
    pub fn is_zero(&self) -> (r: bool)
        ensures
            r == (self@ == zero_identity()),
    {
        if self.bytes.len() != 32 {
            return false;
        }
        let mut i: usize = 0;
        while i < 32
            invariant
                i <= 32,
                self@.len() == 32,
                forall|j: int| 0 <= j < i ==> self@[j] == 0u8,
            decreases 32 - i,
        {
            if self.bytes[i] != 0u8 {
                return false;
            }
            i += 1;
        }
        proof {
            assert(self@ =~= zero_identity());
        }
        true
    }
}

impl Clone for Identity {
    fn clone(&self) -> (r: Self)
        ensures
            r@ == self@,
    {
        Identity { bytes: clone_bytes(&self.bytes) }
    }
}

} // verus!
