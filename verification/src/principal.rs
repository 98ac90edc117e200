//! Opaque actor identities. A principal names a caller, a group, a subject or
//! a canister; the core only ever compares principals for equality, so it
//! models one as its raw byte string.

use vstd::prelude::*;

verus! {

/// An actor identity: the raw bytes of a principal. The core never interprets
/// the bytes; it only compares them.
pub struct PrincipalId {
    bytes: Vec<u8>,
}

impl View for PrincipalId {
    type V = Seq<u8>;

    closed spec fn view(&self) -> Seq<u8> {
        self.bytes@
    }
}

/// The views of a list of principals.
pub open spec fn principal_views(s: Seq<PrincipalId>) -> Seq<Seq<u8>> {
    s.map_values(|p: PrincipalId| p@)
}

impl PrincipalId {
    pub fn new(bytes: Vec<u8>) -> (p: PrincipalId)
        ensures
            p@ == bytes@,
    {
        PrincipalId { bytes }
    }

    pub fn bytes(&self) -> (b: &Vec<u8>)
        ensures
            b@ == self@,
    {
        &self.bytes
    }

    /// Two principals are the same actor exactly when their bytes agree.
    pub fn is(&self, other: &PrincipalId) -> (r: bool)
        ensures
            r == (self@ == other@),
    {
        let n = self.bytes.len();
        if n != other.bytes.len() {
            assert(self@.len() != other@.len());
            return false;
        }
        let mut i: usize = 0;
        while i < n
            invariant
                n == self@.len(),
                n == other@.len(),
                i <= n,
                forall|j: int| 0 <= j < i ==> self@[j] == other@[j],
            decreases n - i,
        {
            if self.bytes[i] != other.bytes[i] {
                return false;
            }
            i = i + 1;
        }
        proof {
            assert(self@ =~= other@);
        }
        true
    }

    pub fn duplicate(&self) -> (p: PrincipalId)
        ensures
            p@ == self@,
    {
        let mut bytes: Vec<u8> = Vec::new();
        let mut i: usize = 0;
        while i < self.bytes.len()
            invariant
                i <= self@.len(),
                bytes@ == self@.subrange(0, i as int),
            decreases self@.len() - i,
        {
            bytes.push(self.bytes[i]);
            i = i + 1;
        }
        proof {
            assert(bytes@ =~= self@);
        }
        PrincipalId { bytes }
    }
}

} // verus!
