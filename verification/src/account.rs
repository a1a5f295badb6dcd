//! Account identifiers: opaque participant identities, held as raw bytes.

use vstd::prelude::*;

verus! {

/// The byte form of the reserved "no identity" participant. A transfer
/// whose recipient carries these bytes is refused.
pub open spec fn anonymous_bytes() -> Seq<u8> {
    seq![4u8]
}

/// Identifies a ledger participant. The bytes are the participant's
/// principal identity as the host hands it over; the ledger itself only
/// compares identities for equality and against the reserved anonymous
/// value.
#[derive(Clone)]
pub struct AccountId {
    pub bytes: Vec<u8>,
}

impl View for AccountId {
    type V = Seq<u8>;

    open spec fn view(&self) -> Seq<u8> {
        self.bytes@
    }
}

impl AccountId {
    /// Wraps the raw bytes of a participant identity.
    pub fn from_bytes(bytes: Vec<u8>) -> (r: AccountId)
        ensures
            r@ == bytes@,
    {
        AccountId { bytes }
    }

    /// The reserved identity that stands for "no caller".
    pub fn anonymous() -> (r: AccountId)
        ensures
            r@ == anonymous_bytes(),
    {
        let mut bytes: Vec<u8> = Vec::new();
        bytes.push(4u8);
        proof {
            assert(bytes@ =~= anonymous_bytes());
        }
        AccountId { bytes }
    }

    /// Read access to the identity bytes, for the host-side conversion
    /// back into its own identity type.
    pub fn as_bytes(&self) -> (r: &Vec<u8>)
        ensures
            r@ == self@,
    {
        &self.bytes
    }

    /// Byte-for-byte equality of two identities.
    pub fn eq_account(&self, other: &AccountId) -> (r: bool)
        ensures
            r == (self@ == other@),
    {
        if self.bytes.len() != other.bytes.len() {
            return false;
        }
        let n = self.bytes.len();
        let mut i: usize = 0;
        while i < n
            invariant
                i <= n,
                n == self.bytes@.len(),
                n == other.bytes@.len(),
                forall|j: int| 0 <= j < i ==> self.bytes@[j] == other.bytes@[j],
            decreases n - i,
        {
            if self.bytes[i] != other.bytes[i] {
                return false;
            }
            i = i + 1;
        }
        proof {
            assert(self@ =~= other@);
        }
        true
    }

    /// Whether this is the reserved anonymous identity.
    pub fn is_anonymous(&self) -> (r: bool)
        ensures
            r == (self@ == anonymous_bytes()),
    {
        if self.bytes.len() != 1 {
            return false;
        }
        if self.bytes[0] == 4u8 {
            proof {
                assert(self@ =~= anonymous_bytes());
            }
            true
        } else {
            false
        }
    }
}

} // verus!
