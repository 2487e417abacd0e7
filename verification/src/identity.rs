//! Identities: opaque byte strings of at most 29 bytes.

use vstd::prelude::*;

verus! {

/// The largest number of bytes an identity can hold.
pub const MAX_IDENTITY_BYTES: usize = 29;

/// The canonical textual form of an identity, as a function of its bytes.
pub uninterp spec fn principal_text(bytes: Seq<u8>) -> Seq<char>;

/// Renders the identity bytes with `candid::Principal::to_text`, after
/// building the principal with `candid::Principal::from_slice`.
///
/// Trusted: the text depends on the bytes alone (a CRC32 checksum and the
/// bytes, in lower-case base32, grouped by five); it is named, not spelled
/// out. `from_slice` panics on more than 29 bytes, which `requires` excludes.
#[verifier::external_body]
fn principal_to_text(bytes: &Vec<u8>) -> (text: String)
    requires
        bytes@.len() <= MAX_IDENTITY_BYTES,
    ensures
        text@ == principal_text(bytes@),
{
    candid::Principal::from_slice(bytes.as_slice()).to_text()
}

/// An authenticated identity (a user, an administrator, a resource handle).
///
/// Its view is the sequence of its bytes; two identities are the same
/// exactly when their views are equal.
#[derive(Debug, PartialEq, Eq, Hash)]
pub struct Identity {
    bytes: Vec<u8>,
}

impl View for Identity {
    type V = Seq<u8>;

    closed spec fn view(&self) -> Seq<u8> {
        self.bytes@
    }
}

impl Identity {
    #[verifier::type_invariant]
    spec fn within_limit(&self) -> bool {
        self.bytes@.len() <= MAX_IDENTITY_BYTES
    }

    /// The identity with the given bytes, or `None` when there are more
    /// than 29 of them.
    pub fn from_bytes(bytes: Vec<u8>) -> (r: Option<Identity>)
        ensures
            bytes@.len() <= MAX_IDENTITY_BYTES ==> r is Some && r->0@ == bytes@,
            bytes@.len() > MAX_IDENTITY_BYTES ==> r is None,
    {
        if bytes.len() <= MAX_IDENTITY_BYTES {
            Some(Identity { bytes })
        } else {
            None
        }
    }

    /// The bytes of the identity.
    pub fn as_bytes(&self) -> (r: &Vec<u8>)
        ensures
            r@ == self@,
            r@.len() <= MAX_IDENTITY_BYTES,
    {
        proof {
            use_type_invariant(self);
        }
        &self.bytes
    }

    /// Whether two identities are the same.
    pub fn same_as(&self, other: &Identity) -> (r: bool)
        ensures
            r == (self@ == other@),
    {
        if self.bytes.len() != other.bytes.len() {
            return false;
        }
        let n = self.bytes.len();
        let mut i: usize = 0;
        while i < n
            invariant
                n == self.bytes@.len(),
                n == other.bytes@.len(),
                i <= n,
                forall|j: int| 0 <= j < i ==> self.bytes@[j] == other.bytes@[j],
            decreases n - i,
        {
            if self.bytes[i] != other.bytes[i] {
                return false;
            }
            i += 1;
        }
        assert(self.bytes@ =~= other.bytes@);
        true
    }

    /// The canonical text of the identity.
    pub fn to_text(&self) -> (text: String)
        ensures
            text@ == principal_text(self@),
    {
        proof {
            use_type_invariant(self);
        }
        principal_to_text(&self.bytes)
    }
}

impl Clone for Identity {
    fn clone(&self) -> (r: Self)
        ensures
            r@ == self@,
    {
        proof {
            use_type_invariant(self);
        }
        let bytes = self.bytes.clone();
        assert(bytes@ =~= self.bytes@);
        Identity { bytes }
    }
}

} // verus!
