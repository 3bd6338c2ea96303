//! Identities of callers and actors, and their textual form.

use vstd::prelude::*;

verus! {

/// The largest number of bytes an identity can hold.
pub const MAX_IDENTITY_BYTES: usize = 29;

/// The textual form that `candid::Principal::to_text` gives to the principal
/// made of these bytes.
pub uninterp spec fn principal_text(bytes: Seq<u8>) -> Seq<char>;

/// The bytes of the principal that `candid::Principal::from_text` reads from
/// this text, or `None` where it reports an error.
pub uninterp spec fn principal_of_text(text: Seq<char>) -> Option<Seq<u8>>;

/// The error of `candid::Principal::from_text`. Nothing is read from it.
#[verifier::external_type_specification]
#[verifier::external_body]
pub struct ExPrincipalError(candid::types::principal::PrincipalError);

/// Calls `candid::Principal::from_slice` and then `to_text` on the result.
///
/// Trusted: the text is the one named by [`principal_text`]; it is made of
/// lower-case base-32 characters and dashes only, so it holds no `#`; and
/// `from_text` reads the same bytes back from it. `from_slice` panics on more
/// than 29 bytes, which the precondition leaves out.
#[verifier::external_body]
fn principal_to_text(bytes: &Vec<u8>) -> (text: String)
    requires
        bytes@.len() <= MAX_IDENTITY_BYTES,
    ensures
        text@ == principal_text(bytes@),
        principal_of_text(text@) == Some(bytes@),
        !text@.contains('#'),
{
    candid::Principal::from_slice(bytes.as_slice()).to_text()
}

/// Calls `candid::Principal::from_text`.
///
/// Trusted: the outcome is the one named by [`principal_of_text`], and a
/// principal that was read holds at most 29 bytes.
#[verifier::external_body]
fn principal_from_text(text: &str) -> (outcome: Result<
    Vec<u8>,
    candid::types::principal::PrincipalError,
>)
    ensures
        outcome matches Ok(bytes) ==> principal_of_text(text@) == Some(bytes@) && bytes@.len()
            <= MAX_IDENTITY_BYTES,
        outcome is Err ==> principal_of_text(text@) is None,
{
    match candid::Principal::from_text(text) {
        Ok(principal) => Ok(principal.as_slice().to_vec()),
        Err(error) => Err(error),
    }
}

/// An opaque, globally unique principal: a caller or an actor.
#[derive(Debug)]
pub struct Identity {
    bytes: Vec<u8>,
}

impl View for Identity {
    type V = Seq<u8>;

    closed spec fn view(&self) -> Seq<u8> {
        self.bytes@
    }
}

impl Identity {
    #[verifier::type_invariant]
    spec fn bounded(self) -> bool {
        self.bytes@.len() <= MAX_IDENTITY_BYTES
    }

    /// The identity made of `bytes`, unless there are too many of them.
    pub fn from_bytes(bytes: Vec<u8>) -> (identity: Option<Identity>)
        ensures
            identity is Some <==> bytes@.len() <= MAX_IDENTITY_BYTES,
            identity matches Some(id) ==> id@ == bytes@,
    {
        if bytes.len() <= MAX_IDENTITY_BYTES {
            Some(Identity { bytes })
        } else {
            None
        }
    }

    /// The identity of a caller that did not sign its request.
    pub fn anonymous() -> (identity: Identity)
        ensures
            identity@ == seq![4u8],
    {
        let mut bytes: Vec<u8> = Vec::new();
        bytes.push(4);
        assert(bytes@ =~= seq![4u8]);
        Identity { bytes }
    }

    /// The bytes of this identity, of which there are no more than
    /// [`MAX_IDENTITY_BYTES`].
    pub fn to_bytes(&self) -> (bytes: Vec<u8>)
        ensures
            bytes@ == self@,
            bytes@.len() <= MAX_IDENTITY_BYTES,
    {
        proof {
            use_type_invariant(self);
        }
        self.bytes.clone()
    }

    /// The textual form of this identity.
    pub fn to_text(&self) -> (text: String)
        ensures
            text@ == principal_text(self@),
            principal_of_text(text@) == Some(self@),
            !text@.contains('#'),
    {
        proof {
            use_type_invariant(self);
        }
        principal_to_text(&self.bytes)
    }

    /// Reads an identity from its textual form.
    pub fn from_text(text: &str) -> (identity: Option<Identity>)
        ensures
            identity is Some <==> principal_of_text(text@) is Some,
            identity matches Some(id) ==> principal_of_text(text@) == Some(id@),
    {
        match principal_from_text(text) {
            Ok(bytes) => Some(Identity { bytes }),
            Err(_) => None,
        }
    }
}

impl Clone for Identity {
    fn clone(&self) -> (copy: Self)
        ensures
            copy@ == self@,
    {
        proof {
            use_type_invariant(self);
        }
        Identity { bytes: self.bytes.clone() }
    }
}

impl PartialEq for Identity {
    fn eq(&self, other: &Identity) -> (same: bool) {
        if self.bytes.len() != other.bytes.len() {
            return false;
        }
        let mut at: usize = 0;
        while at < self.bytes.len()
            invariant
                at <= self.bytes@.len(),
                self.bytes@.len() == other.bytes@.len(),
                forall|k: int| 0 <= k < at ==> self.bytes@[k] == other.bytes@[k],
            decreases self.bytes@.len() - at,
        {
            if self.bytes[at] != other.bytes[at] {
                return false;
            }
            at += 1;
        }
        assert(self.bytes@ =~= other.bytes@);
        true
    }
}

impl Eq for Identity {

}

impl vstd::std_specs::cmp::PartialEqSpecImpl for Identity {
    open spec fn obeys_eq_spec() -> bool {
        true
    }

    open spec fn eq_spec(&self, other: &Identity) -> bool {
        self@ == other@
    }
}

} // verus!
