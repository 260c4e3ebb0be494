use vstd::prelude::*;
use crate::rules::NotesError;

verus! {

/// The textual form of the principal with these bytes (`Principal::to_text`):
/// base32 of a CRC32 checksum and the bytes, lower case, in dash-separated
/// groups of five.
pub uninterp spec fn principal_text(bytes: Seq<u8>) -> Seq<char>;

/// The anonymous principal is the single byte 4.
pub open spec fn anonymous_bytes() -> Seq<u8> {
    seq![4u8]
}

/// Calls `candid::Principal::from_slice(bytes) == candid::Principal::anonymous()`.
/// `anonymous()` is the one-byte principal 4, and principals compare by their
/// bytes, so the result is whether `bytes` is that one byte. `from_slice`
/// panics beyond 29 bytes, hence the bound.
#[verifier::external_body]
pub(crate) fn is_anonymous(bytes: &[u8]) -> (r: bool)
    requires
        bytes@.len() <= 29,
    ensures
        r == (bytes@ == anonymous_bytes()),
{
    candid::Principal::from_slice(bytes) == candid::Principal::anonymous()
}

/// Calls `candid::Principal::from_slice(bytes).to_text()`; trusted to give
/// `principal_text(bytes@)`, a function of the bytes alone. `from_slice`
/// panics beyond 29 bytes, hence the bound.
#[verifier::external_body]
fn principal_to_text(bytes: &[u8]) -> (r: String)
    requires
        bytes@.len() <= 29,
    ensures
        r@ == principal_text(bytes@),
{
    candid::Principal::from_slice(bytes).to_text()
}

/// The name of the calling principal (given by its bytes), under which the
/// canister files its notes; the anonymous principal may not call.
pub fn caller_name(caller: &[u8]) -> (r: Result<String, NotesError>)
    requires
        caller@.len() <= 29,
    ensures
        caller@ == anonymous_bytes() ==> r == Err::<String, NotesError>(
            NotesError::AnonymousCaller,
        ),
        caller@ != anonymous_bytes() ==> (r matches Ok(name) && name@ == principal_text(caller@)),
{
    if is_anonymous(caller) {
        Err(NotesError::AnonymousCaller)
    } else {
        Ok(principal_to_text(caller))
    }
}

/// The calling principal's textual form; any caller, the anonymous one too.
pub fn whoami(caller: &[u8]) -> (r: String)
    requires
        caller@.len() <= 29,
    ensures
        r@ == principal_text(caller@),
{
    principal_to_text(caller)
}

} // verus!
