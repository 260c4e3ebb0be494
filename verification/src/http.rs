use vstd::prelude::*;

verus! {

/// An HTTP header: its name and its value.
pub struct HeaderField(pub String, pub String);

/// An HTTP status code.
pub type StatusCode = u16;

/// A byte blob.
pub type Blob = Vec<u8>;

} // verus!
