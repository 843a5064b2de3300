//! Types of other crates that pass through the library unread.
use vstd::prelude::*;

verus! {

/// `std::io::Error`, carried and never looked into.
#[verifier::external_type_specification]
#[verifier::external_body]
pub struct ExIoError(std::io::Error);

} // verus!
