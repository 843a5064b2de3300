//! A share of a whole, kept exact.
use vstd::prelude::*;

verus! {

/// `part` of `whole`. Its percentage is `100 * part / whole`, and 0 where the whole is 0.
#[derive(Debug, Clone, Copy, PartialEq, Eq, Structural)]
pub struct Ratio {
    pub part: u64,
    pub whole: u64,
}

} // verus!
