//! What can go wrong in a pipeline.
use vstd::prelude::*;

verus! {

#[derive(Debug, Clone)]
pub enum Error {
    /// A pipeline could not be built or run.
    Pipeline { message: String, fatal: bool },
}

impl Error {
    /// What the error says.
    pub open spec fn text(&self) -> Seq<char> {
        match self {
            Error::Pipeline { message, .. } => message@,
        }
    }

    pub open spec fn is_fatal(&self) -> bool {
        match self {
            Error::Pipeline { fatal, .. } => *fatal,
        }
    }
}

} // verus!
