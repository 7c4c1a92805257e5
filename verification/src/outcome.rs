//! The values an evaluation can end in.

use vstd::prelude::*;

verus! {

/// The policy outcome of one evaluation.
#[derive(Clone, Copy, Debug, PartialEq, Eq, Structural)]
pub enum SpfQueryResult {
    Pass,
    Fail,
    SoftFail,
}

/// Why an evaluation, or the setup before it, gave no policy outcome.
#[derive(Clone, Copy, Debug, PartialEq, Eq, Structural)]
pub enum SpfError {
    /// A term matcher could not be set up.
    ConfigInitFailed,
    /// The text does not carry the policy prefix.
    NotAPolicyRecord,
    /// A candidate record fetched during the walk could not be parsed.
    ParseFailed,
    /// The text records of a domain could not be fetched.
    TxtLookupFailed,
    /// The mail exchangers of the sender domain could not be fetched.
    MxLookupFailed,
    /// The walk asked for more lookups than the evaluation allows.
    LoopDetected,
}

} // verus!
