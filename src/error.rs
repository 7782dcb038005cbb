use vstd::prelude::*;

verus! {

/// Why a control plane could not answer a query.
#[derive(Debug, Clone, Copy, PartialEq, Eq, Structural)]
pub enum Error {
    /// The buffer was exhausted before the request could be satisfied.
    InsufficientData,
    /// The decoded bytes did not have the expected shape.
    MalformedInput,
    /// A selection was requested over zero candidates.
    EmptyChoice,
    /// A placeholder control plane was asked for a real decision.
    PlaceholderAccessed,
}

} // verus!
