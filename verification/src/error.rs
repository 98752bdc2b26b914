use vstd::prelude::*;

verus! {

/// The failures that a handler of the relay reports to its caller.
#[derive(Clone, Copy, Debug, PartialEq, Eq, Structural)]
pub enum NetworkError {
    /// The consensus verifier failed before it could judge a transaction.
    Verification,
    /// A transaction of a memory pool batch could not be decoded; `index`
    /// is its position in the batch.
    UndecodableTransaction { index: usize },
}

} // verus!
