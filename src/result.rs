use vstd::prelude::*;

verus! {

/// The errors that store operations report.
#[derive(Debug)]
pub enum KvsError {
    /// A key argument was the empty byte string.
    EmptyKey,
    /// A batch was malformed, such as keys and values of different counts.
    InvalidData(String),
    /// A failure of the layer underneath, with its message.
    Internal(String),
}

/// The result of a store operation.
pub type Result<T> = std::result::Result<T, KvsError>;

} // verus!
