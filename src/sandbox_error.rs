use vstd::prelude::*;

verus! {

/// A failed call to an execution backend: the transport or the backend
/// itself reported an error, carried here as its message.
pub struct SandboxError {
    pub message: String,
}

} // verus!
