//! What the registry and a namespace can refuse.
use vstd::prelude::*;

verus! {

/// Why a request to a compiler session or to a namespace was refused.
#[derive(Debug, Clone, Copy, PartialEq, Eq, Structural)]
pub enum Error {
    /// A namespace name holds the path separator `/`.
    InvalidName,
    /// The name or the source path already identifies a namespace.
    DuplicateNamespace,
    /// No namespace has the key.
    UnknownNamespace,
    /// The namespace already has a function of that name.
    DuplicateFunction,
    /// The namespace has no function of that name.
    UnknownFunction,
}

} // verus!
