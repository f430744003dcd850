//! Errors the coordinator core can report to a client context. Only business
//! errors are represented: transport failures and best-effort cleanup
//! failures are absorbed by the runtime around the core and never reach a
//! client.

use vstd::prelude::*;

verus! {

/// An error retired to the client context that issued a statement.
#[derive(Clone, Copy, PartialEq, Eq, Structural, Debug)]
pub enum AdapterError {
    /// A dependency recorded in a validity snapshot vanished while a stage
    /// was suspended, and re-planning was not possible.
    StaleDependency(u64),
    /// A name in a statement resolves to no live catalog object.
    UnknownObject(u64),
    /// A business error reported by an asynchronous stage (validation or
    /// purification failed), carried through by its code.
    External(u64),
}

} // verus!
