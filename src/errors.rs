//! Outcomes of a selection that carry no poem.
use vstd::prelude::*;

verus! {

/// Why a selection gave no poem.
#[derive(Debug, Clone, Copy, PartialEq, Eq, Structural)]
pub enum Error {
    /// The store was read, and no poem matched.
    NotFound,
    /// The store could not be read at all.
    StorageFailure,
}

/// The corpus store could not be queried (lost connection, bad statement,
/// store unavailable).
#[derive(Debug, Clone, Copy, PartialEq, Eq, Structural)]
pub struct StoreError;

} // verus!
