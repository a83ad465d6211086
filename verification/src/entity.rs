//! Entity handles and the error taxonomy of the storage core.

use vstd::prelude::*;

verus! {

/// An opaque entity handle: a dense, zero-based identifier. Identifiers are
/// issued in strictly increasing order starting at 0 and are never reused
/// within one storage instance.
#[derive(Clone, Copy, PartialEq, Eq, Structural, Debug)]
pub struct Entity(pub u32);

/// The failures an operation of the storage core can surface.
#[derive(Clone, Copy, PartialEq, Eq, Structural, Debug)]
pub enum EcsError {
    /// An operation referenced an entity with no registry row: one never
    /// created, or one previously removed.
    UnknownEntity,
    /// An acquisition violated the single-writer / multi-reader discipline on
    /// one stored component instance.
    BorrowConflict,
    /// A component-type collection was added for a token that already owns a
    /// collection.
    DuplicateRegistration,
}

} // verus!
