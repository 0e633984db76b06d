//! Memory fences that order the buffer's volatile accessors.

use std::sync::atomic::{fence, Ordering};
use vstd::prelude::*;

verus! {

/// The two fences that the volatile accessors use.
#[derive(Clone, Copy, Debug, PartialEq, Eq)]
pub enum FenceKind {
    /// Reads after the fence see what was written before a matching release.
    Acquire,
    /// Writes before the fence are visible before any write after it.
    Release,
}

/// `std::sync::atomic::fence` with the ordering that `kind` names. A fence
/// returns nothing and changes no value that a contract can speak of, so
/// nothing is claimed of it.
#[verifier::external_body]
pub(crate) fn memory_fence(kind: FenceKind) {
    match kind {
        FenceKind::Acquire => fence(Ordering::Acquire),
        FenceKind::Release => fence(Ordering::Release),
    }
}

} // verus!
