//! Handles of the resources that sets and vertex sources refer to.

use vstd::prelude::*;

verus! {

/// Names a buffer that lives elsewhere. Two handles are the same buffer
/// exactly when their ids are equal.
#[derive(Clone, Copy, Debug, PartialEq, Eq, Structural)]
pub struct BufferHandle {
    pub id: u64,
}

/// Names an image that lives elsewhere.
#[derive(Clone, Copy, Debug, PartialEq, Eq, Structural)]
pub struct ImageHandle {
    pub id: u64,
}

} // verus!
