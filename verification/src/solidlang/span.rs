//! Places in the source text.

use vstd::prelude::*;

verus! {

/// A range of bytes of the source text.
#[derive(Debug, Clone, Copy, PartialEq, Eq, Structural)]
pub struct Span {
    pub start: usize,
    pub len: usize,
}

} // verus!
