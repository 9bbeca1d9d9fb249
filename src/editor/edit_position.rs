//! Where an edit lands in the source as it was read.
use vstd::prelude::*;

verus! {

/// A byte offset into the source, with an end for a replacement
/// (`[start_byte, end_byte)`) and none for an insertion point.
#[derive(Clone, Copy, Debug, PartialEq, Eq, Structural)]
pub struct EditPosition {
    pub start_byte: usize,
    pub end_byte: Option<usize>,
}

} // verus!
