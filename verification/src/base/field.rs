use vstd::prelude::*;

verus! {

/// A bit sub-range of a value: `length` bits whose least significant bit sits
/// at position `offset`.
#[derive(Clone, Copy, Debug, PartialEq, Eq, Structural)]
pub struct FieldSelector {
    pub offset: u8,
    pub length: u8,
}

} // verus!
