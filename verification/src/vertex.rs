//! The skinned vertex that every mesh buffer is made of.
//!
//! Coordinates and weights travel through this crate untouched, so each IEEE
//! 754 single-precision number is carried as its 32-bit pattern. The one
//! question asked of such a number, whether it equals zero, has an exact
//! answer on the pattern: see [`is_zero_float`].

use vstd::prelude::*;

verus! {

/// A vertex of a skinned mesh. The four `bone_weights` say how strongly the
/// bones named by the same slots of `bone_indices` pull on the vertex.
#[derive(Clone, Copy, Debug, PartialEq, Eq)]
pub struct SkinnedVertex {
    pub position: [u32; 3],
    pub normal: [u32; 3],
    pub uv: [u32; 2],
    pub bone_indices: [u16; 4],
    pub bone_weights: [u32; 4],
}

/// The patterns of the two single-precision zeros.
pub open spec fn is_zero_float_spec(bits: u32) -> bool {
    bits == 0 || bits == 0x8000_0000
}

/// Whether the number with this bit pattern compares equal to zero, which
/// holds of positive and of negative zero and of nothing else.
#[verifier::when_used_as_spec(is_zero_float_spec)]
pub fn is_zero_float(bits: u32) -> (b: bool)
    ensures
        b == is_zero_float_spec(bits),
{
    bits == 0 || bits == 0x8000_0000
}

} // verus!
