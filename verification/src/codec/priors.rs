//! Names of the families of distributions that the literal coder uses.

use vstd::prelude::*;

verus! {

/// The family that a distribution belongs to.
#[derive(Clone, Copy, Debug, PartialEq, Eq, Structural)]
pub enum LiteralNibblePriorType {
    /// High nibble of a literal byte.
    FirstNibble,
    /// Low nibble of a literal byte.
    SecondNibble,
    /// The nibble that holds a run length up to 15.
    CountSmall,
    /// The nibble that holds the bit length of a run length less 16.
    SizeBegNib,
    /// The nibble that holds what that bit length has above 15.
    SizeLastNib,
    /// A nibble of the bits of a run length less 16.
    SizeMantissaNib,
}

} // verus!
