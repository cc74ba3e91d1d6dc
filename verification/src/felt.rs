use vstd::prelude::*;

verus! {

/// An element of the field used for arithmetization.
///
/// The stack engine treats field values as opaque data: it only needs a zero
/// constant (to fill unwritten trace cells), equality, and cheap copying.
#[derive(Clone, Copy, PartialEq, Eq, Structural, Debug)]
pub struct Felt {
    pub value: u64,
}

impl Felt {
    /// The additive identity, used to fill trace cells that no cycle has written.
    pub open spec fn spec_zero() -> Felt {
        Felt { value: 0 }
    }

    /// Returns the zero field element.
    pub fn zero() -> (r: Felt)
        ensures
            r == Felt::spec_zero(),
    {
        Felt { value: 0 }
    }

    /// Wraps a raw value as a field element.
    pub fn new(value: u64) -> (r: Felt)
        ensures
            r == (Felt { value }),
    {
        Felt { value }
    }
}

} // verus!
