use vstd::prelude::*;

verus! {

/// A generation-checked identifier of a joint in a joint store.
///
/// A slot index may be reused after its joint is removed; the generation
/// tells the old occupant's handle apart from the new one.
#[derive(Clone, Copy, Debug, PartialEq, Eq, Hash, Structural)]
pub struct JointHandle {
    pub index: u32,
    pub generation: u32,
}

impl JointHandle {
    /// Builds a handle from its slot index and generation.
    pub fn from_raw_parts(index: u32, generation: u32) -> (r: JointHandle)
        ensures
            r.index == index,
            r.generation == generation,
    {
        JointHandle { index, generation }
    }

    /// Compares two handles: equal when both index and generation agree.
    pub fn same_as(&self, other: &JointHandle) -> (r: bool)
        ensures
            r == (*self == *other),
    {
        self.index == other.index && self.generation == other.generation
    }
}

} // verus!
