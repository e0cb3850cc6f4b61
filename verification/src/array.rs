//! The array models at the value level.  A fixed-length array is embedded
//! inline (its layout lives entirely in its descriptor); a variable-length
//! array's elements live in storage the runtime collaborator owns, so a
//! value of it is only a handle: an address and an element count.

use vstd::prelude::*;

verus! {

/// A handle to a variable-length array's backing storage: the address of,
/// and the element count in, memory the runtime collaborator owns.  This
/// crate never allocates or frees that storage; the collaborator must not
/// release it while any value still holds the handle.
#[derive(Clone, Copy, Debug, PartialEq, Eq, Structural)]
pub struct VarLenArray {
    /// Address of the first element inside collaborator-owned storage.
    pub address: usize,
    /// Number of elements stored there.
    pub count: usize,
}

impl VarLenArray {
    /// Wraps an (address, element count) pair handed across the foreign
    /// boundary.
    pub fn from_parts(address: usize, count: usize) -> (r: VarLenArray)
        ensures
            r.address == address,
            r.count == count,
    {
        VarLenArray { address, count }
    }

    /// An empty handle: no storage, no elements.
    pub fn empty() -> (r: VarLenArray)
        ensures
            r.address == 0,
            r.count == 0,
    {
        VarLenArray { address: 0, count: 0 }
    }

    /// True iff the handle holds no elements.
    pub fn is_empty(&self) -> (r: bool)
        ensures
            r == (self.count == 0),
    {
        self.count == 0
    }
}

} // verus!
