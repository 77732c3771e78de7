//! The functions of the runtime that generated code can call.
use vstd::prelude::*;

verus! {

/// The table of the functions of the runtime that generated code can call.
/// The code generation context carries it for the code that emits such
/// calls.
#[derive(Debug)]
pub struct BuiltinFunctions {
    ptr_size: u8,
}

impl BuiltinFunctions {
    /// The size in bytes of a pointer on the target.
    pub closed spec fn spec_ptr_size(&self) -> u8 {
        self.ptr_size
    }

    /// The table for a target with pointers of `ptr_size` bytes.
    pub fn new(ptr_size: u8) -> (b: BuiltinFunctions)
        ensures
            b.spec_ptr_size() == ptr_size,
    {
        BuiltinFunctions { ptr_size }
    }

    /// The size in bytes of a pointer on the target.
    pub fn ptr_size(&self) -> (s: u8)
        ensures
            s == self.spec_ptr_size(),
    {
        self.ptr_size
    }
}

} // verus!
