//! The frame of the function being compiled: where its locals live.
use vstd::prelude::*;
use crate::types::WasmType;

verus! {

/// The slot of a local in the frame.
#[derive(Clone, Copy, Debug, PartialEq, Eq, Structural)]
pub struct LocalSlot {
    /// The offset of the slot from the base of the frame.
    pub offset: u32,
    /// The type of the local.
    pub ty: WasmType,
}

impl LocalSlot {
    /// A slot at the given offset for a local of the given type.
    pub fn new(ty: WasmType, offset: u32) -> (s: LocalSlot)
        ensures
            s == (LocalSlot { offset, ty }),
    {
        LocalSlot { offset, ty }
    }
}

/// The frame: one slot for each local of the function, by index.
#[derive(Clone, Debug)]
pub struct Frame {
    /// The slots of the locals.
    pub locals: Vec<LocalSlot>,
    /// The size in bytes of the area that holds the locals.
    pub locals_size: u32,
}

impl View for Frame {
    type V = Seq<LocalSlot>;

    open spec fn view(&self) -> Seq<LocalSlot> {
        self.locals@
    }
}

impl Frame {
    /// A frame with the given locals.
    pub fn new(locals: Vec<LocalSlot>, locals_size: u32) -> (f: Frame)
        ensures
            f@ == locals@,
            f.locals_size == locals_size,
    {
        Frame { locals, locals_size }
    }

    /// The slot of the local with the given index, if there is one.
    pub fn get_local(&self, index: u32) -> (r: Option<LocalSlot>)
        ensures
            index < self@.len() ==> r == Some(self@[index as int]),
            index >= self@.len() ==> r.is_none(),
    {
        if (index as usize) < self.locals.len() {
            Some(self.locals[index as usize])
        } else {
            None
        }
    }
}

} // verus!
