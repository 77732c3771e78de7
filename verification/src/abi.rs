//! The calling convention: scratch registers, and where results go.
use vstd::prelude::*;
use crate::frame::LocalSlot;
use crate::masm::SPOffset;
use crate::reg::{Reg, RegClass};
use crate::types::WasmType;

verus! {

/// The scratch register that a calling convention with the given two
/// scratch registers uses for a value of a supported type.
pub open spec fn scratch_of(ty: WasmType, gpr: Reg, fpr: Reg) -> Reg {
    match ty.class() {
        RegClass::Int => gpr,
        RegClass::Float => fpr,
    }
}

/// What this crate asks of a calling convention.
pub trait ABI {
    /// The general purpose scratch register.
    spec fn scratch() -> Reg;

    /// The floating point scratch register.
    spec fn float_scratch() -> Reg;

    /// The general purpose scratch register.
    fn scratch_reg() -> (r: Reg)
        ensures
            r == Self::scratch(),
    ;

    /// The floating point scratch register.
    fn float_scratch_reg() -> (r: Reg)
        ensures
            r == Self::float_scratch(),
    ;

    /// The scratch register for a value of the given type.
    fn scratch_for(ty: &WasmType) -> (r: Reg)
        requires
            ty.is_supported(),
        ensures
            r == scratch_of(*ty, Self::scratch(), Self::float_scratch()),
    ;
}

/// Where one result of a function or a block goes.
#[derive(Clone, Copy, Debug, PartialEq, Eq, Structural)]
pub enum ABIOperand {
    /// In a register.
    Reg {
        /// The type of the result.
        ty: WasmType,
        /// The register.
        reg: Reg,
        /// The size of the result in bytes.
        size: u32,
    },
    /// In the return area on the machine stack.
    Stack {
        /// The type of the result.
        ty: WasmType,
        /// The offset of the result from the base of the return area.
        offset: u32,
        /// The size of the result in bytes.
        size: u32,
    },
}

/// The return area: where the results that go on the machine stack are.
#[derive(Clone, Copy, Debug, PartialEq, Eq, Structural)]
pub enum RetArea {
    /// At a stack pointer offset.
    SP(SPOffset),
    /// In a slot of the frame.
    Slot(LocalSlot),
}

/// Whether a result goes on the machine stack.
pub open spec fn is_stack_operand(o: ABIOperand) -> bool {
    o is Stack
}

/// The results of a function or a block, each with its place.
#[derive(Clone, Debug)]
pub struct ABIResults {
    /// The results, in order.
    pub operands: Vec<ABIOperand>,
}

impl View for ABIResults {
    type V = Seq<ABIOperand>;

    open spec fn view(&self) -> Seq<ABIOperand> {
        self.operands@
    }
}

impl ABIResults {
    /// Whether some result goes on the machine stack.
    pub open spec fn has_stack_operand(self) -> bool {
        exists|i: int| 0 <= i < self@.len() && is_stack_operand(#[trigger] self@[i])
    }

    /// The given results.
    pub fn new(operands: Vec<ABIOperand>) -> (r: ABIResults)
        ensures
            r@ == operands@,
    {
        ABIResults { operands }
    }

    /// The results, in order.
    pub fn operands(&self) -> (o: &Vec<ABIOperand>)
        ensures
            o@ == self@,
    {
        &self.operands
    }

    /// Whether some result goes on the machine stack.
    pub fn on_stack(&self) -> (b: bool)
        ensures
            b == self.has_stack_operand(),
    {
        let mut i: usize = 0;
        while i < self.operands.len()
            invariant
                i <= self.operands.len(),
                forall|j: int| 0 <= j < i ==> !is_stack_operand(#[trigger] self@[j]),
            decreases self.operands.len() - i,
        {
            match self.operands[i] {
                ABIOperand::Stack { .. } => {
                    assert(is_stack_operand(self@[i as int]));
                    return true;
                },
                _ => {},
            }
            i = i + 1;
        }
        false
    }
}

} // verus!
