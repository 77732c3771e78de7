//! An assembler that keeps the instructions it is asked for as a list, and
//! a calling convention with two fixed scratch registers.
use vstd::prelude::*;
use crate::abi::ABI;
use crate::frame::LocalSlot;
use crate::masm::{sp_adjustment, Address, Inst, Label, MacroAssembler, RegImm, SPOffset, StackSlot};
use crate::reg::{Reg, RegClass};
use crate::types::{OperandSize, WasmType};

verus! {

/// The encoding of the general purpose scratch register of `ListingAbi`.
pub const SCRATCH_GPR: u8 = 11;

/// The encoding of the floating point scratch register of `ListingAbi`.
pub const SCRATCH_FPR: u8 = 15;

/// A calling convention whose scratch registers are the general purpose
/// register 11 and the floating point register 15.
pub struct ListingAbi;

impl ABI for ListingAbi {
    open spec fn scratch() -> Reg {
        Reg { class: RegClass::Int, enc: SCRATCH_GPR }
    }

    open spec fn float_scratch() -> Reg {
        Reg { class: RegClass::Float, enc: SCRATCH_FPR }
    }

    fn scratch_reg() -> (r: Reg) {
        Reg::gpr(SCRATCH_GPR)
    }

    fn float_scratch_reg() -> (r: Reg) {
        Reg::fpr(SCRATCH_FPR)
    }

    fn scratch_for(ty: &WasmType) -> (r: Reg) {
        match ty {
            WasmType::F32 | WasmType::F64 => Reg::fpr(SCRATCH_FPR),
            _ => Reg::gpr(SCRATCH_GPR),
        }
    }
}

/// An assembler that emits no machine code: it keeps each instruction it
/// is asked for, in order, and follows the stack pointer offset.
#[derive(Debug)]
pub struct ListingAssembler {
    sp_offset: u32,
    insts: Vec<Inst>,
}

impl ListingAssembler {
    /// An assembler that has emitted nothing, with a stack pointer offset
    /// of zero.
    pub fn new() -> (masm: ListingAssembler)
        ensures
            masm.sp() == 0,
            masm.code() == Seq::<Inst>::empty(),
    {
        ListingAssembler { sp_offset: 0, insts: Vec::new() }
    }

    /// The instructions emitted so far.
    pub fn instructions(&self) -> (insts: &Vec<Inst>)
        ensures
            insts@ == self.code(),
    {
        &self.insts
    }

    /// Adds `rhs` to `lhs` and leaves the sum in `dst`.
    pub fn add(&mut self, dst: Reg, lhs: Reg, rhs: RegImm, size: OperandSize)
        ensures
            final(self).sp() == old(self).sp(),
            final(self).code() == old(self).code().push(Inst::Add { dst, lhs, rhs, size }),
    {
        self.insts.push(Inst::Add { dst, lhs, rhs, size });
    }
}

impl MacroAssembler for ListingAssembler {
    type ABI = ListingAbi;

    closed spec fn sp(&self) -> u32 {
        self.sp_offset
    }

    closed spec fn code(&self) -> Seq<Inst> {
        self.insts@
    }

    fn sp_offset(&self) -> (o: SPOffset) {
        SPOffset::from_u32(self.sp_offset)
    }

    fn local_address(&self, local: &LocalSlot) -> (a: Address) {
        Address::Local(local.offset)
    }

    fn address_from_sp(&self, offset: SPOffset) -> (a: Address) {
        Address::Stack(offset.as_u32())
    }

    fn mov(&mut self, src: RegImm, dst: Reg, size: OperandSize) {
        self.insts.push(Inst::Mov { src, dst, size });
    }

    fn load(&mut self, src: Address, dst: Reg, size: OperandSize) {
        self.insts.push(Inst::Load { src, dst, size });
    }

    fn store(&mut self, src: RegImm, dst: Address, size: OperandSize) {
        self.insts.push(Inst::Store { src, dst, size });
    }

    fn push(&mut self, src: Reg, size: OperandSize) -> (slot: StackSlot) {
        let bytes = size.bytes();
        self.sp_offset = self.sp_offset + bytes;
        self.insts.push(Inst::Push { src, size });
        StackSlot::new(SPOffset::from_u32(self.sp_offset), bytes)
    }

    fn pop(&mut self, dst: Reg, size: OperandSize) {
        self.sp_offset = self.sp_offset - size.bytes();
        self.insts.push(Inst::Pop { dst, size });
    }

    fn reserve_stack(&mut self, bytes: u32) {
        self.sp_offset = self.sp_offset + bytes;
        self.insts.push(Inst::ReserveStack { bytes });
    }

    fn free_stack(&mut self, bytes: u32) {
        self.sp_offset = self.sp_offset - bytes;
        self.insts.push(Inst::FreeStack { bytes });
    }

    fn ensure_sp_for_jump(&mut self, target: SPOffset) {
        let sp = self.sp_offset;
        let target = target.as_u32();
        if sp > target {
            self.free_stack(sp - target);
            assert(self.insts@ =~= old(self).insts@ + sp_adjustment(sp, target));
        } else if sp < target {
            self.reserve_stack(target - sp);
            assert(self.insts@ =~= old(self).insts@ + sp_adjustment(sp, target));
        } else {
            assert(self.insts@ =~= old(self).insts@ + sp_adjustment(sp, target));
        }
    }

    fn jmp(&mut self, target: Label) {
        self.insts.push(Inst::Jmp { target });
    }
}

} // verus!
