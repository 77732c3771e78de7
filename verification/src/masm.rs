//! The assembler as this crate sees it: the operations it offers, and what
//! each of them does to the stack pointer offset and to the code emitted so
//! far.
use vstd::prelude::*;
use crate::abi::ABI;
use crate::frame::LocalSlot;
use crate::reg::Reg;
use crate::types::OperandSize;

verus! {

/// An offset of the stack pointer: the number of bytes between the base of
/// the machine stack of the function and a point in it.
#[derive(Clone, Copy, Debug, PartialEq, Eq, Structural)]
pub struct SPOffset(pub u32);

impl SPOffset {
    /// The offset of the given number of bytes.
    pub fn from_u32(offset: u32) -> (o: SPOffset)
        ensures
            o == SPOffset(offset),
    {
        SPOffset(offset)
    }

    /// The offset in bytes.
    pub fn as_u32(&self) -> (o: u32)
        ensures
            o == self.0,
    {
        self.0
    }
}

/// A slot of the machine stack.
#[derive(Clone, Copy, Debug, PartialEq, Eq, Structural)]
pub struct StackSlot {
    /// The stack pointer offset at which the slot is the top of the stack.
    pub offset: SPOffset,
    /// The size of the slot in bytes.
    pub size: u32,
}

impl StackSlot {
    /// The slot of the given size at the given offset.
    pub fn new(offset: SPOffset, size: u32) -> (s: StackSlot)
        ensures
            s == (StackSlot { offset, size }),
    {
        StackSlot { offset, size }
    }
}

/// An immediate operand: the bits of a constant, tagged with its type.
#[derive(Clone, Copy, Debug, PartialEq, Eq, Structural)]
pub enum Imm {
    /// A 32-bit integer.
    I32(i32),
    /// A 64-bit integer.
    I64(i64),
    /// The bits of a 32-bit float.
    F32(u32),
    /// The bits of a 64-bit float.
    F64(u64),
}

/// A source operand: a register or an immediate.
#[derive(Clone, Copy, Debug, PartialEq, Eq, Structural)]
pub enum RegImm {
    /// A register.
    Reg(Reg),
    /// An immediate.
    Imm(Imm),
}

impl RegImm {
    /// A register operand.
    pub fn reg(r: Reg) -> (o: RegImm)
        ensures
            o == RegImm::Reg(r),
    {
        RegImm::Reg(r)
    }

    /// A 32-bit integer immediate.
    pub fn i32(v: i32) -> (o: RegImm)
        ensures
            o == RegImm::Imm(Imm::I32(v)),
    {
        RegImm::Imm(Imm::I32(v))
    }

    /// A 64-bit integer immediate.
    pub fn i64(v: i64) -> (o: RegImm)
        ensures
            o == RegImm::Imm(Imm::I64(v)),
    {
        RegImm::Imm(Imm::I64(v))
    }

    /// A 32-bit float immediate, by its bits.
    pub fn float32(bits: u32) -> (o: RegImm)
        ensures
            o == RegImm::Imm(Imm::F32(bits)),
    {
        RegImm::Imm(Imm::F32(bits))
    }

    /// A 64-bit float immediate, by its bits.
    pub fn float64(bits: u64) -> (o: RegImm)
        ensures
            o == RegImm::Imm(Imm::F64(bits)),
    {
        RegImm::Imm(Imm::F64(bits))
    }
}

/// A memory operand.
#[derive(Clone, Copy, Debug, PartialEq, Eq, Structural)]
pub enum Address {
    /// The slot of a local, by its offset in the frame.
    Local(u32),
    /// The slot of the machine stack whose top is at the given stack
    /// pointer offset.
    Stack(u32),
}

/// A place in the code that a jump can name.
#[derive(Clone, Copy, Debug, PartialEq, Eq, Structural)]
pub struct Label(pub u32);

/// One instruction, as the assembler is asked for it.
#[allow(inconsistent_fields)]
#[derive(Clone, Copy, Debug, PartialEq, Eq, Structural)]
pub enum Inst {
    /// Move a register or an immediate to a register.
    Mov { src: RegImm, dst: Reg, size: OperandSize },
    /// Load from memory to a register.
    Load { src: Address, dst: Reg, size: OperandSize },
    /// Store a register or an immediate to memory.
    Store { src: RegImm, dst: Address, size: OperandSize },
    /// Push a register to the machine stack.
    Push { src: Reg, size: OperandSize },
    /// Pop the top of the machine stack to a register.
    Pop { dst: Reg, size: OperandSize },
    /// Grow the machine stack by a number of bytes.
    ReserveStack { bytes: u32 },
    /// Shrink the machine stack by a number of bytes.
    FreeStack { bytes: u32 },
    /// Jump to a label.
    Jmp { target: Label },
    /// Add a register or an immediate to a register.
    Add { dst: Reg, lhs: Reg, rhs: RegImm, size: OperandSize },
}

/// The instructions that bring the stack pointer offset from `sp` to
/// `target`: one that frees or reserves the difference, or none.
pub open spec fn sp_adjustment(sp: u32, target: u32) -> Seq<Inst> {
    if sp > target {
        seq![Inst::FreeStack { bytes: (sp - target) as u32 }]
    } else if sp < target {
        seq![Inst::ReserveStack { bytes: (target - sp) as u32 }]
    } else {
        Seq::empty()
    }
}

/// What this crate asks of an assembler. An assembler is seen through two
/// values: its stack pointer offset, and the instructions it has been asked
/// for so far, in order.
pub trait MacroAssembler: Sized {
    /// The calling convention of the target.
    type ABI: ABI;

    /// The current stack pointer offset.
    spec fn sp(&self) -> u32;

    /// The instructions emitted so far.
    spec fn code(&self) -> Seq<Inst>;

    /// The current stack pointer offset.
    fn sp_offset(&self) -> (o: SPOffset)
        ensures
            o == SPOffset(self.sp()),
    ;

    /// The address of a local.
    fn local_address(&self, local: &LocalSlot) -> (a: Address)
        ensures
            a == Address::Local(local.offset),
    ;

    /// The address of the slot of the machine stack at `offset`.
    fn address_from_sp(&self, offset: SPOffset) -> (a: Address)
        ensures
            a == Address::Stack(offset.0),
    ;

    /// Moves `src` to `dst`.
    fn mov(&mut self, src: RegImm, dst: Reg, size: OperandSize)
        ensures
            final(self).sp() == old(self).sp(),
            final(self).code() == old(self).code().push(Inst::Mov { src, dst, size }),
    ;

    /// Loads what is at `src` into `dst`.
    fn load(&mut self, src: Address, dst: Reg, size: OperandSize)
        ensures
            final(self).sp() == old(self).sp(),
            final(self).code() == old(self).code().push(Inst::Load { src, dst, size }),
    ;

    /// Stores `src` at `dst`.
    fn store(&mut self, src: RegImm, dst: Address, size: OperandSize)
        ensures
            final(self).sp() == old(self).sp(),
            final(self).code() == old(self).code().push(Inst::Store { src, dst, size }),
    ;

    /// Pushes `src` to the machine stack, which grows by the bytes of
    /// `size`; returns the new top slot.
    fn push(&mut self, src: Reg, size: OperandSize) -> (slot: StackSlot)
        requires
            old(self).sp() + size.bytes() <= u32::MAX,
        ensures
            final(self).sp() == old(self).sp() + size.bytes(),
            slot == (StackSlot { offset: SPOffset(final(self).sp()), size: size.bytes() }),
            final(self).code() == old(self).code().push(Inst::Push { src, size }),
    ;

    /// Pops the top of the machine stack into `dst`; the stack shrinks by
    /// the bytes of `size`.
    fn pop(&mut self, dst: Reg, size: OperandSize)
        requires
            old(self).sp() >= size.bytes(),
        ensures
            final(self).sp() == old(self).sp() - size.bytes(),
            final(self).code() == old(self).code().push(Inst::Pop { dst, size }),
    ;

    /// Grows the machine stack by `bytes`.
    fn reserve_stack(&mut self, bytes: u32)
        requires
            old(self).sp() + bytes <= u32::MAX,
        ensures
            final(self).sp() == old(self).sp() + bytes,
            final(self).code() == old(self).code().push(Inst::ReserveStack { bytes }),
    ;

    /// Shrinks the machine stack by `bytes`.
    fn free_stack(&mut self, bytes: u32)
        requires
            old(self).sp() >= bytes,
        ensures
            final(self).sp() == old(self).sp() - bytes,
            final(self).code() == old(self).code().push(Inst::FreeStack { bytes }),
    ;

    /// Brings the stack pointer offset to `target`, as a jump to a place
    /// that expects that offset needs it.
    fn ensure_sp_for_jump(&mut self, target: SPOffset)
        ensures
            final(self).sp() == target.0,
            final(self).code() == old(self).code() + sp_adjustment(old(self).sp(), target.0),
    ;

    /// Jumps to `target`.
    fn jmp(&mut self, target: Label)
        ensures
            final(self).sp() == old(self).sp(),
            final(self).code() == old(self).code().push(Inst::Jmp { target }),
    ;
}

} // verus!
