//! The code generation context.
use vstd::prelude::*;
use crate::abi::{ABIOperand, ABIResults, RetArea, ABI};
use crate::builtins::BuiltinFunctions;
use crate::bulk::{
    all_pinned, freed_above, lemma_claim_all, lemma_claim_all_prefix, lemma_claim_results, lemma_push_results,
    lemma_truncate, release_all, release_entry, result_entries, result_entry, results_ok,
};
use crate::control::ControlStackFrame;
use crate::frame::Frame;
use crate::masm::{sp_adjustment, Address, Inst, MacroAssembler, RegImm, SPOffset, StackSlot};
use crate::model::{
    has_spillable, holds, in_sync, lemma_spill_bytes_take, memory_below, spill_bytes, spill_code, spill_entry,
    spill_release, Env, State,
};
use crate::reg::{Reg, RegClass};
use crate::regalloc::RegAlloc;
use crate::stack::{Stack, TypedReg, Val};
use crate::steps::{
    lemma_binop_operands, lemma_claim, lemma_claim_class, lemma_convert_operands, lemma_convert_with_tmp_operands,
    lemma_finish, lemma_finish_float_cmp, lemma_finish_int_binop, lemma_float_cmp_operands,
    lemma_int_binop_operands, lemma_pop_to_addr, lemma_pop_to_reg, lemma_release, lemma_with_top, movable,
    move_inst,
};
use crate::types::{OperandSize, WasmType};
use wasmtime_environ::VMOffsets;

verus! {

/// The layout of the data of an instance, as `wasmtime_environ` computes it.
/// The context carries a reference to it and reads nothing of it.
#[verifier::external_type_specification]
#[verifier::external_body]
#[verifier::reject_recursive_types(P)]
pub struct ExVMOffsets<P>(VMOffsets<P>);

/// The code generation context.
///
/// It is made of the three things that code generation has to keep in step
/// with each other: the register allocator, which knows which registers are
/// free; the operand stack, which knows where each value is; and the frame
/// of the function. Its operations are the way to change them together.
pub struct CodeGenContext<'a, 'builtins: 'a> {
    /// The register allocator.
    pub regalloc: RegAlloc,
    /// The operand stack.
    pub stack: Stack,
    /// The frame of the function.
    pub frame: Frame,
    /// Whether the code being emitted can be reached.
    pub reachable: bool,
    /// The functions of the runtime that generated code can call.
    pub builtins: &'builtins mut BuiltinFunctions,
    /// The layout of the data of the instance.
    pub vmoffsets: &'a VMOffsets<u8>,
}

/// The state made of the given stack and inventory and of what the
/// assembler says of itself.
pub open spec fn state_of<M: MacroAssembler>(stack: Seq<Val>, regs: RegAlloc, masm: &M) -> State {
    State { stack, regs, sp: masm.sp() as int, code: masm.code() }
}

/// What the transitions read of a frame and of the calling convention of
/// the assembler `M`.
pub open spec fn env_of<M: MacroAssembler>(frame: &Frame) -> Env {
    Env { locals: frame@, scratch: <M::ABI>::scratch(), float_scratch: <M::ABI>::float_scratch() }
}

impl<'a, 'builtins> CodeGenContext<'a, 'builtins> {
    /// The state of the context together with an assembler.
    pub open spec fn state<M: MacroAssembler>(&self, masm: &M) -> State {
        state_of(self.stack@, self.regalloc, masm)
    }

    /// What the transitions read of the frame of the context and of the
    /// calling convention of the assembler `M`.
    pub open spec fn env<M: MacroAssembler>(&self) -> Env {
        env_of::<M>(&self.frame)
    }

    /// The part of the state that the context itself holds: the stack and
    /// the inventory, with no code and a stack pointer offset of zero.
    pub open spec fn holdings(&self) -> State {
        State { stack: self.stack@, regs: self.regalloc, sp: 0, code: Seq::empty() }
    }

    /// The invariant of the context: the inventory is well formed; every
    /// entry of the stack has a type that code can be generated for; the
    /// register of every entry is in use, and no two entries are in the same
    /// register; every local that an entry names exists.
    pub open spec fn wf(&self) -> bool {
        self.holdings().wf(self.frame@)
    }

    /// Whether two contexts agree in all but the stack and the inventory.
    pub open spec fn same_frame(&self, other: &Self) -> bool {
        &&& self.frame == other.frame
        &&& self.reachable == other.reachable
        &&& *self.builtins == *other.builtins
        &&& self.vmoffsets == other.vmoffsets
    }

    /// A context made of the given parts, in which code can be reached.
    pub fn new(
        regalloc: RegAlloc,
        stack: Stack,
        frame: Frame,
        builtins: &'builtins mut BuiltinFunctions,
        vmoffsets: &'a VMOffsets<u8>,
    ) -> (ctx: Self)
        ensures
            ctx.regalloc == regalloc,
            ctx.stack == stack,
            ctx.frame == frame,
            ctx.reachable,
            *ctx.builtins == *old(builtins),
            ctx.vmoffsets == vmoffsets,
            regalloc.wf() && stack@.len() == 0 ==> ctx.wf(),
    {
        Self { regalloc, stack, frame, reachable: true, builtins, vmoffsets }
    }

    /// Hands out the register `named`, after a spill of the whole stack if
    /// it is not free.
    pub fn reg<M: MacroAssembler>(&mut self, named: Reg, masm: &mut M) -> (r: Reg)
        requires
            old(self).wf(),
            old(self).state(old(masm)).claim_ok(old(self).env::<M>(), named),
        ensures
            r == named,
            final(self).state(final(masm)) == old(self).state(old(masm)).claim(old(self).env::<M>(), named),
            final(self).wf(),
            final(self).same_frame(old(self)),
    {
        proof {
            lemma_claim(self.state(masm), self.env::<M>(), named);
        }
        match self.regalloc.reg(named) {
            Some(r) => r,
            None => {
                proof {
                    crate::model::lemma_spill_wf(self.state(masm), self.env::<M>());
                }
                Self::spill_impl(&mut self.stack, &mut self.regalloc, &self.frame, masm);
                let r = self.regalloc.reg(named);
                r.unwrap()
            },
        }
    }

    /// Hands out a register for a value of the type `ty`: a general purpose
    /// register for integers and function references, a floating point
    /// register for floats.
    pub fn reg_for_type<M: MacroAssembler>(&mut self, ty: WasmType, masm: &mut M) -> (r: Reg)
        requires
            ty.is_supported(),
            old(self).wf(),
            old(self).state(old(masm)).claim_class_ok(old(self).env::<M>(), ty.class()),
        ensures
            (final(self).state(final(masm)), r) == old(self).state(old(masm)).claim_class(
                old(self).env::<M>(),
                ty.class(),
            ),
            final(self).wf(),
            final(self).same_frame(old(self)),
    {
        match ty {
            WasmType::F32 | WasmType::F64 => self.reg_for_class(RegClass::Float, masm),
            _ => self.reg_for_class(RegClass::Int, masm),
        }
    }

    /// Hands out the free register of `class` with the lowest encoding,
    /// after a spill of the whole stack if none is free.
    pub fn reg_for_class<M: MacroAssembler>(&mut self, class: RegClass, masm: &mut M) -> (r: Reg)
        requires
            old(self).wf(),
            old(self).state(old(masm)).claim_class_ok(old(self).env::<M>(), class),
        ensures
            (final(self).state(final(masm)), r) == old(self).state(old(masm)).claim_class(
                old(self).env::<M>(),
                class,
            ),
            final(self).wf(),
            final(self).same_frame(old(self)),
    {
        proof {
            lemma_claim_class(self.state(masm), self.env::<M>(), class);
        }
        match self.regalloc.reg_for_class(class) {
            Some(r) => r,
            None => {
                proof {
                    crate::model::lemma_spill_wf(self.state(masm), self.env::<M>());
                    let w = choose|w: Reg| w.class == class && #[trigger] self.state(masm).can_claim(w);
                    self.state(masm).spill(self.env::<M>()).regs.lemma_lowest_free(class);
                    assert(self.state(masm).spill(self.env::<M>()).regs.is_free(w));
                }
                Self::spill_impl(&mut self.stack, &mut self.regalloc, &self.frame, masm);
                let r = self.regalloc.reg_for_class(class);
                r.unwrap()
            },
        }
    }

    /// Hands out a general purpose register.
    pub fn any_gpr<M: MacroAssembler>(&mut self, masm: &mut M) -> (r: Reg)
        requires
            old(self).wf(),
            old(self).state(old(masm)).claim_class_ok(old(self).env::<M>(), RegClass::Int),
        ensures
            (final(self).state(final(masm)), r) == old(self).state(old(masm)).claim_class(
                old(self).env::<M>(),
                RegClass::Int,
            ),
            final(self).wf(),
            final(self).same_frame(old(self)),
    {
        self.reg_for_class(RegClass::Int, masm)
    }

    /// Brings the top entry of the stack into a register and takes it off
    /// the stack: into `named` if a register is named, into any register of
    /// the class of its type otherwise.
    ///
    /// An entry that is in the right register already is handed over as it
    /// is. Otherwise a register is handed out, after a spill of the rest of
    /// the stack if need be, and the value is brought there: popped from the
    /// machine stack, or moved or loaded; the register that the entry was in
    /// is then free.
    pub fn pop_to_reg<M: MacroAssembler>(&mut self, masm: &mut M, named: Option<Reg>) -> (r: TypedReg)
        requires
            old(self).wf(),
            old(self).state(old(masm)).pop_to_reg_ok(old(self).env::<M>(), named),
        ensures
            (final(self).state(final(masm)), r) == old(self).state(old(masm)).pop_to_reg(
                old(self).env::<M>(),
                named,
            ),
            final(self).wf(),
            final(self).same_frame(old(self)),
            r.ty == old(self).stack@.last().spec_ty(),
            final(self).state(final(masm)).pinned(r.reg),
    {
        proof {
            lemma_pop_to_reg(self.state(masm), self.env::<M>(), named);
            crate::steps::lemma_without_top(self.state(masm), self.frame@);
        }
        let typed_reg = if let Some(dst) = named {
            self.stack.pop_named_reg(dst)
        } else {
            self.stack.pop_reg()
        };
        if let Some(dst) = typed_reg {
            return dst;
        }
        let val = self.stack.pop().unwrap();
        proof {
            assert(crate::model::entry_ok(
                old(self).stack@[old(self).stack@.len() - 1],
                old(self).regalloc,
                self.frame@,
            ));
        }
        let reg = if let Some(r) = named {
            self.reg(r, masm)
        } else {
            self.reg_for_type(val.ty(), masm)
        };
        if val.is_mem() {
            masm.pop(reg, OperandSize::of(val.ty()));
        } else {
            self.move_val_to_reg(&val, reg, masm);
            if val.is_reg() {
                self.free_reg(val.unwrap_reg().reg);
            }
        }
        TypedReg::new(val.ty(), reg)
    }

    /// Stores the top entry of the stack at `addr` and takes it off the
    /// stack.
    ///
    /// A register or a constant is stored as it is, and the register is then
    /// free. The value of a local is loaded into the scratch register and
    /// stored from there; the local stays as it is. An entry in the machine
    /// stack is popped into the scratch register and stored from there.
    pub fn pop_to_addr<M: MacroAssembler>(&mut self, masm: &mut M, addr: Address)
        requires
            old(self).wf(),
            old(self).state(old(masm)).pop_to_addr_ok(),
        ensures
            final(self).state(final(masm)) == old(self).state(old(masm)).pop_to_addr(old(self).env::<M>(), addr),
            final(self).wf(),
            final(self).same_frame(old(self)),
    {
        proof {
            lemma_pop_to_addr(self.state(masm), self.env::<M>(), addr);
            assert(crate::model::entry_ok(self.stack@[self.stack@.len() - 1], self.regalloc, self.frame@));
        }
        let val = self.stack.pop().unwrap();
        let size = OperandSize::of(val.ty());
        match val {
            Val::Reg(tr) => {
                masm.store(RegImm::reg(tr.reg), addr, size);
                self.free_reg(tr.reg);
            },
            Val::I32(v) => masm.store(RegImm::i32(v), addr, size),
            Val::I64(v) => masm.store(RegImm::i64(v), addr, size),
            Val::F32(v) => masm.store(RegImm::float32(v), addr, size),
            Val::F64(v) => masm.store(RegImm::float64(v), addr, size),
            Val::Local(local) => {
                let slot = self.frame.get_local(local.index).unwrap();
                let scratch = <M::ABI>::scratch_reg();
                let local_addr = masm.local_address(&slot);
                masm.load(local_addr, scratch, size);
                masm.store(RegImm::reg(scratch), addr, size);
            },
            Val::Memory(_) => {
                let scratch = <M::ABI>::scratch_reg();
                masm.pop(scratch, size);
                masm.store(RegImm::reg(scratch), addr, size);
            },
        }
    }

    /// Emits the instruction that brings the value of `src` into `dst`: a
    /// move of a register or a constant, or a load of a local or of a slot of
    /// the machine stack. Neither the stack nor the local is changed.
    pub fn move_val_to_reg<M: MacroAssembler>(&self, src: &Val, dst: Reg, masm: &mut M)
        requires
            movable(*src, self.frame@),
        ensures
            final(masm).sp() == old(masm).sp(),
            final(masm).code() == old(masm).code().push(move_inst(*src, dst, self.frame@)),
    {
        match src {
            Val::Reg(tr) => masm.mov(RegImm::reg(tr.reg), dst, OperandSize::of(tr.ty)),
            Val::I32(imm) => masm.mov(RegImm::i32(*imm), dst, OperandSize::S32),
            Val::I64(imm) => masm.mov(RegImm::i64(*imm), dst, OperandSize::S64),
            Val::F32(imm) => masm.mov(RegImm::float32(*imm), dst, OperandSize::S32),
            Val::F64(imm) => masm.mov(RegImm::float64(*imm), dst, OperandSize::S64),
            Val::Local(local) => {
                let slot = self.frame.get_local(local.index).unwrap();
                let addr = masm.local_address(&slot);
                masm.load(addr, dst, OperandSize::of(slot.ty));
            },
            Val::Memory(mem) => {
                let addr = masm.address_from_sp(mem.slot.offset);
                masm.load(addr, dst, OperandSize::of(mem.ty));
            },
        }
    }

    /// Emits a unary operation: brings the top entry into a register, lets
    /// `emit` emit the operation on it, and puts the register that `emit`
    /// returns on the stack.
    pub fn unop<F, M>(&mut self, masm: &mut M, size: OperandSize, emit: F) where
        F: FnOnce(&mut M, Reg, OperandSize) -> TypedReg,
        M: MacroAssembler,

        requires
            old(self).wf(),
            old(self).state(old(masm)).pop_to_reg_ok(old(self).env::<M>(), None),
            ({
                let (p, src) = old(self).state(old(masm)).pop_to_reg(old(self).env::<M>(), None);
                &&& forall|m: &mut M| m.sp() == p.sp && m.code() == p.code ==> call_requires(emit, (m, src.reg, size))
                &&& forall|m: &mut M, out: TypedReg|
                    m.sp() == p.sp && m.code() == p.code && #[trigger] call_ensures(emit, (m, src.reg, size), out)
                        ==> p.pinned(out.reg) && out.ty.is_supported()
            }),
        ensures
            ({
                let (p, src) = old(self).state(old(masm)).pop_to_reg(old(self).env::<M>(), None);
                exists|m: &mut M, out: TypedReg|
                    {
                        &&& m.sp() == p.sp && m.code() == p.code
                        &&& #[trigger] call_ensures(emit, (m, src.reg, size), out)
                        &&& final(self).state(final(masm)) == p.at(final(m)).with_top(
                            Val::Reg(out),
                        )
                    }
            }),
            final(self).wf(),
            final(self).same_frame(old(self)),
    {
        let typed_reg = self.pop_to_reg(masm, None);
        let ghost p = self.state(masm);
        let dst = emit(masm, typed_reg.reg, size);
        proof {
            lemma_with_top(p.at(masm), self.frame@, Val::Reg(dst));
        }
        self.stack.push(Val::Reg(dst));
    }

    /// Emits a binary operation: brings the two top entries into registers,
    /// lets `emit` emit the operation on them, frees the register of the top
    /// entry, and puts the register that `emit` returns on the stack.
    pub fn binop<F, M>(&mut self, masm: &mut M, size: OperandSize, emit: F) where
        F: FnOnce(&mut M, Reg, Reg, OperandSize) -> TypedReg,
        M: MacroAssembler,

        requires
            old(self).wf(),
            old(self).state(old(masm)).binop_ok(old(self).env::<M>()),
            ({
                let (p, dst, src) = old(self).state(old(masm)).binop_operands(old(self).env::<M>());
                &&& forall|m: &mut M|
                    m.sp() == p.sp && m.code() == p.code ==> call_requires(emit, (m, dst.reg, src.reg, size))
                &&& forall|m: &mut M, out: TypedReg|
                    m.sp() == p.sp && m.code() == p.code && #[trigger] call_ensures(
                        emit,
                        (m, dst.reg, src.reg, size),
                        out,
                    ) ==> p.pinned(out.reg) && out.reg != src.reg && out.ty.is_supported()
            }),
        ensures
            ({
                let (p, dst, src) = old(self).state(old(masm)).binop_operands(old(self).env::<M>());
                exists|m: &mut M, out: TypedReg|
                    {
                        &&& m.sp() == p.sp && m.code() == p.code
                        &&& #[trigger] call_ensures(emit, (m, dst.reg, src.reg, size), out)
                        &&& final(self).state(final(masm)) == p.at(final(m)).finish(
                            src.reg,
                            out,
                        )
                    }
            }),
            final(self).wf(),
            final(self).same_frame(old(self)),
    {
        proof {
            lemma_binop_operands(self.state(masm), self.env::<M>());
        }
        let src = self.pop_to_reg(masm, None);
        let dst = self.pop_to_reg(masm, None);
        let ghost p = self.state(masm);
        let dst = emit(masm, dst.reg, src.reg, size);
        proof {
            lemma_finish(p.at(masm), self.frame@, src.reg, dst);
        }
        self.free_reg(src.reg);
        self.stack.push(Val::Reg(dst));
    }

    /// Emits a comparison of floats: brings the two top entries into
    /// registers, hands out a general purpose register for the result, lets
    /// `emit` emit the comparison, frees the registers of the two entries, and
    /// puts the result on the stack: as a 32-bit integer for 32-bit operands,
    /// as a 64-bit integer for 64-bit operands.
    pub fn float_cmp_op<F, M>(&mut self, masm: &mut M, size: OperandSize, emit: F) where
        F: FnOnce(&mut M, Reg, Reg, Reg, OperandSize),
        M: MacroAssembler,

        requires
            size != OperandSize::S128,
            old(self).wf(),
            old(self).state(old(masm)).float_cmp_ok(old(self).env::<M>()),
            ({
                let (p, dst, src1, src2) = old(self).state(old(masm)).float_cmp_operands(old(self).env::<M>());
                forall|m: &mut M|
                    m.sp() == p.sp && m.code() == p.code ==> call_requires(emit, (m, dst, src1.reg, src2.reg, size))
            }),
        ensures
            ({
                let (p, dst, src1, src2) = old(self).state(old(masm)).float_cmp_operands(old(self).env::<M>());
                exists|m: &mut M|
                    {
                        &&& m.sp() == p.sp && m.code() == p.code
                        &&& #[trigger] call_ensures(emit, (m, dst, src1.reg, src2.reg, size), ())
                        &&& final(self).state(final(masm)) == p.at(final(m)).finish_float_cmp(
                            dst,
                            src1.reg,
                            src2.reg,
                            size,
                        )
                    }
            }),
            final(self).wf(),
            final(self).same_frame(old(self)),
    {
        proof {
            lemma_float_cmp_operands(self.state(masm), self.env::<M>());
            lemma_binop_operands(self.state(masm), self.env::<M>());
        }
        let src1 = self.pop_to_reg(masm, None);
        let src2 = self.pop_to_reg(masm, None);
        let dst = self.any_gpr(masm);
        let ghost p = self.state(masm);
        emit(masm, dst, src1.reg, src2.reg, size);
        proof {
            lemma_finish_float_cmp(p.at(masm), self.frame@, dst, src1.reg, src2.reg, size);
        }
        self.free_reg(src1.reg);
        self.free_reg(src2.reg);
        let dst = match size {
            OperandSize::S32 => TypedReg::i32(dst),
            _ => TypedReg::i64(dst),
        };
        self.stack.push(Val::Reg(dst));
    }

    /// Emits a binary operation on 32-bit integers. A constant on top of
    /// the stack is handed to `emit` as an immediate, and only the entry below
    /// it is brought into a register; otherwise both entries are, as for any
    /// binary operation.
    pub fn i32_binop<F, M>(&mut self, masm: &mut M, emit: F) where
        F: FnOnce(&mut M, Reg, RegImm, OperandSize) -> TypedReg,
        M: MacroAssembler,

        requires
            old(self).wf(),
            old(self).state(old(masm)).int_binop_ok(old(self).env::<M>(), WasmType::I32),
            ({
                let (p, dst, src) = old(self).state(old(masm)).int_binop_operands(
                    old(self).env::<M>(),
                    WasmType::I32,
                );
                &&& forall|m: &mut M|
                    m.sp() == p.sp && m.code() == p.code ==> call_requires(emit, (m, dst.reg, src, OperandSize::S32))
                &&& forall|m: &mut M, out: TypedReg|
                    m.sp() == p.sp && m.code() == p.code && #[trigger] call_ensures(
                        emit,
                        (m, dst.reg, src, OperandSize::S32),
                        out,
                    ) ==> p.pinned(out.reg) && !(src is Reg && out.reg == src->Reg_0) && out.ty.is_supported()
            }),
        ensures
            ({
                let (p, dst, src) = old(self).state(old(masm)).int_binop_operands(
                    old(self).env::<M>(),
                    WasmType::I32,
                );
                exists|m: &mut M, out: TypedReg|
                    {
                        &&& m.sp() == p.sp && m.code() == p.code
                        &&& #[trigger] call_ensures(emit, (m, dst.reg, src, OperandSize::S32), out)
                        &&& final(self).state(final(masm)) == p.at(final(m)).finish_int_binop(src, out)
                    }
            }),
            final(self).wf(),
            final(self).same_frame(old(self)),
    {
        proof {
            lemma_int_binop_operands(self.state(masm), self.env::<M>(), WasmType::I32);
        }
        let top = self.stack.peek().unwrap();
        if top.is_i32_const() {
            let val = self.stack.pop_i32_const().unwrap();
            let typed_reg = self.pop_to_reg(masm, None);
            let ghost p = self.state(masm);
            let dst = emit(masm, typed_reg.reg, RegImm::i32(val), OperandSize::S32);
            proof {
                lemma_finish_int_binop(p.at(masm), self.frame@, RegImm::Imm(crate::masm::Imm::I32(val)), dst);
            }
            self.stack.push(Val::Reg(dst));
        } else {
            let with_reg = |masm: &mut M, dst: Reg, src: Reg, size: OperandSize| -> (out: TypedReg)
                requires
                    forall|m: &mut M|
                        m.sp() == masm.sp() && m.code() == masm.code() ==> call_requires(
                            emit,
                            (m, dst, RegImm::Reg(src), size),
                        ),
                ensures
                    exists|m: &mut M|
                        {
                            &&& m.sp() == old(masm).sp() && m.code() == old(masm).code()
                            &&& final(m).sp() == final(masm).sp() && final(m).code() == final(masm).code()
                            &&& #[trigger] call_ensures(emit, (m, dst, RegImm::Reg(src), size), out)
                        },
                {
                    emit(masm, dst, RegImm::reg(src), size)
                };
            self.binop(masm, OperandSize::S32, with_reg);
        }
    }

    /// Emits a binary operation on 64-bit integers. A constant on top of
    /// the stack is handed to `emit` as an immediate, and only the entry below
    /// it is brought into a register; otherwise both entries are, as for any
    /// binary operation.
    pub fn i64_binop<F, M>(&mut self, masm: &mut M, emit: F) where
        F: FnOnce(&mut M, Reg, RegImm, OperandSize) -> TypedReg,
        M: MacroAssembler,

        requires
            old(self).wf(),
            old(self).state(old(masm)).int_binop_ok(old(self).env::<M>(), WasmType::I64),
            ({
                let (p, dst, src) = old(self).state(old(masm)).int_binop_operands(
                    old(self).env::<M>(),
                    WasmType::I64,
                );
                &&& forall|m: &mut M|
                    m.sp() == p.sp && m.code() == p.code ==> call_requires(emit, (m, dst.reg, src, OperandSize::S64))
                &&& forall|m: &mut M, out: TypedReg|
                    m.sp() == p.sp && m.code() == p.code && #[trigger] call_ensures(
                        emit,
                        (m, dst.reg, src, OperandSize::S64),
                        out,
                    ) ==> p.pinned(out.reg) && !(src is Reg && out.reg == src->Reg_0) && out.ty.is_supported()
            }),
        ensures
            ({
                let (p, dst, src) = old(self).state(old(masm)).int_binop_operands(
                    old(self).env::<M>(),
                    WasmType::I64,
                );
                exists|m: &mut M, out: TypedReg|
                    {
                        &&& m.sp() == p.sp && m.code() == p.code
                        &&& #[trigger] call_ensures(emit, (m, dst.reg, src, OperandSize::S64), out)
                        &&& final(self).state(final(masm)) == p.at(final(m)).finish_int_binop(src, out)
                    }
            }),
            final(self).wf(),
            final(self).same_frame(old(self)),
    {
        proof {
            lemma_int_binop_operands(self.state(masm), self.env::<M>(), WasmType::I64);
        }
        let top = self.stack.peek().unwrap();
        if top.is_i64_const() {
            let val = self.stack.pop_i64_const().unwrap();
            let typed_reg = self.pop_to_reg(masm, None);
            let ghost p = self.state(masm);
            let dst = emit(masm, typed_reg.reg, RegImm::i64(val), OperandSize::S64);
            proof {
                lemma_finish_int_binop(p.at(masm), self.frame@, RegImm::Imm(crate::masm::Imm::I64(val)), dst);
            }
            self.stack.push(Val::Reg(dst));
        } else {
            let with_reg = |masm: &mut M, dst: Reg, src: Reg, size: OperandSize| -> (out: TypedReg)
                requires
                    forall|m: &mut M|
                        m.sp() == masm.sp() && m.code() == masm.code() ==> call_requires(
                            emit,
                            (m, dst, RegImm::Reg(src), size),
                        ),
                ensures
                    exists|m: &mut M|
                        {
                            &&& m.sp() == old(masm).sp() && m.code() == old(masm).code()
                            &&& final(m).sp() == final(masm).sp() && final(m).code() == final(masm).code()
                            &&& #[trigger] call_ensures(emit, (m, dst, RegImm::Reg(src), size), out)
                        },
                {
                    emit(masm, dst, RegImm::reg(src), size)
                };
            self.binop(masm, OperandSize::S64, with_reg);
        }
    }

    /// Emits a conversion to the numeric type `dst_ty`: brings the top
    /// entry into a register, hands out a register for the result, lets
    /// `emit` emit the conversion at the size of `dst_ty`, frees the register
    /// of the entry, and puts the result on the stack.
    pub fn convert_op<F, M>(&mut self, masm: &mut M, dst_ty: WasmType, emit: F) where
        F: FnOnce(&mut M, Reg, Reg, OperandSize),
        M: MacroAssembler,

        requires
            dst_ty.is_numeric(),
            old(self).wf(),
            old(self).state(old(masm)).convert_ok(old(self).env::<M>(), dst_ty),
            ({
                let (p, dst, src) = old(self).state(old(masm)).convert_operands(old(self).env::<M>(), dst_ty);
                forall|m: &mut M|
                    m.sp() == p.sp && m.code() == p.code ==> call_requires(emit, (m, dst, src.reg, dst_ty.size()))
            }),
        ensures
            ({
                let (p, dst, src) = old(self).state(old(masm)).convert_operands(old(self).env::<M>(), dst_ty);
                exists|m: &mut M|
                    {
                        &&& m.sp() == p.sp && m.code() == p.code
                        &&& #[trigger] call_ensures(emit, (m, dst, src.reg, dst_ty.size()), ())
                        &&& final(self).state(final(masm)) == p.at(final(m)).finish(
                            src.reg,
                            TypedReg { ty: dst_ty, reg: dst },
                        )
                    }
            }),
            final(self).wf(),
            final(self).same_frame(old(self)),
    {
        proof {
            lemma_convert_operands(self.state(masm), self.env::<M>(), dst_ty);
            lemma_pop_to_reg(self.state(masm), self.env::<M>(), None);
        }
        let src = self.pop_to_reg(masm, None);
        let dst = self.reg_for_type(dst_ty, masm);
        let dst_size = match dst_ty {
            WasmType::I32 | WasmType::F32 => OperandSize::S32,
            _ => OperandSize::S64,
        };
        let ghost p = self.state(masm);
        emit(masm, dst, src.reg, dst_size);
        proof {
            lemma_finish(p.at(masm), self.frame@, src.reg, TypedReg { ty: dst_ty, reg: dst });
        }
        self.free_reg(src.reg);
        self.stack.push(Val::Reg(TypedReg::new(dst_ty, dst)));
    }

    /// Emits a conversion to the numeric type `dst_ty` that needs a
    /// temporary register of the class `tmp_reg_class`: hands out the
    /// temporary register, emits the conversion as `convert_op` does, with the
    /// temporary register handed to `emit` as well, and frees the temporary
    /// register.
    pub fn convert_op_with_tmp_reg<F, M>(
        &mut self,
        masm: &mut M,
        dst_ty: WasmType,
        tmp_reg_class: RegClass,
        emit: F,
    ) where F: FnOnce(&mut M, Reg, Reg, Reg, OperandSize), M: MacroAssembler
        requires
            dst_ty.is_numeric(),
            old(self).wf(),
            old(self).state(old(masm)).convert_with_tmp_ok(old(self).env::<M>(), dst_ty, tmp_reg_class),
            ({
                let (p, dst, src, tmp) = old(self).state(old(masm)).convert_with_tmp_operands(
                    old(self).env::<M>(),
                    dst_ty,
                    tmp_reg_class,
                );
                forall|m: &mut M|
                    m.sp() == p.sp && m.code() == p.code ==> call_requires(
                        emit,
                        (m, dst, src.reg, tmp, dst_ty.size()),
                    )
            }),
        ensures
            ({
                let (p, dst, src, tmp) = old(self).state(old(masm)).convert_with_tmp_operands(
                    old(self).env::<M>(),
                    dst_ty,
                    tmp_reg_class,
                );
                exists|m: &mut M|
                    {
                        &&& m.sp() == p.sp && m.code() == p.code
                        &&& #[trigger] call_ensures(emit, (m, dst, src.reg, tmp, dst_ty.size()), ())
                        &&& final(self).state(final(masm)) == p.at(final(m)).finish(
                            src.reg,
                            TypedReg { ty: dst_ty, reg: dst },
                        ).release(tmp)
                    }
            }),
            final(self).wf(),
            final(self).same_frame(old(self)),
    {
        proof {
            lemma_convert_with_tmp_operands(self.state(masm), self.env::<M>(), dst_ty, tmp_reg_class);
            lemma_claim_class(self.state(masm), self.env::<M>(), tmp_reg_class);
        }
        let tmp_gpr = self.reg_for_class(tmp_reg_class, masm);
        let ghost s1 = self.state(masm);
        proof {
            lemma_convert_operands(s1, self.env::<M>(), dst_ty);
        }
        let with_tmp = |masm: &mut M, dst: Reg, src: Reg, dst_size: OperandSize|
            requires
                forall|m: &mut M|
                    m.sp() == masm.sp() && m.code() == masm.code() ==> call_requires(
                        emit,
                        (m, dst, src, tmp_gpr, dst_size),
                    ),
            ensures
                exists|m: &mut M|
                    {
                        &&& m.sp() == old(masm).sp() && m.code() == old(masm).code()
                        &&& final(m).sp() == final(masm).sp() && final(m).code() == final(masm).code()
                        &&& #[trigger] call_ensures(emit, (m, dst, src, tmp_gpr, dst_size), ())
                    },
            {
                emit(masm, dst, src, tmp_gpr, dst_size);
            };
        self.convert_op(masm, dst_ty, with_tmp);
        proof {
            let (p, dst, src) = s1.convert_operands(self.env::<M>(), dst_ty);
            let m = choose|m: &mut M|
                {
                    &&& m.sp() == p.sp && m.code() == p.code
                    &&& #[trigger] call_ensures(with_tmp, (m, dst, src.reg, dst_ty.size()), ())
                    &&& self.state(masm) == p.at(final(m)).finish(src.reg, TypedReg { ty: dst_ty, reg: dst })
                };
            lemma_finish(p.at(final(m)), self.frame@, src.reg, TypedReg { ty: dst_ty, reg: dst });
            crate::steps::lemma_holds_below(self.state(masm).stack, tmp_gpr);
            lemma_release(self.state(masm), self.frame@, tmp_gpr);
        }
        self.free_reg(tmp_gpr);
    }

    /// Runs `f` while the registers `regs` are kept from being handed out:
    /// hands out each of them, in order, runs `f`, and frees each of them.
    #[verifier::loop_isolation(false)]
    pub fn without<T, M, F>(&mut self, regs: &[Reg], masm: &mut M, f: F) -> (result: T) where
        M: MacroAssembler,
        F: FnOnce(&mut Self, &mut M) -> T,

        requires
            old(self).wf(),
            old(self).state(old(masm)).claim_all_ok(old(self).env::<M>(), regs@),
            forall|c: &mut Self, m: &mut M|
                c.state(m) == old(self).state(old(masm)).claim_all(old(self).env::<M>(), regs@) && c.same_frame(
                    old(self),
                ) && c.wf() && all_pinned(c.state(m), regs@) ==> #[trigger] call_requires(f, (c, m)),
        ensures
            exists|c: &mut Self, m: &mut M|
                {
                    &&& c.state(m) == old(self).state(old(masm)).claim_all(old(self).env::<M>(), regs@)
                    &&& c.same_frame(old(self))
                    &&& #[trigger] call_ensures(f, (c, m), result)
                    &&& final(self).state(final(masm)) == (State {
                        regs: release_all(final(c).regalloc, regs@),
                        ..final(c).state(final(m))
                    })
                    &&& final(self).same_frame(final(c))
                },
    {
        let ghost start = self.state(masm);
        let ghost env = self.env::<M>();
        let mut i: usize = 0;
        while i < regs.len()
            invariant
                i <= regs.len(),
                start.wf(env.locals),
                start.claim_all_ok(env, regs@),
                env == self.env::<M>(),
                self.wf(),
                self.same_frame(old(self)),
                self.state(masm) == start.claim_all(env, regs@.take(i as int)),
            decreases regs.len() - i,
        {
            proof {
                lemma_claim_all_prefix(start, env, regs@, i as int);
            }
            self.reg(regs[i], masm);
            i = i + 1;
        }
        proof {
            assert(regs@.take(regs@.len() as int) =~= regs@);
            lemma_claim_all(start, env, regs@);
        }
        let result = f(self, masm);
        let ghost after = self.regalloc;
        let ghost after_stack = self.stack@;
        let ghost after_ctx = *self;
        let mut j: usize = 0;
        while j < regs.len()
            invariant
                j <= regs.len(),
                self.regalloc == release_all(after, regs@.take(j as int)),
                self.stack@ == after_stack,
                self.same_frame(&after_ctx),
            decreases regs.len() - j,
        {
            proof {
                assert(regs@.take(j + 1).drop_last() =~= regs@.take(j as int));
            }
            self.free_reg(regs[j]);
            j = j + 1;
        }
        proof {
            assert(regs@.take(regs@.len() as int) =~= regs@);
        }
        result
    }

    /// Takes the `last` top entries off the stack, after `f` has been
    /// called on each of them with the register allocator, from the top
    /// down.
    ///
    /// What `f` does to the allocator is its own business. The last clause
    /// says that it was called on the entries in that order, each call on
    /// the allocator as the call before left it: whatever holds of the
    /// allocator before the first call, and goes from before to after each
    /// call, holds of the allocator at the end.
    pub fn drop_last<F>(&mut self, last: usize, f: F) where F: Fn(&mut RegAlloc, &Val)
        requires
            last <= old(self).stack@.len(),
            forall|ra: &mut RegAlloc, i: int|
                old(self).stack@.len() - last <= i < old(self).stack@.len() ==> call_requires(
                    f,
                    (ra, &old(self).stack@[i]),
                ),
        ensures
            final(self).stack@ == old(self).stack@.take(old(self).stack@.len() - last),
            final(self).same_frame(old(self)),
            forall|inv: spec_fn(int, RegAlloc) -> bool|
                {
                    &&& #[trigger] inv(old(self).stack@.len() as int, old(self).regalloc)
                    &&& forall|ra: &mut RegAlloc, i: int|
                        old(self).stack@.len() - last <= i < old(self).stack@.len() && inv(i + 1, *ra)
                            && #[trigger] call_ensures(f, (ra, &old(self).stack@[i]), ()) ==> inv(i, *final(ra))
                } ==> inv(old(self).stack@.len() - last, final(self).regalloc),
    {
        let len = self.stack.len();
        let truncate = len - last;
        let mut i: usize = len;
        while i > truncate
            invariant
                truncate <= i <= len,
                truncate == len - last,
                len == old(self).stack@.len(),
                self.stack@ == old(self).stack@,
                self.same_frame(old(self)),
                forall|ra: &mut RegAlloc, i: int|
                    old(self).stack@.len() - last <= i < old(self).stack@.len() ==> call_requires(
                        f,
                        (ra, &old(self).stack@[i]),
                    ),
                forall|inv: spec_fn(int, RegAlloc) -> bool|
                    {
                        &&& #[trigger] inv(old(self).stack@.len() as int, old(self).regalloc)
                        &&& forall|ra: &mut RegAlloc, i: int|
                            old(self).stack@.len() - last <= i < old(self).stack@.len() && inv(i + 1, *ra)
                                && #[trigger] call_ensures(f, (ra, &old(self).stack@[i]), ()) ==> inv(i, *final(ra))
                    } ==> inv(i as int, self.regalloc),
            decreases i,
        {
            i = i - 1;
            let v = self.stack.get(i);
            f(&mut self.regalloc, &v);
        }
        self.stack.truncate(truncate);
    }

    /// Cuts the stack down to its `target` bottom entries, and frees the
    /// registers of the entries above; does nothing to a stack that is no
    /// longer than that.
    pub fn truncate_stack_to(&mut self, target: usize)
        requires
            old(self).wf(),
        ensures
            final(self).holdings() == old(self).holdings().truncate(target as int),
            final(self).wf(),
            final(self).same_frame(old(self)),
    {
        proof {
            lemma_truncate(self.holdings(), self.frame@, target as int);
        }
        if self.stack.len() > target {
            let ghost before = self.stack@;
            let ghost regs = self.regalloc;
            let ghost len = before.len() as int;
            let free_entry = |regalloc: &mut RegAlloc, val: &Val|
                ensures
                    *final(regalloc) == release_entry(*old(regalloc), *val),
                {
                    match val {
                        Val::Reg(tr) => regalloc.free(tr.reg),
                        _ => {},
                    }
                };
            self.drop_last(self.stack.len() - target, free_entry);
            proof {
                let inv = freed_above(regs, before);
                assert(before.subrange(len, len) =~= Seq::<Val>::empty());
                assert(inv(len, regs));
                assert forall|ra: &mut RegAlloc, i: int|
                    before.len() - (before.len() - target) <= i < before.len() && inv(i + 1, *ra)
                        && #[trigger] call_ensures(free_entry, (ra, &before[i]), ()) implies inv(i, *final(ra)) by {
                    assert(before.subrange(i, len).skip(1) =~= before.subrange(i + 1, len));
                    assert(before.subrange(i, len)[0] == before[i]);
                }
                assert(inv(before.len() - (before.len() - target), self.regalloc));
                assert(before.subrange(target as int, len) =~= before.skip(target as int));
            }
        }
    }

    /// Emits an unconditional jump to the block of `dest`.
    ///
    /// The stack pointer offset must not be below the offset at which the
    /// block was entered. `f` runs first: it is where the results of the
    /// block are brought to their places. Then the stack pointer offset is
    /// brought to the one that the block expects, the block is marked as the
    /// target of a branch, the jump is emitted, and the code that follows
    /// counts as unreachable. The operand stack is left as `f` left it.
    pub fn unconditional_jump<M, F>(&mut self, dest: &mut ControlStackFrame, masm: &mut M, f: F) where
        M: MacroAssembler,
        F: FnOnce(&mut M, &mut Self, &mut ControlStackFrame),

        requires
            old(masm).sp() >= old(dest).stack_state.base_offset.0,
            forall|m: &mut M, c: &mut Self, d: &mut ControlStackFrame|
                c.state(m) == old(self).state(old(masm)) && c.same_frame(old(self)) && *d == *old(dest)
                    ==> call_requires(f, (m, c, d)),
        ensures
            exists|m: &mut M, c: &mut Self, d: &mut ControlStackFrame|
                {
                    &&& c.state(m) == old(self).state(old(masm))
                    &&& c.same_frame(old(self))
                    &&& *d == *old(dest)
                    &&& #[trigger] call_ensures(f, (m, c, d), ())
                    &&& final(masm).code() == (final(m).code() + sp_adjustment(
                        final(m).sp(),
                        old(dest).stack_state.target_offset.0,
                    )).push(Inst::Jmp { target: final(d).label })
                    &&& *final(dest) == (ControlStackFrame { is_branch_target: true, ..*final(d) })
                    &&& final(self).stack@ == final(c).stack@
                    &&& final(self).regalloc == final(c).regalloc
                    &&& final(self).frame == final(c).frame
                    &&& *final(self).builtins == *final(c).builtins
                    &&& final(self).vmoffsets == final(c).vmoffsets
                },
            final(masm).sp() == old(dest).stack_state.target_offset.0,
            !final(self).reachable,
            final(dest).is_branch_target,
    {
        let target_offset = dest.stack_state().target_offset;
        f(masm, self, dest);
        masm.ensure_sp_for_jump(target_offset);
        dest.set_as_target();
        masm.jmp(*dest.label());
        self.reachable = false;
    }

    /// Puts the results of a call or of a block on the stack, each where
    /// the calling convention has it: the register of a result in a register
    /// is handed out and goes on the stack; a result on the machine stack goes
    /// on the stack as the slot at its offset below the offset of the return
    /// area. Where some result is on the machine stack, `calculate_ret_area`
    /// is called first and has to give that area.
    pub fn push_abi_results<M, F>(&mut self, results: &ABIResults, masm: &mut M, calculate_ret_area: F) where
        M: MacroAssembler,
        F: FnOnce(&ABIResults, &mut Self, &mut M) -> Option<RetArea>,

        requires
            old(self).wf(),
            !results.has_stack_operand() ==> results_ok(old(self).regalloc, results@, None),
            forall|c: &mut Self, m: &mut M|
                results.has_stack_operand() && c.state(m) == old(self).state(old(masm)) && c.same_frame(old(self))
                    ==> #[trigger] call_requires(calculate_ret_area, (results, c, m)),
            forall|c: &mut Self, m: &mut M, area: Option<RetArea>|
                results.has_stack_operand() && c.state(m) == old(self).state(old(masm)) && c.same_frame(old(self))
                    && #[trigger] call_ensures(calculate_ret_area, (results, c, m), area) ==> final(c).wf()
                    && results_ok(final(c).regalloc, results@, area),
        ensures
            !results.has_stack_operand() ==> final(self).state(final(masm)) == old(self).state(
                old(masm),
            ).push_results(results@, None) && final(self).same_frame(old(self)),
            results.has_stack_operand() ==> exists|c: &mut Self, m: &mut M, area: Option<RetArea>|
                {
                    &&& c.state(m) == old(self).state(old(masm))
                    &&& c.same_frame(old(self))
                    &&& #[trigger] call_ensures(calculate_ret_area, (results, c, m), area)
                    &&& final(self).state(final(masm)) == final(c).state(final(m)).push_results(results@, area)
                    &&& final(self).same_frame(final(c))
                },
            final(self).wf(),
    {
        let area = if results.on_stack() {
            let area = calculate_ret_area(results, self, masm);
            proof {
                let i = choose|i: int| 0 <= i < results@.len() && crate::abi::is_stack_operand(#[trigger] results@[i]);
                assert(results@[i] is Stack);
            }
            Some(area.unwrap())
        } else {
            None
        };
        self.push_abi_results_in(results, masm, area);
    }

    /// Puts the results of a call or of a block on the stack, each where
    /// the calling convention has it, with the return area `area` for those
    /// on the machine stack: the register of a result in a register is handed
    /// out and goes on the stack; a result on the machine stack goes on the
    /// stack as the slot at its offset below the offset of the area.
    pub fn push_abi_results_in<M: MacroAssembler>(
        &mut self,
        results: &ABIResults,
        masm: &mut M,
        area: Option<RetArea>,
    )
        requires
            old(self).wf(),
            results_ok(old(self).regalloc, results@, area),
        ensures
            final(self).state(final(masm)) == old(self).state(old(masm)).push_results(results@, area),
            final(self).same_frame(old(self)),
            final(self).wf(),
    {
        let ghost start = self.state(masm);
        let ghost ops = results@;
        proof {
            lemma_push_results(start, self.frame@, ops, area);
        }
        let operands = results.operands();
        let mut i: usize = 0;
        while i < operands.len()
            invariant
                i <= operands.len(),
                operands@ == ops,
                ops == results@,
                start == old(self).state(old(masm)),
                start.wf(self.frame@),
                results_ok(start.regs, ops, area),
                self.same_frame(old(self)),
                self.wf(),
                self.state(masm) == start.push_results(ops.take(i as int), area),
            decreases operands.len() - i,
        {
            proof {
                assert(ops.take(i + 1).drop_last() =~= ops.take(i as int));
                assert(ops.take(i + 1).last() == ops[i as int]);
                assert(result_entries(ops.take(i + 1), area) =~= result_entries(ops.take(i as int), area).push(
                    result_entry(ops[i as int], area),
                ));
                assert forall|k: int| 0 <= k < i && (#[trigger] ops.take(i as int)[k]) is Reg implies ops.take(
                    i as int,
                )[k]->Reg_reg.enc < 64 by {
                    assert(ops[k] is Reg);
                }
                lemma_claim_results(start.regs, ops.take(i as int), ops[i as int]->Reg_reg);
                if ops[i as int] is Reg && crate::bulk::names(ops.take(i as int), ops[i as int]->Reg_reg) {
                    let k = choose|k: int|
                        0 <= k < i && (#[trigger] ops.take(i as int)[k]) is Reg && ops.take(i as int)[k]->Reg_reg
                            == ops[i as int]->Reg_reg;
                    assert(ops[k] is Reg && ops[i as int] is Reg);
                }
                assert(self.regalloc.set(ops[i as int]->Reg_reg.class).wf());
            }
            match operands[i] {
                ABIOperand::Reg { reg, ty, .. } => {
                    proof {
                        lemma_claim(self.state(masm), self.env::<M>(), reg);
                        lemma_with_top(
                            self.state(masm).claim(self.env::<M>(), reg),
                            self.frame@,
                            Val::Reg(TypedReg { ty, reg }),
                        );
                    }
                    let typed_reg = TypedReg::new(ty, self.reg(reg, masm));
                    self.stack.push(Val::Reg(typed_reg));
                },
                ABIOperand::Stack { ty, offset, size } => match area.unwrap() {
                    RetArea::SP(sp_offset) => {
                        let slot = StackSlot::new(SPOffset::from_u32(sp_offset.as_u32() - offset), size);
                        proof {
                            lemma_with_top(self.state(masm), self.frame@, Val::Memory(crate::stack::Memory { ty, slot }));
                        }
                        self.stack.push(Val::mem(ty, slot));
                    },
                    _ => {
                        assert(false);
                    },
                },
            }
            i = i + 1;
        }
        proof {
            assert(ops.take(ops.len() as int) =~= ops);
        }
    }

    /// Marks `reg` free.
    pub fn free_reg(&mut self, reg: Reg)
        ensures
            final(self).regalloc == old(self).regalloc.released(reg),
            final(self).stack == old(self).stack,
            final(self).same_frame(old(self)),
            old(self).wf() && !holds(old(self).stack@, reg) ==> final(self).wf(),
    {
        proof {
            if self.wf() && !holds(self.stack@, reg) {
                lemma_release(self.holdings(), self.frame@, reg);
            }
        }
        self.regalloc.free(reg);
    }

    /// Spills the whole stack: every entry that is in a register or names a
    /// local is pushed to the machine stack and becomes a memory entry.
    pub fn spill<M: MacroAssembler>(&mut self, masm: &mut M)
        requires
            old(self).wf(),
            old(self).state(old(masm)).spill_fits(old(self).env::<M>()),
        ensures
            final(self).state(final(masm)) == old(self).state(old(masm)).spill(old(self).env::<M>()),
            final(self).wf(),
            final(self).same_frame(old(self)),
            !has_spillable(final(self).stack@),
            !has_spillable(old(self).stack@) ==> final(self).state(final(masm)) == old(self).state(old(masm)),
            in_sync(old(self).stack@, old(masm).sp() as int) && memory_below(old(self).stack@) ==> in_sync(
                final(self).stack@,
                final(masm).sp() as int,
            ),
    {
        proof {
            crate::model::lemma_spill_wf(self.state(masm), self.env::<M>());
            crate::laws::lemma_spill_of_spilled(self.state(masm), self.env::<M>());
            if in_sync(self.stack@, masm.sp() as int) && memory_below(self.stack@) {
                crate::laws::lemma_spill_keeps_in_sync(self.state(masm), self.env::<M>());
            }
        }
        Self::spill_impl(&mut self.stack, &mut self.regalloc, &self.frame, masm);
    }

    /// Spills every entry of `stack` that is in a register or names a
    /// local, from the bottom up, so that the slots come to lie in the
    /// machine stack in the order of the entries.
    fn spill_impl<M: MacroAssembler>(stack: &mut Stack, regalloc: &mut RegAlloc, frame: &Frame, masm: &mut M)
        requires
            state_of(old(stack)@, *old(regalloc), old(masm)).wf(frame@),
            state_of(old(stack)@, *old(regalloc), old(masm)).spill_fits(env_of::<M>(frame)),
        ensures
            state_of(final(stack)@, *final(regalloc), final(masm)) == state_of(
                old(stack)@,
                *old(regalloc),
                old(masm),
            ).spill(env_of::<M>(frame)),
    {
        let ghost env = env_of::<M>(frame);
        let ghost before = old(stack)@;
        let ghost pre = state_of(old(stack)@, *old(regalloc), old(masm));
        let n = stack.len();
        let mut i: usize = 0;
        while i < n
            invariant
                i <= n,
                n == before.len(),
                stack@.len() == n,
                before == old(stack)@,
                env == env_of::<M>(frame),
                pre == state_of(old(stack)@, *old(regalloc), old(masm)),
                pre.wf(frame@),
                pre.spill_fits(env),
                forall|j: int|
                    0 <= j < i ==> #[trigger] stack@[j] == spill_entry(
                        before[j],
                        env.locals,
                        pre.sp + spill_bytes(before.take(j + 1), env.locals),
                    ),
                forall|j: int| i <= j < n ==> #[trigger] stack@[j] == before[j],
                masm.sp() == pre.sp + spill_bytes(before.take(i as int), env.locals),
                masm.code() == pre.code + spill_code(before.take(i as int), env),
                *regalloc == spill_release(pre.regs, before.take(i as int)),
            decreases n - i,
        {
            let v = stack.get(i);
            proof {
                assert(before.take(i + 1).drop_last() =~= before.take(i as int));
                assert(before.take(i + 1).last() == before[i as int]);
                lemma_spill_bytes_take(before, env.locals, i + 1);
                lemma_spill_bytes_take(before, env.locals, i as int);
                assert(crate::model::entry_ok(before[i as int], pre.regs, env.locals));
            }
            match v {
                Val::Reg(r) => {
                    let slot = masm.push(r.reg, OperandSize::of(r.ty));
                    regalloc.free(r.reg);
                    stack.set(i, Val::mem(r.ty, slot));
                },
                Val::Local(local) => {
                    let slot = frame.get_local(local.index).unwrap();
                    let addr = masm.local_address(&slot);
                    let scratch = <M::ABI>::scratch_for(&slot.ty);
                    masm.load(addr, scratch, OperandSize::of(slot.ty));
                    let stack_slot = masm.push(scratch, OperandSize::of(slot.ty));
                    stack.set(i, Val::mem(slot.ty, stack_slot));
                },
                _ => {},
            }
            proof {
                assert(masm.code() =~= pre.code + spill_code(before.take(i + 1), env));
            }
            i = i + 1;
        }
        proof {
            assert(before.take(n as int) =~= before);
            assert(stack@ =~= pre.spill(env).stack);
        }
    }
}

} // verus!
