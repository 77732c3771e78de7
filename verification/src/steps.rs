//! The transitions on the state that hand out registers and bring the top
//! of the operand stack into a register, and what they keep.
use vstd::prelude::*;
use crate::frame::LocalSlot;
use crate::masm::{Address, Imm, Inst, MacroAssembler, RegImm};
use crate::model::{holds, Env, State};
use crate::reg::{Reg, RegClass};
use crate::stack::{TypedReg, Val};
use crate::types::{OperandSize, WasmType};

verus! {

/// The instruction that brings the value of the entry `v` into the register
/// `dst`: a move of a register or a constant, or a load of a local or of a
/// slot of the machine stack.
pub open spec fn move_inst(v: Val, dst: Reg, locals: Seq<LocalSlot>) -> Inst {
    match v {
        Val::Reg(r) => Inst::Mov { src: RegImm::Reg(r.reg), dst, size: r.ty.size() },
        Val::I32(c) => Inst::Mov { src: RegImm::Imm(Imm::I32(c)), dst, size: OperandSize::S32 },
        Val::I64(c) => Inst::Mov { src: RegImm::Imm(Imm::I64(c)), dst, size: OperandSize::S64 },
        Val::F32(c) => Inst::Mov { src: RegImm::Imm(Imm::F32(c)), dst, size: OperandSize::S32 },
        Val::F64(c) => Inst::Mov { src: RegImm::Imm(Imm::F64(c)), dst, size: OperandSize::S64 },
        Val::Local(l) => {
            let slot = locals[l.index as int];
            Inst::Load { src: Address::Local(slot.offset), dst, size: slot.ty.size() }
        },
        Val::Memory(m) => Inst::Load { src: Address::Stack(m.slot.offset.0), dst, size: m.ty.size() },
    }
}

impl State {
    /// The state without the top entry of the stack.
    pub open spec fn without_top(self) -> State {
        State { stack: self.stack.drop_last(), ..self }
    }

    /// The state with `v` on top of the stack.
    pub open spec fn with_top(self, v: Val) -> State {
        State { stack: self.stack.push(v), ..self }
    }

    /// The state with `r` marked free.
    pub open spec fn release(self, r: Reg) -> State {
        State { regs: self.regs.released(r), ..self }
    }

    /// The state with `i` emitted.
    pub open spec fn emit(self, i: Inst) -> State {
        State { code: self.code.push(i), ..self }
    }

    /// Whether `r` can be had: it can be handed out, and it is free or an
    /// entry of the stack is in it, so that a spill frees it.
    pub open spec fn can_claim(self, r: Reg) -> bool {
        self.regs.is_allocatable(r) && (self.regs.is_free(r) || holds(self.stack, r))
    }

    /// Whether `r` can be had, and the spill that this may take keeps the
    /// stack pointer offset within 32 bits.
    pub open spec fn claim_ok(self, env: Env, r: Reg) -> bool {
        self.can_claim(r) && (self.regs.is_free(r) || self.spill_fits(env))
    }

    /// The state after `r` has been handed out: marked in use, after a
    /// spill of the whole stack if it was not free.
    pub open spec fn claim(self, env: Env, r: Reg) -> State {
        let s = if self.regs.is_free(r) {
            self
        } else {
            self.spill(env)
        };
        State { regs: s.regs.claimed(r), ..s }
    }

    /// Whether some register of `class` can be had.
    pub open spec fn can_claim_class(self, class: RegClass) -> bool {
        exists|r: Reg| r.class == class && #[trigger] self.can_claim(r)
    }

    /// Whether some register of `class` can be had, and the spill that this
    /// may take keeps the stack pointer offset within 32 bits.
    pub open spec fn claim_class_ok(self, env: Env, class: RegClass) -> bool {
        self.can_claim_class(class) && (self.regs.any_free(class) || self.spill_fits(env))
    }

    /// The state after a register of `class` has been handed out, and that
    /// register: the free one with the lowest encoding, after a spill of the
    /// whole stack if none was free.
    pub open spec fn claim_class(self, env: Env, class: RegClass) -> (State, Reg) {
        let s = if self.regs.any_free(class) {
            self
        } else {
            self.spill(env)
        };
        let r = s.regs.lowest_free(class);
        (State { regs: s.regs.claimed(r), ..s }, r)
    }

    /// Whether the register that takes a popped value of type `ty` can be
    /// had: `named` if one is named, any of the class of `ty` otherwise.
    pub open spec fn target_ok(self, env: Env, named: Option<Reg>, ty: WasmType) -> bool {
        match named {
            Some(r) => self.claim_ok(env, r),
            None => self.claim_class_ok(env, ty.class()),
        }
    }

    /// The state after the register that takes a popped value of type `ty`
    /// has been handed out, and that register.
    pub open spec fn target(self, env: Env, named: Option<Reg>, ty: WasmType) -> (State, Reg) {
        match named {
            Some(r) => (self.claim(env, r), r),
            None => self.claim_class(env, ty.class()),
        }
    }

    /// Whether the top entry is in a register already that meets the
    /// request: any register when none is named, else the named one.
    pub open spec fn fast_pop(self, named: Option<Reg>) -> bool {
        self.stack.len() > 0 && self.stack.last() is Reg && (named is None || named == Some(
            self.stack.last()->Reg_0.reg,
        ))
    }

    /// Whether the top entry can be brought into a register: there is one,
    /// and unless it is in the right register already, the register for it
    /// can be had, and where the entry is in the machine stack its slot is
    /// the top of the machine stack at the time it is popped.
    pub open spec fn pop_to_reg_ok(self, env: Env, named: Option<Reg>) -> bool {
        &&& self.stack.len() > 0
        &&& !self.fast_pop(named) ==> {
            let top = self.stack.last();
            let rest = self.without_top();
            &&& rest.target_ok(env, named, top.spec_ty())
            &&& top is Memory ==> {
                let s1 = rest.target(env, named, top.spec_ty()).0;
                s1.sp == top->Memory_0.slot.offset.0 && s1.sp >= top.spec_ty().size().spec_bytes()
            }
        }
    }

    /// The state after the top entry has been brought into a register, and
    /// that register with the type of the entry.
    ///
    /// An entry that is in the right register already leaves the stack and
    /// nothing else happens. Otherwise the entry leaves the stack, the
    /// register for it is handed out, and the value is brought there: popped
    /// from the machine stack, or moved or loaded; the register that the
    /// entry was in is then free.
    pub open spec fn pop_to_reg(self, env: Env, named: Option<Reg>) -> (State, TypedReg) {
        let top = self.stack.last();
        if self.fast_pop(named) {
            (self.without_top(), top->Reg_0)
        } else {
            let (s1, reg) = self.without_top().target(env, named, top.spec_ty());
            let out = TypedReg { ty: top.spec_ty(), reg };
            match top {
                Val::Memory(m) => {
                    let size = m.ty.size();
                    (State { sp: s1.sp - size.spec_bytes(), ..s1 }.emit(Inst::Pop { dst: reg, size }), out)
                },
                Val::Reg(r) => (s1.emit(move_inst(top, reg, env.locals)).release(r.reg), out),
                _ => (s1.emit(move_inst(top, reg, env.locals)), out),
            }
        }
    }
}

/// The immediate operand that stands for a constant entry.
pub open spec fn imm_of(v: Val) -> Imm {
    match v {
        Val::I64(c) => Imm::I64(c),
        Val::F32(c) => Imm::F32(c),
        Val::F64(c) => Imm::F64(c),
        Val::I32(c) => Imm::I32(c),
        _ => Imm::I32(0),
    }
}

/// Whether the value of the entry `v` can be moved to a register: its type
/// is one that code can be generated for, and if it names a local, the local
/// exists and has such a type.
pub open spec fn movable(v: Val, locals: Seq<LocalSlot>) -> bool {
    &&& v.spec_ty().is_supported()
    &&& v is Local ==> v->Local_0.index < locals.len() && locals[v->Local_0.index as int].ty.is_supported()
}

impl State {
    /// Whether the top entry can be stored at an address: there is one, and
    /// if it is in the machine stack, the machine stack holds at least the
    /// bytes that are popped.
    pub open spec fn pop_to_addr_ok(self) -> bool {
        &&& self.stack.len() > 0
        &&& self.stack.last() is Memory ==> self.sp >= self.stack.last().spec_ty().size().spec_bytes()
    }

    /// The state after the top entry has been stored at `addr`.
    ///
    /// The entry leaves the stack. A register or a constant is stored as it
    /// is, and the register is then free. The value of a local is loaded
    /// into the general purpose scratch register and stored from there. An
    /// entry in the machine stack is popped into that scratch register and
    /// stored from there.
    pub open spec fn pop_to_addr(self, env: Env, addr: Address) -> State {
        let top = self.stack.last();
        let rest = self.without_top();
        let size = top.spec_ty().size();
        let from_scratch = Inst::Store { src: RegImm::Reg(env.scratch), dst: addr, size };
        match top {
            Val::Reg(r) => rest.emit(Inst::Store { src: RegImm::Reg(r.reg), dst: addr, size }).release(r.reg),
            Val::Local(l) => rest.emit(
                Inst::Load { src: Address::Local(env.locals[l.index as int].offset), dst: env.scratch, size },
            ).emit(from_scratch),
            Val::Memory(_) => State { sp: rest.sp - size.spec_bytes(), ..rest }.emit(
                Inst::Pop { dst: env.scratch, size },
            ).emit(from_scratch),
            _ => rest.emit(Inst::Store { src: RegImm::Imm(imm_of(top)), dst: addr, size }),
        }
    }
}

/// Storing the top entry at an address keeps the invariant, and every
/// register in the hands of the caller stays there.
pub proof fn lemma_pop_to_addr(s: State, env: Env, addr: Address)
    requires
        s.wf(env.locals),
        s.stack.len() > 0,
    ensures
        s.pop_to_addr(env, addr).wf(env.locals),
        s.pop_to_addr(env, addr).stack == s.stack.drop_last(),
        forall|q: Reg| s.pinned(q) ==> s.pop_to_addr(env, addr).pinned(q),
{
    lemma_without_top(s, env.locals);
    let rest = s.without_top();
    match s.stack.last() {
        Val::Reg(r) => {
            let size = r.ty.size();
            let s1 = rest.emit(Inst::Store { src: RegImm::Reg(r.reg), dst: addr, size });
            assert(s1.wf(env.locals));
            lemma_release(s1, env.locals, r.reg);
            assert forall|q: Reg| s.pinned(q) implies q != r.reg by {
                assert(s.stack[s.stack.len() - 1] is Reg);
            }
        },
        _ => {},
    }
}

impl State {
    /// The state with the stack pointer offset and the code of the
    /// assembler `masm`.
    pub open spec fn at<M: MacroAssembler>(self, masm: &M) -> State {
        State { sp: masm.sp() as int, code: masm.code(), ..self }
    }

    /// Whether the two top entries can be brought into registers, the top
    /// one first.
    pub open spec fn binop_ok(self, env: Env) -> bool {
        self.pop_to_reg_ok(env, None) && self.pop_to_reg(env, None).0.pop_to_reg_ok(env, None)
    }

    /// The state after the two top entries have been brought into
    /// registers, the top one first; the register of the second entry, which
    /// is where a binary operation leaves its result; and the register of the
    /// top entry.
    pub open spec fn binop_operands(self, env: Env) -> (State, TypedReg, TypedReg) {
        let (s1, src) = self.pop_to_reg(env, None);
        let (s2, dst) = s1.pop_to_reg(env, None);
        (s2, dst, src)
    }

    /// The state after an operation has left its result in `out`: the
    /// source register `src` is free and `out` is on top of the stack.
    pub open spec fn finish(self, src: Reg, out: TypedReg) -> State {
        self.release(src).with_top(Val::Reg(out))
    }
}

impl State {
    /// Whether the operands of a float comparison can be had: the two top
    /// entries in registers, and a general purpose register for the result.
    pub open spec fn float_cmp_ok(self, env: Env) -> bool {
        self.binop_ok(env) && self.binop_operands(env).0.claim_class_ok(env, RegClass::Int)
    }

    /// The state after the operands of a float comparison have been made
    /// ready; the general purpose register for the result; the register of
    /// the top entry; and the register of the second entry.
    pub open spec fn float_cmp_operands(self, env: Env) -> (State, Reg, TypedReg, TypedReg) {
        let (s2, src2, src1) = self.binop_operands(env);
        let (s3, dst) = s2.claim_class(env, RegClass::Int);
        (s3, dst, src1, src2)
    }

    /// The state after a float comparison on operands of the given size has
    /// left its result in `dst`: both source registers are free, and `dst` is
    /// on top of the stack as a 32-bit integer for 32-bit operands and as a
    /// 64-bit integer for 64-bit operands.
    pub open spec fn finish_float_cmp(self, dst: Reg, src1: Reg, src2: Reg, size: OperandSize) -> State {
        let ty = if size == OperandSize::S32 {
            WasmType::I32
        } else {
            WasmType::I64
        };
        self.release(src1).release(src2).with_top(Val::Reg(TypedReg { ty, reg: dst }))
    }

    /// Whether the operands of a conversion to `dst_ty` can be had: the top
    /// entry in a register, and a register of the class of `dst_ty`.
    pub open spec fn convert_ok(self, env: Env, dst_ty: WasmType) -> bool {
        self.pop_to_reg_ok(env, None) && self.pop_to_reg(env, None).0.claim_class_ok(env, dst_ty.class())
    }

    /// The state after the operands of a conversion to `dst_ty` have been
    /// made ready; the register for the result; and the register of the top
    /// entry.
    pub open spec fn convert_operands(self, env: Env, dst_ty: WasmType) -> (State, Reg, TypedReg) {
        let (s1, src) = self.pop_to_reg(env, None);
        let (s2, dst) = s1.claim_class(env, dst_ty.class());
        (s2, dst, src)
    }

    /// Whether the operands of an integer operation can be had, where a
    /// constant of the type `ty` of the operation on top of the stack is
    /// used as an immediate: there is a top entry; if it is such a constant,
    /// the entry below it can be brought into a register; if not, the two top
    /// entries can.
    pub open spec fn int_binop_ok(self, env: Env, ty: WasmType) -> bool {
        &&& self.stack.len() > 0
        &&& self.has_imm(ty) ==> self.without_top().pop_to_reg_ok(env, None)
        &&& !self.has_imm(ty) ==> self.binop_ok(env)
    }

    /// Whether the top entry is an integer constant of the type `ty`.
    pub open spec fn has_imm(self, ty: WasmType) -> bool {
        self.stack.len() > 0 && (self.stack.last() is I32 || self.stack.last() is I64) && self.stack.last().spec_ty()
            == ty
    }

    /// The state after the operands of an integer operation of the type
    /// `ty` have been made ready; the register of the first operand, which is
    /// where the operation leaves its result; and the second operand: the
    /// constant on top of the stack as an immediate if there is one, the
    /// register of the top entry if not.
    pub open spec fn int_binop_operands(self, env: Env, ty: WasmType) -> (State, TypedReg, RegImm) {
        if self.has_imm(ty) {
            let (p, dst) = self.without_top().pop_to_reg(env, None);
            (p, dst, RegImm::Imm(imm_of(self.stack.last())))
        } else {
            let (p, dst, src) = self.binop_operands(env);
            (p, dst, RegImm::Reg(src.reg))
        }
    }

    /// The state after an integer operation has left its result in `out`:
    /// the register of the second operand, if it was in one, is free, and
    /// `out` is on top of the stack.
    pub open spec fn finish_int_binop(self, src: RegImm, out: TypedReg) -> State {
        match src {
            RegImm::Reg(r) => self.finish(r, out),
            RegImm::Imm(_) => self.with_top(Val::Reg(out)),
        }
    }
}

/// Making the operands of a float comparison ready keeps the invariant.
/// The three registers are then in the hands of the caller, and they differ.
pub proof fn lemma_float_cmp_operands(s: State, env: Env)
    requires
        s.wf(env.locals),
        s.float_cmp_ok(env),
    ensures
        ({
            let (p, dst, src1, src2) = s.float_cmp_operands(env);
            &&& p.wf(env.locals)
            &&& p.pinned(dst) && p.pinned(src1.reg) && p.pinned(src2.reg)
            &&& dst != src1.reg && dst != src2.reg && src1.reg != src2.reg
            &&& dst.class == RegClass::Int
            &&& p.stack.len() == s.stack.len() - 2
            &&& forall|q: Reg| s.pinned(q) ==> p.pinned(q) && q != dst && q != src1.reg && q != src2.reg
        }),
{
    lemma_binop_operands(s, env);
    lemma_claim_class(s.binop_operands(env).0, env, RegClass::Int);
}

/// Leaving the result of a float comparison on the stack keeps the
/// invariant.
pub proof fn lemma_finish_float_cmp(s: State, locals: Seq<LocalSlot>, dst: Reg, src1: Reg, src2: Reg, size: OperandSize)
    requires
        s.wf(locals),
        s.pinned(dst),
        s.pinned(src1),
        s.pinned(src2),
        dst != src1,
        dst != src2,
    ensures
        s.finish_float_cmp(dst, src1, src2, size).wf(locals),
        forall|q: Reg|
            s.pinned(q) && q != src1 && q != src2 && q != dst ==> s.finish_float_cmp(dst, src1, src2, size).pinned(q),
{
    lemma_release(s, locals, src1);
    lemma_release(s.release(src1), locals, src2);
    let ty = if size == OperandSize::S32 {
        WasmType::I32
    } else {
        WasmType::I64
    };
    s.regs.lemma_released(src1, dst);
    s.release(src1).regs.lemma_released(src2, dst);
    lemma_with_top(s.release(src1).release(src2), locals, Val::Reg(TypedReg { ty, reg: dst }));
}

/// Making the operands of a conversion ready keeps the invariant. The two
/// registers are then in the hands of the caller, and they differ.
pub proof fn lemma_convert_operands(s: State, env: Env, dst_ty: WasmType)
    requires
        s.wf(env.locals),
        s.convert_ok(env, dst_ty),
    ensures
        ({
            let (p, dst, src) = s.convert_operands(env, dst_ty);
            &&& p.wf(env.locals)
            &&& p.pinned(dst) && p.pinned(src.reg)
            &&& dst != src.reg
            &&& dst.class == dst_ty.class()
            &&& p.stack.len() == s.stack.len() - 1
            &&& forall|q: Reg| s.pinned(q) ==> p.pinned(q) && q != dst && q != src.reg
        }),
{
    lemma_pop_to_reg(s, env, None);
    lemma_claim_class(s.pop_to_reg(env, None).0, env, dst_ty.class());
}

/// Making the operands of an integer operation ready keeps the invariant.
/// The registers are then in the hands of the caller, and they differ.
pub proof fn lemma_int_binop_operands(s: State, env: Env, ty: WasmType)
    requires
        s.wf(env.locals),
        s.int_binop_ok(env, ty),
    ensures
        ({
            let (p, dst, src) = s.int_binop_operands(env, ty);
            &&& p.wf(env.locals)
            &&& p.pinned(dst.reg)
            &&& src is Reg ==> p.pinned(src->Reg_0) && src->Reg_0 != dst.reg
            &&& src is Imm <==> s.has_imm(ty)
            &&& forall|q: Reg| s.pinned(q) ==> p.pinned(q) && q != dst.reg && !(src is Reg && q == src->Reg_0)
        }),
{
    if s.has_imm(ty) {
        lemma_without_top(s, env.locals);
        lemma_pop_to_reg(s.without_top(), env, None);
    } else {
        lemma_binop_operands(s, env);
    }
}

/// Leaving the result of an integer operation on the stack keeps the
/// invariant, when the result is in a register in the hands of the caller
/// that is not the register of the second operand.
pub proof fn lemma_finish_int_binop(s: State, locals: Seq<LocalSlot>, src: RegImm, out: TypedReg)
    requires
        s.wf(locals),
        src is Reg ==> !holds(s.stack, src->Reg_0) && out.reg != src->Reg_0,
        s.pinned(out.reg),
        out.ty.is_supported(),
    ensures
        s.finish_int_binop(src, out).wf(locals),
        s.finish_int_binop(src, out).stack == s.stack.push(Val::Reg(out)),
{
    match src {
        RegImm::Reg(r) => {
            lemma_finish(s, locals, r, out);
        },
        RegImm::Imm(_) => {
            lemma_with_top(s, locals, Val::Reg(out));
        },
    }
}

impl State {
    /// Whether the operands of a conversion to `dst_ty` with a temporary
    /// register of the class `tmp` can be had: first the temporary register,
    /// then the operands of the conversion.
    pub open spec fn convert_with_tmp_ok(self, env: Env, dst_ty: WasmType, tmp: RegClass) -> bool {
        self.claim_class_ok(env, tmp) && self.claim_class(env, tmp).0.convert_ok(env, dst_ty)
    }

    /// The state after the operands of a conversion to `dst_ty` with a
    /// temporary register of the class `tmp` have been made ready; the
    /// register for the result; the register of the top entry; and the
    /// temporary register.
    pub open spec fn convert_with_tmp_operands(self, env: Env, dst_ty: WasmType, tmp: RegClass) -> (
        State,
        Reg,
        TypedReg,
        Reg,
    ) {
        let (s1, t) = self.claim_class(env, tmp);
        let (s2, dst, src) = s1.convert_operands(env, dst_ty);
        (s2, dst, src, t)
    }
}

/// Making the operands of a conversion with a temporary register ready
/// keeps the invariant. The three registers are then in the hands of the
/// caller, and they differ.
pub proof fn lemma_convert_with_tmp_operands(s: State, env: Env, dst_ty: WasmType, tmp: RegClass)
    requires
        s.wf(env.locals),
        s.convert_with_tmp_ok(env, dst_ty, tmp),
    ensures
        ({
            let (p, dst, src, t) = s.convert_with_tmp_operands(env, dst_ty, tmp);
            &&& p.wf(env.locals)
            &&& p.pinned(dst) && p.pinned(src.reg) && p.pinned(t)
            &&& dst != src.reg && dst != t && src.reg != t
            &&& forall|q: Reg| s.pinned(q) ==> p.pinned(q) && q != dst && q != src.reg && q != t
        }),
{
    lemma_claim_class(s, env, tmp);
    lemma_convert_operands(s.claim_class(env, tmp).0, env, dst_ty);
}

/// Bringing the two top entries into registers keeps the invariant. Both
/// registers are then in the hands of the caller, and they differ.
pub proof fn lemma_binop_operands(s: State, env: Env)
    requires
        s.wf(env.locals),
        s.binop_ok(env),
    ensures
        s.binop_operands(env).0.wf(env.locals),
        s.binop_operands(env).0.pinned(s.binop_operands(env).1.reg),
        s.binop_operands(env).0.pinned(s.binop_operands(env).2.reg),
        s.binop_operands(env).1.reg != s.binop_operands(env).2.reg,
        s.binop_operands(env).0.stack.len() == s.stack.len() - 2,
        forall|q: Reg|
            s.pinned(q) ==> s.binop_operands(env).0.pinned(q) && q != s.binop_operands(env).1.reg && q
                != s.binop_operands(env).2.reg,
{
    lemma_pop_to_reg(s, env, None);
    lemma_pop_to_reg(s.pop_to_reg(env, None).0, env, None);
}

/// Leaving a result on the stack keeps the invariant, when the result is
/// in a register in the hands of the caller that is not the source, and the
/// source is in no entry.
pub proof fn lemma_finish(s: State, locals: Seq<LocalSlot>, src: Reg, out: TypedReg)
    requires
        s.wf(locals),
        !holds(s.stack, src),
        s.pinned(out.reg),
        out.reg != src,
        out.ty.is_supported(),
    ensures
        s.finish(src, out).wf(locals),
        s.finish(src, out).stack == s.stack.push(Val::Reg(out)),
        forall|q: Reg| s.pinned(q) && q != src && q != out.reg ==> s.finish(src, out).pinned(q),
{
    lemma_release(s, locals, src);
    lemma_with_top(s.release(src), locals, Val::Reg(out));
}

/// An entry of a stack without its top is an entry of the stack.
pub proof fn lemma_holds_below(stack: Seq<Val>, q: Reg)
    requires
        stack.len() > 0,
    ensures
        holds(stack.drop_last(), q) ==> holds(stack, q),
        holds(stack, q) ==> holds(stack.drop_last(), q) || (stack.last() is Reg && stack.last()->Reg_0.reg == q),
{
    let rest = stack.drop_last();
    if holds(rest, q) {
        let i = choose|i: int| 0 <= i < rest.len() && (#[trigger] rest[i]) is Reg && rest[i]->Reg_0.reg == q;
        assert(stack[i] == rest[i]);
    }
    if holds(stack, q) {
        let i = choose|i: int| 0 <= i < stack.len() && (#[trigger] stack[i]) is Reg && stack[i]->Reg_0.reg == q;
        if i < rest.len() {
            assert(stack[i] == rest[i]);
        }
    }
}

/// Taking the top entry off keeps the invariant; the register that the
/// entry was in is then in the hands of the caller.
pub proof fn lemma_without_top(s: State, locals: Seq<LocalSlot>)
    requires
        s.wf(locals),
        s.stack.len() > 0,
    ensures
        s.without_top().wf(locals),
        s.stack.last() is Reg ==> s.without_top().pinned(s.stack.last()->Reg_0.reg),
        forall|q: Reg| s.pinned(q) ==> s.without_top().pinned(q),
{
    let rest = s.without_top();
    let n = s.stack.len() - 1;
    assert forall|i: int| 0 <= i < rest.stack.len() implies crate::model::entry_ok(
        #[trigger] rest.stack[i],
        rest.regs,
        locals,
    ) by {
        assert(rest.stack[i] == s.stack[i]);
    }
    assert forall|i: int, j: int|
        0 <= i < j < rest.stack.len() && (#[trigger] rest.stack[i]) is Reg && (#[trigger] rest.stack[j]) is Reg implies rest.stack[i]->Reg_0.reg
        != rest.stack[j]->Reg_0.reg by {
        assert(rest.stack[i] == s.stack[i] && rest.stack[j] == s.stack[j]);
    }
    if s.stack.last() is Reg {
        let r = s.stack.last()->Reg_0.reg;
        assert(s.stack[n] is Reg);
        if holds(rest.stack, r) {
            let i = choose|i: int| 0 <= i < rest.stack.len() && (#[trigger] rest.stack[i]) is Reg && rest.stack[i]->Reg_0.reg == r;
            assert(rest.stack[i] == s.stack[i]);
        }
    }
    assert forall|q: Reg| s.pinned(q) implies rest.pinned(q) by {
        lemma_holds_below(s.stack, q);
    }
}

/// Putting a value on top that is in a register in the hands of the
/// caller, or in no register at all, keeps the invariant.
pub proof fn lemma_with_top(s: State, locals: Seq<LocalSlot>, v: Val)
    requires
        s.wf(locals),
        crate::model::entry_ok(v, s.regs, locals),
        v is Reg ==> s.pinned(v->Reg_0.reg),
    ensures
        s.with_top(v).wf(locals),
        forall|q: Reg| s.pinned(q) && !(v is Reg && v->Reg_0.reg == q) ==> s.with_top(v).pinned(q),
{
    let t = s.with_top(v);
    assert forall|i: int| 0 <= i < t.stack.len() implies crate::model::entry_ok(#[trigger] t.stack[i], t.regs, locals) by {
        if i < s.stack.len() {
            assert(t.stack[i] == s.stack[i]);
        }
    }
    assert forall|i: int, j: int|
        0 <= i < j < t.stack.len() && (#[trigger] t.stack[i]) is Reg && (#[trigger] t.stack[j]) is Reg implies t.stack[i]->Reg_0.reg
        != t.stack[j]->Reg_0.reg by {
        assert(t.stack[i] == s.stack[i]);
        if j < s.stack.len() {
            assert(t.stack[j] == s.stack[j]);
        }
    }
    assert(t.stack.drop_last() =~= s.stack);
    assert forall|q: Reg| s.pinned(q) && !(v is Reg && v->Reg_0.reg == q) implies t.pinned(q) by {
        lemma_holds_below(t.stack, q);
    }
}

/// Marking free a register in the hands of the caller keeps the invariant
/// and leaves every other such register where it is.
pub proof fn lemma_release(s: State, locals: Seq<LocalSlot>, r: Reg)
    requires
        s.wf(locals),
        !holds(s.stack, r),
    ensures
        s.release(r).wf(locals),
        forall|q: Reg| s.pinned(q) && q != r ==> s.release(r).pinned(q),
        forall|q: Reg| s.release(r).regs.is_free(q) == (s.regs.is_free(q) || (q == r && s.regs.is_allocatable(r))),
{
    let t = s.release(r);
    assert forall|q: Reg|
        t.regs.is_free(q) == (s.regs.is_free(q) || (q == r && s.regs.is_allocatable(r))) && t.regs.is_allocatable(
            q,
        ) == s.regs.is_allocatable(q) by {
        s.regs.lemma_released(r, q);
    }
    s.regs.lemma_released(r, r);
    assert forall|i: int| 0 <= i < t.stack.len() implies crate::model::entry_ok(#[trigger] t.stack[i], t.regs, locals) by {
        assert(crate::model::entry_ok(s.stack[i], s.regs, locals));
    }
}

/// Handing out a named register keeps the invariant. The register is then
/// in the hands of the caller, and so is every register that was before; if
/// the register was free, the stack, the stack pointer offset and the code
/// are as before.
pub proof fn lemma_claim(s: State, env: Env, r: Reg)
    requires
        s.wf(env.locals),
        s.can_claim(r),
    ensures
        s.claim(env, r).wf(env.locals),
        s.claim(env, r).pinned(r),
        s.claim(env, r).stack.len() == s.stack.len(),
        s.claim(env, r).sp >= s.sp,
        forall|q: Reg| s.pinned(q) ==> s.claim(env, r).pinned(q) && q != r,
{
    let m = if s.regs.is_free(r) {
        s
    } else {
        s.spill(env)
    };
    lemma_spill_wf_of(s, env);
    lemma_claim_free(m, env.locals, r);
}

/// Handing out a register of a class keeps the invariant. The register is
/// of the class; it is then in the hands of the caller, and so is every
/// register that was before.
pub proof fn lemma_claim_class(s: State, env: Env, class: RegClass)
    requires
        s.wf(env.locals),
        s.can_claim_class(class),
    ensures
        s.claim_class(env, class).0.wf(env.locals),
        s.claim_class(env, class).0.pinned(s.claim_class(env, class).1),
        s.claim_class(env, class).1.class == class,
        s.claim_class(env, class).0.stack.len() == s.stack.len(),
        s.claim_class(env, class).0.sp >= s.sp,
        forall|q: Reg| s.pinned(q) ==> s.claim_class(env, class).0.pinned(q) && q != s.claim_class(env, class).1,
{
    let m = if s.regs.any_free(class) {
        s
    } else {
        s.spill(env)
    };
    lemma_spill_wf_of(s, env);
    let w = choose|w: Reg| w.class == class && #[trigger] s.can_claim(w);
    m.regs.lemma_lowest_free(class);
    s.regs.lemma_lowest_free(class);
    if !s.regs.any_free(class) {
        assert(m.regs.is_free(w));
    }
    lemma_claim_free(m, env.locals, m.regs.lowest_free(class));
}

/// What a spill keeps, in the words that the lemmas on handing out
/// registers need.
proof fn lemma_spill_wf_of(s: State, env: Env)
    requires
        s.wf(env.locals),
    ensures
        s.spill(env).wf(env.locals),
        s.spill(env).stack.len() == s.stack.len(),
        s.spill(env).sp >= s.sp,
        forall|q: Reg| !holds(s.spill(env).stack, q),
        forall|q: Reg| s.spill(env).regs.is_free(q) == (s.regs.is_free(q) || holds(s.stack, q)),
        forall|q: Reg| s.spill(env).regs.is_allocatable(q) == s.regs.is_allocatable(q),
        forall|q: Reg| s.pinned(q) ==> s.spill(env).pinned(q),
{
    crate::model::lemma_spill_wf(s, env);
}

/// Marking a free register in use keeps the invariant and hands the
/// register to the caller.
proof fn lemma_claim_free(s: State, locals: Seq<LocalSlot>, r: Reg)
    requires
        s.wf(locals),
        s.regs.is_free(r),
    ensures
        (State { regs: s.regs.claimed(r), ..s }).wf(locals),
        (State { regs: s.regs.claimed(r), ..s }).pinned(r),
        forall|q: Reg| s.pinned(q) ==> (State { regs: s.regs.claimed(r), ..s }).pinned(q) && q != r,
{
    let t = State { regs: s.regs.claimed(r), ..s };
    assert(r.enc < 64);
    assert forall|q: Reg|
        t.regs.is_free(q) == (s.regs.is_free(q) && q != r) && t.regs.is_allocatable(q) == s.regs.is_allocatable(
            q,
        ) by {
        s.regs.lemma_claimed(r, q);
    }
    s.regs.lemma_claimed(r, r);
    assert(s.regs.set(r.class).wf());
    if holds(s.stack, r) {
        let i = choose|i: int| 0 <= i < s.stack.len() && (#[trigger] s.stack[i]) is Reg && s.stack[i]->Reg_0.reg == r;
        assert(crate::model::entry_ok(s.stack[i], s.regs, locals));
    }
    assert forall|i: int| 0 <= i < t.stack.len() implies crate::model::entry_ok(#[trigger] t.stack[i], t.regs, locals) by {
        assert(crate::model::entry_ok(s.stack[i], s.regs, locals));
    }
}

/// Bringing the top entry into a register keeps the invariant. The
/// register has the type of the entry and is then in the hands of the
/// caller, as is every register that was before; the stack is one entry
/// shorter.
pub proof fn lemma_pop_to_reg(s: State, env: Env, named: Option<Reg>)
    requires
        s.wf(env.locals),
        s.pop_to_reg_ok(env, named),
    ensures
        s.pop_to_reg(env, named).0.wf(env.locals),
        s.pop_to_reg(env, named).0.pinned(s.pop_to_reg(env, named).1.reg),
        s.pop_to_reg(env, named).0.stack.len() == s.stack.len() - 1,
        s.pop_to_reg(env, named).1.ty == s.stack.last().spec_ty(),
        s.pop_to_reg(env, named).1.ty.is_supported(),
        named is Some ==> s.pop_to_reg(env, named).1.reg == named->Some_0,
        named is None && !s.fast_pop(named) ==> s.pop_to_reg(env, named).1.reg.class == s.stack.last().spec_ty().class(),
        forall|q: Reg| s.pinned(q) ==> s.pop_to_reg(env, named).0.pinned(q) && q != s.pop_to_reg(env, named).1.reg,
{
    let top = s.stack.last();
    let rest = s.without_top();
    lemma_without_top(s, env.locals);
    assert(crate::model::entry_ok(s.stack[s.stack.len() - 1], s.regs, env.locals));
    if s.fast_pop(named) {
        assert forall|q: Reg| s.pinned(q) implies q != top->Reg_0.reg by {
            assert(s.stack[s.stack.len() - 1] is Reg);
        }
    } else {
        let (s1, reg) = rest.target(env, named, top.spec_ty());
        match named {
            Some(r) => {
                lemma_claim(rest, env, r);
            },
            None => {
                lemma_claim_class(rest, env, top.spec_ty().class());
            },
        }
        match top {
            Val::Reg(r) => {
                let s2 = s1.emit(move_inst(top, reg, env.locals));
                assert(s2.wf(env.locals));
                assert(rest.pinned(r.reg));
                lemma_release(s2, env.locals, r.reg);
                s2.regs.lemma_released(r.reg, reg);
                assert forall|q: Reg| s.pinned(q) implies q != r.reg by {
                    assert(s.stack[s.stack.len() - 1] is Reg);
                }
            },
            _ => {},
        }
    }
}

} // verus!
