//! What holds of the state and its transitions whatever the inputs.
use vstd::prelude::*;
use crate::masm::{Imm, Inst, RegImm};
use crate::model::{
    entry_ok, has_spillable, in_sync, lemma_nothing_to_spill, lemma_spill_bytes_take, lemma_spill_nothing,
    memory_below, memory_bytes, spill_bytes, spill_values, spillable, Env, State,
};
use crate::reg::{Reg, RegClass};
use crate::stack::{TypedReg, Val};
use crate::steps::{imm_of, lemma_pop_to_reg, lemma_with_top, lemma_without_top, move_inst};
use crate::types::WasmType;

verus! {

/// Register exclusivity: in a state that meets the invariant, two
/// different entries of the stack are never in the same register, and the
/// register of every entry is marked in use.
pub proof fn lemma_registers_exclusive(s: State, env: Env, i: int, j: int)
    requires
        s.wf(env.locals),
        0 <= i < s.stack.len(),
        0 <= j < s.stack.len(),
        i != j,
        s.stack[i] is Reg,
    ensures
        s.regs.is_busy(s.stack[i]->Reg_0.reg),
        s.stack[j] is Reg ==> s.stack[i]->Reg_0.reg != s.stack[j]->Reg_0.reg,
{
    assert(entry_ok(s.stack[i], s.regs, env.locals));
    if s.stack[j] is Reg {
        if i < j {
            assert(s.stack[i]->Reg_0.reg != s.stack[j]->Reg_0.reg);
        } else {
            assert(s.stack[j]->Reg_0.reg != s.stack[i]->Reg_0.reg);
        }
    }
}

/// Register exclusivity is kept by the steps that change the stack: by
/// putting an entry on top whose register, if it has one, is in the hands of
/// the caller; by bringing the top entry into a register; and by a spill.
pub proof fn lemma_steps_keep_exclusivity(s: State, env: Env, v: Val, named: Option<Reg>)
    requires
        s.wf(env.locals),
    ensures
        entry_ok(v, s.regs, env.locals) && (v is Reg ==> s.pinned(v->Reg_0.reg)) ==> s.with_top(v).wf(env.locals),
        s.pop_to_reg_ok(env, named) ==> s.pop_to_reg(env, named).0.wf(env.locals),
        s.stack.len() > 0 ==> s.without_top().wf(env.locals),
        s.spill(env).wf(env.locals),
{
    if entry_ok(v, s.regs, env.locals) && (v is Reg ==> s.pinned(v->Reg_0.reg)) {
        lemma_with_top(s, env.locals, v);
    }
    if s.pop_to_reg_ok(env, named) {
        lemma_pop_to_reg(s, env, named);
    }
    if s.stack.len() > 0 {
        lemma_without_top(s, env.locals);
    }
    crate::model::lemma_spill_wf(s, env);
}

/// The memory entries of a spilled stack take the bytes that the memory
/// entries took before and the bytes that the spill pushed.
proof fn lemma_spilled_memory_bytes(stack: Seq<Val>, env: Env, sp: int, n: int)
    requires
        0 <= n <= stack.len(),
    ensures
        memory_bytes(spill_values(stack, env.locals, sp).take(n)) == memory_bytes(stack.take(n)) + spill_bytes(
            stack.take(n),
            env.locals,
        ),
    decreases n,
{
    let t = spill_values(stack, env.locals, sp);
    if n > 0 {
        lemma_spilled_memory_bytes(stack, env, sp, n - 1);
        assert(t.take(n).drop_last() =~= t.take(n - 1));
        assert(stack.take(n).drop_last() =~= stack.take(n - 1));
        assert(t.take(n).last() == t[n - 1]);
        assert(stack.take(n).last() == stack[n - 1]);
    } else {
        assert(t.take(0).len() == 0);
        assert(stack.take(0).len() == 0);
    }
}

/// The memory entries of a part of a stack from the bottom take as many
/// bytes as those of the whole stack, if no memory entry lies above the
/// part.
proof fn lemma_memory_bytes_below(stack: Seq<Val>, n: int)
    requires
        0 <= n <= stack.len(),
        forall|j: int| n <= j < stack.len() ==> !((#[trigger] stack[j]) is Memory),
    ensures
        memory_bytes(stack.take(n)) == memory_bytes(stack),
    decreases stack.len() - n,
{
    if n == stack.len() {
        assert(stack.take(n) =~= stack);
    } else {
        let rest = stack.drop_last();
        assert forall|j: int| n <= j < rest.len() implies !((#[trigger] rest[j]) is Memory) by {
            assert(rest[j] == stack[j]);
        }
        lemma_memory_bytes_below(rest, n);
        assert(rest.take(n) =~= stack.take(n));
        assert(!(stack[stack.len() - 1] is Memory));
    }
}

/// Stack and stack pointer stay consistent over a spill. If the memory
/// entries lie in the machine stack as their slots say, and every entry that
/// can be spilled lies above every memory entry, then after the spill every
/// memory entry, old or new, lies in the machine stack as its slot says, and
/// together the slots take as many bytes as the stack pointer offset says.
pub proof fn lemma_spill_keeps_in_sync(s: State, env: Env)
    requires
        s.wf(env.locals),
        s.sp >= 0,
        s.spill_fits(env),
        in_sync(s.stack, s.sp),
        memory_below(s.stack),
    ensures
        in_sync(s.spill(env).stack, s.spill(env).sp),
{
    let t = s.spill(env);
    let n = s.stack.len() as int;
    lemma_spilled_memory_bytes(s.stack, env, s.sp, n);
    assert(t.stack.take(n) =~= t.stack);
    assert(s.stack.take(n) =~= s.stack);
    assert forall|i: int| 0 <= i < t.stack.len() && (#[trigger] t.stack[i]) is Memory implies t.stack[i]->Memory_0.slot.offset.0
        == memory_bytes(t.stack.take(i + 1)) by {
        lemma_spilled_memory_bytes(s.stack, env, s.sp, i + 1);
        lemma_spill_bytes_take(s.stack, env.locals, i + 1);
        if spillable(s.stack[i]) {
            assert forall|j: int| i + 1 <= j < s.stack.len() implies !((#[trigger] s.stack[j]) is Memory) by {}
            lemma_memory_bytes_below(s.stack, i + 1);
        } else {
            assert(s.stack[i] is Memory);
            let part = s.stack.take(i + 1);
            assert forall|k: int| 0 <= k < part.len() implies !spillable(#[trigger] part[k]) by {
                assert(part[k] == s.stack[k]);
                if k < i && spillable(s.stack[k]) {
                    assert(!(s.stack[i] is Memory));
                }
            }
            assert(!has_spillable(part));
            lemma_nothing_to_spill(part, s.regs, env, i + 1);
            assert(part.take(i + 1) =~= part);
        }
    }
}

/// A spill when nothing can be spilled is no spill: with no entry in a
/// register and none naming a local, the stack, the inventory, the stack
/// pointer offset and the code stay as they are.
pub proof fn lemma_spill_of_spilled(s: State, env: Env)
    requires
        s.wf(env.locals),
    ensures
        !has_spillable(s.stack) ==> s.spill(env) == s,
        s.spill(env).spill(env) == s.spill(env),
{
    if !has_spillable(s.stack) {
        lemma_spill_nothing(s, env);
    }
    crate::model::lemma_spill_wf(s, env);
    lemma_spill_nothing(s.spill(env), env);
}

/// Popping undoes pushing. Taking the top entry off a stack on which `v`
/// was just put gives the stack back. Bringing that top entry into a
/// register gives a register with the type of `v`. If `v` was in a register
/// and no other register was asked for, it is that very register, and the
/// state is as it was before `v` was put on the stack. If another register
/// was asked for, the result is in that one, brought there by one move, and
/// the register of `v` is free.
pub proof fn lemma_pop_undoes_push(s: State, env: Env, v: Val, named: Option<Reg>)
    requires
        s.wf(env.locals),
        entry_ok(v, s.regs, env.locals),
        v is Reg ==> s.pinned(v->Reg_0.reg),
        s.with_top(v).pop_to_reg_ok(env, named),
    ensures
        s.with_top(v).without_top() == s,
        s.with_top(v).pop_to_reg(env, named).1.ty == v.spec_ty(),
        v is Reg && (named is None || named == Some(v->Reg_0.reg)) ==> s.with_top(v).pop_to_reg(env, named) == (
            s,
            v->Reg_0,
        ),
        v is Reg && named is Some && named != Some(v->Reg_0.reg) ==> s.with_top(v).pop_to_reg(env, named) == (
            s.claim(env, named->Some_0).emit(move_inst(v, named->Some_0, env.locals)).release(v->Reg_0.reg),
            TypedReg { ty: v.spec_ty(), reg: named->Some_0 },
        ),
{
    assert(s.with_top(v).stack.drop_last() =~= s.stack);
    assert(s.with_top(v).stack.last() == v);
}

/// The immediate path and the register path of an integer operation agree.
///
/// Take an integer operation of the type `ty` on a stack whose top entry is
/// a constant of that type and whose second entry is in a register, with a
/// general purpose register free. Whether the constant is handed to the
/// operation as an immediate, or brought into a register first, the first
/// operand is the register of the second entry, the stack pointer offset
/// does not change, and once a result in the same register is on the stack
/// and the register of the constant is free again, the stack and the
/// inventory are the same. The code before the operation differs by the one
/// move that loads the constant.
pub proof fn lemma_immediate_path_agrees(s: State, env: Env, ty: WasmType, out: TypedReg)
    requires
        s.wf(env.locals),
        ty == WasmType::I32 || ty == WasmType::I64,
        s.stack.len() >= 2,
        s.has_imm(ty),
        s.stack[s.stack.len() - 2] is Reg,
        s.regs.any_free(RegClass::Int),
    ensures
        ({
            let (with_imm, dst_imm, src_imm) = s.int_binop_operands(env, ty);
            let (with_reg, dst_reg, src_reg) = s.binop_operands(env);
            &&& src_imm == RegImm::Imm(imm_of(s.stack.last()))
            &&& dst_imm == dst_reg
            &&& dst_imm == s.stack[s.stack.len() - 2]->Reg_0
            &&& src_reg.ty == ty
            &&& with_imm.sp == s.sp && with_reg.sp == s.sp
            &&& with_imm.code == s.code
            &&& with_reg.code == s.code.push(
                Inst::Mov { src: RegImm::Imm(imm_of(s.stack.last())), dst: src_reg.reg, size: ty.size() },
            )
            &&& with_imm.finish_int_binop(src_imm, out).stack == with_reg.finish(src_reg.reg, out).stack
            &&& with_imm.finish_int_binop(src_imm, out).regs == with_reg.finish(src_reg.reg, out).regs
        }),
{
    let top = s.stack.last();
    let rest = s.without_top();
    let r = s.regs.lowest_free(RegClass::Int);
    s.regs.lemma_lowest_free(RegClass::Int);
    lemma_without_top(s, env.locals);
    assert(rest.stack.last() == s.stack[s.stack.len() - 2]);
    let next = rest.stack.last()->Reg_0;
    assert(entry_ok(s.stack[s.stack.len() - 2], s.regs, env.locals));
    // The register path: the constant takes the lowest free register.
    let s1 = State { regs: rest.regs.claimed(r), ..rest }.emit(move_inst(top, r, env.locals));
    assert(s.pop_to_reg(env, None).0 == s1);
    s.regs.lemma_claimed(r, next.reg);
    s.regs.lemma_claim_release(r);
    assert(s1.stack.last() == rest.stack.last());
    assert(s1.fast_pop(None));
    assert(rest.fast_pop(None));
}

} // verus!
