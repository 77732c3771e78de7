//! The state that the code generation context keeps in step: the operand
//! stack, the register inventory, the stack pointer offset and the code
//! emitted so far, as one mathematical value, with the transitions that the
//! context's operations make on it.
use vstd::prelude::*;
use crate::abi::scratch_of;
use crate::frame::LocalSlot;
use crate::masm::{Address, Inst, SPOffset, StackSlot};
use crate::reg::Reg;
use crate::regalloc::RegAlloc;
use crate::stack::{Memory, Val};

verus! {

/// What a transition reads and never changes: the slots of the locals and
/// the two scratch registers of the calling convention.
pub struct Env {
    /// The slots of the locals of the frame.
    pub locals: Seq<LocalSlot>,
    /// The general purpose scratch register.
    pub scratch: Reg,
    /// The floating point scratch register.
    pub float_scratch: Reg,
}

/// The state of code generation at one point.
pub struct State {
    /// The operand stack, the top last.
    pub stack: Seq<Val>,
    /// The register inventory.
    pub regs: RegAlloc,
    /// The stack pointer offset.
    pub sp: int,
    /// The code emitted so far.
    pub code: Seq<Inst>,
}

/// Whether some entry of `stack` is in the register `r`.
pub open spec fn holds(stack: Seq<Val>, r: Reg) -> bool {
    exists|i: int| 0 <= i < stack.len() && (#[trigger] stack[i]) is Reg && stack[i]->Reg_0.reg == r
}

/// Whether an entry can be spilled: it is in a register or names a local.
pub open spec fn spillable(v: Val) -> bool {
    v is Reg || v is Local
}

/// Whether some entry of `stack` can be spilled.
pub open spec fn has_spillable(stack: Seq<Val>) -> bool {
    exists|i: int| 0 <= i < stack.len() && spillable(#[trigger] stack[i])
}

/// What one entry asks of the inventory and of the frame: its type is one
/// that code can be generated for, its register is in use, its local
/// exists.
pub open spec fn entry_ok(v: Val, regs: RegAlloc, locals: Seq<LocalSlot>) -> bool {
    &&& v.spec_ty().is_supported()
    &&& v is Reg ==> regs.is_busy(v->Reg_0.reg)
    &&& v is Local ==> v->Local_0.index < locals.len() && locals[v->Local_0.index as int].ty.is_supported()
}

/// The number of bytes by which spilling the entry `v` grows the machine
/// stack.
pub open spec fn spill_bytes_of(v: Val, locals: Seq<LocalSlot>) -> int {
    match v {
        Val::Reg(r) => r.ty.size().spec_bytes() as int,
        Val::Local(l) => locals[l.index as int].ty.size().spec_bytes() as int,
        _ => 0,
    }
}

/// The number of bytes by which spilling all of `stack` grows the machine
/// stack.
pub open spec fn spill_bytes(stack: Seq<Val>, locals: Seq<LocalSlot>) -> int
    decreases stack.len(),
{
    if stack.len() == 0 {
        0
    } else {
        spill_bytes(stack.drop_last(), locals) + spill_bytes_of(stack.last(), locals)
    }
}

/// The entry that takes the place of `v` when it is spilled and the stack
/// pointer offset is `at` afterwards.
pub open spec fn spill_entry(v: Val, locals: Seq<LocalSlot>, at: int) -> Val {
    match v {
        Val::Reg(r) => Val::Memory(
            Memory { ty: r.ty, slot: StackSlot { offset: SPOffset(at as u32), size: r.ty.size().spec_bytes() } },
        ),
        Val::Local(l) => {
            let ty = locals[l.index as int].ty;
            Val::Memory(Memory { ty, slot: StackSlot { offset: SPOffset(at as u32), size: ty.size().spec_bytes() } })
        },
        _ => v,
    }
}

/// The instructions that spill the entry `v`: a push of its register, or a
/// load of its local into the scratch register of its type and a push of
/// that.
pub open spec fn spill_insts(v: Val, env: Env) -> Seq<Inst> {
    match v {
        Val::Reg(r) => seq![Inst::Push { src: r.reg, size: r.ty.size() }],
        Val::Local(l) => {
            let slot = env.locals[l.index as int];
            let scratch = scratch_of(slot.ty, env.scratch, env.float_scratch);
            seq![
                Inst::Load { src: Address::Local(slot.offset), dst: scratch, size: slot.ty.size() },
                Inst::Push { src: scratch, size: slot.ty.size() },
            ]
        },
        _ => Seq::empty(),
    }
}

/// The instructions that spill all of `stack`, from the bottom up.
pub open spec fn spill_code(stack: Seq<Val>, env: Env) -> Seq<Inst>
    decreases stack.len(),
{
    if stack.len() == 0 {
        Seq::empty()
    } else {
        spill_code(stack.drop_last(), env) + spill_insts(stack.last(), env)
    }
}

/// The stack after all of it has been spilled, when the stack pointer
/// offset was `sp` before.
pub open spec fn spill_values(stack: Seq<Val>, locals: Seq<LocalSlot>, sp: int) -> Seq<Val> {
    Seq::new(stack.len(), |i: int| spill_entry(stack[i], locals, sp + spill_bytes(stack.take(i + 1), locals)))
}

/// The inventory after the register of every entry of `stack` has been
/// freed.
pub open spec fn spill_release(regs: RegAlloc, stack: Seq<Val>) -> RegAlloc
    decreases stack.len(),
{
    if stack.len() == 0 {
        regs
    } else {
        let rest = spill_release(regs, stack.drop_last());
        match stack.last() {
            Val::Reg(r) => rest.released(r.reg),
            _ => rest,
        }
    }
}

/// The number of bytes of the machine stack that the memory entries of
/// `stack` take.
pub open spec fn memory_bytes(stack: Seq<Val>) -> int
    decreases stack.len(),
{
    if stack.len() == 0 {
        0
    } else {
        memory_bytes(stack.drop_last()) + match stack.last() {
            Val::Memory(m) => m.slot.size as int,
            _ => 0,
        }
    }
}

/// Whether the memory entries of `stack` lie in the machine stack as their
/// slots say, when the stack pointer offset is `sp`: each slot ends where
/// the slots of the entries up to it end, and together they take `sp` bytes.
pub open spec fn in_sync(stack: Seq<Val>, sp: int) -> bool {
    &&& memory_bytes(stack) == sp
    &&& forall|i: int|
        0 <= i < stack.len() && (#[trigger] stack[i]) is Memory ==> stack[i]->Memory_0.slot.offset.0
            == memory_bytes(stack.take(i + 1))
}

/// Whether every entry that can be spilled lies above every memory entry.
pub open spec fn memory_below(stack: Seq<Val>) -> bool {
    forall|i: int, j: int|
        0 <= i < j < stack.len() && spillable(#[trigger] stack[i]) ==> !((#[trigger] stack[j]) is Memory)
}

impl State {
    /// The invariant of the state: the inventory is well formed, every
    /// entry is in order, and no two entries are in the same register.
    pub open spec fn wf(self, locals: Seq<LocalSlot>) -> bool {
        &&& self.regs.wf()
        &&& forall|i: int| 0 <= i < self.stack.len() ==> entry_ok(#[trigger] self.stack[i], self.regs, locals)
        &&& forall|i: int, j: int|
            0 <= i < j < self.stack.len() && (#[trigger] self.stack[i]) is Reg && (#[trigger] self.stack[j]) is Reg
                ==> self.stack[i]->Reg_0.reg != self.stack[j]->Reg_0.reg
    }

    /// Whether `r` is in use and no entry of the stack is in it: it is in
    /// the hands of the code that asked for it.
    pub open spec fn pinned(self, r: Reg) -> bool {
        self.regs.is_busy(r) && !holds(self.stack, r)
    }

    /// Whether spilling the whole stack keeps the stack pointer offset
    /// within 32 bits.
    pub open spec fn spill_fits(self, env: Env) -> bool {
        self.sp + spill_bytes(self.stack, env.locals) <= u32::MAX
    }

    /// The state after the whole stack has been spilled.
    pub open spec fn spill(self, env: Env) -> State {
        State {
            stack: spill_values(self.stack, env.locals, self.sp),
            regs: spill_release(self.regs, self.stack),
            sp: self.sp + spill_bytes(self.stack, env.locals),
            code: self.code + spill_code(self.stack, env),
        }
    }
}

/// Spilling a part of the stack from the bottom takes no more bytes than
/// spilling all of it, and never a negative number.
pub proof fn lemma_spill_bytes_take(stack: Seq<Val>, locals: Seq<LocalSlot>, n: int)
    requires
        0 <= n <= stack.len(),
    ensures
        0 <= spill_bytes(stack.take(n), locals) <= spill_bytes(stack, locals),
    decreases stack.len(),
{
    if stack.len() == 0 {
        assert(stack.take(n) =~= stack);
    } else if n == stack.len() {
        assert(stack.take(n) =~= stack);
        lemma_spill_bytes_take(stack.drop_last(), locals, n - 1);
        assert(stack.drop_last().take(n - 1) =~= stack.drop_last());
    } else {
        lemma_spill_bytes_take(stack.drop_last(), locals, n);
        assert(stack.drop_last().take(n) =~= stack.take(n));
    }
}

/// After a spill a register is free if it was free before or an entry was
/// in it; what can be handed out stays the same, and a well formed
/// inventory stays well formed.
pub proof fn lemma_spill_release(regs: RegAlloc, stack: Seq<Val>, q: Reg)
    requires
        forall|i: int| 0 <= i < stack.len() && (#[trigger] stack[i]) is Reg ==> regs.is_allocatable(stack[i]->Reg_0.reg),
    ensures
        spill_release(regs, stack).is_free(q) == (regs.is_free(q) || holds(stack, q)),
        spill_release(regs, stack).is_allocatable(q) == regs.is_allocatable(q),
        regs.wf() ==> spill_release(regs, stack).wf(),
    decreases stack.len(),
{
    if stack.len() > 0 {
        let rest = stack.drop_last();
        lemma_spill_release(regs, rest, q);
        let mid = spill_release(regs, rest);
        if holds(rest, q) {
            let i = choose|i: int| 0 <= i < rest.len() && (#[trigger] rest[i]) is Reg && rest[i]->Reg_0.reg == q;
            assert(stack[i] == rest[i]);
        }
        match stack.last() {
            Val::Reg(r) => {
                lemma_spill_release(regs, rest, r.reg);
                mid.lemma_released(r.reg, q);
                assert(stack[stack.len() - 1] is Reg);
                if holds(stack, q) && !holds(rest, q) {
                    let i = choose|i: int| 0 <= i < stack.len() && (#[trigger] stack[i]) is Reg && stack[i]->Reg_0.reg == q;
                    if i < rest.len() {
                        assert(rest[i] == stack[i]);
                    }
                }
            },
            _ => {
                if holds(stack, q) && !holds(rest, q) {
                    let i = choose|i: int| 0 <= i < stack.len() && (#[trigger] stack[i]) is Reg && stack[i]->Reg_0.reg == q;
                    assert(rest[i] == stack[i]);
                }
            },
        }
    }
}

/// A spill keeps the invariant, leaves no entry in a register or naming a
/// local, and frees no register but those that entries were in.
pub proof fn lemma_spill_wf(s: State, env: Env)
    requires
        s.wf(env.locals),
    ensures
        s.spill(env).wf(env.locals),
        s.spill(env).stack.len() == s.stack.len(),
        !has_spillable(s.spill(env).stack),
        forall|q: Reg| !holds(s.spill(env).stack, q),
        forall|q: Reg| s.spill(env).regs.is_free(q) == (s.regs.is_free(q) || holds(s.stack, q)),
        forall|q: Reg| s.spill(env).regs.is_allocatable(q) == s.regs.is_allocatable(q),
        s.spill(env).sp >= s.sp,
{
    let t = s.spill(env);
    assert forall|q: Reg|
        t.regs.is_free(q) == (s.regs.is_free(q) || holds(s.stack, q)) && t.regs.is_allocatable(q)
            == s.regs.is_allocatable(q) by {
        lemma_spill_release(s.regs, s.stack, q);
    }
    lemma_spill_release(s.regs, s.stack, Reg { class: crate::reg::RegClass::Int, enc: 0 });
    lemma_spill_bytes_take(s.stack, env.locals, 0);
    assert forall|i: int| 0 <= i < t.stack.len() implies entry_ok(#[trigger] t.stack[i], t.regs, env.locals)
        && !spillable(t.stack[i]) by {
        assert(entry_ok(s.stack[i], s.regs, env.locals));
    }
}

/// A spill of a stack with no entry in a register and none naming a local
/// changes nothing: the stack, the inventory, the stack pointer offset and
/// the code stay as they are.
pub proof fn lemma_spill_nothing(s: State, env: Env)
    requires
        !has_spillable(s.stack),
    ensures
        s.spill(env) == s,
{
    lemma_nothing_to_spill(s.stack, s.regs, env, s.stack.len() as int);
    assert(s.stack.take(s.stack.len() as int) =~= s.stack);
    assert forall|i: int| 0 <= i < s.stack.len() implies (#[trigger] spill_values(s.stack, env.locals, s.sp)[i])
        == s.stack[i] by {
        assert(!spillable(s.stack[i]));
    }
    assert(spill_values(s.stack, env.locals, s.sp) =~= s.stack);
    assert(s.code + spill_code(s.stack, env) =~= s.code);
}

/// Spilling a part of a stack in which nothing can be spilled takes no
/// bytes, emits no code and frees no register.
pub proof fn lemma_nothing_to_spill(stack: Seq<Val>, regs: RegAlloc, env: Env, n: int)
    requires
        !has_spillable(stack),
        0 <= n <= stack.len(),
    ensures
        spill_bytes(stack.take(n), env.locals) == 0,
        spill_code(stack.take(n), env) == Seq::<Inst>::empty(),
        spill_release(regs, stack.take(n)) == regs,
    decreases n,
{
    if n > 0 {
        lemma_nothing_to_spill(stack, regs, env, n - 1);
        assert(stack.take(n).drop_last() =~= stack.take(n - 1));
        assert(!spillable(stack[n - 1]));
        assert(stack.take(n).last() == stack[n - 1]);
        assert(spill_code(stack.take(n - 1), env) + spill_insts(stack[n - 1], env) =~= Seq::<Inst>::empty());
    } else {
        assert(stack.take(0).len() == 0);
    }
}

} // verus!
