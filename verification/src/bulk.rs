//! The transitions on the state that work on several entries or several
//! registers at a time.
use vstd::prelude::*;
use crate::abi::{ABIOperand, RetArea};
use crate::frame::LocalSlot;
use crate::masm::{SPOffset, StackSlot};
use crate::model::{entry_ok, holds, Env, State};
use crate::reg::Reg;
use crate::regalloc::RegAlloc;
use crate::stack::{Memory, TypedReg, Val};
use crate::steps::lemma_claim;

verus! {

/// The inventory after the register of the entry `v`, if it is in one, has
/// been freed.
pub open spec fn release_entry(regs: RegAlloc, v: Val) -> RegAlloc {
    match v {
        Val::Reg(r) => regs.released(r.reg),
        _ => regs,
    }
}

/// The inventory after the registers of the entries `vals` have been freed,
/// from the last entry down to the first.
pub open spec fn release_top_down(regs: RegAlloc, vals: Seq<Val>) -> RegAlloc
    decreases vals.len(),
{
    if vals.len() == 0 {
        regs
    } else {
        release_entry(release_top_down(regs, vals.skip(1)), vals[0])
    }
}

/// What holds of the inventory at each point while the registers of the
/// entries of `stack` are freed from the top down, starting from `regs`: when
/// the entries at `i` and above are done, it is `regs` with their registers
/// freed.
pub open spec fn freed_above(regs: RegAlloc, stack: Seq<Val>) -> spec_fn(int, RegAlloc) -> bool {
    |i: int, ra: RegAlloc| ra == release_top_down(regs, stack.subrange(i, stack.len() as int))
}

/// The inventory after the registers `rs` have been freed, in order.
pub open spec fn release_all(regs: RegAlloc, rs: Seq<Reg>) -> RegAlloc
    decreases rs.len(),
{
    if rs.len() == 0 {
        regs
    } else {
        release_all(regs, rs.drop_last()).released(rs.last())
    }
}

/// The stack pointer offset of a return area that is given by one; zero
/// where there is no such area.
pub open spec fn area_offset(area: Option<RetArea>) -> u32 {
    match area {
        Some(RetArea::SP(o)) => o.0,
        _ => 0,
    }
}

/// The entry that stands for a result: its register, or the slot at its
/// offset below the offset of the return area.
pub open spec fn result_entry(op: ABIOperand, area: Option<RetArea>) -> Val {
    match op {
        ABIOperand::Reg { ty, reg, .. } => Val::Reg(TypedReg { ty, reg }),
        ABIOperand::Stack { ty, offset, size } => Val::Memory(
            Memory { ty, slot: StackSlot { offset: SPOffset((area_offset(area) - offset) as u32), size } },
        ),
    }
}

/// The entries that stand for the results `ops`, in order.
pub open spec fn result_entries(ops: Seq<ABIOperand>, area: Option<RetArea>) -> Seq<Val> {
    Seq::new(ops.len(), |i: int| result_entry(ops[i], area))
}

/// Whether a result of `ops` is in the register `q`.
pub open spec fn names(ops: Seq<ABIOperand>, q: Reg) -> bool {
    exists|i: int| 0 <= i < ops.len() && (#[trigger] ops[i]) is Reg && ops[i]->Reg_reg == q
}

/// Whether the results `ops` can be put on the stack: each has a type that
/// code can be generated for; the registers of those in registers are free,
/// and no two of them are the same; for those on the machine stack there is
/// a return area given by a stack pointer offset, which is not below the
/// offset of the result in the area.
pub open spec fn results_ok(regs: RegAlloc, ops: Seq<ABIOperand>, area: Option<RetArea>) -> bool {
    &&& forall|i: int|
        0 <= i < ops.len() ==> match #[trigger] ops[i] {
            ABIOperand::Reg { ty, reg, .. } => ty.is_supported() && regs.is_free(reg),
            ABIOperand::Stack { ty, offset, .. } => ty.is_supported() && area is Some && area->Some_0 is SP
                && area_offset(area) >= offset,
        }
    &&& forall|i: int, j: int|
        0 <= i < j < ops.len() && (#[trigger] ops[i]) is Reg && (#[trigger] ops[j]) is Reg ==> ops[i]->Reg_reg
            != ops[j]->Reg_reg
}

/// The inventory after the registers of the results `ops` have been marked
/// in use.
pub open spec fn claim_results(regs: RegAlloc, ops: Seq<ABIOperand>) -> RegAlloc
    decreases ops.len(),
{
    if ops.len() == 0 {
        regs
    } else {
        let rest = claim_results(regs, ops.drop_last());
        match ops.last() {
            ABIOperand::Reg { reg, .. } => rest.claimed(reg),
            _ => rest,
        }
    }
}

impl State {
    /// The state after the results `ops` have been put on the stack, in
    /// order, and their registers marked in use.
    pub open spec fn push_results(self, ops: Seq<ABIOperand>, area: Option<RetArea>) -> State {
        State { stack: self.stack + result_entries(ops, area), regs: claim_results(self.regs, ops), ..self }
    }
}

/// After the registers of some results have been marked in use a register
/// is free if it was free before and no result is in it; what can be handed
/// out stays the same, and a well formed inventory stays well formed.
pub proof fn lemma_claim_results(regs: RegAlloc, ops: Seq<ABIOperand>, q: Reg)
    requires
        forall|i: int| 0 <= i < ops.len() && (#[trigger] ops[i]) is Reg ==> ops[i]->Reg_reg.enc < 64,
    ensures
        claim_results(regs, ops).is_free(q) == (regs.is_free(q) && !names(ops, q)),
        claim_results(regs, ops).is_allocatable(q) == regs.is_allocatable(q),
        regs.wf() ==> claim_results(regs, ops).wf(),
    decreases ops.len(),
{
    if ops.len() > 0 {
        let rest = ops.drop_last();
        lemma_claim_results(regs, rest, q);
        let mid = claim_results(regs, rest);
        if names(rest, q) {
            let i = choose|i: int| 0 <= i < rest.len() && (#[trigger] rest[i]) is Reg && rest[i]->Reg_reg == q;
            assert(ops[i] == rest[i]);
        }
        if names(ops, q) && !names(rest, q) {
            let i = choose|i: int| 0 <= i < ops.len() && (#[trigger] ops[i]) is Reg && ops[i]->Reg_reg == q;
            if i < rest.len() {
                assert(rest[i] == ops[i]);
            }
        }
        match ops.last() {
            ABIOperand::Reg { reg, .. } => {
                assert(ops[ops.len() - 1] is Reg);
                mid.lemma_claimed(reg, q);
            },
            _ => {},
        }
    }
}

/// Putting results on the stack keeps the invariant.
pub proof fn lemma_push_results(s: State, locals: Seq<LocalSlot>, ops: Seq<ABIOperand>, area: Option<RetArea>)
    requires
        s.wf(locals),
        results_ok(s.regs, ops, area),
    ensures
        s.push_results(ops, area).wf(locals),
{
    let t = s.push_results(ops, area);
    let n = s.stack.len() as int;
    assert forall|i: int| 0 <= i < ops.len() && (#[trigger] ops[i]) is Reg implies ops[i]->Reg_reg.enc < 64 by {}
    lemma_claim_results(s.regs, ops, Reg { class: crate::reg::RegClass::Int, enc: 0 });
    assert forall|i: int| 0 <= i < t.stack.len() implies entry_ok(#[trigger] t.stack[i], t.regs, locals) by {
        if i < n {
            assert(t.stack[i] == s.stack[i]);
            assert(entry_ok(s.stack[i], s.regs, locals));
            if s.stack[i] is Reg {
                lemma_claim_results(s.regs, ops, s.stack[i]->Reg_0.reg);
            }
        } else {
            let op = ops[i - n];
            assert(t.stack[i] == result_entry(op, area));
            match op {
                ABIOperand::Reg { ty, reg, .. } => {
                    assert(ops[i - n] is Reg);
                    assert(names(ops, reg));
                    assert(s.regs.set(reg.class).wf());
                    lemma_claim_results(s.regs, ops, reg);
                },
                ABIOperand::Stack { .. } => {},
            }
        }
    }
    assert forall|i: int, j: int|
        0 <= i < j < t.stack.len() && (#[trigger] t.stack[i]) is Reg && (#[trigger] t.stack[j]) is Reg implies t.stack[i]->Reg_0.reg
        != t.stack[j]->Reg_0.reg by {
        if j < n {
            assert(t.stack[i] == s.stack[i] && t.stack[j] == s.stack[j]);
        } else {
            assert(t.stack[j] == result_entry(ops[j - n], area));
            assert(ops[j - n] is Reg);
            if i < n {
                assert(t.stack[i] == s.stack[i]);
                assert(entry_ok(s.stack[i], s.regs, locals));
            } else {
                assert(t.stack[i] == result_entry(ops[i - n], area));
                assert(ops[i - n] is Reg);
            }
        }
    }
}

impl State {
    /// The state after the stack has been cut down to its `target` bottom
    /// entries and the registers of the entries above have been freed; the
    /// state itself if the stack is no longer than that.
    pub open spec fn truncate(self, target: int) -> State {
        if self.stack.len() > target {
            State {
                stack: self.stack.take(target),
                regs: release_top_down(self.regs, self.stack.skip(target)),
                ..self
            }
        } else {
            self
        }
    }

    /// The state after the registers `rs` have been handed out, in order.
    pub open spec fn claim_all(self, env: Env, rs: Seq<Reg>) -> State
        decreases rs.len(),
    {
        if rs.len() == 0 {
            self
        } else {
            self.claim_all(env, rs.drop_last()).claim(env, rs.last())
        }
    }

    /// Whether the registers `rs` can be had, in order.
    pub open spec fn claim_all_ok(self, env: Env, rs: Seq<Reg>) -> bool
        decreases rs.len(),
    {
        rs.len() == 0 || (self.claim_all_ok(env, rs.drop_last()) && self.claim_all(env, rs.drop_last()).claim_ok(
            env,
            rs.last(),
        ))
    }
}

/// After the registers of some entries have been freed a register is free
/// if it was free before or one of the entries was in it; what can be handed
/// out stays the same, and a well formed inventory stays well formed.
pub proof fn lemma_release_top_down(regs: RegAlloc, vals: Seq<Val>, q: Reg)
    requires
        forall|i: int| 0 <= i < vals.len() && (#[trigger] vals[i]) is Reg ==> regs.is_allocatable(vals[i]->Reg_0.reg),
    ensures
        release_top_down(regs, vals).is_free(q) == (regs.is_free(q) || holds(vals, q)),
        release_top_down(regs, vals).is_allocatable(q) == regs.is_allocatable(q),
        regs.wf() ==> release_top_down(regs, vals).wf(),
    decreases vals.len(),
{
    if vals.len() > 0 {
        let rest = vals.skip(1);
        assert forall|i: int| 0 <= i < rest.len() && (#[trigger] rest[i]) is Reg implies regs.is_allocatable(
            rest[i]->Reg_0.reg,
        ) by {
            assert(rest[i] == vals[i + 1]);
        }
        lemma_release_top_down(regs, rest, q);
        let mid = release_top_down(regs, rest);
        if holds(rest, q) {
            let i = choose|i: int| 0 <= i < rest.len() && (#[trigger] rest[i]) is Reg && rest[i]->Reg_0.reg == q;
            assert(vals[i + 1] == rest[i]);
        }
        if holds(vals, q) && !holds(rest, q) {
            let i = choose|i: int| 0 <= i < vals.len() && (#[trigger] vals[i]) is Reg && vals[i]->Reg_0.reg == q;
            if i > 0 {
                assert(rest[i - 1] == vals[i]);
            }
        }
        match vals[0] {
            Val::Reg(r) => {
                lemma_release_top_down(regs, rest, r.reg);
                mid.lemma_released(r.reg, q);
            },
            _ => {},
        }
    }
}

/// Cutting the stack down keeps the invariant, and every register in the
/// hands of the caller stays there.
pub proof fn lemma_truncate(s: State, locals: Seq<LocalSlot>, target: int)
    requires
        s.wf(locals),
        0 <= target,
    ensures
        s.truncate(target).wf(locals),
        forall|q: Reg| s.pinned(q) ==> s.truncate(target).pinned(q),
{
    if s.stack.len() > target {
        let t = s.truncate(target);
        let cut = s.stack.skip(target);
        assert forall|i: int| 0 <= i < cut.len() && (#[trigger] cut[i]) is Reg implies s.regs.is_allocatable(
            cut[i]->Reg_0.reg,
        ) by {
            assert(entry_ok(s.stack[target + i], s.regs, locals));
        }
        assert forall|q: Reg|
            t.regs.is_free(q) == (s.regs.is_free(q) || holds(cut, q)) && t.regs.is_allocatable(q)
                == s.regs.is_allocatable(q) by {
            lemma_release_top_down(s.regs, cut, q);
        }
        lemma_release_top_down(s.regs, cut, Reg { class: crate::reg::RegClass::Int, enc: 0 });
        assert forall|q: Reg| holds(cut, q) implies holds(s.stack, q) by {
            let i = choose|i: int| 0 <= i < cut.len() && (#[trigger] cut[i]) is Reg && cut[i]->Reg_0.reg == q;
            assert(s.stack[target + i] == cut[i]);
        }
        assert forall|q: Reg| holds(t.stack, q) implies holds(s.stack, q) && !holds(cut, q) by {
            lemma_cut_apart(s, locals, target, q);
        }
        assert forall|i: int| 0 <= i < t.stack.len() implies entry_ok(#[trigger] t.stack[i], t.regs, locals) by {
            assert(entry_ok(s.stack[i], s.regs, locals));
            assert(t.stack[i] == s.stack[i]);
            if t.stack[i] is Reg {
                let r = t.stack[i]->Reg_0.reg;
                assert(holds(t.stack, r));
                lemma_cut_apart(s, locals, target, r);
                assert(!t.regs.is_free(r));
            }
        }
        assert forall|q: Reg| s.pinned(q) implies t.pinned(q) by {
            if holds(t.stack, q) {
                lemma_cut_apart(s, locals, target, q);
            }
            if holds(cut, q) {
                let i = choose|i: int| 0 <= i < cut.len() && (#[trigger] cut[i]) is Reg && cut[i]->Reg_0.reg == q;
                assert(s.stack[target + i] == cut[i]);
            }
            assert(!t.regs.is_free(q));
        }
        assert forall|i: int, j: int|
            0 <= i < j < t.stack.len() && (#[trigger] t.stack[i]) is Reg && (#[trigger] t.stack[j]) is Reg implies t.stack[i]->Reg_0.reg
            != t.stack[j]->Reg_0.reg by {
            assert(t.stack[i] == s.stack[i] && t.stack[j] == s.stack[j]);
        }
    }
}

/// A register that an entry below a cut is in is in no entry above the
/// cut.
proof fn lemma_cut_apart(s: State, locals: Seq<LocalSlot>, target: int, q: Reg)
    requires
        s.wf(locals),
        0 <= target < s.stack.len(),
        holds(s.stack.take(target), q),
    ensures
        holds(s.stack, q),
        !holds(s.stack.skip(target), q),
{
    let low = s.stack.take(target);
    let cut = s.stack.skip(target);
    let i = choose|i: int| 0 <= i < low.len() && (#[trigger] low[i]) is Reg && low[i]->Reg_0.reg == q;
    assert(s.stack[i] == low[i]);
    if holds(cut, q) {
        let j = choose|j: int| 0 <= j < cut.len() && (#[trigger] cut[j]) is Reg && cut[j]->Reg_0.reg == q;
        assert(s.stack[target + j] == cut[j]);
        assert(s.stack[i] is Reg && s.stack[target + j] is Reg);
    }
}

/// Where a list of registers can be had in order, each part of it from the
/// start can, and the register after the part can be had next.
pub proof fn lemma_claim_all_prefix(s: State, env: Env, rs: Seq<Reg>, n: int)
    requires
        s.claim_all_ok(env, rs),
        0 <= n <= rs.len(),
    ensures
        s.claim_all_ok(env, rs.take(n)),
        n < rs.len() ==> s.claim_all(env, rs.take(n)).claim_ok(env, rs[n]),
        n < rs.len() ==> s.claim_all(env, rs.take(n + 1)) == s.claim_all(env, rs.take(n)).claim(env, rs[n]),
    decreases rs.len(),
{
    if n == rs.len() {
        assert(rs.take(n) =~= rs);
    } else {
        assert(rs.len() > 0);
        if n == rs.len() - 1 {
            assert(rs.take(n) =~= rs.drop_last());
            assert(rs.take(n + 1) =~= rs);
        } else {
            lemma_claim_all_prefix(s, env, rs.drop_last(), n);
            assert(rs.drop_last().take(n) =~= rs.take(n));
            assert(rs.drop_last().take(n + 1) =~= rs.take(n + 1));
        }
    }
}

/// Whether every register of `rs` is in the hands of the caller.
pub open spec fn all_pinned(s: State, rs: Seq<Reg>) -> bool {
    forall|i: int| 0 <= i < rs.len() ==> s.pinned(#[trigger] rs[i])
}

/// Handing out a list of registers keeps the invariant, and every register
/// of the list is then in the hands of the caller.
pub proof fn lemma_claim_all(s: State, env: Env, rs: Seq<Reg>)
    requires
        s.wf(env.locals),
        s.claim_all_ok(env, rs),
    ensures
        s.claim_all(env, rs).wf(env.locals),
        all_pinned(s.claim_all(env, rs), rs),
        forall|q: Reg| s.pinned(q) ==> s.claim_all(env, rs).pinned(q),
    decreases rs.len(),
{
    if rs.len() > 0 {
        lemma_claim_all(s, env, rs.drop_last());
        lemma_claim(s.claim_all(env, rs.drop_last()), env, rs.last());
        assert forall|i: int| 0 <= i < rs.len() implies s.claim_all(env, rs).pinned(#[trigger] rs[i]) by {
            if i < rs.len() - 1 {
                assert(rs.drop_last()[i] == rs[i]);
            }
        }
    }
}

} // verus!
