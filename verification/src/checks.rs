//! Tests, at run time, of what the operations of the context ask of their
//! callers.
use vstd::prelude::*;
use crate::context::CodeGenContext;
use crate::masm::MacroAssembler;
use crate::model::{entry_ok, holds, lemma_spill_bytes_take, spill_bytes, State};
use crate::reg::{Reg, RegClass};
use crate::regalloc::{bit, RegAlloc, RegBitSet};
use crate::stack::Val;
use crate::types::OperandSize;

verus! {

/// The number from which on a count of spilled bytes is no longer exact: any
/// such count is past what a stack pointer offset can hold.
pub const SPILL_BYTES_CAP: u64 = 0x1_0000_0000;

/// A count of bytes, cut off at `SPILL_BYTES_CAP`.
pub open spec fn capped(bytes: int) -> int {
    if bytes > SPILL_BYTES_CAP {
        SPILL_BYTES_CAP as int
    } else {
        bytes
    }
}

impl RegBitSet {
    /// Whether every free register is allocatable.
    pub fn is_wf(&self) -> (b: bool)
        ensures
            b == self.wf(),
    {
        let mut i: u8 = 0;
        while i < 64
            invariant
                i <= 64,
                forall|j: u8| j < i && bit(self.free, j) ==> bit(self.allocatable, j),
            decreases 64 - i,
        {
            if (self.free >> (i as u64)) & 1 == 1 && (self.allocatable >> (i as u64)) & 1 != 1 {
                assert(bit(self.free, i) && !bit(self.allocatable, i));
                return false;
            }
            i = i + 1;
        }
        true
    }
}

impl RegAlloc {
    /// Whether `reg` can be handed out at all.
    pub fn allocatable(&self, reg: Reg) -> (b: bool)
        ensures
            b == self.is_allocatable(reg),
    {
        if reg.enc >= 64 {
            return false;
        }
        let set = match reg.class {
            RegClass::Int => self.gpr.allocatable,
            RegClass::Float => self.fpr.allocatable,
        };
        (set >> (reg.enc as u64)) & 1 == 1
    }

    /// Whether some register of `class` is free.
    pub fn class_available(&self, class: RegClass) -> (b: bool)
        ensures
            b == self.any_free(class),
    {
        let mut probe = *self;
        probe.reg_for_class(class).is_some()
    }
}

impl<'a, 'builtins> CodeGenContext<'a, 'builtins> {
    /// Whether one of the `below` bottom entries of the stack is in `reg`.
    pub fn holds_below(&self, below: usize, reg: Reg) -> (b: bool)
        requires
            below <= self.stack@.len(),
        ensures
            b == holds(self.stack@.take(below as int), reg),
    {
        let ghost part = self.stack@.take(below as int);
        let mut i: usize = 0;
        while i < below
            invariant
                i <= below,
                below <= self.stack@.len(),
                part == self.stack@.take(below as int),
                forall|j: int| 0 <= j < i ==> !((#[trigger] part[j]) is Reg && part[j]->Reg_0.reg == reg),
            decreases below - i,
        {
            match self.stack.get(i) {
                Val::Reg(tr) => {
                    if tr.reg == reg {
                        assert(part[i as int] is Reg && part[i as int]->Reg_0.reg == reg);
                        return true;
                    }
                },
                _ => {},
            }
            i = i + 1;
        }
        false
    }

    /// Whether `reg` can be had while the `below` bottom entries are on the
    /// stack: it can be handed out, and it is free or one of them is in it.
    pub fn can_claim_below(&self, below: usize, reg: Reg) -> (b: bool)
        requires
            below <= self.stack@.len(),
        ensures
            b == (State { stack: self.stack@.take(below as int), ..self.holdings() }).can_claim(reg),
    {
        self.regalloc.allocatable(reg) && (self.regalloc.reg_available(reg) || self.holds_below(below, reg))
    }

    /// Whether some register of `class` can be had while the `below` bottom
    /// entries are on the stack.
    pub fn can_claim_class_below(&self, below: usize, class: RegClass) -> (b: bool)
        requires
            below <= self.stack@.len(),
        ensures
            b == (State { stack: self.stack@.take(below as int), ..self.holdings() }).can_claim_class(class),
    {
        let ghost s = State { stack: self.stack@.take(below as int), ..self.holdings() };
        let mut enc: u8 = 0;
        while enc < 64
            invariant
                enc <= 64,
                below <= self.stack@.len(),
                s == (State { stack: self.stack@.take(below as int), ..self.holdings() }),
                forall|r: Reg| r.class == class && r.enc < enc ==> !s.can_claim(r),
            decreases 64 - enc,
        {
            if self.can_claim_below(below, Reg { class, enc }) {
                return true;
            }
            enc = enc + 1;
        }
        false
    }

    /// The number of bytes by which a spill of the `below` bottom entries of
    /// the stack grows the machine stack; `SPILL_BYTES_CAP` if they are more
    /// than that.
    pub fn spill_bytes_below(&self, below: usize) -> (n: u64)
        requires
            self.wf(),
            below <= self.stack@.len(),
        ensures
            n == capped(spill_bytes(self.stack@.take(below as int), self.frame@)),
    {
        let mut n: u64 = 0;
        let mut i: usize = 0;
        while i < below
            invariant
                i <= below,
                below <= self.stack@.len(),
                self.wf(),
                n == capped(spill_bytes(self.stack@.take(i as int), self.frame@)),
            decreases below - i,
        {
            proof {
                assert(self.stack@.take(i + 1).drop_last() =~= self.stack@.take(i as int));
                assert(self.stack@.take(i + 1).last() == self.stack@[i as int]);
                assert(entry_ok(self.stack@[i as int], self.regalloc, self.frame@));
                lemma_spill_bytes_take(self.stack@, self.frame@, i as int);
            }
            let bytes: u64 = match self.stack.get(i) {
                Val::Reg(tr) => OperandSize::of(tr.ty).bytes() as u64,
                Val::Local(l) => {
                    let slot = self.frame.get_local(l.index).unwrap();
                    OperandSize::of(slot.ty).bytes() as u64
                },
                _ => 0,
            };
            n = if n + bytes > SPILL_BYTES_CAP {
                SPILL_BYTES_CAP
            } else {
                n + bytes
            };
            i = i + 1;
        }
        n
    }

    /// Whether the context meets its invariant.
    pub fn is_wf(&self) -> (b: bool)
        ensures
            b == self.wf(),
    {
        if !self.regalloc.gpr.is_wf() || !self.regalloc.fpr.is_wf() {
            return false;
        }
        let n = self.stack.len();
        let mut i: usize = 0;
        while i < n
            invariant
                i <= n,
                n == self.stack@.len(),
                self.regalloc.wf(),
                forall|j: int| 0 <= j < i ==> entry_ok(#[trigger] self.stack@[j], self.regalloc, self.frame@),
                forall|j: int, k: int|
                    0 <= j < k < i && (#[trigger] self.stack@[j]) is Reg && (#[trigger] self.stack@[k]) is Reg
                        ==> self.stack@[j]->Reg_0.reg != self.stack@[k]->Reg_0.reg,
            decreases n - i,
        {
            let v = self.stack.get(i);
            if !v.ty().supported() {
                assert(!entry_ok(self.stack@[i as int], self.regalloc, self.frame@));
                return false;
            }
            match v {
                Val::Reg(tr) => {
                    if !self.regalloc.allocatable(tr.reg) || self.regalloc.reg_available(tr.reg) {
                        assert(!entry_ok(self.stack@[i as int], self.regalloc, self.frame@));
                        return false;
                    }
                    if self.holds_below(i, tr.reg) {
                        proof {
                            let part = self.stack@.take(i as int);
                            let j = choose|j: int|
                                0 <= j < part.len() && (#[trigger] part[j]) is Reg && part[j]->Reg_0.reg == tr.reg;
                            assert(self.stack@[j] == part[j]);
                            assert(self.stack@[j] is Reg && self.stack@[i as int] is Reg);
                        }
                        return false;
                    }
                    proof {
                        let part = self.stack@.take(i as int);
                        assert forall|j: int| 0 <= j < i && (#[trigger] self.stack@[j]) is Reg implies self.stack@[j]->Reg_0.reg
                            != tr.reg by {
                            assert(part[j] == self.stack@[j]);
                        }
                    }
                },
                Val::Local(l) => {
                    match self.frame.get_local(l.index) {
                        Some(slot) => {
                            if !slot.ty.supported() {
                                assert(!entry_ok(self.stack@[i as int], self.regalloc, self.frame@));
                                return false;
                            }
                        },
                        None => {
                            assert(!entry_ok(self.stack@[i as int], self.regalloc, self.frame@));
                            return false;
                        },
                    }
                },
                _ => {},
            }
            i = i + 1;
        }
        true
    }

    /// Whether the whole stack can be spilled by `spill` with the assembler
    /// `masm`: whether that keeps the stack pointer offset within 32 bits.
    pub fn can_spill<M: MacroAssembler>(&self, masm: &M) -> (b: bool)
        requires
            self.wf(),
        ensures
            b == self.state(masm).spill_fits(self.env::<M>()),
    {
        proof {
            assert(self.stack@.take(self.stack@.len() as int) =~= self.stack@);
            lemma_spill_bytes_take(self.stack@, self.frame@, self.stack@.len() as int);
        }
        masm.sp_offset().as_u32() as u64 + self.spill_bytes_below(self.stack.len()) <= 0xffff_ffff
    }

    /// Whether `named` can be handed out by `reg` with the assembler `masm`.
    pub fn can_reg<M: MacroAssembler>(&self, named: Reg, masm: &M) -> (b: bool)
        requires
            self.wf(),
        ensures
            b == self.state(masm).claim_ok(self.env::<M>(), named),
    {
        proof {
            assert(self.stack@.take(self.stack@.len() as int) =~= self.stack@);
        }
        self.claim_ok_below(self.stack.len(), Some(named), RegClass::Int, masm)
    }

    /// Whether a register of `class` can be handed out by `reg_for_class`
    /// with the assembler `masm`.
    pub fn can_reg_for_class<M: MacroAssembler>(&self, class: RegClass, masm: &M) -> (b: bool)
        requires
            self.wf(),
        ensures
            b == self.state(masm).claim_class_ok(self.env::<M>(), class),
    {
        proof {
            assert(self.stack@.take(self.stack@.len() as int) =~= self.stack@);
        }
        self.claim_ok_below(self.stack.len(), None, class, masm)
    }

    /// Whether the top entry can be brought into a register by `pop_to_reg`
    /// with the assembler `masm`.
    pub fn can_pop_to_reg<M: MacroAssembler>(&self, masm: &M, named: Option<Reg>) -> (b: bool)
        requires
            self.wf(),
        ensures
            b == self.state(masm).pop_to_reg_ok(self.env::<M>(), named),
    {
        let n = self.stack.len();
        if n == 0 {
            return false;
        }
        let top = self.stack.get(n - 1);
        proof {
            assert(self.stack@.take(n - 1) =~= self.stack@.drop_last());
            assert(self.state(masm).without_top() == (State {
                stack: self.stack@.take(n - 1),
                ..self.state(masm)
            }));
            assert(entry_ok(self.stack@[n - 1], self.regalloc, self.frame@));
        }
        match top {
            Val::Reg(tr) => {
                match named {
                    None => {
                        return true;
                    },
                    Some(r) => {
                        if r == tr.reg {
                            return true;
                        }
                    },
                }
            },
            _ => {},
        }
        let class = top.ty().reg_class();
        if !self.claim_ok_below(n - 1, named, class, masm) {
            return false;
        }
        match top {
            Val::Memory(m) => {
                let free = match named {
                    Some(r) => self.regalloc.reg_available(r),
                    None => self.regalloc.class_available(class),
                };
                let sp: u64 = if free {
                    masm.sp_offset().as_u32() as u64
                } else {
                    masm.sp_offset().as_u32() as u64 + self.spill_bytes_below(n - 1)
                };
                sp == m.slot.offset.as_u32() as u64 && sp >= OperandSize::of(m.ty).bytes() as u64
            },
            _ => true,
        }
    }

    /// Whether the register for a request can be had while the `below`
    /// bottom entries are on the stack: `named` if one is named, any of
    /// `class` otherwise.
    fn claim_ok_below<M: MacroAssembler>(&self, below: usize, named: Option<Reg>, class: RegClass, masm: &M) -> (b:
        bool)
        requires
            self.wf(),
            below <= self.stack@.len(),
        ensures
            ({
                let s = State { stack: self.stack@.take(below as int), ..self.state(masm) };
                b == match named {
                    Some(r) => s.claim_ok(self.env::<M>(), r),
                    None => s.claim_class_ok(self.env::<M>(), class),
                }
            }),
    {
        let ghost kept = State { stack: self.stack@.take(below as int), ..self.holdings() };
        let ghost s = State { stack: self.stack@.take(below as int), ..self.state(masm) };
        proof {
            assert forall|r: Reg| kept.can_claim(r) == s.can_claim(r) by {}
            if kept.can_claim_class(class) {
                let w = choose|w: Reg| w.class == class && #[trigger] kept.can_claim(w);
                assert(s.can_claim(w));
            }
            if s.can_claim_class(class) {
                let w = choose|w: Reg| w.class == class && #[trigger] s.can_claim(w);
                assert(kept.can_claim(w));
            }
        }
        let (can, free) = match named {
            Some(r) => (self.can_claim_below(below, r), self.regalloc.reg_available(r)),
            None => (self.can_claim_class_below(below, class), self.regalloc.class_available(class)),
        };
        if !can {
            return false;
        }
        if free {
            return true;
        }
        proof {
            lemma_spill_bytes_take(self.stack@, self.frame@, below as int);
        }
        masm.sp_offset().as_u32() as u64 + self.spill_bytes_below(below) <= 0xffff_ffff
    }
}

} // verus!
