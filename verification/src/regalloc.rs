//! The register allocator: which registers of each class are free.
use vstd::prelude::*;
use crate::reg::{Reg, RegClass};

verus! {

/// Whether bit `i` of `m` is set.
pub open spec fn bit(m: u64, i: u8) -> bool {
    i < 64 && (m >> (i as u64)) & 1 == 1
}

/// `m` with bit `i` cleared.
pub open spec fn without_bit(m: u64, i: u8) -> u64 {
    m & !(1u64 << (i as u64))
}

/// `m` with bit `i` set.
pub open spec fn with_bit(m: u64, i: u8) -> u64 {
    m | (1u64 << (i as u64))
}

/// The lowest set bit of `m` at or above `from`, or 64 if there is none.
pub open spec fn lowest_bit_from(m: u64, from: u8) -> u8
    decreases 64 - from,
{
    if from >= 64 {
        64
    } else if bit(m, from) {
        from
    } else {
        lowest_bit_from(m, (from + 1) as u8)
    }
}

/// Clearing bit `i` leaves every other bit as it was.
pub proof fn lemma_without_bit(m: u64, i: u8, j: u8)
    requires
        i < 64,
    ensures
        bit(without_bit(m, i), j) == (bit(m, j) && j != i),
{
    if j < 64 {
        let a = i as u64;
        let b = j as u64;
        assert(((m & !(1u64 << a)) >> b) & 1 == 1 <==> ((m >> b) & 1 == 1 && b != a)) by (bit_vector)
            requires
                a < 64,
                b < 64,
        ;
    }
}

/// Setting bit `i` leaves every other bit as it was.
pub proof fn lemma_with_bit(m: u64, i: u8, j: u8)
    requires
        i < 64,
    ensures
        bit(with_bit(m, i), j) == (j < 64 && (bit(m, j) || j == i)),
{
    if j < 64 {
        let a = i as u64;
        let b = j as u64;
        assert(((m | (1u64 << a)) >> b) & 1 == 1 <==> ((m >> b) & 1 == 1 || b == a)) by (bit_vector)
            requires
                a < 64,
                b < 64,
        ;
    }
}

/// Setting a bit that was just cleared gives the mask back, when the bit
/// was set to begin with; so does clearing a bit that was just set, when it
/// was clear.
pub proof fn lemma_bit_round_trip(m: u64, i: u8)
    requires
        i < 64,
    ensures
        bit(m, i) ==> with_bit(without_bit(m, i), i) == m,
        !bit(m, i) ==> without_bit(with_bit(m, i), i) == m,
        bit(m, i) ==> with_bit(m, i) == m,
{
    let a = i as u64;
    assert((m >> a) & 1 == 1 ==> ((m & !(1u64 << a)) | (1u64 << a)) == m) by (bit_vector)
        requires
            a < 64,
    ;
    assert((m >> a) & 1 != 1 ==> ((m | (1u64 << a)) & !(1u64 << a)) == m) by (bit_vector)
        requires
            a < 64,
    ;
    assert((m >> a) & 1 == 1 ==> (m | (1u64 << a)) == m) by (bit_vector)
        requires
            a < 64,
    ;
}

/// What `lowest_bit_from` finds is the first set bit at or above `from`.
pub proof fn lemma_lowest_bit_from(m: u64, from: u8)
    requires
        from <= 64,
    ensures
        from <= lowest_bit_from(m, from) <= 64,
        lowest_bit_from(m, from) < 64 ==> bit(m, lowest_bit_from(m, from)),
        forall|j: u8| from <= j < lowest_bit_from(m, from) ==> !bit(m, j),
    decreases 64 - from,
{
    if from < 64 && !bit(m, from) {
        lemma_lowest_bit_from(m, (from + 1) as u8);
    }
}

/// The registers of one class: which can be handed out at all, and which of
/// those are free.
#[derive(Clone, Copy, Debug, PartialEq, Eq, Structural)]
pub struct RegBitSet {
    /// Bit `i` is set when the register with encoding `i` can be allocated.
    pub allocatable: u64,
    /// Bit `i` is set when the register with encoding `i` is free.
    pub free: u64,
}

impl RegBitSet {
    /// Every free register is allocatable.
    pub open spec fn wf(self) -> bool {
        forall|i: u8| bit(self.free, i) ==> bit(self.allocatable, i)
    }

    /// A set in which the registers of `allocatable` can be handed out and
    /// all of them are free.
    pub fn new(allocatable: u64) -> (s: RegBitSet)
        ensures
            s == (RegBitSet { allocatable, free: allocatable }),
            s.wf(),
    {
        RegBitSet { allocatable, free: allocatable }
    }
}

/// The register allocator: the inventory of free registers of each class.
#[derive(Clone, Copy, Debug, PartialEq, Eq, Structural)]
pub struct RegAlloc {
    /// General purpose registers.
    pub gpr: RegBitSet,
    /// Floating point registers.
    pub fpr: RegBitSet,
}

impl RegAlloc {
    /// The registers of a class.
    pub open spec fn set(self, class: RegClass) -> RegBitSet {
        match class {
            RegClass::Int => self.gpr,
            RegClass::Float => self.fpr,
        }
    }

    /// The allocator with the registers of `class` replaced by `s`.
    pub open spec fn with_set(self, class: RegClass, s: RegBitSet) -> RegAlloc {
        match class {
            RegClass::Int => RegAlloc { gpr: s, fpr: self.fpr },
            RegClass::Float => RegAlloc { gpr: self.gpr, fpr: s },
        }
    }

    /// In each class every free register is allocatable.
    pub open spec fn wf(self) -> bool {
        self.gpr.wf() && self.fpr.wf()
    }

    /// Whether `r` can be handed out at all.
    pub open spec fn is_allocatable(self, r: Reg) -> bool {
        bit(self.set(r.class).allocatable, r.enc)
    }

    /// Whether `r` is free.
    pub open spec fn is_free(self, r: Reg) -> bool {
        bit(self.set(r.class).free, r.enc)
    }

    /// Whether `r` can be handed out and is in use.
    pub open spec fn is_busy(self, r: Reg) -> bool {
        self.is_allocatable(r) && !self.is_free(r)
    }

    /// Whether some register of `class` is free.
    pub open spec fn any_free(self, class: RegClass) -> bool {
        lowest_bit_from(self.set(class).free, 0) < 64
    }

    /// The free register of `class` with the lowest encoding; meaningful
    /// when there is one.
    pub open spec fn lowest_free(self, class: RegClass) -> Reg {
        Reg { class, enc: lowest_bit_from(self.set(class).free, 0) }
    }

    /// The allocator after `r` has been marked in use.
    pub open spec fn claimed(self, r: Reg) -> RegAlloc {
        let s = self.set(r.class);
        self.with_set(r.class, RegBitSet { allocatable: s.allocatable, free: without_bit(s.free, r.enc) })
    }

    /// The allocator after `r` has been marked free; a register that cannot
    /// be handed out stays as it is.
    pub open spec fn released(self, r: Reg) -> RegAlloc {
        let s = self.set(r.class);
        if self.is_allocatable(r) {
            self.with_set(r.class, RegBitSet { allocatable: s.allocatable, free: with_bit(s.free, r.enc) })
        } else {
            self
        }
    }

    /// Marking `r` in use changes the state of no other register.
    pub proof fn lemma_claimed(self, r: Reg, q: Reg)
        requires
            r.enc < 64,
        ensures
            self.claimed(r).is_free(q) == (self.is_free(q) && q != r),
            self.claimed(r).is_allocatable(q) == self.is_allocatable(q),
            self.wf() ==> self.claimed(r).wf(),
    {
        lemma_without_bit(self.set(r.class).free, r.enc, q.enc);
        if self.wf() {
            let before = self.set(r.class);
            let after = self.claimed(r).set(r.class);
            assert forall|i: u8| bit(after.free, i) implies bit(after.allocatable, i) by {
                lemma_without_bit(before.free, r.enc, i);
            }
        }
    }

    /// Marking `r` free changes the state of no other register.
    pub proof fn lemma_released(self, r: Reg, q: Reg)
        ensures
            self.released(r).is_free(q) == (self.is_free(q) || (q == r && self.is_allocatable(r))),
            self.released(r).is_allocatable(q) == self.is_allocatable(q),
            self.wf() ==> self.released(r).wf(),
    {
        if self.is_allocatable(r) {
            lemma_with_bit(self.set(r.class).free, r.enc, q.enc);
            if self.wf() {
                let before = self.set(r.class);
                let after = self.released(r).set(r.class);
                assert forall|i: u8| bit(after.free, i) implies bit(after.allocatable, i) by {
                    lemma_with_bit(before.free, r.enc, i);
                }
            }
        }
    }

    /// Freeing a register that was just claimed gives the allocator back,
    /// when the register was free before.
    pub proof fn lemma_claim_release(self, r: Reg)
        requires
            self.wf(),
            self.is_free(r),
        ensures
            self.claimed(r).released(r) == self,
    {
        lemma_bit_round_trip(self.set(r.class).free, r.enc);
    }

    /// The lowest free register of a class is free, and no free register
    /// of the class has a lower encoding.
    pub proof fn lemma_lowest_free(self, class: RegClass)
        ensures
            self.any_free(class) ==> self.is_free(self.lowest_free(class)),
            forall|q: Reg|
                q.class == class && self.is_free(q) ==> self.any_free(class) && self.lowest_free(class).enc
                    <= q.enc,
    {
        lemma_lowest_bit_from(self.set(class).free, 0);
    }

    /// An allocator over the given registers, all of them free.
    pub fn new(gpr: RegBitSet, fpr: RegBitSet) -> (ra: RegAlloc)
        ensures
            ra == (RegAlloc { gpr, fpr }),
    {
        RegAlloc { gpr, fpr }
    }

    /// Whether `reg` is free.
    pub fn reg_available(&self, reg: Reg) -> (b: bool)
        ensures
            b == self.is_free(reg),
    {
        if reg.enc >= 64 {
            return false;
        }
        let free = match reg.class {
            RegClass::Int => self.gpr.free,
            RegClass::Float => self.fpr.free,
        };
        (free >> (reg.enc as u64)) & 1 == 1
    }

    /// Hands out the free register of `class` with the lowest encoding and
    /// marks it in use. `None` says that no register of the class is free,
    /// so that the caller has to spill before it asks again; the allocator is
    /// then unchanged.
    pub fn reg_for_class(&mut self, class: RegClass) -> (r: Option<Reg>)
        ensures
            old(self).any_free(class) ==> r == Some(old(self).lowest_free(class)) && *final(self) == old(
                self,
            ).claimed(old(self).lowest_free(class)),
            !old(self).any_free(class) ==> r.is_none() && *final(self) == *old(self),
    {
        let free = match class {
            RegClass::Int => self.gpr.free,
            RegClass::Float => self.fpr.free,
        };
        let mut i: u8 = 0;
        while i < 64
            invariant
                i <= 64,
                *self == *old(self),
                free == old(self).set(class).free,
                lowest_bit_from(free, 0) == lowest_bit_from(free, i),
            decreases 64 - i,
        {
            if (free >> (i as u64)) & 1 == 1 {
                let reg = Reg { class, enc: i };
                self.mark_busy(reg);
                return Some(reg);
            }
            i = i + 1;
        }
        None
    }

    /// Hands out `named` and marks it in use, if it is free. `None` says
    /// that it is not, so that the caller has to spill before it asks again;
    /// the allocator is then unchanged.
    pub fn reg(&mut self, named: Reg) -> (r: Option<Reg>)
        ensures
            old(self).is_free(named) ==> r == Some(named) && *final(self) == old(self).claimed(named),
            !old(self).is_free(named) ==> r.is_none() && *final(self) == *old(self),
    {
        if self.reg_available(named) {
            self.mark_busy(named);
            Some(named)
        } else {
            None
        }
    }

    /// Marks `reg` free. Freeing a register that is free already, or one
    /// that cannot be handed out, changes nothing.
    pub fn free(&mut self, reg: Reg)
        ensures
            *final(self) == old(self).released(reg),
            old(self).is_free(reg) || !old(self).is_allocatable(reg) ==> *final(self) == *old(self),
    {
        if reg.enc >= 64 {
            return;
        }
        proof {
            lemma_bit_round_trip(self.set(reg.class).free, reg.enc);
        }
        let mask = 1u64 << (reg.enc as u64);
        match reg.class {
            RegClass::Int => {
                if (self.gpr.allocatable >> (reg.enc as u64)) & 1 == 1 {
                    self.gpr.free = self.gpr.free | mask;
                }
            },
            RegClass::Float => {
                if (self.fpr.allocatable >> (reg.enc as u64)) & 1 == 1 {
                    self.fpr.free = self.fpr.free | mask;
                }
            },
        }
    }

    fn mark_busy(&mut self, reg: Reg)
        requires
            reg.enc < 64,
        ensures
            *final(self) == old(self).claimed(reg),
    {
        let mask = !(1u64 << (reg.enc as u64));
        match reg.class {
            RegClass::Int => {
                self.gpr.free = self.gpr.free & mask;
            },
            RegClass::Float => {
                self.fpr.free = self.fpr.free & mask;
            },
        }
    }
}

} // verus!
