//! The operand stack: the values that the code generated so far has
//! produced and not yet consumed, each with the place where it is.
use vstd::prelude::*;
use crate::masm::StackSlot;
use crate::reg::Reg;
use crate::types::WasmType;

verus! {

/// A register together with the type of the value in it.
#[derive(Clone, Copy, Debug, PartialEq, Eq, Structural)]
pub struct TypedReg {
    /// The type of the value.
    pub ty: WasmType,
    /// The register.
    pub reg: Reg,
}

impl TypedReg {
    /// The register holding a value of the given type.
    pub fn new(ty: WasmType, reg: Reg) -> (t: TypedReg)
        ensures
            t == (TypedReg { ty, reg }),
    {
        TypedReg { ty, reg }
    }

    /// The register holding a 32-bit integer.
    pub fn i32(reg: Reg) -> (t: TypedReg)
        ensures
            t == (TypedReg { ty: WasmType::I32, reg }),
    {
        TypedReg { ty: WasmType::I32, reg }
    }

    /// The register holding a 64-bit integer.
    pub fn i64(reg: Reg) -> (t: TypedReg)
        ensures
            t == (TypedReg { ty: WasmType::I64, reg }),
    {
        TypedReg { ty: WasmType::I64, reg }
    }
}

/// A reference to a local of the frame.
#[derive(Clone, Copy, Debug, PartialEq, Eq, Structural)]
pub struct Local {
    /// The index of the local.
    pub index: u32,
    /// The type of the local.
    pub ty: WasmType,
}

/// A value in a slot of the machine stack.
#[derive(Clone, Copy, Debug, PartialEq, Eq, Structural)]
pub struct Memory {
    /// The type of the value.
    pub ty: WasmType,
    /// The slot.
    pub slot: StackSlot,
}

/// An entry of the operand stack.
#[derive(Clone, Copy, Debug, PartialEq, Eq, Structural)]
pub enum Val {
    /// A 32-bit integer constant.
    I32(i32),
    /// A 64-bit integer constant.
    I64(i64),
    /// A 32-bit float constant, by its bits.
    F32(u32),
    /// A 64-bit float constant, by its bits.
    F64(u64),
    /// A value in a register, which this entry alone owns.
    Reg(TypedReg),
    /// The value of a local.
    Local(Local),
    /// A value in a slot of the machine stack.
    Memory(Memory),
}

impl Val {
    /// The type of the value.
    pub open spec fn spec_ty(self) -> WasmType {
        match self {
            Val::I32(_) => WasmType::I32,
            Val::I64(_) => WasmType::I64,
            Val::F32(_) => WasmType::F32,
            Val::F64(_) => WasmType::F64,
            Val::Reg(r) => r.ty,
            Val::Local(l) => l.ty,
            Val::Memory(m) => m.ty,
        }
    }

    /// A 32-bit integer constant.
    pub fn i32(v: i32) -> (r: Val)
        ensures
            r == Val::I32(v),
    {
        Val::I32(v)
    }

    /// A 64-bit integer constant.
    pub fn i64(v: i64) -> (r: Val)
        ensures
            r == Val::I64(v),
    {
        Val::I64(v)
    }

    /// A 32-bit float constant with the given bits.
    pub fn float32(bits: u32) -> (r: Val)
        ensures
            r == Val::F32(bits),
    {
        Val::F32(bits)
    }

    /// A 64-bit float constant with the given bits.
    pub fn float64(bits: u64) -> (r: Val)
        ensures
            r == Val::F64(bits),
    {
        Val::F64(bits)
    }

    /// A value of the given type in the given register.
    pub fn reg(reg: Reg, ty: WasmType) -> (r: Val)
        ensures
            r == Val::Reg(TypedReg { ty, reg }),
    {
        Val::Reg(TypedReg { ty, reg })
    }

    /// The value of the local with the given index and type.
    pub fn local(index: u32, ty: WasmType) -> (r: Val)
        ensures
            r == Val::Local(Local { index, ty }),
    {
        Val::Local(Local { index, ty })
    }

    /// A value of the given type in the given slot of the machine stack.
    pub fn mem(ty: WasmType, slot: StackSlot) -> (r: Val)
        ensures
            r == Val::Memory(Memory { ty, slot }),
    {
        Val::Memory(Memory { ty, slot })
    }

    /// Whether the value is in a register.
    pub fn is_reg(&self) -> (b: bool)
        ensures
            b == (*self is Reg),
    {
        match self {
            Val::Reg(_) => true,
            _ => false,
        }
    }

    /// Whether the value is in a slot of the machine stack.
    pub fn is_mem(&self) -> (b: bool)
        ensures
            b == (*self is Memory),
    {
        match self {
            Val::Memory(_) => true,
            _ => false,
        }
    }

    /// Whether the value is a constant.
    pub fn is_const(&self) -> (b: bool)
        ensures
            b == (*self is I32 || *self is I64 || *self is F32 || *self is F64),
    {
        match self {
            Val::I32(_) | Val::I64(_) | Val::F32(_) | Val::F64(_) => true,
            _ => false,
        }
    }

    /// Whether the value is that of a local.
    pub fn is_local(&self) -> (b: bool)
        ensures
            b == (*self is Local),
    {
        match self {
            Val::Local(_) => true,
            _ => false,
        }
    }

    /// Whether the value is a 32-bit integer constant.
    pub fn is_i32_const(&self) -> (b: bool)
        ensures
            b == (*self is I32),
    {
        match self {
            Val::I32(_) => true,
            _ => false,
        }
    }

    /// Whether the value is a 64-bit integer constant.
    pub fn is_i64_const(&self) -> (b: bool)
        ensures
            b == (*self is I64),
    {
        match self {
            Val::I64(_) => true,
            _ => false,
        }
    }

    /// The register and type of a value that is in a register.
    pub fn unwrap_reg(&self) -> (r: TypedReg)
        requires
            *self is Reg,
        ensures
            *self == Val::Reg(r),
    {
        match self {
            Val::Reg(r) => *r,
            _ => vstd::pervasive::unreached(),
        }
    }

    /// The constant of a 32-bit integer constant.
    pub fn unwrap_i32(&self) -> (r: i32)
        requires
            *self is I32,
        ensures
            *self == Val::I32(r),
    {
        match self {
            Val::I32(v) => *v,
            _ => vstd::pervasive::unreached(),
        }
    }

    /// The constant of a 64-bit integer constant.
    pub fn unwrap_i64(&self) -> (r: i64)
        requires
            *self is I64,
        ensures
            *self == Val::I64(r),
    {
        match self {
            Val::I64(v) => *v,
            _ => vstd::pervasive::unreached(),
        }
    }

    /// The local of a value that is that of a local.
    pub fn unwrap_local(&self) -> (r: Local)
        requires
            *self is Local,
        ensures
            *self == Val::Local(r),
    {
        match self {
            Val::Local(l) => *l,
            _ => vstd::pervasive::unreached(),
        }
    }

    /// The slot and type of a value that is in the machine stack.
    pub fn unwrap_mem(&self) -> (r: Memory)
        requires
            *self is Memory,
        ensures
            *self == Val::Memory(r),
    {
        match self {
            Val::Memory(m) => *m,
            _ => vstd::pervasive::unreached(),
        }
    }

    /// The type of the value.
    #[verifier::when_used_as_spec(spec_ty)]
    pub fn ty(self) -> (t: WasmType)
        ensures
            t == self.spec_ty(),
    {
        match self {
            Val::I32(_) => WasmType::I32,
            Val::I64(_) => WasmType::I64,
            Val::F32(_) => WasmType::F32,
            Val::F64(_) => WasmType::F64,
            Val::Reg(r) => r.ty,
            Val::Local(l) => l.ty,
            Val::Memory(m) => m.ty,
        }
    }
}

/// The operand stack. Its view is the sequence of its entries, the top
/// last.
#[derive(Debug)]
pub struct Stack {
    inner: Vec<Val>,
}

impl View for Stack {
    type V = Seq<Val>;

    closed spec fn view(&self) -> Seq<Val> {
        self.inner@
    }
}

impl Stack {
    /// An empty stack.
    pub fn new() -> (s: Stack)
        ensures
            s@ == Seq::<Val>::empty(),
    {
        Stack { inner: Vec::new() }
    }

    /// The number of entries.
    pub fn len(&self) -> (n: usize)
        ensures
            n == self@.len(),
    {
        self.inner.len()
    }

    /// Puts `val` on top.
    pub fn push(&mut self, val: Val)
        ensures
            final(self)@ == old(self)@.push(val),
    {
        self.inner.push(val);
    }

    /// The top entry, if there is one.
    pub fn peek(&self) -> (r: Option<&Val>)
        ensures
            self@.len() == 0 ==> r.is_none(),
            self@.len() > 0 ==> r == Some(&self@.last()),
    {
        let n = self.inner.len();
        if n == 0 {
            None
        } else {
            Some(&self.inner[n - 1])
        }
    }

    /// Takes the top entry off, if there is one.
    pub fn pop(&mut self) -> (r: Option<Val>)
        ensures
            old(self)@.len() == 0 ==> r.is_none() && final(self)@ == old(self)@,
            old(self)@.len() > 0 ==> r == Some(old(self)@.last()) && final(self)@ == old(self)@.drop_last(),
    {
        self.inner.pop()
    }

    /// Takes the top entry off if `f` says so of it, and returns it; leaves
    /// the stack as it is otherwise.
    pub fn pop_if<F: Fn(&Val) -> bool>(&mut self, f: F) -> (r: Option<Val>)
        requires
            old(self)@.len() > 0 ==> call_requires(f, (&old(self)@.last(),)),
        ensures
            old(self)@.len() == 0 ==> r.is_none() && final(self)@ == old(self)@,
            old(self)@.len() > 0 ==> call_ensures(f, (&old(self)@.last(),), r.is_some()),
            r.is_some() ==> r == Some(old(self)@.last()) && final(self)@ == old(self)@.drop_last(),
            r.is_none() ==> final(self)@ == old(self)@,
    {
        let n = self.inner.len();
        if n == 0 {
            return None;
        }
        if f(&self.inner[n - 1]) {
            self.inner.pop()
        } else {
            None
        }
    }

    /// Takes the top entry off if it is a 32-bit integer constant, and
    /// returns the constant; leaves the stack as it is otherwise.
    pub fn pop_i32_const(&mut self) -> (r: Option<i32>)
        ensures
            old(self)@.len() > 0 && old(self)@.last() is I32 ==> r == Some(old(self)@.last()->I32_0)
                && final(self)@ == old(self)@.drop_last(),
            !(old(self)@.len() > 0 && old(self)@.last() is I32) ==> r.is_none() && final(self)@ == old(
                self,
            )@,
    {
        let n = self.inner.len();
        if n == 0 {
            return None;
        }
        match self.inner[n - 1] {
            Val::I32(v) => {
                self.inner.pop();
                Some(v)
            },
            _ => None,
        }
    }

    /// Takes the top entry off if it is a 64-bit integer constant, and
    /// returns the constant; leaves the stack as it is otherwise.
    pub fn pop_i64_const(&mut self) -> (r: Option<i64>)
        ensures
            old(self)@.len() > 0 && old(self)@.last() is I64 ==> r == Some(old(self)@.last()->I64_0)
                && final(self)@ == old(self)@.drop_last(),
            !(old(self)@.len() > 0 && old(self)@.last() is I64) ==> r.is_none() && final(self)@ == old(
                self,
            )@,
    {
        let n = self.inner.len();
        if n == 0 {
            return None;
        }
        match self.inner[n - 1] {
            Val::I64(v) => {
                self.inner.pop();
                Some(v)
            },
            _ => None,
        }
    }

    /// Takes the top entry off if it is in a register, and returns the
    /// register; leaves the stack as it is otherwise.
    pub fn pop_reg(&mut self) -> (r: Option<TypedReg>)
        ensures
            old(self)@.len() > 0 && old(self)@.last() is Reg ==> r == Some(old(self)@.last()->Reg_0)
                && final(self)@ == old(self)@.drop_last(),
            !(old(self)@.len() > 0 && old(self)@.last() is Reg) ==> r.is_none() && final(self)@ == old(
                self,
            )@,
    {
        let n = self.inner.len();
        if n == 0 {
            return None;
        }
        match self.inner[n - 1] {
            Val::Reg(tr) => {
                self.inner.pop();
                Some(tr)
            },
            _ => None,
        }
    }

    /// Takes the top entry off if it is in the register `reg`, and returns
    /// the register; leaves the stack as it is otherwise.
    pub fn pop_named_reg(&mut self, reg: Reg) -> (r: Option<TypedReg>)
        ensures
            top_is_in(old(self)@, reg) ==> r == Some(old(self)@.last()->Reg_0) && final(self)@ == old(
                self,
            )@.drop_last(),
            !top_is_in(old(self)@, reg) ==> r.is_none() && final(self)@ == old(self)@,
    {
        let n = self.inner.len();
        if n == 0 {
            return None;
        }
        match self.inner[n - 1] {
            Val::Reg(tr) => {
                if tr.reg == reg {
                    self.inner.pop();
                    Some(tr)
                } else {
                    None
                }
            },
            _ => None,
        }
    }

    /// The entry at `index`, counted from the bottom.
    pub fn get(&self, index: usize) -> (r: Val)
        requires
            index < self@.len(),
        ensures
            r == self@[index as int],
    {
        self.inner[index]
    }

    /// Replaces the entry at `index`, counted from the bottom.
    pub fn set(&mut self, index: usize, val: Val)
        requires
            index < old(self)@.len(),
        ensures
            final(self)@ == old(self)@.update(index as int, val),
    {
        self.inner.set(index, val);
    }

    /// Cuts the stack down to its `len` bottom entries.
    pub fn truncate(&mut self, len: usize)
        requires
            len <= old(self)@.len(),
        ensures
            final(self)@ == old(self)@.take(len as int),
    {
        self.inner.truncate(len);
        assert(self.inner@ =~= old(self).inner@.take(len as int));
    }
}

/// Whether the top entry of `s` is in the register `reg`.
pub open spec fn top_is_in(s: Seq<Val>, reg: Reg) -> bool {
    s.len() > 0 && s.last() is Reg && s.last()->Reg_0.reg == reg
}

} // verus!
