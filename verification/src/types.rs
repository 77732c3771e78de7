//! Value types and operand sizes.
use vstd::prelude::*;
use crate::reg::RegClass;

verus! {

/// The heap type of a reference.
#[derive(Clone, Copy, Debug, PartialEq, Eq, Structural)]
pub enum WasmHeapType {
    /// An untyped function reference.
    Func,
    /// An external reference.
    Extern,
    /// A function reference of the signature with the given index.
    TypedFunc(u32),
}

/// A reference type.
#[derive(Clone, Copy, Debug, PartialEq, Eq, Structural)]
pub struct WasmRefType {
    /// Whether the reference may be null.
    pub nullable: bool,
    /// What the reference points to.
    pub heap_type: WasmHeapType,
}

/// The type of a value.
#[derive(Clone, Copy, Debug, PartialEq, Eq, Structural)]
pub enum WasmType {
    /// 32-bit integer.
    I32,
    /// 64-bit integer.
    I64,
    /// 32-bit float.
    F32,
    /// 64-bit float.
    F64,
    /// 128-bit vector.
    V128,
    /// Reference.
    Ref(WasmRefType),
}

/// The size of an operand.
#[derive(Clone, Copy, Debug, PartialEq, Eq, Structural)]
pub enum OperandSize {
    /// 32 bits.
    S32,
    /// 64 bits.
    S64,
    /// 128 bits.
    S128,
}

impl OperandSize {
    /// The number of bytes of the size.
    pub open spec fn spec_bytes(self) -> u32 {
        match self {
            OperandSize::S32 => 4,
            OperandSize::S64 => 8,
            OperandSize::S128 => 16,
        }
    }

    /// The number of bytes of the size.
    #[verifier::when_used_as_spec(spec_bytes)]
    pub fn bytes(self) -> (b: u32)
        ensures
            b == self.spec_bytes(),
    {
        match self {
            OperandSize::S32 => 4,
            OperandSize::S64 => 8,
            OperandSize::S128 => 16,
        }
    }

    /// The size of a value of a supported type: 32 bits for `I32` and `F32`,
    /// 64 bits for `I64`, `F64` and function references.
    pub fn of(ty: WasmType) -> (s: OperandSize)
        requires
            ty.is_supported(),
        ensures
            s == ty.size(),
    {
        match ty {
            WasmType::I32 | WasmType::F32 => OperandSize::S32,
            _ => OperandSize::S64,
        }
    }
}

impl WasmType {
    /// Whether code can be generated for values of this type: the four
    /// numeric types and untyped function references.
    pub open spec fn is_supported(self) -> bool {
        match self {
            WasmType::I32 | WasmType::I64 | WasmType::F32 | WasmType::F64 => true,
            WasmType::Ref(rt) => rt.heap_type == WasmHeapType::Func,
            WasmType::V128 => false,
        }
    }

    /// Whether this is one of the four numeric types.
    pub open spec fn is_numeric(self) -> bool {
        self is I32 || self is I64 || self is F32 || self is F64
    }

    /// The operand size of a supported type.
    pub open spec fn size(self) -> OperandSize {
        match self {
            WasmType::I32 | WasmType::F32 => OperandSize::S32,
            _ => OperandSize::S64,
        }
    }

    /// The class of register that holds a value of a supported type.
    pub open spec fn class(self) -> RegClass {
        match self {
            WasmType::F32 | WasmType::F64 => RegClass::Float,
            _ => RegClass::Int,
        }
    }

    /// Whether code can be generated for values of this type.
    pub fn supported(&self) -> (b: bool)
        ensures
            b == self.is_supported(),
    {
        match self {
            WasmType::I32 | WasmType::I64 | WasmType::F32 | WasmType::F64 => true,
            WasmType::Ref(rt) => match rt.heap_type {
                WasmHeapType::Func => true,
                _ => false,
            },
            WasmType::V128 => false,
        }
    }

    /// The class of register that holds a value of this type.
    pub fn reg_class(&self) -> (c: RegClass)
        requires
            self.is_supported(),
        ensures
            c == self.class(),
    {
        match self {
            WasmType::F32 | WasmType::F64 => RegClass::Float,
            _ => RegClass::Int,
        }
    }
}

} // verus!
