//! Machine registers and their classes.
use vstd::prelude::*;

verus! {

/// A register class: registers of different classes are allocated
/// independently of each other.
#[derive(Clone, Copy, Debug, PartialEq, Eq, Structural)]
pub enum RegClass {
    /// General purpose (integer) registers.
    Int,
    /// Floating point registers.
    Float,
}

/// A machine register, named by its class and hardware encoding.
#[derive(Clone, Copy, Debug, PartialEq, Eq, Structural)]
pub struct Reg {
    /// The class of the register.
    pub class: RegClass,
    /// The hardware encoding of the register within its class.
    pub enc: u8,
}

impl Reg {
    /// A register of the given class and encoding.
    pub fn new(class: RegClass, enc: u8) -> (r: Reg)
        ensures
            r == (Reg { class, enc }),
    {
        Reg { class, enc }
    }

    /// The general purpose register with the given encoding.
    pub fn gpr(enc: u8) -> (r: Reg)
        ensures
            r == (Reg { class: RegClass::Int, enc }),
    {
        Reg { class: RegClass::Int, enc }
    }

    /// The floating point register with the given encoding.
    pub fn fpr(enc: u8) -> (r: Reg)
        ensures
            r == (Reg { class: RegClass::Float, enc }),
    {
        Reg { class: RegClass::Float, enc }
    }

    /// The class of the register.
    pub fn class(&self) -> (c: RegClass)
        ensures
            c == self.class,
    {
        self.class
    }

    /// The hardware encoding of the register.
    pub fn hw_enc(&self) -> (e: u8)
        ensures
            e == self.enc,
    {
        self.enc
    }

    /// Whether this is a general purpose register.
    pub fn is_int(&self) -> (b: bool)
        ensures
            b == (self.class == RegClass::Int),
    {
        self.class == RegClass::Int
    }

    /// Whether this is a floating point register.
    pub fn is_float(&self) -> (b: bool)
        ensures
            b == (self.class == RegClass::Float),
    {
        self.class == RegClass::Float
    }
}

} // verus!
