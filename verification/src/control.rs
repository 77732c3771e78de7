//! What a branch has to know of the block it jumps to.
use vstd::prelude::*;
use crate::masm::{Label, SPOffset};

verus! {

/// The state of the stacks that a block expects.
#[derive(Clone, Copy, Debug, PartialEq, Eq, Structural)]
pub struct StackState {
    /// The stack pointer offset when the block was entered.
    pub base_offset: SPOffset,
    /// The stack pointer offset that is expected at a jump to the block.
    pub target_offset: SPOffset,
    /// The length of the operand stack when the block was entered.
    pub base_len: usize,
    /// The length of the operand stack that is expected at a jump to the
    /// block.
    pub target_len: usize,
}

/// The frame of a block, a loop or a conditional on the control stack, as
/// far as a branch to it reads and marks it.
#[derive(Clone, Copy, Debug, PartialEq, Eq, Structural)]
pub struct ControlStackFrame {
    /// The state of the stacks that the block expects.
    pub stack_state: StackState,
    /// The label that a branch to the block jumps to.
    pub label: Label,
    /// Whether some branch jumps to the block.
    pub is_branch_target: bool,
}

impl ControlStackFrame {
    /// The frame of a block that no branch jumps to yet.
    pub fn new(stack_state: StackState, label: Label) -> (f: ControlStackFrame)
        ensures
            f == (ControlStackFrame { stack_state, label, is_branch_target: false }),
    {
        ControlStackFrame { stack_state, label, is_branch_target: false }
    }

    /// The state of the stacks that the block expects.
    pub fn stack_state(&self) -> (s: StackState)
        ensures
            s == self.stack_state,
    {
        self.stack_state
    }

    /// The label that a branch to the block jumps to.
    pub fn label(&self) -> (l: &Label)
        ensures
            *l == self.label,
    {
        &self.label
    }

    /// Marks the block as one that some branch jumps to.
    pub fn set_as_target(&mut self)
        ensures
            *final(self) == (ControlStackFrame { is_branch_target: true, ..*old(self) }),
    {
        self.is_branch_target = true;
    }

    /// Whether some branch jumps to the block.
    pub fn is_branch_target(&self) -> (b: bool)
        ensures
            b == self.is_branch_target,
    {
        self.is_branch_target
    }
}

} // verus!
