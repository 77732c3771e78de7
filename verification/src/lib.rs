//! Code generation context of a single-pass compiler: a register allocator,
//! an operand stack and a frame, kept consistent with each other while code
//! is handed to an abstract assembler.
pub mod abi;
pub mod builtins;
pub mod bulk;
pub mod checks;
pub mod context;
pub mod control;
pub mod frame;
pub mod laws;
pub mod listing;
pub mod masm;
pub mod model;
pub mod reg;
pub mod regalloc;
pub mod stack;
pub mod steps;
pub mod types;
