//! The instruction vocabulary that the compiler emits and the virtual machine
//! consumes. Jump targets are relative: an offset counts the instructions to
//! skip forward from the position immediately after the jump itself.

use vstd::prelude::*;

verus! {

/// One bytecode instruction.
#[derive(Clone, Copy, Debug, PartialEq, Eq, Structural)]
pub enum Instruction {
    /// Load the arena value with the given handle into the value register.
    Constant(usize),
    /// Skip the given number of instructions when the value register is false.
    JumpFalse(usize),
    /// Skip the given number of instructions unconditionally.
    Jump(usize),
    /// Read the global slot at `index`.
    GlobalArgumentGet { index: usize },
    /// Read the global slot at `index`, checking at run time that it has been
    /// populated (used for forward-referenced globals).
    CheckedGlobalArgumentGet { index: usize },
    /// Read slot `index` of the frame `depth` hops up the environment chain.
    LocalArgumentGet { depth: usize, index: usize },
    /// As `LocalArgumentGet`, with a run-time initialization check.
    CheckedLocalArgumentGet { depth: usize, index: usize },
    /// Write the value register into the global slot at `index`.
    GlobalArgumentSet { index: usize },
    /// Write the value register into slot `index` of the frame `depth` hops up.
    DeepArgumentSet { depth: usize, index: usize },
    /// Fail unless the call's argument count matches: exactly `arity` when not
    /// `dotted`, at least `arity` when `dotted`.
    CheckArity { arity: usize, dotted: bool },
    /// Collect the actual arguments past the first `arity` into one rest value.
    PackFrame(usize),
    /// Link the current argument frame onto the closure's environment.
    ExtendEnv,
    /// Grow the global frame by one slot and store the value register into it.
    ExtendFrame,
    /// Build a closure from the current environment and the code that follows.
    CreateClosure(usize),
    /// Return from the running function.
    Return,
    /// Allocate an argument frame for the given number of arguments.
    CreateFrame(usize),
    /// Push the value register onto the stack.
    PushValue,
    /// Pop the function to invoke off the stack.
    PopFunction,
    /// Checkpoint the current environment before a non-tail call.
    PreserveEnv,
    /// Restore the environment checkpointed before a non-tail call.
    RestoreEnv,
    /// Invoke the popped function; a tail call reuses the caller's frame.
    FunctionInvoke { tail: bool },
    /// A placeholder that does nothing; emitted only as a patch target.
    NoOp,
}

} // verus!
