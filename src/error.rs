//! The interpreter's error kinds.
use vstd::prelude::*;

verus! {

/// Every failure that a primitive or a step can report.
#[derive(Debug, Clone, Copy)]
pub enum KrkErr {
    /// A pop reached the base of the current stack frame.
    StackUnderun,
    /// A frame was closed while none was open.
    LevelStackUnderun,
    /// A pop from the empty auxiliary stack.
    AuxStackUnderun,
    /// An operand or a word was of the wrong kind.
    WrongType,
    /// The input ran out where a token was needed.
    EmptyTib,
    /// A definition was closed while none was being compiled.
    NotCompiling,
    /// A name resolved to nothing, or an index to no word.
    WordNotFound,
    /// A buffer of the wrong kind, or one that is not supported.
    WrongBuffer,
    /// An allocation index that names no live buffer.
    BufferNotFound,
    /// An offset past the end of a buffer or region.
    IndexOutOfBounds,
    /// An allocation that could not be freed.
    CouldNotFree,
    /// A size that is not positive.
    WrongSize,
    /// A host-defined failure: a label and a code.
    Other(&'static str, u16),
}

} // verus!
