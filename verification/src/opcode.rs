use vstd::prelude::*;

verus! {

/// One instruction of the language. The unit the engine dispatches on:
/// every operand is implicit (the cell under the cursor).
#[derive(Debug, Copy, Clone, PartialEq, Eq, Hash, Structural)]
pub enum Opcode {
    /// Move the cursor one cell to the left, growing the tape at the front.
    Left,
    /// Move the cursor one cell to the right, growing the tape at the back.
    Right,
    /// Decrement the current cell, wrapping below zero to 255.
    Decr,
    /// Increment the current cell, wrapping above 255 to zero.
    Incr,
    /// Pull one byte from the input source into the current cell;
    /// an exhausted source yields zero.
    Read,
    /// Push the current cell's value to the output sink.
    Write,
    /// Enter the loop body if the current cell is nonzero, else skip
    /// past the matching `Until`.
    While,
    /// Jump back just past the matching `While` if the current cell is
    /// nonzero, else fall through.
    Until,
    /// Bind the slot named by the current cell (clearing it) to the body
    /// that follows, then skip past the matching `End`.
    Def,
    /// Close a definition body; at run time, return to the caller.
    End,
    /// Return early from a definition body.
    Ret,
    /// Call the slot named by the current cell (clearing it); an unbound
    /// slot falls through to the next instruction.
    Call,
}

} // verus!
