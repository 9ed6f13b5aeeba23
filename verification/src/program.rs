use vstd::prelude::*;

verus! {

use crate::opcode::Opcode;

/// An ordered, append-only sequence of opcodes, as the parser hands it to
/// the engine. Well-formedness (balanced `While`/`Until` and `Def`/`End`
/// nesting) is the parser's responsibility, not re-checked here.
#[derive(Debug)]
pub struct Program(Vec<Opcode>);

impl View for Program {
    type V = Seq<Opcode>;

    closed spec fn view(&self) -> Seq<Opcode> {
        self.0@
    }
}

impl Program {
    /// The empty program.
    pub fn new() -> (p: Program)
        ensures
            p@ == Seq::<Opcode>::empty(),
    {
        Program(Vec::new())
    }

    /// Appends one opcode at the end.
    pub fn push(&mut self, opcode: Opcode)
        ensures
            final(self)@ == old(self)@.push(opcode),
    {
        self.0.push(opcode);
    }

    /// Gives the opcodes up, in order.
    pub fn into_inner(self) -> (v: Vec<Opcode>)
        ensures
            v@ == self@,
    {
        self.0
    }
}

} // verus!
