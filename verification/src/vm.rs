use vstd::prelude::*;

verus! {

use crate::opcode::Opcode;
use crate::program::Program;
use crate::semantics::VmState;
use crate::semantics::bind_slot;
use crate::semantics::find_backward;
use crate::semantics::find_forward;
use crate::semantics::init_state;
use crate::semantics::is_final;
use crate::semantics::lemma_run_steps_extend;
use crate::semantics::run_steps;
use crate::semantics::vm_step;
use crate::semantics::wf_state;

/// Why a run stopped with a fatal error: a balanced scan exhausted the
/// program, so the code handed to the engine was not well formed.
#[derive(Debug, Copy, Clone, PartialEq, Eq, Structural)]
pub enum FaultKind {
    /// A `While` with a zero guard found no matching `Until` ahead.
    UnmatchedWhile,
    /// An `Until` with a nonzero guard found no matching `While` behind.
    UnmatchedUntil,
    /// A `Def` found no matching `End` ahead.
    UnmatchedDef,
}

/// The fatal error of a run: the engine refused to follow an unbalanced
/// program past the instruction at `pc`.
#[derive(Debug, Copy, Clone, PartialEq, Eq, Structural)]
pub struct RuntimeError {
    /// Which scan failed.
    pub kind: FaultKind,
    /// The position of the instruction whose match was missing.
    pub pc: usize,
}

impl RuntimeError {
    /// Gives up the payload: which scan failed, and where.
    pub fn into_inner(self) -> (r: (FaultKind, usize))
        ensures
            r == (self.kind, self.pc),
    {
        (self.kind, self.pc)
    }
}

/// The fault a step would report, by the instruction it is stuck on.
pub open spec fn step_fault(s: VmState) -> FaultKind
    recommends
        !is_final(s),
        vm_step(s) is None,
{
    match s.code[s.pc] {
        Opcode::Until => FaultKind::UnmatchedUntil,
        Opcode::Def => FaultKind::UnmatchedDef,
        _ => FaultKind::UnmatchedWhile,
    }
}

/// An `Option<usize>` as its mathematical value.
pub open spec fn opt_int(o: Option<usize>) -> Option<int> {
    match o {
        Some(t) => Some(t as int),
        None => None,
    }
}

/// The execution engine: program, tape with cursor, subroutine table, call
/// stack, program counter, and the byte source and sink it works against.
/// One engine serves a whole session: `run` and `extend_program` may be
/// called repeatedly and no state is ever reset between them.
pub struct Vm {
    code: Vec<Opcode>,
    tape: Vec<u8>,
    cell: usize,
    jump: Vec<Option<usize>>,
    link: Vec<usize>,
    pc: usize,
    halted: bool,
    input: Vec<u8>,
    in_pos: usize,
    output: Vec<u8>,
}

impl View for Vm {
    type V = VmState;

    closed spec fn view(&self) -> VmState {
        VmState {
            code: self.code@,
            tape: self.tape@,
            cell: self.cell as int,
            jump: self.jump@.map_values(|o: Option<usize>| opt_int(o)),
            link: self.link@.map_values(|x: usize| x as int),
            pc: self.pc as int,
            halted: self.halted,
            input: self.input@,
            in_pos: self.in_pos as int,
            output: self.output@,
        }
    }
}

/// The forward balanced scan over the loaded code, starting at `start` with
/// one opening tag already unmatched.
fn scan_forward(code: &Vec<Opcode>, start: usize, open: Opcode, close: Opcode) -> (r: Option<
    usize,
>)
    requires
        1 <= start <= code@.len(),
        open != close,
    ensures
        opt_int(r) == find_forward(code@, open, close, start as int, 1),
{
    let mut i = start;
    let mut depth: usize = 1;
    while i < code.len()
        invariant
            start <= i <= code@.len(),
            1 <= start,
            1 <= depth,
            depth <= 1 + i - start,
            find_forward(code@, open, close, start as int, 1) == find_forward(
                code@,
                open,
                close,
                i as int,
                depth as nat,
            ),
        decreases code@.len() - i,
    {
        let op = code[i];
        if op == close {
            if depth == 1 {
                return Some(i);
            }
            depth = depth - 1;
        } else if op == open {
            depth = depth + 1;
        }
        i = i + 1;
    }
    None
}

impl Vm {
    /// The engine's invariant, carried by every constructor and method.
    pub open spec fn wf(&self) -> bool {
        wf_state(self@)
    }

    /// A fresh engine with no program: a single zero cell under the cursor
    /// and nothing bound, saved, read or written.
    pub fn new() -> (vm: Vm)
        ensures
            vm@ == init_state(Seq::<Opcode>::empty()),
            vm.wf(),
    {
        Vm::load(Program::new())
    }

    /// A fresh engine with `program` loaded and the program counter at its
    /// start.
    pub fn load(program: Program) -> (vm: Vm)
        ensures
            vm@ == init_state(program@),
            vm.wf(),
    {
        let mut tape: Vec<u8> = Vec::new();
        tape.push(0);
        let vm = Vm {
            code: program.into_inner(),
            tape,
            cell: 0,
            jump: Vec::new(),
            link: Vec::new(),
            pc: 0,
            halted: false,
            input: Vec::new(),
            in_pos: 0,
            output: Vec::new(),
        };
        proof {
            assert(vm@ =~= init_state(program@));
        }
        vm
    }

    /// Appends `program` at the end of the loaded code. Nothing else moves:
    /// tape, cursor, subroutine table, call stack and program counter all
    /// survive, which is what lets an interactive session keep its state
    /// across successive inputs.
    pub fn extend_program(&mut self, program: Program)
        ensures
            final(self)@ == (VmState { code: old(self)@.code + program@, ..old(self)@ }),
            old(self).wf() ==> final(self).wf(),
    {
        let mut more = program.into_inner();
        self.code.append(&mut more);
        proof {
            assert(self@ =~= (VmState { code: old(self)@.code + program@, ..old(self)@ }));
        }
    }

    /// The instruction under the program counter.
    fn fetch(&self) -> (op: Opcode)
        requires
            !is_final(self@),
        ensures
            op == self@.code[self@.pc],
    {
        self.code[self.pc]
    }

    /// Executes the instruction `op` under the program counter: one
    /// application of the step relation, or the fatal error with the engine
    /// left exactly as it stood.
    fn execute(&mut self, op: Opcode) -> (r: Result<(), RuntimeError>)
        requires
            old(self).wf(),
            !is_final(old(self)@),
            op == old(self)@.code[old(self)@.pc],
        ensures
            final(self).wf(),
            (match vm_step(old(self)@) {
                Some(t) => r is Ok && final(self)@ == t,
                None => (r matches Err(e) && final(self)@ == old(self)@ && e.kind == step_fault(
                    old(self)@,
                ) && e.pc as int == old(self)@.pc),
            }),
    {
        proof {
            crate::semantics::lemma_step_preserves_wf(old(self)@);
        }
        // The loaded code lives in a vector, so its length fits a usize and
        // advancing a program counter that points into it cannot overflow.
        let _program_len = self.code.len();
        match op {
            Opcode::Left => {
                if self.cell > 0 {
                    self.cell = self.cell - 1;
                } else {
                    self.tape.insert(0, 0);
                }
                self.pc = self.pc + 1;
                proof {
                    assert(vm_step(old(self)@) matches Some(t) && self@ =~= t);
                }
                Ok(())
            },
            Opcode::Right => {
                let tape_len = self.tape.len();
                self.cell = self.cell + 1;
                if self.cell >= tape_len {
                    self.tape.push(0);
                }
                self.pc = self.pc + 1;
                proof {
                    assert(vm_step(old(self)@) matches Some(t) && self@ =~= t);
                }
                Ok(())
            },
            Opcode::Decr => {
                let v = self.tape[self.cell];
                self.tape[self.cell] = if v == 0 {
                    255
                } else {
                    v - 1
                };
                self.pc = self.pc + 1;
                proof {
                    assert(vm_step(old(self)@) matches Some(t) && self@ =~= t);
                }
                Ok(())
            },
            Opcode::Incr => {
                let v = self.tape[self.cell];
                self.tape[self.cell] = if v == 255 {
                    0
                } else {
                    v + 1
                };
                self.pc = self.pc + 1;
                proof {
                    assert(vm_step(old(self)@) matches Some(t) && self@ =~= t);
                }
                Ok(())
            },
            Opcode::Read => {
                if self.in_pos < self.input.len() {
                    self.tape[self.cell] = self.input[self.in_pos];
                    self.in_pos = self.in_pos + 1;
                } else {
                    self.tape[self.cell] = 0;
                }
                self.pc = self.pc + 1;
                proof {
                    assert(vm_step(old(self)@) matches Some(t) && self@ =~= t);
                }
                Ok(())
            },
            Opcode::Write => {
                let v = self.tape[self.cell];
                self.output.push(v);
                self.pc = self.pc + 1;
                proof {
                    assert(vm_step(old(self)@) matches Some(t) && self@ =~= t);
                }
                Ok(())
            },
            Opcode::While => {
                if self.tape[self.cell] == 0 {
                    match scan_forward(&self.code, self.pc + 1, Opcode::While, Opcode::Until) {
                        Some(m) => {
                            proof {
                                crate::semantics::lemma_find_forward_in_range(
                                    self.code@,
                                    Opcode::While,
                                    Opcode::Until,
                                    self.pc + 1,
                                    1,
                                );
                            }
                            self.pc = m + 1;
                            proof {
                                assert(vm_step(old(self)@) matches Some(t) && self@ =~= t);
                            }
                            Ok(())
                        },
                        None => Err(RuntimeError { kind: FaultKind::UnmatchedWhile, pc: self.pc }),
                    }
                } else {
                    self.pc = self.pc + 1;
                    proof {
                        assert(vm_step(old(self)@) matches Some(t) && self@ =~= t);
                    }
                    Ok(())
                }
            },
            Opcode::Until => {
                if self.tape[self.cell] != 0 {
                    match scan_backward(&self.code, self.pc, Opcode::While, Opcode::Until) {
                        Some(m) => {
                            proof {
                                crate::semantics::lemma_find_backward_in_range(
                                    self.code@,
                                    Opcode::While,
                                    Opcode::Until,
                                    self.pc - 1,
                                    1,
                                );
                            }
                            self.pc = m + 1;
                            proof {
                                assert(vm_step(old(self)@) matches Some(t) && self@ =~= t);
                            }
                            Ok(())
                        },
                        None => Err(RuntimeError { kind: FaultKind::UnmatchedUntil, pc: self.pc }),
                    }
                } else {
                    self.pc = self.pc + 1;
                    proof {
                        assert(vm_step(old(self)@) matches Some(t) && self@ =~= t);
                    }
                    Ok(())
                }
            },
            Opcode::Def => {
                match scan_forward(&self.code, self.pc + 1, Opcode::Def, Opcode::End) {
                    Some(m) => {
                        proof {
                            crate::semantics::lemma_find_forward_in_range(
                                self.code@,
                                Opcode::Def,
                                Opcode::End,
                                self.pc + 1,
                                1,
                            );
                        }
                        let v = self.tape[self.cell];
                        let slot = v as usize;
                        self.tape[self.cell] = 0;
                        let target = self.pc + 1;
                        while self.jump.len() < slot + 1
                            invariant
                                old(self).wf(),
                                slot <= 255,
                                self.code@ == old(self).code@,
                                self.tape@ == old(self).tape@.update(
                                    old(self).cell as int,
                                    0u8,
                                ),
                                self.cell == old(self).cell,
                                self.link@ == old(self).link@,
                                self.pc == old(self).pc,
                                self.halted == old(self).halted,
                                self.input@ == old(self).input@,
                                self.in_pos == old(self).in_pos,
                                self.output@ == old(self).output@,
                                old(self).jump@.len() <= self.jump@.len(),
                                self.jump@.len() <= vstd::math::max(
                                    old(self).jump@.len() as int,
                                    slot + 1,
                                ),
                                forall|k: int|
                                    0 <= k < old(self).jump@.len() ==> self.jump@[k] == old(
                                        self,
                                    ).jump@[k],
                                forall|k: int|
                                    old(self).jump@.len() <= k < self.jump@.len() ==> (
                                    #[trigger] self.jump@[k]) is None,
                            decreases slot + 1 - self.jump.len(),
                        {
                            self.jump.push(None);
                        }
                        self.jump[slot] = Some(target);
                        self.pc = m + 1;
                        proof {
                            assert(self@.jump =~= bind_slot(
                                old(self)@.jump,
                                v as int,
                                old(self)@.pc + 1,
                            ));
                            assert(vm_step(old(self)@) matches Some(t) && self@ =~= t);
                        }
                        Ok(())
                    },
                    None => Err(RuntimeError { kind: FaultKind::UnmatchedDef, pc: self.pc }),
                }
            },
            Opcode::End | Opcode::Ret => {
                match self.link.pop() {
                    Some(addr) => {
                        self.pc = addr;
                    },
                    None => {
                        self.halted = true;
                        self.pc = self.pc + 1;
                    },
                }
                proof {
                    assert(vm_step(old(self)@) matches Some(t) && self@ =~= t);
                }
                Ok(())
            },
            Opcode::Call => {
                let v = self.tape[self.cell];
                let slot = v as usize;
                self.tape[self.cell] = 0;
                let target = if slot < self.jump.len() {
                    self.jump[slot]
                } else {
                    None
                };
                match target {
                    Some(t) => {
                        self.link.push(self.pc + 1);
                        self.pc = t;
                    },
                    None => {
                        self.pc = self.pc + 1;
                    },
                }
                proof {
                    assert(vm_step(old(self)@) matches Some(t) && self@ =~= t);
                }
                Ok(())
            },
        }
    }

    /// Executes exactly one instruction if one is left; a no-op on a final
    /// state. The primitive `run` is built from, kept for single-stepping.
    pub fn step(&mut self) -> (r: Result<(), RuntimeError>)
        requires
            old(self).wf(),
        ensures
            final(self).wf(),
            is_final(old(self)@) ==> r is Ok && final(self)@ == old(self)@,
            !is_final(old(self)@) ==> (match vm_step(old(self)@) {
                Some(t) => r is Ok && final(self)@ == t,
                None => (r matches Err(e) && final(self)@ == old(self)@ && e.kind == step_fault(
                    old(self)@,
                ) && e.pc as int == old(self)@.pc),
            }),
    {
        if self.halted || self.pc >= self.code.len() {
            return Ok(());
        }
        let op = self.fetch();
        self.execute(op)
    }

    /// Runs fetch-execute until no instruction is left: the program counter
    /// passes the end of the code, or a top-level return halts the session.
    /// The final engine is reachable from the starting one by the step
    /// relation; an error reports the instruction whose match was missing,
    /// with the engine left exactly as of the last completed step.
    ///
    /// One call executes at most `usize::MAX` instructions; a program still
    /// running after that many steps is left mid-flight, exactly as the step
    /// relation places it, and a further call resumes it.
    pub fn run(&mut self) -> (r: Result<(), RuntimeError>)
        requires
            old(self).wf(),
        ensures
            final(self).wf(),
            exists|n: nat| run_steps(old(self)@, n) == Some(final(self)@),
            r is Ok ==> is_final(final(self)@) || run_steps(old(self)@, usize::MAX as nat)
                == Some(final(self)@),
            (r matches Err(e) ==> !is_final(final(self)@) && vm_step(final(self)@) is None
                && e.kind == step_fault(final(self)@) && e.pc as int == final(self)@.pc),
    {
        let mut fuel: usize = usize::MAX;
        let ghost mut n: nat = 0;
        while fuel > 0 && !self.halted && self.pc < self.code.len()
            invariant
                self.wf(),
                run_steps(old(self)@, n) == Some(self@),
                n + fuel == usize::MAX,
            decreases fuel,
        {
            let ghost pre = self@;
            let op = self.fetch();
            match self.execute(op) {
                Ok(()) => {
                    fuel = fuel - 1;
                    proof {
                        lemma_run_steps_extend(old(self)@, n, pre);
                        n = n + 1;
                    }
                },
                Err(e) => {
                    return Err(e);
                },
            }
        }
        Ok(())
    }

    /// The current program counter.
    pub fn pc(&self) -> (r: usize)
        ensures
            r as int == self@.pc,
    {
        self.pc
    }

    /// Whether a top-level return has ended the session.
    pub fn is_halted(&self) -> (r: bool)
        ensures
            r == self@.halted,
    {
        self.halted
    }

    /// The index of the current cell.
    pub fn cursor(&self) -> (r: usize)
        ensures
            r as int == self@.cell,
    {
        self.cell
    }

    /// How many cells the tape holds so far.
    pub fn tape_len(&self) -> (r: usize)
        ensures
            r as int == self@.tape.len(),
    {
        self.tape.len()
    }

    /// The value of the cell under the cursor.
    pub fn current_cell(&self) -> (r: u8)
        requires
            self.wf(),
        ensures
            r == self@.tape[self@.cell],
    {
        self.tape[self.cell]
    }

    /// The value of the cell at index `i`, or `None` past the tape's end.
    pub fn read_cell(&self, i: usize) -> (r: Option<u8>)
        ensures
            i < self@.tape.len() ==> r == Some(self@.tape[i as int]),
            i >= self@.tape.len() ==> r is None,
    {
        if i < self.tape.len() {
            Some(self.tape[i])
        } else {
            None
        }
    }

    /// Offers `bytes` at the end of the input source; `Read` instructions
    /// consume them in order.
    pub fn feed_input(&mut self, bytes: Vec<u8>)
        ensures
            final(self)@ == (VmState { input: old(self)@.input + bytes@, ..old(self)@ }),
            old(self).wf() ==> final(self).wf(),
    {
        let mut more = bytes;
        self.input.append(&mut more);
        proof {
            assert(self@ =~= (VmState { input: old(self)@.input + bytes@, ..old(self)@ }));
        }
    }

    /// Gives up everything written to the output sink so far, leaving the
    /// sink empty.
    pub fn take_output(&mut self) -> (out: Vec<u8>)
        ensures
            out@ == old(self)@.output,
            final(self)@ == (VmState { output: Seq::<u8>::empty(), ..old(self)@ }),
            old(self).wf() ==> final(self).wf(),
    {
        let mut out: Vec<u8> = Vec::new();
        core::mem::swap(&mut out, &mut self.output);
        proof {
            assert(self@ =~= (VmState { output: Seq::<u8>::empty(), ..old(self)@ }));
        }
        out
    }
}

/// The backward balanced scan over the loaded code, over the positions
/// before `from`, with one closing tag already unmatched.
fn scan_backward(code: &Vec<Opcode>, from: usize, open: Opcode, close: Opcode) -> (r: Option<
    usize,
>)
    requires
        from < code@.len(),
        open != close,
    ensures
        opt_int(r) == find_backward(code@, open, close, from as int - 1, 1),
{
    let n = code.len();
    let mut j = from;
    let mut depth: usize = 1;
    while j > 0
        invariant
            n == code@.len(),
            j <= from < code@.len(),
            1 <= depth,
            depth <= 1 + from - j,
            find_backward(code@, open, close, from as int - 1, 1) == find_backward(
                code@,
                open,
                close,
                j as int - 1,
                depth as nat,
            ),
        decreases j,
    {
        j = j - 1;
        let op = code[j];
        if op == open {
            if depth == 1 {
                return Some(j);
            }
            depth = depth - 1;
        } else if op == close {
            depth = depth + 1;
        }
    }
    None
}

} // verus!
