use vstd::prelude::*;

verus! {

use crate::opcode::Opcode;

/// The mathematical model of the engine: everything the fetch-execute step
/// reads or writes, as plain mathematical values.
#[verifier::ext_equal]
pub ghost struct VmState {
    /// The loaded program, append-only.
    pub code: Seq<Opcode>,
    /// The byte cells visited so far, leftmost first.
    pub tape: Seq<u8>,
    /// The index of the current cell; always a valid index into `tape`.
    pub cell: int,
    /// The subroutine table: slot index to bound code position, `None` when unbound.
    pub jump: Seq<Option<int>>,
    /// The call stack of return addresses, most recent last.
    pub link: Seq<int>,
    /// The program counter.
    pub pc: int,
    /// The terminal state: a return was taken with no outer caller.
    pub halted: bool,
    /// The bytes the input source offers, in order.
    pub input: Seq<u8>,
    /// How many input bytes have been consumed.
    pub in_pos: int,
    /// The bytes written to the output sink so far.
    pub output: Seq<u8>,
}

/// The engine's invariant: the cursor addresses a real cell, the counters are
/// in range, and every saved or bound code position lies within the program.
pub open spec fn wf_state(s: VmState) -> bool {
    &&& 0 <= s.cell < s.tape.len()
    &&& 0 <= s.pc
    &&& 0 <= s.in_pos <= s.input.len()
    &&& forall|i: int| 0 <= i < s.link.len() ==> 0 <= #[trigger] s.link[i] <= s.code.len()
    &&& forall|i: int|
        0 <= i < s.jump.len() ==> ((#[trigger] s.jump[i]) matches Some(t) ==> 0 <= t
            <= s.code.len())
}

/// The state of a freshly loaded engine: the given program, a single zero
/// cell under the cursor, no bindings, no callers, nothing read or written.
pub open spec fn init_state(code: Seq<Opcode>) -> VmState {
    VmState {
        code,
        tape: seq![0u8],
        cell: 0,
        jump: Seq::empty(),
        link: Seq::empty(),
        pc: 0,
        halted: false,
        input: Seq::empty(),
        in_pos: 0,
        output: Seq::empty(),
    }
}

/// No instruction is left to execute: a top-level return was taken, or the
/// program counter ran past the end of the loaded code.
pub open spec fn is_final(s: VmState) -> bool {
    s.halted || s.pc >= s.code.len()
}

/// Incrementing a byte cell wraps above 255 to zero.
pub open spec fn wrap_inc(v: u8) -> u8 {
    if v == 255 {
        0
    } else {
        (v + 1) as u8
    }
}

/// Decrementing a byte cell wraps below zero to 255.
pub open spec fn wrap_dec(v: u8) -> u8 {
    if v == 0 {
        255
    } else {
        (v - 1) as u8
    }
}

/// The forward balanced scan: the position of the closing tag matching an
/// opening tag just before `i`, with `depth` openings still unmatched.
/// `None` when the scan runs off the end: the code is unbalanced.
pub open spec fn find_forward(
    code: Seq<Opcode>,
    open: Opcode,
    close: Opcode,
    i: int,
    depth: nat,
) -> Option<int>
    decreases code.len() - i,
{
    if i < 0 || i >= code.len() {
        None
    } else if code[i] == close {
        if depth <= 1 {
            Some(i)
        } else {
            find_forward(code, open, close, i + 1, (depth - 1) as nat)
        }
    } else if code[i] == open {
        find_forward(code, open, close, i + 1, depth + 1)
    } else {
        find_forward(code, open, close, i + 1, depth)
    }
}

/// The backward balanced scan: the position of the opening tag matching a
/// closing tag just after `j`, with `depth` closings still unmatched.
/// `None` when the scan runs off the front: the code is unbalanced.
pub open spec fn find_backward(
    code: Seq<Opcode>,
    open: Opcode,
    close: Opcode,
    j: int,
    depth: nat,
) -> Option<int>
    decreases j + 1,
{
    if j < 0 || j >= code.len() {
        None
    } else if code[j] == open {
        if depth <= 1 {
            Some(j)
        } else {
            find_backward(code, open, close, j - 1, (depth - 1) as nat)
        }
    } else if code[j] == close {
        find_backward(code, open, close, j - 1, depth + 1)
    } else {
        find_backward(code, open, close, j - 1, depth)
    }
}

/// The subroutine table after binding `slot` to `target`: the table grows
/// with unbound entries as far as needed, and the slot is overwritten.
pub open spec fn bind_slot(jump: Seq<Option<int>>, slot: int, target: int) -> Seq<Option<int>>
    recommends
        0 <= slot,
{
    let grown = if slot < jump.len() {
        jump
    } else {
        jump + Seq::new((slot + 1 - jump.len()) as nat, |i: int| None::<int>)
    };
    grown.update(slot, Some(target))
}

/// What a slot resolves to: its binding, or `None` for a slot never bound
/// (out of the table, or grown over but not written).
pub open spec fn slot_target(jump: Seq<Option<int>>, slot: int) -> Option<int> {
    if 0 <= slot < jump.len() {
        jump[slot]
    } else {
        None
    }
}

/// One fetch-execute step of the engine, on a state that is not final.
/// `None` is the fatal outcome: a balanced scan exhausted the program, so the
/// code was not well formed and no consistent jump exists.
pub open spec fn vm_step(s: VmState) -> Option<VmState>
    recommends
        wf_state(s),
        !is_final(s),
{
    let p = s.pc;
    let v = s.tape[s.cell];
    match s.code[p] {
        Opcode::Left => Some(
            if s.cell > 0 {
                VmState { cell: s.cell - 1, pc: p + 1, ..s }
            } else {
                VmState { tape: s.tape.insert(0, 0u8), pc: p + 1, ..s }
            },
        ),
        Opcode::Right => Some(
            if s.cell + 1 >= s.tape.len() {
                VmState { cell: s.cell + 1, tape: s.tape.push(0u8), pc: p + 1, ..s }
            } else {
                VmState { cell: s.cell + 1, pc: p + 1, ..s }
            },
        ),
        Opcode::Decr => Some(VmState { tape: s.tape.update(s.cell, wrap_dec(v)), pc: p + 1, ..s }),
        Opcode::Incr => Some(VmState { tape: s.tape.update(s.cell, wrap_inc(v)), pc: p + 1, ..s }),
        Opcode::Read => Some(
            if s.in_pos < s.input.len() {
                VmState {
                    tape: s.tape.update(s.cell, s.input[s.in_pos]),
                    in_pos: s.in_pos + 1,
                    pc: p + 1,
                    ..s
                }
            } else {
                VmState { tape: s.tape.update(s.cell, 0u8), pc: p + 1, ..s }
            },
        ),
        Opcode::Write => Some(VmState { output: s.output.push(v), pc: p + 1, ..s }),
        Opcode::While => if v == 0 {
            match find_forward(s.code, Opcode::While, Opcode::Until, p + 1, 1) {
                Some(m) => Some(VmState { pc: m + 1, ..s }),
                None => None,
            }
        } else {
            Some(VmState { pc: p + 1, ..s })
        },
        Opcode::Until => if v != 0 {
            match find_backward(s.code, Opcode::While, Opcode::Until, p - 1, 1) {
                Some(m) => Some(VmState { pc: m + 1, ..s }),
                None => None,
            }
        } else {
            Some(VmState { pc: p + 1, ..s })
        },
        Opcode::Def => match find_forward(s.code, Opcode::Def, Opcode::End, p + 1, 1) {
            Some(m) => Some(
                VmState {
                    tape: s.tape.update(s.cell, 0u8),
                    jump: bind_slot(s.jump, v as int, p + 1),
                    pc: m + 1,
                    ..s
                },
            ),
            None => None,
        },
        Opcode::End | Opcode::Ret => Some(
            if s.link.len() > 0 {
                VmState { pc: s.link.last(), link: s.link.drop_last(), ..s }
            } else {
                VmState { halted: true, pc: p + 1, ..s }
            },
        ),
        Opcode::Call => {
            let cleared = s.tape.update(s.cell, 0u8);
            match slot_target(s.jump, v as int) {
                Some(t) => Some(
                    VmState { tape: cleared, link: s.link.push(p + 1), pc: t, ..s },
                ),
                None => Some(VmState { tape: cleared, pc: p + 1, ..s }),
            }
        },
    }
}

/// The engine after `n` fetch-execute steps from `s`, stopping early at a
/// final state; `None` once any step hits the fatal outcome.
pub open spec fn run_steps(s: VmState, n: nat) -> Option<VmState>
    decreases n,
{
    if n == 0 {
        Some(s)
    } else {
        match run_steps(s, (n - 1) as nat) {
            Some(t) => if is_final(t) {
                Some(t)
            } else {
                vm_step(t)
            },
            None => None,
        }
    }
}

/// A forward scan that succeeds lands within the program, at or after where
/// it started.
pub proof fn lemma_find_forward_in_range(
    code: Seq<Opcode>,
    open: Opcode,
    close: Opcode,
    i: int,
    depth: nat,
)
    ensures
        find_forward(code, open, close, i, depth) matches Some(m) ==> i <= m < code.len(),
    decreases code.len() - i,
{
    if 0 <= i < code.len() {
        lemma_find_forward_in_range(code, open, close, i + 1, (depth - 1) as nat);
        lemma_find_forward_in_range(code, open, close, i + 1, depth + 1);
        lemma_find_forward_in_range(code, open, close, i + 1, depth);
    }
}

/// A backward scan that succeeds lands within the program, at or before
/// where it started.
pub proof fn lemma_find_backward_in_range(
    code: Seq<Opcode>,
    open: Opcode,
    close: Opcode,
    j: int,
    depth: nat,
)
    ensures
        find_backward(code, open, close, j, depth) matches Some(m) ==> 0 <= m <= j,
    decreases j + 1,
{
    if 0 <= j < code.len() {
        lemma_find_backward_in_range(code, open, close, j - 1, (depth - 1) as nat);
        lemma_find_backward_in_range(code, open, close, j - 1, depth + 1);
        lemma_find_backward_in_range(code, open, close, j - 1, depth);
    }
}

/// A successful step preserves the engine's invariant and never touches the
/// program or the input source.
pub proof fn lemma_step_preserves_wf(s: VmState)
    requires
        wf_state(s),
        !is_final(s),
    ensures
        vm_step(s) matches Some(t) ==> wf_state(t) && t.code == s.code && t.input == s.input,
{
    let p = s.pc;
    match s.code[p] {
        Opcode::While => {
            lemma_find_forward_in_range(s.code, Opcode::While, Opcode::Until, p + 1, 1);
        },
        Opcode::Until => {
            lemma_find_backward_in_range(s.code, Opcode::While, Opcode::Until, p - 1, 1);
        },
        Opcode::Def => {
            lemma_find_forward_in_range(s.code, Opcode::Def, Opcode::End, p + 1, 1);
        },
        _ => {},
    }
}

/// Any state reachable by running preserves the invariant, the program and
/// the input source.
pub proof fn lemma_run_steps_wf(s: VmState, n: nat)
    requires
        wf_state(s),
    ensures
        run_steps(s, n) matches Some(t) ==> wf_state(t) && t.code == s.code && t.input == s.input,
    decreases n,
{
    if n > 0 {
        lemma_run_steps_wf(s, (n - 1) as nat);
        match run_steps(s, (n - 1) as nat) {
            Some(t) => {
                if !is_final(t) {
                    lemma_step_preserves_wf(t);
                }
            },
            None => {},
        }
    }
}

/// Running one more step from a reached, non-final state is one application
/// of the step relation.
pub proof fn lemma_run_steps_extend(s: VmState, n: nat, t: VmState)
    requires
        run_steps(s, n) == Some(t),
        !is_final(t),
    ensures
        run_steps(s, n + 1) == vm_step(t),
{
    assert(run_steps(s, n + 1) == vm_step(t)) by {
        assert((n + 1 - 1) as nat == n);
    }
}

} // verus!
