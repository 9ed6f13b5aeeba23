use vstd::prelude::*;

verus! {

use crate::opcode::Opcode;
use crate::semantics::VmState;
use crate::semantics::bind_slot;
use crate::semantics::find_backward;
use crate::semantics::find_forward;
use crate::semantics::init_state;
use crate::semantics::is_final;
use crate::semantics::lemma_run_steps_wf;
use crate::semantics::lemma_step_preserves_wf;
use crate::semantics::run_steps;
use crate::semantics::slot_target;
use crate::semantics::vm_step;
use crate::semantics::wf_state;
use crate::semantics::wrap_dec;
use crate::semantics::wrap_inc;

/// Every instruction of `code` is a cursor move.
pub open spec fn moves_only(code: Seq<Opcode>) -> bool {
    forall|i: int|
        0 <= i < code.len() ==> (#[trigger] code[i]) == Opcode::Left || code[i] == Opcode::Right
}

/// Every cell of the tape is zero.
pub open spec fn tape_all_zero(s: VmState) -> bool {
    forall|i: int| 0 <= i < s.tape.len() ==> (#[trigger] s.tape[i]) == 0u8
}

/// Law: starting from the single-cell initial tape, any sequence of cursor
/// moves keeps the cursor a valid index, and every cell it has grown the
/// tape with is zero until something else writes to it: no step fails, the
/// invariant holds, and the whole tape stays zero.
pub proof fn lemma_moves_keep_tape_zero(code: Seq<Opcode>, n: nat)
    requires
        moves_only(code),
    ensures
        run_steps(init_state(code), n) matches Some(t) && wf_state(t) && tape_all_zero(t),
    decreases n,
{
    if n == 0 {
        assert(run_steps(init_state(code), n) == Some(init_state(code)));
        assert(tape_all_zero(init_state(code)));
    } else {
        lemma_moves_keep_tape_zero(code, (n - 1) as nat);
        lemma_run_steps_wf(init_state(code), (n - 1) as nat);
        let t = run_steps(init_state(code), (n - 1) as nat)->Some_0;
        if !is_final(t) {
            lemma_step_preserves_wf(t);
            let u = vm_step(t)->Some_0;
            match t.code[t.pc] {
                Opcode::Left => {
                    if t.cell == 0 {
                        assert forall|i: int| 0 <= i < u.tape.len() implies (#[trigger] u.tape[i])
                            == 0u8 by {
                            if i > 0 {
                                assert(u.tape[i] == t.tape[i - 1]);
                            }
                        }
                    }
                },
                Opcode::Right => {},
                _ => {},
            }
        }
    }
}

/// Incrementing a cell `n` times over.
pub open spec fn iter_inc(v: u8, n: nat) -> u8
    decreases n,
{
    if n == 0 {
        v
    } else {
        wrap_inc(iter_inc(v, (n - 1) as nat))
    }
}

/// Repeated increments walk the cell through the residues of its value
/// modulo 256.
pub proof fn lemma_iter_inc_mod(v: u8, n: nat)
    ensures
        iter_inc(v, n) as int == (v + n) % 256,
    decreases n,
{
    if n > 0 {
        lemma_iter_inc_mod(v, (n - 1) as nat);
        let prev = iter_inc(v, (n - 1) as nat);
        vstd::arithmetic::div_mod::lemma_add_mod_noop(v as int + n - 1, 1, 256);
    }
}

/// Law (round trip): incrementing a cell 256 times returns it to its
/// original value.
pub proof fn lemma_incr_round_trip(v: u8)
    ensures
        iter_inc(v, 256) == v,
{
    lemma_iter_inc_mod(v, 256);
    vstd::arithmetic::div_mod::lemma_mod_add_multiples_vanish(v as int, 256);
}

/// Every instruction of `code` is an increment.
pub open spec fn incr_only(code: Seq<Opcode>) -> bool {
    forall|i: int| 0 <= i < code.len() ==> (#[trigger] code[i]) == Opcode::Incr
}

/// Running the first `n` instructions of an increment-only program counts
/// the single cell up step by step.
pub proof fn lemma_incr_program_counts(code: Seq<Opcode>, n: nat)
    requires
        incr_only(code),
        n <= code.len(),
    ensures
        run_steps(init_state(code), n) == Some(
            (VmState { pc: n as int, tape: seq![iter_inc(0, n)], ..init_state(code) }),
        ),
    decreases n,
{
    if n == 0 {
        assert(init_state(code) =~= (VmState {
            pc: 0,
            tape: seq![iter_inc(0, 0)],
            ..init_state(code)
        }));
    } else {
        lemma_incr_program_counts(code, (n - 1) as nat);
        let t = run_steps(init_state(code), (n - 1) as nat)->Some_0;
        assert(!is_final(t));
        assert(run_steps(init_state(code), n) == vm_step(t)) by {
            assert((n - 1) as nat + 1 == n);
        }
        assert(t.tape.update(0, crate::semantics::wrap_inc(t.tape[0])) =~= seq![iter_inc(0, n)]);
        assert(vm_step(t)->Some_0 =~= (VmState {
            pc: n as int,
            tape: seq![iter_inc(0, n)],
            ..init_state(code)
        }));
    }
}

/// Law (round trip at the engine): a program of exactly 256 increments runs
/// to its end and leaves the cell at its starting value, zero.
pub proof fn lemma_incr_program_round_trip(code: Seq<Opcode>)
    requires
        incr_only(code),
        code.len() == 256,
    ensures
        run_steps(init_state(code), 256) matches Some(t) && is_final(t) && t.tape == seq![0u8],
{
    lemma_incr_program_counts(code, 256);
    lemma_incr_round_trip(0);
}

/// Law: byte arithmetic wraps at the ends — decrementing zero yields 255,
/// incrementing 255 yields zero.
pub proof fn lemma_wrap_at_ends()
    ensures
        wrap_dec(0) == 255u8,
        wrap_inc(255) == 0u8,
{
}

/// Law: a loop whose guard cell is zero on entry executes its body zero
/// times — the one step lands just past the matching `Until` and changes
/// nothing else.
pub proof fn lemma_while_zero_skips_body(s: VmState, m: int)
    requires
        wf_state(s),
        !is_final(s),
        s.code[s.pc] == Opcode::While,
        s.tape[s.cell] == 0,
        find_forward(s.code, Opcode::While, Opcode::Until, s.pc + 1, 1) == Some(m),
    ensures
        vm_step(s) == Some((VmState { pc: m + 1, ..s })),
{
}

/// Law: a loop whose guard cell is nonzero on entry falls into its body —
/// the one step advances to the next instruction and changes nothing else.
pub proof fn lemma_while_nonzero_enters_body(s: VmState)
    requires
        wf_state(s),
        !is_final(s),
        s.code[s.pc] == Opcode::While,
        s.tape[s.cell] != 0,
    ensures
        vm_step(s) == Some((VmState { pc: s.pc + 1, ..s })),
{
}

/// Law: a loop whose guard cell is still nonzero at its end jumps back to
/// just past the matching `While` — the guard opcode itself is not re-run —
/// and changes nothing else. The body repeats for as long as the guard cell
/// stays nonzero: liveness is preserved, never bounded by the engine.
pub proof fn lemma_until_nonzero_repeats_body(s: VmState, m: int)
    requires
        wf_state(s),
        !is_final(s),
        s.code[s.pc] == Opcode::Until,
        s.tape[s.cell] != 0,
        find_backward(s.code, Opcode::While, Opcode::Until, s.pc - 1, 1) == Some(m),
    ensures
        vm_step(s) == Some((VmState { pc: m + 1, ..s })),
{
}

/// Law: a loop whose guard cell has reached zero at its end falls out of
/// the loop and changes nothing else.
pub proof fn lemma_until_zero_leaves_loop(s: VmState)
    requires
        wf_state(s),
        !is_final(s),
        s.code[s.pc] == Opcode::Until,
        s.tape[s.cell] == 0,
    ensures
        vm_step(s) == Some((VmState { pc: s.pc + 1, ..s })),
{
}

/// Law: a definition consumes the current cell as the slot index, clears
/// it, binds the slot to the position just past the `Def`, and skips the
/// body; looking the slot up afterwards finds exactly that position.
pub proof fn lemma_def_binds_slot(s: VmState, m: int)
    requires
        wf_state(s),
        !is_final(s),
        s.code[s.pc] == Opcode::Def,
        find_forward(s.code, Opcode::Def, Opcode::End, s.pc + 1, 1) == Some(m),
    ensures
        vm_step(s) == Some(
            (VmState {
                tape: s.tape.update(s.cell, 0u8),
                jump: bind_slot(s.jump, s.tape[s.cell] as int, s.pc + 1),
                pc: m + 1,
                ..s
            }),
        ),
        slot_target(bind_slot(s.jump, s.tape[s.cell] as int, s.pc + 1), s.tape[s.cell] as int)
            == Some(s.pc + 1),
{
}

/// Law: calling a bound slot transfers control to the bound position,
/// pushes the return address, and the calling cell reads zero already at
/// that moment — before any instruction of the body has run.
pub proof fn lemma_call_bound_slot(s: VmState, t: int)
    requires
        wf_state(s),
        !is_final(s),
        s.code[s.pc] == Opcode::Call,
        slot_target(s.jump, s.tape[s.cell] as int) == Some(t),
    ensures
        vm_step(s) == Some(
            (VmState {
                tape: s.tape.update(s.cell, 0u8),
                link: s.link.push(s.pc + 1),
                pc: t,
                ..s
            }),
        ),
        vm_step(s)->Some_0.tape[s.cell] == 0u8,
        vm_step(s)->Some_0.pc == t,
{
}

/// Law: calling an unbound slot clears the current cell and nothing more —
/// the program counter advances to the next instruction and the call stack
/// does not grow.
pub proof fn lemma_call_unbound_slot(s: VmState)
    requires
        wf_state(s),
        !is_final(s),
        s.code[s.pc] == Opcode::Call,
        slot_target(s.jump, s.tape[s.cell] as int) is None,
    ensures
        vm_step(s) == Some((VmState { tape: s.tape.update(s.cell, 0u8), pc: s.pc + 1, ..s })),
        vm_step(s)->Some_0.link == s.link,
{
}

} // verus!
