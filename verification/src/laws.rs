use vstd::prelude::*;

use crate::blit::{
    cell_at, lemma_cell_at, lemma_wrap_roundtrip, spec_blit, spec_blit_collides, spec_sprite_bit,
    xor_bit,
};
use crate::fault::{Fault, StepOutcome};
use crate::isa::spec_decode;
use crate::semantics::{
    spec_call, spec_can_fetch, spec_fetched_word, spec_load_byte_to_register, spec_ret, spec_step,
};
use crate::state::{Machine, STACK_DEPTH};

verus! {

/// Loading an immediate into a register and then reading that register
/// gives the immediate back, for every register and every value.
pub proof fn lemma_load_immediate_get(s: Machine, x: int, kk: u8)
    requires
        s.wf(),
        0 <= x < 16,
    ensures
        spec_load_byte_to_register(s, x, kk).regs[x] == kk,
{
}

/// The machine after a run of nested subroutine calls at the given
/// addresses, first address first.
pub open spec fn spec_calls(s: Machine, addrs: Seq<u16>) -> Machine
    decreases addrs.len(),
{
    if addrs.len() == 0 {
        s
    } else {
        spec_calls(spec_call(s, addrs.first()), addrs.drop_first())
    }
}

/// The machine after `n` returns in a row.
pub open spec fn spec_rets(s: Machine, n: nat) -> Machine
    decreases n,
{
    if n == 0 {
        s
    } else {
        spec_ret(spec_rets(s, (n - 1) as nat))
    }
}

/// A return undoes a call: after calling a subroutine and returning
/// from it, the stack stands exactly as before and the program counter
/// is two bytes past the call instruction — the instruction after it.
pub proof fn lemma_ret_undoes_call(s: Machine, nnn: u16)
    ensures
        spec_ret(spec_call(s, nnn)) == (Machine { pc: (s.pc + 2) as u16, ..s }),
{
    assert(spec_call(s, nnn).stack.drop_last() =~= s.stack);
    assert(spec_ret(spec_call(s, nnn)) =~= (Machine { pc: (s.pc + 2) as u16, ..s }));
}

/// Call-stack correctness: any run of nested calls followed by as many
/// returns restores the call stack exactly and leaves the program
/// counter two bytes past the first call instruction — each return pops
/// the most recent call site, last in, first out. (The return that
/// arrives with an empty stack is not part of this run: the engine
/// reports `StackUnderflow` for it and touches nothing, as the `ret`
/// method's contract states.)
pub proof fn lemma_calls_then_returns(s: Machine, addrs: Seq<u16>)
    requires
        addrs.len() >= 1,
        s.stack.len() + addrs.len() <= STACK_DEPTH,
    ensures
        spec_rets(spec_calls(s, addrs), addrs.len()) == (Machine {
            pc: (s.pc + 2) as u16,
            ..s
        }),
    decreases addrs.len(),
{
    let s1 = spec_call(s, addrs.first());
    if addrs.len() == 1 {
        assert(spec_calls(s1, addrs.drop_first()) == s1);
        assert(spec_rets(spec_calls(s, addrs), 1) == spec_ret(s1));
        assert(s1.stack.drop_last() =~= s.stack);
        assert(spec_ret(s1) =~= (Machine { pc: (s.pc + 2) as u16, ..s }));
    } else {
        lemma_calls_then_returns(s1, addrs.drop_first());
        let n = addrs.len();
        let inner = spec_rets(spec_calls(s1, addrs.drop_first()), (n - 1) as nat);
        assert(inner == (Machine { pc: (s1.pc + 2) as u16, ..s1 }));
        assert(spec_rets(spec_calls(s, addrs), n) == spec_ret(inner));
        assert(inner.stack.last() == s.pc);
        assert(inner.stack.drop_last() =~= s.stack);
        assert(spec_ret(inner) =~= (Machine { pc: (s.pc + 2) as u16, ..s }));
    }
}

/// XOR-blit self-inverse: drawing the identical sprite at the identical
/// position twice in succession restores the framebuffer exactly, for
/// every sprite, position and height.
pub proof fn lemma_draw_twice_restores(d: Seq<u8>, mem: Seq<u8>, x0: int, y0: int, i: int, h: int)
    requires
        d.len() == 2048,
        forall|c: int| 0 <= c < 2048 ==> d[c] <= 1,
    ensures
        spec_blit(spec_blit(d, mem, x0, y0, i, h), mem, x0, y0, i, h) == d,
{
    let d1 = spec_blit(d, mem, x0, y0, i, h);
    let d2 = spec_blit(d1, mem, x0, y0, i, h);
    assert forall|c: int| 0 <= c < 2048 implies d2[c] == d[c] by {
        assert(xor_bit(xor_bit(d[c], 1), 1) == d[c]);
        assert(xor_bit(xor_bit(d[c], 0), 0) == d[c]);
    }
    assert(d2 =~= d);
}

/// The second of two identical draws reports a collision, provided some
/// sprite pixel that is 1 met an empty cell on the first draw. (That
/// proviso is needed: if every 1-pixel of the sprite met a full cell,
/// the first draw erases them all and the second collides nowhere.)
pub proof fn lemma_second_draw_collides(
    d: Seq<u8>,
    mem: Seq<u8>,
    x0: int,
    y0: int,
    i: int,
    h: int,
    r: int,
    b: int,
)
    requires
        d.len() == 2048,
        h <= 32,
        0 <= r < h,
        0 <= b < 8,
        spec_sprite_bit(mem[i + r], b) == 1,
        d[cell_at(x0 + b, y0 + r)] == 0,
    ensures
        spec_blit_collides(spec_blit(d, mem, x0, y0, i, h), mem, x0, y0, i, h),
{
    let d1 = spec_blit(d, mem, x0, y0, i, h);
    let c0 = cell_at(x0 + b, y0 + r);
    lemma_cell_at(x0 + b, y0 + r);
    lemma_wrap_roundtrip(y0, r, 32);
    lemma_wrap_roundtrip(x0, b, 64);
    assert(d1[c0] == 1);
    assert(spec_blit_collides(d1, mem, x0, y0, i, h));
}

/// An unknown opcode is reported and treated as a no-op: the machine is
/// unchanged but for the program counter, which advances normally past
/// the word, and the step reports `UnknownInstruction` with that word.
pub proof fn lemma_unknown_opcode(s: Machine, drawn: u8)
    requires
        s.halted is None,
        spec_can_fetch(s),
        spec_decode(spec_fetched_word(s)) is Unknown,
    ensures
        spec_step(s, drawn).0 == (Machine { pc: (s.pc + 2) as u16, ..s }),
        spec_step(s, drawn).1 == Ok::<StepOutcome, Fault>(
            StepOutcome::UnknownInstruction(spec_fetched_word(s)),
        ),
{
}

} // verus!
