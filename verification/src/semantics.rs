use vstd::prelude::*;

use crate::blit::{spec_blit, spec_blit_collides};
use crate::fault::{Fault, StepOutcome};
use crate::font::spec_font_byte;
use crate::isa::{spec_decode, Instruction};
use crate::state::Machine;

verus! {

/// The machine as it stands after construction: font table in low memory,
/// everything else zeroed, program counter at the load address.
pub open spec fn initial_machine() -> Machine {
    Machine {
        mem: Seq::new(4096, |i: int| if i < 80 { spec_font_byte(i) } else { 0u8 }),
        display: Seq::new(2048, |i: int| 0u8),
        stack: Seq::empty(),
        regs: Seq::new(16, |i: int| 0u8),
        index: 0,
        pc: 512,
        delay: 0,
        keys: Seq::new(16, |i: int| false),
        halted: None,
    }
}

/// The program counter moved past the instruction just executed.
pub open spec fn spec_advance(s: Machine) -> Machine {
    Machine { pc: (s.pc + 2) as u16, ..s }
}

/// The program counter moved past the instruction just executed and past
/// the one after it: a conditional skip that matched.
pub open spec fn spec_skip(s: Machine) -> Machine {
    Machine { pc: (s.pc + 4) as u16, ..s }
}

/// The machine halted by a fatal fault; nothing else changes.
pub open spec fn spec_halt(s: Machine, f: Fault) -> Machine {
    Machine { halted: Some(f), ..s }
}

/// `00E0`: every framebuffer cell becomes 0.
pub open spec fn spec_clear_screen(s: Machine) -> Machine {
    Machine { display: Seq::new(2048, |i: int| 0u8), pc: (s.pc + 2) as u16, ..s }
}

/// `00EE`: the program counter resumes two bytes past the address on top
/// of the stack, which is popped. Meaningful only for a non-empty stack;
/// the executable method reports `StackUnderflow` otherwise.
pub open spec fn spec_ret(s: Machine) -> Machine {
    Machine { pc: (s.stack.last() + 2) as u16, stack: s.stack.drop_last(), ..s }
}

/// `1nnn`: jump.
pub open spec fn spec_jump(s: Machine, nnn: u16) -> Machine {
    Machine { pc: nnn, ..s }
}

/// `2nnn`: the address of the call instruction is pushed and control moves
/// to `nnn`. Meaningful only below stack capacity; the executable method
/// reports `StackOverflow` otherwise.
pub open spec fn spec_call(s: Machine, nnn: u16) -> Machine {
    Machine { stack: s.stack.push(s.pc), pc: nnn, ..s }
}

/// `3xkk`: skip the next instruction if register `x` equals `kk`.
pub open spec fn spec_skip_equal(s: Machine, x: int, kk: u8) -> Machine {
    if s.regs[x] == kk {
        spec_skip(s)
    } else {
        spec_advance(s)
    }
}

/// `4xkk`: skip the next instruction if register `x` differs from `kk`.
pub open spec fn spec_skip_not_equal(s: Machine, x: int, kk: u8) -> Machine {
    if s.regs[x] != kk {
        spec_skip(s)
    } else {
        spec_advance(s)
    }
}

/// `5xy0`: skip the next instruction if registers `x` and `y` are equal.
pub open spec fn spec_skip_equal_registers(s: Machine, x: int, y: int) -> Machine {
    if s.regs[x] == s.regs[y] {
        spec_skip(s)
    } else {
        spec_advance(s)
    }
}

/// `9xy0`: skip the next instruction if registers `x` and `y` differ.
pub open spec fn spec_skip_not_equal_registers(s: Machine, x: int, y: int) -> Machine {
    if s.regs[x] != s.regs[y] {
        spec_skip(s)
    } else {
        spec_advance(s)
    }
}

/// `6xkk`: load the immediate into register `x`.
pub open spec fn spec_load_byte_to_register(s: Machine, x: int, kk: u8) -> Machine {
    Machine { regs: s.regs.update(x, kk), pc: (s.pc + 2) as u16, ..s }
}

/// `7xkk`: add the immediate into register `x`, wrapping modulo 256, with
/// no flag effect.
pub open spec fn spec_add_byte_to_register(s: Machine, x: int, kk: u8) -> Machine {
    Machine { regs: s.regs.update(x, ((s.regs[x] + kk) % 256) as u8), pc: (s.pc + 2) as u16, ..s }
}

/// `8xy0`: copy register `y` into register `x`.
pub open spec fn spec_load_register_to_register(s: Machine, x: int, y: int) -> Machine {
    Machine { regs: s.regs.update(x, s.regs[y]), pc: (s.pc + 2) as u16, ..s }
}

/// `8xy1`: bitwise OR into register `x`.
pub open spec fn spec_bitwise_or(s: Machine, x: int, y: int) -> Machine {
    Machine { regs: s.regs.update(x, s.regs[x] | s.regs[y]), pc: (s.pc + 2) as u16, ..s }
}

/// `8xy2`: bitwise AND into register `x`.
pub open spec fn spec_bitwise_and(s: Machine, x: int, y: int) -> Machine {
    Machine { regs: s.regs.update(x, s.regs[x] & s.regs[y]), pc: (s.pc + 2) as u16, ..s }
}

/// `8xy3`: bitwise XOR into register `x`.
pub open spec fn spec_bitwise_xor(s: Machine, x: int, y: int) -> Machine {
    Machine { regs: s.regs.update(x, s.regs[x] ^ s.regs[y]), pc: (s.pc + 2) as u16, ..s }
}

/// `8xy4`: add register `y` into `x`; the result wraps modulo 256 and the
/// flag register becomes 1 exactly when the true sum exceeds 255. The flag
/// is written after the result, so it wins when `x` is 15.
pub open spec fn spec_add_carryflag(s: Machine, x: int, y: int) -> Machine {
    let sum = s.regs[x] + s.regs[y];
    Machine {
        regs: s.regs.update(x, (sum % 256) as u8).update(15, if sum > 255 { 1u8 } else { 0u8 }),
        pc: (s.pc + 2) as u16,
        ..s
    }
}

/// `8xy5`: subtract register `y` from `x`; the result wraps modulo 256 and
/// the flag becomes 1 exactly when `x` exceeded `y` before subtracting.
pub open spec fn spec_subtract_registers(s: Machine, x: int, y: int) -> Machine {
    let diff = s.regs[x] + 256 - s.regs[y];
    Machine {
        regs: s.regs.update(x, ((diff % 256)) as u8).update(
            15,
            if s.regs[x] > s.regs[y] { 1u8 } else { 0u8 },
        ),
        pc: (s.pc + 2) as u16,
        ..s
    }
}

/// `8xy7`: register `x` becomes `y - x`, wrapping modulo 256; the flag
/// becomes 1 exactly when `y` exceeded `x`.
pub open spec fn spec_subtract_n_registers(s: Machine, x: int, y: int) -> Machine {
    let diff = s.regs[y] + 256 - s.regs[x];
    Machine {
        regs: s.regs.update(x, ((diff % 256)) as u8).update(
            15,
            if s.regs[y] > s.regs[x] { 1u8 } else { 0u8 },
        ),
        pc: (s.pc + 2) as u16,
        ..s
    }
}

/// `8xy6`: logical shift right of register `x`; the flag becomes the
/// evicted low bit.
pub open spec fn spec_rightshift_register(s: Machine, x: int) -> Machine {
    Machine {
        regs: s.regs.update(x, s.regs[x] / 2).update(15, s.regs[x] % 2),
        pc: (s.pc + 2) as u16,
        ..s
    }
}

/// `8xyE`: logical shift left of register `x`, wrapping modulo 256; the
/// flag becomes the evicted high bit.
pub open spec fn spec_leftshift_register(s: Machine, x: int) -> Machine {
    Machine {
        regs: s.regs.update(x, ((s.regs[x] * 2) % 256) as u8).update(15, s.regs[x] / 128),
        pc: (s.pc + 2) as u16,
        ..s
    }
}

/// `Annn`: load the address into the index register.
pub open spec fn spec_load_i_register(s: Machine, nnn: u16) -> Machine {
    Machine { index: nnn, pc: (s.pc + 2) as u16, ..s }
}

/// `Bnnn`: jump to `nnn` plus register 0. The sum is at most 4350, so it
/// does not wrap; a target outside memory halts the following fetch.
pub open spec fn spec_jump_addv0(s: Machine, nnn: u16) -> Machine {
    Machine { pc: (nnn + s.regs[0]) as u16, ..s }
}

/// `Cxkk`: register `x` becomes the drawn byte ANDed with `kk`. The drawn
/// byte is a parameter: the step relation holds for whatever byte the
/// generator produced.
pub open spec fn spec_random(s: Machine, x: int, drawn: u8, kk: u8) -> Machine {
    Machine { regs: s.regs.update(x, drawn & kk), pc: (s.pc + 2) as u16, ..s }
}

/// `Dxyn`: XOR-blit the `n`-row sprite at the index register to the point
/// named by registers `x` and `y`; the flag reports a collision.
/// Meaningful only when the sprite bytes lie inside memory; the executable
/// method reports `OutOfBounds` otherwise.
pub open spec fn spec_draw(s: Machine, x: int, y: int, n: int) -> Machine {
    let d = spec_blit(s.display, s.mem, s.regs[x] as int, s.regs[y] as int, s.index as int, n);
    let hit = spec_blit_collides(
        s.display,
        s.mem,
        s.regs[x] as int,
        s.regs[y] as int,
        s.index as int,
        n,
    );
    Machine {
        display: d,
        regs: s.regs.update(15, if hit { 1u8 } else { 0u8 }),
        pc: (s.pc + 2) as u16,
        ..s
    }
}

/// `Ex9E`: skip the next instruction if the key named by register `x` is
/// down. Meaningful only when that register holds a key number below 16;
/// the executable method reports `InvalidKey` otherwise.
pub open spec fn spec_skip_next_if_key_pressed(s: Machine, x: int) -> Machine {
    if s.keys[s.regs[x] as int] {
        spec_skip(s)
    } else {
        spec_advance(s)
    }
}

/// `ExA1`: skip the next instruction if the key named by register `x` is
/// up.
pub open spec fn spec_skip_next_if_key_not_pressed(s: Machine, x: int) -> Machine {
    if s.keys[s.regs[x] as int] {
        spec_advance(s)
    } else {
        spec_skip(s)
    }
}

/// `Fx07`: load the delay timer into register `x`.
pub open spec fn spec_load_delay_timer(s: Machine, x: int) -> Machine {
    Machine { regs: s.regs.update(x, s.delay), pc: (s.pc + 2) as u16, ..s }
}

/// `Fx15`: set the delay timer from register `x`.
pub open spec fn spec_set_delay_timer(s: Machine, x: int) -> Machine {
    Machine { delay: s.regs[x], pc: (s.pc + 2) as u16, ..s }
}

/// `Fx1E`: add register `x` into the index register, modulo 65536.
pub open spec fn spec_add_v_to_i_register(s: Machine, x: int) -> Machine {
    Machine { index: ((s.index + s.regs[x]) % 65536) as u16, pc: (s.pc + 2) as u16, ..s }
}

/// `Fx29`: point the index register at the five-byte font glyph for the
/// digit in register `x`.
pub open spec fn spec_load_hex_sprite(s: Machine, x: int) -> Machine {
    Machine { index: (5 * s.regs[x]) as u16, pc: (s.pc + 2) as u16, ..s }
}

/// `Fx33`: write the hundreds, tens and ones digits of register `x` at
/// the index register. Meaningful only when all three addresses lie inside
/// memory; the executable method reports `OutOfBounds` otherwise.
pub open spec fn spec_store_bcd(s: Machine, x: int) -> Machine {
    let v = s.regs[x];
    let i = s.index as int;
    Machine {
        mem: s.mem.update(i, v / 100).update(i + 1, (v / 10) % 10).update(i + 2, v % 10),
        pc: (s.pc + 2) as u16,
        ..s
    }
}

/// `Fx55`: store registers `0..=x` — all of `x + 1` of them — to memory
/// at the index register. Meaningful only when the whole range lies inside
/// memory; the executable method reports `OutOfBounds` otherwise.
pub open spec fn spec_load_registers_to_memory(s: Machine, x: int) -> Machine {
    let i = s.index as int;
    Machine {
        mem: Seq::new(
            4096,
            |j: int| if i <= j <= i + x { s.regs[j - i] } else { s.mem[j] },
        ),
        pc: (s.pc + 2) as u16,
        ..s
    }
}

/// `Fx65`: load registers `0..=x` — all of `x + 1` of them — from memory
/// at the index register.
pub open spec fn spec_read_memory_to_register(s: Machine, x: int) -> Machine {
    let i = s.index as int;
    Machine {
        regs: Seq::new(16, |j: int| if j <= x { s.mem[i + j] } else { s.regs[j] }),
        pc: (s.pc + 2) as u16,
        ..s
    }
}

/// Whether both bytes of the instruction at the program counter lie
/// inside memory.
pub open spec fn spec_can_fetch(s: Machine) -> bool {
    s.pc + 1 < 4096
}

/// The big-endian instruction word at the program counter.
pub open spec fn spec_fetched_word(s: Machine) -> u16 {
    (s.mem[s.pc as int] * 256 + s.mem[s.pc as int + 1]) as u16
}

/// One whole step of the engine: fetch, decode, execute, advance. The
/// result pairs the machine after the step with what the step reports.
///
/// `drawn` is the byte the random generator produced; every instruction
/// except `Cxkk` ignores it.
pub open spec fn spec_step(s: Machine, drawn: u8) -> (Machine, Result<StepOutcome, Fault>) {
    if s.halted is Some {
        (s, Err(s.halted.unwrap()))
    } else if !spec_can_fetch(s) {
        (spec_halt(s, Fault::OutOfBounds), Err(Fault::OutOfBounds))
    } else {
        let w = spec_fetched_word(s);
        let ok = Ok::<StepOutcome, Fault>(StepOutcome::Executed);
        match spec_decode(w) {
            Instruction::ClearScreen => (spec_clear_screen(s), ok),
            Instruction::Return => if s.stack.len() == 0 {
                (spec_halt(s, Fault::StackUnderflow), Err(Fault::StackUnderflow))
            } else {
                (spec_ret(s), ok)
            },
            Instruction::Jump(nnn) => (spec_jump(s, nnn), ok),
            Instruction::Call(nnn) => if s.stack.len() >= 16 {
                (spec_halt(s, Fault::StackOverflow), Err(Fault::StackOverflow))
            } else {
                (spec_call(s, nnn), ok)
            },
            Instruction::SkipEqImm(x, kk) => (spec_skip_equal(s, x as int, kk), ok),
            Instruction::SkipNeImm(x, kk) => (spec_skip_not_equal(s, x as int, kk), ok),
            Instruction::SkipEqReg(x, y) => (spec_skip_equal_registers(s, x as int, y as int), ok),
            Instruction::SkipNeReg(x, y) => (
                spec_skip_not_equal_registers(s, x as int, y as int),
                ok,
            ),
            Instruction::LoadImm(x, kk) => (spec_load_byte_to_register(s, x as int, kk), ok),
            Instruction::AddImm(x, kk) => (spec_add_byte_to_register(s, x as int, kk), ok),
            Instruction::Move(x, y) => (spec_load_register_to_register(s, x as int, y as int), ok),
            Instruction::Or(x, y) => (spec_bitwise_or(s, x as int, y as int), ok),
            Instruction::And(x, y) => (spec_bitwise_and(s, x as int, y as int), ok),
            Instruction::Xor(x, y) => (spec_bitwise_xor(s, x as int, y as int), ok),
            Instruction::AddCarry(x, y) => (spec_add_carryflag(s, x as int, y as int), ok),
            Instruction::SubBorrow(x, y) => (spec_subtract_registers(s, x as int, y as int), ok),
            Instruction::ShiftRight(x) => (spec_rightshift_register(s, x as int), ok),
            Instruction::SubReverse(x, y) => (spec_subtract_n_registers(s, x as int, y as int), ok),
            Instruction::ShiftLeft(x) => (spec_leftshift_register(s, x as int), ok),
            Instruction::LoadIndex(nnn) => (spec_load_i_register(s, nnn), ok),
            Instruction::JumpPlusV0(nnn) => (spec_jump_addv0(s, nnn), ok),
            Instruction::Random(x, kk) => (spec_random(s, x as int, drawn, kk), ok),
            Instruction::Draw(x, y, n) => if s.index + n > 4096 {
                (spec_halt(s, Fault::OutOfBounds), Err(Fault::OutOfBounds))
            } else {
                (spec_draw(s, x as int, y as int, n as int), ok)
            },
            Instruction::SkipKeyDown(x) => if s.regs[x as int] >= 16 {
                (spec_halt(s, Fault::InvalidKey), Err(Fault::InvalidKey))
            } else {
                (spec_skip_next_if_key_pressed(s, x as int), ok)
            },
            Instruction::SkipKeyUp(x) => if s.regs[x as int] >= 16 {
                (spec_halt(s, Fault::InvalidKey), Err(Fault::InvalidKey))
            } else {
                (spec_skip_next_if_key_not_pressed(s, x as int), ok)
            },
            Instruction::LoadDelay(x) => (spec_load_delay_timer(s, x as int), ok),
            Instruction::SetDelay(x) => (spec_set_delay_timer(s, x as int), ok),
            Instruction::AddIndex(x) => (spec_add_v_to_i_register(s, x as int), ok),
            Instruction::LoadFont(x) => (spec_load_hex_sprite(s, x as int), ok),
            Instruction::StoreBcd(x) => if s.index + 3 > 4096 {
                (spec_halt(s, Fault::OutOfBounds), Err(Fault::OutOfBounds))
            } else {
                (spec_store_bcd(s, x as int), ok)
            },
            Instruction::StoreRegs(x) => if s.index + x + 1 > 4096 {
                (spec_halt(s, Fault::OutOfBounds), Err(Fault::OutOfBounds))
            } else {
                (spec_load_registers_to_memory(s, x as int), ok)
            },
            Instruction::LoadRegs(x) => if s.index + x + 1 > 4096 {
                (spec_halt(s, Fault::OutOfBounds), Err(Fault::OutOfBounds))
            } else {
                (spec_read_memory_to_register(s, x as int), ok)
            },
            Instruction::Unknown(word) => (
                spec_advance(s),
                Ok(StepOutcome::UnknownInstruction(word)),
            ),
        }
    }
}

} // verus!
