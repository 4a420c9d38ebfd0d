use vstd::pervasive::VecAdditionalExecFns;
use vstd::prelude::*;

use crate::blit::{
    lemma_blit_finish, lemma_blit_row_roll, lemma_blit_start, lemma_blit_step,
    lemma_collides_step, spec_blit_upto, spec_collides_upto, sprite_bit,
};
use crate::fault::{Fault, StepOutcome};
use crate::font::{glyph_row, spec_font_byte};
use crate::isa::{decode, Instruction};
use crate::semantics::{
    initial_machine, spec_add_byte_to_register, spec_add_carryflag, spec_add_v_to_i_register,
    spec_bitwise_and, spec_bitwise_or, spec_bitwise_xor, spec_call, spec_clear_screen, spec_jump,
    spec_jump_addv0, spec_leftshift_register, spec_load_byte_to_register, spec_load_delay_timer,
    spec_draw, spec_load_hex_sprite, spec_load_i_register, spec_load_register_to_register,
    spec_load_registers_to_memory, spec_random, spec_read_memory_to_register, spec_ret,
    spec_rightshift_register, spec_set_delay_timer, spec_skip_equal, spec_skip_equal_registers,
    spec_skip_next_if_key_not_pressed, spec_skip_next_if_key_pressed, spec_skip_not_equal,
    spec_skip_not_equal_registers, spec_step, spec_store_bcd, spec_subtract_n_registers,
    spec_subtract_registers,
};
use crate::state::{
    Machine, DISPLAY_CELLS, DISPLAY_HEIGHT, DISPLAY_WIDTH, FONT_BYTES, LOAD_ADDRESS, MEM_SIZE,
    NUM_KEYS, NUM_REGISTERS, STACK_DEPTH,
};

verus! {

/// The whole machine: memory, registers, call stack, framebuffer, delay
/// timer and keypad, owned as one value so independent instances can
/// coexist.
///
/// Every method's contract is stated over the [`Machine`] view `self@`.
/// A well-formed processor stays well-formed: constructors establish
/// `self@.wf()` and every method preserves it.
pub struct Processor {
    memory: Vec<u8>,
    display: Vec<u8>,
    stack: Vec<u16>,
    v_register: Vec<u8>,
    i_register: u16,
    pc: u16,
    delay_timer: u8,
    keys: Vec<bool>,
    halted: Option<Fault>,
}

impl View for Processor {
    type V = Machine;

    closed spec fn view(&self) -> Machine {
        Machine {
            mem: self.memory@,
            display: self.display@,
            stack: self.stack@,
            regs: self.v_register@,
            index: self.i_register,
            pc: self.pc,
            delay: self.delay_timer,
            keys: self.keys@,
            halted: self.halted,
        }
    }
}

impl Processor {
    /// A fresh machine: memory zeroed but for the font table, registers
    /// and framebuffer zeroed, stack empty, program counter at the load
    /// address.
    pub fn new() -> (p: Processor)
        ensures
            p@ == initial_machine(),
            p@.wf(),
    {
        let mut p = Processor {
            memory: vec![0u8; MEM_SIZE],
            display: vec![0u8; DISPLAY_CELLS],
            stack: Vec::new(),
            v_register: vec![0u8; NUM_REGISTERS],
            i_register: 0,
            pc: LOAD_ADDRESS as u16,
            delay_timer: 0,
            keys: vec![false; NUM_KEYS],
            halted: None,
        };
        p.load_font_table();
        proof {
            assert(p@ =~= initial_machine());
        }
        p
    }

    /// Write the 80-byte glyph table into the reserved low region of
    /// memory; the rest of the machine is untouched.
    pub fn load_font_table(&mut self)
        requires
            old(self)@.wf(),
        ensures
            final(self)@.wf(),
            forall|j: int| 0 <= j < FONT_BYTES ==> final(self)@.mem[j] == spec_font_byte(j),
            forall|j: int|
                FONT_BYTES <= j < MEM_SIZE ==> final(self)@.mem[j] == old(self)@.mem[j],
            final(self)@ == (Machine { mem: final(self)@.mem, ..old(self)@ }),
    {
        let mut k: usize = 0;
        while k < FONT_BYTES
            invariant
                k <= FONT_BYTES,
                self.memory@.len() == MEM_SIZE,
                forall|j: int| 0 <= j < k ==> self.memory@[j] == spec_font_byte(j),
                forall|j: int| k <= j < MEM_SIZE ==> self.memory@[j] == old(self)@.mem[j],
                self@ == (Machine { mem: self.memory@, ..old(self)@ }),
            decreases FONT_BYTES - k,
        {
            let d = (k / 5) as u8;
            let r = (k % 5) as u8;
            self.memory.set(k, glyph_row(d, r));
            k += 1;
        }
    }

    /// Copy a program image into memory starting at the load address.
    /// An image that would run past the end of memory is rejected whole.
    pub fn load_program(&mut self, program: &Vec<u8>) -> (r: Result<(), Fault>)
        requires
            old(self)@.wf(),
        ensures
            final(self)@.wf(),
            LOAD_ADDRESS + program@.len() > MEM_SIZE ==> r == Err::<(), Fault>(
                Fault::ProgramTooLarge,
            ) && final(self)@ == old(self)@,
            LOAD_ADDRESS + program@.len() <= MEM_SIZE ==> {
                &&& r == Ok::<(), Fault>(())
                &&& forall|j: int|
                    0 <= j < program@.len() ==> final(self)@.mem[LOAD_ADDRESS + j] == program@[j]
                &&& forall|j: int|
                    (0 <= j < LOAD_ADDRESS || LOAD_ADDRESS + program@.len() <= j < MEM_SIZE)
                        ==> final(self)@.mem[j] == old(self)@.mem[j]
                &&& final(self)@ == (Machine { mem: final(self)@.mem, ..old(self)@ })
            },
    {
        if program.len() > MEM_SIZE - LOAD_ADDRESS {
            return Err(Fault::ProgramTooLarge);
        }
        let mut k: usize = 0;
        while k < program.len()
            invariant
                k <= program@.len(),
                LOAD_ADDRESS + program@.len() <= MEM_SIZE,
                self.memory@.len() == MEM_SIZE,
                forall|j: int| 0 <= j < k ==> self.memory@[LOAD_ADDRESS + j] == program@[j],
                forall|j: int|
                    (0 <= j < LOAD_ADDRESS || LOAD_ADDRESS + k <= j < MEM_SIZE)
                        ==> self.memory@[j] == old(self)@.mem[j],
                self@ == (Machine { mem: self.memory@, ..old(self)@ }),
            decreases program@.len() - k,
        {
            self.memory.set(LOAD_ADDRESS + k, program[k]);
            k += 1;
        }
        Ok(())
    }

    /// The byte at `addr`, or `OutOfBounds` past the end of memory.
    pub fn read(&self, addr: u16) -> (r: Result<u8, Fault>)
        requires
            self@.wf(),
        ensures
            addr < MEM_SIZE ==> r == Ok::<u8, Fault>(self@.mem[addr as int]),
            addr >= MEM_SIZE ==> r == Err::<u8, Fault>(Fault::OutOfBounds),
    {
        if (addr as usize) < MEM_SIZE {
            Ok(self.memory[addr as usize])
        } else {
            Err(Fault::OutOfBounds)
        }
    }

    /// Store a byte at `addr`, or `OutOfBounds` past the end of memory.
    pub fn write(&mut self, addr: u16, value: u8) -> (r: Result<(), Fault>)
        requires
            old(self)@.wf(),
        ensures
            final(self)@.wf(),
            addr < MEM_SIZE ==> r == Ok::<(), Fault>(()) && final(self)@ == (Machine {
                mem: old(self)@.mem.update(addr as int, value),
                ..old(self)@
            }),
            addr >= MEM_SIZE ==> r == Err::<(), Fault>(Fault::OutOfBounds) && final(self)@ == old(
                self,
            )@,
    {
        if (addr as usize) < MEM_SIZE {
            self.memory.set(addr as usize, value);
            Ok(())
        } else {
            Err(Fault::OutOfBounds)
        }
    }

    /// General-purpose register `x`, or `InvalidRegister` for `x >= 16`.
    pub fn get_register(&self, x: u8) -> (r: Result<u8, Fault>)
        requires
            self@.wf(),
        ensures
            x < NUM_REGISTERS ==> r == Ok::<u8, Fault>(self@.regs[x as int]),
            x >= NUM_REGISTERS ==> r == Err::<u8, Fault>(Fault::InvalidRegister),
    {
        if (x as usize) < NUM_REGISTERS {
            Ok(self.v_register[x as usize])
        } else {
            Err(Fault::InvalidRegister)
        }
    }

    /// Set general-purpose register `x`, or `InvalidRegister` for
    /// `x >= 16`.
    pub fn set_register(&mut self, x: u8, value: u8) -> (r: Result<(), Fault>)
        requires
            old(self)@.wf(),
        ensures
            final(self)@.wf(),
            x < NUM_REGISTERS ==> r == Ok::<(), Fault>(()) && final(self)@ == (Machine {
                regs: old(self)@.regs.update(x as int, value),
                ..old(self)@
            }),
            x >= NUM_REGISTERS ==> r == Err::<(), Fault>(Fault::InvalidRegister) && final(self)@
                == old(self)@,
    {
        if (x as usize) < NUM_REGISTERS {
            self.v_register.set(x as usize, value);
            Ok(())
        } else {
            Err(Fault::InvalidRegister)
        }
    }

    /// The index register.
    pub fn get_index(&self) -> (r: u16)
        ensures
            r == self@.index,
    {
        self.i_register
    }

    /// Set the index register.
    pub fn set_index(&mut self, value: u16)
        requires
            old(self)@.wf(),
        ensures
            final(self)@.wf(),
            final(self)@ == (Machine { index: value, ..old(self)@ }),
    {
        self.i_register = value;
    }

    /// The program counter.
    pub fn program_counter(&self) -> (r: u16)
        ensures
            r == self@.pc,
    {
        self.pc
    }

    /// The fault that halted the machine, or `None` while it is ready.
    pub fn halt_reason(&self) -> (r: Option<Fault>)
        ensures
            r == self@.halted,
    {
        self.halted
    }

    /// The delay timer.
    pub fn get_delay(&self) -> (r: u8)
        ensures
            r == self@.delay,
    {
        self.delay_timer
    }

    /// Set the delay timer.
    pub fn set_delay(&mut self, value: u8)
        requires
            old(self)@.wf(),
        ensures
            final(self)@.wf(),
            final(self)@ == (Machine { delay: value, ..old(self)@ }),
    {
        self.delay_timer = value;
    }

    /// One tick of the fixed-rate timer discipline: the delay counter
    /// drops by one and saturates at zero. The host calls this on its own
    /// schedule, independent of instruction stepping.
    pub fn tick_delay(&mut self)
        requires
            old(self)@.wf(),
        ensures
            final(self)@.wf(),
            final(self)@ == (Machine {
                delay: if old(self)@.delay > 0 {
                    (old(self)@.delay - 1) as u8
                } else {
                    0u8
                },
                ..old(self)@
            }),
    {
        if self.delay_timer > 0 {
            self.delay_timer = self.delay_timer - 1;
        }
    }

    /// Whether key `key` is held down, or `InvalidKey` for `key >= 16`.
    pub fn is_down(&self, key: u8) -> (r: Result<bool, Fault>)
        requires
            self@.wf(),
        ensures
            key < NUM_KEYS ==> r == Ok::<bool, Fault>(self@.keys[key as int]),
            key >= NUM_KEYS ==> r == Err::<bool, Fault>(Fault::InvalidKey),
    {
        if (key as usize) < NUM_KEYS {
            Ok(self.keys[key as usize])
        } else {
            Err(Fault::InvalidKey)
        }
    }

    /// Record a key transition from the input collaborator, or
    /// `InvalidKey` for `key >= 16`.
    pub fn set_down(&mut self, key: u8, pressed: bool) -> (r: Result<(), Fault>)
        requires
            old(self)@.wf(),
        ensures
            final(self)@.wf(),
            key < NUM_KEYS ==> r == Ok::<(), Fault>(()) && final(self)@ == (Machine {
                keys: old(self)@.keys.update(key as int, pressed),
                ..old(self)@
            }),
            key >= NUM_KEYS ==> r == Err::<(), Fault>(Fault::InvalidKey) && final(self)@ == old(
                self,
            )@,
    {
        if (key as usize) < NUM_KEYS {
            self.keys.set(key as usize, pressed);
            Ok(())
        } else {
            Err(Fault::InvalidKey)
        }
    }

    /// Framebuffer cell at column `col`, row `row` (0 or 1), or
    /// `OutOfBounds` outside the 64x32 grid. This is the renderer
    /// collaborator's read access to the bit grid.
    pub fn pixel(&self, col: u8, row: u8) -> (r: Result<u8, Fault>)
        requires
            self@.wf(),
        ensures
            col < DISPLAY_WIDTH && row < DISPLAY_HEIGHT ==> r == Ok::<u8, Fault>(
                self@.display[col + row * DISPLAY_WIDTH],
            ),
            !(col < DISPLAY_WIDTH && row < DISPLAY_HEIGHT) ==> r == Err::<u8, Fault>(
                Fault::OutOfBounds,
            ),
    {
        if (col as usize) < DISPLAY_WIDTH && (row as usize) < DISPLAY_HEIGHT {
            Ok(self.display[col as usize + row as usize * DISPLAY_WIDTH])
        } else {
            Err(Fault::OutOfBounds)
        }
    }

    /// Push a return address, or `StackOverflow` at capacity.
    pub fn push(&mut self, addr: u16) -> (r: Result<(), Fault>)
        requires
            old(self)@.wf(),
            addr + 2 <= MEM_SIZE,
        ensures
            final(self)@.wf(),
            old(self)@.stack.len() >= STACK_DEPTH ==> r == Err::<(), Fault>(Fault::StackOverflow)
                && final(self)@ == old(self)@,
            old(self)@.stack.len() < STACK_DEPTH ==> r == Ok::<(), Fault>(()) && final(self)@
                == (Machine { stack: old(self)@.stack.push(addr), ..old(self)@ }),
    {
        if self.stack.len() >= STACK_DEPTH {
            Err(Fault::StackOverflow)
        } else {
            self.stack.push(addr);
            Ok(())
        }
    }

    /// Pop the most recent return address, or `StackUnderflow` when the
    /// stack is empty — never a wrapped pointer into unrelated state.
    pub fn pop(&mut self) -> (r: Result<u16, Fault>)
        requires
            old(self)@.wf(),
        ensures
            final(self)@.wf(),
            old(self)@.stack.len() == 0 ==> r == Err::<u16, Fault>(Fault::StackUnderflow)
                && final(self)@ == old(self)@,
            old(self)@.stack.len() > 0 ==> r == Ok::<u16, Fault>(old(self)@.stack.last())
                && final(self)@ == (Machine { stack: old(self)@.stack.drop_last(), ..old(self)@ }),
    {
        match self.stack.pop() {
            Some(addr) => Ok(addr),
            None => Err(Fault::StackUnderflow),
        }
    }
}

/// Relies on rand::random: draws one byte from the thread-local generator.
/// Nothing can be promised of the value, so the contract is empty; callers
/// state what holds of every outcome.
#[verifier::external_body]
fn random_byte() -> u8 {
    rand::random::<u8>()
}

impl Processor {
    /// `00E0`: clear the framebuffer.
    pub fn clear_screen(&mut self)
        requires
            old(self)@.wf(),
            old(self)@.pc + 2 < 0x10000,
        ensures
            final(self)@.wf(),
            final(self)@ == spec_clear_screen(old(self)@),
    {
        self.display = vec![0u8; DISPLAY_CELLS];
        self.pc = self.pc + 2;
        proof {
            assert(self@ =~= spec_clear_screen(old(self)@));
        }
    }

    /// `00EE`: return from a subroutine. With an empty stack this reports
    /// `StackUnderflow` and leaves the machine unchanged.
    pub fn ret(&mut self) -> (r: Result<(), Fault>)
        requires
            old(self)@.wf(),
        ensures
            final(self)@.wf(),
            old(self)@.stack.len() == 0 ==> r == Err::<(), Fault>(Fault::StackUnderflow)
                && final(self)@ == old(self)@,
            old(self)@.stack.len() > 0 ==> r == Ok::<(), Fault>(()) && final(self)@ == spec_ret(
                old(self)@,
            ),
    {
        match self.stack.pop() {
            Some(addr) => {
                self.pc = addr + 2;
                proof {
                    assert(self@ =~= spec_ret(old(self)@));
                }
                Ok(())
            },
            None => Err(Fault::StackUnderflow),
        }
    }

    /// `1nnn`: jump.
    pub fn jump(&mut self, nnn: u16)
        requires
            old(self)@.wf(),
        ensures
            final(self)@.wf(),
            final(self)@ == spec_jump(old(self)@, nnn),
    {
        self.pc = nnn;
    }

    /// `2nnn`: call the subroutine at `nnn`. At stack capacity this
    /// reports `StackOverflow` and leaves the machine unchanged.
    pub fn call(&mut self, nnn: u16) -> (r: Result<(), Fault>)
        requires
            old(self)@.wf(),
            old(self)@.pc + 2 <= MEM_SIZE,
        ensures
            final(self)@.wf(),
            old(self)@.stack.len() >= STACK_DEPTH ==> r == Err::<(), Fault>(Fault::StackOverflow)
                && final(self)@ == old(self)@,
            old(self)@.stack.len() < STACK_DEPTH ==> r == Ok::<(), Fault>(()) && final(self)@
                == spec_call(old(self)@, nnn),
    {
        if self.stack.len() >= STACK_DEPTH {
            Err(Fault::StackOverflow)
        } else {
            let here = self.pc;
            self.stack.push(here);
            self.pc = nnn;
            Ok(())
        }
    }

    /// `3xkk`: skip the next instruction if register `x` equals `kk`.
    pub fn skip_equal(&mut self, x: u8, kk: u8)
        requires
            old(self)@.wf(),
            x < NUM_REGISTERS,
            old(self)@.pc + 4 < 0x10000,
        ensures
            final(self)@.wf(),
            final(self)@ == spec_skip_equal(old(self)@, x as int, kk),
    {
        if self.v_register[x as usize] == kk {
            self.pc = self.pc + 4;
        } else {
            self.pc = self.pc + 2;
        }
    }

    /// `4xkk`: skip the next instruction if register `x` differs from
    /// `kk`.
    pub fn skip_not_equal(&mut self, x: u8, kk: u8)
        requires
            old(self)@.wf(),
            x < NUM_REGISTERS,
            old(self)@.pc + 4 < 0x10000,
        ensures
            final(self)@.wf(),
            final(self)@ == spec_skip_not_equal(old(self)@, x as int, kk),
    {
        if self.v_register[x as usize] != kk {
            self.pc = self.pc + 4;
        } else {
            self.pc = self.pc + 2;
        }
    }

    /// `5xy0`: skip the next instruction if registers `x` and `y` are
    /// equal.
    pub fn skip_equal_registers(&mut self, x: u8, y: u8)
        requires
            old(self)@.wf(),
            x < NUM_REGISTERS,
            y < NUM_REGISTERS,
            old(self)@.pc + 4 < 0x10000,
        ensures
            final(self)@.wf(),
            final(self)@ == spec_skip_equal_registers(old(self)@, x as int, y as int),
    {
        if self.v_register[x as usize] == self.v_register[y as usize] {
            self.pc = self.pc + 4;
        } else {
            self.pc = self.pc + 2;
        }
    }

    /// `9xy0`: skip the next instruction if registers `x` and `y` differ.
    pub fn skip_not_equal_registers(&mut self, x: u8, y: u8)
        requires
            old(self)@.wf(),
            x < NUM_REGISTERS,
            y < NUM_REGISTERS,
            old(self)@.pc + 4 < 0x10000,
        ensures
            final(self)@.wf(),
            final(self)@ == spec_skip_not_equal_registers(old(self)@, x as int, y as int),
    {
        if self.v_register[x as usize] != self.v_register[y as usize] {
            self.pc = self.pc + 4;
        } else {
            self.pc = self.pc + 2;
        }
    }

    /// `6xkk`: load the immediate into register `x`.
    pub fn load_byte_to_register(&mut self, x: u8, kk: u8)
        requires
            old(self)@.wf(),
            x < NUM_REGISTERS,
            old(self)@.pc + 2 < 0x10000,
        ensures
            final(self)@.wf(),
            final(self)@ == spec_load_byte_to_register(old(self)@, x as int, kk),
    {
        self.v_register.set(x as usize, kk);
        self.pc = self.pc + 2;
    }

    /// `7xkk`: add the immediate into register `x`, wrapping, with no
    /// flag effect.
    pub fn add_byte_to_register(&mut self, x: u8, kk: u8)
        requires
            old(self)@.wf(),
            x < NUM_REGISTERS,
            old(self)@.pc + 2 < 0x10000,
        ensures
            final(self)@.wf(),
            final(self)@ == spec_add_byte_to_register(old(self)@, x as int, kk),
    {
        let sum = self.v_register[x as usize] as u16 + kk as u16;
        self.v_register.set(x as usize, (sum % 256) as u8);
        self.pc = self.pc + 2;
    }

    /// `8xy0`: copy register `y` into register `x`.
    pub fn load_register_to_register(&mut self, x: u8, y: u8)
        requires
            old(self)@.wf(),
            x < NUM_REGISTERS,
            y < NUM_REGISTERS,
            old(self)@.pc + 2 < 0x10000,
        ensures
            final(self)@.wf(),
            final(self)@ == spec_load_register_to_register(old(self)@, x as int, y as int),
    {
        let value = self.v_register[y as usize];
        self.v_register.set(x as usize, value);
        self.pc = self.pc + 2;
    }

    /// `8xy1`: bitwise OR into register `x`.
    pub fn bitwise_or(&mut self, x: u8, y: u8)
        requires
            old(self)@.wf(),
            x < NUM_REGISTERS,
            y < NUM_REGISTERS,
            old(self)@.pc + 2 < 0x10000,
        ensures
            final(self)@.wf(),
            final(self)@ == spec_bitwise_or(old(self)@, x as int, y as int),
    {
        let value = self.v_register[x as usize] | self.v_register[y as usize];
        self.v_register.set(x as usize, value);
        self.pc = self.pc + 2;
    }

    /// `8xy2`: bitwise AND into register `x`.
    pub fn bitwise_and(&mut self, x: u8, y: u8)
        requires
            old(self)@.wf(),
            x < NUM_REGISTERS,
            y < NUM_REGISTERS,
            old(self)@.pc + 2 < 0x10000,
        ensures
            final(self)@.wf(),
            final(self)@ == spec_bitwise_and(old(self)@, x as int, y as int),
    {
        let value = self.v_register[x as usize] & self.v_register[y as usize];
        self.v_register.set(x as usize, value);
        self.pc = self.pc + 2;
    }

    /// `8xy3`: bitwise XOR into register `x`.
    pub fn bitwise_xor(&mut self, x: u8, y: u8)
        requires
            old(self)@.wf(),
            x < NUM_REGISTERS,
            y < NUM_REGISTERS,
            old(self)@.pc + 2 < 0x10000,
        ensures
            final(self)@.wf(),
            final(self)@ == spec_bitwise_xor(old(self)@, x as int, y as int),
    {
        let value = self.v_register[x as usize] ^ self.v_register[y as usize];
        self.v_register.set(x as usize, value);
        self.pc = self.pc + 2;
    }

    /// `8xy4`: add register `y` into `x`; the result wraps and the flag
    /// becomes the carry. The flag is written last, so it wins when `x`
    /// is 15.
    pub fn add_carryflag(&mut self, x: u8, y: u8)
        requires
            old(self)@.wf(),
            x < NUM_REGISTERS,
            y < NUM_REGISTERS,
            old(self)@.pc + 2 < 0x10000,
        ensures
            final(self)@.wf(),
            final(self)@ == spec_add_carryflag(old(self)@, x as int, y as int),
    {
        let sum = self.v_register[x as usize] as u16 + self.v_register[y as usize] as u16;
        self.v_register.set(x as usize, (sum % 256) as u8);
        self.v_register.set(15, if sum > 255 { 1 } else { 0 });
        self.pc = self.pc + 2;
    }

    /// `8xy5`: subtract register `y` from `x`; the result wraps and the
    /// flag becomes 1 exactly when `x` exceeded `y`.
    pub fn subtract_registers(&mut self, x: u8, y: u8)
        requires
            old(self)@.wf(),
            x < NUM_REGISTERS,
            y < NUM_REGISTERS,
            old(self)@.pc + 2 < 0x10000,
        ensures
            final(self)@.wf(),
            final(self)@ == spec_subtract_registers(old(self)@, x as int, y as int),
    {
        let a = self.v_register[x as usize];
        let b = self.v_register[y as usize];
        let diff = (a as u16 + 256 - b as u16) % 256;
        self.v_register.set(x as usize, diff as u8);
        self.v_register.set(15, if a > b { 1 } else { 0 });
        self.pc = self.pc + 2;
    }

    /// `8xy7`: register `x` becomes `y - x`, wrapping; the flag becomes 1
    /// exactly when `y` exceeded `x`.
    pub fn subtract_n_registers(&mut self, x: u8, y: u8)
        requires
            old(self)@.wf(),
            x < NUM_REGISTERS,
            y < NUM_REGISTERS,
            old(self)@.pc + 2 < 0x10000,
        ensures
            final(self)@.wf(),
            final(self)@ == spec_subtract_n_registers(old(self)@, x as int, y as int),
    {
        let a = self.v_register[x as usize];
        let b = self.v_register[y as usize];
        let diff = (b as u16 + 256 - a as u16) % 256;
        self.v_register.set(x as usize, diff as u8);
        self.v_register.set(15, if b > a { 1 } else { 0 });
        self.pc = self.pc + 2;
    }

    /// `8xy6`: logical shift right of register `x`; the flag becomes the
    /// evicted low bit.
    pub fn rightshift_register(&mut self, x: u8)
        requires
            old(self)@.wf(),
            x < NUM_REGISTERS,
            old(self)@.pc + 2 < 0x10000,
        ensures
            final(self)@.wf(),
            final(self)@ == spec_rightshift_register(old(self)@, x as int),
    {
        let a = self.v_register[x as usize];
        self.v_register.set(x as usize, a / 2);
        self.v_register.set(15, a % 2);
        self.pc = self.pc + 2;
    }

    /// `8xyE`: logical shift left of register `x`, wrapping; the flag
    /// becomes the evicted high bit.
    pub fn leftshift_register(&mut self, x: u8)
        requires
            old(self)@.wf(),
            x < NUM_REGISTERS,
            old(self)@.pc + 2 < 0x10000,
        ensures
            final(self)@.wf(),
            final(self)@ == spec_leftshift_register(old(self)@, x as int),
    {
        let a = self.v_register[x as usize];
        self.v_register.set(x as usize, ((a as u16 * 2) % 256) as u8);
        self.v_register.set(15, a / 128);
        self.pc = self.pc + 2;
    }

    /// `Annn`: load the address into the index register.
    pub fn load_i_register(&mut self, nnn: u16)
        requires
            old(self)@.wf(),
            old(self)@.pc + 2 < 0x10000,
        ensures
            final(self)@.wf(),
            final(self)@ == spec_load_i_register(old(self)@, nnn),
    {
        self.i_register = nnn;
        self.pc = self.pc + 2;
    }

    /// `Bnnn`: jump to `nnn` plus register 0.
    pub fn jump_addv0(&mut self, nnn: u16)
        requires
            old(self)@.wf(),
            nnn < MEM_SIZE,
        ensures
            final(self)@.wf(),
            final(self)@ == spec_jump_addv0(old(self)@, nnn),
    {
        self.pc = nnn + self.v_register[0] as u16;
    }

    /// `Cxkk`: register `x` becomes a random byte ANDed with `kk`. The
    /// byte comes from the trusted generator wrapper; whatever it was,
    /// the machine relates to its old state through `spec_random` at
    /// that byte.
    pub fn random(&mut self, x: u8, kk: u8)
        requires
            old(self)@.wf(),
            x < NUM_REGISTERS,
            old(self)@.pc + 2 < 0x10000,
        ensures
            final(self)@.wf(),
            exists|drawn: u8| final(self)@ == spec_random(old(self)@, x as int, drawn, kk),
    {
        let drawn = random_byte();
        self.v_register.set(x as usize, drawn & kk);
        self.pc = self.pc + 2;
        proof {
            assert(self@ == spec_random(old(self)@, x as int, drawn, kk));
        }
    }

    /// `Ex9E`: skip the next instruction if the key named by register `x`
    /// is down. A register value outside the keypad reports `InvalidKey`
    /// and leaves the machine unchanged.
    pub fn skip_next_if_key_pressed(&mut self, x: u8) -> (r: Result<(), Fault>)
        requires
            old(self)@.wf(),
            x < NUM_REGISTERS,
            old(self)@.pc + 4 < 0x10000,
        ensures
            final(self)@.wf(),
            old(self)@.regs[x as int] >= NUM_KEYS ==> r == Err::<(), Fault>(Fault::InvalidKey)
                && final(self)@ == old(self)@,
            old(self)@.regs[x as int] < NUM_KEYS ==> r == Ok::<(), Fault>(()) && final(self)@
                == spec_skip_next_if_key_pressed(old(self)@, x as int),
    {
        let key = self.v_register[x as usize];
        if (key as usize) >= NUM_KEYS {
            return Err(Fault::InvalidKey);
        }
        if self.keys[key as usize] {
            self.pc = self.pc + 4;
        } else {
            self.pc = self.pc + 2;
        }
        Ok(())
    }

    /// `ExA1`: skip the next instruction if the key named by register `x`
    /// is up. A register value outside the keypad reports `InvalidKey`
    /// and leaves the machine unchanged.
    pub fn skip_next_if_key_not_pressed(&mut self, x: u8) -> (r: Result<(), Fault>)
        requires
            old(self)@.wf(),
            x < NUM_REGISTERS,
            old(self)@.pc + 4 < 0x10000,
        ensures
            final(self)@.wf(),
            old(self)@.regs[x as int] >= NUM_KEYS ==> r == Err::<(), Fault>(Fault::InvalidKey)
                && final(self)@ == old(self)@,
            old(self)@.regs[x as int] < NUM_KEYS ==> r == Ok::<(), Fault>(()) && final(self)@
                == spec_skip_next_if_key_not_pressed(old(self)@, x as int),
    {
        let key = self.v_register[x as usize];
        if (key as usize) >= NUM_KEYS {
            return Err(Fault::InvalidKey);
        }
        if self.keys[key as usize] {
            self.pc = self.pc + 2;
        } else {
            self.pc = self.pc + 4;
        }
        Ok(())
    }

    /// `Fx07`: load the delay timer into register `x`.
    pub fn load_delay_timer(&mut self, x: u8)
        requires
            old(self)@.wf(),
            x < NUM_REGISTERS,
            old(self)@.pc + 2 < 0x10000,
        ensures
            final(self)@.wf(),
            final(self)@ == spec_load_delay_timer(old(self)@, x as int),
    {
        let value = self.delay_timer;
        self.v_register.set(x as usize, value);
        self.pc = self.pc + 2;
    }

    /// `Fx15`: set the delay timer from register `x`.
    pub fn set_delay_timer(&mut self, x: u8)
        requires
            old(self)@.wf(),
            x < NUM_REGISTERS,
            old(self)@.pc + 2 < 0x10000,
        ensures
            final(self)@.wf(),
            final(self)@ == spec_set_delay_timer(old(self)@, x as int),
    {
        self.delay_timer = self.v_register[x as usize];
        self.pc = self.pc + 2;
    }

    /// `Fx1E`: add register `x` into the index register, wrapping modulo
    /// 65536. The index may point past memory afterwards; every access
    /// through it is bounds-checked at use.
    pub fn add_v_to_i_register(&mut self, x: u8)
        requires
            old(self)@.wf(),
            x < NUM_REGISTERS,
            old(self)@.pc + 2 < 0x10000,
        ensures
            final(self)@.wf(),
            final(self)@ == spec_add_v_to_i_register(old(self)@, x as int),
    {
        let sum = self.i_register as u32 + self.v_register[x as usize] as u32;
        self.i_register = (sum % 65536) as u16;
        self.pc = self.pc + 2;
    }

    /// `Fx29`: point the index register at the five-byte font glyph for
    /// the digit in register `x`.
    pub fn load_hex_sprite(&mut self, x: u8)
        requires
            old(self)@.wf(),
            x < NUM_REGISTERS,
            old(self)@.pc + 2 < 0x10000,
        ensures
            final(self)@.wf(),
            final(self)@ == spec_load_hex_sprite(old(self)@, x as int),
    {
        self.i_register = 5 * self.v_register[x as usize] as u16;
        self.pc = self.pc + 2;
    }

    /// `Fx33`: write the hundreds, tens and ones digits of register `x`
    /// at the index register. Digits that would land past the end of
    /// memory report `OutOfBounds` and leave the machine unchanged.
    pub fn store_bcd(&mut self, x: u8) -> (r: Result<(), Fault>)
        requires
            old(self)@.wf(),
            x < NUM_REGISTERS,
            old(self)@.pc + 2 < 0x10000,
        ensures
            final(self)@.wf(),
            old(self)@.index + 3 > MEM_SIZE ==> r == Err::<(), Fault>(Fault::OutOfBounds)
                && final(self)@ == old(self)@,
            old(self)@.index + 3 <= MEM_SIZE ==> r == Ok::<(), Fault>(()) && final(self)@
                == spec_store_bcd(old(self)@, x as int),
    {
        let i = self.i_register as usize;
        if i + 3 > MEM_SIZE {
            return Err(Fault::OutOfBounds);
        }
        let value = self.v_register[x as usize];
        self.memory.set(i, value / 100);
        self.memory.set(i + 1, (value / 10) % 10);
        self.memory.set(i + 2, value % 10);
        self.pc = self.pc + 2;
        Ok(())
    }

    /// `Fx55`: store registers `0..=x` — all of `x + 1` of them — to
    /// memory at the index register. A range that would run past the end
    /// of memory reports `OutOfBounds` and leaves the machine unchanged.
    pub fn load_registers_to_memory(&mut self, x: u8) -> (r: Result<(), Fault>)
        requires
            old(self)@.wf(),
            x < NUM_REGISTERS,
            old(self)@.pc + 2 < 0x10000,
        ensures
            final(self)@.wf(),
            old(self)@.index + x + 1 > MEM_SIZE ==> r == Err::<(), Fault>(Fault::OutOfBounds)
                && final(self)@ == old(self)@,
            old(self)@.index + x + 1 <= MEM_SIZE ==> r == Ok::<(), Fault>(()) && final(self)@
                == spec_load_registers_to_memory(old(self)@, x as int),
    {
        let i = self.i_register as usize;
        let count = x as usize + 1;
        if i + count > MEM_SIZE {
            return Err(Fault::OutOfBounds);
        }
        let mut n: usize = 0;
        while n < count
            invariant
                n <= count,
                count == x + 1,
                x < NUM_REGISTERS,
                i == old(self)@.index,
                i + count <= MEM_SIZE,
                self.memory@.len() == MEM_SIZE,
                self.v_register@.len() == NUM_REGISTERS,
                forall|j: int| i <= j < i + n ==> self.memory@[j] == old(self)@.regs[j - i],
                forall|j: int|
                    (0 <= j < i || i + n <= j < MEM_SIZE) ==> self.memory@[j] == old(self)@.mem[j],
                self@ == (Machine { mem: self.memory@, ..old(self)@ }),
            decreases count - n,
        {
            self.memory.set(i + n, self.v_register[n]);
            n += 1;
        }
        self.pc = self.pc + 2;
        proof {
            assert(self@ =~= spec_load_registers_to_memory(old(self)@, x as int));
        }
        Ok(())
    }

    /// `Fx65`: load registers `0..=x` — all of `x + 1` of them — from
    /// memory at the index register. A range that would run past the end
    /// of memory reports `OutOfBounds` and leaves the machine unchanged.
    pub fn read_memory_to_register(&mut self, x: u8) -> (r: Result<(), Fault>)
        requires
            old(self)@.wf(),
            x < NUM_REGISTERS,
            old(self)@.pc + 2 < 0x10000,
        ensures
            final(self)@.wf(),
            old(self)@.index + x + 1 > MEM_SIZE ==> r == Err::<(), Fault>(Fault::OutOfBounds)
                && final(self)@ == old(self)@,
            old(self)@.index + x + 1 <= MEM_SIZE ==> r == Ok::<(), Fault>(()) && final(self)@
                == spec_read_memory_to_register(old(self)@, x as int),
    {
        let i = self.i_register as usize;
        let count = x as usize + 1;
        if i + count > MEM_SIZE {
            return Err(Fault::OutOfBounds);
        }
        let mut n: usize = 0;
        while n < count
            invariant
                n <= count,
                count == x + 1,
                x < NUM_REGISTERS,
                i == old(self)@.index,
                i + count <= MEM_SIZE,
                self.memory@.len() == MEM_SIZE,
                self.v_register@.len() == NUM_REGISTERS,
                forall|j: int| 0 <= j < n ==> self.v_register@[j] == old(self)@.mem[i + j],
                forall|j: int|
                    n <= j < NUM_REGISTERS ==> self.v_register@[j] == old(self)@.regs[j],
                self@ == (Machine { regs: self.v_register@, ..old(self)@ }),
            decreases count - n,
        {
            let b = self.memory[i + n];
            self.v_register.set(n, b);
            n += 1;
        }
        self.pc = self.pc + 2;
        proof {
            assert(self@ =~= spec_read_memory_to_register(old(self)@, x as int));
        }
        Ok(())
    }

    /// `Dxyn`: XOR-blit the `n`-row sprite stored at the index register,
    /// with its top-left pixel at the point named by registers `x` and
    /// `y`. Rows wrap vertically and pixels wrap horizontally, each on
    /// its own. The flag register is cleared once before the draw and
    /// becomes 1 exactly when some sprite pixel that is 1 meets a cell
    /// already 1. A sprite that would be read past the end of memory
    /// reports `OutOfBounds` and leaves the machine unchanged.
    pub fn draw(&mut self, x: u8, y: u8, n: u8) -> (r: Result<(), Fault>)
        requires
            old(self)@.wf(),
            x < NUM_REGISTERS,
            y < NUM_REGISTERS,
            n < 16,
            old(self)@.pc + 2 < 0x10000,
        ensures
            final(self)@.wf(),
            old(self)@.index + n > MEM_SIZE ==> r == Err::<(), Fault>(Fault::OutOfBounds)
                && final(self)@ == old(self)@,
            old(self)@.index + n <= MEM_SIZE ==> r == Ok::<(), Fault>(()) && final(self)@
                == spec_draw(old(self)@, x as int, y as int, n as int),
    {
        let i = self.i_register as usize;
        let rows = n as usize;
        if i + rows > MEM_SIZE {
            return Err(Fault::OutOfBounds);
        }
        let x0 = self.v_register[x as usize] as usize;
        let y0 = self.v_register[y as usize] as usize;
        let ghost d0 = old(self)@.display;
        let ghost m = old(self)@.mem;
        let mut collided = false;
        let mut r_row: usize = 0;
        proof {
            lemma_blit_start(d0, m, x0 as int, y0 as int, i as int);
        }
        while r_row < rows
            invariant
                r_row <= rows,
                rows == n,
                n < 16,
                x0 == old(self)@.regs[x as int],
                y0 == old(self)@.regs[y as int],
                x0 < 256,
                y0 < 256,
                i == old(self)@.index,
                i + rows <= MEM_SIZE,
                d0 == old(self)@.display,
                m == old(self)@.mem,
                self.memory@ == m,
                self.memory@.len() == MEM_SIZE,
                self.display@.len() == DISPLAY_CELLS,
                forall|c: int| 0 <= c < DISPLAY_CELLS ==> self.display@[c] <= 1,
                self.display@ == spec_blit_upto(
                    d0,
                    m,
                    x0 as int,
                    y0 as int,
                    i as int,
                    r_row as int,
                    0,
                ),
                collided <==> spec_collides_upto(
                    d0,
                    m,
                    x0 as int,
                    y0 as int,
                    i as int,
                    r_row as int,
                    0,
                ),
                self@ == (Machine { display: self.display@, ..old(self)@ }),
            decreases rows - r_row,
        {
            let byte = self.memory[i + r_row];
            let row = (y0 + r_row) % DISPLAY_HEIGHT;
            let mut b: usize = 0;
            while b < 8
                invariant
                    b <= 8,
                    r_row < rows,
                    rows == n,
                    n < 16,
                    x0 == old(self)@.regs[x as int],
                    y0 == old(self)@.regs[y as int],
                    x0 < 256,
                    y0 < 256,
                    i == old(self)@.index,
                    i + rows <= MEM_SIZE,
                    d0 == old(self)@.display,
                    m == old(self)@.mem,
                    self.memory@ == m,
                    self.memory@.len() == MEM_SIZE,
                    byte == m[i + r_row],
                    row == (y0 + r_row) % (DISPLAY_HEIGHT as int),
                    self.display@.len() == DISPLAY_CELLS,
                    forall|c: int| 0 <= c < DISPLAY_CELLS ==> self.display@[c] <= 1,
                    self.display@ == spec_blit_upto(
                        d0,
                        m,
                        x0 as int,
                        y0 as int,
                        i as int,
                        r_row as int,
                        b as int,
                    ),
                    collided <==> spec_collides_upto(
                        d0,
                        m,
                        x0 as int,
                        y0 as int,
                        i as int,
                        r_row as int,
                        b as int,
                    ),
                    self@ == (Machine { display: self.display@, ..old(self)@ }),
                decreases 8 - b,
            {
                proof {
                    lemma_blit_step(d0, m, x0 as int, y0 as int, i as int, r_row as int, b as int);
                    lemma_collides_step(
                        d0,
                        m,
                        x0 as int,
                        y0 as int,
                        i as int,
                        r_row as int,
                        b as int,
                    );
                }
                let col = (x0 + b) % DISPLAY_WIDTH;
                let idx = col + row * DISPLAY_WIDTH;
                let bit = sprite_bit(byte, b);
                let cell = self.display[idx];
                if cell == 1 && bit == 1 {
                    collided = true;
                }
                let flipped = if cell == bit {
                    0
                } else {
                    1
                };
                self.display.set(idx, flipped);
                b += 1;
            }
            proof {
                lemma_blit_row_roll(d0, m, x0 as int, y0 as int, i as int, r_row as int);
            }
            r_row += 1;
        }
        proof {
            lemma_blit_finish(d0, m, x0 as int, y0 as int, i as int, rows as int);
        }
        self.v_register.set(15, if collided { 1 } else { 0 });
        self.pc = self.pc + 2;
        proof {
            assert(self@ =~= spec_draw(old(self)@, x as int, y as int, n as int));
        }
        Ok(())
    }

    /// One step of the engine: fetch the big-endian word at the program
    /// counter, decode it, execute it, and advance. A fatal fault halts
    /// the machine and every later step reports the same fault without
    /// touching anything. An unknown word is reported and skipped. The
    /// whole step is pinned by [`spec_step`], for some byte drawn by the
    /// random generator.
    #[verifier::rlimit(100)]
    pub fn step(&mut self) -> (r: Result<StepOutcome, Fault>)
        requires
            old(self)@.wf(),
        ensures
            final(self)@.wf(),
            exists|drawn: u8| (final(self)@, r) == spec_step(old(self)@, drawn),
    {
        match self.halted {
            Some(f) => {
                proof {
                    assert((self@, Err::<StepOutcome, Fault>(f)) == spec_step(old(self)@, 0u8));
                }
                return Err(f);
            },
            None => {},
        }
        if self.pc as usize + 1 >= MEM_SIZE {
            self.halted = Some(Fault::OutOfBounds);
            proof {
                assert((self@, Err::<StepOutcome, Fault>(Fault::OutOfBounds)) == spec_step(
                    old(self)@,
                    0u8,
                ));
            }
            return Err(Fault::OutOfBounds);
        }
        let hi = self.memory[self.pc as usize];
        let lo = self.memory[self.pc as usize + 1];
        let w = hi as u16 * 256 + lo as u16;
        match decode(w) {
            Instruction::ClearScreen => {
                self.clear_screen();
                proof {
                    assert((self@, Ok::<StepOutcome, Fault>(StepOutcome::Executed)) == spec_step(
                        old(self)@,
                        0u8,
                    ));
                }
                Ok(StepOutcome::Executed)
            },
            Instruction::Return => match self.ret() {
                Ok(()) => {
                    proof {
                        assert((self@, Ok::<StepOutcome, Fault>(StepOutcome::Executed))
                            == spec_step(old(self)@, 0u8));
                    }
                    Ok(StepOutcome::Executed)
                },
                Err(f) => {
                    self.halted = Some(f);
                    proof {
                        assert((self@, Err::<StepOutcome, Fault>(f)) == spec_step(
                            old(self)@,
                            0u8,
                        ));
                    }
                    Err(f)
                },
            },
            Instruction::Jump(nnn) => {
                self.jump(nnn);
                proof {
                    assert((self@, Ok::<StepOutcome, Fault>(StepOutcome::Executed)) == spec_step(
                        old(self)@,
                        0u8,
                    ));
                }
                Ok(StepOutcome::Executed)
            },
            Instruction::Call(nnn) => match self.call(nnn) {
                Ok(()) => {
                    proof {
                        assert((self@, Ok::<StepOutcome, Fault>(StepOutcome::Executed))
                            == spec_step(old(self)@, 0u8));
                    }
                    Ok(StepOutcome::Executed)
                },
                Err(f) => {
                    self.halted = Some(f);
                    proof {
                        assert((self@, Err::<StepOutcome, Fault>(f)) == spec_step(
                            old(self)@,
                            0u8,
                        ));
                    }
                    Err(f)
                },
            },
            Instruction::SkipEqImm(x, kk) => {
                self.skip_equal(x, kk);
                proof {
                    assert((self@, Ok::<StepOutcome, Fault>(StepOutcome::Executed)) == spec_step(
                        old(self)@,
                        0u8,
                    ));
                }
                Ok(StepOutcome::Executed)
            },
            Instruction::SkipNeImm(x, kk) => {
                self.skip_not_equal(x, kk);
                proof {
                    assert((self@, Ok::<StepOutcome, Fault>(StepOutcome::Executed)) == spec_step(
                        old(self)@,
                        0u8,
                    ));
                }
                Ok(StepOutcome::Executed)
            },
            Instruction::SkipEqReg(x, y) => {
                self.skip_equal_registers(x, y);
                proof {
                    assert((self@, Ok::<StepOutcome, Fault>(StepOutcome::Executed)) == spec_step(
                        old(self)@,
                        0u8,
                    ));
                }
                Ok(StepOutcome::Executed)
            },
            Instruction::SkipNeReg(x, y) => {
                self.skip_not_equal_registers(x, y);
                proof {
                    assert((self@, Ok::<StepOutcome, Fault>(StepOutcome::Executed)) == spec_step(
                        old(self)@,
                        0u8,
                    ));
                }
                Ok(StepOutcome::Executed)
            },
            Instruction::LoadImm(x, kk) => {
                self.load_byte_to_register(x, kk);
                proof {
                    assert((self@, Ok::<StepOutcome, Fault>(StepOutcome::Executed)) == spec_step(
                        old(self)@,
                        0u8,
                    ));
                }
                Ok(StepOutcome::Executed)
            },
            Instruction::AddImm(x, kk) => {
                self.add_byte_to_register(x, kk);
                proof {
                    assert((self@, Ok::<StepOutcome, Fault>(StepOutcome::Executed)) == spec_step(
                        old(self)@,
                        0u8,
                    ));
                }
                Ok(StepOutcome::Executed)
            },
            Instruction::Move(x, y) => {
                self.load_register_to_register(x, y);
                proof {
                    assert((self@, Ok::<StepOutcome, Fault>(StepOutcome::Executed)) == spec_step(
                        old(self)@,
                        0u8,
                    ));
                }
                Ok(StepOutcome::Executed)
            },
            Instruction::Or(x, y) => {
                self.bitwise_or(x, y);
                proof {
                    assert((self@, Ok::<StepOutcome, Fault>(StepOutcome::Executed)) == spec_step(
                        old(self)@,
                        0u8,
                    ));
                }
                Ok(StepOutcome::Executed)
            },
            Instruction::And(x, y) => {
                self.bitwise_and(x, y);
                proof {
                    assert((self@, Ok::<StepOutcome, Fault>(StepOutcome::Executed)) == spec_step(
                        old(self)@,
                        0u8,
                    ));
                }
                Ok(StepOutcome::Executed)
            },
            Instruction::Xor(x, y) => {
                self.bitwise_xor(x, y);
                proof {
                    assert((self@, Ok::<StepOutcome, Fault>(StepOutcome::Executed)) == spec_step(
                        old(self)@,
                        0u8,
                    ));
                }
                Ok(StepOutcome::Executed)
            },
            Instruction::AddCarry(x, y) => {
                self.add_carryflag(x, y);
                proof {
                    assert((self@, Ok::<StepOutcome, Fault>(StepOutcome::Executed)) == spec_step(
                        old(self)@,
                        0u8,
                    ));
                }
                Ok(StepOutcome::Executed)
            },
            Instruction::SubBorrow(x, y) => {
                self.subtract_registers(x, y);
                proof {
                    assert((self@, Ok::<StepOutcome, Fault>(StepOutcome::Executed)) == spec_step(
                        old(self)@,
                        0u8,
                    ));
                }
                Ok(StepOutcome::Executed)
            },
            Instruction::ShiftRight(x) => {
                self.rightshift_register(x);
                proof {
                    assert((self@, Ok::<StepOutcome, Fault>(StepOutcome::Executed)) == spec_step(
                        old(self)@,
                        0u8,
                    ));
                }
                Ok(StepOutcome::Executed)
            },
            Instruction::SubReverse(x, y) => {
                self.subtract_n_registers(x, y);
                proof {
                    assert((self@, Ok::<StepOutcome, Fault>(StepOutcome::Executed)) == spec_step(
                        old(self)@,
                        0u8,
                    ));
                }
                Ok(StepOutcome::Executed)
            },
            Instruction::ShiftLeft(x) => {
                self.leftshift_register(x);
                proof {
                    assert((self@, Ok::<StepOutcome, Fault>(StepOutcome::Executed)) == spec_step(
                        old(self)@,
                        0u8,
                    ));
                }
                Ok(StepOutcome::Executed)
            },
            Instruction::LoadIndex(nnn) => {
                self.load_i_register(nnn);
                proof {
                    assert((self@, Ok::<StepOutcome, Fault>(StepOutcome::Executed)) == spec_step(
                        old(self)@,
                        0u8,
                    ));
                }
                Ok(StepOutcome::Executed)
            },
            Instruction::JumpPlusV0(nnn) => {
                self.jump_addv0(nnn);
                proof {
                    assert((self@, Ok::<StepOutcome, Fault>(StepOutcome::Executed)) == spec_step(
                        old(self)@,
                        0u8,
                    ));
                }
                Ok(StepOutcome::Executed)
            },
            Instruction::Random(x, kk) => {
                self.random(x, kk);
                proof {
                    let drawn = choose|d: u8|
                        self@ == crate::semantics::spec_random(old(self)@, x as int, d, kk);
                    assert((self@, Ok::<StepOutcome, Fault>(StepOutcome::Executed)) == spec_step(
                        old(self)@,
                        drawn,
                    ));
                }
                Ok(StepOutcome::Executed)
            },
            Instruction::Draw(x, y, n) => match self.draw(x, y, n) {
                Ok(()) => {
                    proof {
                        assert((self@, Ok::<StepOutcome, Fault>(StepOutcome::Executed))
                            == spec_step(old(self)@, 0u8));
                    }
                    Ok(StepOutcome::Executed)
                },
                Err(f) => {
                    self.halted = Some(f);
                    proof {
                        assert((self@, Err::<StepOutcome, Fault>(f)) == spec_step(
                            old(self)@,
                            0u8,
                        ));
                    }
                    Err(f)
                },
            },
            Instruction::SkipKeyDown(x) => match self.skip_next_if_key_pressed(x) {
                Ok(()) => {
                    proof {
                        assert((self@, Ok::<StepOutcome, Fault>(StepOutcome::Executed))
                            == spec_step(old(self)@, 0u8));
                    }
                    Ok(StepOutcome::Executed)
                },
                Err(f) => {
                    self.halted = Some(f);
                    proof {
                        assert((self@, Err::<StepOutcome, Fault>(f)) == spec_step(
                            old(self)@,
                            0u8,
                        ));
                    }
                    Err(f)
                },
            },
            Instruction::SkipKeyUp(x) => match self.skip_next_if_key_not_pressed(x) {
                Ok(()) => {
                    proof {
                        assert((self@, Ok::<StepOutcome, Fault>(StepOutcome::Executed))
                            == spec_step(old(self)@, 0u8));
                    }
                    Ok(StepOutcome::Executed)
                },
                Err(f) => {
                    self.halted = Some(f);
                    proof {
                        assert((self@, Err::<StepOutcome, Fault>(f)) == spec_step(
                            old(self)@,
                            0u8,
                        ));
                    }
                    Err(f)
                },
            },
            Instruction::LoadDelay(x) => {
                self.load_delay_timer(x);
                proof {
                    assert((self@, Ok::<StepOutcome, Fault>(StepOutcome::Executed)) == spec_step(
                        old(self)@,
                        0u8,
                    ));
                }
                Ok(StepOutcome::Executed)
            },
            Instruction::SetDelay(x) => {
                self.set_delay_timer(x);
                proof {
                    assert((self@, Ok::<StepOutcome, Fault>(StepOutcome::Executed)) == spec_step(
                        old(self)@,
                        0u8,
                    ));
                }
                Ok(StepOutcome::Executed)
            },
            Instruction::AddIndex(x) => {
                self.add_v_to_i_register(x);
                proof {
                    assert((self@, Ok::<StepOutcome, Fault>(StepOutcome::Executed)) == spec_step(
                        old(self)@,
                        0u8,
                    ));
                }
                Ok(StepOutcome::Executed)
            },
            Instruction::LoadFont(x) => {
                self.load_hex_sprite(x);
                proof {
                    assert((self@, Ok::<StepOutcome, Fault>(StepOutcome::Executed)) == spec_step(
                        old(self)@,
                        0u8,
                    ));
                }
                Ok(StepOutcome::Executed)
            },
            Instruction::StoreBcd(x) => match self.store_bcd(x) {
                Ok(()) => {
                    proof {
                        assert((self@, Ok::<StepOutcome, Fault>(StepOutcome::Executed))
                            == spec_step(old(self)@, 0u8));
                    }
                    Ok(StepOutcome::Executed)
                },
                Err(f) => {
                    self.halted = Some(f);
                    proof {
                        assert((self@, Err::<StepOutcome, Fault>(f)) == spec_step(
                            old(self)@,
                            0u8,
                        ));
                    }
                    Err(f)
                },
            },
            Instruction::StoreRegs(x) => match self.load_registers_to_memory(x) {
                Ok(()) => {
                    proof {
                        assert((self@, Ok::<StepOutcome, Fault>(StepOutcome::Executed))
                            == spec_step(old(self)@, 0u8));
                    }
                    Ok(StepOutcome::Executed)
                },
                Err(f) => {
                    self.halted = Some(f);
                    proof {
                        assert((self@, Err::<StepOutcome, Fault>(f)) == spec_step(
                            old(self)@,
                            0u8,
                        ));
                    }
                    Err(f)
                },
            },
            Instruction::LoadRegs(x) => match self.read_memory_to_register(x) {
                Ok(()) => {
                    proof {
                        assert((self@, Ok::<StepOutcome, Fault>(StepOutcome::Executed))
                            == spec_step(old(self)@, 0u8));
                    }
                    Ok(StepOutcome::Executed)
                },
                Err(f) => {
                    self.halted = Some(f);
                    proof {
                        assert((self@, Err::<StepOutcome, Fault>(f)) == spec_step(
                            old(self)@,
                            0u8,
                        ));
                    }
                    Err(f)
                },
            },
            Instruction::Unknown(word) => {
                self.pc = self.pc + 2;
                proof {
                    assert((self@, Ok::<StepOutcome, Fault>(StepOutcome::UnknownInstruction(word)))
                        == spec_step(old(self)@, 0u8));
                }
                Ok(StepOutcome::UnknownInstruction(word))
            },
        }
    }
}

} // verus!
