use vstd::prelude::*;

use crate::fault::Fault;

verus! {

/// Length of the address space in bytes.
pub const MEM_SIZE: usize = 4096;

/// Address at which a loaded program begins.
pub const LOAD_ADDRESS: usize = 512;

/// Length of the reserved font region at the bottom of memory.
pub const FONT_BYTES: usize = 80;

/// Width of the framebuffer in cells.
pub const DISPLAY_WIDTH: usize = 64;

/// Height of the framebuffer in cells.
pub const DISPLAY_HEIGHT: usize = 32;

/// Number of cells in the framebuffer.
pub const DISPLAY_CELLS: usize = 2048;

/// Number of general-purpose registers.
pub const NUM_REGISTERS: usize = 16;

/// Number of keys on the keypad.
pub const NUM_KEYS: usize = 16;

/// Capacity of the call stack.
pub const STACK_DEPTH: usize = 16;

/// The mathematical model of the whole machine.
///
/// Every contract of [`crate::processor::Processor`] is stated over this
/// view: a step of the engine is a function from one `Machine` to the next.
#[verifier::ext_equal]
pub ghost struct Machine {
    /// The 4096 bytes of the address space.
    pub mem: Seq<u8>,
    /// The framebuffer, row-major: cell `(col, row)` is at `col + row * 64`,
    /// and every cell is 0 or 1.
    pub display: Seq<u8>,
    /// The call stack of return addresses, bottom first.
    pub stack: Seq<u16>,
    /// The sixteen general-purpose registers; register 15 is the flag.
    pub regs: Seq<u8>,
    /// The 16-bit index register.
    pub index: u16,
    /// The program counter.
    pub pc: u16,
    /// The delay timer.
    pub delay: u8,
    /// The keypad: `keys[k]` is true while key `k` is held down.
    pub keys: Seq<bool>,
    /// The fault that halted the machine, if any.
    pub halted: Option<Fault>,
}

impl Machine {
    /// Well-formedness: the fixed-capacity parts have their fixed sizes,
    /// framebuffer cells are bits, the stack is within its bound, and every
    /// stacked return address points at a fetchable instruction.
    pub open spec fn wf(self) -> bool {
        &&& self.mem.len() == MEM_SIZE
        &&& self.display.len() == DISPLAY_CELLS
        &&& forall|i: int| 0 <= i < DISPLAY_CELLS ==> self.display[i] <= 1
        &&& self.stack.len() <= STACK_DEPTH
        &&& forall|i: int| 0 <= i < self.stack.len() ==> self.stack[i] + 2 <= MEM_SIZE
        &&& self.regs.len() == NUM_REGISTERS
        &&& self.keys.len() == NUM_KEYS
    }
}

} // verus!
