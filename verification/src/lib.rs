//! A verified execution core for a small 8-bit-register, 16-bit-address
//! virtual machine: 4096 bytes of memory, sixteen 8-bit registers, a bounded
//! call stack, a 64x32 monochrome framebuffer mutated only by XOR-blit, a
//! delay timer, a 16-key keypad, and the fetch-decode-execute engine over
//! the canonical opcode table.
//!
//! Window creation, rendering and input collection are external
//! collaborators: the library only maintains the logical machine state.

pub mod blit;
pub mod fault;
pub mod font;
pub mod isa;
pub mod laws;
pub mod processor;
pub mod semantics;
pub mod state;

pub use fault::Fault;
pub use fault::StepOutcome;
pub use isa::decode;
pub use isa::Instruction;
pub use processor::Processor;
pub use state::Machine;
