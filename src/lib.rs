//! A small byte-code virtual machine: eight 16-bit registers, a byte-addressable
//! memory, and a fetch-decode-execute step over a six-instruction set.
//!
//! Each operation is specified as a transition on a model of the machine: the
//! register file as a sequence of eight words and the memory as a sequence of
//! bytes (see `vm::step_state` and `memory::write_word`).
pub mod memory;
pub mod vm;

pub use memory::{Addressable, LinearMemory};
pub use vm::{parse_instruction, Machine, Op, Register, VmError};
