//! A 16-bit teaching-ISA virtual machine: a bitfield instruction decoder, a
//! register/flag file, a 65536-word memory, a big-endian program-image loader,
//! and a fetch/decode/execute engine with wrapping address arithmetic.

pub mod flags;
pub mod opcodes;
pub mod traps;
pub mod virtual_machine;

pub use virtual_machine::Effect;
pub use virtual_machine::VM;
pub use virtual_machine::VMError;
