//! A bytecode hooking subsystem for a closed host runtime: a decoder for a
//! private instruction set, a register virtual machine that executes decoded
//! programs in place of a host procedure, and the registry and dispatch logic
//! that route an intercepted call to a native handler or a machine program.

pub mod disassembler;
pub mod hooks;
pub mod runtime;
mod table;
pub mod value;
pub mod vm;
