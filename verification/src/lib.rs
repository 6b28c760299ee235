//! Rain VM: a register-based bytecode virtual machine.
//!
//! A program is a flat byte buffer: one version byte followed by an
//! instruction stream.  The machine decodes and executes instructions
//! until it halts, fails, or exhausts its step budget.

pub mod version;
pub mod vm;
