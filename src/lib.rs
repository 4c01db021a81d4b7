//! A dynamic binary translator core: RISC-V instructions are lifted into a
//! small intermediate representation, and each IR op is emitted as x86-64
//! machine bytes with forward branches patched through labels.
pub mod emu_env;
pub mod host;
pub mod riscv;
pub mod semantics;
pub mod tcg;
pub mod x86;
