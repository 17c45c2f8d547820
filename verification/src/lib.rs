//! A CHIP-8 virtual machine: opcode decoding, disassembly and a
//! fetch-decode-execute engine, each with a machine-checked contract.

pub mod config;
pub mod emulator;
