//! A 32-bit register machine: bit-field codec, instruction decoder,
//! segment table and execution engine, each with a verified contract.
pub mod bitpack;
pub mod disassembler;
pub mod fault;
pub mod segment;
pub mod um;
pub mod instructions;
pub mod rumload;
pub mod rum;
pub mod laws;
