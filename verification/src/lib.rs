//! A 16-bit register virtual machine with a fixed instruction encoding,
//! together with the small compiler front-end and assembler preprocessor
//! that target it.
//!
//! The heart of the crate is the instruction set architecture: bounded
//! literal types, the register and flag model, the bijective 16-bit
//! instruction encoding, a memory-mapping layer with little-endian word
//! access, and the fetch-decode-execute engine.

pub mod assoc;
pub mod ast;
pub mod diagnostics;
pub mod display;
pub mod error;
pub mod expression;
pub mod legacy;
pub mod lexer;
pub mod machine;
pub mod memory;
pub mod nameresolver;
pub mod op;
pub mod parser;
pub mod pp;
pub mod register;
pub mod scope;
pub mod source;
pub mod span;
pub mod symbol_table;
pub mod text;
pub mod token;

pub use register::Flag;
pub use register::Register;

pub use memory::Addressable;
pub use memory::LinearMemory;
pub use memory::MemoryError;
pub use memory::MemoryMapper;

pub use machine::HaltHandler;
pub use machine::Machine;
pub use machine::MachineView;
pub use machine::SignalHandler;
pub use machine::SIGHALT;
pub use machine::VM;
pub use machine::VmError;
