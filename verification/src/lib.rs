//! A bytecode virtual machine for the Amanda programming language.
//!
//! The crate holds the runtime execution engine: the opcode set, the value
//! model, the allocator for composite values, the registry of native
//! functions, the decoder of the binary container, the frame stack, the
//! interpreter and the error reporter.
//!
//! Input, output and arithmetic on reals are left to the embedding host. The
//! interpreter is a state machine: each call of [`vm::AmaVM::step`] executes
//! one instruction and says what the host has to do before the next call.
pub mod opcode;
pub mod amatype;
pub mod function;
pub mod frames;
pub mod text;
pub mod host;
pub mod ama_value;
pub mod tabela;
pub mod registo;
pub mod allocator;
pub mod registry;
pub mod module;
pub mod display;
pub mod ops;
pub mod graphemes;
pub mod builtins;
pub mod semantics;
pub mod vm;
pub mod bson;
pub mod binload;
pub mod laws;
