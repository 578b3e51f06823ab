//! A small stack-based virtual machine: a bytecode decoder, a tagged value
//! model with automatic width promotion, and an execution engine.
pub mod binread;
pub mod instructions;
pub mod memory;
pub mod processor;
