//! Values and the stores that hold them.
pub mod data;
pub mod data_memory;
pub mod memory;
pub mod program_memory;
pub mod stack;

pub use data::InnerData;
pub use data_memory::DataMemory;
pub use program_memory::ProgramMemory;
pub use stack::Stack;
