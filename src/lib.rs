//! An interpreter for the Intel 8080 instruction set.
//!
//! `state` and `isa` give the mathematical model: the architectural state and
//! what one instruction does to it. `processor` is the executable interpreter,
//! each of whose operations is proved to follow that model. `laws` states
//! properties of the instruction set that follow from the model.
pub mod flags;
pub mod isa;
pub mod laws;
pub mod processor;
pub mod state;

pub use flags::ConditionBits;
pub use isa::UnimplementedOpcode;
pub use processor::{make_processor, Processor};
