//! A CHIP-8 interpreter core: machine state, instruction semantics and the
//! fetch/decode/execute cycle, each with a specification over an abstract
//! machine state.
pub mod chip_8;
pub mod loading;
pub mod spec;
pub mod laws;
pub mod instruction_laws;
mod random;
