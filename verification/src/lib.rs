//! The core of an eight-bit machine: the register file of a 6502-class
//! processor and the address bus that maps peripheral devices into its
//! sixteen-bit address space.

pub mod cpu;
pub mod hardware;
