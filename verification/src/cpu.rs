//! Processor state.

pub mod registers;
