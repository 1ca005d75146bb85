//! The device that does nothing.

use crate::hardware::Hardware;
use vstd::prelude::*;

verus! {

/// A piece of hardware that does nothing at all: it has a name and no
/// capability, so it can be neither addressed nor mapped.
#[derive(Debug)]
pub struct EmptyHardware {}

impl EmptyHardware {
    /// Creates an `EmptyHardware`.
    pub fn new() -> (device: EmptyHardware)
        ensures
            device == (EmptyHardware {  }),
    {
        EmptyHardware {  }
    }
}

impl Hardware for EmptyHardware {
    open spec fn named(&self, name: Seq<char>) -> bool {
        name == "<Empty>"@
    }

    fn name(&self) -> (name: &str) {
        "<Empty>"
    }
}

} // verus!
