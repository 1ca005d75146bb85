//! The device that swallows what is written to it.

use crate::hardware::{AddressableHardware, Hardware, HardwareError};
use vstd::prelude::*;

verus! {

/// A piece of addressable hardware that discards all input: every write is
/// accepted and forgotten, and every read gives 0.
#[derive(Debug)]
pub struct DiscardHardware {}

impl DiscardHardware {
    /// Creates a `DiscardHardware`.
    pub fn new() -> (device: DiscardHardware)
        ensures
            device == (DiscardHardware {  }),
    {
        DiscardHardware {  }
    }
}

impl Hardware for DiscardHardware {
    open spec fn named(&self, name: Seq<char>) -> bool {
        name == "Discard Device"@
    }

    fn name(&self) -> (name: &str) {
        "Discard Device"
    }

    fn as_addressable(&self) -> (view: Option<&Self>)
        ensures
            view is Some,
    {
        Some(self)
    }

    fn as_addressable_mut(&mut self) -> (view: Option<&mut Self>)
        ensures
            view is Some,
    {
        Some(self)
    }
}

impl AddressableHardware for DiscardHardware {
    open spec fn reads(&self, address: u16, outcome: Result<u8, HardwareError>) -> bool {
        outcome == Ok::<u8, HardwareError>(0)
    }

    open spec fn writes(
        &self,
        address: u16,
        value: u8,
        after: &Self,
        outcome: Result<(), HardwareError>,
    ) -> bool {
        outcome is Ok && after == self
    }

    fn read(&self, _address: u16) -> (outcome: Result<u8, HardwareError>) {
        Ok(0)
    }

    fn write(&mut self, _address: u16, _value: u8) -> (outcome: Result<(), HardwareError>) {
        Ok(())
    }
}

/// A discard device forgets what is written to it: every write succeeds, and
/// after it every read still gives 0.
pub proof fn lemma_discard_forgets(
    device: DiscardHardware,
    address: u16,
    value: u8,
    after: DiscardHardware,
    outcome: Result<(), HardwareError>,
    read_address: u16,
    read_outcome: Result<u8, HardwareError>,
)
    requires
        device.writes(address, value, &after, outcome),
        after.reads(read_address, read_outcome),
    ensures
        outcome is Ok,
        after == device,
        read_outcome == Ok::<u8, HardwareError>(0),
{
}

} // verus!
