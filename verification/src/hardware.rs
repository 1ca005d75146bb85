//! What a piece of hardware is to the rest of the machine: a name, and
//! capabilities that a device may or may not have. A device that can be
//! addressed reads and writes bytes at local addresses; one that also has a
//! fixed size in pages can be mapped onto the address bus.

use vstd::prelude::*;

pub mod bus;
pub mod discard;
pub mod empty;
pub mod paged;

verus! {

/// What a `HardwareError` says: whether it is fatal, and its message.
pub struct Failure {
    /// Whether the machine has to halt.
    pub fatal: bool,
    /// The text that describes the failure.
    pub message: Seq<char>,
}

/// The failure of a device operation, which may or may not be fatal.
#[derive(Debug)]
pub struct HardwareError {
    fatal: bool,
    message: String,
}

impl View for HardwareError {
    type V = Failure;

    closed spec fn view(&self) -> Failure {
        Failure { fatal: self.fatal, message: self.message@ }
    }
}

impl HardwareError {
    /// Whether this error is fatal: a fatal error halts the machine, after
    /// any other the caller may go on.
    pub fn fatal(&self) -> (fatal: bool)
        ensures
            fatal == self@.fatal,
    {
        self.fatal
    }

    /// The message that describes this error.
    pub fn message(&self) -> (message: &str)
        ensures
            message@ == self@.message,
    {
        self.message.as_str()
    }

    /// Creates an error with the given fatality and message.
    pub fn new(fatal: bool, message: String) -> (error: HardwareError)
        ensures
            error@ == (Failure { fatal, message: message@ }),
    {
        HardwareError { fatal, message }
    }
}

/// A piece of hardware in the system. By itself it has a name and nothing
/// else; what more it can do is found out by probing.
pub trait Hardware {
    /// Whether `name` may be what `name` answers. A device that does not
    /// say admits any name.
    open spec fn named(&self, name: Seq<char>) -> bool {
        true
    }

    /// The name of this piece of hardware.
    fn name(&self) -> (name: &str)
        ensures
            self.named(name@),
    ;

    /// Probes for the capability of being addressed. A device that has it
    /// answers with itself; unless a device says otherwise it has not.
    fn as_addressable(&self) -> (view: Option<&Self>) where Self: Sized
        ensures
            view matches Some(device) ==> device == self,
        default_ensures
            view is None,
    {
        None
    }

    /// Probes for the capability of being addressed, for writing.
    fn as_addressable_mut(&mut self) -> (view: Option<&mut Self>) where Self: Sized
        ensures
            match view {
                Some(device) => *device == *old(self) && *final(self) == *final(device),
                None => *final(self) == *old(self),
            },
        default_ensures
            view is None,
    {
        None
    }

    /// Probes for the capability of being addressed at a fixed size.
    fn as_sized_addressable(&self) -> (view: Option<&Self>) where Self: Sized
        ensures
            view matches Some(device) ==> device == self,
        default_ensures
            view is None,
    {
        None
    }

    /// Probes for the capability of being addressed at a fixed size, for
    /// writing.
    fn as_sized_addressable_mut(&mut self) -> (view: Option<&mut Self>) where Self: Sized
        ensures
            match view {
                Some(device) => *device == *old(self) && *final(self) == *final(device),
                None => *final(self) == *old(self),
            },
        default_ensures
            view is None,
    {
        None
    }
}

/// A piece of hardware that can be addressed. Its addresses are local: they
/// start at 0, wherever the device is mapped.
pub trait AddressableHardware: Hardware {
    /// Whether reading the byte at `address` may end in `outcome`. A device
    /// that does not say admits any outcome.
    open spec fn reads(&self, address: u16, outcome: Result<u8, HardwareError>) -> bool {
        true
    }

    /// Whether writing `value` at `address` may end in `outcome` and leave
    /// the device as `after`. A device that does not say admits any outcome
    /// and any state.
    open spec fn writes(
        &self,
        address: u16,
        value: u8,
        after: &Self,
        outcome: Result<(), HardwareError>,
    ) -> bool {
        true
    }

    /// Reads the byte at the local address `address`.
    fn read(&self, address: u16) -> (outcome: Result<u8, HardwareError>)
        ensures
            self.reads(address, outcome),
    ;

    /// Writes `value` to the local address `address`.
    fn write(&mut self, address: u16, value: u8) -> (outcome: Result<(), HardwareError>)
        ensures
            old(self).writes(address, value, final(self), outcome),
    ;
}

/// A piece of addressable hardware of a fixed size.
pub trait SizedAddressableHardware: AddressableHardware {
    /// Whether `pages` may be what `size` answers. A device that does not say
    /// admits any size.
    open spec fn sized(&self, pages: u8) -> bool {
        true
    }

    /// The size of this piece of hardware in pages of 256 bytes.
    fn size(&self) -> (pages: u8)
        ensures
            self.sized(pages),
    ;
}

} // verus!
