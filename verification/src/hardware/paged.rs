//! A fixed size for a device that has none of its own.

use crate::hardware::{AddressableHardware, Hardware, HardwareError, SizedAddressableHardware};
use vstd::prelude::*;

verus! {

/// An addressable device together with the number of pages it is to take up.
/// Reads and writes go to the device unchanged; the size is the one given at
/// construction and never changes.
#[derive(Debug)]
pub struct Paged<D: AddressableHardware> {
    device: D,
    pages: u8,
}

impl<D: AddressableHardware> Paged<D> {
    /// The device inside.
    pub closed spec fn spec_device(&self) -> D {
        self.device
    }

    /// The number of pages given at construction.
    pub closed spec fn spec_pages(&self) -> u8 {
        self.pages
    }

    /// A `Paged` is what its device and its size make it: two of the same
    /// device and the same size are the same.
    pub proof fn lemma_same_parts(&self, other: &Self)
        requires
            self.spec_device() == other.spec_device(),
            self.spec_pages() == other.spec_pages(),
        ensures
            self == other,
    {
    }

    /// Gives `device` a size of `pages` pages.
    pub fn new(device: D, pages: u8) -> (paged: Self)
        ensures
            paged.spec_device() == device,
            paged.spec_pages() == pages,
    {
        Paged { device, pages }
    }

    /// The device inside.
    pub fn device(&self) -> (device: &D)
        ensures
            *device == self.spec_device(),
    {
        &self.device
    }

    /// Takes the size away again and hands the device back.
    pub fn into_device(self) -> (device: D)
        ensures
            device == self.spec_device(),
    {
        self.device
    }
}

impl<D: AddressableHardware> Hardware for Paged<D> {
    open spec fn named(&self, name: Seq<char>) -> bool {
        self.spec_device().named(name)
    }

    fn name(&self) -> (name: &str) {
        self.device.name()
    }

    fn as_addressable(&self) -> (view: Option<&Self>)
        ensures
            view is Some,
    {
        Some(self)
    }

    fn as_addressable_mut(&mut self) -> (view: Option<&mut Self>)
        ensures
            view is Some,
    {
        Some(self)
    }

    fn as_sized_addressable(&self) -> (view: Option<&Self>)
        ensures
            view is Some,
    {
        Some(self)
    }

    fn as_sized_addressable_mut(&mut self) -> (view: Option<&mut Self>)
        ensures
            view is Some,
    {
        Some(self)
    }
}

impl<D: AddressableHardware> AddressableHardware for Paged<D> {
    open spec fn reads(&self, address: u16, outcome: Result<u8, HardwareError>) -> bool {
        self.spec_device().reads(address, outcome)
    }

    open spec fn writes(
        &self,
        address: u16,
        value: u8,
        after: &Self,
        outcome: Result<(), HardwareError>,
    ) -> bool {
        &&& self.spec_device().writes(address, value, &after.spec_device(), outcome)
        &&& after.spec_pages() == self.spec_pages()
    }

    fn read(&self, address: u16) -> (outcome: Result<u8, HardwareError>) {
        self.device.read(address)
    }

    fn write(&mut self, address: u16, value: u8) -> (outcome: Result<(), HardwareError>) {
        self.device.write(address, value)
    }
}

impl<D: AddressableHardware> SizedAddressableHardware for Paged<D> {
    open spec fn sized(&self, pages: u8) -> bool {
        pages == self.spec_pages()
    }

    fn size(&self) -> (pages: u8) {
        self.pages
    }
}

} // verus!
