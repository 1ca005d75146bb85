//! The address bus: one sixteen-bit address space, shared out page by page
//! among the devices attached to it.
//!
//! The bus keeps its devices in the order in which they were attached, and
//! for each the number of pages it was attached with. That sequence of page
//! counts is the layout of the bus, and everything about addresses follows
//! from it: the first device starts at address 0, and each later one starts
//! where the one before it ends.

use crate::hardware::{Failure, HardwareError, SizedAddressableHardware};
use vstd::prelude::*;

verus! {

/// The number of bytes in a page, the unit in which devices are sized.
pub const PAGE_SIZE: u32 = 256;

/// The number of addresses on the bus.
pub const ADDRESS_SPACE: u32 = 0x1_0000;

/// Why a device could not be attached.
#[derive(Copy, Clone, Debug, PartialEq, Eq, Structural)]
pub enum AllocationError {
    /// The device has a size of no pages.
    ZeroPages,
    /// The device does not fit into what is left of the address space.
    OutOfSpace,
}

/// The number of pages that the first `n` devices of `layout` take up
/// together.
pub open spec fn pages_before(layout: Seq<u8>, n: int) -> int
    decreases n,
{
    if n <= 0 {
        0
    } else {
        pages_before(layout, n - 1) + layout[n - 1]
    }
}

/// The number of pages that all devices of `layout` take up together.
pub open spec fn pages_total(layout: Seq<u8>) -> int {
    pages_before(layout, layout.len() as int)
}

/// The address at which device `i` of `layout` starts.
pub open spec fn base_of(layout: Seq<u8>, i: int) -> int {
    PAGE_SIZE * pages_before(layout, i)
}

/// The address just past the last one of device `i` of `layout`.
pub open spec fn end_of(layout: Seq<u8>, i: int) -> int {
    base_of(layout, i) + PAGE_SIZE * layout[i]
}

/// Whether `address` lies in the range of device `i` of `layout`.
pub open spec fn maps(layout: Seq<u8>, i: int, address: int) -> bool {
    0 <= i < layout.len() && base_of(layout, i) <= address < end_of(layout, i)
}

/// The device of `layout` in whose range `address` lies, if there is one.
pub open spec fn owner(layout: Seq<u8>, address: int) -> Option<int> {
    if exists|i: int| maps(layout, i, address) {
        Some(choose|i: int| maps(layout, i, address))
    } else {
        None
    }
}

/// What holds of the layout of every bus: no device is empty, and together
/// the devices fit into the address space.
pub open spec fn valid_layout(layout: Seq<u8>) -> bool {
    &&& forall|i: int| 0 <= i < layout.len() ==> #[trigger] layout[i] >= 1
    &&& PAGE_SIZE * pages_total(layout) <= ADDRESS_SPACE
}

/// What the bus answers for an address that no device owns.
pub open spec fn unmapped_address() -> Failure {
    Failure { fatal: true, message: "unmapped address"@ }
}

/// The pages before a device are no fewer than the pages before an earlier
/// one.
pub proof fn lemma_pages_before_grows(layout: Seq<u8>, i: int, j: int)
    requires
        i <= j,
    ensures
        0 <= pages_before(layout, i) <= pages_before(layout, j),
    decreases j - i, j,
{
    if i < j {
        lemma_pages_before_grows(layout, i, j - 1);
    } else if i > 0 {
        lemma_pages_before_grows(layout, i - 1, j - 1);
    }
}

/// The devices lie on the bus in the order in which they were attached, and
/// none overlaps another: a device ends before or where any later one starts.
pub proof fn lemma_ranges_in_order(layout: Seq<u8>, i: int, j: int)
    requires
        0 <= i < j,
    ensures
        base_of(layout, i) <= end_of(layout, i) <= base_of(layout, j),
{
    lemma_pages_before_grows(layout, i + 1, j);
    lemma_pages_before_grows(layout, 0, i);
}

/// There are no gaps: the first device starts at address 0, each device
/// starts on a page boundary, and each starts exactly where the one before it
/// ends.
pub proof fn lemma_ranges_adjoin(layout: Seq<u8>, i: int)
    requires
        0 <= i,
    ensures
        base_of(layout, 0) == 0,
        base_of(layout, i) % (PAGE_SIZE as int) == 0,
        base_of(layout, i + 1) == end_of(layout, i),
{
    let k: int = pages_before(layout, i);
    assert((256 * k) % 256 == 0) by (nonlinear_arith);
}

/// In a valid layout every device has a range that is not empty and ends
/// within the address space, so that base addresses strictly increase and
/// each fits into sixteen bits.
pub proof fn lemma_ranges_fit(layout: Seq<u8>, i: int)
    requires
        valid_layout(layout),
        0 <= i < layout.len(),
    ensures
        0 <= base_of(layout, i) < end_of(layout, i) <= ADDRESS_SPACE,
        end_of(layout, i) - base_of(layout, i) == PAGE_SIZE * layout[i],
{
    lemma_pages_before_grows(layout, 0, i);
    lemma_pages_before_grows(layout, i + 1, layout.len() as int);
}

/// In a valid layout the ranges of any two devices are apart, the earlier
/// device below the later one, and both within the address space.
pub proof fn lemma_ranges_disjoint(layout: Seq<u8>, i: int, j: int)
    requires
        valid_layout(layout),
        0 <= i < j < layout.len(),
    ensures
        0 <= base_of(layout, i) < end_of(layout, i) <= base_of(layout, j) < end_of(layout, j)
            <= ADDRESS_SPACE,
{
    lemma_ranges_fit(layout, i);
    lemma_ranges_fit(layout, j);
    lemma_ranges_in_order(layout, i, j);
}

/// The owner of an address is a device of the layout, and the address lies in
/// its range.
pub proof fn lemma_owner_in_range(layout: Seq<u8>, address: int)
    ensures
        owner(layout, address) matches Some(i) ==> maps(layout, i, address),
{
}

/// No address lies in the ranges of two devices: the device in whose range an
/// address lies is its owner, and no other device is.
pub proof fn lemma_owner_is_unique(layout: Seq<u8>, address: int, i: int)
    requires
        maps(layout, i, address),
    ensures
        owner(layout, address) == Some(i),
        forall|j: int| j != i ==> !maps(layout, j, address),
{
    assert forall|j: int| j != i implies !maps(layout, j, address) by {
        if 0 <= j < layout.len() {
            if j < i {
                lemma_ranges_in_order(layout, j, i);
            } else {
                lemma_ranges_in_order(layout, i, j);
            }
        }
    }
}

/// Ranges are half-open: the address at which a device ends belongs to the
/// device attached after it.
pub proof fn lemma_boundary_belongs_to_next(layout: Seq<u8>, i: int)
    requires
        valid_layout(layout),
        0 <= i,
        i + 1 < layout.len(),
    ensures
        !maps(layout, i, end_of(layout, i)),
        owner(layout, end_of(layout, i)) == Some(i + 1),
{
    lemma_ranges_adjoin(layout, i);
    lemma_ranges_fit(layout, i + 1);
    lemma_owner_is_unique(layout, end_of(layout, i), i + 1);
}

/// The addresses that have an owner are those below the end of the last
/// device; every address from there on has none.
pub proof fn lemma_owned_below_limit(layout: Seq<u8>, address: int)
    requires
        0 <= address,
    ensures
        owner(layout, address) is Some <==> address < PAGE_SIZE * pages_total(layout),
{
    if address < PAGE_SIZE * pages_total(layout) {
        lemma_find_owner(layout, address, layout.len() as int);
    } else {
        assert forall|i: int| !maps(layout, i, address) by {
            if 0 <= i < layout.len() {
                lemma_pages_before_grows(layout, i + 1, layout.len() as int);
            }
        }
    }
}

/// An address below the start of device `n` lies in the range of a device
/// before it.
proof fn lemma_find_owner(layout: Seq<u8>, address: int, n: int)
    requires
        0 <= n <= layout.len(),
        0 <= address < base_of(layout, n),
    ensures
        exists|i: int| maps(layout, i, address),
    decreases n,
{
    if base_of(layout, n - 1) <= address {
        assert(maps(layout, n - 1, address));
    } else {
        lemma_find_owner(layout, address, n - 1);
    }
}

/// A device attached at the end takes nothing from the devices before it:
/// they keep their base addresses and their addresses, the new device starts
/// where the last of them ends, and the pages in use grow by its own.
pub proof fn lemma_attach_keeps_ranges(layout: Seq<u8>, pages: u8, i: int, address: int)
    requires
        0 <= i <= layout.len(),
    ensures
        base_of(layout.push(pages), i) == base_of(layout, i),
        pages_total(layout.push(pages)) == pages_total(layout) + pages,
        maps(layout, i, address) ==> maps(layout.push(pages), i, address),
{
    lemma_push_keeps_pages(layout, pages, i);
    lemma_push_keeps_pages(layout, pages, layout.len() as int);
}

/// The pages before device `n` do not depend on what is attached later.
proof fn lemma_push_keeps_pages(layout: Seq<u8>, pages: u8, n: int)
    requires
        n <= layout.len(),
    ensures
        pages_before(layout.push(pages), n) == pages_before(layout, n),
    decreases n,
{
    if n > 0 {
        lemma_push_keeps_pages(layout, pages, n - 1);
    }
}

/// A device that is not empty and fits into what is left of the address space
/// keeps a valid layout valid.
pub proof fn lemma_attach_keeps_valid(layout: Seq<u8>, pages: u8)
    requires
        valid_layout(layout),
        pages >= 1,
        PAGE_SIZE * (pages_total(layout) + pages) <= ADDRESS_SPACE,
    ensures
        valid_layout(layout.push(pages)),
{
    lemma_attach_keeps_ranges(layout, pages, 0, 0);
}

/// The pages before device `k` do not depend on the devices from `n` on.
proof fn lemma_take_keeps_pages(layout: Seq<u8>, n: int, k: int)
    requires
        k <= n <= layout.len(),
    ensures
        pages_before(layout.take(n), k) == pages_before(layout, k),
    decreases k,
{
    if k > 0 {
        lemma_take_keeps_pages(layout, n, k - 1);
    }
}

/// A valid layout is one that attaching builds, device by device: when device
/// `n` was attached after those before it, the layout was valid, the device
/// was not empty and fit into what was left, and the address it was given is
/// the one at which it still starts.
pub proof fn lemma_valid_layout_is_built(layout: Seq<u8>, n: int)
    requires
        valid_layout(layout),
        0 <= n < layout.len(),
    ensures
        valid_layout(layout.take(n)),
        layout[n] >= 1,
        PAGE_SIZE * (pages_total(layout.take(n)) + layout[n]) <= ADDRESS_SPACE,
        layout.take(n + 1) == layout.take(n).push(layout[n]),
        PAGE_SIZE * pages_total(layout.take(n)) == base_of(layout, n),
{
    lemma_take_keeps_pages(layout, n, n);
    lemma_pages_before_grows(layout, n + 1, layout.len() as int);
    assert(layout.take(n + 1) =~= layout.take(n).push(layout[n]));
}

/// Attaching a device takes no address from the device that owned it.
pub proof fn lemma_attach_keeps_owners(layout: Seq<u8>, pages: u8, address: int)
    ensures
        owner(layout, address) matches Some(i) ==> owner(layout.push(pages), address) == Some(i),
{
    if let Some(i) = owner(layout, address) {
        lemma_attach_keeps_ranges(layout, pages, i, address);
        lemma_owner_is_unique(layout.push(pages), address, i);
    }
}

/// A device and its place on the bus.
struct Mapping<D> {
    /// The address at which the device starts.
    base: u16,
    /// The number of pages that the device was attached with.
    pages: u8,
    device: D,
}

/// The page counts of a sequence of mappings.
spec fn layout_of<D>(mappings: Seq<Mapping<D>>) -> Seq<u8> {
    Seq::new(mappings.len(), |i: int| mappings[i].pages)
}

/// The devices of a sequence of mappings.
spec fn devices_of<D>(mappings: Seq<Mapping<D>>) -> Seq<D> {
    Seq::new(mappings.len(), |i: int| mappings[i].device)
}

/// Whether the layout of `mappings` is valid and each base address is the
/// one that the layout gives.
spec fn in_order<D>(mappings: Seq<Mapping<D>>) -> bool {
    &&& valid_layout(layout_of(mappings))
    &&& forall|i: int|
        0 <= i < mappings.len() ==> #[trigger] mappings[i].base == base_of(layout_of(mappings), i)
}

/// The address bus. It owns the devices attached to it.
pub struct AddressBus<D: SizedAddressableHardware> {
    mappings: Vec<Mapping<D>>,
}

impl<D: SizedAddressableHardware> AddressBus<D> {
    /// What holds of every bus: its layout is valid, and the base address it
    /// keeps for each device is the one that the layout gives.
    #[verifier::type_invariant]
    spec fn wf(&self) -> bool {
        in_order(self.mappings@)
    }

    /// The number of pages of each device, in the order in which the devices
    /// were attached.
    pub closed spec fn layout(&self) -> Seq<u8> {
        layout_of(self.mappings@)
    }

    /// The devices on the bus, in the order in which they were attached.
    pub closed spec fn devices(&self) -> Seq<D> {
        devices_of(self.mappings@)
    }

    /// What every bus shows of its being in order: its layout is valid, and
    /// it has a device for each entry of the layout.
    pub open spec fn well_formed(&self) -> bool {
        &&& valid_layout(self.layout())
        &&& self.devices().len() == self.layout().len()
    }

    /// Creates a bus with no device on it.
    pub fn new() -> (bus: Self)
        ensures
            bus.layout() == Seq::<u8>::empty(),
            bus.devices() == Seq::<D>::empty(),
            bus.well_formed(),
    {
        let bus = AddressBus { mappings: Vec::new() };
        assert(bus.layout() =~= Seq::<u8>::empty());
        assert(bus.devices() =~= Seq::<D>::empty());
        assert(pages_total(Seq::<u8>::empty()) == 0);
        bus
    }

    /// The first address that belongs to no device yet.
    fn limit(&self) -> (limit: u32)
        ensures
            limit == PAGE_SIZE * pages_total(self.layout()),
            limit <= ADDRESS_SPACE,
    {
        proof {
            use_type_invariant(self);
        }
        let n: usize = self.mappings.len();
        if n == 0 {
            0
        } else {
            let last = &self.mappings[n - 1];
            proof {
                lemma_ranges_fit(self.layout(), n - 1);
            }
            last.base as u32 + PAGE_SIZE * (last.pages as u32)
        }
    }

    /// Attaches `device` after the devices already on the bus, at the next
    /// page boundary, and returns the address at which it starts. The device
    /// is asked for its size once, here, and keeps the pages it gets. The bus
    /// takes the device over, so none can be attached twice.
    ///
    /// A device of no pages is refused, and so is one that would reach past
    /// address 0xFFFF. A refusal leaves the bus as it was.
    pub fn attach(&mut self, device: D) -> (result: Result<u16, AllocationError>)
        ensures
            match result {
                Ok(base) => {
                    let pages: u8 = final(self).layout().last();
                    &&& device.sized(pages)
                    &&& pages >= 1
                    &&& PAGE_SIZE * (pages_total(old(self).layout()) + pages) <= ADDRESS_SPACE
                    &&& base == PAGE_SIZE * pages_total(old(self).layout())
                    &&& final(self).layout() == old(self).layout().push(pages)
                    &&& final(self).devices() == old(self).devices().push(device)
                },
                Err(AllocationError::ZeroPages) => {
                    &&& device.sized(0)
                    &&& *final(self) == *old(self)
                },
                Err(AllocationError::OutOfSpace) => {
                    &&& exists|pages: u8|
                        {
                            &&& #[trigger] device.sized(pages)
                            &&& pages >= 1
                            &&& PAGE_SIZE * (pages_total(old(self).layout()) + pages)
                                > ADDRESS_SPACE
                        }
                    &&& *final(self) == *old(self)
                },
            },
            (forall|pages: u8| #[trigger]
                device.sized(pages) ==> pages >= 1 && PAGE_SIZE * (pages_total(old(self).layout())
                    + pages) <= ADDRESS_SPACE) ==> result is Ok,
            final(self).well_formed(),
    {
        proof {
            use_type_invariant(&*self);
        }
        let pages: u8 = device.size();
        if pages == 0 {
            return Err(AllocationError::ZeroPages);
        }
        let base: u32 = self.limit();
        if base + PAGE_SIZE * (pages as u32) > ADDRESS_SPACE {
            return Err(AllocationError::OutOfSpace);
        }
        let ghost layout = self.layout();
        let ghost devices = self.devices();
        // The mappings leave the bus while the new one is added, so that the
        // bus is in order at every moment.
        let mut mappings: Vec<Mapping<D>> = Vec::new();
        core::mem::swap(&mut self.mappings, &mut mappings);
        mappings.push(Mapping { base: base as u16, pages, device });
        proof {
            let grown = layout_of(mappings@);
            assert(grown =~= layout.push(pages));
            assert(devices_of(mappings@) =~= devices.push(device));
            lemma_attach_keeps_valid(layout, pages);
            assert forall|i: int| 0 <= i < mappings@.len() implies #[trigger] mappings@[i].base
                == base_of(grown, i) by {
                lemma_attach_keeps_ranges(layout, pages, i, 0);
            }
        }
        self.mappings = mappings;
        Ok(base as u16)
    }

    /// Finds the device in whose range `address` lies, and the local address
    /// that `address` is within that device. Returns the device's position on
    /// the bus and the local address, or `None` if no device owns `address`.
    pub fn locate(&self, address: u16) -> (place: Option<(usize, u16)>)
        ensures
            match place {
                Some((index, local)) => {
                    &&& owner(self.layout(), address as int) == Some(index as int)
                    &&& index < self.devices().len()
                    &&& local == address - base_of(self.layout(), index as int)
                    &&& local < PAGE_SIZE * self.layout()[index as int]
                },
                None => owner(self.layout(), address as int) is None,
            },
            self.well_formed(),
    {
        proof {
            use_type_invariant(self);
        }
        let mut index: usize = 0;
        while index < self.mappings.len()
            invariant
                index <= self.mappings@.len(),
                in_order(self.mappings@),
                self.layout() == layout_of(self.mappings@),
                forall|i: int| 0 <= i < index ==> !maps(self.layout(), i, address as int),
            decreases self.mappings@.len() - index,
        {
            let mapping = &self.mappings[index];
            proof {
                lemma_ranges_fit(self.layout(), index as int);
            }
            if mapping.base <= address {
                let local: u16 = address - mapping.base;
                if (local as u32) < PAGE_SIZE * (mapping.pages as u32) {
                    proof {
                        lemma_owner_is_unique(self.layout(), address as int, index as int);
                    }
                    return Some((index, local));
                }
            }
            index += 1;
        }
        None
    }

    /// Reads the byte at `address` from the device that owns the address, at
    /// the device's local address. What the device answers is handed on as
    /// it is, an error with the fatality that the device gave it. Where no
    /// device owns the address, the error is the bus's own, and fatal.
    pub fn read(&self, address: u16) -> (outcome: Result<u8, HardwareError>)
        ensures
            match owner(self.layout(), address as int) {
                Some(i) => self.devices()[i].reads(
                    (address - base_of(self.layout(), i)) as u16,
                    outcome,
                ),
                None => outcome matches Err(error) && error@ == unmapped_address(),
            },
            self.well_formed(),
    {
        match self.locate(address) {
            Some((index, local)) => self.mappings[index].device.read(local),
            None => Err(HardwareError::new(true, "unmapped address".to_owned())),
        }
    }

    /// Writes `value` at `address` to the device that owns the address, at
    /// the device's local address, and hands on what the device answers. No
    /// other device is touched, and no device changes its place. Where no
    /// device owns the address nothing is written, and the error is the
    /// bus's own, and fatal.
    pub fn write(&mut self, address: u16, value: u8) -> (outcome: Result<(), HardwareError>)
        ensures
            final(self).layout() == old(self).layout(),
            match owner(old(self).layout(), address as int) {
                Some(i) => {
                    &&& old(self).devices()[i].writes(
                        (address - base_of(old(self).layout(), i)) as u16,
                        value,
                        &final(self).devices()[i],
                        outcome,
                    )
                    &&& final(self).devices() == old(self).devices().update(
                        i,
                        final(self).devices()[i],
                    )
                },
                None => {
                    &&& outcome matches Err(error) && error@ == unmapped_address()
                    &&& *final(self) == *old(self)
                },
            },
            final(self).well_formed(),
    {
        proof {
            use_type_invariant(&*self);
        }
        match self.locate(address) {
            Some((index, local)) => {
                let ghost layout = self.layout();
                let ghost devices = self.devices();
                // The mappings leave the bus for the time of the write, so
                // that the bus is in order at every moment.
                let mut mappings: Vec<Mapping<D>> = Vec::new();
                core::mem::swap(&mut self.mappings, &mut mappings);
                let outcome = mappings[index].device.write(local, value);
                proof {
                    let i: int = index as int;
                    assert(layout_of(mappings@) =~= layout);
                    assert(devices_of(mappings@) =~= devices.update(i, mappings@[i].device));
                }
                self.mappings = mappings;
                outcome
            },
            None => Err(HardwareError::new(true, "unmapped address".to_owned())),
        }
    }

    /// The number of devices on the bus.
    pub fn len(&self) -> (n: usize)
        ensures
            n == self.devices().len(),
            self.well_formed(),
    {
        proof {
            use_type_invariant(self);
        }
        self.mappings.len()
    }

    /// The address at which the device at position `index` starts, or `None`
    /// if there are not that many devices.
    pub fn base_address(&self, index: usize) -> (base: Option<u16>)
        ensures
            match base {
                Some(address) => {
                    &&& index < self.layout().len()
                    &&& address == base_of(self.layout(), index as int)
                },
                None => index >= self.layout().len(),
            },
    {
        proof {
            use_type_invariant(self);
        }
        if index < self.mappings.len() {
            Some(self.mappings[index].base)
        } else {
            None
        }
    }

    /// The number of pages of the device at position `index`, or `None` if
    /// there are not that many devices.
    pub fn pages(&self, index: usize) -> (pages: Option<u8>)
        ensures
            match pages {
                Some(count) => index < self.layout().len() && count == self.layout()[index as int],
                None => index >= self.layout().len(),
            },
    {
        if index < self.mappings.len() {
            Some(self.mappings[index].pages)
        } else {
            None
        }
    }

    /// The device at position `index`, or `None` if there are not that many
    /// devices.
    pub fn device(&self, index: usize) -> (device: Option<&D>)
        ensures
            match device {
                Some(device) => index < self.devices().len() && *device == self.devices()[index as int],
                None => index >= self.devices().len(),
            },
    {
        if index < self.mappings.len() {
            Some(&self.mappings[index].device)
        } else {
            None
        }
    }
}

} // verus!
