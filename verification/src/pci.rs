use vstd::prelude::*;
use crate::acpi::{ACPITable, ACPI_TABLE_SIZE, MCFG_TABLE_SIZE, PCI_DEVICE_CONFIGURATION_SIZE, acpi_header_of};
use crate::bytes::{le_u32, le_u64, read_u32_le, read_u64_le};

verus! {

/// One PCI configuration space in the MCFG table.
#[derive(Clone, Copy)]
pub struct PCIDeviceConfiguration {
    base_address: u64,
    segment_group: u64,
    start_bus: u8,
    end_bus: u8,
    _reserved: u32,
}

impl PCIDeviceConfiguration {
    pub closed spec fn spec_base_address(&self) -> u64 {
        self.base_address
    }

    pub closed spec fn spec_segment_group(&self) -> u64 {
        self.segment_group
    }

    pub closed spec fn spec_start_bus(&self) -> u8 {
        self.start_bus
    }

    pub closed spec fn spec_end_bus(&self) -> u8 {
        self.end_bus
    }

    /// The description laid out in the first 22 bytes of `b`; `None` when `b`
    /// is shorter.
    pub fn parse(b: &[u8]) -> (r: Option<PCIDeviceConfiguration>)
        ensures
            b@.len() < PCI_DEVICE_CONFIGURATION_SIZE ==> r is None,
            b@.len() >= PCI_DEVICE_CONFIGURATION_SIZE ==> (r matches Some(c) && {
                &&& c.spec_base_address() == le_u64(b@, 0)
                &&& c.spec_segment_group() == le_u64(b@, 8)
                &&& c.spec_start_bus() == b@[16]
                &&& c.spec_end_bus() == b@[17]
            }),
    {
        if b.len() < 22 {
            return None;
        }
        Some(
            PCIDeviceConfiguration {
                base_address: read_u64_le(b, 0),
                segment_group: read_u64_le(b, 8),
                start_bus: b[16],
                end_bus: b[17],
                _reserved: read_u32_le(b, 18),
            },
        )
    }

    /// The base address of the configuration space.
    pub fn base_address(&self) -> (a: u64)
        ensures
            a == self.spec_base_address(),
    {
        self.base_address
    }

    /// The PCI segment group.
    pub fn segment_group(&self) -> (g: u64)
        ensures
            g == self.spec_segment_group(),
    {
        self.segment_group
    }

    /// The first bus the configuration space covers.
    pub fn start_bus(&self) -> (b: u8)
        ensures
            b == self.spec_start_bus(),
    {
        self.start_bus
    }

    /// The last bus the configuration space covers.
    pub fn end_bus(&self) -> (b: u8)
        ensures
            b == self.spec_end_bus(),
    {
        self.end_bus
    }
}

/// The MCFG table: an ACPI header, eight reserved bytes, then the
/// configuration space descriptions.
#[derive(Clone, Copy)]
pub struct MCFGTable {
    acpi_header: ACPITable,
    _reserved: u64,
}

/// Where the configuration space descriptions of an MCFG table lie.
pub struct MCFGIterator {
    address: u64,
    end_address: u64,
}

impl MCFGTable {
    pub closed spec fn spec_header(&self) -> ACPITable {
        self.acpi_header
    }

    /// The table laid out in the first 44 bytes of `b`; `None` when `b` is
    /// shorter.
    pub fn parse(b: &[u8]) -> (r: Option<MCFGTable>)
        ensures
            b@.len() < MCFG_TABLE_SIZE ==> r is None,
            b@.len() >= MCFG_TABLE_SIZE ==> (r matches Some(t) && acpi_header_of(
                b@,
                t.spec_header(),
            )),
    {
        if b.len() < 44 {
            return None;
        }
        let acpi_header = ACPITable::parse(b).unwrap();
        Some(MCFGTable { acpi_header, _reserved: read_u64_le(b, 36) })
    }

    /// The number of entries, counted as the ACPI header counts them.
    pub fn entry_count(&self) -> (n: usize)
        requires
            self.spec_header().length >= ACPI_TABLE_SIZE,
        ensures
            n == (self.spec_header().length - ACPI_TABLE_SIZE) / 8,
    {
        self.acpi_header.entry_count()
    }

    /// The descriptions of this table, which lies at `table_address`: they
    /// start `physical_memory_offset` bytes after the end of the header and
    /// span 8 bytes for each entry.
    pub fn iter(&self, table_address: u64, physical_memory_offset: u64) -> (it: MCFGIterator)
        requires
            self.spec_header().length >= ACPI_TABLE_SIZE,
            table_address + MCFG_TABLE_SIZE + physical_memory_offset + ((
            self.spec_header().length - ACPI_TABLE_SIZE) / 8) * 8 <= u64::MAX,
        ensures
            it.spec_address() == table_address + MCFG_TABLE_SIZE + physical_memory_offset,
            it.spec_end_address() == it.spec_address() + ((self.spec_header().length
                - ACPI_TABLE_SIZE) / 8) * 8,
    {
        let address = table_address + 44 + physical_memory_offset;
        let count = self.entry_count() as u64;
        MCFGIterator { address, end_address: address + count * 8 }
    }
}

impl MCFGIterator {
    pub closed spec fn spec_address(&self) -> u64 {
        self.address
    }

    pub closed spec fn spec_end_address(&self) -> u64 {
        self.end_address
    }

    /// The address of the next configuration space description; `None` when
    /// the walk is over.
    pub fn next(&mut self) -> (r: Option<u64>)
        requires
            old(self).spec_address() < old(self).spec_end_address() ==> old(self).spec_address()
                + PCI_DEVICE_CONFIGURATION_SIZE <= u64::MAX,
        ensures
            old(self).spec_address() >= old(self).spec_end_address() ==> r is None && *final(self)
                == *old(self),
            old(self).spec_address() < old(self).spec_end_address() ==> r == Some(
                old(self).spec_address(),
            ) && final(self).spec_address() == old(self).spec_address()
                + PCI_DEVICE_CONFIGURATION_SIZE && final(self).spec_end_address() == old(
                self,
            ).spec_end_address(),
    {
        if self.address >= self.end_address {
            None
        } else {
            let a = self.address;
            self.address = self.address + 22;
            Some(a)
        }
    }
}

/// The storage controllers the kernel has drivers for.
#[derive(Clone, Copy, Debug, PartialEq, Eq, Structural)]
pub enum StorageController {
    /// A SATA controller speaking AHCI 1.0.
    Ahci,
    /// A non-volatile memory controller speaking NVMe.
    Nvme,
}

/// The driver for a PCI function of class `class`, subclass `subclass` and
/// programming interface `prog_if`: mass storage (0x01) with SATA (0x06) and
/// AHCI (0x01), or with non-volatile memory (0x08) and NVMe (0x02).
pub fn storage_controller(class: u8, subclass: u8, prog_if: u8) -> (r: Option<StorageController>)
    ensures
        r == if class == 0x01 && subclass == 0x06 && prog_if == 0x01 {
            Some(StorageController::Ahci)
        } else if class == 0x01 && subclass == 0x08 && prog_if == 0x02 {
            Some(StorageController::Nvme)
        } else {
            None
        },
{
    match class {
        0x01 => match subclass {
            0x06 => match prog_if {
                0x01 => Some(StorageController::Ahci),
                _ => None,
            },
            0x08 => match prog_if {
                0x02 => Some(StorageController::Nvme),
                _ => None,
            },
            _ => None,
        },
        _ => None,
    }
}

/// The driver `storage_controller` picks for a PCI function given as
/// (class, subclass, programming interface).
pub open spec fn storage_controller_spec(function: (u8, u8, u8)) -> Option<StorageController> {
    let (class, subclass, prog_if) = function;
    if class == 0x01 && subclass == 0x06 && prog_if == 0x01 {
        Some(StorageController::Ahci)
    } else if class == 0x01 && subclass == 0x08 && prog_if == 0x02 {
        Some(StorageController::Nvme)
    } else {
        None
    }
}

/// The driver for each of the PCI functions that the configuration space
/// lists, given as (class, subclass, programming interface), in their order.
pub fn storage_drivers(functions: &[(u8, u8, u8)]) -> (r: Vec<Option<StorageController>>)
    ensures
        r@.len() == functions@.len(),
        forall|i: int| 0 <= i < r@.len() ==> r@[i] == storage_controller_spec(#[trigger] functions@[i]),
{
    let mut r: Vec<Option<StorageController>> = Vec::new();
    let mut i: usize = 0;
    while i < functions.len()
        invariant
            i <= functions@.len(),
            r@.len() == i,
            forall|j: int| 0 <= j < i ==> r@[j] == storage_controller_spec(#[trigger] functions@[j]),
        decreases functions@.len() - i,
    {
        let (class, subclass, prog_if) = functions[i];
        r.push(storage_controller(class, subclass, prog_if));
        i = i + 1;
    }
    r
}

} // verus!
