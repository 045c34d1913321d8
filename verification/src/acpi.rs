use vstd::prelude::*;
use vstd::utf8::valid_utf8;
use crate::bytes::{le_u32, le_u64, read_u32_le, read_u64_le};

verus! {

/// The size of an ACPI table header in bytes.
pub const ACPI_TABLE_SIZE: u64 = 36;
/// The size of an RSDP in bytes.
pub const RSDP_SIZE: usize = 36;
/// The size of the MCFG table's header in bytes: the ACPI header and eight
/// reserved bytes.
pub const MCFG_TABLE_SIZE: u64 = 44;
/// The size of one PCI configuration space description in the MCFG table.
pub const PCI_DEVICE_CONFIGURATION_SIZE: u64 = 22;

/// The four signature bytes of an ACPI table.
#[derive(Clone, Copy)]
pub struct ACPITableSignature {
    bytes: [u8; 4],
}

impl ACPITableSignature {
    pub closed spec fn spec_bytes(&self) -> Seq<u8> {
        self.bytes@
    }

    /// The signature made of `bytes`.
    pub fn new(bytes: [u8; 4]) -> (s: ACPITableSignature)
        ensures
            s.spec_bytes() == bytes@,
    {
        ACPITableSignature { bytes }
    }

    /// The signature's bytes.
    pub fn as_bytes(&self) -> (b: [u8; 4])
        ensures
            b@ == self.spec_bytes(),
    {
        self.bytes
    }

    /// Whether the signature is `XSDT`.
    pub fn is_xsdt(&self) -> (r: bool)
        ensures
            r == (self.spec_bytes() == seq![88u8, 83u8, 68u8, 84u8]),
    {
        let r = self.bytes[0] == 88 && self.bytes[1] == 83 && self.bytes[2] == 68 && self.bytes[3]
            == 84;
        proof {
            if r {
                assert(self.spec_bytes() =~= seq![88u8, 83u8, 68u8, 84u8]);
            }
        }
        r
    }
}

/// The four bytes at `off`.
fn array4(b: &[u8], off: usize) -> (a: [u8; 4])
    requires
        off + 4 <= b@.len(),
    ensures
        a@ == b@.subrange(off as int, off + 4),
{
    let a = [b[off], b[off + 1], b[off + 2], b[off + 3]];
    assert(a@ =~= b@.subrange(off as int, off + 4));
    a
}

/// The six bytes at `off`.
fn array6(b: &[u8], off: usize) -> (a: [u8; 6])
    requires
        off + 6 <= b@.len(),
    ensures
        a@ == b@.subrange(off as int, off + 6),
{
    let a = [b[off], b[off + 1], b[off + 2], b[off + 3], b[off + 4], b[off + 5]];
    assert(a@ =~= b@.subrange(off as int, off + 6));
    a
}

/// The eight bytes at `off`.
fn array8(b: &[u8], off: usize) -> (a: [u8; 8])
    requires
        off + 8 <= b@.len(),
    ensures
        a@ == b@.subrange(off as int, off + 8),
{
    let a = [b[off], b[off + 1], b[off + 2], b[off + 3], b[off + 4], b[off + 5], b[off + 6], b[off
        + 7]];
    assert(a@ =~= b@.subrange(off as int, off + 8));
    a
}

/// The Root System Description Pointer.
#[derive(Clone, Copy)]
pub struct RSDPHeader {
    pub signature: [u8; 8],
    pub checksum: u8,
    pub oem_id: [u8; 6],
    pub revision: u8,
    pub rsdt_address: u32,
    pub length: u32,
    pub xsdt_address: u64,
    pub extended_checksum: u8,
    pub reserved: [u8; 3],
}

impl RSDPHeader {
    /// The RSDP laid out in the first 36 bytes of `b`, little-endian; `None`
    /// when `b` is shorter.
    pub fn parse(b: &[u8]) -> (r: Option<RSDPHeader>)
        ensures
            b@.len() < RSDP_SIZE ==> r is None,
            b@.len() >= RSDP_SIZE ==> (r matches Some(h) && {
                &&& h.signature@ == b@.subrange(0, 8)
                &&& h.checksum == b@[8]
                &&& h.oem_id@ == b@.subrange(9, 15)
                &&& h.revision == b@[15]
                &&& h.rsdt_address == le_u32(b@, 16)
                &&& h.length == le_u32(b@, 20)
                &&& h.xsdt_address == le_u64(b@, 24)
                &&& h.extended_checksum == b@[32]
            }),
    {
        if b.len() < RSDP_SIZE {
            return None;
        }
        Some(
            RSDPHeader {
                signature: array8(b, 0),
                checksum: b[8],
                oem_id: array6(b, 9),
                revision: b[15],
                rsdt_address: read_u32_le(b, 16),
                length: read_u32_le(b, 20),
                xsdt_address: read_u64_le(b, 24),
                extended_checksum: b[32],
                reserved: [b[33], b[34], b[35]],
            },
        )
    }

    /// The address of the root table: the RSDT for revision 0, the XSDT after.
    pub fn root_table_address(&self) -> (a: u64)
        ensures
            a == if self.revision == 0 {
                self.rsdt_address as u64
            } else {
                self.xsdt_address
            },
    {
        if self.revision == 0 {
            self.rsdt_address as u64
        } else {
            self.xsdt_address
        }
    }
}

/// The header that every ACPI table starts with.
#[derive(Clone, Copy)]
pub struct ACPITable {
    pub signature: ACPITableSignature,
    pub length: u32,
    pub revision: u8,
    pub checksum: u8,
    pub oem_id: [u8; 6],
    pub oem_table_id: [u8; 8],
    pub oem_revision: u32,
    pub creator_id: u32,
    pub creator_revision: u32,
}

/// Where a table that lists other tables keeps the addresses of its entries.
pub struct ACPITableIterator {
    address: u64,
    end_address: u64,
    entry_size: u8,
}

/// Whether `t` is the ACPI header laid out at the start of `b`.
pub open spec fn acpi_header_of(b: Seq<u8>, t: ACPITable) -> bool {
    &&& t.signature.spec_bytes() == b.subrange(0, 4)
    &&& t.length == le_u32(b, 4)
    &&& t.revision == b[8]
    &&& t.checksum == b[9]
    &&& t.oem_id@ == b.subrange(10, 16)
    &&& t.oem_table_id@ == b.subrange(16, 24)
    &&& t.oem_revision == le_u32(b, 24)
    &&& t.creator_id == le_u32(b, 28)
    &&& t.creator_revision == le_u32(b, 32)
}

impl ACPITable {
    /// The table header laid out in the first 36 bytes of `b`,
    /// little-endian; `None` when `b` is shorter.
    pub fn parse(b: &[u8]) -> (r: Option<ACPITable>)
        ensures
            b@.len() < ACPI_TABLE_SIZE ==> r is None,
            b@.len() >= ACPI_TABLE_SIZE ==> (r matches Some(t) && acpi_header_of(b@, t)),
    {
        if b.len() < 36 {
            return None;
        }
        Some(
            ACPITable {
                signature: ACPITableSignature::new(array4(b, 0)),
                length: read_u32_le(b, 4),
                revision: b[8],
                checksum: b[9],
                oem_id: array6(b, 10),
                oem_table_id: array8(b, 16),
                oem_revision: read_u32_le(b, 24),
                creator_id: read_u32_le(b, 28),
                creator_revision: read_u32_le(b, 32),
            },
        )
    }

    /// The number of 8-byte entries after the header.
    pub fn entry_count(&self) -> (n: usize)
        requires
            self.length >= ACPI_TABLE_SIZE,
        ensures
            n == (self.length - ACPI_TABLE_SIZE) / 8,
    {
        ((self.length - 36) / 8) as usize
    }

    /// The entries of this table, which lies at `table_address`: they start
    /// right after the header and are 8 bytes wide in an XSDT, 4 in others.
    /// The walk ends at `table_address` plus 36 bytes for each entry.  The
    /// signature must be valid UTF-8.
    pub fn iter(&self, table_address: u64) -> (it: ACPITableIterator)
        requires
            valid_utf8(self.signature.spec_bytes()),
            self.length >= ACPI_TABLE_SIZE,
            table_address + ((self.length - ACPI_TABLE_SIZE) / 8) * ACPI_TABLE_SIZE <= u64::MAX,
            table_address + ACPI_TABLE_SIZE <= u64::MAX,
        ensures
            it.wf(),
            it.spec_address() == table_address + ACPI_TABLE_SIZE,
            it.spec_end_address() == table_address + ((self.length - ACPI_TABLE_SIZE) / 8)
                * ACPI_TABLE_SIZE,
            it.spec_entry_size() == if self.signature.spec_bytes() == seq![88u8, 83u8, 68u8, 84u8] {
                8u8
            } else {
                4u8
            },
    {
        let count = self.entry_count() as u64;
        proof {
            assert(count * 36 <= u64::MAX);
        }
        ACPITableIterator {
            address: table_address + 36,
            end_address: table_address + count * 36,
            entry_size: if self.signature.is_xsdt() {
                8
            } else {
                4
            },
        }
    }
}

impl ACPITableIterator {
    pub closed spec fn spec_address(&self) -> u64 {
        self.address
    }

    pub closed spec fn spec_end_address(&self) -> u64 {
        self.end_address
    }

    pub closed spec fn spec_entry_size(&self) -> u8 {
        self.entry_size
    }

    /// Entries are 4 or 8 bytes wide.
    pub closed spec fn wf(&self) -> bool {
        self.entry_size == 4 || self.entry_size == 8
    }

    /// The width of an entry in bytes: 8 or 4.
    pub fn entry_size(&self) -> (s: u8)
        ensures
            s == self.spec_entry_size(),
    {
        self.entry_size
    }

    /// The address of the next entry, which holds the physical address of a
    /// table; `None` when the walk is over.
    pub fn next(&mut self) -> (r: Option<u64>)
        requires
            old(self).wf(),
            old(self).spec_end_address() >= ACPI_TABLE_SIZE,
        ensures
            final(self).wf(),
            old(self).spec_address() > old(self).spec_end_address() - ACPI_TABLE_SIZE ==> r is None
                && *final(self) == *old(self),
            old(self).spec_address() <= old(self).spec_end_address() - ACPI_TABLE_SIZE ==> r
                == Some(old(self).spec_address()) && final(self).spec_address() == old(
                self,
            ).spec_address() + old(self).spec_entry_size() && final(self).spec_end_address()
                == old(self).spec_end_address() && final(self).spec_entry_size() == old(
                self,
            ).spec_entry_size(),
    {
        if self.address > self.end_address - 36 {
            None
        } else {
            let a = self.address;
            self.address = self.address + self.entry_size as u64;
            Some(a)
        }
    }
}

/// The MCFG table's header.
pub struct MCFGHeader {
    pub sdt_header: ACPITable,
    pub reserved: u64,
}

impl MCFGHeader {
    /// The MCFG header laid out in the first 44 bytes of `b`; `None` when
    /// `b` is shorter.
    pub fn parse(b: &[u8]) -> (r: Option<MCFGHeader>)
        ensures
            b@.len() < MCFG_TABLE_SIZE ==> r is None,
            b@.len() >= MCFG_TABLE_SIZE ==> (r matches Some(h) && acpi_header_of(
                b@,
                h.sdt_header,
            )),
    {
        if b.len() < 44 {
            return None;
        }
        let sdt_header = ACPITable::parse(b).unwrap();
        Some(MCFGHeader { sdt_header, reserved: read_u64_le(b, 36) })
    }
}

/// Where the MADT's interrupt controller entries start: after the ACPI
/// header, the local APIC address and the flags.
pub const MADT_ENTRIES_OFFSET: usize = 44;

/// The MADT entry type of a local APIC address override.
pub const MADT_LAPIC_ADDRESS_OVERRIDE: u8 = 5;

/// Whether a local APIC address override entry lies among the MADT entries
/// of `b` from `off` up to `end`: each entry starts with its type and its
/// length; an entry shorter than two bytes ends the walk.
pub open spec fn madt_has_override(b: Seq<u8>, off: int, end: int) -> bool
    decreases if off <= end {
        end - off
    } else {
        0
    },
{
    if off < 0 || off + 2 > end {
        false
    } else if b[off] == MADT_LAPIC_ADDRESS_OVERRIDE {
        true
    } else if b[off + 1] < 2 {
        false
    } else {
        madt_has_override(b, off + b[off + 1], end)
    }
}

/// Where the MADT of `b` ends: at the length its header gives, or at the end
/// of `b` when that comes first.
pub open spec fn madt_end(b: Seq<u8>) -> int {
    if le_u32(b, 4) < b.len() {
        le_u32(b, 4)
    } else {
        b.len() as int
    }
}

/// The local APIC that the MADT `b` describes: its address and whether the
/// flags mark a legacy PIC pair present (bit 0).  `None` when `b` is shorter
/// than the fixed part of the table, or when an entry overrides the local
/// APIC address, which the kernel does not support.
pub open spec fn madt_lapic_spec(b: Seq<u8>) -> Option<(u64, bool)> {
    if b.len() < MADT_ENTRIES_OFFSET {
        None
    } else if madt_has_override(b, MADT_ENTRIES_OFFSET as int, madt_end(b)) {
        None
    } else {
        Some((le_u32(b, 36) as u64, le_u32(b, 40) % 2 == 1))
    }
}

/// Reads the local APIC's address and flags from the MADT `madt`, and walks
/// its entries for an address override.
pub fn madt_lapic(madt: &[u8]) -> (r: Option<(u64, bool)>)
    ensures
        r == madt_lapic_spec(madt@),
{
    let n = madt.len();
    if n < MADT_ENTRIES_OFFSET {
        return None;
    }
    let length = read_u32_le(madt, 4) as usize;
    let end = if length < n {
        length
    } else {
        n
    };
    proof {
        assert(le_u32(madt@, 4) <= u32::MAX);
        assert(end == madt_end(madt@));
    }
    let mut off: usize = MADT_ENTRIES_OFFSET;
    while off < end && end - off >= 2
        invariant
            end <= n == madt@.len(),
            MADT_ENTRIES_OFFSET <= off,
            off <= end || off == MADT_ENTRIES_OFFSET,
            end == madt_end(madt@),
            madt_has_override(madt@, MADT_ENTRIES_OFFSET as int, end as int) == madt_has_override(
                madt@,
                off as int,
                end as int,
            ),
        ensures
            !madt_has_override(madt@, off as int, end as int),
        decreases end - off,
    {
        if madt[off] == MADT_LAPIC_ADDRESS_OVERRIDE {
            return None;
        }
        let len = madt[off + 1] as usize;
        if len < 2 || len > end - off {
            proof {
                let l = madt@[off + 1] as int;
                assert(l >= 2 ==> !madt_has_override(madt@, off + l, end as int));
            }
            break;
        }
        off = off + len;
    }
    let address = read_u32_le(madt, 36) as u64;
    let flags = read_u32_le(madt, 40);
    let legacy_pic = flags & 1 > 0;
    proof {
        assert((flags & 1 > 0) == (flags % 2 == 1)) by (bit_vector);
    }
    Some((address, legacy_pic))
}

} // verus!
