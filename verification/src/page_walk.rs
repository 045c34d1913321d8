use vstd::prelude::*;
use x86_64::VirtAddr;

verus! {

/// The bits of a page table entry that hold the physical address of the next
/// table or of the page.
pub const ENTRY_ADDRESS_MASK: u64 = 0x000f_ffff_ffff_f000;

/// Whether `addr` is a canonical virtual address: bits 48 to 63 copy bit 47.
pub open spec fn canonical(addr: u64) -> bool {
    addr < 0x0000_8000_0000_0000 || addr >= 0xffff_8000_0000_0000
}

/// `VirtAddr::p4_index`: bits 39 to 47 of the address.  `VirtAddr::new`
/// panics on an address that is not canonical.
#[verifier::external_body]
fn p4_index(addr: u64) -> (i: u16)
    requires
        canonical(addr),
    ensures
        i == (addr >> 39u64) % 512,
{
    u16::from(VirtAddr::new(addr).p4_index())
}

/// `VirtAddr::p3_index`: bits 30 to 38 of the address.
#[verifier::external_body]
fn p3_index(addr: u64) -> (i: u16)
    requires
        canonical(addr),
    ensures
        i == (addr >> 30u64) % 512,
{
    u16::from(VirtAddr::new(addr).p3_index())
}

/// `VirtAddr::p2_index`: bits 21 to 29 of the address.
#[verifier::external_body]
fn p2_index(addr: u64) -> (i: u16)
    requires
        canonical(addr),
    ensures
        i == (addr >> 21u64) % 512,
{
    u16::from(VirtAddr::new(addr).p2_index())
}

/// `VirtAddr::p1_index`: bits 12 to 20 of the address.
#[verifier::external_body]
fn p1_index(addr: u64) -> (i: u16)
    requires
        canonical(addr),
    ensures
        i == (addr >> 12u64) % 512,
{
    u16::from(VirtAddr::new(addr).p1_index())
}

/// `VirtAddr::page_offset`: bits 0 to 11 of the address.
#[verifier::external_body]
fn page_offset(addr: u64) -> (o: u64)
    requires
        canonical(addr),
    ensures
        o == addr % 4096,
{
    u64::from(VirtAddr::new(addr).page_offset())
}

/// The table indexes of `addr`, level 4 first.
pub open spec fn table_indexes(addr: u64) -> Seq<u16> {
    seq![
        ((addr >> 39u64) % 512) as u16,
        ((addr >> 30u64) % 512) as u16,
        ((addr >> 21u64) % 512) as u16,
        ((addr >> 12u64) % 512) as u16,
    ]
}

/// What the walk over the page tables needs or found.
#[derive(Clone, Copy, Debug, PartialEq, Eq, Structural)]
pub enum WalkStep {
    /// Read the entry at this address and hand it to `step`.
    ReadEntry(u64),
    /// An entry on the way is unused: the address is not mapped.
    Unmapped,
    /// The physical address the virtual one maps to.
    Translated(u64),
}

/// A walk over the four levels of page tables that translates a virtual
/// address, starting at the level 4 table in the frame that CR3 names.
pub struct AddressTranslation {
    indexes: Vec<u16>,
    offset: u64,
    level: usize,
    frame: u64,
    physical_memory_offset: u64,
}

impl AddressTranslation {
    pub closed spec fn spec_indexes(&self) -> Seq<u16> {
        self.indexes@
    }

    pub closed spec fn spec_offset(&self) -> u64 {
        self.offset
    }

    /// The level of the table the walk reads next, 0 for level 4.
    pub closed spec fn spec_level(&self) -> usize {
        self.level
    }

    /// The physical address of the table the walk reads next.
    pub closed spec fn spec_frame(&self) -> u64 {
        self.frame
    }

    pub closed spec fn spec_physical_memory_offset(&self) -> u64 {
        self.physical_memory_offset
    }

    /// The walk is at one of the four levels, over four indexes, and every
    /// entry address it can form fits in 64 bits.
    pub open spec fn wf(&self) -> bool {
        &&& self.spec_indexes().len() == 4
        &&& self.spec_level() < 4
        &&& self.spec_offset() < 4096
        &&& self.spec_frame() <= ENTRY_ADDRESS_MASK
        &&& self.spec_physical_memory_offset() + ENTRY_ADDRESS_MASK + 4096 <= u64::MAX
        &&& forall|i: int| 0 <= i < 4 ==> self.spec_indexes()[i] < 512
    }

    /// A walk for `virt_addr` from the level 4 table in frame `cr3_frame`,
    /// whose tables are mapped `physical_memory_offset` bytes up.
    pub fn new(virt_addr: u64, cr3_frame: u64, physical_memory_offset: u64) -> (t:
        AddressTranslation)
        requires
            canonical(virt_addr),
            physical_memory_offset + ENTRY_ADDRESS_MASK + 4096 <= u64::MAX,
        ensures
            t.wf(),
            t.spec_indexes() == table_indexes(virt_addr),
            t.spec_offset() == virt_addr % 4096,
            t.spec_level() == 0,
            t.spec_frame() == cr3_frame & ENTRY_ADDRESS_MASK,
            t.spec_physical_memory_offset() == physical_memory_offset,
    {
        let mut indexes: Vec<u16> = Vec::new();
        indexes.push(p4_index(virt_addr));
        indexes.push(p3_index(virt_addr));
        indexes.push(p2_index(virt_addr));
        indexes.push(p1_index(virt_addr));
        assert(indexes@ =~= table_indexes(virt_addr));
        let frame = cr3_frame & ENTRY_ADDRESS_MASK;
        assert(frame <= ENTRY_ADDRESS_MASK) by (bit_vector)
            requires
                frame == cr3_frame & ENTRY_ADDRESS_MASK,
        ;
        AddressTranslation {
            indexes,
            offset: page_offset(virt_addr),
            level: 0,
            frame,
            physical_memory_offset,
        }
    }

    /// Where the entry the walk reads next lies: in the table at the current
    /// frame, mapped at the physical memory offset, at the level's index.
    pub fn entry_address(&self) -> (a: u64)
        requires
            self.wf(),
        ensures
            a == self.spec_frame() + self.spec_physical_memory_offset() + self.spec_indexes()[self.spec_level() as int] * 8,
    {
        self.frame + self.physical_memory_offset + (self.indexes[self.level] as u64) * 8
    }

    /// The first step of the walk: the level 4 entry to read.
    pub fn start(&self) -> (s: WalkStep)
        requires
            self.wf(),
        ensures
            s == WalkStep::ReadEntry(
                (self.spec_frame() + self.spec_physical_memory_offset() + self.spec_indexes()[self.spec_level() as int] * 8) as u64,
            ),
    {
        WalkStep::ReadEntry(self.entry_address())
    }

    /// Takes `entry`, the entry the walk read: an unused (zero) entry ends the
    /// walk, otherwise the walk goes on to the frame the entry names, and
    /// after the level 1 entry the translation is that frame plus the page
    /// offset.
    pub fn step(&mut self, entry: u64) -> (s: WalkStep)
        requires
            old(self).wf(),
        ensures
            final(self).spec_indexes() == old(self).spec_indexes(),
            final(self).spec_offset() == old(self).spec_offset(),
            final(self).spec_physical_memory_offset() == old(self).spec_physical_memory_offset(),
            entry == 0 ==> s == WalkStep::Unmapped && *final(self) == *old(self),
            entry != 0 && old(self).spec_level() == 3 ==> s == WalkStep::Translated(
                ((entry & ENTRY_ADDRESS_MASK) + old(self).spec_offset()) as u64,
            ) && *final(self) == *old(self),
            entry != 0 && old(self).spec_level() < 3 ==> {
                &&& final(self).wf()
                &&& final(self).spec_level() == old(self).spec_level() + 1
                &&& final(self).spec_frame() == entry & ENTRY_ADDRESS_MASK
                &&& s == WalkStep::ReadEntry(
                    ((entry & ENTRY_ADDRESS_MASK) + old(self).spec_physical_memory_offset()
                        + old(self).spec_indexes()[old(self).spec_level() + 1] * 8) as u64,
                )
            },
    {
        if entry == 0 {
            return WalkStep::Unmapped;
        }
        let frame = entry & ENTRY_ADDRESS_MASK;
        assert(frame <= ENTRY_ADDRESS_MASK) by (bit_vector)
            requires
                frame == entry & ENTRY_ADDRESS_MASK,
        ;
        if self.level == 3 {
            return WalkStep::Translated(frame + self.offset);
        }
        self.level = self.level + 1;
        self.frame = frame;
        WalkStep::ReadEntry(self.entry_address())
    }
}

} // verus!
