use vstd::prelude::*;
use crate::bytes::{le_u16, le_u32, le_u64, read_u16_le, read_u32_le, read_u64_le, bytes_match, match_bytes};
use crate::error::Error;
use crate::devices::Device;
use crate::tree::path_keys;
use vstd::slice::slice_subrange;
use crate::fat::{FATFileSystem, BOOT_SECTOR_PREFIX, bpb_of, mountable, geometry_of, signature_matches};
use crate::text::{
    hex_digit,
    hex_digits,
    push_hex,
    all_ascii,
    ascii_chars,
    ascii_string,
    utf16_decode,
    string_from_utf16,
};

verus! {

/// What a partition holds.
#[derive(Clone, Copy, Debug, PartialEq, Eq, Structural)]
pub enum PartitionType {
    EFISystemPartition,
    DataPartition,
}

/// A partition of a drive: a range of its sectors, with a read position.
pub struct Partition {
    drive_path: Vec<String>,
    partition_name: String,
    partition_label: String,
    start_sector: u64,
    end_sector: u64,
    sector_offset: u64,
    partition_type: PartitionType,
}

impl Partition {
    /// The resource path of the drive.
    pub closed spec fn spec_drive_path(&self) -> Seq<Seq<char>> {
        self.drive_path@.map_values(|s: String| s@)
    }

    pub closed spec fn spec_name(&self) -> Seq<char> {
        self.partition_name@
    }

    pub closed spec fn spec_label(&self) -> Seq<char> {
        self.partition_label@
    }

    pub closed spec fn spec_start_sector(&self) -> u64 {
        self.start_sector
    }

    pub closed spec fn spec_end_sector(&self) -> u64 {
        self.end_sector
    }

    /// The read position, in sectors from the start of the partition.
    pub closed spec fn spec_sector_offset(&self) -> u64 {
        self.sector_offset
    }

    pub closed spec fn spec_partition_type(&self) -> PartitionType {
        self.partition_type
    }

    /// The partition's name.
    pub fn name(&self) -> (n: &String)
        ensures
            n@ == self.spec_name(),
    {
        &self.partition_name
    }

    /// The partition's label.
    pub fn label(&self) -> (l: &String)
        ensures
            l@ == self.spec_label(),
    {
        &self.partition_label
    }

    /// The first sector of the partition.
    pub fn start_sector(&self) -> (s: u64)
        ensures
            s == self.spec_start_sector(),
    {
        self.start_sector
    }

    /// The last sector of the partition.
    pub fn end_sector(&self) -> (s: u64)
        ensures
            s == self.spec_end_sector(),
    {
        self.end_sector
    }

    /// What the partition is for.
    pub fn partition_type(&self) -> (t: PartitionType)
        ensures
            t == self.spec_partition_type(),
    {
        self.partition_type
    }

    /// The read position, in sectors.
    pub fn offset(&self) -> (o: u64)
        ensures
            o == self.spec_sector_offset(),
    {
        self.sector_offset
    }

    /// Moves the read position to sector `position`; refused at or past the
    /// end sector.
    pub fn seek(&mut self, position: u64) -> (r: Result<(), Error>)
        ensures
            r is Ok <==> position < old(self).spec_end_sector(),
            r is Err ==> r == Err::<(), Error>(Error::InvalidSeek) && *final(self) == *old(self),
            r is Ok ==> final(self).spec_sector_offset() == position,
            final(self).spec_start_sector() == old(self).spec_start_sector(),
            final(self).spec_end_sector() == old(self).spec_end_sector(),
            final(self).spec_name() == old(self).spec_name(),
            final(self).spec_label() == old(self).spec_label(),
            final(self).spec_drive_path() == old(self).spec_drive_path(),
            final(self).spec_partition_type() == old(self).spec_partition_type(),
    {
        if self.end_sector <= position {
            return Err(Error::InvalidSeek);
        }
        self.sector_offset = position;
        Ok(())
    }

    /// The number of sectors from the start sector to the end sector.
    pub fn size(&self) -> (n: u64)
        requires
            self.spec_start_sector() <= self.spec_end_sector(),
        ensures
            n == self.spec_end_sector() - self.spec_start_sector(),
    {
        self.end_sector - self.start_sector
    }

    /// The drive block that holds block `block` of the partition.
    pub fn drive_block(&self, block: u64) -> (b: u64)
        requires
            self.spec_start_sector() + block <= u64::MAX,
        ensures
            b == self.spec_start_sector() + block,
    {
        self.start_sector + block
    }

    /// The drive byte position that a read starts at: the read position,
    /// counted from the partition start, in 512-byte sectors.
    pub fn read_position(&self) -> (p: u64)
        requires
            (self.spec_start_sector() + self.spec_sector_offset()) * 512 <= u64::MAX,
        ensures
            p == self.spec_start_sector() * 512 + self.spec_sector_offset() * 512,
    {
        self.start_sector * 512 + self.sector_offset * 512
    }

    /// The drive position that a write starts at: the start sector plus the
    /// read position, not scaled to bytes.
    pub fn write_position(&self) -> (p: u64)
        requires
            self.spec_start_sector() + self.spec_sector_offset() <= u64::MAX,
        ensures
            p == self.spec_start_sector() + self.spec_sector_offset(),
    {
        self.start_sector + self.sector_offset
    }

    /// Mounts the FAT file system whose boot sector (block 0 of the partition)
    /// is `boot_sector`; `None` when it carries no matching FAT label.
    pub fn mount_file_system(&self, boot_sector: &[u8]) -> (r: Option<FATFileSystem>)
        requires
            boot_sector@.len() >= BOOT_SECTOR_PREFIX,
            mountable(bpb_of(boot_sector@)),
        ensures
            r is Some <==> signature_matches(
                boot_sector@,
                geometry_of(bpb_of(boot_sector@)).fat_type,
            ),
            r matches Some(fs) ==> fs == geometry_of(bpb_of(boot_sector@)),
    {
        FATFileSystem::new(boot_sector)
    }
}

impl Device for Partition {
    open spec fn has_device_path(&self) -> bool {
        self.spec_drive_path().len() >= 1
    }

    /// The drive path without its first component, followed by the
    /// partition name.
    open spec fn spec_device_path(&self) -> Seq<Seq<char>> {
        self.spec_drive_path().drop_first().push(self.spec_name())
    }

    /// The device path of the partition: the drive path without its first
    /// component, followed by the partition name.
    fn device_path(&self) -> (p: Vec<String>) {
        let mut path = clone_path(&self.drive_path);
        path.remove(0);
        path.push(self.partition_name.clone());
        proof {
            assert(path_keys(path@) =~= self.spec_drive_path().drop_first().push(self.spec_name()));
        }
        path
    }
}

/// A copy of a path.
pub fn clone_path(path: &Vec<String>) -> (c: Vec<String>)
    ensures
        c@ == path@,
{
    let mut c: Vec<String> = Vec::new();
    let mut i: usize = 0;
    while i < path.len()
        invariant
            i <= path@.len(),
            c@ == path@.subrange(0, i as int),
        decreases path@.len() - i,
    {
        c.push(path[i].clone());
        i = i + 1;
        proof {
            assert(c@ =~= path@.subrange(0, i as int));
        }
    }
    proof {
        assert(path@.subrange(0, path@.len() as int) =~= path@);
    }
    c
}

/// A partition GUID, in its on-disk byte order.
#[derive(Clone, Copy, Debug)]
pub struct GUID {
    pub bytes: [u8; 16],
}

/// The 48-bit node field of a GUID, read big-endian from bytes 10 to 15.
pub open spec fn guid_node(b: Seq<u8>) -> int {
    b[10] * 0x100_0000_0000 + b[11] * 0x1_0000_0000 + b[12] * 0x100_0000 + b[13] * 0x1_0000 + b[14]
        * 0x100 + b[15]
}

/// The text form of a GUID: its first three fields read little-endian, the
/// last two big-endian, in upper-case hexadecimal separated by '-'.
pub open spec fn guid_text(b: Seq<u8>) -> Seq<u8> {
    hex_digits(le_u32(b, 0) as nat, 8) + seq![45u8] + hex_digits(le_u16(b, 4) as nat, 4) + seq![45u8]
        + hex_digits(le_u16(b, 6) as nat, 4) + seq![45u8] + hex_digits((b[8] * 256 + b[9]) as nat, 4)
        + seq![45u8] + hex_digits(guid_node(b) as nat, 12)
}

proof fn lemma_hex_ascii(v: nat, d: nat)
    ensures
        all_ascii(hex_digits(v, d)),
        hex_digits(v, d).len() == d,
    decreases d,
{
    if d > 0 {
        lemma_hex_ascii(v / 16, (d - 1) as nat);
    }
}

/// The text of the EFI system partition type GUID.
pub open spec fn efi_system_guid_text() -> Seq<u8> {
    seq![
        67u8, 49u8, 50u8, 65u8, 55u8, 51u8, 50u8, 56u8, 45u8, 70u8, 56u8, 49u8, 70u8, 45u8, 49u8,
        49u8, 68u8, 50u8, 45u8, 66u8, 65u8, 52u8, 66u8, 45u8, 48u8, 48u8, 65u8, 48u8, 67u8, 57u8,
        51u8, 69u8, 67u8, 57u8, 51u8, 66u8,
    ]
}

impl GUID {
    /// The GUID in the 16 bytes at `off`.
    pub fn from_bytes(s: &[u8], off: usize) -> (g: GUID)
        requires
            off + 16 <= s@.len(),
        ensures
            g.bytes@ == s@.subrange(off as int, off + 16),
    {
        let _n = s.len();
        let g = GUID {
            bytes: [
                s[off],
                s[off + 1],
                s[off + 2],
                s[off + 3],
                s[off + 4],
                s[off + 5],
                s[off + 6],
                s[off + 7],
                s[off + 8],
                s[off + 9],
                s[off + 10],
                s[off + 11],
                s[off + 12],
                s[off + 13],
                s[off + 14],
                s[off + 15],
            ],
        };
        assert(g.bytes@ =~= s@.subrange(off as int, off + 16));
        g
    }

    /// Whether every field is zero.
    pub fn is_zero(&self) -> (z: bool)
        ensures
            z <==> guid_is_zero(self.bytes@),
    {
        let mut i: usize = 0;
        while i < 16
            invariant
                i <= 16,
                forall|j: int| 0 <= j < i ==> self.bytes@[j] == 0,
            decreases 16 - i,
        {
            if self.bytes[i] != 0 {
                return false;
            }
            i = i + 1;
        }
        true
    }

    /// The text form of the GUID, as ASCII bytes.
    pub fn to_text(&self) -> (t: Vec<u8>)
        ensures
            t@ == guid_text(self.bytes@),
            all_ascii(t@),
    {
        let b = &self.bytes;
        let mut t: Vec<u8> = Vec::new();
        let time_low = read_u32_le(b, 0) as u64;
        let time_mid = read_u16_le(b, 4) as u64;
        let time_hi = read_u16_le(b, 6) as u64;
        let clock = (b[8] as u64) * 256 + (b[9] as u64);
        let node = (b[10] as u64) * 0x100_0000_0000 + (b[11] as u64) * 0x1_0000_0000 + (b[12] as u64)
            * 0x100_0000 + (b[13] as u64) * 0x1_0000 + (b[14] as u64) * 0x100 + (b[15] as u64);
        push_hex(&mut t, time_low, 8);
        t.push(45u8);
        push_hex(&mut t, time_mid, 4);
        t.push(45u8);
        push_hex(&mut t, time_hi, 4);
        t.push(45u8);
        push_hex(&mut t, clock, 4);
        t.push(45u8);
        push_hex(&mut t, node, 12);
        proof {
            lemma_hex_ascii(le_u32(self.bytes@, 0) as nat, 8);
            lemma_hex_ascii(le_u16(self.bytes@, 4) as nat, 4);
            lemma_hex_ascii(le_u16(self.bytes@, 6) as nat, 4);
            lemma_hex_ascii((self.bytes@[8] * 256 + self.bytes@[9]) as nat, 4);
            lemma_hex_ascii(guid_node(self.bytes@) as nat, 12);
            assert(t@ =~= guid_text(self.bytes@));
        }
        t
    }

    /// The text form of the GUID.
    pub fn to_string(&self) -> (s: String)
        ensures
            s@ == ascii_chars(guid_text(self.bytes@)),
    {
        ascii_string(self.to_text())
    }
}

/// The text "Partition" followed by the decimal digit of `i`.
pub open spec fn mbr_partition_name(i: int) -> Seq<u8> {
    seq![80u8, 97u8, 114u8, 116u8, 105u8, 116u8, 105u8, 111u8, 110u8, (48 + i) as u8]
}

/// Whether entry `i` of a 64-byte MBR partition table is in use: its system
/// id or its sector count is not zero.
pub open spec fn mbr_entry_used(t: Seq<u8>, i: int) -> bool {
    !(t[16 * i + 4] == 0 && le_u32(t, 16 * i + 12) == 0)
}

/// The first sector of entry `i`.
pub open spec fn mbr_entry_start(t: Seq<u8>, i: int) -> int {
    le_u32(t, 16 * i + 8)
}

/// The last sector of entry `i`.
pub open spec fn mbr_entry_end(t: Seq<u8>, i: int) -> int {
    le_u32(t, 16 * i + 8) + le_u32(t, 16 * i + 12) - 1
}

/// The indices of the used entries among the first `n`, in order.
pub open spec fn mbr_used_entries(t: Seq<u8>, n: int) -> Seq<int>
    decreases n,
{
    if n <= 0 {
        Seq::empty()
    } else if mbr_entry_used(t, n - 1) {
        mbr_used_entries(t, n - 1).push(n - 1)
    } else {
        mbr_used_entries(t, n - 1)
    }
}

proof fn lemma_mbr_used_bounds(t: Seq<u8>, n: int)
    requires
        0 <= n,
    ensures
        mbr_used_entries(t, n).len() <= n,
        forall|j: int|
            0 <= j < mbr_used_entries(t, n).len() ==> 0 <= #[trigger] mbr_used_entries(t, n)[j] < n,
    decreases n,
{
    if n > 0 {
        lemma_mbr_used_bounds(t, n - 1);
    }
}

/// Whether `p` is the partition that entry `i` of MBR table `t` describes on
/// the drive at `drive_path`.
pub open spec fn is_mbr_partition(p: Partition, drive_path: Seq<Seq<char>>, t: Seq<u8>, i: int) -> bool {
    &&& p.spec_drive_path() == drive_path
    &&& p.spec_name() == ascii_chars(mbr_partition_name(i))
    &&& p.spec_label() == ascii_chars(mbr_partition_name(i))
    &&& p.spec_start_sector() == mbr_entry_start(t, i)
    &&& p.spec_end_sector() == mbr_entry_end(t, i)
    &&& p.spec_sector_offset() == 0
    &&& p.spec_partition_type() == PartitionType::DataPartition
}

/// The MBR partition table.
pub struct MBRPartitionTable {}

impl MBRPartitionTable {
    /// The partitions of the MBR table `table` (the 64 bytes at 0x1BE of the
    /// drive at `drive_path`): one per entry in use, in entry order, named
    /// "Partition" and the entry number.
    pub fn read_table(drive_path: &Vec<String>, table: &[u8]) -> (r: Vec<Partition>)
        requires
            table@.len() >= 64,
            forall|i: int|
                0 <= i < 4 && mbr_entry_used(table@, i) ==> mbr_entry_start(table@, i) + le_u32(
                    table@,
                    16 * i + 12,
                ) >= 1,
        ensures
            r@.len() == mbr_used_entries(table@, 4).len(),
            forall|j: int|
                0 <= j < r@.len() ==> is_mbr_partition(
                    #[trigger] r@[j],
                    drive_path@.map_values(|s: String| s@),
                    table@,
                    mbr_used_entries(table@, 4)[j],
                ),
    {
        let mut parts: Vec<Partition> = Vec::new();
        let mut i: usize = 0;
        while i < 4
            invariant
                i <= 4,
                table@.len() >= 64,
                forall|k: int|
                    0 <= k < 4 && mbr_entry_used(table@, k) ==> mbr_entry_start(table@, k)
                        + le_u32(table@, 16 * k + 12) >= 1,
                parts@.len() == mbr_used_entries(table@, i as int).len(),
                forall|j: int|
                    0 <= j < parts@.len() ==> is_mbr_partition(
                        #[trigger] parts@[j],
                        drive_path@.map_values(|s: String| s@),
                        table@,
                        mbr_used_entries(table@, i as int)[j],
                    ),
            decreases 4 - i,
        {
            let base = 16 * i;
            let system_id = table[base + 4];
            let total_sectors = read_u32_le(table, base + 12);
            if system_id == 0 && total_sectors == 0 {
                i = i + 1;
                continue;
            }
            assert(mbr_entry_used(table@, i as int));
            let ss = read_u32_le(table, base + 8) as u64;
            let es = ss + total_sectors as u64 - 1;
            let mut name: Vec<u8> = vec![80u8, 97u8, 114u8, 116u8, 105u8, 116u8, 105u8, 111u8, 110u8];
            name.push(48u8 + i as u8);
            proof {
                assert(name@ =~= mbr_partition_name(i as int));
            }
            let label = name.clone();
            let p = Partition {
                drive_path: clone_path(drive_path),
                partition_name: ascii_string(name),
                partition_label: ascii_string(label),
                start_sector: ss,
                end_sector: es,
                sector_offset: 0,
                partition_type: PartitionType::DataPartition,
            };
            proof {
                assert(p.drive_path@.map_values(|s: String| s@) =~= drive_path@.map_values(
                    |s: String| s@,
                ));
            }
            parts.push(p);
            i = i + 1;
        }
        parts
    }
}

/// The signature that opens a GPT header, "EFI PART".
pub open spec fn gpt_signature() -> Seq<u8> {
    seq![69u8, 70u8, 73u8, 32u8, 80u8, 65u8, 82u8, 84u8]
}

/// A partition entry's fixed part: two GUIDs, the first and last sector and
/// the attributes.
pub const GPT_ENTRY_FIXED: usize = 56;

/// Code units up to the first zero unit.
pub open spec fn truncate_at_zero(u: Seq<u16>) -> Seq<u16>
    decreases u.len(),
{
    if u.len() == 0 {
        u
    } else if u[0] == 0 {
        Seq::empty()
    } else {
        seq![u[0]] + truncate_at_zero(u.drop_first())
    }
}

proof fn lemma_truncate_at_zero(u: Seq<u16>, k: int)
    requires
        0 <= k <= u.len(),
        forall|j: int| 0 <= j < k ==> u[j] != 0,
        k == u.len() || u[k] == 0,
    ensures
        truncate_at_zero(u) == u.subrange(0, k),
    decreases k,
{
    if k == 0 {
        assert(u.subrange(0, 0) =~= Seq::<u16>::empty());
    } else {
        lemma_truncate_at_zero(u.drop_first(), k - 1);
        assert(u.subrange(0, k) =~= seq![u[0]] + u.drop_first().subrange(0, k - 1));
    }
}

/// The name units of the entry at `off`: the little-endian 16-bit units after
/// the fixed part, up to the first zero unit.
pub open spec fn gpt_name_units(e: Seq<u8>, off: int, entry_size: int) -> Seq<u16> {
    truncate_at_zero(
        Seq::new(
            ((entry_size - GPT_ENTRY_FIXED) / 2) as nat,
            |k: int| le_u16(e, off + GPT_ENTRY_FIXED + 2 * k) as u16,
        ),
    )
}

/// Whether all sixteen bytes of a GUID are zero.
pub open spec fn guid_is_zero(g: Seq<u8>) -> bool {
    forall|i: int| 0 <= i < 16 ==> g[i] == 0
}

/// Whether the entry at `off` yields a partition: its type GUID is not zero
/// and its name is valid UTF-16.
pub open spec fn gpt_entry_included(e: Seq<u8>, off: int, entry_size: int) -> bool {
    &&& !guid_is_zero(e.subrange(off, off + 16))
    &&& utf16_decode(gpt_name_units(e, off, entry_size)) is Some
}

/// The offsets of the entries among the first `n` that yield partitions, in
/// order.
pub open spec fn gpt_included_entries(e: Seq<u8>, entry_size: int, n: int) -> Seq<int>
    decreases n,
{
    if n <= 0 {
        Seq::empty()
    } else if gpt_entry_included(e, (n - 1) * entry_size, entry_size) {
        gpt_included_entries(e, entry_size, n - 1).push((n - 1) * entry_size)
    } else {
        gpt_included_entries(e, entry_size, n - 1)
    }
}

/// Whether `p` is the partition that the entry at `off` describes on the
/// drive at `drive_path`.
pub open spec fn is_gpt_partition(
    p: Partition,
    drive_path: Seq<Seq<char>>,
    e: Seq<u8>,
    off: int,
    entry_size: int,
) -> bool {
    let type_text = guid_text(e.subrange(off, off + 16));
    &&& p.spec_drive_path() == drive_path
    &&& p.spec_name() == ascii_chars(guid_text(e.subrange(off + 16, off + 32)))
    &&& utf16_decode(gpt_name_units(e, off, entry_size)) == Some(p.spec_label())
    &&& p.spec_start_sector() == le_u64(e, off + 32)
    &&& p.spec_end_sector() == le_u64(e, off + 40)
    &&& p.spec_sector_offset() == 0
    &&& p.spec_partition_type() == if type_text == efi_system_guid_text() {
        PartitionType::EFISystemPartition
    } else {
        PartitionType::DataPartition
    }
}

/// The entry size a GPT header gives.
pub open spec fn gpt_entry_size(h: Seq<u8>) -> int {
    le_u32(h, 0x54)
}

/// The entry count a GPT header gives.
pub open spec fn gpt_entry_count(h: Seq<u8>) -> int {
    le_u32(h, 0x50)
}

/// The GUID partition table.
pub struct GPTPartitionTable {}

impl GPTPartitionTable {
    /// The bytes of the partition entry array that `read_entries` reads for
    /// `header`: entry size times entry count.
    pub fn table_size(header: &[u8]) -> (n: u32)
        requires
            header@.len() >= 0x58,
            gpt_entry_size(header@) * gpt_entry_count(header@) <= u32::MAX,
        ensures
            n == gpt_entry_size(header@) * gpt_entry_count(header@),
    {
        read_u32_le(header, 0x54) * read_u32_le(header, 0x50)
    }

    /// The partitions of a GUID partition table whose header (block 1 of the
    /// drive at `drive_path`) is `header` and whose entry array is `entries`:
    /// `None` when the header does not start with "EFI PART", otherwise one
    /// partition per entry with a non-zero type GUID and a valid UTF-16 name,
    /// in entry order.
    pub fn read_entries(drive_path: &Vec<String>, header: &[u8], entries: &[u8]) -> (r: Option<
        Vec<Partition>,
    >)
        requires
            header@.len() >= 0x58,
            bytes_match(header@, 0, gpt_signature()) ==> {
                &&& gpt_entry_size(header@) * gpt_entry_count(header@) <= u32::MAX
                &&& gpt_entry_size(header@) >= GPT_ENTRY_FIXED
                &&& entries@.len() == gpt_entry_size(header@) * gpt_entry_count(header@)
            },
        ensures
            r is Some <==> bytes_match(header@, 0, gpt_signature()),
            r matches Some(parts) ==> {
                let es = gpt_entry_size(header@);
                let inc = gpt_included_entries(entries@, es, gpt_entry_count(header@));
                &&& parts@.len() == inc.len()
                &&& forall|j: int|
                    0 <= j < parts@.len() ==> is_gpt_partition(
                        #[trigger] parts@[j],
                        drive_path@.map_values(|s: String| s@),
                        entries@,
                        inc[j],
                        es,
                    )
            },
    {
        if !match_bytes(header, 0, &[69u8, 70u8, 73u8, 32u8, 80u8, 65u8, 82u8, 84u8]) {
            return None;
        }
        let entry_size = read_u32_le(header, 0x54);
        let entry_count = read_u32_le(header, 0x50);
        let ghost es = entry_size as int;
        let ghost n = entry_count as int;
        let mut partitions: Vec<Partition> = Vec::new();
        let mut i: u32 = 0;
        while i < entry_count
            invariant
                i <= entry_count,
                es == entry_size,
                n == entry_count,
                es >= GPT_ENTRY_FIXED,
                es * n <= u32::MAX,
                entries@.len() == es * n,
                partitions@.len() == gpt_included_entries(entries@, es, i as int).len(),
                forall|j: int|
                    0 <= j < partitions@.len() ==> is_gpt_partition(
                        #[trigger] partitions@[j],
                        drive_path@.map_values(|s: String| s@),
                        entries@,
                        gpt_included_entries(entries@, es, i as int)[j],
                        es,
                    ),
            decreases entry_count - i,
        {
            proof {
                assert(es * i + es == es * (i + 1)) by (nonlinear_arith);
                assert(es * (i + 1) <= es * n) by (nonlinear_arith)
                    requires
                        i + 1 <= n,
                        es >= 0,
                ;
                assert(es * i == i * es) by (nonlinear_arith);
            }
            let off = (i * entry_size) as usize;
            let ghost before = partitions@;
            match gpt_entry_partition(drive_path, entries, off, entry_size as usize) {
                Some(p) => {
                    partitions.push(p);
                },
                None => {},
            }
            proof {
                assert(gpt_included_entries(entries@, es, i + 1) == if gpt_entry_included(
                    entries@,
                    i * es,
                    es,
                ) {
                    gpt_included_entries(entries@, es, i as int).push(i * es)
                } else {
                    gpt_included_entries(entries@, es, i as int)
                });
                assert forall|j: int| 0 <= j < partitions@.len() implies is_gpt_partition(
                    #[trigger] partitions@[j],
                    drive_path@.map_values(|s: String| s@),
                    entries@,
                    gpt_included_entries(entries@, es, i + 1)[j],
                    es,
                ) by {
                    if j < before.len() {
                        assert(partitions@[j] == before[j]);
                    }
                }
            }
            i = i + 1;
        }
        Some(partitions)
    }
}

/// The partition that the GPT entry at `off` describes on the drive at
/// `drive_path`, for entries of `entry_size` bytes; `None` when its type GUID
/// is zero or its name is not valid UTF-16.
#[verifier::spinoff_prover]
#[verifier::rlimit(40)]
fn gpt_entry_partition(drive_path: &Vec<String>, entries: &[u8], off: usize, entry_size: usize) -> (r:
    Option<Partition>)
    requires
        entry_size >= GPT_ENTRY_FIXED,
        off + entry_size <= entries@.len(),
    ensures
        r is Some <==> gpt_entry_included(entries@, off as int, entry_size as int),
        r matches Some(p) ==> is_gpt_partition(
            p,
            drive_path@.map_values(|s: String| s@),
            entries@,
            off as int,
            entry_size as int,
        ),
{
    let _n = entries.len();
    let name_length = entry_size - GPT_ENTRY_FIXED;
    let type_guid = GUID::from_bytes(entries, off);
    if type_guid.is_zero() {
        return None;
    }
    let units = name_units(entries, off, name_length / 2);
    match string_from_utf16(units.as_slice()) {
        Some(name) => {
            let part_guid = GUID::from_bytes(entries, off + 16);
            let type_text = type_guid.to_text();
            let is_efi = type_text.len() == 36 && match_bytes(
                type_text.as_slice(),
                0,
                &[
                    67u8, 49u8, 50u8, 65u8, 55u8, 51u8, 50u8, 56u8, 45u8, 70u8, 56u8, 49u8,
                    70u8, 45u8, 49u8, 49u8, 68u8, 50u8, 45u8, 66u8, 65u8, 52u8, 66u8, 45u8,
                    48u8, 48u8, 65u8, 48u8, 67u8, 57u8, 51u8, 69u8, 67u8, 57u8, 51u8, 66u8,
                ],
            );
            let p = Partition {
                drive_path: clone_path(drive_path),
                partition_name: part_guid.to_string(),
                partition_label: name,
                start_sector: read_u64_le(entries, off + 32),
                end_sector: read_u64_le(entries, off + 40),
                sector_offset: 0,
                partition_type: if is_efi {
                    PartitionType::EFISystemPartition
                } else {
                    PartitionType::DataPartition
                },
            };
            proof {
                assert(p.drive_path@.map_values(|s: String| s@) =~= drive_path@.map_values(
                    |s: String| s@,
                ));
                if is_efi {
                    assert(type_text@ =~= efi_system_guid_text());
                } else if type_text@ == efi_system_guid_text() {
                    assert(bytes_match(type_text@, 0, efi_system_guid_text()));
                }
            }
            Some(p)
        },
        None => None,
    }
}

/// The name units of the GPT entry at `off`: `count` little-endian 16-bit
/// units after the fixed part, up to the first zero unit.
fn name_units(entries: &[u8], off: usize, count: usize) -> (u: Vec<u16>)
    requires
        off + GPT_ENTRY_FIXED + 2 * count <= entries@.len(),
    ensures
        u@ == truncate_at_zero(
            Seq::new(count as nat, |k: int| le_u16(entries@, off + GPT_ENTRY_FIXED + 2 * k) as u16),
        ),
{
    let ghost all = Seq::new(
        count as nat,
        |k: int| le_u16(entries@, off + GPT_ENTRY_FIXED + 2 * k) as u16,
    );
    let _n = entries.len();
    let mut u: Vec<u16> = Vec::new();
    let mut k: usize = 0;
    while k < count
        invariant
            k <= count,
            off + GPT_ENTRY_FIXED + 2 * count <= entries@.len(),
            entries@.len() <= usize::MAX,
            all == Seq::new(
                count as nat,
                |k: int| le_u16(entries@, off + GPT_ENTRY_FIXED + 2 * k) as u16,
            ),
            u@ == all.subrange(0, k as int),
            forall|j: int| 0 <= j < k ==> all[j] != 0,
        decreases count - k,
    {
        let unit = read_u16_le(entries, off + GPT_ENTRY_FIXED + 2 * k);
        if unit == 0 {
            proof {
                lemma_truncate_at_zero(all, k as int);
            }
            return u;
        }
        u.push(unit);
        k = k + 1;
        proof {
            assert(u@ =~= all.subrange(0, k as int));
        }
    }
    proof {
        lemma_truncate_at_zero(all, k as int);
    }
    u
}

/// A kind of partition table that a drive may carry, read from the drive's
/// first bytes.
pub trait PartitionTable {
    /// Whether `disk`, the first bytes of a drive, holds all that reading
    /// this kind of table takes.
    spec fn can_read(disk: Seq<u8>) -> bool;

    /// The partitions of the drive at `drive_path` whose first bytes are
    /// `disk`; `None` when the drive does not carry this kind of table.
    fn read_partitions(drive_path: &Vec<String>, disk: &[u8]) -> (r: Option<Vec<Partition>>)
        requires
            Self::can_read(disk@),
    ;
}

/// The 64 bytes of the MBR partition table, at 0x1BE of the drive.
pub open spec fn mbr_table_of(disk: Seq<u8>) -> Seq<u8> {
    disk.subrange(0x1BE, 0x1FE)
}

/// The GPT header, block 1 of the drive.
pub open spec fn gpt_header_of(disk: Seq<u8>) -> Seq<u8> {
    disk.subrange(512, 1024)
}

/// The entry array of `size` bytes as it is read from block 2 on: the whole
/// blocks it fills are read, and the bytes of a last partial block stay
/// zero.
pub open spec fn gpt_entries_of(disk: Seq<u8>, size: int) -> Seq<u8> {
    disk.subrange(1024, 1024 + (size / 512) * 512) + Seq::new((size % 512) as nat, |i: int| 0u8)
}

impl PartitionTable for MBRPartitionTable {
    /// The table lies within the bytes, and each entry in use spans at least
    /// one sector.
    open spec fn can_read(disk: Seq<u8>) -> bool {
        &&& disk.len() >= 0x1FE
        &&& forall|i: int|
            0 <= i < 4 && mbr_entry_used(mbr_table_of(disk), i) ==> mbr_entry_start(
                mbr_table_of(disk),
                i,
            ) + le_u32(mbr_table_of(disk), 16 * i + 12) >= 1
    }

    /// The partitions of the MBR table at 0x1BE, which every drive is taken
    /// to carry.
    fn read_partitions(drive_path: &Vec<String>, disk: &[u8]) -> (r: Option<Vec<Partition>>)
        ensures
            r matches Some(parts) && parts@.len() == mbr_used_entries(mbr_table_of(disk@), 4).len()
                && forall|j: int|
                0 <= j < parts@.len() ==> is_mbr_partition(
                    #[trigger] parts@[j],
                    drive_path@.map_values(|s: String| s@),
                    mbr_table_of(disk@),
                    mbr_used_entries(mbr_table_of(disk@), 4)[j],
                ),
    {
        let table = slice_subrange(disk, 0x1BE, 0x1FE);
        assert(table@ == mbr_table_of(disk@));
        Some(MBRPartitionTable::read_table(drive_path, table))
    }
}

impl PartitionTable for GPTPartitionTable {
    /// Block 1 lies within the bytes, and for a header with the signature
    /// the entries are as long as the fixed part at least, their array fits
    /// 32 bits and its whole blocks lie within the bytes.
    open spec fn can_read(disk: Seq<u8>) -> bool {
        let h = gpt_header_of(disk);
        let size = gpt_entry_size(h) * gpt_entry_count(h);
        &&& disk.len() >= 1024
        &&& bytes_match(h, 0, gpt_signature()) ==> {
            &&& size <= u32::MAX
            &&& gpt_entry_size(h) >= GPT_ENTRY_FIXED
            &&& disk.len() >= 1024 + (size / 512) * 512
        }
    }

    /// The partitions of the GUID partition table whose header is block 1
    /// and whose entries are read from block 2 on; `None` when the header
    /// does not start with "EFI PART".
    fn read_partitions(drive_path: &Vec<String>, disk: &[u8]) -> (r: Option<Vec<Partition>>)
        ensures
            r is Some <==> bytes_match(gpt_header_of(disk@), 0, gpt_signature()),
            r matches Some(parts) ==> {
                let h = gpt_header_of(disk@);
                let es = gpt_entry_size(h);
                let e = gpt_entries_of(disk@, es * gpt_entry_count(h));
                let inc = gpt_included_entries(e, es, gpt_entry_count(h));
                &&& parts@.len() == inc.len()
                &&& forall|j: int|
                    0 <= j < parts@.len() ==> is_gpt_partition(
                        #[trigger] parts@[j],
                        drive_path@.map_values(|s: String| s@),
                        e,
                        inc[j],
                        es,
                    )
            },
    {
        let header = slice_subrange(disk, 512, 1024);
        if !match_bytes(header, 0, &[69u8, 70u8, 73u8, 32u8, 80u8, 65u8, 82u8, 84u8]) {
            return None;
        }
        let size = GPTPartitionTable::table_size(header) as usize;
        let whole = size / 512 * 512;
        let ghost expected = gpt_entries_of(disk@, size as int);
        let n = disk.len();
        let mut entries: Vec<u8> = Vec::new();
        let mut i: usize = 0;
        while i < size
            invariant
                n == disk@.len(),
                i <= size,
                whole == size / 512 * 512,
                1024 + whole <= disk@.len(),
                expected == gpt_entries_of(disk@, size as int),
                expected.len() == size,
                entries@ == expected.take(i as int),
            decreases size - i,
        {
            if i < whole {
                entries.push(disk[1024 + i]);
            } else {
                entries.push(0u8);
            }
            i = i + 1;
            assert(entries@ =~= expected.take(i as int));
        }
        assert(entries@ =~= expected);
        GPTPartitionTable::read_entries(drive_path, header, entries.as_slice())
    }
}

/// The partitions of the drive at `drive_path` whose first bytes are
/// `disk`, as the drive is set up: those of its GUID partition table when it
/// carries one, else those of its MBR table.
pub fn read_drive_partitions(drive_path: &Vec<String>, disk: &[u8]) -> (r: Vec<Partition>)
    requires
        <GPTPartitionTable as PartitionTable>::can_read(disk@),
        <MBRPartitionTable as PartitionTable>::can_read(disk@),
    ensures
        bytes_match(gpt_header_of(disk@), 0, gpt_signature()) ==> {
            let h = gpt_header_of(disk@);
            let es = gpt_entry_size(h);
            let e = gpt_entries_of(disk@, es * gpt_entry_count(h));
            let inc = gpt_included_entries(e, es, gpt_entry_count(h));
            &&& r@.len() == inc.len()
            &&& forall|j: int|
                0 <= j < r@.len() ==> is_gpt_partition(
                    #[trigger] r@[j],
                    drive_path@.map_values(|s: String| s@),
                    e,
                    inc[j],
                    es,
                )
        },
        !bytes_match(gpt_header_of(disk@), 0, gpt_signature()) ==> {
            &&& r@.len() == mbr_used_entries(mbr_table_of(disk@), 4).len()
            &&& forall|j: int|
                0 <= j < r@.len() ==> is_mbr_partition(
                    #[trigger] r@[j],
                    drive_path@.map_values(|s: String| s@),
                    mbr_table_of(disk@),
                    mbr_used_entries(mbr_table_of(disk@), 4)[j],
                )
        },
{
    match GPTPartitionTable::read_partitions(drive_path, disk) {
        Some(parts) => parts,
        None => match MBRPartitionTable::read_partitions(drive_path, disk) {
            Some(parts) => parts,
            None => Vec::new(),
        },
    }
}

} // verus!
