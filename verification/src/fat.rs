use vstd::prelude::*;
use crate::bytes::{lemma_mul_le, le_u16, le_u32, read_u16_le, read_u32_le, bytes_match, match_bytes};

verus! {

/// The three variants of the FAT file system, told apart by cluster count.
#[derive(Clone, Copy, Debug, PartialEq, Eq, Structural)]
pub enum FATType {
    FAT12,
    FAT16,
    FAT32,
}

/// The fields of a boot sector's BIOS parameter block that mounting reads.
#[derive(Clone, Copy, Debug)]
pub struct BiosParameterBlock {
    pub bytes_per_sector: u16,
    pub sectors_per_cluster: u8,
    pub reserved_sector_count: u16,
    pub file_allocation_tables: u8,
    pub root_directory_entries: u16,
    pub sector_count: u16,
    pub fat_size: u16,
    pub large_sector_count: u32,
    /// The FAT size of the FAT32 extended block.
    pub fat32_fat_size: u32,
    /// The root directory cluster of the FAT32 extended block.
    pub fat32_root_directory_cluster: u32,
}

/// Length of a boot sector prefix that holds the BIOS parameter block and both
/// extended blocks.
pub const BOOT_SECTOR_PREFIX: usize = 90;

/// The parameter block that the first bytes of a boot sector encode.
pub open spec fn bpb_of(s: Seq<u8>) -> BiosParameterBlock {
    BiosParameterBlock {
        bytes_per_sector: le_u16(s, 11) as u16,
        sectors_per_cluster: s[13],
        reserved_sector_count: le_u16(s, 14) as u16,
        file_allocation_tables: s[16],
        root_directory_entries: le_u16(s, 17) as u16,
        sector_count: le_u16(s, 19) as u16,
        fat_size: le_u16(s, 22) as u16,
        large_sector_count: le_u32(s, 32) as u32,
        fat32_fat_size: le_u32(s, 36) as u32,
        fat32_root_directory_cluster: le_u32(s, 44) as u32,
    }
}

impl BiosParameterBlock {
    /// Decodes the parameter block at the start of a boot sector.
    pub fn parse(s: &[u8]) -> (b: BiosParameterBlock)
        requires
            s@.len() >= BOOT_SECTOR_PREFIX,
        ensures
            b == bpb_of(s@),
    {
        BiosParameterBlock {
            bytes_per_sector: read_u16_le(s, 11),
            sectors_per_cluster: s[13],
            reserved_sector_count: read_u16_le(s, 14),
            file_allocation_tables: s[16],
            root_directory_entries: read_u16_le(s, 17),
            sector_count: read_u16_le(s, 19),
            fat_size: read_u16_le(s, 22),
            large_sector_count: read_u32_le(s, 32),
            fat32_fat_size: read_u32_le(s, 36),
            fat32_root_directory_cluster: read_u32_le(s, 44),
        }
    }

    /// Whether mounting can compute the geometry of this block: the sector size
    /// and the cluster size are not zero, the root directory size fits in 16 bits,
    /// and the 16-bit sector count covers the reserved, FAT and root directory
    /// sectors.
    pub fn is_mountable(&self) -> (r: bool)
        ensures
            r == mountable(*self),
    {
        if self.bytes_per_sector == 0 || self.sectors_per_cluster == 0 {
            return false;
        }
        let rde: u32 = self.root_directory_entries as u32;
        let bps: u32 = self.bytes_per_sector as u32;
        if rde * 32 + bps - 1 > 0xFFFF {
            return false;
        }
        let rds: u64 = ((rde * 32 + bps - 1) / bps) as u64;
        let fat_size: u64 = if self.fat_size == 0 {
            self.fat32_fat_size as u64
        } else {
            self.fat_size as u64
        };
        proof {
            lemma_mul_le(self.file_allocation_tables as int, fat_size as int, 255, 0xFFFF_FFFF);
        }
        let overhead: u64 = self.reserved_sector_count as u64 + (self.file_allocation_tables as u64
            * fat_size) + rds;
        (self.sector_count as u64) >= overhead
    }
}

/// Sectors of the FAT12/16 root directory.
pub open spec fn root_dir_sectors_of(b: BiosParameterBlock) -> int {
    (b.root_directory_entries * 32 + b.bytes_per_sector - 1) / (b.bytes_per_sector as int)
}

/// Sectors of one file allocation table.
pub open spec fn fat_size_of(b: BiosParameterBlock) -> int {
    if b.fat_size == 0 {
        b.fat32_fat_size as int
    } else {
        b.fat_size as int
    }
}

/// Sectors in front of the data region.
pub open spec fn first_data_sector_of(b: BiosParameterBlock) -> int {
    b.reserved_sector_count + b.file_allocation_tables * fat_size_of(b) + root_dir_sectors_of(b)
}

/// See `BiosParameterBlock::is_mountable`.
pub open spec fn mountable(b: BiosParameterBlock) -> bool {
    &&& b.bytes_per_sector > 0
    &&& b.sectors_per_cluster > 0
    &&& b.root_directory_entries * 32 + b.bytes_per_sector - 1 <= 0xFFFF
    &&& b.sector_count >= first_data_sector_of(b)
}

/// The variant of FAT that a volume of `total_clusters` clusters is.
pub open spec fn fat_type_for(total_clusters: int) -> FATType {
    if total_clusters < 4085 {
        FATType::FAT12
    } else if total_clusters < 65525 {
        FATType::FAT16
    } else {
        FATType::FAT32
    }
}

/// The geometry of a FAT volume.
#[derive(Clone, Copy, Debug)]
pub struct FATFileSystem {
    pub fat_type: FATType,
    pub total_sectors: u64,
    pub fat_size: u64,
    pub root_dir_sectors: u64,
    pub first_data_sector: u64,
    pub first_fat_sector: u64,
    pub data_sectors: u64,
    pub total_clusters: u64,
    pub root_dir_sector: u64,
    pub sectors_per_cluster: u64,
    pub bytes_per_sector: u64,
}

/// The geometry that mounting computes from a parameter block.  The data
/// sector count is taken from the 16-bit sector count alone.
pub open spec fn geometry_of(b: BiosParameterBlock) -> FATFileSystem {
    let data_sectors = b.sector_count - first_data_sector_of(b);
    let total_clusters = data_sectors / (b.sectors_per_cluster as int);
    let fat_type = fat_type_for(total_clusters);
    FATFileSystem {
        fat_type,
        total_sectors: if b.sector_count == 0 {
            b.large_sector_count as u64
        } else {
            b.sector_count as u64
        },
        fat_size: fat_size_of(b) as u64,
        root_dir_sectors: root_dir_sectors_of(b) as u64,
        first_data_sector: first_data_sector_of(b) as u64,
        first_fat_sector: b.reserved_sector_count as u64,
        data_sectors: data_sectors as u64,
        total_clusters: total_clusters as u64,
        root_dir_sector: if fat_type == FATType::FAT32 {
            (b.fat32_root_directory_cluster * b.sectors_per_cluster) as u64
        } else {
            (first_data_sector_of(b) - root_dir_sectors_of(b)) as u64
        },
        sectors_per_cluster: b.sectors_per_cluster as u64,
        bytes_per_sector: b.bytes_per_sector as u64,
    }
}

/// Whether the boot sector carries the type label of `t`: "FAT12" or "FAT16" in
/// the FAT12/16 extended block, "FAT32" in the FAT32 extended block.
pub open spec fn signature_matches(s: Seq<u8>, t: FATType) -> bool {
    match t {
        FATType::FAT12 => bytes_match(s, 54, seq![70u8, 65u8, 84u8, 49u8, 50u8]),
        FATType::FAT16 => bytes_match(s, 54, seq![70u8, 65u8, 84u8, 49u8, 54u8]),
        FATType::FAT32 => bytes_match(s, 82, seq![70u8, 65u8, 84u8, 51u8, 50u8]),
    }
}

impl FATFileSystem {
    /// Mounts the FAT volume whose boot sector is `boot_sector`: computes its
    /// geometry and checks the type label that goes with its cluster count.
    /// `None` when the label does not match.
    pub fn new(boot_sector: &[u8]) -> (r: Option<FATFileSystem>)
        requires
            boot_sector@.len() >= BOOT_SECTOR_PREFIX,
            mountable(bpb_of(boot_sector@)),
        ensures
            r is Some <==> signature_matches(
                boot_sector@,
                geometry_of(bpb_of(boot_sector@)).fat_type,
            ),
            r matches Some(fs) ==> fs == geometry_of(bpb_of(boot_sector@)),
    {
        let bpb = BiosParameterBlock::parse(boot_sector);
        let total_sectors: u64 = if bpb.sector_count == 0 {
            bpb.large_sector_count as u64
        } else {
            bpb.sector_count as u64
        };
        let fat_size: u64 = if bpb.fat_size == 0 {
            bpb.fat32_fat_size as u64
        } else {
            bpb.fat_size as u64
        };
        proof {
            lemma_mul_le(bpb.file_allocation_tables as int, fat_size as int, 255, 0xFFFF_FFFF);
            lemma_mul_le(
                bpb.fat32_root_directory_cluster as int,
                bpb.sectors_per_cluster as int,
                0xFFFF_FFFF,
                255,
            );
        }
        let root_dir_sectors: u64 = (((bpb.root_directory_entries * 32) + (bpb.bytes_per_sector
            - 1)) / bpb.bytes_per_sector) as u64;
        let first_data_sector: u64 = bpb.reserved_sector_count as u64 + (
        bpb.file_allocation_tables as u64 * fat_size) + root_dir_sectors;
        let first_fat_sector: u64 = bpb.reserved_sector_count as u64;
        let data_sectors: u64 = bpb.sector_count as u64 - (bpb.reserved_sector_count as u64 + (
        bpb.file_allocation_tables as u64 * fat_size) + root_dir_sectors);
        let total_clusters: u64 = data_sectors / bpb.sectors_per_cluster as u64;
        let fat_type = if total_clusters < 4085 {
            FATType::FAT12
        } else if total_clusters < 65525 {
            FATType::FAT16
        } else {
            FATType::FAT32
        };
        let ok = match fat_type {
            FATType::FAT12 => match_bytes(boot_sector, 54, &[70u8, 65u8, 84u8, 49u8, 50u8]),
            FATType::FAT16 => match_bytes(boot_sector, 54, &[70u8, 65u8, 84u8, 49u8, 54u8]),
            FATType::FAT32 => match_bytes(boot_sector, 82, &[70u8, 65u8, 84u8, 51u8, 50u8]),
        };
        if !ok {
            return None;
        }
        let root_dir_sector: u64 = match fat_type {
            FATType::FAT32 => bpb.fat32_root_directory_cluster as u64
                * bpb.sectors_per_cluster as u64,
            _ => first_data_sector - root_dir_sectors,
        };
        Some(
            FATFileSystem {
                fat_type,
                total_sectors,
                fat_size,
                root_dir_sectors,
                first_data_sector,
                first_fat_sector,
                data_sectors,
                total_clusters,
                root_dir_sector,
                sectors_per_cluster: bpb.sectors_per_cluster as u64,
                bytes_per_sector: bpb.bytes_per_sector as u64,
            },
        )
    }
}

/// One entry of a file allocation table, as the chain walk reports it.
#[derive(Clone, Copy, Debug, PartialEq, Eq, Structural)]
pub enum FATEntry {
    Free(u32),
    Bad,
    EndOfChain,
    Cluster(u32),
}

/// Byte offset of the FAT entry of `cluster` from the start of the table.
pub open spec fn fat_offset(t: FATType, cluster: int) -> int {
    match t {
        FATType::FAT12 => cluster + cluster / 2,
        FATType::FAT16 => cluster * 2,
        FATType::FAT32 => cluster * 4,
    }
}

/// Bytes that one FAT entry spans.
pub open spec fn entry_width(t: FATType) -> int {
    match t {
        FATType::FAT32 => 4,
        _ => 2,
    }
}

/// Whether the sector and offset of the FAT entry of `cluster` can be computed
/// for a table starting at `first_fat_sector` with `sector_size`-byte sectors.
pub open spec fn sector_offset_defined(
    t: FATType,
    first_fat_sector: u64,
    sector_size: usize,
    cluster: u32,
) -> bool {
    &&& sector_size > 0
    &&& fat_offset(t, cluster as int) <= u32::MAX
    &&& first_fat_sector + fat_offset(t, cluster as int) / (sector_size as int) <= usize::MAX
}

/// The sector that holds the FAT entry of `cluster`.
pub open spec fn fat_sector_of(t: FATType, first_fat_sector: u64, sector_size: usize, cluster: int) -> int {
    first_fat_sector + fat_offset(t, cluster) / (sector_size as int)
}

/// The offset inside its sector of the FAT entry of `cluster`.
pub open spec fn fat_sector_offset_of(t: FATType, sector_size: usize, cluster: int) -> int {
    fat_offset(t, cluster) % (sector_size as int)
}

/// The sector and the offset inside it of the FAT entry of `cluster`.
pub fn sector_offset(t: FATType, first_fat_sector: u64, sector_size: usize, cluster: u32) -> (r: (
    u64,
    usize,
))
    requires
        sector_offset_defined(t, first_fat_sector, sector_size, cluster),
    ensures
        r.0 == fat_sector_of(t, first_fat_sector, sector_size, cluster as int),
        r.1 == fat_sector_offset_of(t, sector_size, cluster as int),
        r.1 < sector_size,
{
    let fat_off: usize = match t {
        FATType::FAT12 => cluster as usize + (cluster as usize / 2),
        FATType::FAT16 => (cluster * 2) as usize,
        FATType::FAT32 => (cluster * 4) as usize,
    };
    let sector = first_fat_sector as usize + (fat_off / sector_size);
    let offset = fat_off % sector_size;
    (sector as u64, offset)
}

/// The value of a FAT entry read at `off` of `buf`.  A FAT12 entry is the low
/// or the high twelve bits of the 16-bit word there, as `parity_cluster` is even
/// or odd; a FAT32 entry keeps its low 28 bits.
pub open spec fn fat_entry_value(t: FATType, buf: Seq<u8>, off: int, parity_cluster: int) -> int {
    match t {
        FATType::FAT12 => if parity_cluster % 2 == 0 {
            le_u16(buf, off) % 4096
        } else {
            le_u16(buf, off) / 16
        },
        FATType::FAT16 => le_u16(buf, off),
        FATType::FAT32 => buf[off] + 256 * buf[off + 1] + 65536 * buf[off + 2] + 16777216 * (buf[off
            + 3] % 16),
    }
}

/// Reads the FAT entry at `off` of `buf`.
pub fn read_fat_entry(t: FATType, buf: &Vec<u8>, off: usize, parity_cluster: u32) -> (v: u32)
    requires
        off + entry_width(t) <= buf@.len(),
    ensures
        v == fat_entry_value(t, buf@, off as int, parity_cluster as int),
        v < 0x1000_0000,
{
    let _len = buf.len();
    match t {
        FATType::FAT12 => {
            let packed: u16 = (buf[off] as u16) + 256 * (buf[off + 1] as u16);
            if parity_cluster % 2 == 0 {
                (packed % 4096) as u32
            } else {
                (packed / 16) as u32
            }
        },
        FATType::FAT16 => (buf[off] as u32) + 256 * (buf[off + 1] as u32),
        FATType::FAT32 => (buf[off] as u32) + 256 * (buf[off + 1] as u32) + 65536 * (buf[off
            + 2] as u32) + 16777216 * ((buf[off + 3] % 16) as u32),
    }
}

/// The bytes of a table after `value` is stored little-endian in the entry at
/// `off`, as `link_cluster` stores it: two bytes for FAT16, four for FAT32.
pub open spec fn entry_stored(t: FATType, buf: Seq<u8>, off: int, value: u32) -> Seq<u8> {
    let low = buf.update(off, (value % 256) as u8).update(off + 1, ((value / 256) % 256) as u8);
    if t == FATType::FAT16 {
        low
    } else {
        low.update(off + 2, ((value / 65536) % 256) as u8).update(off + 3, (value / 16777216) as u8)
    }
}

/// FAT16 and FAT32 entries are little-endian.  A FAT16 entry is its first
/// byte plus 256 times its second; the low 28 bits of a FAT32 entry are its
/// four bytes, low byte first.  A cluster number stored in an entry, as
/// `link_cluster` stores it, reads back as that number: any 16-bit number in
/// a FAT16 table, any 28-bit number in a FAT32 table.  The bytes around the
/// entry do not matter.
pub proof fn lemma_fat_entry_little_endian(
    buf: Seq<u8>,
    off: int,
    parity_cluster: int,
    value: u32,
)
    requires
        0 <= off,
        off + 2 <= buf.len(),
    ensures
        fat_entry_value(FATType::FAT16, buf, off, parity_cluster) == buf[off] + 256 * buf[off + 1],
        off + 4 <= buf.len() ==> fat_entry_value(FATType::FAT32, buf, off, parity_cluster) == buf[off]
            + 256 * buf[off + 1] + 65536 * buf[off + 2] + 16777216 * (buf[off + 3] % 16),
        value <= 0xFFFF ==> fat_entry_value(
            FATType::FAT16,
            entry_stored(FATType::FAT16, buf, off, value),
            off,
            parity_cluster,
        ) == value,
        off + 4 <= buf.len() && value < 0x1000_0000 ==> fat_entry_value(
            FATType::FAT32,
            entry_stored(FATType::FAT32, buf, off, value),
            off,
            parity_cluster,
        ) == value,
{
    let v = value as int;
    let b0 = v % 256;
    let b1 = (v / 256) % 256;
    let b2 = (v / 65536) % 256;
    let b3 = v / 16777216;
    assert(v == b0 + 256 * b1 + 65536 * b2 + 16777216 * b3 && 0 <= b0 < 256 && 0 <= b1 < 256
        && 0 <= b2 < 256 && b3 >= 0) by (nonlinear_arith)
        requires
            v >= 0,
            b0 == v % 256,
            b1 == (v / 256) % 256,
            b2 == (v / 65536) % 256,
            b3 == v / 16777216,
    ;
    if value <= 0xFFFF {
        assert(v / 256 < 256 && b1 == v / 256 && v == b0 + 256 * b1) by (nonlinear_arith)
            requires
                0 <= v <= 0xFFFF,
                b0 == v % 256,
                b1 == (v / 256) % 256,
        ;
        let s = entry_stored(FATType::FAT16, buf, off, value);
        assert(s[off] == b0 && s[off + 1] == b1);
    }
    if off + 4 <= buf.len() && value < 0x1000_0000 {
        assert(b3 < 16) by (nonlinear_arith)
            requires
                0 <= v < 0x1000_0000,
                b3 == v / 16777216,
        ;
        let s = entry_stored(FATType::FAT32, buf, off, value);
        assert(s[off] == b0 && s[off + 1] == b1 && s[off + 2] == b2 && s[off + 3] == b3);
        assert(b3 % 16 == b3);
    }
}

/// Whether `cluster` may be followed further in a table of type `t`: it is
/// neither free (0) nor a reserved, bad or end-of-chain value.
pub open spec fn spec_cluster_ok(t: FATType, cluster: int) -> bool {
    match t {
        FATType::FAT12 => !(cluster == 0 || (cluster >= 0xFF7 && cluster <= 0xFFF)),
        FATType::FAT16 => !(cluster == 0 || cluster >= 0xFFF7),
        FATType::FAT32 => !(cluster == 0 || cluster >= 0xFFFFFFF7),
    }
}

/// How the chain walk reports the cluster value `rv` it stood on, given the
/// value `next` it moved to.
pub open spec fn classify_entry(t: FATType, rv: u32, next: u32) -> FATEntry {
    match t {
        FATType::FAT12 => if rv == 0 {
            FATEntry::Free(next)
        } else if rv == 0xFF8 {
            FATEntry::Bad
        } else if 0xFF8 <= rv <= 0xFFF {
            FATEntry::EndOfChain
        } else {
            FATEntry::Cluster(rv)
        },
        FATType::FAT16 => if rv == 0 {
            FATEntry::Free(next)
        } else if rv == 0xFFF8 {
            FATEntry::Bad
        } else if 0xFFF8 <= rv <= 0xFFFF {
            FATEntry::EndOfChain
        } else {
            FATEntry::Cluster(rv)
        },
        FATType::FAT32 => if rv == 0 {
            FATEntry::Free(next)
        } else if rv == 0x0FFFFFF7 {
            FATEntry::Bad
        } else if 0x0FFFFFF8 <= rv <= 0x0FFFFFFF {
            FATEntry::EndOfChain
        } else {
            FATEntry::Cluster(rv)
        },
    }
}

fn classify(t: FATType, rv: u32, next: u32) -> (e: FATEntry)
    ensures
        e == classify_entry(t, rv, next),
{
    match t {
        FATType::FAT12 => if rv == 0 {
            FATEntry::Free(next)
        } else if rv == 0xFF8 {
            FATEntry::Bad
        } else if 0xFF8 <= rv && rv <= 0xFFF {
            FATEntry::EndOfChain
        } else {
            FATEntry::Cluster(rv)
        },
        FATType::FAT16 => if rv == 0 {
            FATEntry::Free(next)
        } else if rv == 0xFFF8 {
            FATEntry::Bad
        } else if 0xFFF8 <= rv && rv <= 0xFFFF {
            FATEntry::EndOfChain
        } else {
            FATEntry::Cluster(rv)
        },
        FATType::FAT32 => if rv == 0 {
            FATEntry::Free(next)
        } else if rv == 0x0FFFFFF7 {
            FATEntry::Bad
        } else if 0x0FFFFFF8 <= rv && rv <= 0x0FFFFFFF {
            FATEntry::EndOfChain
        } else {
            FATEntry::Cluster(rv)
        },
    }
}

/// Walks a cluster chain through the file allocation table.  It keeps the FAT
/// sector of the current cluster in a buffer; when the walk moves to a cluster
/// whose entry lies in another sector, `next` names that sector and the caller
/// hands its bytes to `load_sector` before the next step.
pub struct FATIterator {
    fat_fs: FATFileSystem,
    pub cluster: u32,
    no_more: bool,
    sector_size: usize,
    fat_buffer: Vec<u8>,
}

impl FATIterator {
    pub closed spec fn fs(&self) -> FATFileSystem {
        self.fat_fs
    }

    /// The cluster the walk stands on.
    pub closed spec fn current(&self) -> u32 {
        self.cluster
    }

    pub closed spec fn spec_no_more(&self) -> bool {
        self.no_more
    }

    pub closed spec fn spec_sector_size(&self) -> usize {
        self.sector_size
    }

    pub closed spec fn buffer(&self) -> Seq<u8> {
        self.fat_buffer@
    }

    /// The iterator can locate the FAT entry of any cluster value it may hold.
    pub closed spec fn wf(&self) -> bool {
        &&& self.spec_sector_size() > 0
        &&& self.buffer().len() == self.spec_sector_size()
        &&& self.fs().first_fat_sector + 0x4000_0000 <= usize::MAX
        &&& sector_offset_defined(
            self.fs().fat_type,
            self.fs().first_fat_sector,
            self.spec_sector_size(),
            self.cluster,
        )
    }

    /// The cluster value that the next step moves to.
    pub open spec fn next_value(&self) -> int {
        let t = self.fs().fat_type;
        if spec_cluster_ok(t, self.current() as int) {
            fat_entry_value(
                t,
                self.buffer(),
                fat_sector_offset_of(t, self.spec_sector_size(), self.current() as int),
                self.current() as int,
            )
        } else {
            self.current() as int
        }
    }

    /// Whether the next step reports a cluster of the chain.
    pub open spec fn steps_to_cluster(&self) -> bool {
        !self.spec_no_more() && classify_entry(self.fs().fat_type, self.current(), 0) is Cluster
    }

    /// Whether the next step can read the current cluster's FAT entry from the
    /// buffered sector.
    pub open spec fn entry_in_buffer(&self) -> bool {
        spec_cluster_ok(self.fs().fat_type, self.current() as int) ==> fat_sector_offset_of(
            self.fs().fat_type,
            self.spec_sector_size(),
            self.current() as int,
        ) + entry_width(self.fs().fat_type) <= self.spec_sector_size()
    }

    /// A walk from `cluster`; `fat_sector` holds the bytes of the FAT sector of
    /// `cluster`, which the caller has read.
    pub fn new(fat_fs: FATFileSystem, cluster: u32, sector_size: usize, fat_sector: Vec<u8>) -> (it:
        FATIterator)
        requires
            sector_size > 0,
            fat_sector@.len() == sector_size,
            fat_fs.first_fat_sector + 0x4000_0000 <= usize::MAX,
            sector_offset_defined(fat_fs.fat_type, fat_fs.first_fat_sector, sector_size, cluster),
        ensures
            it.wf(),
            it.fs() == fat_fs,
            it.current() == cluster,
            !it.spec_no_more(),
            it.spec_sector_size() == sector_size,
            it.buffer() == fat_sector@,
    {
        FATIterator { fat_fs, cluster, no_more: false, sector_size, fat_buffer: fat_sector }
    }

    /// The sector and offset of the FAT entry of `cluster`.
    pub fn cluster_index_to_sector_offset(&self, cluster: u32) -> (r: (u64, usize))
        requires
            sector_offset_defined(
                self.fs().fat_type,
                self.fs().first_fat_sector,
                self.spec_sector_size(),
                cluster,
            ),
        ensures
            r.0 == fat_sector_of(
                self.fs().fat_type,
                self.fs().first_fat_sector,
                self.spec_sector_size(),
                cluster as int,
            ),
            r.1 == fat_sector_offset_of(self.fs().fat_type, self.spec_sector_size(), cluster as int),
    {
        sector_offset(self.fat_fs.fat_type, self.fat_fs.first_fat_sector, self.sector_size, cluster)
    }

    /// Whether the walk may go on from `cluster`.
    pub fn cluster_ok(&self, cluster: u32) -> (ok: bool)
        ensures
            ok == spec_cluster_ok(self.fs().fat_type, cluster as int),
    {
        match self.fat_fs.fat_type {
            FATType::FAT12 => !(cluster == 0 || (cluster >= 0xFF7 && cluster <= 0xFFF)),
            FATType::FAT16 => !(cluster == 0 || (cluster >= 0xFFF7)),
            FATType::FAT32 => !(cluster == 0 || (cluster >= 0xFFFFFFF7)),
        }
    }

    /// Replaces the buffered FAT sector.
    pub fn load_sector(&mut self, fat_sector: Vec<u8>)
        requires
            old(self).wf(),
            fat_sector@.len() == old(self).spec_sector_size(),
        ensures
            final(self).wf(),
            final(self).buffer() == fat_sector@,
            final(self).fs() == old(self).fs(),
            final(self).current() == old(self).current(),
            final(self).spec_no_more() == old(self).spec_no_more(),
            final(self).spec_sector_size() == old(self).spec_sector_size(),
    {
        self.fat_buffer = fat_sector;
    }

    /// One step of the walk.  Once the walk stood on a value that may not be
    /// followed, it reports that value and then nothing more.  Otherwise it moves
    /// to the value of the current cluster's FAT entry, reports the cluster it
    /// stood on, and names the FAT sector to load when the new cluster's entry
    /// lies in another sector.
    pub fn next(&mut self) -> (r: (Option<FATEntry>, Option<u64>))
        requires
            old(self).wf(),
            spec_cluster_ok(old(self).fs().fat_type, old(self).current() as int)
                ==> fat_sector_offset_of(
                old(self).fs().fat_type,
                old(self).spec_sector_size(),
                old(self).current() as int,
            ) + entry_width(old(self).fs().fat_type) <= old(self).spec_sector_size(),
        ensures
            final(self).wf(),
            final(self).fs() == old(self).fs(),
            final(self).spec_sector_size() == old(self).spec_sector_size(),
            final(self).buffer() == old(self).buffer(),
            walk_step(*old(self), *final(self), r.0),
            old(self).spec_no_more() ==> r == (None::<FATEntry>, None::<u64>) && *final(self)
                == *old(self),
            !old(self).spec_no_more() ==> ({
                let t = old(self).fs().fat_type;
                let rv = old(self).current();
                let ok = spec_cluster_ok(t, rv as int);
                let next = if ok {
                    fat_entry_value(
                        t,
                        old(self).buffer(),
                        fat_sector_offset_of(t, old(self).spec_sector_size(), rv as int),
                        rv as int,
                    )
                } else {
                    rv as int
                };
                let s = old(self).spec_sector_size();
                let f = old(self).fs().first_fat_sector;
                &&& final(self).current() == next
                &&& final(self).spec_no_more() == !ok
                &&& r.0 == Some(classify_entry(t, rv, final(self).current()))
                &&& r.1 == if ok && fat_sector_of(t, f, s, next) != fat_sector_of(t, f, s, rv as int) {
                    Some(fat_sector_of(t, f, s, next) as u64)
                } else {
                    None::<u64>
                }
            }),
    {
        if self.no_more {
            return (None, None);
        }
        let rv = self.cluster;
        let mut reload: Option<u64> = None;
        if !self.cluster_ok(rv) {
            self.no_more = true;
        } else {
            let (sec, sec_off) = self.cluster_index_to_sector_offset(self.cluster);
            self.cluster = read_fat_entry(self.fat_fs.fat_type, &self.fat_buffer, sec_off, rv);
            let (sec_new, _) = self.cluster_index_to_sector_offset(self.cluster);
            if sec != sec_new {
                reload = Some(sec_new);
            }
        }
        (Some(classify(self.fat_fs.fat_type, rv, self.cluster)), reload)
    }
}

/// What one step of the chain walk does: it keeps its file system, and, for
/// the cluster it stands on and what it reports, a walk that has stopped
/// reports nothing and stays; else
/// it moves to the value of the current cluster's FAT entry (or stays, on a
/// value that may not be followed, and stops), and reports the value it stood
/// on.
pub open spec fn walk_step(a: FATIterator, b: FATIterator, r: Option<FATEntry>) -> bool {
    &&& b.fs() == a.fs()
    &&& if a.spec_no_more() {
        r is None && b.current() == a.current() && b.spec_no_more()
    } else {
        &&& b.current() == a.next_value()
        &&& b.spec_no_more() == !spec_cluster_ok(a.fs().fat_type, a.current() as int)
        &&& r == Some(classify_entry(a.fs().fat_type, a.current(), b.current()))
    }
}

/// Whether `ws` and `rs` are a walk on a FAT16 volume along the chain `chain`
/// ending in `end`: step `i` goes from `ws[i]` to `ws[i + 1]` reporting
/// `rs[i]` (FAT sectors may be loaded between steps), the walk starts on the
/// chain's first cluster, and at each cluster of the chain the buffered FAT
/// gives the next cluster, or `end` after the last.
pub open spec fn fat16_chain_walk(
    ws: Seq<FATIterator>,
    rs: Seq<Option<FATEntry>>,
    chain: Seq<u32>,
    end: u32,
) -> bool {
    &&& chain.len() >= 1
    &&& ws.len() == rs.len() + 1
    &&& ws[0].fs().fat_type == FATType::FAT16
    &&& ws[0].current() == chain[0]
    &&& !ws[0].spec_no_more()
    &&& forall|i: int| 0 <= i < rs.len() ==> walk_step(ws[i], ws[i + 1], #[trigger] rs[i])
    &&& forall|i: int|
        0 <= i < chain.len() && i < ws.len() ==> (#[trigger] ws[i]).next_value() == if i + 1
            < chain.len() {
            chain[i + 1] as int
        } else {
            end as int
        }
}

proof fn lemma_chain_walk_state(
    ws: Seq<FATIterator>,
    rs: Seq<Option<FATEntry>>,
    chain: Seq<u32>,
    end: u32,
    i: int,
)
    requires
        fat16_chain_walk(ws, rs, chain, end),
        forall|j: int| 0 <= j < chain.len() ==> 2 <= #[trigger] chain[j] < 0xFFF7,
        0xFFF9 <= end <= 0xFFFF,
        0 <= i < ws.len(),
    ensures
        ws[i].fs() == ws[0].fs(),
        i < chain.len() ==> ws[i].current() == chain[i] && !ws[i].spec_no_more(),
        i == chain.len() ==> ws[i].current() == end && !ws[i].spec_no_more(),
        i > chain.len() ==> ws[i].spec_no_more(),
    decreases i,
{
    if i > 0 {
        lemma_chain_walk_state(ws, rs, chain, end, i - 1);
        assert(walk_step(ws[i - 1], ws[i], rs[i - 1]));
        if i - 1 < chain.len() {
            assert(2 <= chain[i - 1] < 0xFFF7);
        }
    }
}

/// The chain walk over a FAT16 chain `c0 -> ... -> ck -> end`, `end` marking
/// the end of the chain: it reports each cluster of the chain in turn, then
/// the end of the chain, then nothing on every later step.
pub proof fn lemma_fat16_chain(
    ws: Seq<FATIterator>,
    rs: Seq<Option<FATEntry>>,
    chain: Seq<u32>,
    end: u32,
)
    requires
        fat16_chain_walk(ws, rs, chain, end),
        forall|j: int| 0 <= j < chain.len() ==> 2 <= #[trigger] chain[j] < 0xFFF7,
        0xFFF9 <= end <= 0xFFFF,
    ensures
        forall|i: int|
            0 <= i < chain.len() && i < rs.len() ==> #[trigger] rs[i] == Some(
                FATEntry::Cluster(chain[i]),
            ),
        chain.len() < rs.len() ==> rs[chain.len() as int] == Some(FATEntry::EndOfChain),
        forall|i: int| chain.len() < i < rs.len() ==> #[trigger] rs[i] is None,
{
    assert forall|i: int| 0 <= i < chain.len() && i < rs.len() implies #[trigger] rs[i] == Some(
        FATEntry::Cluster(chain[i]),
    ) by {
        lemma_chain_walk_state(ws, rs, chain, end, i);
        assert(walk_step(ws[i], ws[i + 1], rs[i]));
        assert(2 <= chain[i] < 0xFFF7);
    }
    if chain.len() < rs.len() {
        let k = chain.len() as int;
        lemma_chain_walk_state(ws, rs, chain, end, k);
        assert(walk_step(ws[k], ws[k + 1], rs[k]));
    }
    assert forall|i: int| chain.len() < i < rs.len() implies #[trigger] rs[i] is None by {
        lemma_chain_walk_state(ws, rs, chain, end, i);
        assert(walk_step(ws[i], ws[i + 1], rs[i]));
    }
}

impl FATFileSystem {
    /// The first sector of data cluster `cluster`; the data region starts with
    /// cluster 2.
    pub open spec fn spec_cluster_to_sector(&self, cluster: int) -> int {
        (cluster - 2) * self.sectors_per_cluster + self.first_data_sector
    }

    /// The first sector of data cluster `cluster`.
    pub fn cluster_to_sector(&self, cluster: u32) -> (sector: u32)
        requires
            cluster >= 2,
            self.sectors_per_cluster <= 0xFF,
            self.spec_cluster_to_sector(cluster as int) <= u32::MAX,
        ensures
            sector == self.spec_cluster_to_sector(cluster as int),
    {
        proof {
            lemma_mul_le((cluster - 2) as int, self.sectors_per_cluster as int, u32::MAX as int, 0xFF);
        }
        ((cluster as u64 - 2) * self.sectors_per_cluster + self.first_data_sector) as u32
    }
}

/// Walks the sectors of a cluster chain: the sectors of the current cluster in
/// order, then on to the next cluster of the chain.
pub struct FATSectorIterator {
    pub cluster_iter: FATIterator,
    pub sectors_per_cluster: u32,
    pub sector_index: u32,
    pub sector_index_from_start: u32,
}

impl FATSectorIterator {
    /// Whether the current sector can be computed.
    pub open spec fn current_defined(&self) -> bool {
        let fs = self.cluster_iter.fs();
        &&& self.cluster_iter.current() >= 2
        &&& fs.sectors_per_cluster <= 0xFF
        &&& fs.spec_cluster_to_sector(self.cluster_iter.current() as int) + self.sector_index
            <= u32::MAX
    }

    /// The sector the walk stands on.
    pub open spec fn spec_current_sector(&self) -> int {
        self.cluster_iter.fs().spec_cluster_to_sector(self.cluster_iter.current() as int)
            + self.sector_index
    }

    /// A sector walk that starts at the first sector of the cluster walk's
    /// current cluster.
    pub fn new(cluster_iter: FATIterator) -> (it: FATSectorIterator)
        requires
            cluster_iter.fs().sectors_per_cluster <= 0xFF,
        ensures
            it.cluster_iter == cluster_iter,
            it.sectors_per_cluster == cluster_iter.fs().sectors_per_cluster,
            it.sector_index == 0,
            it.sector_index_from_start == 0,
    {
        let sectors_per_cluster = cluster_iter.fat_fs.sectors_per_cluster as u32;
        FATSectorIterator {
            cluster_iter,
            sectors_per_cluster,
            sector_index: 0,
            sector_index_from_start: 0,
        }
    }

    /// The sector the walk stands on.
    pub fn current_sector(&self) -> (sector: u32)
        requires
            self.current_defined(),
        ensures
            sector == self.spec_current_sector(),
    {
        self.cluster_iter.fat_fs.cluster_to_sector(self.cluster_iter.cluster) + self.sector_index
    }

    /// One step of the sector walk: the next sector of the current cluster, or,
    /// after its last sector, the first sector of the next cluster of the chain
    /// (`None` when the chain does not go on with a cluster).  The second value
    /// names a FAT sector to load, as `FATIterator::next` does.
    pub fn next(&mut self) -> (r: (Option<u32>, Option<u64>))
        requires
            old(self).cluster_iter.wf(),
            old(self).cluster_iter.entry_in_buffer(),
            old(self).sectors_per_cluster > 0,
            old(self).sectors_per_cluster == old(self).cluster_iter.fs().sectors_per_cluster,
            old(self).cluster_iter.fs().sectors_per_cluster <= 0xFF,
            old(self).sector_index_from_start < u32::MAX,
            old(self).sector_index < old(self).sectors_per_cluster - 1 ==> (FATSectorIterator {
                sector_index: (old(self).sector_index + 1) as u32,
                ..*old(self)
            }).current_defined(),
            old(self).sector_index >= old(self).sectors_per_cluster - 1
                && old(self).cluster_iter.steps_to_cluster() ==> ({
                let next = old(self).cluster_iter.next_value();
                next >= 2 && old(self).cluster_iter.fs().spec_cluster_to_sector(next) <= u32::MAX
            }),
        ensures
            final(self).cluster_iter.wf(),
            final(self).sectors_per_cluster == old(self).sectors_per_cluster,
            old(self).sector_index < old(self).sectors_per_cluster - 1 ==> {
                &&& final(self).cluster_iter == old(self).cluster_iter
                &&& final(self).sector_index == old(self).sector_index + 1
                &&& final(self).sector_index_from_start == old(self).sector_index_from_start + 1
                &&& r == (Some(final(self).spec_current_sector() as u32), None::<u64>)
                &&& final(self).spec_current_sector() == old(self).spec_current_sector() + 1
            },
            old(self).sector_index >= old(self).sectors_per_cluster - 1 ==> {
                &&& final(self).cluster_iter.fs() == old(self).cluster_iter.fs()
                &&& final(self).cluster_iter.buffer() == old(self).cluster_iter.buffer()
                &&& final(self).cluster_iter.current() == old(self).cluster_iter.next_value()
                    || old(self).cluster_iter.spec_no_more()
                &&& old(self).cluster_iter.steps_to_cluster() ==> {
                    &&& final(self).sector_index == 0
                    &&& final(self).sector_index_from_start == old(self).sector_index_from_start
                        + 1
                    &&& r.0 == Some(final(self).spec_current_sector() as u32)
                }
                &&& !old(self).cluster_iter.steps_to_cluster() ==> r.0 is None
            },
    {
        if self.sector_index < self.sectors_per_cluster - 1 {
            self.sector_index = self.sector_index + 1;
            self.sector_index_from_start = self.sector_index_from_start + 1;
            (Some(self.current_sector()), None)
        } else {
            let ghost before = self.cluster_iter;
            let (ent, reload) = self.cluster_iter.next();
            match ent {
                Some(FATEntry::Cluster(_)) => {},
                _ => {
                    return (None, reload);
                },
            }
            assert(before.steps_to_cluster());
            self.sector_index = 0;
            self.sector_index_from_start = self.sector_index_from_start + 1;
            (Some(self.current_sector()), reload)
        }
    }
}

/// What a cluster allocator does with the clusters it finds.
#[derive(Clone, Copy, Debug, PartialEq, Eq, Structural)]
pub enum ClusterAllocatorMode {
    CheckFree,
    Allocate,
    Free,
}

/// The outcome of a run of the free-cluster search.
#[derive(Clone, Copy, Debug, PartialEq, Eq, Structural)]
pub enum ScanStep {
    /// This cluster's FAT entry is 0.
    Found(u32),
    /// The search reached the end of the cluster range.
    Exhausted,
    /// The search needs this FAT sector in the buffer to go on.
    ReadSector(u64),
}

/// Finds free clusters after a given one and links each found cluster into
/// the entry of the previous one.
pub struct ClusterAllocator {
    fat_fs: FATFileSystem,
    pub prev_free_cluster: u32,
    sector_size: usize,
    fat_sector: u64,
    mode: ClusterAllocatorMode,
    fat_buffer: Vec<u8>,
    cursor: u32,
}

impl ClusterAllocator {
    pub closed spec fn fs(&self) -> FATFileSystem {
        self.fat_fs
    }

    pub closed spec fn prev(&self) -> u32 {
        self.prev_free_cluster
    }

    pub closed spec fn spec_sector_size(&self) -> usize {
        self.sector_size
    }

    /// The FAT sector in the buffer.
    pub closed spec fn spec_fat_sector(&self) -> u64 {
        self.fat_sector
    }

    pub closed spec fn spec_mode(&self) -> ClusterAllocatorMode {
        self.mode
    }

    pub closed spec fn buffer(&self) -> Seq<u8> {
        self.fat_buffer@
    }

    /// The next cluster the search looks at.
    pub closed spec fn spec_cursor(&self) -> u32 {
        self.cursor
    }

    /// The FAT entry of `c` as the search reads it: FAT12 entries are split by
    /// the parity of the previous free cluster.
    pub open spec fn entry(&self, c: int) -> int {
        let t = self.fs().fat_type;
        fat_entry_value(
            t,
            self.buffer(),
            fat_sector_offset_of(t, self.spec_sector_size(), c),
            self.prev() as int,
        )
    }

    /// The sector holding the FAT entry of `c`.
    pub open spec fn sector_of(&self, c: int) -> int {
        fat_sector_of(self.fs().fat_type, self.fs().first_fat_sector, self.spec_sector_size(), c)
    }

    /// The search can locate and read the entry of every cluster it may visit.
    pub open spec fn search_defined(&self) -> bool {
        let t = self.fs().fat_type;
        &&& self.spec_sector_size() > 0
        &&& self.buffer().len() == self.spec_sector_size()
        &&& self.fs().total_clusters <= u32::MAX
        &&& forall|c: u32|
            self.spec_cursor() <= c && (c < self.fs().total_clusters || c == self.spec_cursor())
                ==> #[trigger] sector_offset_defined(
                t,
                self.fs().first_fat_sector,
                self.spec_sector_size(),
                c,
            ) && fat_sector_offset_of(t, self.spec_sector_size(), c as int) + entry_width(t)
                <= self.spec_sector_size()
    }

    /// An allocator that searches after `first_cluster`; `fat_sector` holds the
    /// FAT sector of `first_cluster`.  The search starts at the cluster after it.
    pub fn new(
        fat_fs: FATFileSystem,
        first_cluster: u32,
        mode: ClusterAllocatorMode,
        sector_size: usize,
        fat_sector: Vec<u8>,
    ) -> (a: ClusterAllocator)
        requires
            first_cluster < u32::MAX,
            sector_offset_defined(fat_fs.fat_type, fat_fs.first_fat_sector, sector_size, first_cluster),
        ensures
            a.fs() == fat_fs,
            a.prev() == first_cluster,
            a.spec_mode() == mode,
            a.spec_sector_size() == sector_size,
            a.buffer() == fat_sector@,
            a.spec_fat_sector() == fat_sector_of(
                fat_fs.fat_type,
                fat_fs.first_fat_sector,
                sector_size,
                first_cluster as int,
            ),
            a.spec_cursor() == first_cluster + 1,
    {
        let (sec, _) = sector_offset(fat_fs.fat_type, fat_fs.first_fat_sector, sector_size, first_cluster);
        ClusterAllocator {
            fat_fs,
            prev_free_cluster: first_cluster,
            sector_size,
            fat_sector: sec,
            mode,
            fat_buffer: fat_sector,
            cursor: first_cluster + 1,
        }
    }

    /// The sector and offset of the FAT entry of `cluster`.
    pub fn cluster_index_to_sector_offset(&self, cluster: u32) -> (r: (u64, usize))
        requires
            sector_offset_defined(
                self.fs().fat_type,
                self.fs().first_fat_sector,
                self.spec_sector_size(),
                cluster,
            ),
        ensures
            r.0 == self.sector_of(cluster as int),
            r.1 == fat_sector_offset_of(self.fs().fat_type, self.spec_sector_size(), cluster as int),
    {
        sector_offset(self.fat_fs.fat_type, self.fat_fs.first_fat_sector, self.sector_size, cluster)
    }

    /// Puts FAT sector `sector` into the buffer.
    pub fn load_fat_sector(&mut self, sector: u64, bytes: Vec<u8>)
        ensures
            final(self).buffer() == bytes@,
            final(self).spec_fat_sector() == sector,
            final(self).fs() == old(self).fs(),
            final(self).prev() == old(self).prev(),
            final(self).spec_sector_size() == old(self).spec_sector_size(),
            final(self).spec_mode() == old(self).spec_mode(),
            final(self).spec_cursor() == old(self).spec_cursor(),
    {
        self.fat_sector = sector;
        self.fat_buffer = bytes;
    }

    /// Restarts the search at the cluster after the previous free one.
    pub fn restart_search(&mut self)
        requires
            old(self).prev() < u32::MAX,
        ensures
            final(self).spec_cursor() == old(self).prev() + 1,
            final(self).buffer() == old(self).buffer(),
            final(self).spec_fat_sector() == old(self).spec_fat_sector(),
            final(self).fs() == old(self).fs(),
            final(self).prev() == old(self).prev(),
            final(self).spec_sector_size() == old(self).spec_sector_size(),
            final(self).spec_mode() == old(self).spec_mode(),
    {
        self.cursor = self.prev_free_cluster + 1;
    }

    /// Runs the free-cluster search on the buffered FAT sector: looks at the
    /// clusters from the cursor upwards until one has a free entry, the next one
    /// lies in another FAT sector, or the cluster range ends.
    #[verifier::spinoff_prover]
    pub fn find_free_cluster(&mut self) -> (step: ScanStep)
        requires
            old(self).search_defined(),
        ensures
            !(step is Exhausted) ==> final(self).search_defined(),
            final(self).buffer() == old(self).buffer(),
            final(self).spec_fat_sector() == old(self).spec_fat_sector(),
            final(self).fs() == old(self).fs(),
            final(self).prev() == old(self).prev(),
            final(self).spec_sector_size() == old(self).spec_sector_size(),
            final(self).spec_mode() == old(self).spec_mode(),
            old(self).spec_cursor() <= final(self).spec_cursor(),
            forall|c: int|
                old(self).spec_cursor() <= c < final(self).spec_cursor() ==> old(self).sector_of(c)
                    == old(self).spec_fat_sector() && old(self).entry(c) != 0,
            match step {
                ScanStep::Found(c) => {
                    &&& c == final(self).spec_cursor()
                    &&& old(self).sector_of(c as int) == old(self).spec_fat_sector()
                    &&& old(self).entry(c as int) == 0
                },
                ScanStep::ReadSector(sec) => {
                    &&& sec == old(self).sector_of(final(self).spec_cursor() as int)
                    &&& sec != old(self).spec_fat_sector()
                },
                ScanStep::Exhausted => {
                    &&& final(self).spec_cursor() >= old(self).fs().total_clusters
                    &&& final(self).spec_cursor() > old(self).spec_cursor()
                },
            },
    {
        loop
            invariant_except_break
                self.search_defined(),
                self.buffer() == old(self).buffer(),
                self.spec_fat_sector() == old(self).spec_fat_sector(),
                self.fs() == old(self).fs(),
                self.prev() == old(self).prev(),
                self.spec_sector_size() == old(self).spec_sector_size(),
                self.spec_mode() == old(self).spec_mode(),
                old(self).spec_cursor() <= self.spec_cursor(),
                self.spec_cursor() == old(self).spec_cursor() || self.spec_cursor() < self.fs().total_clusters,
                forall|c: int|
                    old(self).spec_cursor() <= c < self.spec_cursor() ==> old(self).sector_of(c)
                        == old(self).spec_fat_sector() && old(self).entry(c) != 0,
            ensures
                self.buffer() == old(self).buffer(),
                self.spec_fat_sector() == old(self).spec_fat_sector(),
                self.fs() == old(self).fs(),
                self.prev() == old(self).prev(),
                self.spec_sector_size() == old(self).spec_sector_size(),
                self.spec_mode() == old(self).spec_mode(),
                old(self).spec_cursor() <= self.spec_cursor(),
                forall|c: int|
                    old(self).spec_cursor() <= c < self.spec_cursor() ==> old(self).sector_of(c)
                        == old(self).spec_fat_sector() && old(self).entry(c) != 0,
            decreases self.fs().total_clusters + 1 - self.spec_cursor(),
        {
            proof {
                let c = self.cursor;
                assert(sector_offset_defined(
                    self.fat_fs.fat_type,
                    self.fat_fs.first_fat_sector,
                    self.sector_size,
                    c,
                ));
            }
            let (sec, sec_off) = self.cluster_index_to_sector_offset(self.cursor);
            if sec != self.fat_sector {
                return ScanStep::ReadSector(sec);
            }
            let clu = read_fat_entry(self.fat_fs.fat_type, &self.fat_buffer, sec_off, self.prev_free_cluster);
            if clu == 0 {
                return ScanStep::Found(self.cursor);
            }
            self.cursor = self.cursor + 1;
            if self.cursor as u64 >= self.fat_fs.total_clusters {
                return ScanStep::Exhausted;
            }
        }
    }

    /// The bytes of the buffered FAT sector.
    pub fn fat_sector_bytes(&self) -> (b: &Vec<u8>)
        ensures
            b@ == self.buffer(),
    {
        &self.fat_buffer
    }

    /// The FAT sector that `link_cluster` writes: the one of the previous free
    /// cluster.
    pub fn link_sector(&self) -> (sec: u64)
        requires
            sector_offset_defined(
                self.fs().fat_type,
                self.fs().first_fat_sector,
                self.spec_sector_size(),
                self.prev(),
            ),
        ensures
            sec == self.sector_of(self.prev() as int),
    {
        self.cluster_index_to_sector_offset(self.prev_free_cluster).0
    }

    /// Records `clu` in the FAT entry of the previous free cluster, in the
    /// buffered sector, and makes `clu` the previous free cluster.  In
    /// `Allocate` mode it names the sector to write back.  FAT12 tables are not
    /// written.
    pub fn link_cluster(&mut self, clu: u32) -> (write_back: Option<u64>)
        requires
            old(self).fs().fat_type != FATType::FAT12,
            sector_offset_defined(
                old(self).fs().fat_type,
                old(self).fs().first_fat_sector,
                old(self).spec_sector_size(),
                old(self).prev(),
            ),
            old(self).spec_fat_sector() == old(self).sector_of(old(self).prev() as int),
            old(self).buffer().len() == old(self).spec_sector_size(),
            fat_sector_offset_of(old(self).fs().fat_type, old(self).spec_sector_size(), old(self).prev() as int)
                + entry_width(old(self).fs().fat_type) <= old(self).spec_sector_size(),
        ensures
            ({
                let off = fat_sector_offset_of(old(self).fs().fat_type, old(self).spec_sector_size(), old(self).prev() as int);
                let b = old(self).buffer();
                &&& final(self).buffer() == if old(self).fs().fat_type == FATType::FAT16 {
                    b.update(off, (clu % 256) as u8).update(off + 1, ((clu / 256) % 256) as u8)
                } else {
                    b.update(off, (clu % 256) as u8).update(off + 1, ((clu / 256) % 256) as u8).update(
                        off + 2, ((clu / 65536) % 256) as u8).update(off + 3, (clu / 16777216) as u8)
                }
                &&& final(self).buffer() == entry_stored(old(self).fs().fat_type, b, off, clu)
                &&& old(self).fs().fat_type == FATType::FAT16 && clu <= 0xFFFF ==> fat_entry_value(
                    FATType::FAT16,
                    final(self).buffer(),
                    off,
                    old(self).prev() as int,
                ) == clu
                &&& old(self).fs().fat_type == FATType::FAT32 && clu < 0x1000_0000 ==> fat_entry_value(
                    FATType::FAT32,
                    final(self).buffer(),
                    off,
                    old(self).prev() as int,
                ) == clu
            }),
            final(self).prev() == clu,
            write_back == if old(self).spec_mode() == ClusterAllocatorMode::Allocate {
                Some(old(self).spec_fat_sector())
            } else {
                None::<u64>
            },
            final(self).spec_fat_sector() == old(self).spec_fat_sector(),
            final(self).fs() == old(self).fs(),
            final(self).spec_sector_size() == old(self).spec_sector_size(),
            final(self).spec_mode() == old(self).spec_mode(),
            final(self).spec_cursor() == old(self).spec_cursor(),
    {
        let (sec, sec_off) = self.cluster_index_to_sector_offset(self.prev_free_cluster);
        self.fat_buffer.set(sec_off, (clu % 256) as u8);
        self.fat_buffer.set(sec_off + 1, ((clu / 256) % 256) as u8);
        if self.fat_fs.fat_type == FATType::FAT32 {
            self.fat_buffer.set(sec_off + 2, ((clu / 65536) % 256) as u8);
            self.fat_buffer.set(sec_off + 3, (clu / 16777216) as u8);
        }
        proof {
            let off = sec_off as int;
            let b = old(self).buffer();
            lemma_fat_entry_little_endian(b, off, old(self).prev() as int, clu);
        }
        self.prev_free_cluster = clu;
        match self.mode {
            ClusterAllocatorMode::Allocate => Some(sec),
            _ => None,
        }
    }
}

} // verus!
