use vstd::prelude::*;
use vstd::utf8::{valid_utf8, decode_utf8, encode_utf8, is_char_boundary};
use crate::bytes::{le_u16, le_u32, read_u16_le, read_u32_le};
use crate::fat::FATFileSystem;
use crate::text::{
    valid_utf16,
    is_high_surrogate,
    is_low_surrogate,
    utf16_decode,
    string_from_utf16,
    lemma_utf16_decode_valid,
    string_from_utf8,
    trim,
    trimmed,
    insert_at_byte,
    string_insert,
    string_concat,
    ascii_chars,
    ascii_string,
    all_ascii,
    decimal_digits,
    push_decimal,
    lemma_decimal_digits_ascii,
};

verus! {

/// The size of a directory entry in bytes.
pub const DIRECTORY_ENTRY_SIZE: usize = 32;
pub const ATTRIBUTE_READ_ONLY: u8 = 0x01;
pub const ATTRIBUTE_HIDDEN: u8 = 0x02;
pub const ATTRIBUTE_SYSTEM: u8 = 0x04;
pub const ATTRIBUTE_VOLUME_ID: u8 = 0x08;
pub const ATTRIBUTE_DIRECTORY: u8 = 0x10;
pub const ATTRIBUTE_ARCHIVE: u8 = 0x20;
/// The attributes that mark a long file name entry.
pub const ATTRIBUTE_LFN: u8 = 0x0F;
/// The first byte of a free entry, after which the directory ends.
pub const ENTRY_FREE: u8 = 0x00;
/// The first byte of a deleted entry.
pub const ENTRY_UNUSED: u8 = 0xE5;
/// The padding unit of a long name.
pub const NAME_FILL: u16 = 0xFFFF;

/// The decimal digits of `n`, at least two: a single digit gets a zero in
/// front.
pub open spec fn two_digits(n: nat) -> Seq<u8> {
    if n < 10 {
        seq![48u8] + decimal_digits(n)
    } else {
        decimal_digits(n)
    }
}

/// `n` in decimal, with at least two digits.
fn push_two_digits(out: &mut Vec<u8>, n: u32)
    ensures
        final(out)@ == old(out)@ + two_digits(n as nat),
{
    if n < 10 {
        out.push(48u8);
        push_decimal(out, n);
        assert(out@ =~= old(out)@ + two_digits(n as nat));
    } else {
        push_decimal(out, n);
    }
}

proof fn lemma_two_digits_ascii(n: nat)
    ensures
        all_ascii(two_digits(n)),
{
    lemma_decimal_digits_ascii(n);
    assert(all_ascii(seq![48u8]));
    if n < 10 {
        assert(forall|i: int|
            0 <= i < two_digits(n).len() ==> #[trigger] two_digits(n)[i] == if i == 0 {
                48u8
            } else {
                decimal_digits(n)[i - 1]
            });
    }
}

/// A date as a directory entry packs it in 16 bits: the day in the low five
/// bits, the month in the next four, the years since 1980 in the top seven.
#[derive(Clone, Copy, Debug, PartialEq, Eq, Structural)]
pub struct FileDatestamp {
    pub day: u8,
    pub month: u8,
    pub year: u8,
}

/// The text of a date: the year, then month and day with two digits each,
/// joined by dashes.
pub open spec fn date_text(d: FileDatestamp) -> Seq<u8> {
    decimal_digits((d.year + 1980) as nat) + seq![45u8] + two_digits(d.month as nat) + seq![45u8] + two_digits(
        d.day as nat,
    )
}

impl FileDatestamp {
    /// The date packed in `bits`.
    pub fn from_bits(bits: u16) -> (d: FileDatestamp)
        ensures
            d.day == bits % 32,
            d.month == (bits / 32) % 16,
            d.year == bits / 512,
    {
        FileDatestamp { day: (bits % 32) as u8, month: ((bits / 32) % 16) as u8, year: (bits / 512) as u8 }
    }

    /// The date as text, such as `2023-05-07`.
    pub fn to_string(&self) -> (s: String)
        ensures
            s@ == ascii_chars(date_text(*self)),
    {
        let mut out: Vec<u8> = Vec::new();
        push_decimal(&mut out, self.year as u32 + 1980);
        out.push(45u8);
        push_two_digits(&mut out, self.month as u32);
        out.push(45u8);
        push_two_digits(&mut out, self.day as u32);
        proof {
            assert(out@ =~= date_text(*self));
            lemma_decimal_digits_ascii((self.year + 1980) as nat);
            lemma_two_digits_ascii(self.month as nat);
            lemma_two_digits_ascii(self.day as nat);
            let a = decimal_digits((self.year + 1980) as nat);
            let b = two_digits(self.month as nat);
            let c = two_digits(self.day as nat);
            assert forall|i: int| 0 <= i < out@.len() implies #[trigger] out@[i] < 128 by {
                if i < a.len() {
                    assert(out@[i] == a[i]);
                } else if i < a.len() + 1 {
                } else if i < a.len() + 1 + b.len() {
                    assert(out@[i] == b[i - a.len() - 1]);
                } else if i < a.len() + 2 + b.len() {
                } else {
                    assert(out@[i] == c[i - a.len() - 2 - b.len()]);
                }
            }
        }
        ascii_string(out)
    }
}

/// A time of day as a directory entry packs it in 16 bits: the seconds
/// halved in the low five bits, the minutes in the next six, the hours in
/// the top five.
#[derive(Clone, Copy, Debug, PartialEq, Eq, Structural)]
pub struct FileTimestamp {
    pub second: u8,
    pub minute: u8,
    pub hour: u8,
}

/// The text of a time: the hour plus two, the minute and the seconds field
/// doubled, two digits each, joined by colons.
pub open spec fn time_text(t: FileTimestamp) -> Seq<u8> {
    two_digits((t.hour + 2) as nat) + seq![58u8] + two_digits(t.minute as nat) + seq![58u8]
        + two_digits((t.second * 2) as nat)
}

impl FileTimestamp {
    /// The time packed in `bits`.
    pub fn from_bits(bits: u16) -> (t: FileTimestamp)
        ensures
            t.second == bits % 32,
            t.minute == (bits / 32) % 64,
            t.hour == bits / 2048,
    {
        FileTimestamp {
            second: (bits % 32) as u8,
            minute: ((bits / 32) % 64) as u8,
            hour: (bits / 2048) as u8,
        }
    }

    /// The time as text, such as `14:05:30`.
    pub fn to_string(&self) -> (s: String)
        ensures
            s@ == ascii_chars(time_text(*self)),
    {
        let mut out: Vec<u8> = Vec::new();
        push_two_digits(&mut out, self.hour as u32 + 2);
        out.push(58u8);
        push_two_digits(&mut out, self.minute as u32);
        out.push(58u8);
        push_two_digits(&mut out, self.second as u32 * 2);
        proof {
            assert(out@ =~= time_text(*self));
            lemma_two_digits_ascii((self.hour + 2) as nat);
            lemma_two_digits_ascii(self.minute as nat);
            lemma_two_digits_ascii((self.second * 2) as nat);
            let a = two_digits((self.hour + 2) as nat);
            let b = two_digits(self.minute as nat);
            let c = two_digits((self.second * 2) as nat);
            assert forall|i: int| 0 <= i < out@.len() implies #[trigger] out@[i] < 128 by {
                if i < a.len() {
                    assert(out@[i] == a[i]);
                } else if i < a.len() + 1 {
                } else if i < a.len() + 1 + b.len() {
                    assert(out@[i] == b[i - a.len() - 1]);
                } else if i < a.len() + 2 + b.len() {
                } else {
                    assert(out@[i] == c[i - a.len() - 2 - b.len()]);
                }
            }
        }
        ascii_string(out)
    }
}

/// A short (8.3) directory entry.  Times and dates are kept in their packed
/// 16-bit form.
#[derive(Clone, Copy)]
pub struct FileDirectoryEntry {
    pub file_name: [u8; 11],
    pub attributes: u8,
    pub reserved: u8,
    pub creation_time_millis: u8,
    pub time_created: u16,
    pub date_created: u16,
    pub date_accessed: u16,
    pub cluster_high: u16,
    pub time_modified: u16,
    pub date_modified: u16,
    pub cluster_low: u16,
    pub size: u32,
}

/// Whether `e` is the short entry laid out in `b` from `off` on.
pub open spec fn file_entry_at(b: Seq<u8>, off: int, e: FileDirectoryEntry) -> bool {
    &&& e.file_name@ == b.subrange(off, off + 11)
    &&& e.attributes == b[off + 11]
    &&& e.reserved == b[off + 12]
    &&& e.creation_time_millis == b[off + 13]
    &&& e.time_created == le_u16(b, off + 14)
    &&& e.date_created == le_u16(b, off + 16)
    &&& e.date_accessed == le_u16(b, off + 18)
    &&& e.cluster_high == le_u16(b, off + 20)
    &&& e.time_modified == le_u16(b, off + 22)
    &&& e.date_modified == le_u16(b, off + 24)
    &&& e.cluster_low == le_u16(b, off + 26)
    &&& e.size == le_u32(b, off + 28)
}

/// The 11-byte name field of a name whose UTF-8 bytes are `b`: its first 11
/// bytes, padded with spaces.
pub open spec fn short_name_field(b: Seq<u8>) -> Seq<u8> {
    Seq::new(11, |i: int| if i < b.len() { b[i] } else { 32u8 })
}

/// Whether a name's bytes can be cut to 11: they are no longer, or byte 11
/// starts a character.
pub open spec fn name_fits_field(name: Seq<char>) -> bool {
    encode_utf8(name).len() <= 11 || is_char_boundary(encode_utf8(name), 11)
}

impl FileDirectoryEntry {
    /// The short entry laid out in `b` from `off` on.
    pub fn parse(b: &[u8], off: usize) -> (e: FileDirectoryEntry)
        requires
            off + DIRECTORY_ENTRY_SIZE <= b@.len(),
        ensures
            file_entry_at(b@, off as int, e),
    {
        let file_name = [
            b[off],
            b[off + 1],
            b[off + 2],
            b[off + 3],
            b[off + 4],
            b[off + 5],
            b[off + 6],
            b[off + 7],
            b[off + 8],
            b[off + 9],
            b[off + 10],
        ];
        assert(file_name@ =~= b@.subrange(off as int, off + 11));
        FileDirectoryEntry {
            file_name,
            attributes: b[off + 11],
            reserved: b[off + 12],
            creation_time_millis: b[off + 13],
            time_created: read_u16_le(b, off + 14),
            date_created: read_u16_le(b, off + 16),
            date_accessed: read_u16_le(b, off + 18),
            cluster_high: read_u16_le(b, off + 20),
            time_modified: read_u16_le(b, off + 22),
            date_modified: read_u16_le(b, off + 24),
            cluster_low: read_u16_le(b, off + 26),
            size: read_u32_le(b, off + 28),
        }
    }

    /// The first cluster of the file: the high and low halves joined.
    pub fn cluster(&self) -> (c: u32)
        ensures
            c == self.cluster_high * 0x10000 + self.cluster_low,
    {
        let high = self.cluster_high;
        let low = self.cluster_low;
        assert(((high as u32) << 16u32) | (low as u32) == high * 0x10000 + low) by (bit_vector);
        ((high as u32) << 16) | (low as u32)
    }

    /// A read-only entry for a file named `name` starting at `first_cluster`
    /// with `size` bytes: the name is cut to 11 bytes and padded with
    /// spaces, the creation milliseconds are 69 and all times and dates zero.
    pub fn new(name: String, first_cluster: u32, size: u32) -> (e: FileDirectoryEntry)
        requires
            name_fits_field(name@),
        ensures
            e.file_name@ == short_name_field(encode_utf8(name@)),
            e.attributes == ATTRIBUTE_READ_ONLY,
            e.reserved == 0,
            e.creation_time_millis == 69,
            e.time_created == 0,
            e.date_created == 0,
            e.date_accessed == 0,
            e.time_modified == 0,
            e.date_modified == 0,
            e.cluster_high == first_cluster / 0x10000,
            e.cluster_low == first_cluster % 0x10000,
            e.size == size,
    {
        let bytes = name.as_str().as_bytes();
        let mut field: Vec<u8> = Vec::new();
        let mut i: usize = 0;
        while i < 11
            invariant
                i <= 11,
                bytes@ == encode_utf8(name@),
                field@ == short_name_field(bytes@).take(i as int),
            decreases 11 - i,
        {
            if i < bytes.len() {
                field.push(bytes[i]);
            } else {
                field.push(32u8);
            }
            proof {
                assert(field@ =~= short_name_field(bytes@).take(i + 1));
            }
            i = i + 1;
        }
        let file_name = [
            field[0],
            field[1],
            field[2],
            field[3],
            field[4],
            field[5],
            field[6],
            field[7],
            field[8],
            field[9],
            field[10],
        ];
        assert(file_name@ =~= short_name_field(bytes@));
        assert((first_cluster >> 16u32) as u16 == first_cluster / 0x10000) by (bit_vector);
        assert((first_cluster & 0xFFFF) as u16 == first_cluster % 0x10000) by (bit_vector);
        FileDirectoryEntry {
            file_name,
            attributes: ATTRIBUTE_READ_ONLY,
            reserved: 0,
            creation_time_millis: 69,
            time_created: 0,
            date_created: 0,
            date_accessed: 0,
            cluster_high: (first_cluster >> 16) as u16,
            time_modified: 0,
            date_modified: 0,
            cluster_low: (first_cluster & 0xFFFF) as u16,
            size,
        }
    }
}

/// A long file name entry: 13 UTF-16 units of the name, in three pieces.
#[derive(Clone, Copy)]
pub struct LongFileNameEntry {
    pub order: u8,
    pub name_0: [u16; 5],
    pub attributes: u8,
    pub entry_type: u8,
    pub checksum: u8,
    pub name_1: [u16; 6],
    pub reserved: u16,
    pub name_2: [u16; 2],
}

/// The little-endian 16-bit units of `b` from `off` on, `n` of them.
pub open spec fn units_at(b: Seq<u8>, off: int, n: int) -> Seq<u16> {
    Seq::new(n as nat, |i: int| le_u16(b, off + 2 * i) as u16)
}

/// Whether `e` is the long name entry laid out in `b` from `off` on.
pub open spec fn lfn_entry_at(b: Seq<u8>, off: int, e: LongFileNameEntry) -> bool {
    &&& e.order == b[off]
    &&& e.name_0@ == units_at(b, off + 1, 5)
    &&& e.attributes == b[off + 11]
    &&& e.entry_type == b[off + 12]
    &&& e.checksum == b[off + 13]
    &&& e.name_1@ == units_at(b, off + 14, 6)
    &&& e.reserved == le_u16(b, off + 26)
    &&& e.name_2@ == units_at(b, off + 28, 2)
}

/// `part` padded with fill units to 13.
pub open spec fn padded_name(part: Seq<u16>) -> Seq<u16> {
    part + Seq::new((13 - part.len()) as nat, |i: int| NAME_FILL)
}

impl LongFileNameEntry {
    /// The long name entry laid out in `b` from `off` on.
    pub fn parse(b: &[u8], off: usize) -> (e: LongFileNameEntry)
        requires
            off + DIRECTORY_ENTRY_SIZE <= b@.len(),
        ensures
            lfn_entry_at(b@, off as int, e),
    {
        let _len = b.len();
        let name_0 = [
            read_u16_le(b, off + 1),
            read_u16_le(b, off + 3),
            read_u16_le(b, off + 5),
            read_u16_le(b, off + 7),
            read_u16_le(b, off + 9),
        ];
        let name_1 = [
            read_u16_le(b, off + 14),
            read_u16_le(b, off + 16),
            read_u16_le(b, off + 18),
            read_u16_le(b, off + 20),
            read_u16_le(b, off + 22),
            read_u16_le(b, off + 24),
        ];
        let name_2 = [read_u16_le(b, off + 28), read_u16_le(b, off + 30)];
        assert(name_0@ =~= units_at(b@, off + 1, 5));
        assert(name_1@ =~= units_at(b@, off + 14, 6));
        assert(name_2@ =~= units_at(b@, off + 28, 2));
        LongFileNameEntry {
            order: b[off],
            name_0,
            attributes: b[off + 11],
            entry_type: b[off + 12],
            checksum: b[off + 13],
            name_1,
            reserved: read_u16_le(b, off + 26),
            name_2,
        }
    }

    /// The entry with sequence number `order` and checksum `checksum` that
    /// holds `name_part`, padded with fill units to 13.
    pub fn new(name_part: &[u16], order: u8, checksum: u8) -> (e: LongFileNameEntry)
        requires
            name_part@.len() <= 13,
        ensures
            e.name_0@ + e.name_1@ + e.name_2@ == padded_name(name_part@),
            e.order == order,
            e.checksum == checksum,
            e.attributes == ATTRIBUTE_LFN,
            e.entry_type == 0,
            e.reserved == 0,
    {
        let mut units: Vec<u16> = Vec::new();
        let mut i: usize = 0;
        while i < 13
            invariant
                i <= 13,
                name_part@.len() <= 13,
                units@ == padded_name(name_part@).take(i as int),
            decreases 13 - i,
        {
            if i < name_part.len() {
                units.push(name_part[i]);
            } else {
                units.push(NAME_FILL);
            }
            proof {
                assert(units@ =~= padded_name(name_part@).take(i + 1));
            }
            i = i + 1;
        }
        let name_0 = [units[0], units[1], units[2], units[3], units[4]];
        let name_1 = [units[5], units[6], units[7], units[8], units[9], units[10]];
        let name_2 = [units[11], units[12]];
        assert(name_0@ + name_1@ + name_2@ =~= padded_name(name_part@));
        LongFileNameEntry {
            order,
            name_0,
            attributes: ATTRIBUTE_LFN,
            entry_type: 0,
            checksum,
            name_1,
            reserved: 0,
            name_2,
        }
    }
}

/// One 32-byte slot of a directory.
#[derive(Clone, Copy)]
pub enum DirectoryRawEntry {
    FileDirectoryEntry(FileDirectoryEntry),
    LongFileNameEntry(LongFileNameEntry),
    /// A deleted entry, with its sector and offset.
    UnusedEntry(u32, u32),
    /// A free entry, with its sector and offset; the directory ends there.
    FreeEntry(u32, u32),
}

/// Whether `e` is what the slot at `off` of a directory sector `b`, which is
/// sector `sector` of the volume, holds: free or deleted by its first byte,
/// else a long name entry by its attributes, else a short entry.
pub open spec fn raw_entry_at(b: Seq<u8>, off: int, sector: u32, e: DirectoryRawEntry) -> bool {
    if b[off] == ENTRY_FREE {
        e == DirectoryRawEntry::FreeEntry(sector, off as u32)
    } else if b[off] == ENTRY_UNUSED {
        e == DirectoryRawEntry::UnusedEntry(sector, off as u32)
    } else if b[off + 11] == ATTRIBUTE_LFN {
        e matches DirectoryRawEntry::LongFileNameEntry(l) && lfn_entry_at(b, off, l)
    } else {
        e matches DirectoryRawEntry::FileDirectoryEntry(f) && file_entry_at(b, off, f)
    }
}

/// The slot at `off` of the directory sector `b`, which is sector `sector`
/// of the volume.
pub fn classify_slot(b: &[u8], off: usize, sector: u32) -> (e: DirectoryRawEntry)
    requires
        off + DIRECTORY_ENTRY_SIZE <= b@.len(),
        off <= u32::MAX,
    ensures
        raw_entry_at(b@, off as int, sector, e),
{
    if b[off] == ENTRY_FREE {
        DirectoryRawEntry::FreeEntry(sector, off as u32)
    } else if b[off] == ENTRY_UNUSED {
        DirectoryRawEntry::UnusedEntry(sector, off as u32)
    } else if b[off + 11] == ATTRIBUTE_LFN {
        DirectoryRawEntry::LongFileNameEntry(LongFileNameEntry::parse(b, off))
    } else {
        DirectoryRawEntry::FileDirectoryEntry(FileDirectoryEntry::parse(b, off))
    }
}

/// What the directory walk needs next.
#[derive(Clone, Copy)]
pub enum RawStep {
    /// The next slot of the directory.
    Entry(DirectoryRawEntry),
    /// Read this sector of the volume and hand it to `load`.
    ReadSector(u64),
    /// The cluster's sectors are done: look up the entry of this cluster in
    /// the FAT and hand the next cluster of the chain to `enter_cluster`.
    NextCluster(u32),
    /// The directory has no more slots.
    End,
}

/// A walk over the 32-byte slots of a directory, sector by sector: a
/// directory in a cluster chain, or the fixed root directory of FAT12/16
/// (`cluster` is `None`).
pub struct DirectoryRawIterator {
    fat_fs: FATFileSystem,
    buffer: Vec<u8>,
    cluster: Option<u32>,
    sector: usize,
    sector_offset: usize,
}

/// The first sector of the directory that starts at `cluster`, or of the
/// root directory.
pub open spec fn directory_start_sector(fs: FATFileSystem, cluster: Option<u32>) -> int {
    match cluster {
        Some(c) => fs.spec_cluster_to_sector(c as int),
        None => fs.root_dir_sector as int,
    }
}

/// Whether the first sector of the directory at `cluster` can be computed.
pub open spec fn directory_start_defined(fs: FATFileSystem, cluster: Option<u32>) -> bool {
    match cluster {
        Some(c) => c >= 2 && fs.sectors_per_cluster <= 0xFF && fs.spec_cluster_to_sector(c as int)
            <= u32::MAX,
        None => fs.root_dir_sector <= u32::MAX,
    }
}

impl DirectoryRawIterator {
    pub closed spec fn fs(&self) -> FATFileSystem {
        self.fat_fs
    }

    pub closed spec fn buffer(&self) -> Seq<u8> {
        self.buffer@
    }

    pub closed spec fn spec_cluster(&self) -> Option<u32> {
        self.cluster
    }

    pub closed spec fn spec_sector(&self) -> usize {
        self.sector
    }

    pub closed spec fn spec_sector_offset(&self) -> usize {
        self.sector_offset
    }

    /// The walk's sector size.
    pub open spec fn sector_size(&self) -> int {
        self.fs().bytes_per_sector as int
    }

    /// The buffer holds one sector, sectors hold whole slots, and the offset
    /// is at a slot within it or at its end.
    pub open spec fn wf(&self) -> bool {
        &&& self.buffer().len() == self.sector_size()
        &&& 0 < self.sector_size() <= u32::MAX
        &&& self.sector_size() % 32 == 0
        &&& self.spec_sector_offset() % 32 == 0
        &&& self.spec_sector_offset() <= self.sector_size()
    }

    /// The number of the volume sector the walk stands on.
    pub open spec fn volume_sector(&self) -> int {
        self.spec_sector() + directory_start_sector(self.fs(), self.spec_cluster())
    }

    /// The sector `directory_start_sector` names, which `new` wants read.
    pub fn start_sector(fat_fs: &FATFileSystem, cluster: Option<u32>) -> (sector: u64)
        requires
            directory_start_defined(*fat_fs, cluster),
        ensures
            sector == directory_start_sector(*fat_fs, cluster),
    {
        match cluster {
            Some(c) => fat_fs.cluster_to_sector(c) as u64,
            None => fat_fs.root_dir_sector,
        }
    }

    /// A walk over the directory at `cluster` (the root directory for
    /// `None`) whose first sector, read from `start_sector`, is `first_sector`.
    pub fn new(fat_fs: FATFileSystem, cluster: Option<u32>, first_sector: Vec<u8>) -> (it:
        DirectoryRawIterator)
        requires
            first_sector@.len() == fat_fs.bytes_per_sector,
            0 < fat_fs.bytes_per_sector <= u32::MAX,
            fat_fs.bytes_per_sector % 32 == 0,
        ensures
            it.wf(),
            it.fs() == fat_fs,
            it.buffer() == first_sector@,
            it.spec_cluster() == cluster,
            it.spec_sector() == 0,
            it.spec_sector_offset() == 0,
    {
        DirectoryRawIterator { fat_fs, buffer: first_sector, cluster, sector: 0, sector_offset: 0 }
    }

    /// Takes `bytes`, the sector that `next` asked for, as the current one.
    pub fn load(&mut self, bytes: Vec<u8>)
        requires
            old(self).wf(),
            bytes@.len() == old(self).sector_size(),
        ensures
            final(self).wf(),
            final(self).buffer() == bytes@,
            final(self).fs() == old(self).fs(),
            final(self).spec_cluster() == old(self).spec_cluster(),
            final(self).spec_sector() == old(self).spec_sector(),
            final(self).spec_sector_offset() == old(self).spec_sector_offset(),
    {
        self.buffer = bytes;
    }

    /// What the next `next` would have to compute a sector number from.
    pub open spec fn next_defined(&self) -> bool {
        let fs = self.fs();
        if self.spec_sector_offset() < self.sector_size() {
            let b = self.buffer()[self.spec_sector_offset() as int];
            (b == ENTRY_FREE || b == ENTRY_UNUSED) ==> directory_start_defined(
                fs,
                self.spec_cluster(),
            ) && self.volume_sector() <= u32::MAX
        } else {
            &&& self.spec_sector() < usize::MAX
            &&& match self.spec_cluster() {
                Some(c) => self.spec_sector() + 1 < fs.sectors_per_cluster ==> directory_start_defined(
                    fs,
                    self.spec_cluster(),
                ) && self.volume_sector() + 1 <= u64::MAX,
                None => {
                    &&& fs.root_dir_sectors + fs.root_dir_sector <= u64::MAX
                    &&& fs.root_dir_sector + self.spec_sector() + 1 <= u64::MAX
                },
            }
        }
    }

    /// One step of the walk.  Within the sector it yields the slot at the
    /// offset and moves past it.  At the sector's end it moves to the next
    /// sector and asks for it to be read; after the last sector of a cluster
    /// it asks for the next cluster, and after the root directory's sectors
    /// (counted up to its first sector plus its length) it ends.
    pub fn next(&mut self) -> (step: RawStep)
        requires
            old(self).wf(),
            old(self).next_defined(),
        ensures
            final(self).wf(),
            final(self).fs() == old(self).fs(),
            final(self).buffer() == old(self).buffer(),
            final(self).spec_cluster() == old(self).spec_cluster(),
            old(self).spec_sector_offset() < old(self).sector_size() ==> {
                &&& step matches RawStep::Entry(e) && raw_entry_at(
                    old(self).buffer(),
                    old(self).spec_sector_offset() as int,
                    old(self).volume_sector() as u32,
                    e,
                )
                &&& final(self).spec_sector() == old(self).spec_sector()
                &&& final(self).spec_sector_offset() == old(self).spec_sector_offset() + 32
            },
            old(self).spec_sector_offset() >= old(self).sector_size() ==> {
                let fs = old(self).fs();
                &&& final(self).spec_sector() == old(self).spec_sector() + 1
                &&& final(self).spec_sector_offset() == 0
                &&& step == match old(self).spec_cluster() {
                    Some(c) => if old(self).spec_sector() + 1 >= fs.sectors_per_cluster {
                        RawStep::NextCluster(c)
                    } else {
                        RawStep::ReadSector(final(self).volume_sector() as u64)
                    },
                    None => if old(self).spec_sector() + 1 >= fs.root_dir_sectors
                        + fs.root_dir_sector {
                        RawStep::End
                    } else {
                        RawStep::ReadSector(final(self).volume_sector() as u64)
                    },
                }
            },
    {
        let sector_size = self.fat_fs.bytes_per_sector as usize;
        if self.sector_offset >= sector_size {
            self.sector = self.sector + 1;
            self.sector_offset = 0;
            match self.cluster {
                Some(c) => {
                    if self.sector as u64 >= self.fat_fs.sectors_per_cluster {
                        return RawStep::NextCluster(c);
                    }
                    let start = self.fat_fs.cluster_to_sector(c) as u64;
                    return RawStep::ReadSector(start + self.sector as u64);
                },
                None => {
                    if self.sector as u64 >= self.fat_fs.root_dir_sectors as u64
                        + self.fat_fs.root_dir_sector as u64 {
                        return RawStep::End;
                    }
                    return RawStep::ReadSector(self.fat_fs.root_dir_sector + self.sector as u64);
                },
            }
        }
        let off = self.sector_offset;
        let first = self.buffer[off];
        let sec: u32 = if first == ENTRY_FREE || first == ENTRY_UNUSED {
            let start: u32 = match self.cluster {
                Some(c) => self.fat_fs.cluster_to_sector(c),
                None => self.fat_fs.root_dir_sector as u32,
            };
            self.sector as u32 + start
        } else {
            0
        };
        let e = classify_slot(self.buffer.as_slice(), off, sec);
        self.sector_offset = off + 32;
        proof {
            if !(first == ENTRY_FREE || first == ENTRY_UNUSED) {
                assert(raw_entry_at(
                    self.buffer@,
                    off as int,
                    old(self).volume_sector() as u32,
                    e,
                ));
            }
        }
        RawStep::Entry(e)
    }

    /// Moves to `next`, the cluster that follows in the chain, asking for its
    /// first sector; `None` (the chain ends there) ends the walk.
    pub fn enter_cluster(&mut self, next: Option<u32>) -> (step: RawStep)
        requires
            old(self).wf(),
            next matches Some(c) ==> directory_start_defined(old(self).fs(), next),
        ensures
            final(self).wf(),
            final(self).fs() == old(self).fs(),
            final(self).buffer() == old(self).buffer(),
            final(self).spec_sector_offset() == old(self).spec_sector_offset(),
            next is None ==> step == RawStep::End && final(self).spec_cluster() == old(
                self,
            ).spec_cluster() && final(self).spec_sector() == old(self).spec_sector(),
            next matches Some(c) ==> step == RawStep::ReadSector(
                old(self).fs().spec_cluster_to_sector(c as int) as u64,
            ) && final(self).spec_cluster() == next && final(self).spec_sector() == 0,
    {
        match next {
            Some(c) => {
                self.cluster = Some(c);
                self.sector = 0;
                RawStep::ReadSector(self.fat_fs.cluster_to_sector(c) as u64)
            },
            None => RawStep::End,
        }
    }
}

/// `units` without fill units.
pub open spec fn without_fill(units: Seq<u16>) -> Seq<u16> {
    units.filter(|u: u16| u != NAME_FILL)
}

/// Dropping fill units keeps UTF-16 well-formed: they are no surrogates.
proof fn lemma_without_fill_valid(units: Seq<u16>)
    requires
        valid_utf16(units),
    ensures
        valid_utf16(without_fill(units)),
    decreases units.len(),
{
    reveal(valid_utf16);
    broadcast use vstd::seq::Seq::filter_distributes_over_add;

    if units.len() == 0 {
        assert(without_fill(units) =~= Seq::<u16>::empty());
    } else if is_high_surrogate(units[0]) {
        let head = units.take(2);
        let rest = units.skip(2);
        assert(units =~= head + rest);
        lemma_without_fill_valid(rest);
        reveal_with_fuel(Seq::filter, 3);
        assert(without_fill(head) =~= head) by {
            assert(head.drop_last() =~= seq![units[0]]);
            assert(seq![units[0]].drop_last() =~= Seq::<u16>::empty());
        }
        assert(without_fill(units) =~= head + without_fill(rest));
        let w = without_fill(units);
        assert(w.skip(2) =~= without_fill(rest));
    } else {
        let head = units.take(1);
        let rest = units.skip(1);
        assert(units =~= head + rest);
        lemma_without_fill_valid(rest);
        reveal_with_fuel(Seq::filter, 2);
        assert(head.drop_last() =~= Seq::<u16>::empty());
        if units[0] == NAME_FILL {
            assert(without_fill(head) =~= Seq::<u16>::empty());
            assert(without_fill(units) =~= without_fill(rest));
        } else {
            assert(without_fill(head) =~= head);
            assert(without_fill(units) =~= head + without_fill(rest));
            let w = without_fill(units);
            assert(w.skip(1) =~= without_fill(rest));
        }
    }
}

/// The text of one piece of a long name.
pub open spec fn name_piece(units: Seq<u16>) -> Seq<char> {
    utf16_decode(without_fill(units))->Some_0
}

/// The text of a piece of a long name: its units without the fill units,
/// decoded.
pub fn lfn_piece(units: &[u16]) -> (text: String)
    requires
        valid_utf16(units@),
    ensures
        text@ == name_piece(units@),
{
    let mut kept: Vec<u16> = Vec::new();
    let mut i: usize = 0;
    while i < units.len()
        invariant
            i <= units@.len(),
            kept@ == without_fill(units@.take(i as int)),
        decreases units@.len() - i,
    {
        proof {
            reveal(Seq::filter);
            assert(units@.take(i + 1).drop_last() =~= units@.take(i as int));
            assert(units@.take(i + 1).last() == units@[i as int]);
        }
        if units[i] != NAME_FILL {
            kept.push(units[i]);
        }
        proof {
            reveal(Seq::filter);
            assert(kept@ =~= without_fill(units@.take(i + 1)));
        }
        i = i + 1;
    }
    proof {
        assert(units@.take(units@.len() as int) =~= units@);
        lemma_without_fill_valid(units@);
        lemma_utf16_decode_valid(without_fill(units@));
    }
    match string_from_utf16(kept.as_slice()) {
        Some(s) => s,
        None => {
            assert(false);
            String::new()
        },
    }
}

/// The text of a long name entry: its three pieces in order.
pub open spec fn lfn_text(e: LongFileNameEntry) -> Seq<char> {
    name_piece(e.name_0@) + name_piece(e.name_1@) + name_piece(e.name_2@)
}

/// Whether every piece of a long name entry is well-formed UTF-16.
pub open spec fn lfn_valid(e: LongFileNameEntry) -> bool {
    valid_utf16(e.name_0@) && valid_utf16(e.name_1@) && valid_utf16(e.name_2@)
}

/// The name a short entry gives: its bytes decoded and trimmed, with a dot
/// before the last three bytes when it is longer than three bytes.
pub open spec fn short_name_text(b: Seq<u8>) -> Seq<char> {
    let t = trim(decode_utf8(b));
    let n = encode_utf8(t).len();
    if n > 3 {
        insert_at_byte(t, n - 3, '.')
    } else {
        t
    }
}

/// Whether a short entry's name bytes can be turned into a name: they are
/// valid UTF-8, and the dot goes between characters.
pub open spec fn short_name_ok(b: Seq<u8>) -> bool {
    let t = trim(decode_utf8(b));
    let n = encode_utf8(t).len();
    &&& valid_utf8(b)
    &&& n > 3 ==> exists|k: int| 0 <= k <= t.len() && encode_utf8(t.take(k)).len() == n - 3
}

/// The name of a short entry whose name field is `file_name`.
pub fn short_name(file_name: &[u8; 11]) -> (name: String)
    requires
        short_name_ok(file_name@),
    ensures
        name@ == short_name_text(file_name@),
{
    let mut bytes: Vec<u8> = Vec::new();
    let mut i: usize = 0;
    while i < 11
        invariant
            i <= 11,
            file_name@.len() == 11,
            bytes@ == file_name@.take(i as int),
        decreases 11 - i,
    {
        bytes.push(file_name[i]);
        proof {
            assert(bytes@ =~= file_name@.take(i + 1));
        }
        i = i + 1;
    }
    assert(bytes@ =~= file_name@);
    let decoded = match string_from_utf8(bytes) {
        Some(s) => s,
        None => {
            assert(false);
            String::new()
        },
    };
    let mut name = trimmed(decoded.as_str());
    let n = name.as_str().as_bytes().len();
    if n > 3 {
        string_insert(&mut name, n - 3, '.');
    }
    name
}

/// A file of a directory: its name, first cluster, size and short entry.
pub struct DirectoryEntry {
    pub name: String,
    pub first_cluster: u32,
    pub size: u32,
    pub metadata: FileDirectoryEntry,
}

impl DirectoryEntry {
    /// The entry of a file named `name`, with a short entry made for it.
    pub fn new(name: String, first_cluster: u32, size: u32) -> (d: DirectoryEntry)
        requires
            name_fits_field(name@),
        ensures
            d.name@ == name@,
            d.first_cluster == first_cluster,
            d.size == size,
            d.metadata.file_name@ == short_name_field(encode_utf8(name@)),
            d.metadata.attributes == ATTRIBUTE_READ_ONLY,
            d.metadata.cluster_high == first_cluster / 0x10000,
            d.metadata.cluster_low == first_cluster % 0x10000,
            d.metadata.size == size,
    {
        let nm = name.clone();
        DirectoryEntry { name, first_cluster, size, metadata: FileDirectoryEntry::new(nm, first_cluster, size) }
    }
}

/// What one slot of a directory means for the walk over its files.
pub enum NameStep {
    /// The slot holds part of a name or nothing: go on.
    Continue,
    /// The slot completes a file.
    Emit(DirectoryEntry),
    /// The directory ends.
    End,
}

/// A walk over the files of a directory: long name entries gather a name,
/// the short entry after them completes the file.
pub struct DirectoryIterator {
    raw_iter: DirectoryRawIterator,
    name_buffer: String,
}

/// Whether `accept` can take `raw` with `name` gathered so far.
pub open spec fn accept_ok(name: Seq<char>, raw: Option<DirectoryRawEntry>) -> bool {
    match raw {
        Some(DirectoryRawEntry::LongFileNameEntry(e)) => lfn_valid(e),
        Some(DirectoryRawEntry::FileDirectoryEntry(e)) => name.len() == 0 ==> short_name_ok(
            e.file_name@,
        ),
        _ => true,
    }
}

impl DirectoryIterator {
    pub closed spec fn gathered(&self) -> Seq<char> {
        self.name_buffer@
    }

    pub closed spec fn raw(&self) -> DirectoryRawIterator {
        self.raw_iter
    }

    /// The name gathered from long name entries so far.
    pub fn gathered_name(&self) -> (n: &String)
        ensures
            n@ == self.gathered(),
    {
        &self.name_buffer
    }

    /// The walk over the directory's slots, which gives `accept` its input.
    pub fn raw_iter(&mut self) -> (r: &mut DirectoryRawIterator)
        ensures
            *r == old(self).raw(),
            final(self).raw() == *final(r),
            final(self).gathered() == old(self).gathered(),
    {
        &mut self.raw_iter
    }

    /// A walk over the files of the directory that `raw_iter` walks.
    pub fn new(raw_iter: DirectoryRawIterator) -> (it: DirectoryIterator)
        ensures
            it.raw() == raw_iter,
            it.gathered() == Seq::<char>::empty(),
    {
        DirectoryIterator { raw_iter, name_buffer: String::new() }
    }

    /// Takes the next slot of the directory (`None` when the slots ran out).
    /// A long name entry puts its text before the name gathered so far; a
    /// short entry yields a file, named by the gathered name trimmed or,
    /// without one, by its own name field, and starts a new name; a free
    /// slot or the end of the slots ends the walk; a deleted slot is passed
    /// over.
    pub fn accept(&mut self, raw: Option<DirectoryRawEntry>) -> (step: NameStep)
        requires
            accept_ok(old(self).gathered(), raw),
        ensures
            final(self).raw() == old(self).raw(),
            match raw {
                None => step is End && final(self).gathered() == old(self).gathered(),
                Some(DirectoryRawEntry::FreeEntry(_, _)) => step is End && final(self).gathered()
                    == old(self).gathered(),
                Some(DirectoryRawEntry::UnusedEntry(_, _)) => step is Continue
                    && final(self).gathered() == old(self).gathered(),
                Some(DirectoryRawEntry::LongFileNameEntry(e)) => step is Continue
                    && final(self).gathered() == lfn_text(e) + old(self).gathered(),
                Some(DirectoryRawEntry::FileDirectoryEntry(e)) => {
                    &&& step matches NameStep::Emit(d) && {
                        &&& d.name@ == if old(self).gathered().len() > 0 {
                            trim(old(self).gathered())
                        } else {
                            short_name_text(e.file_name@)
                        }
                        &&& d.first_cluster == e.cluster_high * 0x10000 + e.cluster_low
                        &&& d.size == e.size
                        &&& d.metadata == e
                    }
                    &&& final(self).gathered() == Seq::<char>::empty()
                },
            },
    {
        match raw {
            None => NameStep::End,
            Some(DirectoryRawEntry::FreeEntry(_, _)) => NameStep::End,
            Some(DirectoryRawEntry::UnusedEntry(_, _)) => NameStep::Continue,
            Some(DirectoryRawEntry::LongFileNameEntry(e)) => {
                let p0 = lfn_piece(&e.name_0);
                let p1 = lfn_piece(&e.name_1);
                let p2 = lfn_piece(&e.name_2);
                let mut old_name = String::new();
                std::mem::swap(&mut old_name, &mut self.name_buffer);
                let a = string_concat(p0, p1.as_str());
                let b = string_concat(a, p2.as_str());
                self.name_buffer = string_concat(b, old_name.as_str());
                NameStep::Continue
            },
            Some(DirectoryRawEntry::FileDirectoryEntry(e)) => {
                let name = if !self.name_buffer.as_str().is_empty() {
                    trimmed(self.name_buffer.as_str())
                } else {
                    short_name(&e.file_name)
                };
                let d = DirectoryEntry { name, first_cluster: e.cluster(), size: e.size, metadata: e };
                self.name_buffer = String::new();
                NameStep::Emit(d)
            },
        }
    }
}

/// The first cluster of an entry made by `FileDirectoryEntry::new` is the one
/// it was made with: the two halves join back to it.
pub proof fn lemma_entry_cluster_roundtrip(e: FileDirectoryEntry, first_cluster: u32)
    requires
        e.cluster_high == first_cluster / 0x10000,
        e.cluster_low == first_cluster % 0x10000,
    ensures
        e.cluster_high * 0x10000 + e.cluster_low == first_cluster,
{
}

} // verus!
