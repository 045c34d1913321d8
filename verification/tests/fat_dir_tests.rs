use kernel::fat_dir::{
    classify_slot, FileDatestamp, FileTimestamp, lfn_piece, short_name, DirectoryEntry, DirectoryIterator, DirectoryRawEntry,
    DirectoryRawIterator, FileDirectoryEntry, LongFileNameEntry, NameStep, RawStep,
};
use kernel::fat::FATFileSystem;

fn short_entry(name: &[u8; 11], attributes: u8, cluster: u32, size: u32) -> Vec<u8> {
    let mut b = Vec::new();
    b.extend_from_slice(name);
    b.push(attributes);
    b.push(0);
    b.push(69);
    b.extend_from_slice(&0x1234u16.to_le_bytes());
    b.extend_from_slice(&0x5678u16.to_le_bytes());
    b.extend_from_slice(&0x9abcu16.to_le_bytes());
    b.extend_from_slice(&((cluster >> 16) as u16).to_le_bytes());
    b.extend_from_slice(&0x1111u16.to_le_bytes());
    b.extend_from_slice(&0x2222u16.to_le_bytes());
    b.extend_from_slice(&((cluster & 0xffff) as u16).to_le_bytes());
    b.extend_from_slice(&size.to_le_bytes());
    b
}

fn lfn_entry(order: u8, units: &[u16; 13]) -> Vec<u8> {
    let mut b = Vec::new();
    b.push(order);
    for u in &units[0..5] {
        b.extend_from_slice(&u.to_le_bytes());
    }
    b.push(0x0F);
    b.push(0);
    b.push(0xAA);
    for u in &units[5..11] {
        b.extend_from_slice(&u.to_le_bytes());
    }
    b.extend_from_slice(&0u16.to_le_bytes());
    for u in &units[11..13] {
        b.extend_from_slice(&u.to_le_bytes());
    }
    b
}

fn units(name: &str) -> [u16; 13] {
    let mut u = [0xFFFFu16; 13];
    let v: Vec<u16> = name.encode_utf16().collect();
    u[..v.len()].copy_from_slice(&v);
    if v.len() < 13 {
        u[v.len()] = 0;
    }
    u
}

#[test]
fn parse_short_entry_and_cluster() {
    let b = short_entry(b"KERNEL  ELF", 0x20, 0x0003_0005, 4096);
    let e = FileDirectoryEntry::parse(&b, 0);
    assert_eq!(&e.file_name, b"KERNEL  ELF");
    assert_eq!(e.attributes, 0x20);
    assert_eq!(e.creation_time_millis, 69);
    assert_eq!(e.time_created, 0x1234);
    assert_eq!(e.date_created, 0x5678);
    assert_eq!(e.date_accessed, 0x9abc);
    assert_eq!(e.time_modified, 0x1111);
    assert_eq!(e.date_modified, 0x2222);
    assert_eq!(e.cluster(), 0x0003_0005);
    assert_eq!(e.size, 4096);
}

#[test]
fn new_short_entry_pads_and_cuts_the_name() {
    let e = FileDirectoryEntry::new(String::from("main.elf"), 0x12345, 77);
    assert_eq!(&e.file_name, b"main.elf   ");
    assert_eq!(e.attributes, 0x01);
    assert_eq!(e.creation_time_millis, 69);
    assert_eq!(e.cluster_high, 0x1);
    assert_eq!(e.cluster_low, 0x2345);
    assert_eq!(e.cluster(), 0x12345);
    assert_eq!(e.size, 77);
    let long = FileDirectoryEntry::new(String::from("averylongname.txt"), 2, 0);
    assert_eq!(&long.file_name, b"averylongna");
}

#[test]
fn directory_entry_new_makes_its_short_entry() {
    let d = DirectoryEntry::new(String::from("a.txt"), 9, 10);
    assert_eq!(d.name, "a.txt");
    assert_eq!(d.first_cluster, 9);
    assert_eq!(d.size, 10);
    assert_eq!(&d.metadata.file_name, b"a.txt      ");
    assert_eq!(d.metadata.cluster(), 9);
}

#[test]
fn long_name_entry_new_pads_with_fill() {
    let e = LongFileNameEntry::new(&[0x61, 0x62], 0x41, 0x5c);
    assert_eq!(e.order, 0x41);
    assert_eq!(e.checksum, 0x5c);
    assert_eq!(e.attributes, 0x0F);
    assert_eq!(e.name_0, [0x61, 0x62, 0xFFFF, 0xFFFF, 0xFFFF]);
    assert_eq!(e.name_1, [0xFFFF; 6]);
    assert_eq!(e.name_2, [0xFFFF; 2]);
}

#[test]
fn parse_long_name_entry() {
    let b = lfn_entry(0x41, &units("hello.txt"));
    let e = LongFileNameEntry::parse(&b, 0);
    assert_eq!(e.order, 0x41);
    assert_eq!(e.attributes, 0x0F);
    assert_eq!(e.checksum, 0xAA);
    assert_eq!(e.name_0, [0x68, 0x65, 0x6c, 0x6c, 0x6f]);
    assert_eq!(e.name_1, [0x2e, 0x74, 0x78, 0x74, 0, 0xFFFF]);
    assert_eq!(e.name_2, [0xFFFF, 0xFFFF]);
}

#[test]
fn classify_slots() {
    let mut sector = vec![0u8; 128];
    sector[0..32].copy_from_slice(&short_entry(b"A       TXT", 0, 3, 1));
    sector[32] = 0xE5;
    sector[64..96].copy_from_slice(&lfn_entry(0x41, &units("x")));
    assert!(matches!(classify_slot(&sector, 0, 100), DirectoryRawEntry::FileDirectoryEntry(_)));
    assert!(matches!(classify_slot(&sector, 32, 100), DirectoryRawEntry::UnusedEntry(100, 32)));
    assert!(matches!(classify_slot(&sector, 64, 100), DirectoryRawEntry::LongFileNameEntry(_)));
    assert!(matches!(classify_slot(&sector, 96, 100), DirectoryRawEntry::FreeEntry(100, 96)));
}

#[test]
fn short_names() {
    assert_eq!(short_name(b"KERNEL  ELF"), "KERNEL  .ELF");
    assert_eq!(short_name(b"README     "), "REA.DME");
    assert_eq!(short_name(b"AB         "), "AB");
    assert_eq!(short_name(b"  ABCD     "), "A.BCD");
}

#[test]
fn long_name_pieces_drop_fill_units() {
    assert_eq!(lfn_piece(&[0x61, 0x62, 0xFFFF, 0xFFFF]), "ab");
    assert_eq!(lfn_piece(&[0x61, 0x00, 0xFFFF]), "a\0");
    assert_eq!(lfn_piece(&[0xD83D, 0xDE00]), "\u{1F600}");
}

fn fs(bytes_per_sector: u64, root_dir_sector: u64, root_dir_sectors: u64) -> FATFileSystem {
    let mut boot = vec![0u8; 512];
    boot[11..13].copy_from_slice(&(bytes_per_sector as u16).to_le_bytes());
    boot[13] = 1;
    boot[14..16].copy_from_slice(&1u16.to_le_bytes());
    boot[16] = 2;
    boot[17..19].copy_from_slice(&((root_dir_sectors * bytes_per_sector / 32) as u16).to_le_bytes());
    boot[19..21].copy_from_slice(&2880u16.to_le_bytes());
    boot[22..24].copy_from_slice(&(((root_dir_sector - 1) / 2) as u16).to_le_bytes());
    boot[54..59].copy_from_slice(b"FAT12");
    FATFileSystem::new(&boot).unwrap()
}

#[test]
fn raw_walk_over_the_root_directory() {
    let f = fs(64, 19, 2);
    assert_eq!(f.root_dir_sector, 19);
    assert_eq!(f.root_dir_sectors, 2);
    assert_eq!(DirectoryRawIterator::start_sector(&f, None), 19);
    let mut first = vec![0u8; 64];
    first[0..32].copy_from_slice(&short_entry(b"A       TXT", 0, 3, 1));
    first[32] = 0xE5;
    let mut it = DirectoryRawIterator::new(f, None, first);
    assert!(matches!(it.next(), RawStep::Entry(DirectoryRawEntry::FileDirectoryEntry(_))));
    assert!(matches!(it.next(), RawStep::Entry(DirectoryRawEntry::UnusedEntry(19, 32))));
    // the sector is done: the next one is asked for
    assert!(matches!(it.next(), RawStep::ReadSector(20)));
    it.load(vec![0u8; 64]);
    assert!(matches!(it.next(), RawStep::Entry(DirectoryRawEntry::FreeEntry(20, 0))));
}

#[test]
fn raw_walk_over_a_cluster_chain() {
    let f = fs(64, 19, 2);
    let first_data = f.first_data_sector;
    let mut it = DirectoryRawIterator::new(f, Some(5), vec![0x41u8; 64]);
    it.next();
    it.next();
    // one sector per cluster: the next cluster is asked for
    assert!(matches!(it.next(), RawStep::NextCluster(5)));
    match it.enter_cluster(Some(9)) {
        RawStep::ReadSector(s) => assert_eq!(s, (9 - 2) + first_data),
        _ => panic!("a sector read was expected"),
    }
    it.load(vec![0u8; 64]);
    assert!(matches!(
        it.next(),
        RawStep::Entry(DirectoryRawEntry::FreeEntry(s, 0)) if s as u64 == 7 + first_data
    ));
    let mut done = DirectoryRawIterator::new(f, Some(5), vec![0x41u8; 64]);
    assert!(matches!(done.enter_cluster(None), RawStep::End));
}

#[test]
fn names_gather_over_long_name_entries() {
    let f = fs(64, 19, 2);
    let raw = DirectoryRawIterator::new(f, None, vec![0u8; 64]);
    let mut it = DirectoryIterator::new(raw);
    let part2 = LongFileNameEntry::parse(&lfn_entry(0x42, &units("ongname.txt")), 0);
    let part1 = LongFileNameEntry::parse(&lfn_entry(0x01, &units("a very l")), 0);
    // long name entries come last part first
    assert!(matches!(it.accept(Some(DirectoryRawEntry::LongFileNameEntry(part2))), NameStep::Continue));
    assert!(matches!(it.accept(Some(DirectoryRawEntry::UnusedEntry(0, 0))), NameStep::Continue));
    assert!(matches!(it.accept(Some(DirectoryRawEntry::LongFileNameEntry(part1))), NameStep::Continue));
    let sfn = FileDirectoryEntry::parse(&short_entry(b"AVERYL~1TXT", 0, 0x10, 99), 0);
    match it.accept(Some(DirectoryRawEntry::FileDirectoryEntry(sfn))) {
        NameStep::Emit(d) => {
            assert_eq!(d.name, "a very l\0ongname.txt\0");
            assert_eq!(d.first_cluster, 0x10);
            assert_eq!(d.size, 99);
        }
        _ => panic!("a file was expected"),
    }
    // the name is used up: a short entry alone is named by its field
    let plain = FileDirectoryEntry::parse(&short_entry(b"NOTES   MD ", 0, 4, 1), 0);
    match it.accept(Some(DirectoryRawEntry::FileDirectoryEntry(plain))) {
        NameStep::Emit(d) => assert_eq!(d.name, "NOTES  . MD"),
        _ => panic!("a file was expected"),
    }
    assert!(matches!(it.accept(Some(DirectoryRawEntry::FreeEntry(0, 0))), NameStep::End));
    assert!(matches!(it.accept(None), NameStep::End));
}

#[test]
fn datestamp_decodes_and_prints() {
    let d = FileDatestamp::from_bits((43 << 9) | (5 << 5) | 7);
    assert_eq!(d, FileDatestamp { day: 7, month: 5, year: 43 });
    assert_eq!(d.to_string(), "2023-05-07");
    assert_eq!(FileDatestamp::from_bits(0).to_string(), "1980-00-00");
    assert_eq!(FileDatestamp::from_bits(0xFFFF).to_string(), "2107-15-31");
}

#[test]
fn timestamp_decodes_and_prints_with_hour_shift() {
    let t = FileTimestamp::from_bits((12 << 11) | (5 << 5) | 15);
    assert_eq!(t, FileTimestamp { second: 15, minute: 5, hour: 12 });
    assert_eq!(t.to_string(), "14:05:30");
    assert_eq!(FileTimestamp::from_bits(0).to_string(), "02:00:00");
    assert_eq!(FileTimestamp::from_bits(0xFFFF).to_string(), "33:63:62");
}

#[test]
fn lfn_piece_decodes_surrogate_pairs() {
    // U+1F600 is the pair D83D DE00
    assert_eq!(lfn_piece(&[0x61, 0xD83D, 0xDE00, 0xFFFF]), "a\u{1F600}");
}
