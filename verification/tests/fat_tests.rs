use kernel::fat::{
    sector_offset, BiosParameterBlock, ClusterAllocator, ClusterAllocatorMode, FATEntry,
    FATFileSystem, FATIterator, FATSectorIterator, FATType, ScanStep,
};

fn floppy_boot_sector() -> Vec<u8> {
    let mut b = vec![0u8; 512];
    b[11..13].copy_from_slice(&512u16.to_le_bytes());
    b[13] = 1;
    b[14..16].copy_from_slice(&1u16.to_le_bytes());
    b[16] = 2;
    b[17..19].copy_from_slice(&224u16.to_le_bytes());
    b[19..21].copy_from_slice(&2880u16.to_le_bytes());
    b[22..24].copy_from_slice(&9u16.to_le_bytes());
    b[54..59].copy_from_slice(b"FAT12");
    b
}

fn fat16_boot_sector() -> Vec<u8> {
    let mut b = vec![0u8; 512];
    b[11..13].copy_from_slice(&512u16.to_le_bytes());
    b[13] = 1;
    b[14..16].copy_from_slice(&1u16.to_le_bytes());
    b[16] = 2;
    b[17..19].copy_from_slice(&512u16.to_le_bytes());
    b[19..21].copy_from_slice(&20000u16.to_le_bytes());
    b[22..24].copy_from_slice(&40u16.to_le_bytes());
    b[54..59].copy_from_slice(b"FAT16");
    b
}

#[test]
fn mount_floppy_geometry() {
    let boot = floppy_boot_sector();
    let bpb = BiosParameterBlock::parse(&boot);
    assert!(bpb.is_mountable());
    let fs = FATFileSystem::new(&boot).unwrap();
    assert_eq!(fs.fat_type, FATType::FAT12);
    assert_eq!(fs.total_sectors, 2880);
    assert_eq!(fs.fat_size, 9);
    assert_eq!(fs.root_dir_sectors, 14);
    assert_eq!(fs.first_data_sector, 33);
    assert_eq!(fs.first_fat_sector, 1);
    assert_eq!(fs.data_sectors, 2847);
    assert_eq!(fs.total_clusters, 2847);
    assert_eq!(fs.root_dir_sector, 19);
    assert_eq!(fs.cluster_to_sector(2), 33);
    assert_eq!(fs.cluster_to_sector(10), 41);
}

#[test]
fn mount_refuses_a_wrong_label() {
    let mut boot = floppy_boot_sector();
    boot[54..59].copy_from_slice(b"FAT16");
    assert!(FATFileSystem::new(&boot).is_none());
    let mut zero_cluster = floppy_boot_sector();
    zero_cluster[13] = 0;
    assert!(!BiosParameterBlock::parse(&zero_cluster).is_mountable());
}

#[test]
fn fat_entry_locations() {
    assert_eq!(sector_offset(FATType::FAT12, 1, 512, 2), (1, 3));
    assert_eq!(sector_offset(FATType::FAT12, 1, 512, 400), (2, 88));
    assert_eq!(sector_offset(FATType::FAT16, 1, 512, 300), (2, 88));
    assert_eq!(sector_offset(FATType::FAT32, 32, 512, 200), (33, 288));
}

fn fat12_sector_with_chain() -> Vec<u8> {
    // cluster 2 -> 3 -> end of chain
    let mut s = vec![0u8; 512];
    s[3] = 0x03;
    s[4] = 0xF0;
    s[5] = 0xFF;
    s
}

#[test]
fn cluster_chain_walk() {
    let fs = FATFileSystem::new(&floppy_boot_sector()).unwrap();
    let mut it = FATIterator::new(fs, 2, 512, fat12_sector_with_chain());
    assert!(it.cluster_ok(2));
    assert!(!it.cluster_ok(0xFF8));
    assert_eq!(it.cluster_index_to_sector_offset(3), (1, 4));
    assert_eq!(it.next(), (Some(FATEntry::Cluster(2)), None));
    assert_eq!(it.cluster, 3);
    // the end-of-chain value's entry would lie in FAT sector 12
    assert_eq!(it.next(), (Some(FATEntry::Cluster(3)), Some(12)));
    assert_eq!(it.cluster, 0xFFF);
    assert_eq!(it.next(), (Some(FATEntry::EndOfChain), None));
    assert_eq!(it.next(), (None, None));
}

#[test]
fn cluster_walk_reports_free_clusters() {
    let fs = FATFileSystem::new(&floppy_boot_sector()).unwrap();
    let mut it = FATIterator::new(fs, 0, 512, vec![0u8; 512]);
    assert_eq!(it.next(), (Some(FATEntry::Free(0)), None));
    assert_eq!(it.next(), (None, None));
}

#[test]
fn cluster_walk_names_the_next_fat_sector() {
    let fs = FATFileSystem::new(&floppy_boot_sector()).unwrap();
    // cluster 2 -> 400, whose entry lies in the next FAT sector
    let mut s = vec![0u8; 512];
    s[3] = 0x90;
    s[4] = 0x01;
    let mut it = FATIterator::new(fs, 2, 512, s);
    assert_eq!(it.next(), (Some(FATEntry::Cluster(2)), Some(2)));
    it.load_sector(vec![0u8; 512]);
    assert_eq!(it.cluster, 400);
}

#[test]
fn sector_walk_over_the_chain() {
    let fs = FATFileSystem::new(&floppy_boot_sector()).unwrap();
    let it = FATIterator::new(fs, 2, 512, fat12_sector_with_chain());
    let mut secs = FATSectorIterator::new(it);
    assert_eq!(secs.current_sector(), 33);
    assert_eq!(secs.next(), (Some(34), None));
    assert_eq!(secs.current_sector(), 34);
    assert_eq!(secs.sector_index_from_start, 1);
    // the walk steps onto the end-of-chain value as a cluster
    assert_eq!(secs.next(), (Some(4126), Some(12)));
    assert_eq!(secs.next(), (None, None));
}

#[test]
fn cluster_allocator_finds_and_links_free_clusters() {
    let fs = FATFileSystem::new(&fat16_boot_sector()).unwrap();
    assert_eq!(fs.fat_type, FATType::FAT16);
    let mut sector = vec![0u8; 512];
    for c in 2..5usize {
        sector[2 * c] = 0xFF;
        sector[2 * c + 1] = 0xFF;
    }
    let mut a = ClusterAllocator::new(fs, 2, ClusterAllocatorMode::Allocate, 512, sector);
    assert_eq!(a.cluster_index_to_sector_offset(5), (1, 10));
    assert_eq!(a.find_free_cluster(), ScanStep::Found(5));
    assert_eq!(a.link_sector(), 1);
    assert_eq!(a.link_cluster(5), Some(1));
    assert_eq!(a.prev_free_cluster, 5);
    assert_eq!(&a.fat_sector_bytes()[4..6], &[5, 0]);
}

#[test]
fn cluster_allocator_asks_for_the_next_sector() {
    let fs = FATFileSystem::new(&fat16_boot_sector()).unwrap();
    let mut full = vec![0xFFu8; 512];
    full[0] = 0;
    let mut a = ClusterAllocator::new(fs, 250, ClusterAllocatorMode::CheckFree, 512, full);
    // clusters 251 to 255 are in use; 256 is in FAT sector 2
    assert_eq!(a.find_free_cluster(), ScanStep::ReadSector(2));
    a.load_fat_sector(2, vec![0u8; 512]);
    assert_eq!(a.find_free_cluster(), ScanStep::Found(256));
}
