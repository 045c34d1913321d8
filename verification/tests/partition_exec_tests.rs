use kernel::devices::Device;
use kernel::error::Error;
use kernel::exec::{ELFLoader, ExecutableLoader, Section, SectionType};
use kernel::partition::{read_drive_partitions, GPTPartitionTable, MBRPartitionTable, PartitionTable, PartitionType, GUID};
use kernel::task::{PageLoad, SegmentSelectors, Task, TaskContext};

fn drive() -> Vec<String> {
    vec![String::from("Devices"), String::from("Storage"), String::from("Drive0")]
}

fn mbr_entry(system_id: u8, start: u32, count: u32) -> Vec<u8> {
    let mut e = vec![0u8; 16];
    e[4] = system_id;
    e[8..12].copy_from_slice(&start.to_le_bytes());
    e[12..16].copy_from_slice(&count.to_le_bytes());
    e
}

#[test]
fn mbr_partitions_of_used_entries() {
    let mut table = Vec::new();
    table.extend(mbr_entry(0x0C, 2048, 1000));
    table.extend(mbr_entry(0, 0, 0));
    table.extend(mbr_entry(0x83, 5000, 10));
    table.extend(mbr_entry(0, 0, 0));
    let parts = MBRPartitionTable::read_table(&drive(), &table);
    assert_eq!(parts.len(), 2);
    assert_eq!(parts[0].name(), "Partition0");
    assert_eq!(parts[0].label(), "Partition0");
    assert_eq!((parts[0].start_sector(), parts[0].end_sector()), (2048, 3047));
    assert_eq!(parts[0].partition_type(), PartitionType::DataPartition);
    assert_eq!(parts[1].name(), "Partition2");
    assert_eq!((parts[1].start_sector(), parts[1].end_sector()), (5000, 5009));
    assert_eq!(
        parts[1].device_path(),
        vec![String::from("Storage"), String::from("Drive0"), String::from("Partition2")]
    );
}

#[test]
fn partition_positions_and_seek() {
    let mut table = mbr_entry(0x0C, 2048, 1000);
    table.extend(vec![0u8; 48]);
    let mut parts = MBRPartitionTable::read_table(&drive(), &table);
    let p = &mut parts[0];
    assert_eq!(p.offset(), 0);
    assert_eq!(p.size(), 999);
    assert_eq!(p.drive_block(5), 2053);
    assert!(p.seek(10).is_ok());
    assert_eq!(p.offset(), 10);
    assert_eq!(p.read_position(), (2048 + 10) * 512);
    assert_eq!(p.write_position(), 2058);
    assert!(matches!(p.seek(3047), Err(Error::InvalidSeek)));
    assert_eq!(p.offset(), 10);
}

fn guid_bytes(text_order: [u8; 16]) -> [u8; 16] {
    text_order
}

const EFI_SYSTEM: [u8; 16] = [
    0x28, 0x73, 0x2A, 0xC1, 0x1F, 0xF8, 0xD2, 0x11, 0xBA, 0x4B, 0x00, 0xA0, 0xC9, 0x3E, 0xC9, 0x3B,
];
const BASIC_DATA: [u8; 16] = [
    0xA2, 0xA0, 0xD0, 0xEB, 0xE5, 0xB9, 0x33, 0x44, 0x87, 0xC0, 0x68, 0xB6, 0xB7, 0x26, 0x99, 0xC7,
];

fn gpt_entry(ty: [u8; 16], unique: [u8; 16], first: u64, last: u64, name: &str) -> Vec<u8> {
    let mut e = Vec::new();
    e.extend_from_slice(&ty);
    e.extend_from_slice(&unique);
    e.extend_from_slice(&first.to_le_bytes());
    e.extend_from_slice(&last.to_le_bytes());
    e.extend_from_slice(&0u64.to_le_bytes());
    for u in name.encode_utf16() {
        e.extend_from_slice(&u.to_le_bytes());
    }
    e.resize(128, 0);
    e
}

#[test]
fn guid_text() {
    let g = GUID::from_bytes(&EFI_SYSTEM, 0);
    assert_eq!(g.to_string(), "C12A7328-F81F-11D2-BA4B-00A0C93EC93B");
    assert!(!g.is_zero());
    assert!(GUID::from_bytes(&[0u8; 16], 0).is_zero());
    assert_eq!(guid_bytes(g.bytes), EFI_SYSTEM);
}

#[test]
fn gpt_partitions() {
    let mut header = vec![0u8; 0x5C];
    header[0..8].copy_from_slice(b"EFI PART");
    header[0x50..0x54].copy_from_slice(&3u32.to_le_bytes());
    header[0x54..0x58].copy_from_slice(&128u32.to_le_bytes());
    assert_eq!(GPTPartitionTable::table_size(&header), 384);
    let unique = [0x11u8; 16];
    let mut entries = Vec::new();
    entries.extend(gpt_entry(EFI_SYSTEM, unique, 2048, 4095, "EFI"));
    entries.extend(vec![0u8; 128]);
    entries.extend(gpt_entry(BASIC_DATA, [0x22u8; 16], 4096, 8191, "data"));
    let parts = GPTPartitionTable::read_entries(&drive(), &header, &entries).unwrap();
    assert_eq!(parts.len(), 2);
    assert_eq!(parts[0].name(), "11111111-1111-1111-1111-111111111111");
    assert_eq!(parts[0].label(), "EFI");
    assert_eq!(parts[0].partition_type(), PartitionType::EFISystemPartition);
    assert_eq!((parts[0].start_sector(), parts[0].end_sector()), (2048, 4095));
    assert_eq!(parts[1].name(), "22222222-2222-2222-2222-222222222222");
    assert_eq!(parts[1].label(), "data");
    assert_eq!(parts[1].partition_type(), PartitionType::DataPartition);
}

#[test]
fn gpt_without_signature_is_none() {
    let header = vec![0u8; 0x5C];
    assert!(GPTPartitionTable::read_entries(&drive(), &header, &[]).is_none());
}

fn elf_header(magic_ok: bool, class: u8, entry: u64, phoff: u64, phnum: u16) -> Vec<u8> {
    let mut h = vec![0u8; 64];
    if magic_ok {
        h[0..4].copy_from_slice(&[0x7F, b'E', b'L', b'F']);
    }
    h[4] = class;
    h[24..32].copy_from_slice(&entry.to_le_bytes());
    h[32..40].copy_from_slice(&phoff.to_le_bytes());
    h[54..56].copy_from_slice(&56u16.to_le_bytes());
    h[56..58].copy_from_slice(&phnum.to_le_bytes());
    h
}

fn program_header(ty: u32, offset: u64, vaddr: u64, filesz: u64, memsz: u64) -> Vec<u8> {
    let mut p = vec![0u8; 56];
    p[0..4].copy_from_slice(&ty.to_le_bytes());
    p[8..16].copy_from_slice(&offset.to_le_bytes());
    p[16..24].copy_from_slice(&vaddr.to_le_bytes());
    p[32..40].copy_from_slice(&filesz.to_le_bytes());
    p[40..48].copy_from_slice(&memsz.to_le_bytes());
    p
}

#[test]
fn elf_loading() {
    let header = elf_header(true, 2, 0x40_1000, 64, 2);
    assert_eq!(ELFLoader::program_header_table(&header), (64, 112));
    let mut phs = program_header(1, 0x1000, 0x40_0000, 0x1800, 0x2500);
    phs.extend(program_header(2, 0x3000, 0x60_0000, 0x10, 0x10));
    let info = ExecutableLoader::load_executable(3, &header, &phs).ok().unwrap();
    assert_eq!(info.file_handle, 3);
    assert_eq!(info.virt_entry_point, 0x40_1000);
    assert_eq!(
        info.sections,
        vec![Section {
            section_type: SectionType::Load,
            file_offset: 0x1000,
            size_in_file: 0x1800,
            virt_address: 0x40_0000,
            size_in_memory: 0x2500,
        }]
    );
}

#[test]
fn elf_refused() {
    let bad_magic = elf_header(false, 2, 0, 64, 0);
    assert!(matches!(ExecutableLoader::load_executable(1, &bad_magic, &[]), Err(Error::InvalidExecutable)));
    let class32 = elf_header(true, 1, 0, 64, 0);
    assert!(matches!(ExecutableLoader::load_executable(1, &class32, &[]), Err(Error::InvalidExecutable)));
}

fn selectors() -> SegmentSelectors {
    SegmentSelectors { user_cs: 0x23, user_ss: 0x1b, kernel_cs: 0x08, kernel_ss: 0x10 }
}

#[test]
fn task_contexts() {
    let c = TaskContext::new(0x40_1000, 0x6000_8000, selectors());
    assert_eq!((c.rip, c.rsp, c.cs, c.ss, c.rflags), (0x40_1000, 0x6000_8000, 0x23, 0x1b, 0x200));
    assert_eq!((c.rax, c.rbx, c.r15), (0, 0, 0));
    let k = TaskContext::knew(0x1000, 0x2000, selectors());
    assert_eq!((k.cs, k.ss), (0x08, 0x10));
    let t = Task::new(1, 2, 0x5000, false, selectors());
    assert_eq!(t.state, TaskContext::knew(1, 2, selectors()));
    assert!(!t.zombie);
    assert_eq!(t.cr3_value(), 0x5018);
}

#[test]
fn task_page_loads() {
    let s = Section {
        section_type: SectionType::Load,
        file_offset: 0x1000,
        size_in_file: 0x1800,
        virt_address: 0x40_0000,
        size_in_memory: 0x2500,
    };
    // three pages, but the loop steps a page at a time over the page count
    assert_eq!(Task::section_load_plan(&s), vec![PageLoad { virt_address: 0x40_0000, bytes_to_read: 0x1000 }]);
    let pages = Task::stack_pages();
    assert_eq!(pages.len(), 8);
    assert_eq!(pages[0], 0x6000_0000);
    assert_eq!(pages[7], 0x6000_7000);
}

#[test]
fn task_for_executable() {
    let header = elf_header(true, 2, 0x40_1000, 64, 1);
    let phs = program_header(1, 0x1000, 0x40_0000, 0x10, 0x10);
    let info = ExecutableLoader::load_executable(3, &header, &phs).ok().unwrap();
    let (plans, verdict) = Task::load_plan(&info);
    assert_eq!(verdict, Ok(()));
    assert_eq!(plans.len(), 1);
    assert_eq!(plans[0], vec![PageLoad { virt_address: 0x40_0000, bytes_to_read: 0x10 }]);
    let t = Task::for_executable(&info, 0x9000, selectors());
    assert_eq!(t.state.rip, 0x40_1000);
    assert_eq!(t.state.rsp, 0x6000_8000);
    assert_eq!(t.state.cs, 0x23);
    assert_eq!(t.page_table, 0x9000);
}

#[test]
fn elf_loader_reads_loadable_headers_in_order() {
    let header = elf_header(true, 2, 0x1234, 64, 3);
    let mut phs = program_header(1, 0x10, 0x1000, 1, 2);
    phs.extend(program_header(6, 0x20, 0x2000, 3, 4));
    phs.extend(program_header(1, 0x30, 0x3000, 5, 6));
    let info = ELFLoader::load_executable(9, &header, &phs).ok().unwrap();
    assert_eq!(info.file_handle, 9);
    assert_eq!(info.virt_entry_point, 0x1234);
    let addrs: Vec<usize> = info.sections.iter().map(|s| s.virt_address).collect();
    assert_eq!(addrs, vec![0x1000, 0x3000]);
    assert!(matches!(ELFLoader::load_executable(9, &elf_header(false, 2, 0, 64, 0), &[]), Err(Error::InvalidExecutable)));
}

fn gpt_disk(count: u32, entries: &[u8]) -> Vec<u8> {
    let mut disk = vec![0u8; 1024];
    disk[512..520].copy_from_slice(b"EFI PART");
    disk[512 + 0x50..512 + 0x54].copy_from_slice(&count.to_le_bytes());
    disk[512 + 0x54..512 + 0x58].copy_from_slice(&128u32.to_le_bytes());
    disk.extend_from_slice(entries);
    disk
}

#[test]
fn gpt_read_from_the_first_blocks() {
    let mut entries = Vec::new();
    entries.extend(gpt_entry(EFI_SYSTEM, [0x11u8; 16], 2048, 4095, "EFI"));
    entries.extend(vec![0u8; 128]);
    entries.extend(gpt_entry(BASIC_DATA, [0x22u8; 16], 4096, 8191, "data"));
    entries.extend(vec![0u8; 128]);
    let disk = gpt_disk(4, &entries);
    let parts = <GPTPartitionTable as PartitionTable>::read_partitions(&drive(), &disk).unwrap();
    assert_eq!(parts.len(), 2);
    assert_eq!(parts[0].label(), "EFI");
    assert_eq!(parts[1].label(), "data");
    assert_eq!(parts[1].start_sector(), 4096);
}

#[test]
fn gpt_partial_last_block_is_not_read() {
    let mut entries = Vec::new();
    entries.extend(gpt_entry(EFI_SYSTEM, [0x11u8; 16], 2048, 4095, "EFI"));
    entries.extend(vec![0u8; 256]);
    let disk = gpt_disk(3, &entries);
    let parts = <GPTPartitionTable as PartitionTable>::read_partitions(&drive(), &disk).unwrap();
    assert!(parts.is_empty());
}

#[test]
fn mbr_read_from_the_first_block() {
    let mut disk = vec![0u8; 512];
    disk[0x1BE..0x1CE].copy_from_slice(&mbr_entry(0x0C, 63, 100));
    let parts = <MBRPartitionTable as PartitionTable>::read_partitions(&drive(), &disk).unwrap();
    assert_eq!(parts.len(), 1);
    assert_eq!((parts[0].start_sector(), parts[0].end_sector()), (63, 162));
}

#[test]
fn drive_partitions_prefer_gpt_then_mbr() {
    let mut entries = gpt_entry(BASIC_DATA, [0x33u8; 16], 10, 20, "only");
    entries.extend(vec![0u8; 384]);
    let mut disk = gpt_disk(4, &entries);
    disk[0x1BE..0x1CE].copy_from_slice(&mbr_entry(0xEE, 1, 100));
    let parts = read_drive_partitions(&drive(), &disk);
    assert_eq!(parts.len(), 1);
    assert_eq!(parts[0].label(), "only");
    let mut mbr_disk = vec![0u8; 1024];
    mbr_disk[0x1BE..0x1CE].copy_from_slice(&mbr_entry(0x83, 2048, 8));
    let parts = read_drive_partitions(&drive(), &mbr_disk);
    assert_eq!(parts.len(), 1);
    assert_eq!(parts[0].name(), "Partition0");
    assert_eq!(parts[0].start_sector(), 2048);
}

#[test]
fn task_load_plan_stops_at_a_section_that_is_not_loadable() {
    let load = Section {
        section_type: SectionType::Load,
        file_offset: 0,
        size_in_file: 0x10,
        virt_address: 0x40_0000,
        size_in_memory: 0x10,
    };
    let dynamic = Section { section_type: SectionType::Dynamic, ..load };
    let info = kernel::exec::ExecutableInfo { file_handle: 1, virt_entry_point: 0, sections: vec![load, dynamic, load] };
    let (plans, verdict) = Task::load_plan(&info);
    assert_eq!(verdict, Err(Error::InvalidExecutable));
    assert_eq!(plans, vec![vec![PageLoad { virt_address: 0x40_0000, bytes_to_read: 0x10 }]]);
}
