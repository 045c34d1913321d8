use kernel::devices::Device;
use kernel::acpi::{madt_lapic, ACPITable, ACPITableSignature, MCFGHeader, RSDPHeader};
use kernel::ahci::{
    command_list_running, command_table_address, completion_step, diskio_command, get_port_type,
    probe_ports, start_commands_status, stop_commands_status, stop_pending, wait_step, AHCIError,
    AHCIDrive, DiskIO, HBAPort, PortType, PortWait,
};
use kernel::apic::{
    apic_base_enable, redirection_entry_from, APICPolarity, APICTriggerMode, DeliveryMode, DestinationMode, Polarity, TriggerMode, redirection_entry, redirection_index, redirection_writes, version_info,
    APICRegisters, InterruptSourceOverride, IOAPIC,
};
use kernel::nvme::{NVMEQueue, OPCODE_IDENTIFY};
use kernel::pci::{storage_controller, storage_drivers, MCFGTable, PCIDeviceConfiguration, StorageController};
use kernel::pci_id::{get_class_name, get_subclass_name, get_vendor_name};
use kernel::pic::{deinit, end_of_interrupt, init, irq_mask_port, mask, pic_end_of_interrupt, unmask};
use kernel::port::PortWrite;
use kernel::qemu_exit::QemuExit;

fn w(port: u16, value: u8) -> PortWrite {
    PortWrite::new(port, value)
}

#[test]
fn pic_init_sequence() {
    let (pic, pit) = init(0xb8, 0x8e);
    let wait = w(0x11, 0);
    assert_eq!(
        pic,
        vec![
            w(0x20, 0x11), wait, w(0xA0, 0x11), wait,
            w(0x21, 0x20), wait, w(0xA1, 0x28), wait,
            w(0x21, 4), wait, w(0xA1, 2), wait,
            w(0x21, 1), wait, w(0xA1, 1), wait,
            w(0x21, 0xb8), w(0xA1, 0x8e),
        ]
    );
    // 1193180 / 100 = 11931 = 0x2E9B
    assert_eq!(pit, vec![w(0x43, 0x36), w(0x40, 0x9B), w(0x40, 0x2E)]);
}

#[test]
fn pic_mask_and_unmask_lines() {
    assert_eq!(irq_mask_port(1), 0x21);
    assert_eq!(irq_mask_port(12), 0xA1);
    assert_eq!(mask(1, 0b0000_0000), w(0x21, 0b0000_0010));
    assert_eq!(mask(12, 0b0000_0001), w(0xA1, 0b0001_0001));
    assert_eq!(unmask(1, 0xff), w(0x21, 0b1111_1101));
    assert_eq!(unmask(8, 0xff), w(0xA1, 0b1111_1110));
}

#[test]
fn pic_mask_then_unmask_law_example() {
    let current = 0b1010_0101u8;
    let masked = mask(3, current);
    let unmasked = unmask(3, masked.value);
    assert_eq!(unmasked.value, current & !(1 << 3));
    assert_eq!(unmask(3, current).value, unmasked.value);
}

#[test]
fn pic_deinit_masks_everything() {
    assert_eq!(deinit(), vec![w(0xa1, 0xff), w(0x21, 0xff)]);
}

#[test]
fn pic_end_of_interrupt_from_master_and_slave() {
    assert_eq!(end_of_interrupt(0x20), vec![w(0x20, 0x20)]);
    assert_eq!(end_of_interrupt(0x27), vec![w(0x20, 0x20)]);
    assert_eq!(end_of_interrupt(0x28), vec![w(0xA0, 0x20), w(0x20, 0x20)]);
    assert_eq!(end_of_interrupt(0x2F), vec![w(0xA0, 0x20), w(0x20, 0x20)]);
    assert_eq!(end_of_interrupt(0x30), vec![w(0x20, 0x20)]);
    assert_eq!(pic_end_of_interrupt(0x2C), vec![w(0xA0, 0x20), w(0x20, 0x20)]);
}

#[test]
fn qemu_exit_codes() {
    let q = QemuExit::new();
    assert_eq!(q.shutdown(), w(0xf4, 0x10));
    assert_eq!(q.reboot(), w(0xf4, 0x11));
    assert_eq!(q.device_name(), "Power/QemuExit");
}

#[test]
fn pci_names() {
    assert_eq!(get_class_name(0x01), "Mass storage controller");
    assert_eq!(get_class_name(0x40), "Coprocessor");
    assert_eq!(get_class_name(0x14), "Unknown");
    assert_eq!(get_subclass_name(0x01, 0x06), "SATA controller");
    assert_eq!(get_subclass_name(0x01, 0x08), "Non-volatile memory controller");
    assert_eq!(get_subclass_name(0x0B, 0x03), "");
    assert_eq!(get_subclass_name(0x01, 0x09), "Unknown");
    assert_eq!(get_subclass_name(0x13, 0x00), "Unknown");
    assert_eq!(get_subclass_name(0x20, 0x00), "Unknown");
    assert_eq!(get_vendor_name(0x8086), "Intel");
    assert_eq!(get_vendor_name(0x1234), "QEMU");
    assert_eq!(get_vendor_name(0x10de), "Unknown");
}

#[test]
fn storage_controller_classification() {
    assert_eq!(storage_controller(0x01, 0x06, 0x01), Some(StorageController::Ahci));
    assert_eq!(storage_controller(0x01, 0x08, 0x02), Some(StorageController::Nvme));
    assert_eq!(storage_controller(0x01, 0x06, 0x00), None);
    assert_eq!(storage_controller(0x02, 0x06, 0x01), None);
}

fn acpi_header(sig: &[u8; 4], length: u32) -> Vec<u8> {
    let mut b = Vec::new();
    b.extend_from_slice(sig);
    b.extend_from_slice(&length.to_le_bytes());
    b.push(1); // revision
    b.push(0xAB); // checksum
    b.extend_from_slice(b"OEMID_");
    b.extend_from_slice(b"TABLEID_");
    b.extend_from_slice(&7u32.to_le_bytes());
    b.extend_from_slice(&0x1234u32.to_le_bytes());
    b.extend_from_slice(&0x5678u32.to_le_bytes());
    b
}

#[test]
fn acpi_table_parse_and_count() {
    let b = acpi_header(b"XSDT", 36 + 3 * 8);
    let t = ACPITable::parse(&b).unwrap();
    assert_eq!(t.signature.as_bytes(), *b"XSDT");
    assert!(t.signature.is_xsdt());
    assert_eq!(t.length, 60);
    assert_eq!(t.revision, 1);
    assert_eq!(t.checksum, 0xAB);
    assert_eq!(t.oem_id, *b"OEMID_");
    assert_eq!(t.oem_table_id, *b"TABLEID_");
    assert_eq!(t.oem_revision, 7);
    assert_eq!(t.creator_id, 0x1234);
    assert_eq!(t.creator_revision, 0x5678);
    assert_eq!(t.entry_count(), 3);
    assert!(ACPITable::parse(&b[..35]).is_none());
}

#[test]
fn acpi_iterator_walks_entry_addresses() {
    let x = ACPITable::parse(&acpi_header(b"XSDT", 36 + 3 * 8)).unwrap();
    let mut it = x.iter(0x1000);
    assert_eq!(it.entry_size(), 8);
    // the walk ends 36 bytes per entry after the table's start
    let mut seen = Vec::new();
    while let Some(a) = it.next() {
        seen.push(a);
    }
    assert_eq!(seen, vec![0x1024, 0x102c, 0x1034, 0x103c, 0x1044]);

    let r = ACPITable::parse(&acpi_header(b"RSDT", 36 + 2 * 8)).unwrap();
    let mut it = r.iter(0x1000);
    assert_eq!(it.entry_size(), 4);
    let mut seen = Vec::new();
    while let Some(a) = it.next() {
        seen.push(a);
    }
    assert_eq!(seen, vec![0x1024]);
}

#[test]
fn acpi_signature_bytes() {
    let s = ACPITableSignature::new(*b"APIC");
    assert!(!s.is_xsdt());
    assert_eq!(s.as_bytes(), *b"APIC");
}

#[test]
fn rsdp_parse_and_root_table() {
    let mut b = Vec::new();
    b.extend_from_slice(b"RSD PTR ");
    b.push(0x11);
    b.extend_from_slice(b"BOCHS ");
    b.push(0); // revision
    b.extend_from_slice(&0x7fe1000u32.to_le_bytes());
    b.extend_from_slice(&36u32.to_le_bytes());
    b.extend_from_slice(&0x1_0000_2000u64.to_le_bytes());
    b.push(0x22);
    b.extend_from_slice(&[0, 0, 0]);
    let r = RSDPHeader::parse(&b).unwrap();
    assert_eq!(&r.signature, b"RSD PTR ");
    assert_eq!(r.checksum, 0x11);
    assert_eq!(&r.oem_id, b"BOCHS ");
    assert_eq!(r.rsdt_address, 0x7fe1000);
    assert_eq!(r.length, 36);
    assert_eq!(r.xsdt_address, 0x1_0000_2000);
    assert_eq!(r.extended_checksum, 0x22);
    assert_eq!(r.root_table_address(), 0x7fe1000);
    b[15] = 2;
    let r2 = RSDPHeader::parse(&b).unwrap();
    assert_eq!(r2.root_table_address(), 0x1_0000_2000);
    assert!(RSDPHeader::parse(&b[..35]).is_none());
}

#[test]
fn mcfg_table_and_configurations() {
    let mut b = acpi_header(b"MCFG", 36 + 2 * 8);
    b.extend_from_slice(&0u64.to_le_bytes());
    let h = MCFGHeader::parse(&b).unwrap();
    assert_eq!(h.sdt_header.length, 52);
    let t = MCFGTable::parse(&b).unwrap();
    assert_eq!(t.entry_count(), 2);
    let mut it = t.iter(0x2000, 0x100);
    let mut seen = Vec::new();
    while let Some(a) = it.next() {
        seen.push(a);
    }
    // from 44 bytes after the table plus the offset, 22 bytes apart, up to 8 bytes per entry
    assert_eq!(seen, vec![0x2000 + 44 + 0x100]);

    let mut c = Vec::new();
    c.extend_from_slice(&0xb000_0000u64.to_le_bytes());
    c.extend_from_slice(&0u64.to_le_bytes());
    c.push(0);
    c.push(0xff);
    c.extend_from_slice(&0u32.to_le_bytes());
    let conf = PCIDeviceConfiguration::parse(&c).unwrap();
    assert_eq!(conf.base_address(), 0xb000_0000);
    assert_eq!(conf.segment_group(), 0);
    assert_eq!(conf.start_bus(), 0);
    assert_eq!(conf.end_bus(), 0xff);
    assert!(PCIDeviceConfiguration::parse(&c[..21]).is_none());
}

#[test]
fn apic_registers_and_base() {
    let mut b = vec![0u8; 0x400];
    b[0x20..0x24].copy_from_slice(&0x0100_0000u32.to_le_bytes());
    b[0xF0..0xF4].copy_from_slice(&0x1FFu32.to_le_bytes());
    b[0x3E0..0x3E4].copy_from_slice(&3u32.to_le_bytes());
    let r = APICRegisters::parse(&b).unwrap();
    assert_eq!(r.lapic_id, 0x0100_0000);
    assert_eq!(r.spurious_interrupt_vector, 0x1FF);
    assert_eq!(r.timer_divide_configuration, 3);
    assert!(APICRegisters::parse(&b[..0x3ff]).is_none());
    let (base, high, low) = apic_base_enable(0xFEE0_0900, 0x0000_0003);
    assert_eq!(base, 0x3_FEE0_0000);
    assert_eq!(high, 0xFEE0_0000 | 0x800);
    assert_eq!(low, 3);
}

#[test]
fn ioapic_redirection() {
    let over = InterruptSourceOverride { irq_source: 0, global_system_interrupt: 2, polarity: 0, trigger_mode: 0 };
    let e = redirection_entry(over, 5);
    assert_eq!(e.vector, 32);
    assert!(!e.pin_polarity);
    assert!(!e.trigger_mode);
    assert!(!e.mask);
    assert_eq!(e.destination, 5);
    let irq2 = InterruptSourceOverride { irq_source: 2, global_system_interrupt: 2, polarity: 3, trigger_mode: 3 };
    let e2 = redirection_entry(irq2, 1);
    assert_eq!(e2.vector, 32);
    assert!(e2.pin_polarity);
    assert!(e2.trigger_mode);
    let irq9 = InterruptSourceOverride { irq_source: 9, global_system_interrupt: 9, polarity: 1, trigger_mode: 1 };
    assert_eq!(redirection_entry(irq9, 0).vector, 41);
    assert_eq!(redirection_index(9, 0), 9);
    let ((r0, low), (r1, high)) = redirection_writes(9, e2);
    assert_eq!((r0, r1), (0x10 + 18, 0x10 + 19));
    assert_eq!(low, 32 | (1 << 13) | (1 << 15));
    assert_eq!(high, 1 << 24);
    assert_eq!(version_info(0x0017_0011), (0x11, 0x18));
}

#[test]
fn nvme_queue_doorbells_and_submission() {
    let u = NVMEQueue::new_uninit();
    assert_eq!(u.submission_doorbell_address(), 0x1000);
    let mut q = NVMEQueue::new(0xfebd_0000, 4, 1, 0x10_0000, 0x20_0000, 4, 4);
    assert_eq!(q.submission_doorbell_address(), 0xfebd_0000 + 0x1000 + 8);
    assert_eq!(q.completion_doorbell_address(), 0xfebd_0000 + 0x1000 + 12);
    let setup = q.setup();
    assert_eq!(setup.len(), 2);
    assert_eq!((setup[0].address, setup[0].value), (0xfebd_1008, 0));
    assert_eq!((setup[1].address, setup[1].value), (0xfebd_100c, 1));
    // the tail starts at the last slot
    let s = q.admin_identify(0x5000, 1, 0x12, 0x01, 0xbeef);
    assert_eq!(s.slot_address, 0x10_0000 + 3 * 64);
    assert_eq!(s.entry.opcode, OPCODE_IDENTIFY);
    assert_eq!(s.entry.command_id, 3);
    assert_eq!(s.entry.nsid, 1);
    assert_eq!(s.entry.data_pointer_0, 0x5000);
    assert_eq!(s.entry.command_specific_0, (0x12 << 16) | 1);
    assert_eq!((s.doorbell.address, s.doorbell.value), (0xfebd_1008, 3));
    // then wraps around to the first slot
    let s2 = q.admin_identify(0x6000, 0, 0, 0x02, 0);
    assert_eq!(s2.slot_address, 0x10_0000);
    assert_eq!(s2.entry.command_id, 0);
    assert_eq!(q.completion_slot_address(), 0x20_0000);
    let d = q.dequeue(1);
    // the completion head moves back, wrapping to the last slot
    assert_eq!((d.address, d.value), (0xfebd_100c, 4));
    assert_eq!(q.completion_slot_address(), 0x20_0000 + 3 * 16);
    q.wait_until_completion();
}

fn port_bytes(sata_status: u32, signature: u32) -> Vec<u8> {
    let mut b = vec![0u8; 0x80];
    b[0x24..0x28].copy_from_slice(&signature.to_le_bytes());
    b[0x28..0x2C].copy_from_slice(&sata_status.to_le_bytes());
    b
}

#[test]
fn ahci_port_types() {
    let sata = HBAPort::parse(&port_bytes(0x123, 0x00000101)).unwrap();
    assert_eq!(get_port_type(&sata), PortType::SATA);
    let atapi = HBAPort::parse(&port_bytes(0x113, 0xEB140101)).unwrap();
    assert_eq!(get_port_type(&atapi), PortType::SATAPI);
    let pm = HBAPort::parse(&port_bytes(0x103, 0x96690101)).unwrap();
    assert_eq!(get_port_type(&pm), PortType::PM);
    let semb = HBAPort::parse(&port_bytes(0x103, 0xC33C0101)).unwrap();
    assert_eq!(get_port_type(&semb), PortType::SEMB);
    let absent = HBAPort::parse(&port_bytes(0x101, 0x00000101)).unwrap();
    assert_eq!(get_port_type(&absent), PortType::NoDevice);
    let sleeping = HBAPort::parse(&port_bytes(0x603, 0x00000101)).unwrap();
    assert_eq!(get_port_type(&sleeping), PortType::NoDevice);
    let unknown = HBAPort::parse(&port_bytes(0x103, 0x1234)).unwrap();
    assert_eq!(get_port_type(&unknown), PortType::NoDevice);
    assert!(HBAPort::parse(&[0u8; 0x7f]).is_none());
}

#[test]
fn ahci_probe_finds_sata_and_satapi_ports() {
    let mut ports = Vec::new();
    for p in 0..32u32 {
        let b = match p {
            1 => port_bytes(0x103, 0x00000101),
            4 => port_bytes(0x103, 0xEB140101),
            5 => port_bytes(0x103, 0x96690101),
            7 => port_bytes(0x103, 0x00000101),
            _ => port_bytes(0, 0),
        };
        ports.push(HBAPort::parse(&b).unwrap());
    }
    // port 7 has a drive but is not implemented
    let found = probe_ports(0b0011_0011, &ports);
    assert_eq!(found.len(), 2);
    assert_eq!((found[0].port_type, found[0].port_number), (PortType::SATA, 1));
    assert_eq!((found[1].port_type, found[1].port_number), (PortType::SATAPI, 4));
}

#[test]
fn ahci_disk_command() {
    let c = diskio_command(DiskIO::Read, 0x0000_1234_5678_9ABC, 2, 0x8000);
    assert_eq!(c.fis_length, 5);
    assert!(!c.write);
    assert_eq!(c.prdt_length, 1);
    assert_eq!(c.data_base_address, 0x8000);
    assert_eq!(c.byte_count, 1023);
    assert!(c.interrupt_on_completion);
    assert_eq!(c.fis.fis_type, 0x27);
    assert!(c.fis.command_control);
    assert_eq!(c.fis.command, 0x25);
    assert_eq!(
        [c.fis.lba_0, c.fis.lba_1, c.fis.lba_2, c.fis.lba_3, c.fis.lba_4, c.fis.lba_5],
        [0xBC, 0x9A, 0x78, 0x34, 0x12, 0x00]
    );
    assert_eq!(c.fis.device_register, 0x40);
    assert_eq!(c.fis.count, 2);
    let w = diskio_command(DiskIO::Write, 1, 0x101, 0);
    assert!(w.write);
    assert_eq!(w.fis.command, 0x35);
    assert_eq!(w.fis.count, 0x01);
}

#[test]
fn ahci_wait_and_completion_steps() {
    assert_eq!(wait_step(0x80, 0), PortWait::Wait);
    assert_eq!(wait_step(0x08, 999_999), PortWait::Wait);
    assert_eq!(wait_step(0x88, 1_000_000), PortWait::Fail(AHCIError::PortCommunicationError));
    assert_eq!(wait_step(0x00, 1_000_000), PortWait::Fail(AHCIError::PortCommunicationError));
    assert_eq!(wait_step(0x50, 10), PortWait::Issue);
    assert_eq!(completion_step(DiskIO::Read, 0, 0), Some(Ok(())));
    assert_eq!(completion_step(DiskIO::Read, 1, 1 << 30), Some(Err(AHCIError::DiskReadError)));
    assert_eq!(completion_step(DiskIO::Write, 1, 1 << 30), Some(Err(AHCIError::DiskWriteError)));
    assert_eq!(completion_step(DiskIO::Write, 1, 0), None);
}

#[test]
fn ahci_command_status_bits() {
    assert_eq!(start_commands_status(0x0000_8000), 0x0000_8011);
    assert_eq!(stop_commands_status(0x0000_c011), 0x0000_c000);
    assert!(command_list_running(0x8000));
    assert!(!command_list_running(0x4000));
    assert!(stop_pending(0xc000));
    assert!(!stop_pending(0x8000));
    assert_eq!(command_table_address(0x40_0000, 3), 0x40_0000 + 3 * 256);
}

#[test]
fn apic_mode_encodings() {
    assert_eq!(Polarity::from_u8(0), Some(Polarity::ConformsToSpecs));
    assert_eq!(Polarity::from_u8(1), Some(Polarity::ActiveHigh));
    assert_eq!(Polarity::from_u8(3), Some(Polarity::ActiveLow));
    assert_eq!(Polarity::from_u8(2), None);
    assert_eq!(TriggerMode::from_u8(0), Some(TriggerMode::ConformsToSpecs));
    assert_eq!(TriggerMode::from_u8(1), Some(TriggerMode::Edge));
    assert_eq!(TriggerMode::from_u8(3), Some(TriggerMode::Level));
    assert_eq!(TriggerMode::from_u8(4), None);
    assert_eq!(Polarity::ConformsToSpecs.apic_polarity(), APICPolarity::ActiveHigh);
    assert_eq!(Polarity::ActiveLow.apic_polarity().value(), 1);
    assert_eq!(TriggerMode::ConformsToSpecs.apic_mode(), APICTriggerMode::Edge);
    assert_eq!(TriggerMode::Level.apic_mode().value(), 1);
    assert_eq!(DestinationMode::Physical.value(), 0);
    assert_eq!(DestinationMode::Logical.value(), 1);
    assert_eq!(DeliveryMode::Fixed.value(), 0);
    assert_eq!(DeliveryMode::NMI.value(), 4);
    assert_eq!(DeliveryMode::ExtInt.value(), 7);
}

#[test]
fn ahci_drive_position_and_size() {
    let mut d = AHCIDrive::new(3);
    assert_eq!(d.offset(), 0);
    assert_eq!(d.size(), 1);
    assert_eq!(d.block_size(), 512);
    assert!(d.seek(0).is_ok());
    assert_eq!(d.offset(), 0);
    assert_eq!(d.seek(1), Err(kernel::error::Error::InvalidSeek));
    assert_eq!(d.offset(), 0);
    assert_eq!(d.device_path(), vec!["Storage", "AHCI", "Drive3"]);
    assert_eq!(AHCIDrive::new(17).device_path()[2], "Drive17");
}

#[test]
fn ahci_drive_transfer_span() {
    let d = AHCIDrive::new(0);
    assert_eq!(d.transfer_span(0), (0, 1, 0));
    assert_eq!(d.transfer_span(100), (0, 1, 0));
    assert_eq!(d.transfer_span(512), (0, 2, 0));
    assert_eq!(d.transfer_span(1000), (0, 2, 0));
}

#[test]
fn redirection_entry_reads_back_what_was_written() {
    let over = InterruptSourceOverride { irq_source: 9, global_system_interrupt: 9, polarity: 3, trigger_mode: 3 };
    let e = redirection_entry(over, 5);
    let ((reg_low, low), (reg_high, high)) = redirection_writes(4, e);
    assert_eq!((reg_low, reg_high), (0x18, 0x19));
    assert_eq!(redirection_entry_from(low, high), e);
    let decoded = redirection_entry_from(0x0001_A0FF, 0xFF00_0000);
    assert_eq!(decoded.vector, 0xFF);
    assert_eq!(decoded.delivery_mode, 0);
    assert!(decoded.pin_polarity);
    assert!(!decoded.remote_irr);
    assert!(decoded.trigger_mode);
    assert!(decoded.mask);
    assert_eq!(decoded.destination, 0xFF);
}

#[test]
fn ioapic_setup_routes_each_override() {
    let mut a = IOAPIC::new(0xFEC0_0000, 2, 0);
    assert_eq!(a.device_name(), "System/IOAPIC2");
    assert_eq!((a.version, a.redirection_entries), (0, 0));
    a.interrupt_source_overrides.push(InterruptSourceOverride { irq_source: 0, global_system_interrupt: 2, polarity: 0, trigger_mode: 0 });
    a.interrupt_source_overrides.push(InterruptSourceOverride { irq_source: 9, global_system_interrupt: 9, polarity: 3, trigger_mode: 3 });
    let writes = a.init_device(0x0017_0020, 5);
    assert_eq!((a.version, a.redirection_entries), (0x20, 0x18));
    assert_eq!(writes.len(), 4);
    assert_eq!(writes[0], (0x14, 32));
    assert_eq!(writes[1], (0x15, 5 << 24));
    assert_eq!(writes[2], (0x22, 41 | (1 << 13) | (1 << 15)));
    assert_eq!(writes[3], (0x23, 5 << 24));
    assert!(IOAPIC::new(0, 0, 0).init_device(0, 1).is_empty());
}

#[test]
fn storage_drivers_for_each_pci_function() {
    let functions = [(0x01, 0x06, 0x01), (0x02, 0x00, 0x00), (0x01, 0x08, 0x02), (0x01, 0x08, 0x01)];
    assert_eq!(
        storage_drivers(&functions),
        vec![Some(StorageController::Ahci), None, Some(StorageController::Nvme), None]
    );
    assert_eq!(storage_drivers(&[]), vec![]);
}

fn madt(lapic: u32, flags: u32, entries: &[u8]) -> Vec<u8> {
    let mut t = vec![0u8; 44];
    t[0..4].copy_from_slice(b"APIC");
    t[4..8].copy_from_slice(&((44 + entries.len()) as u32).to_le_bytes());
    t[36..40].copy_from_slice(&lapic.to_le_bytes());
    t[40..44].copy_from_slice(&flags.to_le_bytes());
    t.extend_from_slice(entries);
    t
}

#[test]
fn madt_gives_the_local_apic() {
    // a processor's local APIC entry and an I/O APIC entry
    let mut entries = vec![0u8, 8, 0, 0, 1, 0, 0, 0];
    entries.extend_from_slice(&[1, 12, 0, 0, 0, 0, 0xc0, 0xfe, 0, 0, 0, 0]);
    assert_eq!(madt_lapic(&madt(0xfee0_0000, 1, &entries)), Some((0xfee0_0000, true)));
    assert_eq!(madt_lapic(&madt(0xfee0_0000, 2, &[])), Some((0xfee0_0000, false)));
}

#[test]
fn madt_with_an_address_override_is_refused() {
    let mut entries = vec![0u8, 8, 0, 0, 1, 0, 0, 0];
    entries.extend_from_slice(&[5, 12, 0, 0, 0, 0, 0, 0, 1, 0, 0, 0]);
    assert_eq!(madt_lapic(&madt(0xfee0_0000, 1, &entries)), None);
    // an override past the length the header gives is not read
    let mut t = madt(0xfee0_0000, 1, &[]);
    t.extend_from_slice(&[5, 12, 0, 0, 0, 0, 0, 0, 1, 0, 0, 0]);
    assert_eq!(madt_lapic(&t), Some((0xfee0_0000, true)));
    assert_eq!(madt_lapic(&[0u8; 43]), None);
}
