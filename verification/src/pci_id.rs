use vstd::prelude::*;

verus! {

/// The name of a PCI device class, `"Unknown"` for a class without one.
pub open spec fn class_name(class: u8) -> Seq<char> {
    match class {
        0x00u8 => "Unclassified Device"@,
        0x01u8 => "Mass storage controller"@,
        0x02u8 => "Network controller"@,
        0x03u8 => "Display controller"@,
        0x04u8 => "Multimedia controller"@,
        0x05u8 => "Memory controller"@,
        0x06u8 => "Bridge"@,
        0x07u8 => "Communication controller"@,
        0x08u8 => "Generic system peripheral"@,
        0x09u8 => "Input device controller"@,
        0x0au8 => "Docking station"@,
        0x0bu8 => "Processor"@,
        0x0cu8 => "Serial bus controller"@,
        0x0du8 => "Wireless controller"@,
        0x0eu8 => "Intelligent controller"@,
        0x0fu8 => "Satellite communications controller"@,
        0x10u8 => "Encryption controller"@,
        0x11u8 => "Signal processing controller"@,
        0x12u8 => "Processing accelerator"@,
        0x13u8 => "Non-essential instrumentation"@,
        0x40u8 => "Coprocessor"@,
        0xffu8 => "Unassigned class"@,
        _ => "Unknown"@,
    }
}

/// The name of a subclass within a known PCI class; `None` where the class
/// has no table of subclasses.
pub open spec fn subclass_table(class: u8, subclass: u8) -> Option<Seq<char>> {
    match class {
        0x00u8 => Some(
            match subclass {
                0x00u8 => "Non-VGA unclassified device"@,
                0x01u8 => "VGA compatible unclassified device"@,
                0x05u8 => "Image coprocessor"@,
                _ => "Unknown"@,
            },
        ),
        0x01u8 => Some(
            match subclass {
                0x00u8 => "SCSI storage controller"@,
                0x01u8 => "IDE interface"@,
                0x02u8 => "Floppy disk controller"@,
                0x03u8 => "IPI bus controller"@,
                0x04u8 => "RAID bus controller"@,
                0x05u8 => "ATA controller"@,
                0x06u8 => "SATA controller"@,
                0x07u8 => "Serial Attached SCSI controller"@,
                0x08u8 => "Non-volatile memory controller"@,
                0x80u8 => "Mass storage controller"@,
                _ => "Unknown"@,
            },
        ),
        0x02u8 => Some(
            match subclass {
                0x00u8 => "Ethernet controller"@,
                0x01u8 => "Token ring network controller"@,
                0x02u8 => "FDDI network controller"@,
                0x03u8 => "ATM network controller"@,
                0x04u8 => "ISDN controller"@,
                0x05u8 => "WorldFip controller"@,
                0x06u8 => "PICMG controller"@,
                0x07u8 => "Infiniband controller"@,
                0x08u8 => "Fabric controller"@,
                0x80u8 => "Network controller"@,
                _ => "Unknown"@,
            },
        ),
        0x03u8 => Some(
            match subclass {
                0x00u8 => "VGA compatible controller"@,
                0x01u8 => "XGA compatible controller"@,
                0x02u8 => "3D controller"@,
                0x80u8 => "Display controller"@,
                _ => "Unknown"@,
            },
        ),
        0x04u8 => Some(
            match subclass {
                0x00u8 => "Multimedia video controller"@,
                0x01u8 => "Multimedia audio controller"@,
                0x02u8 => "Computer telephony device"@,
                0x03u8 => "Audio device"@,
                0x80u8 => "Multimedia controller"@,
                _ => "Unknown"@,
            },
        ),
        0x05u8 => Some(
            match subclass {
                0x00u8 => "RAM memory"@,
                0x01u8 => "Flash memory"@,
                0x02u8 => "CXL memory"@,
                0x80u8 => "Memory controller"@,
                _ => "Unknown"@,
            },
        ),
        0x06u8 => Some(
            match subclass {
                0x00u8 => "Host bridge"@,
                0x01u8 => "ISA bridge"@,
                0x02u8 => "EISA bridge"@,
                0x03u8 => "MicroChannel bridge"@,
                0x04u8 => "PCI bridge"@,
                0x05u8 => "PCMCIA bridge"@,
                0x06u8 => "NuBus bridge"@,
                0x07u8 => "CardBus bridge"@,
                0x08u8 => "RACEWay bridge"@,
                0x09u8 => "Semi-transparent PCI-to-PCI bridge"@,
                0x0au8 => "InfiniBand-to-PCI bridge"@,
                0x80u8 => "Bridge"@,
                _ => "Unknown"@,
            },
        ),
        0x07u8 => Some(
            match subclass {
                0x00u8 => "Serial controller"@,
                0x01u8 => "Parallel controller"@,
                0x02u8 => "Multiport serial controller"@,
                0x03u8 => "Modem"@,
                0x04u8 => "GPIB controller"@,
                0x05u8 => "Smart card controller"@,
                0x80u8 => "Communication controller"@,
                _ => "Unknown"@,
            },
        ),
        0x08u8 => Some(
            match subclass {
                0x00u8 => "PIC"@,
                0x01u8 => "DMA controller"@,
                0x02u8 => "Timer"@,
                0x03u8 => "RTC"@,
                0x04u8 => "PCI Hot-plug controller"@,
                0x05u8 => "SD host controller"@,
                0x06u8 => "IOMMU"@,
                0x80u8 => "System peripheral"@,
                0x99u8 => "Timing card"@,
                _ => "Unknown"@,
            },
        ),
        0x09u8 => Some(
            match subclass {
                0x00u8 => "Keyboard controller"@,
                0x01u8 => "Digitizer pen"@,
                0x02u8 => "Mouse controller"@,
                0x03u8 => "Scanner controller"@,
                0x04u8 => "Gameport controller"@,
                0x80u8 => "Input device controller"@,
                _ => "Unknown"@,
            },
        ),
        0x0au8 => Some(
            match subclass {
                0x00u8 => "Generic docking station"@,
                0x80u8 => "Docking station"@,
                _ => "Unknown"@,
            },
        ),
        0x0bu8 => Some(
            match subclass {
                0x00u8 => "386"@,
                0x01u8 => "486"@,
                0x02u8 => "Pentium"@,
                0x03u8 => ""@,
                0x04u8 => ""@,
                0x10u8 => "Alpha"@,
                0x20u8 => "PowerPC"@,
                0x30u8 => "MIPS"@,
                0x40u8 => "Co-processor"@,
                _ => "Unknown"@,
            },
        ),
        0x0cu8 => Some(
            match subclass {
                0x00u8 => "FireWire"@,
                0x01u8 => "ACCESS bus"@,
                0x02u8 => "SSA"@,
                0x03u8 => "USB controller"@,
                0x04u8 => "Fibre Channel"@,
                0x05u8 => "SMBus"@,
                0x06u8 => "InfiniBand"@,
                0x07u8 => "IPMI interface"@,
                0x08u8 => "SERCOS interface"@,
                0x09u8 => "CAN bus"@,
                0x80u8 => "Serial bus controller"@,
                _ => "Unknown"@,
            },
        ),
        0x0du8 => Some(
            match subclass {
                0x00u8 => "IRDA controller"@,
                0x01u8 => "Consumer IR controller"@,
                0x02u8 => "RF controller"@,
                0x03u8 => "Bluetooth"@,
                0x04u8 => "Broadband"@,
                0x05u8 => "802.1a controller"@,
                0x06u8 => "802.1b controller"@,
                0x80u8 => "Wireless controller"@,
                _ => "Unknown"@,
            },
        ),
        0x0eu8 => Some(
            match subclass {
                0x00u8 => "I2O"@,
                _ => "Unknown"@,
            },
        ),
        0x0fu8 => Some(
            match subclass {
                0x01u8 => "Satellite TV controller"@,
                0x02u8 => "Satellite audio communication controller"@,
                0x03u8 => "Satellite voice communication controller"@,
                0x04u8 => "Satellite data communication controller"@,
                _ => "Unknown"@,
            },
        ),
        0x10u8 => Some(
            match subclass {
                0x00u8 => "Network and computing encryption device"@,
                0x10u8 => "Entertainment encryption device"@,
                0x80u8 => "Encryption controller"@,
                _ => "Unknown"@,
            },
        ),
        0x11u8 => Some(
            match subclass {
                0x00u8 => "DPIO module"@,
                0x01u8 => "Performance counters"@,
                0x10u8 => "Communication synchronizer"@,
                0x20u8 => "Signal processing management"@,
                0x80u8 => "Signal processing controller"@,
                _ => "Unknown"@,
            },
        ),
        0x12u8 => Some(
            match subclass {
                0x00u8 => "Processing accelerator"@,
                0x01u8 => "SNIA Smart Data Accelerator Interface (SDXI) controller"@,
                _ => "Unknown"@,
            },
        ),
        0x13u8 => Some(
            match subclass {
                _ => "Unknown"@,
            },
        ),
        0x40u8 => Some(
            match subclass {
                _ => "Unknown"@,
            },
        ),
        0xffu8 => Some(
            match subclass {
                _ => "Unknown"@,
            },
        ),
        _ => None,
    }
}

/// The name of a subclass of a PCI class, `"Unknown"` for a pair without one.
pub open spec fn subclass_name(class: u8, subclass: u8) -> Seq<char> {
    match subclass_table(class, subclass) {
        Some(n) => n,
        None => "Unknown"@,
    }
}

/// The name of a PCI vendor, `"Unknown"` for a vendor without one.
pub open spec fn vendor_name(vendor: u16) -> Seq<char> {
    match vendor {
        0x8086u16 => "Intel"@,
        0x1234u16 => "QEMU"@,
        _ => "Unknown"@,
    }
}

/// The name of a PCI device class.
pub fn get_class_name(class: u8) -> (name: &'static str)
    ensures
        name@ == class_name(class),
{
    match class {
        0x00 => "Unclassified Device",
        0x01 => "Mass storage controller",
        0x02 => "Network controller",
        0x03 => "Display controller",
        0x04 => "Multimedia controller",
        0x05 => "Memory controller",
        0x06 => "Bridge",
        0x07 => "Communication controller",
        0x08 => "Generic system peripheral",
        0x09 => "Input device controller",
        0x0a => "Docking station",
        0x0b => "Processor",
        0x0c => "Serial bus controller",
        0x0d => "Wireless controller",
        0x0e => "Intelligent controller",
        0x0f => "Satellite communications controller",
        0x10 => "Encryption controller",
        0x11 => "Signal processing controller",
        0x12 => "Processing accelerator",
        0x13 => "Non-essential instrumentation",
        0x40 => "Coprocessor",
        0xff => "Unassigned class",
        _ => "Unknown",
    }
}

/// The name of a subclass of a PCI device class.
pub fn get_subclass_name(class: u8, subclass: u8) -> (name: &'static str)
    ensures
        name@ == subclass_name(class, subclass),
{
    match class {
        0x00 => match subclass {
            0x00 => "Non-VGA unclassified device",
            0x01 => "VGA compatible unclassified device",
            0x05 => "Image coprocessor",
            _ => "Unknown",
        },
        0x01 => match subclass {
            0x00 => "SCSI storage controller",
            0x01 => "IDE interface",
            0x02 => "Floppy disk controller",
            0x03 => "IPI bus controller",
            0x04 => "RAID bus controller",
            0x05 => "ATA controller",
            0x06 => "SATA controller",
            0x07 => "Serial Attached SCSI controller",
            0x08 => "Non-volatile memory controller",
            0x80 => "Mass storage controller",
            _ => "Unknown",
        },
        0x02 => match subclass {
            0x00 => "Ethernet controller",
            0x01 => "Token ring network controller",
            0x02 => "FDDI network controller",
            0x03 => "ATM network controller",
            0x04 => "ISDN controller",
            0x05 => "WorldFip controller",
            0x06 => "PICMG controller",
            0x07 => "Infiniband controller",
            0x08 => "Fabric controller",
            0x80 => "Network controller",
            _ => "Unknown",
        },
        0x03 => match subclass {
            0x00 => "VGA compatible controller",
            0x01 => "XGA compatible controller",
            0x02 => "3D controller",
            0x80 => "Display controller",
            _ => "Unknown",
        },
        0x04 => match subclass {
            0x00 => "Multimedia video controller",
            0x01 => "Multimedia audio controller",
            0x02 => "Computer telephony device",
            0x03 => "Audio device",
            0x80 => "Multimedia controller",
            _ => "Unknown",
        },
        0x05 => match subclass {
            0x00 => "RAM memory",
            0x01 => "Flash memory",
            0x02 => "CXL memory",
            0x80 => "Memory controller",
            _ => "Unknown",
        },
        0x06 => match subclass {
            0x00 => "Host bridge",
            0x01 => "ISA bridge",
            0x02 => "EISA bridge",
            0x03 => "MicroChannel bridge",
            0x04 => "PCI bridge",
            0x05 => "PCMCIA bridge",
            0x06 => "NuBus bridge",
            0x07 => "CardBus bridge",
            0x08 => "RACEWay bridge",
            0x09 => "Semi-transparent PCI-to-PCI bridge",
            0x0a => "InfiniBand-to-PCI bridge",
            0x80 => "Bridge",
            _ => "Unknown",
        },
        0x07 => match subclass {
            0x00 => "Serial controller",
            0x01 => "Parallel controller",
            0x02 => "Multiport serial controller",
            0x03 => "Modem",
            0x04 => "GPIB controller",
            0x05 => "Smart card controller",
            0x80 => "Communication controller",
            _ => "Unknown",
        },
        0x08 => match subclass {
            0x00 => "PIC",
            0x01 => "DMA controller",
            0x02 => "Timer",
            0x03 => "RTC",
            0x04 => "PCI Hot-plug controller",
            0x05 => "SD host controller",
            0x06 => "IOMMU",
            0x80 => "System peripheral",
            0x99 => "Timing card",
            _ => "Unknown",
        },
        0x09 => match subclass {
            0x00 => "Keyboard controller",
            0x01 => "Digitizer pen",
            0x02 => "Mouse controller",
            0x03 => "Scanner controller",
            0x04 => "Gameport controller",
            0x80 => "Input device controller",
            _ => "Unknown",
        },
        0x0a => match subclass {
            0x00 => "Generic docking station",
            0x80 => "Docking station",
            _ => "Unknown",
        },
        0x0b => match subclass {
            0x00 => "386",
            0x01 => "486",
            0x02 => "Pentium",
            0x03 => "",
            0x04 => "",
            0x10 => "Alpha",
            0x20 => "PowerPC",
            0x30 => "MIPS",
            0x40 => "Co-processor",
            _ => "Unknown",
        },
        0x0c => match subclass {
            0x00 => "FireWire",
            0x01 => "ACCESS bus",
            0x02 => "SSA",
            0x03 => "USB controller",
            0x04 => "Fibre Channel",
            0x05 => "SMBus",
            0x06 => "InfiniBand",
            0x07 => "IPMI interface",
            0x08 => "SERCOS interface",
            0x09 => "CAN bus",
            0x80 => "Serial bus controller",
            _ => "Unknown",
        },
        0x0d => match subclass {
            0x00 => "IRDA controller",
            0x01 => "Consumer IR controller",
            0x02 => "RF controller",
            0x03 => "Bluetooth",
            0x04 => "Broadband",
            0x05 => "802.1a controller",
            0x06 => "802.1b controller",
            0x80 => "Wireless controller",
            _ => "Unknown",
        },
        0x0e => match subclass {
            0x00 => "I2O",
            _ => "Unknown",
        },
        0x0f => match subclass {
            0x01 => "Satellite TV controller",
            0x02 => "Satellite audio communication controller",
            0x03 => "Satellite voice communication controller",
            0x04 => "Satellite data communication controller",
            _ => "Unknown",
        },
        0x10 => match subclass {
            0x00 => "Network and computing encryption device",
            0x10 => "Entertainment encryption device",
            0x80 => "Encryption controller",
            _ => "Unknown",
        },
        0x11 => match subclass {
            0x00 => "DPIO module",
            0x01 => "Performance counters",
            0x10 => "Communication synchronizer",
            0x20 => "Signal processing management",
            0x80 => "Signal processing controller",
            _ => "Unknown",
        },
        0x12 => match subclass {
            0x00 => "Processing accelerator",
            0x01 => "SNIA Smart Data Accelerator Interface (SDXI) controller",
            _ => "Unknown",
        },
        0x13 => match subclass {
            _ => "Unknown",
        },
        0x40 => match subclass {
            _ => "Unknown",
        },
        0xff => match subclass {
            _ => "Unknown",
        },
        _ => "Unknown",
    }
}

/// The name of a PCI vendor.
pub fn get_vendor_name(vendor: u16) -> (name: &'static str)
    ensures
        name@ == vendor_name(vendor),
{
    match vendor {
        0x8086 => "Intel",
        0x1234 => "QEMU",
        _ => "Unknown",
    }
}

} // verus!
