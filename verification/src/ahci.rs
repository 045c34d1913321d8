use vstd::prelude::*;
use crate::bytes::{le_u32, le_u64, read_u32_le, read_u64_le};
use crate::error::Error;
use crate::devices::Device;
use crate::tree::path_keys;
use crate::text::{ascii_chars, ascii_string, all_ascii, decimal_digits, push_decimal, lemma_decimal_digits_ascii};

verus! {

pub const HBA_PORT_DEVICE_PRESENT: u8 = 0x03;
pub const HBA_PORT_IPM_ACTIVE: u8 = 0x01;
pub const HBA_PORT_TASK_FILE_ERROR: u32 = 0x4000_0000;
pub const SATA_SIGNATURE_ATAPI: u32 = 0xEB140101;
pub const SATA_SIGNATURE_ATA: u32 = 0x00000101;
pub const SATA_SIGNATURE_SEMB: u32 = 0xC33C0101;
pub const SATA_SIGNATURE_PM: u32 = 0x96690101;
/// The task file's busy and data-request bits.
pub const ATA_STATUS_BUSY_OR_DRQ: u32 = 0x88;
/// The command status bits: start, FIS receive enable, FIS receive running,
/// command list running.
pub const HBA_COMMAND_ST: u32 = 0x0001;
pub const HBA_COMMAND_FRE: u32 = 0x0010;
pub const HBA_COMMAND_FR: u32 = 0x4000;
pub const HBA_COMMAND_CR: u32 = 0x8000;
pub const ATA_COMMAND_READ_DMA_EX: u8 = 0x25;
pub const ATA_COMMAND_WRITE_DMA_EX: u8 = 0x35;
pub const FIS_TYPE_REG_H2D: u8 = 0x27;
/// How many times the task file is read before the port is given up on.
pub const SPIN_LIMIT: u32 = 1000000;
/// The size in bytes of a port's register block.
pub const HBA_PORT_SIZE: usize = 0x80;

/// The direction of a transfer.
#[derive(Clone, Copy, Debug, PartialEq, Eq, Structural)]
pub enum DiskIO {
    Read,
    Write,
}

/// What can go wrong talking to an AHCI port.
#[derive(Clone, Copy, Debug, PartialEq, Eq, Structural)]
pub enum AHCIError {
    PortCommunicationError,
    DiskReadError,
    DiskWriteError,
}

/// What is attached to a port.
#[derive(Clone, Copy, Debug, PartialEq, Eq, Structural)]
pub enum PortType {
    NoDevice,
    SATA,
    SEMB,
    PM,
    SATAPI,
}

/// The registers of one AHCI port.
#[derive(Clone, Copy)]
pub struct HBAPort {
    pub command_list_base_address: u64,
    pub fis_base_address: u64,
    pub interrupt_status: u32,
    pub interrupt_enable: u32,
    pub command_status: u32,
    pub task_file_data: u32,
    pub signature: u32,
    pub sata_status: u32,
    pub sata_control: u32,
    pub sata_error: u32,
    pub sata_active: u32,
    pub command_issue: u32,
    pub sata_notification: u32,
    pub fis_based_switch_control: u32,
}

impl HBAPort {
    /// The registers laid out in the first 0x80 bytes of `b`; `None` when `b`
    /// is shorter.
    pub fn parse(b: &[u8]) -> (r: Option<HBAPort>)
        ensures
            b@.len() < HBA_PORT_SIZE ==> r is None,
            b@.len() >= HBA_PORT_SIZE ==> (r matches Some(p) && {
                &&& p.command_list_base_address == le_u64(b@, 0x00)
                &&& p.fis_base_address == le_u64(b@, 0x08)
                &&& p.interrupt_status == le_u32(b@, 0x10)
                &&& p.interrupt_enable == le_u32(b@, 0x14)
                &&& p.command_status == le_u32(b@, 0x18)
                &&& p.task_file_data == le_u32(b@, 0x20)
                &&& p.signature == le_u32(b@, 0x24)
                &&& p.sata_status == le_u32(b@, 0x28)
                &&& p.sata_control == le_u32(b@, 0x2C)
                &&& p.sata_error == le_u32(b@, 0x30)
                &&& p.sata_active == le_u32(b@, 0x34)
                &&& p.command_issue == le_u32(b@, 0x38)
                &&& p.sata_notification == le_u32(b@, 0x3C)
                &&& p.fis_based_switch_control == le_u32(b@, 0x40)
            }),
    {
        if b.len() < HBA_PORT_SIZE {
            return None;
        }
        Some(
            HBAPort {
                command_list_base_address: read_u64_le(b, 0x00),
                fis_base_address: read_u64_le(b, 0x08),
                interrupt_status: read_u32_le(b, 0x10),
                interrupt_enable: read_u32_le(b, 0x14),
                command_status: read_u32_le(b, 0x18),
                task_file_data: read_u32_le(b, 0x20),
                signature: read_u32_le(b, 0x24),
                sata_status: read_u32_le(b, 0x28),
                sata_control: read_u32_le(b, 0x2C),
                sata_error: read_u32_le(b, 0x30),
                sata_active: read_u32_le(b, 0x34),
                command_issue: read_u32_le(b, 0x38),
                sata_notification: read_u32_le(b, 0x3C),
                fis_based_switch_control: read_u32_le(b, 0x40),
            },
        )
    }
}

/// What the port's status and signature say is attached: nothing unless a
/// device is present and its interface active, else the device the signature
/// names.
pub open spec fn port_type_of(sata_status: u32, signature: u32) -> PortType {
    if (sata_status & 0b111) as u8 != HBA_PORT_DEVICE_PRESENT {
        PortType::NoDevice
    } else if ((sata_status >> 8u32) & 0b111) as u8 != HBA_PORT_IPM_ACTIVE {
        PortType::NoDevice
    } else if signature == SATA_SIGNATURE_ATA {
        PortType::SATA
    } else if signature == SATA_SIGNATURE_ATAPI {
        PortType::SATAPI
    } else if signature == SATA_SIGNATURE_PM {
        PortType::PM
    } else if signature == SATA_SIGNATURE_SEMB {
        PortType::SEMB
    } else {
        PortType::NoDevice
    }
}

/// What is attached to `port`.
pub fn get_port_type(port: &HBAPort) -> (t: PortType)
    ensures
        t == port_type_of(port.sata_status, port.signature),
{
    let sata_status = port.sata_status;
    let interface_power_management: u8 = ((sata_status >> 8) & 0b111) as u8;
    let device_detection: u8 = (sata_status & 0b111) as u8;
    if device_detection != HBA_PORT_DEVICE_PRESENT {
        return PortType::NoDevice;
    }
    if interface_power_management != HBA_PORT_IPM_ACTIVE {
        return PortType::NoDevice;
    }
    match port.signature {
        SATA_SIGNATURE_ATA => PortType::SATA,
        SATA_SIGNATURE_ATAPI => PortType::SATAPI,
        SATA_SIGNATURE_PM => PortType::PM,
        SATA_SIGNATURE_SEMB => PortType::SEMB,
        _ => PortType::NoDevice,
    }
}

/// A port that a drive can be used through.
#[derive(Clone, Copy, Debug, PartialEq, Eq, Structural)]
pub struct ProbedPort {
    pub port_type: PortType,
    pub port_number: usize,
}

/// The ports among the first `n` that are implemented and have a SATA or
/// SATAPI device, in order.
pub open spec fn usable_ports(implemented: u32, ports: Seq<HBAPort>, n: nat) -> Seq<ProbedPort>
    decreases n,
{
    if n == 0 {
        Seq::empty()
    } else {
        let p = (n - 1) as nat;
        let rest = usable_ports(implemented, ports, p);
        let t = port_type_of(ports[p as int].sata_status, ports[p as int].signature);
        if implemented & (1u32 << p as u32) != 0 && (t == PortType::SATA || t == PortType::SATAPI) {
            rest.push(ProbedPort { port_type: t, port_number: p as usize })
        } else {
            rest
        }
    }
}

/// The ports of an HBA that have a SATA or SATAPI drive: of the 32 ports,
/// those marked in `implemented`, in order.
pub fn probe_ports(implemented: u32, ports: &[HBAPort]) -> (found: Vec<ProbedPort>)
    requires
        ports@.len() >= 32,
    ensures
        found@ == usable_ports(implemented, ports@, 32),
{
    let mut found: Vec<ProbedPort> = Vec::new();
    let mut p: usize = 0;
    while p < 32
        invariant
            p <= 32,
            ports@.len() >= 32,
            found@ == usable_ports(implemented, ports@, p as nat),
        decreases 32 - p,
    {
        if implemented & (1u32 << p as u32) != 0 {
            let port_type = get_port_type(&ports[p]);
            if port_type == PortType::SATA || port_type == PortType::SATAPI {
                found.push(ProbedPort { port_type, port_number: p });
            }
        }
        p = p + 1;
    }
    found
}

/// The register-to-device FIS of a DMA transfer.
#[derive(Clone, Copy, Debug, PartialEq, Eq, Structural)]
pub struct FISRegH2D {
    pub fis_type: u8,
    pub command_control: bool,
    pub command: u8,
    pub lba_0: u8,
    pub lba_1: u8,
    pub lba_2: u8,
    pub lba_3: u8,
    pub lba_4: u8,
    pub lba_5: u8,
    pub device_register: u8,
    pub count: u16,
}

/// What a transfer puts in the command header, the PRDT entry and the FIS.
#[derive(Clone, Copy, Debug, PartialEq, Eq, Structural)]
pub struct DiskCommand {
    /// The FIS length in double words.
    pub fis_length: u8,
    pub write: bool,
    pub prdt_length: u16,
    pub data_base_address: u64,
    /// The byte count of the PRDT entry, one less than the bytes moved.
    pub byte_count: u32,
    pub interrupt_on_completion: bool,
    pub fis: FISRegH2D,
}

/// The LBA bytes of `sector` that the FIS carries: bytes 0 to 2 and 4 to 6.
pub open spec fn lba_bytes(sector: u64) -> Seq<u8> {
    seq![
        (sector & 0xFF) as u8,
        ((sector >> 8u64) & 0xFF) as u8,
        ((sector >> 16u64) & 0xFF) as u8,
        ((sector >> 32u64) & 0xFF) as u8,
        ((sector >> 40u64) & 0xFF) as u8,
        ((sector >> 48u64) & 0xFF) as u8,
    ]
}

/// The command that moves `count` sectors from `sector` on, in the direction
/// of `operation`, to or from the buffer at physical address `data_address`.
/// The byte count is taken from `count << 9` in 16 bits, which must not be
/// zero, and the FIS's count from the low byte of `count`.
pub fn diskio_command(operation: DiskIO, sector: u64, count: u16, data_address: u64) -> (c:
    DiskCommand)
    requires
        (count << 9u16) != 0,
    ensures
        c.fis_length == 5,
        c.write == (operation == DiskIO::Write),
        c.prdt_length == 1,
        c.data_base_address == data_address,
        c.byte_count == (count << 9u16) as u32 - 1,
        c.interrupt_on_completion,
        c.fis.fis_type == FIS_TYPE_REG_H2D,
        c.fis.command_control,
        c.fis.command == if operation == DiskIO::Read {
            ATA_COMMAND_READ_DMA_EX
        } else {
            ATA_COMMAND_WRITE_DMA_EX
        },
        seq![c.fis.lba_0, c.fis.lba_1, c.fis.lba_2, c.fis.lba_3, c.fis.lba_4, c.fis.lba_5]
            == lba_bytes(sector),
        c.fis.device_register == 0x40,
        c.fis.count == count & 0xFF,
{
    let sector_l = sector as u32;
    let sector_h = (sector >> 32) as u32;
    let lba_0 = (sector_l & 0xFF) as u8;
    let lba_1 = ((sector_l >> 8) & 0xFF) as u8;
    let lba_2 = ((sector_l >> 16) & 0xFF) as u8;
    let lba_3 = (sector_h & 0xFF) as u8;
    let lba_4 = ((sector_h >> 8) & 0xFF) as u8;
    let lba_5 = ((sector_h >> 16) & 0xFF) as u8;
    proof {
        assert((sector as u32 & 0xFF) as u8 == (sector & 0xFF) as u8) by (bit_vector);
        assert(((sector as u32 >> 8u32) & 0xFF) as u8 == ((sector >> 8u64) & 0xFF) as u8)
            by (bit_vector);
        assert(((sector as u32 >> 16u32) & 0xFF) as u8 == ((sector >> 16u64) & 0xFF) as u8)
            by (bit_vector);
        assert((((sector >> 32u64) as u32) & 0xFF) as u8 == ((sector >> 32u64) & 0xFF) as u8)
            by (bit_vector);
        assert(((((sector >> 32u64) as u32) >> 8u32) & 0xFF) as u8 == ((sector >> 40u64) & 0xFF)
            as u8) by (bit_vector);
        assert(((((sector >> 32u64) as u32) >> 16u32) & 0xFF) as u8 == ((sector >> 48u64)
            & 0xFF) as u8) by (bit_vector);
        assert(seq![lba_0, lba_1, lba_2, lba_3, lba_4, lba_5] =~= lba_bytes(sector));
    }
    let command = match operation {
        DiskIO::Read => ATA_COMMAND_READ_DMA_EX,
        DiskIO::Write => ATA_COMMAND_WRITE_DMA_EX,
    };
    let write = match operation {
        DiskIO::Read => false,
        DiskIO::Write => true,
    };
    DiskCommand {
        fis_length: 5,
        write,
        prdt_length: 1,
        data_base_address: data_address,
        byte_count: (count << 9) as u32 - 1,
        interrupt_on_completion: true,
        fis: FISRegH2D {
            fis_type: FIS_TYPE_REG_H2D,
            command_control: true,
            command,
            lba_0,
            lba_1,
            lba_2,
            lba_3,
            lba_4,
            lba_5,
            device_register: 0x40,
            count: count & 0xFF,
        },
    }
}

/// What to do while waiting for the port to be free before a command is
/// issued.
#[derive(Clone, Copy, Debug, PartialEq, Eq, Structural)]
pub enum PortWait {
    /// Read the task file again, counting one more try.
    Wait,
    /// The port is free: issue the command.
    Issue,
    /// The port stayed busy for too long.
    Fail(AHCIError),
}

/// Whether the task file says the device is busy or requests data.
pub open spec fn port_busy(task_file_data: u32) -> bool {
    task_file_data & ATA_STATUS_BUSY_OR_DRQ != 0
}

/// The next step of the wait, after `spin` tries, the task file now reading
/// `task_file_data`: keep waiting while the device is busy and tries are
/// left, fail once they are used up, else issue the command.
pub fn wait_step(task_file_data: u32, spin: u32) -> (w: PortWait)
    requires
        spin <= SPIN_LIMIT,
    ensures
        w == if port_busy(task_file_data) && spin < SPIN_LIMIT {
            PortWait::Wait
        } else if spin == SPIN_LIMIT {
            PortWait::Fail(AHCIError::PortCommunicationError)
        } else {
            PortWait::Issue
        },
{
    if (task_file_data & ATA_STATUS_BUSY_OR_DRQ) != 0 && spin < SPIN_LIMIT {
        PortWait::Wait
    } else if spin == SPIN_LIMIT {
        PortWait::Fail(AHCIError::PortCommunicationError)
    } else {
        PortWait::Issue
    }
}

/// How an issued command stands, the port reading `command_issue` and
/// `interrupt_status`: done once the issue bits are clear, failed on a task
/// file error, else still running (`None`).
pub fn completion_step(operation: DiskIO, command_issue: u32, interrupt_status: u32) -> (r: Option<
    Result<(), AHCIError>,
>)
    ensures
        r == if command_issue == 0 {
            Some(Ok(()))
        } else if interrupt_status & HBA_PORT_TASK_FILE_ERROR != 0 {
            Some(
                Err(
                    if operation == DiskIO::Read {
                        AHCIError::DiskReadError
                    } else {
                        AHCIError::DiskWriteError
                    },
                ),
            )
        } else {
            None
        },
{
    if command_issue == 0 {
        return Some(Ok(()));
    }
    if interrupt_status & HBA_PORT_TASK_FILE_ERROR != 0 {
        return Some(
            Err(
                match operation {
                    DiskIO::Read => AHCIError::DiskReadError,
                    DiskIO::Write => AHCIError::DiskWriteError,
                },
            ),
        );
    }
    None
}

/// The command status with FIS receive and command processing started.
pub fn start_commands_status(command_status: u32) -> (s: u32)
    ensures
        s == command_status | HBA_COMMAND_FRE | HBA_COMMAND_ST,
{
    command_status | HBA_COMMAND_FRE | HBA_COMMAND_ST
}

/// The command status with FIS receive and command processing stopped.
pub fn stop_commands_status(command_status: u32) -> (s: u32)
    ensures
        s == command_status & !HBA_COMMAND_FRE & !HBA_COMMAND_ST,
{
    command_status & !HBA_COMMAND_FRE & !HBA_COMMAND_ST
}

/// Whether the command list is still running: starting waits for it to stop.
pub fn command_list_running(command_status: u32) -> (r: bool)
    ensures
        r == (command_status & HBA_COMMAND_CR != 0),
{
    command_status & HBA_COMMAND_CR != 0
}

/// Whether stopping must still wait: the command list and FIS receive both
/// run.
pub fn stop_pending(command_status: u32) -> (r: bool)
    ensures
        r == (command_status & HBA_COMMAND_CR != 0 && command_status & HBA_COMMAND_FR != 0),
{
    command_status & HBA_COMMAND_CR != 0 && command_status & HBA_COMMAND_FR != 0
}

/// The command table address of command slot `slot` when its table frame is
/// at `frame`: slot `i` uses the bytes from `i * 256` on.
pub fn command_table_address(frame: u64, slot: u64) -> (a: u64)
    requires
        slot < 32,
        frame + slot * 256 <= u64::MAX,
    ensures
        a == frame + slot * 256,
{
    assert(slot << 8u64 == slot * 256) by (bit_vector)
        requires
            slot < 32,
    ;
    frame + (slot << 8)
}

/// Every port that probing finds is implemented, has a SATA or SATAPI
/// device, and comes after the ones before it.
pub proof fn lemma_usable_ports_sound(implemented: u32, ports: Seq<HBAPort>, n: nat)
    requires
        n <= 32,
    ensures
        forall|j: int|
            0 <= j < usable_ports(implemented, ports, n).len() ==> {
                let p = #[trigger] usable_ports(implemented, ports, n)[j];
                let t = port_type_of(
                    ports[p.port_number as int].sata_status,
                    ports[p.port_number as int].signature,
                );
                &&& p.port_number < n
                &&& implemented & (1u32 << p.port_number as u32) != 0
                &&& (t == PortType::SATA || t == PortType::SATAPI)
                &&& p.port_type == t
            },
        forall|j: int, k: int|
            0 <= j < k < usable_ports(implemented, ports, n).len() ==> usable_ports(
                implemented,
                ports,
                n,
            )[j].port_number < usable_ports(implemented, ports, n)[k].port_number,
    decreases n,
{
    if n > 0 {
        lemma_usable_ports_sound(implemented, ports, (n - 1) as nat);
    }
}

/// The size of a drive's sector in bytes.
pub const SECTOR_SIZE: u64 = 512;

/// A drive on one port of an AHCI controller, read and written from a byte
/// position.  Its last byte's position is `end`, which starts at zero.
pub struct AHCIDrive {
    port: usize,
    offset: u64,
    end: u64,
}

/// The sectors that a transfer of `len` bytes from byte `offset` on moves:
/// the sector the offset lies in, the number of sectors from it up to and
/// including the one that the byte after the transfer lies in, and where
/// the transfer starts within the first sector.
pub open spec fn sector_span(offset: int, len: int) -> (int, int, int) {
    (offset / 512, (offset + len) / 512 - offset / 512 + 1, offset % 512)
}

/// The name of the drive on port `port`: `Drive` and the port in decimal.
pub open spec fn drive_name(port: nat) -> Seq<u8> {
    seq![68u8, 114u8, 105u8, 118u8, 101u8] + decimal_digits(port)
}

impl AHCIDrive {
    pub closed spec fn spec_port(&self) -> usize {
        self.port
    }

    /// The byte position that reads and writes start at.
    pub closed spec fn spec_offset(&self) -> u64 {
        self.offset
    }

    /// The position of the drive's last byte.
    pub closed spec fn spec_end(&self) -> u64 {
        self.end
    }

    /// The drive on port `port` of its controller, which has 32.
    pub fn new(port: usize) -> (d: AHCIDrive)
        requires
            port < 32,
        ensures
            d.spec_port() == port,
            d.spec_offset() == 0,
            d.spec_end() == 0,
    {
        AHCIDrive { port, offset: 0, end: 0 }
    }

    /// The byte position that reads and writes start at.
    pub fn offset(&self) -> (o: u64)
        ensures
            o == self.spec_offset(),
    {
        self.offset
    }

    /// Moves to byte `position`; a position past the drive's last byte is
    /// refused and changes nothing.
    pub fn seek(&mut self, position: u64) -> (r: Result<(), Error>)
        ensures
            final(self).spec_port() == old(self).spec_port(),
            final(self).spec_end() == old(self).spec_end(),
            old(self).spec_end() < position ==> r == Err::<(), Error>(Error::InvalidSeek)
                && final(self).spec_offset() == old(self).spec_offset(),
            position <= old(self).spec_end() ==> r == Ok::<(), Error>(())
                && final(self).spec_offset() == position,
    {
        if self.end < position {
            return Err(Error::InvalidSeek);
        }
        self.offset = position;
        Ok(())
    }

    /// The number of bytes the drive holds: one more than its last byte's
    /// position.
    pub fn size(&self) -> (n: u64)
        requires
            self.spec_end() < u64::MAX,
        ensures
            n == self.spec_end() + 1,
    {
        self.end + 1
    }

    /// The size of a block in bytes.
    pub fn block_size(&self) -> (n: usize)
        ensures
            n == SECTOR_SIZE,
    {
        512
    }

    /// The sectors that a read or write of `len` bytes from the position on
    /// moves: the first sector, their number and the transfer's start within
    /// the first.  The drive moves whole sectors, and a write reads them, puts
    /// the bytes in at that start and writes them back.
    pub fn transfer_span(&self, len: usize) -> (r: (u64, u64, usize))
        requires
            self.spec_offset() + len <= u64::MAX,
        ensures
            (r.0 as int, r.1 as int, r.2 as int) == sector_span(self.spec_offset() as int, len as int),
    {
        let sector = self.offset / SECTOR_SIZE;
        let count = ((self.offset + len as u64) / SECTOR_SIZE - sector) + 1;
        assert((self.offset + len) / 512 >= self.offset / 512) by (nonlinear_arith)
            requires
                len >= 0,
        ;
        (sector, count, (self.offset % SECTOR_SIZE) as usize)
    }

}

impl Device for AHCIDrive {
    /// A drive names its path when its port is one of the controller's 32.
    open spec fn has_device_path(&self) -> bool {
        self.spec_port() < 32
    }

    /// `Storage`, `AHCI` and the drive's name.
    open spec fn spec_device_path(&self) -> Seq<Seq<char>> {
        seq!["Storage"@, "AHCI"@, ascii_chars(drive_name(self.spec_port() as nat))]
    }

    /// The drive's path among the devices: `Storage`, `AHCI` and the drive's
    /// name.
    fn device_path(&self) -> (p: Vec<String>) {
        let mut name: Vec<u8> = Vec::new();
        name.push(68u8);
        name.push(114u8);
        name.push(105u8);
        name.push(118u8);
        name.push(101u8);
        let ghost prefix = name@;
        push_decimal(&mut name, self.port as u32);
        proof {
            assert(prefix =~= seq![68u8, 114u8, 105u8, 118u8, 101u8]);
            assert(name@ =~= drive_name(self.port as nat));
            lemma_decimal_digits_ascii(self.port as nat);
            let d = decimal_digits(self.port as nat);
            assert forall|i: int| 0 <= i < name@.len() implies #[trigger] name@[i] < 128 by {
                if i >= 5 {
                    assert(name@[i] == d[i - 5]);
                }
            }
        }
        let mut p: Vec<String> = Vec::new();
        p.push(String::from_str("Storage"));
        p.push(String::from_str("AHCI"));
        p.push(ascii_string(name));
        proof {
            assert(path_keys(p@) =~= self.spec_device_path());
        }
        p
    }
}

} // verus!
