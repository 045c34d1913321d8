use vstd::prelude::*;
use crate::bytes::{le_u32, read_u32_le};
use crate::text::{ascii_chars, ascii_string, decimal_digits, push_decimal, lemma_decimal_digits_ascii};

verus! {

/// The size in bytes of the local APIC's register page that is described.
pub const APIC_REGISTERS_SIZE: usize = 0x400;
/// The enable bit of the APIC base MSR's low half.
pub const IA32_APIC_BASE_MSR_ENABLE: u32 = 0x800;

/// The scalar registers of a local APIC, read from its register page.  The
/// in-service, trigger mode, interrupt request and interrupt command arrays
/// are not held.
#[derive(Clone, Copy)]
pub struct APICRegisters {
    pub lapic_id: u32,
    pub lapic_version: u32,
    pub task_priority: u32,
    pub arbitration_priority: u32,
    pub processor_priority: u32,
    pub eoi_register: u32,
    pub remote_read: u32,
    pub logical_destination: u32,
    pub destination_format: u32,
    pub spurious_interrupt_vector: u32,
    pub error_status: u32,
    pub lvt_corrected_machine_check_interrupt: u32,
    pub lvt_timer: u32,
    pub lvt_thermal_sensor: u32,
    pub lvt_performance_monitoring_counters: u32,
    pub lvt_lint0: u32,
    pub lvt_lint1: u32,
    pub lvt_error: u32,
    pub timer_initial_count: u32,
    pub timer_current_count: u32,
    pub timer_divide_configuration: u32,
}

impl APICRegisters {
    /// The registers laid out in the first 0x400 bytes of `b`; `None` when
    /// `b` is shorter.
    pub fn parse(b: &[u8]) -> (r: Option<APICRegisters>)
        ensures
            b@.len() < APIC_REGISTERS_SIZE ==> r is None,
            b@.len() >= APIC_REGISTERS_SIZE ==> (r matches Some(a) && {
                &&& a.lapic_id == le_u32(b@, 0x20)
                &&& a.lapic_version == le_u32(b@, 0x30)
                &&& a.task_priority == le_u32(b@, 0x80)
                &&& a.arbitration_priority == le_u32(b@, 0x90)
                &&& a.processor_priority == le_u32(b@, 0xA0)
                &&& a.eoi_register == le_u32(b@, 0xB0)
                &&& a.remote_read == le_u32(b@, 0xC0)
                &&& a.logical_destination == le_u32(b@, 0xD0)
                &&& a.destination_format == le_u32(b@, 0xE0)
                &&& a.spurious_interrupt_vector == le_u32(b@, 0xF0)
                &&& a.error_status == le_u32(b@, 0x280)
                &&& a.lvt_corrected_machine_check_interrupt == le_u32(b@, 0x2F0)
                &&& a.lvt_timer == le_u32(b@, 0x320)
                &&& a.lvt_thermal_sensor == le_u32(b@, 0x330)
                &&& a.lvt_performance_monitoring_counters == le_u32(b@, 0x340)
                &&& a.lvt_lint0 == le_u32(b@, 0x350)
                &&& a.lvt_lint1 == le_u32(b@, 0x360)
                &&& a.lvt_error == le_u32(b@, 0x370)
                &&& a.timer_initial_count == le_u32(b@, 0x380)
                &&& a.timer_current_count == le_u32(b@, 0x390)
                &&& a.timer_divide_configuration == le_u32(b@, 0x3E0)
            }),
    {
        if b.len() < APIC_REGISTERS_SIZE {
            return None;
        }
        Some(
            APICRegisters {
                lapic_id: read_u32_le(b, 0x20),
                lapic_version: read_u32_le(b, 0x30),
                task_priority: read_u32_le(b, 0x80),
                arbitration_priority: read_u32_le(b, 0x90),
                processor_priority: read_u32_le(b, 0xA0),
                eoi_register: read_u32_le(b, 0xB0),
                remote_read: read_u32_le(b, 0xC0),
                logical_destination: read_u32_le(b, 0xD0),
                destination_format: read_u32_le(b, 0xE0),
                spurious_interrupt_vector: read_u32_le(b, 0xF0),
                error_status: read_u32_le(b, 0x280),
                lvt_corrected_machine_check_interrupt: read_u32_le(b, 0x2F0),
                lvt_timer: read_u32_le(b, 0x320),
                lvt_thermal_sensor: read_u32_le(b, 0x330),
                lvt_performance_monitoring_counters: read_u32_le(b, 0x340),
                lvt_lint0: read_u32_le(b, 0x350),
                lvt_lint1: read_u32_le(b, 0x360),
                lvt_error: read_u32_le(b, 0x370),
                timer_initial_count: read_u32_le(b, 0x380),
                timer_current_count: read_u32_le(b, 0x390),
                timer_divide_configuration: read_u32_le(b, 0x3E0),
            },
        )
    }
}

/// The local APIC's physical base address from the APIC base MSR's two
/// halves, read as `high` (the first) and `low` (the second): bits 12 to 31
/// of `high`, with bits 0 to 3 of `low` as bits 32 to 35.
pub open spec fn apic_base_address(high: u32, low: u32) -> u64 {
    ((high & 0xfffff000) as u64) | (((low as u64) & 0x0f) << 32u64)
}

/// The base address the APIC base MSR gives, and the two halves written
/// back to enable the APIC at it: the base's bits 12 to 35 masked to 16 to 35
/// in 32 bits, with the enable bit, and bits 32 to 35 of the base.
pub fn apic_base_enable(high: u32, low: u32) -> (r: (u64, u32, u32))
    ensures
        r.0 == apic_base_address(high, low),
        r.1 == ((apic_base_address(high, low) & 0xfffff0000) as u32) | IA32_APIC_BASE_MSR_ENABLE,
        r.2 == ((apic_base_address(high, low) >> 32u64) & 0x0f) as u32,
{
    let base: u64 = ((high & 0xfffff000) as u64) | (((low as u64) & 0x0f) << 32);
    let new_high = ((base & 0xfffff0000) as u32) | IA32_APIC_BASE_MSR_ENABLE;
    let new_low = ((base >> 32) & 0x0f) as u32;
    (base, new_high, new_low)
}

/// The value the spurious interrupt vector register is set to: the APIC
/// enabled, spurious interrupts on vector 0xFF.
pub const SPURIOUS_VECTOR_ENABLE: u32 = 0x1FF;

/// An interrupt source override from the MADT: an ISA interrupt routed to a
/// global system interrupt with its polarity and trigger mode (0 for the bus
/// default, 1 and 3 for the two settings).
#[derive(Clone, Copy, Debug, PartialEq, Eq, Structural)]
pub struct InterruptSourceOverride {
    pub irq_source: u8,
    pub global_system_interrupt: u32,
    pub polarity: u8,
    pub trigger_mode: u8,
}

/// A redirection table entry of an I/O APIC.
#[derive(Clone, Copy, Debug, PartialEq, Eq, Structural)]
pub struct RedirectionEntry {
    pub vector: u8,
    pub delivery_mode: u8,
    pub destination_mode: bool,
    pub delivery_status: bool,
    pub pin_polarity: bool,
    pub remote_irr: bool,
    pub trigger_mode: bool,
    pub mask: bool,
    pub destination: u8,
}

/// Whether `v` is a polarity or trigger mode value the MADT defines.
pub open spec fn defined_mode(v: u8) -> bool {
    v == 0 || v == 1 || v == 3
}

/// The entry that routes `over` to the processor with local APIC id
/// `bsp_lapic_id`: fixed delivery in physical mode, unmasked, active low and
/// level triggered only when the override says so, and the ISA interrupt's
/// vector from 32 on, interrupt 2 taking vector 32.
pub open spec fn override_entry(over: InterruptSourceOverride, bsp_lapic_id: u8) -> RedirectionEntry {
    RedirectionEntry {
        vector: (32 + if over.irq_source == 2 {
            0
        } else {
            over.irq_source as int
        }) as u8,
        delivery_mode: 0,
        destination_mode: false,
        delivery_status: false,
        pin_polarity: over.polarity == 3,
        remote_irr: false,
        trigger_mode: over.trigger_mode == 3,
        mask: false,
        destination: bsp_lapic_id,
    }
}

/// The trigger mode an interrupt source override gives.
#[derive(Clone, Copy, Debug, PartialEq, Eq, Structural)]
pub enum TriggerMode {
    ConformsToSpecs,
    Edge,
    Level,
}

impl TriggerMode {
    /// The mode that `v` encodes: 0, 1 or 3; no other value is one.
    pub fn from_u8(v: u8) -> (m: Option<TriggerMode>)
        ensures
            m == if v == 0 {
                Some(TriggerMode::ConformsToSpecs)
            } else if v == 1 {
                Some(TriggerMode::Edge)
            } else if v == 3 {
                Some(TriggerMode::Level)
            } else {
                None
            },
    {
        if v == 0 {
            Some(TriggerMode::ConformsToSpecs)
        } else if v == 1 {
            Some(TriggerMode::Edge)
        } else if v == 3 {
            Some(TriggerMode::Level)
        } else {
            None
        }
    }

    /// The I/O APIC's trigger mode for it: level only for level, edge for
    /// edge and for the bus default.
    pub fn apic_mode(self) -> (m: APICTriggerMode)
        ensures
            m == if self == TriggerMode::Level {
                APICTriggerMode::Level
            } else {
                APICTriggerMode::Edge
            },
    {
        match self {
            TriggerMode::ConformsToSpecs => APICTriggerMode::Edge,
            TriggerMode::Edge => APICTriggerMode::Edge,
            TriggerMode::Level => APICTriggerMode::Level,
        }
    }
}

/// The trigger mode an I/O APIC entry holds.
#[derive(Clone, Copy, Debug, PartialEq, Eq, Structural)]
pub enum APICTriggerMode {
    Edge,
    Level,
}

impl APICTriggerMode {
    /// The mode's bit: 0 for edge, 1 for level.
    pub fn value(self) -> (v: u8)
        ensures
            v == if self == APICTriggerMode::Level {
                1u8
            } else {
                0u8
            },
    {
        match self {
            APICTriggerMode::Edge => 0,
            APICTriggerMode::Level => 1,
        }
    }
}

/// The polarity an interrupt source override gives.
#[derive(Clone, Copy, Debug, PartialEq, Eq, Structural)]
pub enum Polarity {
    ConformsToSpecs,
    ActiveHigh,
    ActiveLow,
}

impl Polarity {
    /// The polarity that `v` encodes: 0, 1 or 3; no other value is one.
    pub fn from_u8(v: u8) -> (p: Option<Polarity>)
        ensures
            p == if v == 0 {
                Some(Polarity::ConformsToSpecs)
            } else if v == 1 {
                Some(Polarity::ActiveHigh)
            } else if v == 3 {
                Some(Polarity::ActiveLow)
            } else {
                None
            },
    {
        if v == 0 {
            Some(Polarity::ConformsToSpecs)
        } else if v == 1 {
            Some(Polarity::ActiveHigh)
        } else if v == 3 {
            Some(Polarity::ActiveLow)
        } else {
            None
        }
    }

    /// The I/O APIC's polarity for it: active low only for active low,
    /// active high for active high and for the bus default.
    pub fn apic_polarity(self) -> (p: APICPolarity)
        ensures
            p == if self == Polarity::ActiveLow {
                APICPolarity::ActiveLow
            } else {
                APICPolarity::ActiveHigh
            },
    {
        match self {
            Polarity::ConformsToSpecs => APICPolarity::ActiveHigh,
            Polarity::ActiveHigh => APICPolarity::ActiveHigh,
            Polarity::ActiveLow => APICPolarity::ActiveLow,
        }
    }
}

/// The polarity an I/O APIC entry holds.
#[derive(Clone, Copy, Debug, PartialEq, Eq, Structural)]
pub enum APICPolarity {
    ActiveHigh,
    ActiveLow,
}

impl APICPolarity {
    /// The polarity's bit: 0 for active high, 1 for active low.
    pub fn value(self) -> (v: u8)
        ensures
            v == if self == APICPolarity::ActiveLow {
                1u8
            } else {
                0u8
            },
    {
        match self {
            APICPolarity::ActiveHigh => 0,
            APICPolarity::ActiveLow => 1,
        }
    }
}

/// How an I/O APIC entry names its destination.
#[derive(Clone, Copy, Debug, PartialEq, Eq, Structural)]
pub enum DestinationMode {
    Physical,
    Logical,
}

impl DestinationMode {
    /// The mode's bit: 0 for physical, 1 for logical.
    pub fn value(self) -> (v: u8)
        ensures
            v == if self == DestinationMode::Logical {
                1u8
            } else {
                0u8
            },
    {
        match self {
            DestinationMode::Physical => 0,
            DestinationMode::Logical => 1,
        }
    }
}

/// How an I/O APIC entry delivers its interrupt.
#[derive(Clone, Copy, Debug, PartialEq, Eq, Structural)]
pub enum DeliveryMode {
    Fixed,
    LowestPriority,
    SMI,
    NMI,
    Init,
    ExtInt,
}

impl DeliveryMode {
    /// The mode's three-bit code.
    pub fn value(self) -> (v: u8)
        ensures
            v == match self {
                DeliveryMode::Fixed => 0u8,
                DeliveryMode::LowestPriority => 1u8,
                DeliveryMode::SMI => 2u8,
                DeliveryMode::NMI => 4u8,
                DeliveryMode::Init => 5u8,
                DeliveryMode::ExtInt => 7u8,
            },
    {
        match self {
            DeliveryMode::Fixed => 0,
            DeliveryMode::LowestPriority => 1,
            DeliveryMode::SMI => 2,
            DeliveryMode::NMI => 4,
            DeliveryMode::Init => 5,
            DeliveryMode::ExtInt => 7,
        }
    }
}

/// The redirection entry for `over`.
pub fn redirection_entry(over: InterruptSourceOverride, bsp_lapic_id: u8) -> (e: RedirectionEntry)
    requires
        defined_mode(over.polarity),
        defined_mode(over.trigger_mode),
        over.irq_source <= 223,
    ensures
        e == override_entry(over, bsp_lapic_id),
        e.trigger_mode <==> over.trigger_mode == 3,
        e.pin_polarity <==> over.polarity == 3,
{
    proof {
        lemma_override_modes(over, bsp_lapic_id, over.trigger_mode, over.polarity);
    }
    let source = if over.irq_source == 2 {
        0
    } else {
        over.irq_source
    };
    let polarity = Polarity::from_u8(over.polarity).unwrap().apic_polarity();
    let trigger = TriggerMode::from_u8(over.trigger_mode).unwrap().apic_mode();
    RedirectionEntry {
        vector: 32 + source,
        delivery_mode: DeliveryMode::Fixed.value(),
        destination_mode: DestinationMode::Physical.value() == 1,
        delivery_status: false,
        pin_polarity: polarity.value() == 1,
        remote_irr: false,
        trigger_mode: trigger.value() == 1,
        mask: false,
        destination: bsp_lapic_id,
    }
}

/// How an override's polarity and trigger mode set its entry: the entry is
/// level triggered exactly when the trigger mode is 3 (level), and edge
/// triggered for 1 (edge) and for 0 (the bus default, edge for ISA
/// interrupts); likewise it is active low exactly when the polarity is 3
/// (active low), and active high for 1 and for 0.  The rest of the entry
/// does not depend on them.
pub proof fn lemma_override_modes(over: InterruptSourceOverride, bsp_lapic_id: u8, mode: u8, polarity: u8)
    requires
        defined_mode(over.polarity),
        defined_mode(over.trigger_mode),
        defined_mode(mode),
        defined_mode(polarity),
    ensures
        over.trigger_mode == 3 ==> override_entry(over, bsp_lapic_id).trigger_mode,
        over.trigger_mode == 1 ==> !override_entry(over, bsp_lapic_id).trigger_mode,
        over.trigger_mode == 0 ==> !override_entry(over, bsp_lapic_id).trigger_mode,
        over.polarity == 3 ==> override_entry(over, bsp_lapic_id).pin_polarity,
        over.polarity == 1 ==> !override_entry(over, bsp_lapic_id).pin_polarity,
        over.polarity == 0 ==> !override_entry(over, bsp_lapic_id).pin_polarity,
        ({
            let other = InterruptSourceOverride { trigger_mode: mode, polarity, ..over };
            let e = override_entry(over, bsp_lapic_id);
            let f = override_entry(other, bsp_lapic_id);
            RedirectionEntry { trigger_mode: e.trigger_mode, pin_polarity: e.pin_polarity, ..f } == e
        }),
{
}

/// The low 32 bits of an entry: vector, delivery mode, destination mode,
/// delivery status, polarity, remote IRR, trigger mode, mask.
pub open spec fn entry_low(e: RedirectionEntry) -> u32 {
    (e.vector as u32) | (((e.delivery_mode & 7) as u32) << 8u32) | ((if e.destination_mode {
        1u32
    } else {
        0u32
    }) << 11u32) | ((if e.delivery_status {
        1u32
    } else {
        0u32
    }) << 12u32) | ((if e.pin_polarity {
        1u32
    } else {
        0u32
    }) << 13u32) | ((if e.remote_irr {
        1u32
    } else {
        0u32
    }) << 14u32) | ((if e.trigger_mode {
        1u32
    } else {
        0u32
    }) << 15u32) | ((if e.mask {
        1u32
    } else {
        0u32
    }) << 16u32)
}

/// The high 32 bits of an entry: the destination in the top byte.
pub open spec fn entry_high(e: RedirectionEntry) -> u32 {
    (e.destination as u32) << 24u32
}

fn bit(b: bool) -> (v: u32)
    ensures
        v == if b {
            1u32
        } else {
            0u32
        },
{
    if b {
        1
    } else {
        0
    }
}

/// The two register writes that store `e` at index `index` of the
/// redirection table: the low half to register `0x10 + 2 * index`, the high
/// half to the next.
pub fn redirection_writes(index: u32, e: RedirectionEntry) -> (w: ((u32, u32), (u32, u32)))
    requires
        0x10 + 2 * index + 1 <= u32::MAX,
    ensures
        w.0.0 == 0x10 + 2 * index,
        w.0.1 == entry_low(e),
        w.1.0 == 0x10 + 2 * index + 1,
        w.1.1 == entry_high(e),
{
    let low = (e.vector as u32) | (((e.delivery_mode & 7) as u32) << 8) | (bit(e.destination_mode)
        << 11) | (bit(e.delivery_status) << 12) | (bit(e.pin_polarity) << 13) | (bit(e.remote_irr)
        << 14) | (bit(e.trigger_mode) << 15) | (bit(e.mask) << 16);
    let high = (e.destination as u32) << 24;
    ((0x10 + 2 * index, low), (0x10 + 2 * index + 1, high))
}

/// The index of the redirection entry of global system interrupt `gsi` in an
/// I/O APIC whose interrupts start at `interrupt_base`.
pub fn redirection_index(gsi: u32, interrupt_base: u32) -> (i: u32)
    requires
        gsi >= interrupt_base,
    ensures
        i == gsi - interrupt_base,
{
    gsi - interrupt_base
}

/// The version and the number of redirection entries that an I/O APIC's
/// version register `value` reports: its low byte, and one more than its
/// bits 16 on, in 8 bits.
pub fn version_info(value: u32) -> (r: (u8, u8))
    ensures
        r.0 == (value as u8),
        r.1 == (((value >> 16u32) + 1) as u8),
{
    assert((value >> 16u32) + 1 <= u32::MAX) by (bit_vector);
    (value as u8, ((value >> 16) + 1) as u8)
}

/// The entry that a redirection table holds in the two registers `low`
/// (the first) and `high` (the second).
pub open spec fn entry_from(low: u32, high: u32) -> RedirectionEntry {
    RedirectionEntry {
        vector: (low & 0xff) as u8,
        delivery_mode: ((low >> 8u32) & 7) as u8,
        destination_mode: (low >> 11u32) & 1 == 1,
        delivery_status: (low >> 12u32) & 1 == 1,
        pin_polarity: (low >> 13u32) & 1 == 1,
        remote_irr: (low >> 14u32) & 1 == 1,
        trigger_mode: (low >> 15u32) & 1 == 1,
        mask: (low >> 16u32) & 1 == 1,
        destination: (high >> 24u32) as u8,
    }
}

/// The entry read from the two registers of a redirection table slot.
pub fn redirection_entry_from(low: u32, high: u32) -> (e: RedirectionEntry)
    ensures
        e == entry_from(low, high),
{
    RedirectionEntry {
        vector: (low & 0xff) as u8,
        delivery_mode: ((low >> 8) & 7) as u8,
        destination_mode: (low >> 11) & 1 == 1,
        delivery_status: (low >> 12) & 1 == 1,
        pin_polarity: (low >> 13) & 1 == 1,
        remote_irr: (low >> 14) & 1 == 1,
        trigger_mode: (low >> 15) & 1 == 1,
        mask: (low >> 16) & 1 == 1,
        destination: (high >> 24) as u8,
    }
}

/// An entry written to a redirection table slot reads back as itself, when
/// its delivery mode fits the three bits it is stored in.
pub proof fn lemma_redirection_roundtrip(e: RedirectionEntry)
    requires
        e.delivery_mode < 8,
    ensures
        entry_from(entry_low(e), entry_high(e)) == e,
{
    let v = e.vector;
    let dm = e.delivery_mode;
    let b0 = e.destination_mode;
    let b1 = e.delivery_status;
    let b2 = e.pin_polarity;
    let b3 = e.remote_irr;
    let b4 = e.trigger_mode;
    let b5 = e.mask;
    let d = e.destination;
    let low = entry_low(e);
    let high = entry_high(e);
    assert(low == (v as u32) | (((dm & 7) as u32) << 8u32) | ((if b0 {
        1u32
    } else {
        0u32
    }) << 11u32) | ((if b1 {
        1u32
    } else {
        0u32
    }) << 12u32) | ((if b2 {
        1u32
    } else {
        0u32
    }) << 13u32) | ((if b3 {
        1u32
    } else {
        0u32
    }) << 14u32) | ((if b4 {
        1u32
    } else {
        0u32
    }) << 15u32) | ((if b5 {
        1u32
    } else {
        0u32
    }) << 16u32));
    assert(high == (d as u32) << 24u32);
    assert((low & 0xff) as u8 == v && ((low >> 8u32) & 7) as u8 == dm && ((low >> 11u32) & 1 == 1)
        == b0 && ((low >> 12u32) & 1 == 1) == b1 && ((low >> 13u32) & 1 == 1) == b2 && ((low
        >> 14u32) & 1 == 1) == b3 && ((low >> 15u32) & 1 == 1) == b4 && ((low >> 16u32) & 1 == 1)
        == b5) by (bit_vector)
        requires
            dm < 8,
            low == (v as u32) | (((dm & 7) as u32) << 8u32) | ((if b0 {
                1u32
            } else {
                0u32
            }) << 11u32) | ((if b1 {
                1u32
            } else {
                0u32
            }) << 12u32) | ((if b2 {
                1u32
            } else {
                0u32
            }) << 13u32) | ((if b3 {
                1u32
            } else {
                0u32
            }) << 14u32) | ((if b4 {
                1u32
            } else {
                0u32
            }) << 15u32) | ((if b5 {
                1u32
            } else {
                0u32
            }) << 16u32),
    ;
    assert((high >> 24u32) as u8 == d) by (bit_vector)
        requires
            high == (d as u32) << 24u32,
    ;
}

/// The name of the I/O APIC with id `id`: `System/IOAPIC` and the id in
/// decimal.
pub open spec fn ioapic_name(id: nat) -> Seq<u8> {
    seq![83u8, 121u8, 115u8, 116u8, 101u8, 109u8, 47u8, 73u8, 79u8, 65u8, 80u8, 73u8, 67u8]
        + decimal_digits(id)
}

/// Whether the override can be routed by an I/O APIC whose interrupts start
/// at `base`: its modes are ones the MADT defines, its vector fits, and its
/// interrupt is the APIC's, at an index whose registers exist.
pub open spec fn routable(over: InterruptSourceOverride, base: u32) -> bool {
    &&& defined_mode(over.polarity)
    &&& defined_mode(over.trigger_mode)
    &&& over.irq_source <= 223
    &&& over.global_system_interrupt >= base
    &&& 0x10 + 2 * (over.global_system_interrupt - base) + 1 <= u32::MAX
}

/// An I/O APIC: where its registers are, which interrupts it serves and the
/// overrides it routes.
pub struct IOAPIC {
    pub base_address: u32,
    pub ioapic_id: u8,
    pub redirection_entries: u8,
    pub version: u8,
    pub interrupt_base: u32,
    pub interrupt_source_overrides: Vec<InterruptSourceOverride>,
    pub name: String,
}

impl IOAPIC {
    /// The APIC's name among the devices.
    pub open spec fn spec_name(&self) -> Seq<char> {
        self.name@
    }

    /// The I/O APIC with id `ioapic_id` whose registers start at
    /// `base_address` and whose interrupts start at `interrupt_base`; its
    /// version is read when it is set up.
    pub fn new(base_address: u32, ioapic_id: u8, interrupt_base: u32) -> (a: IOAPIC)
        ensures
            a.base_address == base_address,
            a.ioapic_id == ioapic_id,
            a.redirection_entries == 0,
            a.version == 0,
            a.interrupt_base == interrupt_base,
            a.interrupt_source_overrides@.len() == 0,
            a.spec_name() == ascii_chars(ioapic_name(ioapic_id as nat)),
    {
        let mut name: Vec<u8> = Vec::new();
        let prefix: [u8; 13] = [83u8, 121u8, 115u8, 116u8, 101u8, 109u8, 47u8, 73u8, 79u8, 65u8, 80u8, 73u8, 67u8];
        let mut i: usize = 0;
        while i < 13
            invariant
                i <= 13,
                name@ == prefix@.take(i as int),
            decreases 13 - i,
        {
            name.push(prefix[i]);
            i = i + 1;
            assert(name@ =~= prefix@.take(i as int));
        }
        push_decimal(&mut name, ioapic_id as u32);
        proof {
            assert(prefix@.take(13) =~= prefix@);
            assert(name@ =~= ioapic_name(ioapic_id as nat));
            lemma_decimal_digits_ascii(ioapic_id as nat);
            let d = decimal_digits(ioapic_id as nat);
            assert forall|k: int| 0 <= k < name@.len() implies #[trigger] name@[k] < 128 by {
                if k >= 13 {
                    assert(name@[k] == d[k - 13]);
                }
            }
        }
        IOAPIC {
            base_address,
            ioapic_id,
            redirection_entries: 0,
            version: 0,
            interrupt_base,
            interrupt_source_overrides: Vec::new(),
            name: ascii_string(name),
        }
    }

    /// The APIC's name among the devices.
    pub fn device_name(&self) -> (n: &String)
        ensures
            n@ == self.spec_name(),
    {
        &self.name
    }

    /// Sets the APIC up from the value of its version register: records the
    /// version and the number of redirection entries, and answers the
    /// register writes, in order, that route each override to the processor
    /// with local APIC id `bsp_lapic_id`: two per override, its entry's low
    /// half then its high half, at the index of its interrupt.
    pub fn init_device(&mut self, version_register: u32, bsp_lapic_id: u8) -> (writes: Vec<(u32, u32)>)
        requires
            forall|i: int|
                0 <= i < old(self).interrupt_source_overrides@.len() ==> routable(
                    #[trigger] old(self).interrupt_source_overrides@[i],
                    old(self).interrupt_base,
                ),
        ensures
            final(self).version == (version_register as u8),
            final(self).redirection_entries == (((version_register >> 16u32) + 1) as u8),
            final(self).base_address == old(self).base_address,
            final(self).ioapic_id == old(self).ioapic_id,
            final(self).interrupt_base == old(self).interrupt_base,
            final(self).interrupt_source_overrides@ == old(self).interrupt_source_overrides@,
            final(self).spec_name() == old(self).spec_name(),
            writes@.len() == 2 * old(self).interrupt_source_overrides@.len(),
            forall|i: int|
                0 <= i < old(self).interrupt_source_overrides@.len() ==> {
                    let over = #[trigger] old(self).interrupt_source_overrides@[i];
                    let index = over.global_system_interrupt - old(self).interrupt_base;
                    let e = override_entry(over, bsp_lapic_id);
                    &&& writes@[2 * i] == ((0x10 + 2 * index) as u32, entry_low(e))
                    &&& writes@[2 * i + 1] == ((0x10 + 2 * index + 1) as u32, entry_high(e))
                },
    {
        let (version, entries) = version_info(version_register);
        self.version = version;
        self.redirection_entries = entries;
        let mut writes: Vec<(u32, u32)> = Vec::new();
        let mut i: usize = 0;
        while i < self.interrupt_source_overrides.len()
            invariant
                i <= self.interrupt_source_overrides@.len(),
                self.interrupt_source_overrides@ == old(self).interrupt_source_overrides@,
                self.interrupt_base == old(self).interrupt_base,
                forall|k: int|
                    0 <= k < self.interrupt_source_overrides@.len() ==> routable(
                        #[trigger] self.interrupt_source_overrides@[k],
                        self.interrupt_base,
                    ),
                writes@.len() == 2 * i,
                forall|k: int|
                    0 <= k < i ==> {
                        let over = #[trigger] self.interrupt_source_overrides@[k];
                        let index = over.global_system_interrupt - self.interrupt_base;
                        let e = override_entry(over, bsp_lapic_id);
                        &&& writes@[2 * k] == ((0x10 + 2 * index) as u32, entry_low(e))
                        &&& writes@[2 * k + 1] == ((0x10 + 2 * index + 1) as u32, entry_high(e))
                    },
            decreases self.interrupt_source_overrides@.len() - i,
        {
            let over = self.interrupt_source_overrides[i];
            assert(routable(over, self.interrupt_base));
            let entry = redirection_entry(over, bsp_lapic_id);
            let index = redirection_index(over.global_system_interrupt, self.interrupt_base);
            let (first, second) = redirection_writes(index, entry);
            let ghost before = writes@;
            writes.push(first);
            writes.push(second);
            proof {
                assert forall|k: int| 0 <= k < i + 1 implies {
                    let over = #[trigger] self.interrupt_source_overrides@[k];
                    let index = over.global_system_interrupt - self.interrupt_base;
                    let e = override_entry(over, bsp_lapic_id);
                    &&& writes@[2 * k] == ((0x10 + 2 * index) as u32, entry_low(e))
                    &&& writes@[2 * k + 1] == ((0x10 + 2 * index + 1) as u32, entry_high(e))
                } by {
                    if k < i {
                        assert(writes@[2 * k] == before[2 * k]);
                        assert(writes@[2 * k + 1] == before[2 * k + 1]);
                    }
                }
            }
            i = i + 1;
        }
        writes
    }
}

} // verus!
