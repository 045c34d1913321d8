use vstd::prelude::*;
use crate::port::{PortWrite, port_write};

verus! {

pub const PIC_MASTER_PORT: u16 = 0x20;
pub const PIC_SLAVE_PORT: u16 = 0xA0;
pub const PIC_MASTER_DISABLE_PORT: u16 = 0xa1;
pub const PIC_SLAVE_DISABLE_PORT: u16 = 0x21;
pub const WAIT_PORT: u16 = 0x11;
pub const ICW1_ICW4: u8 = 0x01;
pub const ICW1_INIT: u8 = 0x10;
pub const ICW4_8086: u8 = 0x01;
pub const PIC_MASTER_OFFSET: u8 = 0x20;
pub const PIC_SLAVE_OFFSET: u8 = PIC_MASTER_OFFSET + 0x08;
pub const END_OF_INTERRUPT: u8 = 0x20;
pub const PIT_COMMAND_PORT: u16 = 0x43;
pub const PIT_DATA_PORT: u16 = 0x40;
/// The programmable interval timer's input frequency, in Hz.
pub const PIT_FREQUENCY: u32 = 1193180;
/// The timer interrupts per second.
pub const TIMER_HZ: u32 = 100;

/// The divisor that makes the timer tick `TIMER_HZ` times a second.
pub open spec fn pit_divisor() -> u16 {
    (PIT_FREQUENCY / TIMER_HZ) as u16
}

/// The writes that initialise both PICs, remapping their interrupts to
/// `PIC_MASTER_OFFSET` and `PIC_SLAVE_OFFSET` and restoring the masks
/// `master_mask` and `slave_mask` read before.  Each step but the last two is
/// followed by a write to the wait port.
pub open spec fn pic_init_writes(master_mask: u8, slave_mask: u8) -> Seq<PortWrite> {
    let wait = port_write(WAIT_PORT, 0);
    seq![
        port_write(PIC_MASTER_PORT, (ICW1_INIT + ICW1_ICW4) as u8), wait,
        port_write(PIC_SLAVE_PORT, (ICW1_INIT + ICW1_ICW4) as u8), wait,
        port_write((PIC_MASTER_PORT + 1) as u16, PIC_MASTER_OFFSET), wait,
        port_write((PIC_SLAVE_PORT + 1) as u16, PIC_SLAVE_OFFSET), wait,
        port_write((PIC_MASTER_PORT + 1) as u16, 4), wait,
        port_write((PIC_SLAVE_PORT + 1) as u16, 2), wait,
        port_write((PIC_MASTER_PORT + 1) as u16, ICW4_8086), wait,
        port_write((PIC_SLAVE_PORT + 1) as u16, ICW4_8086), wait,
        port_write((PIC_MASTER_PORT + 1) as u16, master_mask),
        port_write((PIC_SLAVE_PORT + 1) as u16, slave_mask),
    ]
}

/// The writes that set the timer to `TIMER_HZ`: the mode, then the divisor's
/// low and high byte.
pub open spec fn pit_init_writes() -> Seq<PortWrite> {
    seq![
        port_write(PIT_COMMAND_PORT, 0x36),
        port_write(PIT_DATA_PORT, (pit_divisor() & 0xFF) as u8),
        port_write(PIT_DATA_PORT, ((pit_divisor() >> 8) & 0xFF) as u8),
    ]
}

/// The two groups of writes that initialise the interrupt controllers and the
/// timer, each to be made with interrupts disabled.  `master_mask` and
/// `slave_mask` are the masks read from the data ports before.
pub fn init(master_mask: u8, slave_mask: u8) -> (writes: (Vec<PortWrite>, Vec<PortWrite>))
    ensures
        writes.0@ == pic_init_writes(master_mask, slave_mask),
        writes.1@ == pit_init_writes(),
{
    let master_data = PIC_MASTER_PORT + 1;
    let slave_data = PIC_SLAVE_PORT + 1;
    let wait = PortWrite::new(WAIT_PORT, 0);
    let mut pic: Vec<PortWrite> = Vec::new();
    pic.push(PortWrite::new(PIC_MASTER_PORT, ICW1_INIT + ICW1_ICW4));
    pic.push(wait);
    pic.push(PortWrite::new(PIC_SLAVE_PORT, ICW1_INIT + ICW1_ICW4));
    pic.push(wait);
    pic.push(PortWrite::new(master_data, PIC_MASTER_OFFSET));
    pic.push(wait);
    pic.push(PortWrite::new(slave_data, PIC_SLAVE_OFFSET));
    pic.push(wait);
    pic.push(PortWrite::new(master_data, 4));
    pic.push(wait);
    pic.push(PortWrite::new(slave_data, 2));
    pic.push(wait);
    pic.push(PortWrite::new(master_data, ICW4_8086));
    pic.push(wait);
    pic.push(PortWrite::new(slave_data, ICW4_8086));
    pic.push(wait);
    pic.push(PortWrite::new(master_data, master_mask));
    pic.push(PortWrite::new(slave_data, slave_mask));
    let divisor: u16 = (PIT_FREQUENCY / TIMER_HZ) as u16;
    let mut pit: Vec<PortWrite> = Vec::new();
    pit.push(PortWrite::new(PIT_COMMAND_PORT, 0x36));
    pit.push(PortWrite::new(PIT_DATA_PORT, (divisor & 0xFF) as u8));
    pit.push(PortWrite::new(PIT_DATA_PORT, ((divisor >> 8) & 0xFF) as u8));
    proof {
        assert(pic@ =~= pic_init_writes(master_mask, slave_mask));
        assert(pit@ =~= pit_init_writes());
    }
    (pic, pit)
}

/// The data port of the PIC that serves `irq`.
pub open spec fn irq_port(irq: u8) -> u16 {
    if irq < 8 {
        (PIC_MASTER_PORT + 1) as u16
    } else {
        (PIC_SLAVE_PORT + 1) as u16
    }
}

/// The bit of `irq` in its PIC's mask.
pub open spec fn irq_bit(irq: u8) -> u8 {
    if irq < 8 {
        irq
    } else {
        (irq - 8) as u8
    }
}

/// The data port of the PIC that serves `irq`, whose mask `mask` and `unmask`
/// change.
pub fn irq_mask_port(irq: u8) -> (port: u16)
    ensures
        port == irq_port(irq),
{
    if irq < 8 {
        PIC_MASTER_PORT + 1
    } else {
        PIC_SLAVE_PORT + 1
    }
}

/// The write that masks `irq`, given `current`, the mask read from
/// `irq_mask_port(irq)`: the bit of `irq` is set.
pub fn mask(irq: u8, current: u8) -> (w: PortWrite)
    requires
        irq < 16,
    ensures
        w == port_write(irq_port(irq), current | (1u8 << irq_bit(irq))),
{
    let port = irq_mask_port(irq);
    let bit: u8 = if irq < 8 {
        irq
    } else {
        irq - 8
    };
    PortWrite::new(port, current | (1u8 << bit))
}

/// The write that unmasks `irq`, given `current`, the mask read from
/// `irq_mask_port(irq)`: the bit of `irq` is cleared.
pub fn unmask(irq: u8, current: u8) -> (w: PortWrite)
    requires
        irq < 16,
    ensures
        w == port_write(irq_port(irq), current & !(1u8 << irq_bit(irq))),
{
    let port = irq_mask_port(irq);
    let bit: u8 = if irq < 8 {
        irq
    } else {
        irq - 8
    };
    PortWrite::new(port, current & !(1u8 << bit))
}

/// The writes that mask every interrupt of both PICs.
pub fn deinit() -> (writes: Vec<PortWrite>)
    ensures
        writes@ == seq![
            port_write(PIC_MASTER_DISABLE_PORT, 0xff),
            port_write(PIC_SLAVE_DISABLE_PORT, 0xff),
        ],
{
    let mut writes: Vec<PortWrite> = Vec::new();
    writes.push(PortWrite::new(PIC_MASTER_DISABLE_PORT, 0xff));
    writes.push(PortWrite::new(PIC_SLAVE_DISABLE_PORT, 0xff));
    proof {
        assert(writes@ =~= seq![
            port_write(PIC_MASTER_DISABLE_PORT, 0xff),
            port_write(PIC_SLAVE_DISABLE_PORT, 0xff),
        ]);
    }
    writes
}

/// Whether interrupt vector `id` comes from the slave PIC.
pub open spec fn from_slave(id: u8) -> bool {
    PIC_SLAVE_OFFSET <= id < PIC_SLAVE_OFFSET + 8
}

/// The writes that acknowledge interrupt vector `id`: the slave PIC is told
/// first when the interrupt came from it, the master always.
pub fn end_of_interrupt(id: u8) -> (writes: Vec<PortWrite>)
    ensures
        from_slave(id) ==> writes@ == seq![
            port_write(PIC_SLAVE_PORT, END_OF_INTERRUPT),
            port_write(PIC_MASTER_PORT, END_OF_INTERRUPT),
        ],
        !from_slave(id) ==> writes@ == seq![port_write(PIC_MASTER_PORT, END_OF_INTERRUPT)],
{
    let mut writes: Vec<PortWrite> = Vec::new();
    if id >= PIC_SLAVE_OFFSET && id < PIC_SLAVE_OFFSET + 8 {
        writes.push(PortWrite::new(PIC_SLAVE_PORT, END_OF_INTERRUPT));
    }
    writes.push(PortWrite::new(PIC_MASTER_PORT, END_OF_INTERRUPT));
    proof {
        if from_slave(id) {
            assert(writes@ =~= seq![
                port_write(PIC_SLAVE_PORT, END_OF_INTERRUPT),
                port_write(PIC_MASTER_PORT, END_OF_INTERRUPT),
            ]);
        } else {
            assert(writes@ =~= seq![port_write(PIC_MASTER_PORT, END_OF_INTERRUPT)]);
        }
    }
    writes
}

/// The writes that acknowledge interrupt vector `id` at the PICs.
pub fn pic_end_of_interrupt(id: u8) -> (writes: Vec<PortWrite>)
    ensures
        from_slave(id) ==> writes@ == seq![
            port_write(PIC_SLAVE_PORT, END_OF_INTERRUPT),
            port_write(PIC_MASTER_PORT, END_OF_INTERRUPT),
        ],
        !from_slave(id) ==> writes@ == seq![port_write(PIC_MASTER_PORT, END_OF_INTERRUPT)],
{
    end_of_interrupt(id)
}

/// Masking and unmasking change only the line's own bit: masking sets it,
/// unmasking clears it, every other bit of the mask stays, and unmasking a
/// masked line gives what unmasking alone gives.
pub proof fn lemma_mask_unmask(irq: u8, current: u8)
    requires
        irq < 16,
    ensures
        ({
            let b = irq_bit(irq);
            let masked = current | (1u8 << b);
            let unmasked = current & !(1u8 << b);
            &&& (masked >> b) & 1 == 1
            &&& (unmasked >> b) & 1 == 0
            &&& forall|k: u8|
                k < 8 && k != b ==> (masked >> k) & 1 == (current >> k) & 1 && (unmasked >> k) & 1
                    == (current >> k) & 1
            &&& masked & !(1u8 << b) == unmasked
            &&& unmasked | (1u8 << b) == masked
        }),
{
    let b = irq_bit(irq);
    assert(b < 8);
    assert(((current | (1u8 << b)) >> b) & 1 == 1) by (bit_vector)
        requires
            b < 8,
    ;
    assert(((current & !(1u8 << b)) >> b) & 1 == 0) by (bit_vector)
        requires
            b < 8,
    ;
    assert forall|k: u8| k < 8 && k != b implies ((current | (1u8 << b)) >> k) & 1 == (current
        >> k) & 1 && ((current & !(1u8 << b)) >> k) & 1 == (current >> k) & 1 by {
        assert(((current | (1u8 << b)) >> k) & 1 == (current >> k) & 1 && ((current & !(1u8
            << b)) >> k) & 1 == (current >> k) & 1) by (bit_vector)
            requires
                k < 8,
                b < 8,
                k != b,
        ;
    }
    assert((current | (1u8 << b)) & !(1u8 << b) == current & !(1u8 << b)) by (bit_vector);
    assert((current & !(1u8 << b)) | (1u8 << b) == current | (1u8 << b)) by (bit_vector);
}

} // verus!
