//! Driver for the pair of cascaded 8259A interrupt controllers, and a model
//! of the registers of the two chips against which its command sequences are
//! proved.

use vstd::prelude::*;
use vstd::string::*;
use crate::port::{PortWrite, IO_DELAY_PORT};
use crate::serial::{SerialPort, decimal_text, hex_text, lemma_append_5, lemma_append_8};

verus! {

/// Command port of the cascade (master) chip.
pub const PIC1_COMMAND: u16 = 0x20;
/// Data port of the cascade (master) chip.
pub const PIC1_DATA: u16 = 0x21;
/// Command port of the subordinate (slave) chip.
pub const PIC2_COMMAND: u16 = 0xA0;
/// Data port of the subordinate (slave) chip.
pub const PIC2_DATA: u16 = 0xA1;
/// Non-specific end-of-interrupt command.
pub const PIC_EOI: u8 = 0x20;
/// First initialisation word: edge triggered, cascade mode, a mode word follows.
pub const ICW1_INIT: u8 = 0x11;
/// Vector of line 0 after remapping.
pub const MASTER_OFFSET: u8 = 0x20;
/// Vector of line 8 after remapping.
pub const SLAVE_OFFSET: u8 = 0x28;
/// Third initialisation word of the cascade chip: a subordinate on input 2.
pub const MASTER_CASCADE: u8 = 0x04;
/// Third initialisation word of the subordinate chip: its cascade identity.
pub const SLAVE_CASCADE: u8 = 0x02;
/// Fourth initialisation word: 8086 mode.
pub const ICW4_8086: u8 = 0x01;
/// Mask value that disables all eight lines of a chip.
pub const MASK_ALL: u8 = 0xFF;

// ---------------------------------------------------------------------------
// Model of the device
// ---------------------------------------------------------------------------

/// Where a chip stands in its initialisation sequence.
#[derive(Clone, Copy, Debug, PartialEq, Eq, Structural)]
pub enum Stage {
    /// Never initialised since power-on.
    Uninitialized,
    /// The first word was received; the vector offset comes next.
    AwaitOffset,
    /// The cascade wiring word comes next.
    AwaitCascade,
    /// The operating mode word comes next.
    AwaitMode,
    /// Initialisation is complete; data writes set the mask.
    Initialized,
}

/// The registers of one 8259A that the driver programs.
#[derive(Clone, Copy, Debug, PartialEq, Eq, Structural)]
pub struct Chip {
    /// Progress of the initialisation sequence.
    pub stage: Stage,
    /// The first initialisation word announced a mode word.
    pub wants_mode: bool,
    /// The first initialisation word announced a lone chip, without cascade.
    pub single: bool,
    /// Vector delivered for input 0.
    pub offset: u8,
    /// Cascade wiring word.
    pub cascade: u8,
    /// Operating mode word.
    pub mode: u8,
    /// Interrupt mask register: bit `n` set disables input `n`.
    pub mask: u8,
    /// In-service register: bit `n` set from the delivery of input `n` until
    /// its acknowledgment.
    pub in_service: u8,
}

/// `bits` without its lowest set bit, which stands for the input of highest
/// priority.
pub open spec fn without_lowest(bits: u8) -> u8 {
    if bits == 0 {
        0
    } else {
        bits & ((bits - 1) as u8)
    }
}

impl Chip {
    /// The chip after a write of `value` to its command port. A value with
    /// bit 4 set restarts initialisation and clears the mask. The
    /// non-specific end-of-interrupt command ends the service of the input
    /// of highest priority among those in service. Any other command leaves
    /// these registers alone.
    pub open spec fn command(self, value: u8) -> Chip {
        if value & 0x10 != 0 {
            Chip {
                stage: Stage::AwaitOffset,
                wants_mode: value & 0x01 != 0,
                single: value & 0x02 != 0,
                mask: 0,
                ..self
            }
        } else if value & 0xF8 == 0x20 {
            Chip { in_service: without_lowest(self.in_service), ..self }
        } else {
            self
        }
    }

    /// The vector the chip delivers for its input `input` (0 to 7): the
    /// upper five bits of the offset, then the number of the input.
    pub open spec fn vector(self, input: u8) -> u8 {
        (self.offset & 0xF8) | (input & 0x07)
    }

    /// The stage that follows the offset word, or the cascade word.
    pub open spec fn stage_after_wiring(self) -> Stage {
        if self.wants_mode {
            Stage::AwaitMode
        } else {
            Stage::Initialized
        }
    }

    /// The chip after a write of `value` to its data port.
    pub open spec fn data(self, value: u8) -> Chip {
        match self.stage {
            Stage::AwaitOffset => Chip {
                stage: if self.single {
                    self.stage_after_wiring()
                } else {
                    Stage::AwaitCascade
                },
                offset: value & 0xF8,
                ..self
            },
            Stage::AwaitCascade => Chip {
                stage: self.stage_after_wiring(),
                cascade: value,
                ..self
            },
            Stage::AwaitMode => Chip { stage: Stage::Initialized, mode: value, ..self },
            Stage::Uninitialized | Stage::Initialized => Chip { mask: value, ..self },
        }
    }

    /// A chip before anything was written to it: not initialised, every
    /// register zero.
    pub open spec fn power_on() -> Chip {
        Chip {
            stage: Stage::Uninitialized,
            wants_mode: false,
            single: false,
            offset: 0,
            cascade: 0,
            mode: 0,
            mask: 0,
            in_service: 0,
        }
    }

    /// A chip as it is before anything was written to it.
    pub fn new() -> (chip: Self)
        ensures
            chip == Self::power_on(),
    {
        Chip {
            stage: Stage::Uninitialized,
            wants_mode: false,
            single: false,
            offset: 0,
            cascade: 0,
            mode: 0,
            mask: 0,
            in_service: 0,
        }
    }

    /// Applies a write to the command port.
    pub fn write_command(&mut self, value: u8)
        ensures
            *final(self) == old(self).command(value),
    {
        if value & 0x10 != 0 {
            self.stage = Stage::AwaitOffset;
            self.wants_mode = value & 0x01 != 0;
            self.single = value & 0x02 != 0;
            self.mask = 0;
        } else if value & 0xF8 == 0x20 {
            if self.in_service != 0 {
                self.in_service = self.in_service & (self.in_service - 1);
            }
        }
    }

    /// Applies a write to the data port.
    pub fn write_data(&mut self, value: u8)
        ensures
            *final(self) == old(self).data(value),
    {
        let after_wiring = if self.wants_mode {
            Stage::AwaitMode
        } else {
            Stage::Initialized
        };
        match self.stage {
            Stage::AwaitOffset => {
                self.offset = value & 0xF8;
                self.stage = if self.single {
                    after_wiring
                } else {
                    Stage::AwaitCascade
                };
            },
            Stage::AwaitCascade => {
                self.cascade = value;
                self.stage = after_wiring;
            },
            Stage::AwaitMode => {
                self.mode = value;
                self.stage = Stage::Initialized;
            },
            Stage::Uninitialized | Stage::Initialized => {
                self.mask = value;
            },
        }
    }
}

/// The two chips together.
#[derive(Clone, Copy, Debug, PartialEq, Eq, Structural)]
pub struct Controller {
    pub master: Chip,
    pub slave: Chip,
}

impl Controller {
    /// The controller after one port write. Writes to ports of other devices
    /// leave it unchanged.
    pub open spec fn after(self, w: PortWrite) -> Controller {
        if w.port == PIC1_COMMAND {
            Controller { master: self.master.command(w.value), slave: self.slave }
        } else if w.port == PIC1_DATA {
            Controller { master: self.master.data(w.value), slave: self.slave }
        } else if w.port == PIC2_COMMAND {
            Controller { master: self.master, slave: self.slave.command(w.value) }
        } else if w.port == PIC2_DATA {
            Controller { master: self.master, slave: self.slave.data(w.value) }
        } else {
            self
        }
    }

    /// The controller after the writes of `script`, first to last.
    pub open spec fn after_all(self, script: Seq<PortWrite>) -> Controller
        decreases script.len(),
    {
        if script.len() == 0 {
            self
        } else {
            self.after_all(script.drop_last()).after(script.last())
        }
    }

    /// What a read of the mask register of one chip returns.
    pub open spec fn mask_of(self, slave: bool) -> u8 {
        if slave {
            self.slave.mask
        } else {
            self.master.mask
        }
    }

    /// Both chips have completed their initialisation sequence.
    pub open spec fn initialized(self) -> bool {
        self.master.stage == Stage::Initialized && self.slave.stage == Stage::Initialized
    }

    /// Interrupt line `line` (0 to 15) is disabled.
    pub open spec fn line_masked(self, line: u8) -> bool {
        self.mask_of(line >= 8) & line_bit(line) != 0
    }

    /// Nothing is in service on either chip.
    pub open spec fn idle(self) -> bool {
        self.master.in_service == 0 && self.slave.in_service == 0
    }

    /// A request on `line` reaches the processor: the controller is
    /// initialised and the line is enabled, and so is, for a line of the
    /// subordinate chip, the input of the cascade chip it is wired to.
    pub open spec fn accepts(self, line: u8) -> bool {
        &&& line < 16
        &&& self.initialized()
        &&& !self.line_masked(line)
        &&& line >= 8 ==> self.master.mask & MASTER_CASCADE == 0
    }

    /// The vector delivered for `line`.
    pub open spec fn vector_of(self, line: u8) -> u8 {
        if line < 8 {
            self.master.vector(line)
        } else {
            self.slave.vector((line - 8) as u8)
        }
    }

    /// The controller after it delivered `line` to the processor: the line
    /// is in service on its chip, and for a line of the subordinate chip the
    /// cascade input is in service on the cascade chip.
    pub open spec fn deliver(self, line: u8) -> Controller {
        if line < 8 {
            Controller {
                master: Chip {
                    in_service: self.master.in_service | line_bit(line),
                    ..self.master
                },
                slave: self.slave,
            }
        } else {
            Controller {
                master: Chip {
                    in_service: self.master.in_service | MASTER_CASCADE,
                    ..self.master
                },
                slave: Chip { in_service: self.slave.in_service | line_bit(line), ..self.slave },
            }
        }
    }

    /// The controller at power-on.
    pub fn new() -> (c: Self)
        ensures
            c == (Controller { master: Chip::power_on(), slave: Chip::power_on() }),
    {
        Controller { master: Chip::new(), slave: Chip::new() }
    }

    /// Performs one port write on the model.
    pub fn write(&mut self, w: PortWrite)
        ensures
            *final(self) == old(self).after(w),
    {
        if w.port == PIC1_COMMAND {
            self.master.write_command(w.value);
        } else if w.port == PIC1_DATA {
            self.master.write_data(w.value);
        } else if w.port == PIC2_COMMAND {
            self.slave.write_command(w.value);
        } else if w.port == PIC2_DATA {
            self.slave.write_data(w.value);
        }
    }

    /// Performs the writes of `script` on the model, first to last.
    pub fn apply(&mut self, script: &Vec<PortWrite>)
        ensures
            *final(self) == old(self).after_all(script@),
    {
        let mut i: usize = 0;
        while i < script.len()
            invariant
                i <= script.len(),
                *self == old(self).after_all(script@.subrange(0, i as int)),
            decreases script.len() - i,
        {
            self.write(script[i]);
            proof {
                let next = script@.subrange(0, i + 1);
                assert(next.drop_last() =~= script@.subrange(0, i as int));
                assert(next.last() == script@[i as int]);
            }
            i = i + 1;
        }
        assert(script@.subrange(0, i as int) =~= script@);
    }

    /// Reads the mask register of one chip.
    pub fn read_mask(&self, slave: bool) -> (mask: u8)
        ensures
            mask == self.mask_of(slave),
    {
        if slave {
            self.slave.mask
        } else {
            self.master.mask
        }
    }

    /// Whether both chips are initialised.
    pub fn is_initialized(&self) -> (done: bool)
        ensures
            done == self.initialized(),
    {
        self.master.stage == Stage::Initialized && self.slave.stage == Stage::Initialized
    }

    /// A device requests an interrupt on `line`. Where the controller lets
    /// the request through, the line goes in service and the vector that the
    /// processor receives is returned; otherwise nothing happens.
    pub fn raise(&mut self, line: u8) -> (vector: Option<u8>)
        ensures
            match vector {
                Some(v) => old(self).accepts(line) && *final(self) == old(self).deliver(line) && v
                    == old(self).vector_of(line),
                None => !old(self).accepts(line) && *final(self) == *old(self),
            },
    {
        if line >= 16 || !self.is_initialized() {
            return None;
        }
        let bit: u8 = 1u8 << (line % 8);
        if line < 8 {
            if self.master.mask & bit != 0 {
                return None;
            }
            self.master.in_service = self.master.in_service | bit;
            Some((self.master.offset & 0xF8) | (line & 0x07))
        } else {
            if self.slave.mask & bit != 0 || self.master.mask & MASTER_CASCADE != 0 {
                return None;
            }
            self.master.in_service = self.master.in_service | MASTER_CASCADE;
            self.slave.in_service = self.slave.in_service | bit;
            Some((self.slave.offset & 0xF8) | ((line - 8) & 0x07))
        }
    }
}

/// Running `a` and then `b` is running their concatenation.
pub proof fn lemma_after_all_concat(c: Controller, a: Seq<PortWrite>, b: Seq<PortWrite>)
    ensures
        c.after_all(a + b) == c.after_all(a).after_all(b),
    decreases b.len(),
{
    if b.len() == 0 {
        assert(a + b =~= a);
    } else {
        lemma_after_all_concat(c, a, b.drop_last());
        assert((a + b).drop_last() =~= a + b.drop_last());
        assert((a + b).last() == b.last());
    }
}

/// Running a script of one write is performing that write.
pub proof fn lemma_after_all_single(c: Controller, w: PortWrite)
    ensures
        c.after_all(seq![w]) == c.after(w),
{
    let s = seq![w];
    assert(s.drop_last() =~= Seq::<PortWrite>::empty());
    assert(c.after_all(s.drop_last()) == c);
}

// ---------------------------------------------------------------------------
// Driver
// ---------------------------------------------------------------------------

/// A register write followed by the settling write the chips need.
pub open spec fn settled(port: u16, value: u8) -> Seq<PortWrite> {
    seq![PortWrite { port, value }, PortWrite { port: IO_DELAY_PORT, value: 0 }]
}

/// The full initialisation sequence: four initialisation words to each chip,
/// all lines masked, pending interrupts acknowledged.
pub open spec fn init_script() -> Seq<PortWrite> {
    settled(PIC1_COMMAND, ICW1_INIT) + settled(PIC2_COMMAND, ICW1_INIT)
        + settled(PIC1_DATA, MASTER_OFFSET) + settled(PIC2_DATA, SLAVE_OFFSET)
        + settled(PIC1_DATA, MASTER_CASCADE) + settled(PIC2_DATA, SLAVE_CASCADE)
        + settled(PIC1_DATA, ICW4_8086) + settled(PIC2_DATA, ICW4_8086)
        + settled(PIC1_DATA, MASK_ALL) + settled(PIC2_DATA, MASK_ALL)
        + settled(PIC1_COMMAND, PIC_EOI) + settled(PIC2_COMMAND, PIC_EOI)
}

/// What `init` reports on the diagnostic channel.
pub open spec fn init_report(saved_master: u8, saved_slave: u8) -> Seq<u8> {
    "64-bit PIC: Saved masks - Master: 0x".spec_bytes() + hex_text(saved_master as nat)
        + ", Slave: 0x".spec_bytes() + hex_text(saved_slave as nat) + "\n".spec_bytes()
        + "64-bit PIC initialized:\n".spec_bytes()
        + "  Master vector: 0x20 (32), Slave vector: 0x28 (40)\n".spec_bytes()
        + "  All IRQs masked initially\n".spec_bytes()
}

/// The state every controller is in after the initialisation sequence.
pub open spec fn programmed(c: Controller) -> bool {
    &&& c.initialized()
    &&& c.master.offset == MASTER_OFFSET
    &&& c.slave.offset == SLAVE_OFFSET
    &&& c.master.cascade == MASTER_CASCADE
    &&& c.slave.cascade == SLAVE_CASCADE
    &&& c.master.mode == ICW4_8086
    &&& c.slave.mode == ICW4_8086
    &&& c.master.mask == MASK_ALL
    &&& c.slave.mask == MASK_ALL
}

/// Appends a register write and the settling write that follows it.
fn push_settled(script: &mut Vec<PortWrite>, port: u16, value: u8)
    ensures
        final(script)@ == old(script)@ + settled(port, value),
{
    script.push(PortWrite::new(port, value));
    script.push(PortWrite::io_wait());
    assert(script@ =~= old(script)@ + settled(port, value));
}

/// A settled write acts on the controller as the register write alone.
proof fn lemma_settled(c: Controller, port: u16, value: u8)
    ensures
        c.after_all(settled(port, value)) == c.after(PortWrite { port, value }),
{
    let w = PortWrite { port, value };
    let d = PortWrite { port: IO_DELAY_PORT, value: 0 };
    assert(settled(port, value) =~= seq![w] + seq![d]);
    lemma_after_all_concat(c, seq![w], seq![d]);
    lemma_after_all_single(c, w);
    lemma_after_all_single(c.after(w), d);
}

/// A settled write after `head` acts as the register write on what `head`
/// left.
proof fn lemma_then_settled(c: Controller, head: Seq<PortWrite>, port: u16, value: u8)
    ensures
        c.after_all(head + settled(port, value)) == c.after_all(head).after(
            PortWrite { port, value },
        ),
{
    lemma_after_all_concat(c, head, settled(port, value));
    lemma_settled(c.after_all(head), port, value);
}

/// Whatever state the controller was in, the initialisation sequence leaves
/// both chips initialised, remapped to vectors 32-39 and 40-47, wired in
/// cascade, in 8086 mode, and with all sixteen lines disabled.
pub proof fn lemma_init_programs_controller(c: Controller)
    ensures
        programmed(c.after_all(init_script())),
        c.after_all(init_script()).mask_of(false) == 0xFF,
        c.after_all(init_script()).mask_of(true) == 0xFF,
{
    assert(0x11u8 & 0x10 != 0 && 0x11u8 & 0x01 != 0 && 0x11u8 & 0x02 == 0 && 0x20u8 & 0xF8 == 0x20
        && 0x28u8 & 0xF8 == 0x28 && 0x20u8 & 0x10 == 0) by (bit_vector);
    let s1 = settled(PIC1_COMMAND, ICW1_INIT);
    let s2 = s1 + settled(PIC2_COMMAND, ICW1_INIT);
    let s3 = s2 + settled(PIC1_DATA, MASTER_OFFSET);
    let s4 = s3 + settled(PIC2_DATA, SLAVE_OFFSET);
    let s5 = s4 + settled(PIC1_DATA, MASTER_CASCADE);
    let s6 = s5 + settled(PIC2_DATA, SLAVE_CASCADE);
    let s7 = s6 + settled(PIC1_DATA, ICW4_8086);
    let s8 = s7 + settled(PIC2_DATA, ICW4_8086);
    let s9 = s8 + settled(PIC1_DATA, MASK_ALL);
    let s10 = s9 + settled(PIC2_DATA, MASK_ALL);
    let s11 = s10 + settled(PIC1_COMMAND, PIC_EOI);
    lemma_settled(c, PIC1_COMMAND, ICW1_INIT);
    lemma_then_settled(c, s1, PIC2_COMMAND, ICW1_INIT);
    lemma_then_settled(c, s2, PIC1_DATA, MASTER_OFFSET);
    lemma_then_settled(c, s3, PIC2_DATA, SLAVE_OFFSET);
    lemma_then_settled(c, s4, PIC1_DATA, MASTER_CASCADE);
    lemma_then_settled(c, s5, PIC2_DATA, SLAVE_CASCADE);
    lemma_then_settled(c, s6, PIC1_DATA, ICW4_8086);
    lemma_then_settled(c, s7, PIC2_DATA, ICW4_8086);
    lemma_then_settled(c, s8, PIC1_DATA, MASK_ALL);
    lemma_then_settled(c, s9, PIC2_DATA, MASK_ALL);
    lemma_then_settled(c, s10, PIC1_COMMAND, PIC_EOI);
    lemma_then_settled(c, s11, PIC2_COMMAND, PIC_EOI);
}

/// The initialisation sequence for both chips. `saved_master` and
/// `saved_slave` are the mask registers as read before the sequence starts;
/// they are only reported.
pub fn init(saved_master: u8, saved_slave: u8, serial: &mut SerialPort) -> (script: Vec<PortWrite>)
    ensures
        script@ == init_script(),
        forall|c: Controller| programmed(#[trigger] c.after_all(script@)),
        final(serial)@ == old(serial)@ + init_report(saved_master, saved_slave),
        final(serial).base_port() == old(serial).base_port(),
{
    serial.write_str("64-bit PIC: Saved masks - Master: 0x");
    serial.write_hex(saved_master as u32);
    serial.write_str(", Slave: 0x");
    serial.write_hex(saved_slave as u32);
    serial.write_str("\n");

    let mut script: Vec<PortWrite> = Vec::new();
    push_settled(&mut script, PIC1_COMMAND, ICW1_INIT);
    push_settled(&mut script, PIC2_COMMAND, ICW1_INIT);
    push_settled(&mut script, PIC1_DATA, MASTER_OFFSET);
    push_settled(&mut script, PIC2_DATA, SLAVE_OFFSET);
    push_settled(&mut script, PIC1_DATA, MASTER_CASCADE);
    push_settled(&mut script, PIC2_DATA, SLAVE_CASCADE);
    push_settled(&mut script, PIC1_DATA, ICW4_8086);
    push_settled(&mut script, PIC2_DATA, ICW4_8086);
    push_settled(&mut script, PIC1_DATA, MASK_ALL);
    push_settled(&mut script, PIC2_DATA, MASK_ALL);
    push_settled(&mut script, PIC1_COMMAND, PIC_EOI);
    push_settled(&mut script, PIC2_COMMAND, PIC_EOI);

    serial.write_str("64-bit PIC initialized:\n");
    serial.write_str("  Master vector: 0x20 (32), Slave vector: 0x28 (40)\n");
    serial.write_str("  All IRQs masked initially\n");
    proof {
        assert(script@ =~= init_script());
        lemma_append_8(
            old(serial)@,
            "64-bit PIC: Saved masks - Master: 0x".spec_bytes(),
            hex_text(saved_master as nat),
            ", Slave: 0x".spec_bytes(),
            hex_text(saved_slave as nat),
            "\n".spec_bytes(),
            "64-bit PIC initialized:\n".spec_bytes(),
            "  Master vector: 0x20 (32), Slave vector: 0x28 (40)\n".spec_bytes(),
            "  All IRQs masked initially\n".spec_bytes(),
        );
        assert forall|c: Controller| programmed(#[trigger] c.after_all(script@)) by {
            lemma_init_programs_controller(c);
        }
    }
    script
}

/// The bit of a chip's mask register that stands for line `irq`.
pub open spec fn line_bit(irq: u8) -> u8 {
    1u8 << ((irq % 8) as u8)
}

/// The data port of the chip that line `irq` is wired to.
pub open spec fn mask_port_of(irq: u8) -> u16 {
    if irq < 8 {
        PIC1_DATA
    } else {
        PIC2_DATA
    }
}

/// A mask register value with line `irq` enabled and the other lines as in `mask`.
pub open spec fn with_line_enabled(mask: u8, irq: u8) -> u8 {
    mask & !line_bit(irq)
}

/// A mask register value with line `irq` disabled and the other lines as in `mask`.
pub open spec fn with_line_disabled(mask: u8, irq: u8) -> u8 {
    mask | line_bit(irq)
}

/// The acknowledgment writes for line `irq`: to the subordinate chip first
/// when the line is one of its own, and to the cascade chip always.
pub open spec fn eoi_script(irq: u8) -> Seq<PortWrite> {
    if irq >= 8 {
        seq![
            PortWrite { port: PIC2_COMMAND, value: PIC_EOI },
            PortWrite { port: PIC1_COMMAND, value: PIC_EOI },
        ]
    } else {
        seq![PortWrite { port: PIC1_COMMAND, value: PIC_EOI }]
    }
}

/// What `unmask_irq` reports on the diagnostic channel.
pub open spec fn unmask_report(irq: u8, new_mask: u8) -> Seq<u8> {
    "64-bit PIC: Unmasked IRQ".spec_bytes() + decimal_text(irq as nat)
        + " (mask now: 0x".spec_bytes() + hex_text(new_mask as nat) + ")\n".spec_bytes()
}

/// The end-of-interrupt writes for line `irq`.
pub fn send_eoi(irq: u8) -> (script: Vec<PortWrite>)
    ensures
        script@ == eoi_script(irq),
{
    let mut script: Vec<PortWrite> = Vec::new();
    if irq >= 8 {
        script.push(PortWrite::new(PIC2_COMMAND, PIC_EOI));
    }
    script.push(PortWrite::new(PIC1_COMMAND, PIC_EOI));
    assert(script@ =~= eoi_script(irq));
    script
}

/// The data port through which the mask of line `irq` is read and written.
pub fn mask_port(irq: u8) -> (port: u16)
    ensures
        port == mask_port_of(irq),
{
    if irq < 8 {
        PIC1_DATA
    } else {
        PIC2_DATA
    }
}

/// The data port whose read returns the mask register of the cascade chip
/// (`slave` false) or of the subordinate chip (`slave` true).
pub fn get_mask(slave: bool) -> (port: u16)
    ensures
        port == if slave {
            PIC2_DATA
        } else {
            PIC1_DATA
        },
{
    if slave {
        PIC2_DATA
    } else {
        PIC1_DATA
    }
}

/// Enables line `irq`. `mask` is the value just read from `mask_port(irq)`;
/// the result is the write that clears the line's bit and keeps the others.
pub fn unmask_irq(irq: u8, mask: u8, serial: &mut SerialPort) -> (w: PortWrite)
    requires
        irq < 16,
    ensures
        w.port == mask_port_of(irq),
        w.value == with_line_enabled(mask, irq),
        final(serial)@ == old(serial)@ + unmask_report(irq, w.value),
        final(serial).base_port() == old(serial).base_port(),
{
    let bit: u8 = irq % 8;
    let value: u8 = mask & !(1u8 << bit);
    serial.write_str("64-bit PIC: Unmasked IRQ");
    serial.write_decimal(irq as u32);
    serial.write_str(" (mask now: 0x");
    serial.write_hex(value as u32);
    serial.write_str(")\n");
    proof {
        lemma_append_5(
            old(serial)@,
            "64-bit PIC: Unmasked IRQ".spec_bytes(),
            decimal_text(irq as nat),
            " (mask now: 0x".spec_bytes(),
            hex_text(value as nat),
            ")\n".spec_bytes(),
        );
    }
    PortWrite::new(mask_port(irq), value)
}

/// Disables line `irq`. `mask` is the value just read from `mask_port(irq)`;
/// the result is the write that sets the line's bit and keeps the others.
pub fn mask_irq(irq: u8, mask: u8) -> (w: PortWrite)
    requires
        irq < 16,
    ensures
        w.port == mask_port_of(irq),
        w.value == with_line_disabled(mask, irq),
{
    let bit: u8 = irq % 8;
    PortWrite::new(mask_port(irq), mask | (1u8 << bit))
}

/// Clearing a set bit and setting it again gives the value back.
proof fn lemma_bit_restore(mask: u8, bit: u8)
    by (bit_vector)
    requires
        bit < 8,
        mask & (1u8 << bit) != 0,
    ensures
        (mask & !(1u8 << bit)) | (1u8 << bit) == mask,
{
}

/// Clearing or setting one bit changes that bit and no other.
proof fn lemma_bit_effect(mask: u8, bit: u8, other: u8)
    by (bit_vector)
    requires
        bit < 8,
        other < 8,
    ensures
        (mask & !(1u8 << bit)) & (1u8 << bit) == 0,
        (mask | (1u8 << bit)) & (1u8 << bit) != 0,
        other != bit ==> (mask & !(1u8 << bit)) & (1u8 << other) == mask & (1u8 << other),
        other != bit ==> (mask | (1u8 << bit)) & (1u8 << other) == mask & (1u8 << other),
{
}

/// Enabling a disabled line and then disabling it again gives back the mask
/// register value from before.
pub proof fn lemma_unmask_then_mask_restores(mask: u8, irq: u8)
    requires
        irq < 16,
        mask & line_bit(irq) != 0,
    ensures
        with_line_disabled(with_line_enabled(mask, irq), irq) == mask,
{
    lemma_bit_restore(mask, (irq % 8) as u8);
}

/// Enabling or disabling a line changes the bit of that line and of no other
/// line of the same chip.
pub proof fn lemma_mask_change_is_local(mask: u8, irq: u8, other: u8)
    requires
        irq < 16,
        other < 16,
        (irq < 8) == (other < 8),
    ensures
        with_line_enabled(mask, irq) & line_bit(irq) == 0,
        with_line_disabled(mask, irq) & line_bit(irq) != 0,
        other != irq ==> with_line_enabled(mask, irq) & line_bit(other) == mask & line_bit(other),
        other != irq ==> with_line_disabled(mask, irq) & line_bit(other) == mask & line_bit(
            other,
        ),
{
    lemma_bit_effect(mask, (irq % 8) as u8, (other % 8) as u8);
}

/// On an initialised controller whose line `irq` is disabled, performing the
/// write of `unmask_irq` and then the write of `mask_irq`, each computed from
/// the mask register as it is read at that moment, leaves the controller as
/// it was; in between, the line is enabled.
pub proof fn lemma_unmask_mask_round_trip(c: Controller, irq: u8)
    requires
        irq < 16,
        c.initialized(),
        c.mask_of(irq >= 8) & line_bit(irq) != 0,
    ensures
        ({
            let enable = PortWrite {
                port: mask_port_of(irq),
                value: with_line_enabled(c.mask_of(irq >= 8), irq),
            };
            let open = c.after(enable);
            let disable = PortWrite {
                port: mask_port_of(irq),
                value: with_line_disabled(open.mask_of(irq >= 8), irq),
            };
            &&& open.mask_of(irq >= 8) & line_bit(irq) == 0
            &&& open.mask_of(irq < 8) == c.mask_of(irq < 8)
            &&& open.after(disable) == c
        }),
{
    let mask = c.mask_of(irq >= 8);
    lemma_bit_restore(mask, (irq % 8) as u8);
    lemma_bit_effect(mask, (irq % 8) as u8, (irq % 8) as u8);
}

/// What delivery and acknowledgment of one input do to an empty in-service
/// register, and the vectors of the remapped offsets.
proof fn lemma_service_bit(bit: u8)
    by (bit_vector)
    requires
        bit < 8,
    ensures
        (0u8 | (1u8 << bit)) != 0,
        (0u8 | (1u8 << bit)) & (((0u8 | (1u8 << bit)) - 1) as u8) == 0,
        (0x20u8 & 0xF8) | (bit & 0x07) == 0x20 + bit,
        (0x28u8 & 0xF8) | (bit & 0x07) == 0x28 + bit,
        0xFFu8 & (1u8 << bit) != 0,
{
}

/// The acknowledgment ends the service. On a controller with nothing in
/// service, delivering a line and then performing the writes of `send_eoi`
/// for that line leaves nothing in service again, on either chip.
pub proof fn lemma_eoi_ends_service(c: Controller, line: u8)
    requires
        line < 16,
        c.idle(),
    ensures
        c.deliver(line).after_all(eoi_script(line)) == c,
{
    lemma_service_bit((line % 8) as u8);
    assert(0x20u8 & 0x10 == 0 && 0x20u8 & 0xF8 == 0x20 && (0u8 | 0x04) == 0x04 && 0x04u8 & 0x03
        == 0) by (bit_vector);
    let served = c.deliver(line);
    let master_ack = PortWrite { port: PIC1_COMMAND, value: PIC_EOI };
    let slave_ack = PortWrite { port: PIC2_COMMAND, value: PIC_EOI };
    if line >= 8 {
        assert(eoi_script(line) =~= seq![slave_ack] + seq![master_ack]);
        lemma_after_all_concat(served, seq![slave_ack], seq![master_ack]);
        lemma_after_all_single(served, slave_ack);
        lemma_after_all_single(served.after(slave_ack), master_ack);
    } else {
        lemma_after_all_single(served, master_ack);
    }
}

/// Acknowledging the cascade chip alone is not enough for a line of the
/// subordinate chip: the line stays in service there, and the chip delivers
/// nothing of equal or lower priority any more.
pub proof fn lemma_cascade_ack_alone_leaves_service(c: Controller, line: u8)
    requires
        8 <= line < 16,
        c.idle(),
    ensures
        c.deliver(line).after(PortWrite { port: PIC1_COMMAND, value: PIC_EOI }).slave.in_service
            != 0,
{
    lemma_service_bit((line % 8) as u8);
    assert(0x20u8 & 0x10 == 0 && 0x20u8 & 0xF8 == 0x20) by (bit_vector);
}

/// The two chips deliver their lines as the vectors 32 to 39 and 40 to 47.
pub open spec fn remapped(c: Controller) -> bool {
    c.master.offset == MASTER_OFFSET && c.slave.offset == SLAVE_OFFSET
}

/// On the remapped controller line `line` arrives as vector 32 plus `line`,
/// above the vectors the processor reserves for its exceptions.
pub proof fn lemma_remapped_vectors(c: Controller, line: u8)
    requires
        remapped(c),
        line < 16,
    ensures
        c.vector_of(line) == 32 + line,
{
    lemma_service_bit((line % 8) as u8);
}

/// The controller as `init` leaves it is remapped and lets no line through.
pub proof fn lemma_init_lets_nothing_through(c: Controller, line: u8)
    requires
        programmed(c),
        line < 16,
    ensures
        remapped(c),
        c.line_masked(line),
        !c.accepts(line),
{
    lemma_service_bit((line % 8) as u8);
}

/// Once initialised, the controller stays initialised under everything the
/// driver does afterwards: enabling a line, disabling a line, and
/// acknowledging one.
pub proof fn lemma_initialized_is_terminal(c: Controller, irq: u8, mask: u8)
    requires
        c.initialized(),
        irq < 16,
    ensures
        c.after(
            PortWrite { port: mask_port_of(irq), value: with_line_enabled(mask, irq) },
        ).initialized(),
        c.after(
            PortWrite { port: mask_port_of(irq), value: with_line_disabled(mask, irq) },
        ).initialized(),
        c.after_all(eoi_script(irq)).initialized(),
{
    assert(0x20u8 & 0x10 == 0) by (bit_vector);
    let master_ack = PortWrite { port: PIC1_COMMAND, value: PIC_EOI };
    let slave_ack = PortWrite { port: PIC2_COMMAND, value: PIC_EOI };
    if irq >= 8 {
        assert(eoi_script(irq) =~= seq![slave_ack] + seq![master_ack]);
        lemma_after_all_concat(c, seq![slave_ack], seq![master_ack]);
        lemma_after_all_single(c, slave_ack);
        lemma_after_all_single(c.after(slave_ack), master_ack);
    } else {
        lemma_after_all_single(c, master_ack);
    }
}

} // verus!
