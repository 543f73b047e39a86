//! The interrupt descriptor table: gate descriptors, the table of 256 of
//! them, the pointer that is loaded into the processor, and the byte layout
//! of each as the processor reads it.

use vstd::prelude::*;
use vstd::string::*;
use crate::endian::{
    byte_of, le_bytes, le_value, lemma_le_round_trip, lemma_le_value_bound, push_le, read_le,
};
use crate::serial::{
    SerialPort, hex_halves_text, hex_text, lemma_append, lemma_append_3, lemma_append_5,
};

verus! {

/// Number of vectors, and of descriptors in the table.
pub const IDT_ENTRIES: usize = 256;
/// Size of one descriptor in bytes.
pub const IDT_ENTRY_SIZE: usize = 16;
/// Size of the table in bytes, minus one.
pub const IDT_LIMIT: u16 = 4095;
/// Type and attribute byte of a present, ring 0, 64-bit interrupt gate.
pub const INTERRUPT_GATE: u8 = 0x8E;
/// The present bit of the type and attribute byte.
pub const GATE_PRESENT: u8 = 0x80;
/// Size in bytes of a descriptor table pointer in memory.
pub const POINTER_SIZE: usize = 10;

/// One gate descriptor, with the fields in the order and widths in which the
/// processor reads them.
#[derive(Clone, Copy, Debug, PartialEq, Eq, Structural)]
pub struct IdtEntry {
    /// Bits 0-15 of the handler address.
    pub offset_low: u16,
    /// Code segment selector.
    pub selector: u16,
    /// Interrupt stack table index in bits 0-2.
    pub ist: u8,
    /// Type and attributes: presence, privilege level, gate kind.
    pub flags: u8,
    /// Bits 16-31 of the handler address.
    pub offset_mid: u16,
    /// Bits 32-63 of the handler address.
    pub offset_high: u32,
    /// Must be zero.
    pub reserved: u32,
}

impl IdtEntry {
    /// The handler address that the three offset fields spell.
    pub open spec fn address(self) -> int {
        self.offset_low as int + self.offset_mid as int * 0x1_0000 + self.offset_high as int
            * 0x1_0000_0000
    }

    /// The descriptor of a gate to `handler`.
    pub open spec fn gate(handler: u64, selector: u16, flags: u8) -> IdtEntry {
        IdtEntry {
            offset_low: (handler % 0x1_0000) as u16,
            selector,
            ist: 0,
            flags,
            offset_mid: ((handler / 0x1_0000) % 0x1_0000) as u16,
            offset_high: (handler / 0x1_0000_0000) as u32,
            reserved: 0,
        }
    }

    /// The descriptor with every field zero.
    pub open spec fn zero() -> IdtEntry {
        IdtEntry {
            offset_low: 0,
            selector: 0,
            ist: 0,
            flags: 0,
            offset_mid: 0,
            offset_high: 0,
            reserved: 0,
        }
    }

    /// The processor will accept a vector through this gate.
    pub open spec fn present(self) -> bool {
        self.flags & GATE_PRESENT != 0
    }

    /// The sixteen bytes of the descriptor in memory order.
    pub open spec fn bytes(self) -> Seq<u8> {
        le_bytes(self.offset_low as int, 2) + le_bytes(self.selector as int, 2) + seq![
            self.ist,
            self.flags,
        ] + le_bytes(self.offset_mid as int, 2) + le_bytes(self.offset_high as int, 4) + le_bytes(
            self.reserved as int,
            4,
        )
    }

    /// The all-zero descriptor.
    pub fn empty() -> (e: Self)
        ensures
            e == Self::zero(),
    {
        IdtEntry {
            offset_low: 0,
            selector: 0,
            ist: 0,
            flags: 0,
            offset_mid: 0,
            offset_high: 0,
            reserved: 0,
        }
    }

    /// A present ring 0 interrupt gate to `handler`.
    pub fn new(handler: u64, selector: u16) -> (e: Self)
        ensures
            e == Self::gate(handler, selector, INTERRUPT_GATE),
            e.address() == handler,
    {
        let mut e = Self::empty();
        e.set_handler(handler, selector, INTERRUPT_GATE);
        e
    }

    /// Points the descriptor at `handler`, splitting the address over the
    /// three offset fields, with no interrupt stack and zero padding.
    pub fn set_handler(&mut self, handler: u64, selector: u16, flags: u8)
        ensures
            *final(self) == Self::gate(handler, selector, flags),
            final(self).address() == handler,
    {
        let offset: u64 = handler;
        assert(offset & 0xFFFF == offset % 0x1_0000) by (bit_vector);
        assert((offset >> 16) & 0xFFFF == (offset / 0x1_0000) % 0x1_0000) by (bit_vector);
        assert((offset >> 32) & 0xFFFF_FFFF == offset / 0x1_0000_0000) by (bit_vector);
        self.offset_low = (offset & 0xFFFF) as u16;
        self.selector = selector;
        self.ist = 0;
        self.flags = flags;
        self.offset_mid = ((offset >> 16) & 0xFFFF) as u16;
        self.offset_high = ((offset >> 32) & 0xFFFF_FFFF) as u32;
        self.reserved = 0;
    }

    /// Clears every field.
    pub fn set_empty(&mut self)
        ensures
            *final(self) == Self::zero(),
    {
        *self = IdtEntry {
            offset_low: 0,
            selector: 0,
            ist: 0,
            flags: 0,
            offset_mid: 0,
            offset_high: 0,
            reserved: 0,
        };
    }

    /// The handler address reassembled from the three offset fields.
    pub fn handler(&self) -> (address: u64)
        ensures
            address == self.address(),
    {
        self.offset_low as u64 + self.offset_mid as u64 * 0x1_0000 + self.offset_high as u64
            * 0x1_0000_0000
    }

    /// Whether the present bit is set.
    pub fn is_present(&self) -> (p: bool)
        ensures
            p == self.present(),
    {
        self.flags & GATE_PRESENT != 0
    }

    /// The descriptor as the sixteen bytes the processor reads.
    pub fn to_bytes(&self) -> (out: Vec<u8>)
        ensures
            out@ == self.bytes(),
            out@.len() == 16,
    {
        let mut out: Vec<u8> = Vec::new();
        push_le(&mut out, self.offset_low as u64, 2);
        push_le(&mut out, self.selector as u64, 2);
        out.push(self.ist);
        out.push(self.flags);
        push_le(&mut out, self.offset_mid as u64, 2);
        push_le(&mut out, self.offset_high as u64, 4);
        push_le(&mut out, self.reserved as u64, 4);
        assert(out@ =~= self.bytes());
        out
    }
}

/// Every gate built by `gate` spells the address it was given.
pub proof fn lemma_gate_address(handler: u64, selector: u16, flags: u8)
    ensures
        IdtEntry::gate(handler, selector, flags).address() == handler,
        IdtEntry::gate(handler, selector, flags).selector == selector,
        IdtEntry::gate(handler, selector, flags).flags == flags,
        IdtEntry::gate(handler, selector, flags).ist == 0,
        IdtEntry::gate(handler, selector, flags).reserved == 0,
{
}

/// The operand of the table-load and table-store instructions: the size of a
/// descriptor table in bytes minus one, and its linear base address.
#[derive(Clone, Copy, Debug, PartialEq, Eq, Structural)]
pub struct DescriptorTablePointer {
    pub limit: u16,
    pub base: u64,
}

impl DescriptorTablePointer {
    /// The ten bytes of the pointer in memory order: limit, then base.
    pub open spec fn bytes(self) -> Seq<u8> {
        le_bytes(self.limit as int, 2) + le_bytes(self.base as int, 8)
    }

    /// The pointer that ten bytes in memory spell; nothing for any other length.
    pub open spec fn decode(bytes: Seq<u8>) -> Option<DescriptorTablePointer> {
        if bytes.len() == POINTER_SIZE {
            Some(
                DescriptorTablePointer {
                    limit: le_value(bytes, 0, 2) as u16,
                    base: le_value(bytes, 2, 8) as u64,
                },
            )
        } else {
            None
        }
    }

    /// The pointer is that of a full interrupt table at a non-null address.
    pub open spec fn plausible(self) -> bool {
        self.base != 0 && self.limit == IDT_LIMIT
    }

    /// The pointer to an interrupt table of 256 descriptors at `base`.
    pub fn for_table(base: u64) -> (p: Self)
        ensures
            p == (DescriptorTablePointer { limit: IDT_LIMIT, base }),
            p.limit == IDT_ENTRIES * IDT_ENTRY_SIZE - 1,
    {
        DescriptorTablePointer { limit: IDT_LIMIT, base }
    }

    /// The pointer as the ten bytes handed to the table-load instruction.
    /// Read back unchanged, they spell the same pointer.
    pub fn to_bytes(&self) -> (out: Vec<u8>)
        ensures
            out@ == self.bytes(),
            out@.len() == POINTER_SIZE,
            Self::decode(out@) == Some(*self),
    {
        let mut out: Vec<u8> = Vec::new();
        push_le(&mut out, self.limit as u64, 2);
        push_le(&mut out, self.base, 8);
        assert(out@ =~= self.bytes());
        proof {
            lemma_pointer_round_trip(*self);
        }
        out
    }

    /// Reads a pointer from the ten bytes left by the table-store instruction.
    pub fn from_bytes(bytes: &[u8]) -> (p: Option<Self>)
        ensures
            p == Self::decode(bytes@),
    {
        if bytes.len() != POINTER_SIZE {
            return None;
        }
        let limit: u64 = read_le(bytes, 0, 2);
        let base: u64 = read_le(bytes, 2, 8);
        proof {
            lemma_le_value_bound(bytes@, 0, 2);
        }
        Some(DescriptorTablePointer { limit: limit as u16, base })
    }

    /// Whether the pointer is that of a full interrupt table at a non-null address.
    pub fn looks_loaded(&self) -> (ok: bool)
        ensures
            ok == self.plausible(),
    {
        self.base != 0 && self.limit == IDT_LIMIT
    }
}

/// Encoding a descriptor table pointer and decoding the bytes gives the
/// pointer back, so a pointer stored by the processor and read back unchanged
/// is recognised as the one that was loaded.
pub proof fn lemma_pointer_round_trip(p: DescriptorTablePointer)
    ensures
        DescriptorTablePointer::decode(p.bytes()) == Some(p),
{
    let b = p.bytes();
    assert(b.len() == 10);
    assert forall|i: int| 0 <= i < 2 implies b[0 + i] == byte_of(p.limit as int, i) by {}
    assert forall|i: int| 0 <= i < 8 implies b[2 + i] == byte_of(p.base as int, i) by {}
    lemma_le_round_trip(b, 0, p.limit as int, 2);
    lemma_le_round_trip(b, 2, p.base as int, 8);
}

/// The descriptor table register of the processor, as far as the table-load
/// and table-store instructions show it: it holds the pointer that was
/// loaded last.
#[derive(Clone, Copy, Debug, PartialEq, Eq, Structural)]
pub struct TableRegister {
    pub pointer: DescriptorTablePointer,
}

impl TableRegister {
    /// The register after the table-load instruction ran on `operand`; it
    /// keeps its content where `operand` is no pointer.
    pub open spec fn loaded(self, operand: Seq<u8>) -> TableRegister {
        match DescriptorTablePointer::decode(operand) {
            Some(pointer) => TableRegister { pointer },
            None => self,
        }
    }

    /// The bytes that the table-store instruction writes.
    pub open spec fn stored(self) -> Seq<u8> {
        self.pointer.bytes()
    }

    /// The register as it is after reset: limit `0xFFFF`, base zero.
    pub fn new() -> (register: Self)
        ensures
            register.pointer == (DescriptorTablePointer { limit: 0xFFFF, base: 0 }),
    {
        TableRegister { pointer: DescriptorTablePointer { limit: 0xFFFF, base: 0 } }
    }

    /// The table-load instruction. Returns false, and changes nothing, when
    /// `operand` does not have the ten bytes of a pointer.
    pub fn load(&mut self, operand: &[u8]) -> (ok: bool)
        ensures
            ok == DescriptorTablePointer::decode(operand@).is_some(),
            *final(self) == old(self).loaded(operand@),
    {
        match DescriptorTablePointer::from_bytes(operand) {
            Some(pointer) => {
                self.pointer = pointer;
                true
            },
            None => false,
        }
    }

    /// The table-store instruction.
    pub fn store(&self) -> (readback: Vec<u8>)
        ensures
            readback@ == self.stored(),
            DescriptorTablePointer::decode(readback@) == Some(self.pointer),
    {
        self.pointer.to_bytes()
    }
}

/// Loading a pointer and reading the register back gives the identical
/// limit and base, whatever the register held before.
pub proof fn lemma_load_then_store(register: TableRegister, p: DescriptorTablePointer)
    ensures
        register.loaded(p.bytes()).pointer == p,
        DescriptorTablePointer::decode(register.loaded(p.bytes()).stored()) == Some(p),
{
    lemma_pointer_round_trip(p);
}

/// Why a table could not be built.
#[derive(Clone, Copy, Debug, PartialEq, Eq, Structural)]
pub enum IdtError {
    /// More handler addresses were given than there are vectors.
    TooManyHandlers,
    /// The attributes lack the present bit, so no descriptor would be usable.
    GateNotPresent,
    /// The handler address for `vector` is null.
    NullHandler { vector: u8 },
}

/// The entry address assigned to `vector`: its own stub where one was given,
/// the shared default stub otherwise.
pub open spec fn handler_for(stubs: Seq<u64>, default_stub: u64, vector: int) -> u64 {
    if 0 <= vector < stubs.len() {
        stubs[vector]
    } else {
        default_stub
    }
}

/// The lowest vector at or above `from` whose assigned address is null; 256
/// when there is none.
pub open spec fn first_null_from(stubs: Seq<u64>, default_stub: u64, from: int) -> int
    decreases 256 - from,
{
    if from >= 256 {
        256
    } else if handler_for(stubs, default_stub, from) == 0 {
        from
    } else {
        first_null_from(stubs, default_stub, from + 1)
    }
}

/// The reason, if any, for which no table is built from these arguments.
pub open spec fn build_error(stubs: Seq<u64>, default_stub: u64, flags: u8) -> Option<IdtError> {
    if stubs.len() > IDT_ENTRIES {
        Some(IdtError::TooManyHandlers)
    } else if flags & GATE_PRESENT == 0 {
        Some(IdtError::GateNotPresent)
    } else if first_null_from(stubs, default_stub, 0) < 256 {
        Some(IdtError::NullHandler { vector: first_null_from(stubs, default_stub, 0) as u8 })
    } else {
        None
    }
}

/// `first_null_from` finds a null address exactly when there is one, and
/// then the lowest.
pub proof fn lemma_first_null(stubs: Seq<u64>, default_stub: u64, from: int)
    requires
        0 <= from <= 256,
    ensures
        from <= first_null_from(stubs, default_stub, from) <= 256,
        first_null_from(stubs, default_stub, from) < 256 ==> handler_for(
            stubs,
            default_stub,
            first_null_from(stubs, default_stub, from),
        ) == 0,
        forall|v: int|
            from <= v < first_null_from(stubs, default_stub, from) ==> handler_for(
                stubs,
                default_stub,
                v,
            ) != 0,
    decreases 256 - from,
{
    if from < 256 && handler_for(stubs, default_stub, from) != 0 {
        lemma_first_null(stubs, default_stub, from + 1);
    }
}

/// The interrupt descriptor table: one gate for each of the 256 vectors.
pub struct Idt {
    entries: Vec<IdtEntry>,
}

impl View for Idt {
    type V = Seq<IdtEntry>;

    /// The descriptors, indexed by vector.
    closed spec fn view(&self) -> Seq<IdtEntry> {
        self.entries@
    }
}

impl Idt {
    /// The table has one descriptor for each of the 256 vectors.
    pub open spec fn wf(&self) -> bool {
        self@.len() == IDT_ENTRIES
    }

    /// The bytes of the table in memory: the descriptors one after another.
    pub open spec fn image(&self) -> Seq<u8> {
        Seq::new(self@.len() * IDT_ENTRY_SIZE as nat, |i: int| self@[i / 16].bytes()[i % 16])
    }

    /// A table of 256 all-zero descriptors, as memory holds before the table
    /// is populated.
    pub fn new() -> (table: Self)
        ensures
            table.wf(),
            forall|v: int| 0 <= v < 256 ==> table@[v] == IdtEntry::zero(),
    {
        let mut entries: Vec<IdtEntry> = Vec::new();
        let mut i: usize = 0;
        while i < IDT_ENTRIES
            invariant
                i <= IDT_ENTRIES,
                entries@.len() == i,
                forall|v: int| 0 <= v < i ==> entries@[v] == IdtEntry::zero(),
            decreases IDT_ENTRIES - i,
        {
            entries.push(IdtEntry::empty());
            i = i + 1;
        }
        Idt { entries }
    }

    /// Builds the table. Vector `v` gets a gate to `stubs[v]` where `stubs`
    /// reaches that far, and to `default_stub` otherwise, all with the same
    /// selector and attributes. A null handler address or attributes without
    /// the present bit are refused, so that no descriptor of a built table is
    /// left all-zero.
    pub fn build(stubs: &Vec<u64>, default_stub: u64, selector: u16, flags: u8) -> (r: Result<
        Idt,
        IdtError,
    >)
        ensures
            match r {
                Ok(table) => {
                    &&& build_error(stubs@, default_stub, flags) is None
                    &&& table.wf()
                    &&& forall|v: int|
                        0 <= v < 256 ==> {
                            &&& #[trigger] table@[v] == IdtEntry::gate(
                                handler_for(stubs@, default_stub, v),
                                selector,
                                flags,
                            )
                            &&& table@[v].address() == handler_for(stubs@, default_stub, v)
                            &&& table@[v].address() != 0
                            &&& table@[v].present()
                            &&& table@[v] != IdtEntry::zero()
                        }
                },
                Err(e) => build_error(stubs@, default_stub, flags) == Some(e),
            },
    {
        if stubs.len() > IDT_ENTRIES {
            return Err(IdtError::TooManyHandlers);
        }
        if flags & GATE_PRESENT == 0 {
            return Err(IdtError::GateNotPresent);
        }
        assert(flags != 0) by (bit_vector)
            requires
                flags & 0x80u8 != 0,
        ;
        let mut entries: Vec<IdtEntry> = Vec::new();
        let mut i: usize = 0;
        while i < IDT_ENTRIES
            invariant
                i <= IDT_ENTRIES,
                stubs@.len() <= IDT_ENTRIES,
                entries@.len() == i,
                flags != 0,
                flags & GATE_PRESENT != 0,
                first_null_from(stubs@, default_stub, 0) == first_null_from(
                    stubs@,
                    default_stub,
                    i as int,
                ),
                forall|v: int|
                    0 <= v < i ==> {
                        &&& #[trigger] entries@[v] == IdtEntry::gate(
                            handler_for(stubs@, default_stub, v),
                            selector,
                            flags,
                        )
                        &&& entries@[v].address() == handler_for(stubs@, default_stub, v)
                        &&& entries@[v].address() != 0
                    },
            decreases IDT_ENTRIES - i,
        {
            let handler: u64 = if i < stubs.len() {
                stubs[i]
            } else {
                default_stub
            };
            if handler == 0 {
                return Err(IdtError::NullHandler { vector: i as u8 });
            }
            let mut entry = IdtEntry::empty();
            entry.set_handler(handler, selector, flags);
            entries.push(entry);
            i = i + 1;
        }
        Ok(Idt { entries })
    }

    /// The descriptor of `vector`.
    pub fn entry(&self, vector: u8) -> (e: IdtEntry)
        requires
            self.wf(),
        ensures
            e == self@[vector as int],
    {
        self.entries[vector as usize]
    }

    /// Replaces the descriptor of `vector` and leaves the others as they are.
    pub fn set_handler(&mut self, vector: u8, handler: u64, selector: u16, flags: u8)
        requires
            old(self).wf(),
        ensures
            final(self).wf(),
            final(self)@ == old(self)@.update(
                vector as int,
                IdtEntry::gate(handler, selector, flags),
            ),
    {
        let mut entry = IdtEntry::empty();
        entry.set_handler(handler, selector, flags);
        self.entries.set(vector as usize, entry);
    }

    /// The 4096 bytes of the table as they are laid out in memory.
    pub fn to_bytes(&self) -> (out: Vec<u8>)
        requires
            self.wf(),
        ensures
            out@ == self.image(),
            out@.len() == IDT_ENTRIES * IDT_ENTRY_SIZE,
            forall|v: int|
                0 <= v < 256 ==> #[trigger] out@.subrange(16 * v, 16 * v + 16) == self@[v].bytes(),
    {
        let mut out: Vec<u8> = Vec::new();
        let mut i: usize = 0;
        while i < IDT_ENTRIES
            invariant
                i <= IDT_ENTRIES,
                self.entries@.len() == IDT_ENTRIES,
                out@.len() == 16 * i,
                forall|k: int| 0 <= k < 16 * i ==> out@[k] == self@[k / 16].bytes()[k % 16],
            decreases IDT_ENTRIES - i,
        {
            let mut piece: Vec<u8> = self.entries[i].to_bytes();
            let ghost before = out@;
            out.append(&mut piece);
            assert forall|k: int| 0 <= k < 16 * (i + 1) implies out@[k] == self@[k / 16].bytes()[k
                % 16] by {
                if k >= 16 * i {
                    assert(k / 16 == i);
                    assert(k % 16 == k - 16 * i);
                    assert(out@[k] == self@[i as int].bytes()[k - 16 * i]);
                } else {
                    assert(out@[k] == before[k]);
                }
            }
            i = i + 1;
        }
        assert(out@ =~= self.image());
        assert forall|v: int| 0 <= v < 256 implies #[trigger] out@.subrange(16 * v, 16 * v + 16)
            == self@[v].bytes() by {
            let piece = out@.subrange(16 * v, 16 * v + 16);
            assert(self@[v].bytes().len() == 16);
            assert forall|j: int| 0 <= j < 16 implies piece[j] == self@[v].bytes()[j] by {
                assert((16 * v + j) / 16 == v);
                assert((16 * v + j) % 16 == j);
            }
            assert(piece =~= self@[v].bytes());
        }
        out
    }
}

/// What `init` reports before it builds the table.
pub open spec fn selector_report(selector: u16) -> Seq<u8> {
    "64-bit IDT: Using kernel selector: 0x".spec_bytes() + hex_text(selector as nat)
        + "\n".spec_bytes()
}

/// What `init` reports about the pointer it hands out.
pub open spec fn pointer_report(p: DescriptorTablePointer) -> Seq<u8> {
    "64-bit IDT base: 0x".spec_bytes() + hex_halves_text(p.base) + ", limit: 0x".spec_bytes()
        + hex_text(p.limit as nat) + "\n".spec_bytes()
}

/// What `confirm_loaded` reports about the pointer read back.
pub open spec fn readback_report(p: DescriptorTablePointer) -> Seq<u8> {
    "IDT readback - base: 0x".spec_bytes() + hex_halves_text(p.base) + ", limit: 0x".spec_bytes()
        + hex_text(p.limit as nat) + "\n".spec_bytes()
}

/// Builds the interrupt table of the kernel and the pointer to load: gates
/// to `stubs` for the vectors they cover, to `default_stub` for the rest, all
/// interrupt gates in the code segment `kernel_selector`. `base` is the
/// address at which the caller will place the table image.
pub fn init(
    stubs: &Vec<u64>,
    default_stub: u64,
    kernel_selector: u16,
    base: u64,
    serial: &mut SerialPort,
) -> (r: Result<(Idt, DescriptorTablePointer), IdtError>)
    ensures
        final(serial).base_port() == old(serial).base_port(),
        match r {
            Ok((table, pointer)) => {
                &&& build_error(stubs@, default_stub, INTERRUPT_GATE) is None
                &&& table.wf()
                &&& forall|v: int|
                    0 <= v < 256 ==> {
                        &&& #[trigger] table@[v] == IdtEntry::gate(
                            handler_for(stubs@, default_stub, v),
                            kernel_selector,
                            INTERRUPT_GATE,
                        )
                        &&& table@[v].address() == handler_for(stubs@, default_stub, v)
                        &&& table@[v] != IdtEntry::zero()
                    }
                &&& pointer == (DescriptorTablePointer { limit: IDT_LIMIT, base })
                &&& final(serial)@ == old(serial)@ + selector_report(kernel_selector)
                    + pointer_report(pointer)
            },
            Err(e) => {
                &&& build_error(stubs@, default_stub, INTERRUPT_GATE) == Some(e)
                &&& final(serial)@ == old(serial)@ + selector_report(kernel_selector)
            },
        },
{
    serial.write_str("64-bit IDT: Using kernel selector: 0x");
    serial.write_hex(kernel_selector as u32);
    serial.write_str("\n");
    proof {
        lemma_append_3(
            old(serial)@,
            "64-bit IDT: Using kernel selector: 0x".spec_bytes(),
            hex_text(kernel_selector as nat),
            "\n".spec_bytes(),
        );
    }
    let ghost selected = serial@;
    match Idt::build(stubs, default_stub, kernel_selector, INTERRUPT_GATE) {
        Ok(table) => {
            let pointer = DescriptorTablePointer::for_table(base);
            serial.write_str("64-bit IDT base: 0x");
            serial.write_hex_halves(pointer.base);
            serial.write_str(", limit: 0x");
            serial.write_hex(pointer.limit as u32);
            serial.write_str("\n");
            proof {
                lemma_append_5(
                    selected,
                    "64-bit IDT base: 0x".spec_bytes(),
                    hex_halves_text(pointer.base),
                    ", limit: 0x".spec_bytes(),
                    hex_text(pointer.limit as nat),
                    "\n".spec_bytes(),
                );
            }
            Ok((table, pointer))
        },
        Err(e) => Err(e),
    }
}

/// Judges the ten bytes read back from the processor after the table was
/// loaded: they must spell the pointer that was requested. The pointer read
/// back is reported either way.
pub fn confirm_loaded(requested: &DescriptorTablePointer, readback: &[u8], serial: &mut SerialPort)
    -> (ok: bool)
    ensures
        ok == (DescriptorTablePointer::decode(readback@) == Some(*requested)),
        final(serial).base_port() == old(serial).base_port(),
        final(serial)@ == old(serial)@ + match DescriptorTablePointer::decode(readback@) {
            Some(p) => readback_report(p) + if p == *requested {
                "64-bit IDT loaded successfully\n".spec_bytes()
            } else {
                "WARNING: IDT readback differs from the table requested\n".spec_bytes()
            },
            None => "WARNING: IDT readback is not a table pointer\n".spec_bytes(),
        },
{
    match DescriptorTablePointer::from_bytes(readback) {
        Some(p) => {
            serial.write_str("IDT readback - base: 0x");
            serial.write_hex_halves(p.base);
            serial.write_str(", limit: 0x");
            serial.write_hex(p.limit as u32);
            serial.write_str("\n");
            proof {
                lemma_append_5(
                    old(serial)@,
                    "IDT readback - base: 0x".spec_bytes(),
                    hex_halves_text(p.base),
                    ", limit: 0x".spec_bytes(),
                    hex_text(p.limit as nat),
                    "\n".spec_bytes(),
                );
            }
            let same = p.limit == requested.limit && p.base == requested.base;
            if same {
                serial.write_str("64-bit IDT loaded successfully\n");
            } else {
                serial.write_str("WARNING: IDT readback differs from the table requested\n");
            }
            proof {
                lemma_append(
                    old(serial)@,
                    readback_report(p),
                    if p == *requested {
                        "64-bit IDT loaded successfully\n".spec_bytes()
                    } else {
                        "WARNING: IDT readback differs from the table requested\n".spec_bytes()
                    },
                );
            }
            same
        },
        None => {
            serial.write_str("WARNING: IDT readback is not a table pointer\n");
            false
        },
    }
}

} // verus!
