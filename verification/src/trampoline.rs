//! The control-transfer convention between a vector firing and the
//! dispatcher: what each entry stub pushes, the order in which the shared
//! landing sequence saves and restores the general-purpose registers, and the
//! typed view of the resulting stack frame. The sequences are data, and a
//! small stack machine gives them their meaning.

use vstd::prelude::*;
use crate::interrupts::InterruptFrame;

verus! {

/// Number of 64-bit words in an interrupt frame.
pub const FRAME_WORDS: usize = 22;
/// Number of general-purpose registers the landing sequence saves.
pub const SAVED_REGISTERS: usize = 15;
/// Alignment of the stack pointer that the calling convention requires.
pub const STACK_ALIGNMENT: u64 = 16;

/// A general-purpose register that the landing sequence saves.
#[derive(Clone, Copy, Debug, PartialEq, Eq, Structural)]
pub enum Reg {
    Rax,
    Rbx,
    Rcx,
    Rdx,
    Rbp,
    Rsi,
    Rdi,
    R8,
    R9,
    R10,
    R11,
    R12,
    R13,
    R14,
    R15,
}

/// The values of the saved general-purpose registers.
#[derive(Clone, Copy, Debug, PartialEq, Eq, Structural)]
pub struct Registers {
    pub rax: u64,
    pub rbx: u64,
    pub rcx: u64,
    pub rdx: u64,
    pub rbp: u64,
    pub rsi: u64,
    pub rdi: u64,
    pub r8: u64,
    pub r9: u64,
    pub r10: u64,
    pub r11: u64,
    pub r12: u64,
    pub r13: u64,
    pub r14: u64,
    pub r15: u64,
}

impl Registers {
    /// The value of register `r`.
    pub open spec fn get(self, r: Reg) -> u64 {
        match r {
            Reg::Rax => self.rax,
            Reg::Rbx => self.rbx,
            Reg::Rcx => self.rcx,
            Reg::Rdx => self.rdx,
            Reg::Rbp => self.rbp,
            Reg::Rsi => self.rsi,
            Reg::Rdi => self.rdi,
            Reg::R8 => self.r8,
            Reg::R9 => self.r9,
            Reg::R10 => self.r10,
            Reg::R11 => self.r11,
            Reg::R12 => self.r12,
            Reg::R13 => self.r13,
            Reg::R14 => self.r14,
            Reg::R15 => self.r15,
        }
    }

    /// The registers with `r` holding `value` and the others unchanged.
    pub open spec fn set(self, r: Reg, value: u64) -> Registers {
        match r {
            Reg::Rax => Registers { rax: value, ..self },
            Reg::Rbx => Registers { rbx: value, ..self },
            Reg::Rcx => Registers { rcx: value, ..self },
            Reg::Rdx => Registers { rdx: value, ..self },
            Reg::Rbp => Registers { rbp: value, ..self },
            Reg::Rsi => Registers { rsi: value, ..self },
            Reg::Rdi => Registers { rdi: value, ..self },
            Reg::R8 => Registers { r8: value, ..self },
            Reg::R9 => Registers { r9: value, ..self },
            Reg::R10 => Registers { r10: value, ..self },
            Reg::R11 => Registers { r11: value, ..self },
            Reg::R12 => Registers { r12: value, ..self },
            Reg::R13 => Registers { r13: value, ..self },
            Reg::R14 => Registers { r14: value, ..self },
            Reg::R15 => Registers { r15: value, ..self },
        }
    }

    /// Reads register `r`.
    pub fn read(&self, r: Reg) -> (value: u64)
        ensures
            value == self.get(r),
    {
        match r {
            Reg::Rax => self.rax,
            Reg::Rbx => self.rbx,
            Reg::Rcx => self.rcx,
            Reg::Rdx => self.rdx,
            Reg::Rbp => self.rbp,
            Reg::Rsi => self.rsi,
            Reg::Rdi => self.rdi,
            Reg::R8 => self.r8,
            Reg::R9 => self.r9,
            Reg::R10 => self.r10,
            Reg::R11 => self.r11,
            Reg::R12 => self.r12,
            Reg::R13 => self.r13,
            Reg::R14 => self.r14,
            Reg::R15 => self.r15,
        }
    }

    /// Writes `value` to register `r`.
    pub fn write(&mut self, r: Reg, value: u64)
        ensures
            *final(self) == old(self).set(r, value),
    {
        match r {
            Reg::Rax => self.rax = value,
            Reg::Rbx => self.rbx = value,
            Reg::Rcx => self.rcx = value,
            Reg::Rdx => self.rdx = value,
            Reg::Rbp => self.rbp = value,
            Reg::Rsi => self.rsi = value,
            Reg::Rdi => self.rdi = value,
            Reg::R8 => self.r8 = value,
            Reg::R9 => self.r9 = value,
            Reg::R10 => self.r10 = value,
            Reg::R11 => self.r11 = value,
            Reg::R12 => self.r12 = value,
            Reg::R13 => self.r13 = value,
            Reg::R14 => self.r14 = value,
            Reg::R15 => self.r15 = value,
        }
    }
}

/// One stack instruction of an entry stub or of the landing sequence.
#[derive(Clone, Copy, Debug, PartialEq, Eq, Structural)]
pub enum StackOp {
    /// Push the value of a register.
    Push(Reg),
    /// Pop the top of the stack into a register.
    Pop(Reg),
    /// Push a literal.
    PushValue(u64),
    /// Remove the top words without reading them.
    Discard(u8),
    /// Copy the stack pointer into a register.
    SaveStackPointer(Reg),
    /// Round the stack pointer down to a multiple of sixteen.
    AlignStack,
    /// Load the stack pointer from a register, giving up what lies above.
    RestoreStackPointer(Reg),
}

/// The machine state the trampoline works on: the general-purpose registers
/// and the stack, whose top is the last element. The stack grows downwards
/// from `stack_base`, so the stack pointer is `stack_base` less eight bytes
/// for each word on the stack.
#[derive(Debug)]
pub struct Cpu {
    pub regs: Registers,
    pub stack: Vec<u64>,
    pub stack_base: u64,
}

/// The mathematical state of a `Cpu`.
pub struct CpuState {
    pub regs: Registers,
    pub stack: Seq<u64>,
    pub stack_base: u64,
}

impl View for Cpu {
    type V = CpuState;

    /// The registers, the stack and the stack base.
    open spec fn view(&self) -> CpuState {
        CpuState { regs: self.regs, stack: self.stack@, stack_base: self.stack_base }
    }
}

impl CpuState {
    /// The stack pointer: the address of the word on top of the stack.
    pub open spec fn sp(self) -> int {
        self.stack_base - 8 * self.stack.len()
    }

    /// The state after one instruction; nothing when the instruction reads
    /// below the bottom of the stack, or moves the stack pointer to where
    /// no word of the stack lies.
    pub open spec fn step(self, op: StackOp) -> Option<CpuState> {
        match op {
            StackOp::Push(r) => Some(CpuState { stack: self.stack.push(self.regs.get(r)), ..self }),
            StackOp::Pop(r) => if self.stack.len() > 0 {
                Some(
                    CpuState {
                        regs: self.regs.set(r, self.stack.last()),
                        stack: self.stack.drop_last(),
                        ..self
                    },
                )
            } else {
                None
            },
            StackOp::PushValue(v) => Some(CpuState { stack: self.stack.push(v), ..self }),
            StackOp::Discard(n) => if self.stack.len() >= n {
                Some(CpuState { stack: self.stack.subrange(0, self.stack.len() - n), ..self })
            } else {
                None
            },
            StackOp::SaveStackPointer(r) => if self.sp() >= 0 {
                Some(CpuState { regs: self.regs.set(r, self.sp() as u64), ..self })
            } else {
                None
            },
            StackOp::AlignStack => if self.sp() >= 0 && self.sp() % 16 == 0 {
                Some(self)
            } else if self.sp() >= 0 && self.sp() % 16 == 8 {
                Some(CpuState { stack: self.stack.push(0), ..self })
            } else {
                None
            },
            StackOp::RestoreStackPointer(r) => {
                let target = self.regs.get(r);
                let depth = self.stack_base - target;
                if depth >= 0 && depth % 8 == 0 && depth / 8 <= self.stack.len() {
                    Some(CpuState { stack: self.stack.subrange(0, depth / 8), ..self })
                } else {
                    None
                }
            },
        }
    }

    /// The state after the instructions of `ops`, first to last.
    pub open spec fn run(self, ops: Seq<StackOp>) -> Option<CpuState>
        decreases ops.len(),
    {
        if ops.len() == 0 {
            Some(self)
        } else {
            match self.step(ops[0]) {
                Some(next) => next.run(ops.drop_first()),
                None => None,
            }
        }
    }

    /// The state in which a run of `ops` ends: after the last instruction,
    /// or before the first one that cannot run.
    pub open spec fn reached(self, ops: Seq<StackOp>) -> CpuState
        decreases ops.len(),
    {
        if ops.len() == 0 {
            self
        } else {
            match self.step(ops[0]) {
                Some(next) => next.reached(ops.drop_first()),
                None => self,
            }
        }
    }
}

/// Where every instruction of `ops` can run, the state in which the run
/// ends is the state after all of them.
pub proof fn lemma_reached_is_run(cpu: CpuState, ops: Seq<StackOp>)
    ensures
        cpu.run(ops) matches Some(end) ==> cpu.reached(ops) == end,
    decreases ops.len(),
{
    if ops.len() > 0 {
        match cpu.step(ops[0]) {
            Some(next) => {
                lemma_reached_is_run(next, ops.drop_first());
            },
            None => {},
        }
    }
}

impl Cpu {
    /// A machine with the given registers and stack contents, whose stack
    /// grows down from `stack_base`.
    pub fn new(regs: Registers, stack: Vec<u64>, stack_base: u64) -> (cpu: Self)
        ensures
            cpu@ == (CpuState { regs, stack: stack@, stack_base }),
    {
        Cpu { regs, stack, stack_base }
    }

    /// The stack pointer, when it is an address at all: nothing when more
    /// words lie on the stack than fit below `stack_base`.
    pub fn stack_pointer(&self) -> (sp: Option<u64>)
        ensures
            sp == if self@.sp() >= 0 {
                Some(self@.sp() as u64)
            } else {
                None
            },
    {
        let len = self.stack.len() as u64;
        if len > self.stack_base / 8 {
            None
        } else {
            Some(self.stack_base - 8 * len)
        }
    }

    /// Executes one instruction. Returns false, with the state unchanged,
    /// when the instruction cannot run.
    pub fn step(&mut self, op: StackOp) -> (ok: bool)
        ensures
            ok == old(self)@.step(op).is_some(),
            ok ==> final(self)@ == old(self)@.step(op).unwrap(),
            !ok ==> final(self)@ == old(self)@,
    {
        match op {
            StackOp::Push(r) => {
                let value = self.regs.read(r);
                self.stack.push(value);
                true
            },
            StackOp::Pop(r) => {
                if self.stack.len() == 0 {
                    return false;
                }
                let value = self.stack[self.stack.len() - 1];
                self.stack.truncate(self.stack.len() - 1);
                self.regs.write(r, value);
                assert(self.stack@ =~= old(self).stack@.drop_last());
                true
            },
            StackOp::PushValue(v) => {
                self.stack.push(v);
                true
            },
            StackOp::Discard(n) => {
                if self.stack.len() < n as usize {
                    return false;
                }
                self.stack.truncate(self.stack.len() - n as usize);
                assert(self.stack@ =~= old(self).stack@.subrange(
                    0,
                    old(self).stack@.len() - n,
                ));
                true
            },
            StackOp::SaveStackPointer(r) => {
                match self.stack_pointer() {
                    Some(sp) => {
                        self.regs.write(r, sp);
                        true
                    },
                    None => false,
                }
            },
            StackOp::AlignStack => {
                match self.stack_pointer() {
                    Some(sp) => {
                        if sp % 16 == 0 {
                            true
                        } else if sp % 16 == 8 {
                            self.stack.push(0);
                            true
                        } else {
                            false
                        }
                    },
                    None => false,
                }
            },
            StackOp::RestoreStackPointer(r) => {
                let target = self.regs.read(r);
                if target > self.stack_base {
                    return false;
                }
                let depth: u64 = self.stack_base - target;
                if depth % 8 != 0 || depth / 8 > self.stack.len() as u64 {
                    return false;
                }
                self.stack.truncate((depth / 8) as usize);
                assert(self.stack@ =~= old(self).stack@.subrange(0, (depth / 8) as int));
                true
            },
        }
    }

    /// Executes `ops` in order and stops at the first instruction that
    /// cannot run. Returns whether all of them ran; the instructions before
    /// the one that could not run have taken effect.
    pub fn run(&mut self, ops: &Vec<StackOp>) -> (ok: bool)
        ensures
            ok == old(self)@.run(ops@).is_some(),
            ok ==> final(self)@ == old(self)@.run(ops@).unwrap(),
            final(self)@ == old(self)@.reached(ops@),
    {
        let mut i: usize = 0;
        assert(ops@.subrange(0, ops@.len() as int) =~= ops@);
        while i < ops.len()
            invariant
                i <= ops.len(),
                old(self)@.run(ops@) == self@.run(ops@.subrange(i as int, ops@.len() as int)),
                old(self)@.reached(ops@) == self@.reached(
                    ops@.subrange(i as int, ops@.len() as int),
                ),
            decreases ops.len() - i,
        {
            let ghost rest = ops@.subrange(i as int, ops@.len() as int);
            assert(rest[0] == ops@[i as int]);
            assert(rest.drop_first() =~= ops@.subrange(i + 1, ops@.len() as int));
            if !self.step(ops[i]) {
                return false;
            }
            i = i + 1;
        }
        true
    }
}

// ---------------------------------------------------------------------------
// The sequences
// ---------------------------------------------------------------------------

/// Whether the processor itself pushes a fault code for `vector`. The entry
/// stub of such a vector must not push one of its own.
pub open spec fn pushes_error_code(vector: u8) -> bool {
    vector == 8 || (10 <= vector <= 14) || vector == 17 || vector == 21 || vector == 29 || vector
        == 30
}

/// What the entry stub of `vector` pushes: a zero fault code where the
/// processor pushed none, then the vector number.
pub open spec fn entry_ops(vector: u8) -> Seq<StackOp> {
    if pushes_error_code(vector) {
        seq![StackOp::PushValue(vector as u64)]
    } else {
        seq![StackOp::PushValue(0), StackOp::PushValue(vector as u64)]
    }
}

/// The order in which the landing sequence pushes the registers.
pub open spec fn save_ops() -> Seq<StackOp> {
    seq![
        StackOp::Push(Reg::Rax),
        StackOp::Push(Reg::Rbx),
        StackOp::Push(Reg::Rcx),
        StackOp::Push(Reg::Rdx),
        StackOp::Push(Reg::Rbp),
        StackOp::Push(Reg::Rsi),
        StackOp::Push(Reg::Rdi),
        StackOp::Push(Reg::R8),
        StackOp::Push(Reg::R9),
        StackOp::Push(Reg::R10),
        StackOp::Push(Reg::R11),
        StackOp::Push(Reg::R12),
        StackOp::Push(Reg::R13),
        StackOp::Push(Reg::R14),
        StackOp::Push(Reg::R15),
    ]
}

/// The order in which the landing sequence pops the registers.
pub open spec fn restore_ops() -> Seq<StackOp> {
    seq![
        StackOp::Pop(Reg::R15),
        StackOp::Pop(Reg::R14),
        StackOp::Pop(Reg::R13),
        StackOp::Pop(Reg::R12),
        StackOp::Pop(Reg::R11),
        StackOp::Pop(Reg::R10),
        StackOp::Pop(Reg::R9),
        StackOp::Pop(Reg::R8),
        StackOp::Pop(Reg::Rdi),
        StackOp::Pop(Reg::Rsi),
        StackOp::Pop(Reg::Rbp),
        StackOp::Pop(Reg::Rdx),
        StackOp::Pop(Reg::Rcx),
        StackOp::Pop(Reg::Rbx),
        StackOp::Pop(Reg::Rax),
    ]
}

/// What runs after the dispatcher returns: the pops, then the removal of the
/// vector number and the fault code.
pub open spec fn exit_ops() -> Seq<StackOp> {
    restore_ops().push(StackOp::Discard(2))
}

/// What runs between the register pushes and the call of the dispatcher:
/// the stack pointer is kept in `rbp`, which the dispatcher preserves, and
/// then aligned as the calling convention requires.
pub open spec fn call_ops() -> Seq<StackOp> {
    seq![StackOp::SaveStackPointer(Reg::Rbp), StackOp::AlignStack]
}

/// What runs right after the dispatcher returns: the alignment is taken
/// back by loading the stack pointer from `rbp`.
pub open spec fn return_ops() -> Seq<StackOp> {
    seq![StackOp::RestoreStackPointer(Reg::Rbp)]
}

/// The pop that takes back what a register push put on the stack. Any other
/// instruction stands for itself.
pub open spec fn pop_of(op: StackOp) -> StackOp {
    match op {
        StackOp::Push(r) => StackOp::Pop(r),
        other => other,
    }
}

/// The mirror image of a run of register pushes: the pops of the same
/// registers in reverse order.
pub open spec fn mirror(ops: Seq<StackOp>) -> Seq<StackOp> {
    Seq::new(ops.len(), |i: int| pop_of(ops[ops.len() - 1 - i]))
}

/// Every instruction of `ops` pushes a register.
pub open spec fn only_pushes(ops: Seq<StackOp>) -> bool {
    forall|i: int| 0 <= i < ops.len() ==> ops[i] is Push
}

/// Whether the processor pushes a fault code for `vector`.
pub fn has_error_code(vector: u8) -> (b: bool)
    ensures
        b == pushes_error_code(vector),
{
    vector == 8 || (10 <= vector && vector <= 14) || vector == 17 || vector == 21 || vector == 29
        || vector == 30
}

/// The instructions of the entry stub of `vector`.
pub fn entry_stub(vector: u8) -> (ops: Vec<StackOp>)
    ensures
        ops@ == entry_ops(vector),
{
    let mut ops: Vec<StackOp> = Vec::new();
    if !has_error_code(vector) {
        ops.push(StackOp::PushValue(0));
    }
    ops.push(StackOp::PushValue(vector as u64));
    assert(ops@ =~= entry_ops(vector));
    ops
}

/// The register pushes of the landing sequence, in order.
pub fn save_sequence() -> (ops: Vec<StackOp>)
    ensures
        ops@ == save_ops(),
{
    let mut ops: Vec<StackOp> = Vec::new();
    ops.push(StackOp::Push(Reg::Rax));
    ops.push(StackOp::Push(Reg::Rbx));
    ops.push(StackOp::Push(Reg::Rcx));
    ops.push(StackOp::Push(Reg::Rdx));
    ops.push(StackOp::Push(Reg::Rbp));
    ops.push(StackOp::Push(Reg::Rsi));
    ops.push(StackOp::Push(Reg::Rdi));
    ops.push(StackOp::Push(Reg::R8));
    ops.push(StackOp::Push(Reg::R9));
    ops.push(StackOp::Push(Reg::R10));
    ops.push(StackOp::Push(Reg::R11));
    ops.push(StackOp::Push(Reg::R12));
    ops.push(StackOp::Push(Reg::R13));
    ops.push(StackOp::Push(Reg::R14));
    ops.push(StackOp::Push(Reg::R15));
    assert(ops@ =~= save_ops());
    ops
}

/// The instructions that run after the dispatcher returns: the register
/// pops, which are the pushes of `save_sequence` mirrored, then the removal
/// of the vector number and the fault code.
pub fn restore_sequence() -> (ops: Vec<StackOp>)
    ensures
        ops@ == exit_ops(),
        ops@ == mirror(save_ops()).push(StackOp::Discard(2)),
{
    let saved = save_sequence();
    let mut ops: Vec<StackOp> = Vec::new();
    let mut i: usize = saved.len();
    while i > 0
        invariant
            i <= saved@.len(),
            saved@ == save_ops(),
            ops@ == mirror(saved@).subrange(0, saved@.len() - i),
        decreases i,
    {
        i = i - 1;
        let op = match saved[i] {
            StackOp::Push(r) => StackOp::Pop(r),
            other => other,
        };
        ops.push(op);
        assert(ops@ =~= mirror(saved@).subrange(0, saved@.len() - i));
    }
    assert(ops@ =~= mirror(save_ops()));
    proof {
        lemma_restore_mirrors_save();
    }
    ops.push(StackOp::Discard(2));
    ops
}

/// The instructions of the shared landing sequence up to the call of the
/// dispatcher: the register pushes, then the alignment of the stack.
pub fn landing_sequence() -> (ops: Vec<StackOp>)
    ensures
        ops@ == save_ops() + call_ops(),
{
    let mut ops = save_sequence();
    ops.push(StackOp::SaveStackPointer(Reg::Rbp));
    ops.push(StackOp::AlignStack);
    assert(ops@ =~= save_ops() + call_ops());
    ops
}

/// The instructions of the shared landing sequence after the dispatcher has
/// returned: the alignment is taken back, the registers are popped, the
/// vector number and the fault code are removed.
pub fn leaving_sequence() -> (ops: Vec<StackOp>)
    ensures
        ops@ == return_ops() + exit_ops(),
{
    let mut ops: Vec<StackOp> = Vec::new();
    ops.push(StackOp::RestoreStackPointer(Reg::Rbp));
    let mut rest = restore_sequence();
    ops.append(&mut rest);
    assert(ops@ =~= return_ops() + exit_ops());
    ops
}

/// The stack pointer the dispatcher is called with: `sp` rounded down to the
/// alignment the calling convention requires.
pub fn aligned_stack_pointer(sp: u64) -> (aligned: u64)
    ensures
        aligned % STACK_ALIGNMENT == 0,
        aligned <= sp,
        sp - aligned < STACK_ALIGNMENT,
        aligned == sp - sp % STACK_ALIGNMENT,
{
    assert(sp & 0xFFFF_FFFF_FFFF_FFF0 == sp - sp % 16) by (bit_vector);
    sp & 0xFFFF_FFFF_FFFF_FFF0
}

// ---------------------------------------------------------------------------
// Laws of the sequences
// ---------------------------------------------------------------------------

/// Running `a` and then `b` is running their concatenation.
pub proof fn lemma_run_concat(cpu: CpuState, a: Seq<StackOp>, b: Seq<StackOp>)
    ensures
        cpu.run(a + b) == match cpu.run(a) {
            Some(mid) => mid.run(b),
            None => None,
        },
    decreases a.len(),
{
    if a.len() == 0 {
        assert(a + b =~= b);
    } else {
        assert((a + b)[0] == a[0]);
        assert((a + b).drop_first() =~= a.drop_first() + b);
        match cpu.step(a[0]) {
            Some(next) => {
                lemma_run_concat(next, a.drop_first(), b);
            },
            None => {},
        }
    }
}

/// Running a single instruction is taking one step.
pub proof fn lemma_run_one(cpu: CpuState, op: StackOp)
    ensures
        cpu.run(seq![op]) == cpu.step(op),
{
    let s = seq![op];
    assert(s.drop_first() =~= Seq::<StackOp>::empty());
    match cpu.step(op) {
        Some(next) => {
            assert(next.run(s.drop_first()) == Some(next));
        },
        None => {},
    }
}

/// The pops of the landing sequence are the mirror image of its pushes.
pub proof fn lemma_restore_mirrors_save()
    ensures
        restore_ops() == mirror(save_ops()),
{
    assert(restore_ops() =~= mirror(save_ops()));
}

/// Any run of register pushes followed by its mirror image leaves every
/// register and the whole stack exactly as they were, whatever the values.
pub proof fn lemma_mirror_restores(cpu: CpuState, ops: Seq<StackOp>)
    requires
        only_pushes(ops),
    ensures
        cpu.run(ops + mirror(ops)) == Some(cpu),
    decreases ops.len(),
{
    if ops.len() == 0 {
        assert(ops + mirror(ops) =~= Seq::<StackOp>::empty());
    } else {
        let head = ops.drop_last();
        let last = ops.last();
        let r = last->Push_0;
        assert(last is Push);
        assert(only_pushes(head));
        assert(mirror(ops) =~= seq![StackOp::Pop(r)] + mirror(head));
        assert(ops + mirror(ops) =~= head + (seq![last] + (seq![StackOp::Pop(r)] + mirror(head))));
        // After the pushes of `head`, the registers are untouched.
        lemma_pushes_keep_registers(cpu, head);
        let mid = cpu.run(head).unwrap();
        lemma_run_concat(cpu, head, seq![last] + (seq![StackOp::Pop(r)] + mirror(head)));
        lemma_run_concat(mid, seq![last], seq![StackOp::Pop(r)] + mirror(head));
        lemma_run_one(mid, last);
        let pushed = mid.step(last).unwrap();
        lemma_run_concat(pushed, seq![StackOp::Pop(r)], mirror(head));
        lemma_run_one(pushed, StackOp::Pop(r));
        let popped = pushed.step(StackOp::Pop(r)).unwrap();
        assert(popped.stack =~= mid.stack);
        assert(popped.regs == mid.regs);
        assert(popped == mid);
        // `mid.run(mirror(head)) == Some(cpu)` because `cpu.run(head + mirror(head))` does.
        lemma_mirror_restores(cpu, head);
        lemma_run_concat(cpu, head, mirror(head));
    }
}

/// Register pushes always run, change no register, and put the values of
/// the registers on the stack in order.
pub proof fn lemma_pushes_keep_registers(cpu: CpuState, ops: Seq<StackOp>)
    requires
        only_pushes(ops),
    ensures
        cpu.run(ops) is Some,
        cpu.run(ops).unwrap().regs == cpu.regs,
        cpu.run(ops).unwrap().stack_base == cpu.stack_base,
        cpu.run(ops).unwrap().stack == cpu.stack + Seq::new(
            ops.len(),
            |i: int| cpu.regs.get(ops[i]->Push_0),
        ),
    decreases ops.len(),
{
    if ops.len() == 0 {
        assert(cpu.stack =~= cpu.stack + Seq::new(
            ops.len(),
            |i: int| cpu.regs.get(ops[i]->Push_0),
        ));
    } else {
        let next = cpu.step(ops[0]).unwrap();
        assert(ops[0] is Push);
        let rest = ops.drop_first();
        assert(only_pushes(rest)) by {
            assert forall|i: int| 0 <= i < rest.len() implies rest[i] is Push by {
                assert(rest[i] == ops[i + 1]);
            }
        }
        lemma_pushes_keep_registers(next, rest);
        assert(next.run(rest).unwrap().stack =~= cpu.stack + Seq::new(
            ops.len(),
            |i: int| cpu.regs.get(ops[i]->Push_0),
        ));
    }
}

/// Frame symmetry. For every vector and every register and stack contents,
/// running the entry stub, the register pushes and then the exit sequence
/// gives back every register bit for bit, and leaves the stack as the
/// processor needs it for the interrupt return: as it was at entry, less the
/// fault code where the processor had pushed one.
pub proof fn lemma_frame_symmetry(cpu: CpuState, vector: u8)
    requires
        pushes_error_code(vector) ==> cpu.stack.len() >= 1,
    ensures
        cpu.run(entry_ops(vector) + save_ops() + exit_ops()) == Some(
            CpuState {
                regs: cpu.regs,
                stack: if pushes_error_code(vector) {
                    cpu.stack.drop_last()
                } else {
                    cpu.stack
                },
                stack_base: cpu.stack_base,
            },
        ),
{
    let entry = entry_ops(vector);
    let save = save_ops();
    let discard = seq![StackOp::Discard(2)];
    lemma_restore_mirrors_save();
    assert(exit_ops() =~= mirror(save) + discard);
    assert(entry + save + exit_ops() =~= entry + ((save + mirror(save)) + discard));
    // The entry stub.
    let entered = if pushes_error_code(vector) {
        CpuState { stack: cpu.stack.push(vector as u64), ..cpu }
    } else {
        CpuState { stack: cpu.stack.push(0).push(vector as u64), ..cpu }
    };
    assert(cpu.run(entry) == Some(entered)) by {
        if pushes_error_code(vector) {
            lemma_run_one(cpu, StackOp::PushValue(vector as u64));
        } else {
            assert(entry =~= seq![StackOp::PushValue(0)] + seq![StackOp::PushValue(vector as u64)]);
            lemma_run_concat(
                cpu,
                seq![StackOp::PushValue(0)],
                seq![StackOp::PushValue(vector as u64)],
            );
            lemma_run_one(cpu, StackOp::PushValue(0));
            lemma_run_one(cpu.step(StackOp::PushValue(0)).unwrap(), StackOp::PushValue(vector as u64));
        }
    }
    lemma_run_concat(cpu, entry, (save + mirror(save)) + discard);
    // Save and restore cancel.
    assert(only_pushes(save));
    lemma_mirror_restores(entered, save);
    lemma_run_concat(entered, save + mirror(save), discard);
    // The vector number and the fault code are dropped.
    lemma_run_one(entered, StackOp::Discard(2));
    let left = entered.step(StackOp::Discard(2)).unwrap();
    assert(left.stack =~= if pushes_error_code(vector) {
        cpu.stack.drop_last()
    } else {
        cpu.stack
    });
}

// ---------------------------------------------------------------------------
// The typed view of the frame
// ---------------------------------------------------------------------------

/// The 22 words of a frame as they lie on the stack, bottom first: the
/// processor's five, the fault code, the vector number, then the registers
/// in the order of `save_ops`.
pub open spec fn frame_words(f: InterruptFrame) -> Seq<u64> {
    seq![
        f.ss,
        f.rsp,
        f.rflags,
        f.cs,
        f.rip,
        f.err_code,
        f.int_no,
        f.rax,
        f.rbx,
        f.rcx,
        f.rdx,
        f.rbp,
        f.rsi,
        f.rdi,
        f.r8,
        f.r9,
        f.r10,
        f.r11,
        f.r12,
        f.r13,
        f.r14,
        f.r15,
    ]
}

/// The frame whose words are `w`, read bottom first.
pub open spec fn frame_from_words(w: Seq<u64>) -> InterruptFrame {
    InterruptFrame {
        r15: w[21],
        r14: w[20],
        r13: w[19],
        r12: w[18],
        r11: w[17],
        r10: w[16],
        r9: w[15],
        r8: w[14],
        rdi: w[13],
        rsi: w[12],
        rbp: w[11],
        rdx: w[10],
        rcx: w[9],
        rbx: w[8],
        rax: w[7],
        int_no: w[6],
        err_code: w[5],
        rip: w[4],
        cs: w[3],
        rflags: w[2],
        rsp: w[1],
        ss: w[0],
    }
}

/// The frame on top of `stack`, when the stack holds at least a frame.
pub open spec fn frame_on(stack: Seq<u64>) -> Option<InterruptFrame> {
    if stack.len() >= FRAME_WORDS {
        Some(frame_from_words(stack.subrange(stack.len() - FRAME_WORDS, stack.len() as int)))
    } else {
        None
    }
}

/// The general-purpose registers as a frame records them.
pub open spec fn frame_registers(f: InterruptFrame) -> Registers {
    Registers {
        rax: f.rax,
        rbx: f.rbx,
        rcx: f.rcx,
        rdx: f.rdx,
        rbp: f.rbp,
        rsi: f.rsi,
        rdi: f.rdi,
        r8: f.r8,
        r9: f.r9,
        r10: f.r10,
        r11: f.r11,
        r12: f.r12,
        r13: f.r13,
        r14: f.r14,
        r15: f.r15,
    }
}

/// Reads the frame on top of `stack`, for the dispatcher to work on.
pub fn read_frame(stack: &Vec<u64>) -> (frame: Option<InterruptFrame>)
    ensures
        frame == frame_on(stack@),
        frame matches Some(f) ==> stack@.subrange(stack@.len() - FRAME_WORDS, stack@.len() as int)
            == frame_words(f),
{
    let n = stack.len();
    if n < FRAME_WORDS {
        return None;
    }
    let b: usize = n - FRAME_WORDS;
    let f = InterruptFrame {
        r15: stack[b + 21],
        r14: stack[b + 20],
        r13: stack[b + 19],
        r12: stack[b + 18],
        r11: stack[b + 17],
        r10: stack[b + 16],
        r9: stack[b + 15],
        r8: stack[b + 14],
        rdi: stack[b + 13],
        rsi: stack[b + 12],
        rbp: stack[b + 11],
        rdx: stack[b + 10],
        rcx: stack[b + 9],
        rbx: stack[b + 8],
        rax: stack[b + 7],
        int_no: stack[b + 6],
        err_code: stack[b + 5],
        rip: stack[b + 4],
        cs: stack[b + 3],
        rflags: stack[b + 2],
        rsp: stack[b + 1],
        ss: stack[b],
    };
    assert(stack@.subrange(stack@.len() - FRAME_WORDS, stack@.len() as int) =~= frame_words(f));
    Some(f)
}

/// Stores `frame` over the frame on top of `stack`, so that what the
/// dispatcher changed is what the exit sequence restores. Returns false, and
/// changes nothing, when the stack holds no full frame.
pub fn write_frame(stack: &mut Vec<u64>, frame: &InterruptFrame) -> (ok: bool)
    ensures
        ok == (old(stack)@.len() >= FRAME_WORDS),
        ok ==> final(stack)@ == old(stack)@.subrange(0, old(stack)@.len() - FRAME_WORDS)
            + frame_words(*frame),
        ok ==> frame_on(final(stack)@) == Some(*frame),
        !ok ==> final(stack)@ == old(stack)@,
{
    let n = stack.len();
    if n < FRAME_WORDS {
        return false;
    }
    stack.truncate(n - FRAME_WORDS);
    stack.push(frame.ss);
    stack.push(frame.rsp);
    stack.push(frame.rflags);
    stack.push(frame.cs);
    stack.push(frame.rip);
    stack.push(frame.err_code);
    stack.push(frame.int_no);
    stack.push(frame.rax);
    stack.push(frame.rbx);
    stack.push(frame.rcx);
    stack.push(frame.rdx);
    stack.push(frame.rbp);
    stack.push(frame.rsi);
    stack.push(frame.rdi);
    stack.push(frame.r8);
    stack.push(frame.r9);
    stack.push(frame.r10);
    stack.push(frame.r11);
    stack.push(frame.r12);
    stack.push(frame.r13);
    stack.push(frame.r14);
    stack.push(frame.r15);
    assert(stack@ =~= old(stack)@.subrange(0, old(stack)@.len() - FRAME_WORDS) + frame_words(
        *frame,
    ));
    assert(stack@.subrange(stack@.len() - FRAME_WORDS, stack@.len() as int) =~= frame_words(
        *frame,
    ));
    true
}

/// What the dispatcher sees. If the processor has pushed its five words (and
/// its fault code, for the vectors that have one) on `cpu`'s stack, then
/// after the entry stub and the register pushes the frame on top of the
/// stack holds the vector number, the processor's fault code or zero, the
/// registers as they were at entry, and the processor's five words.
pub proof fn lemma_entry_builds_frame(cpu: CpuState, vector: u8)
    requires
        cpu.stack.len() >= if pushes_error_code(vector) {
            6int
        } else {
            5int
        },
    ensures
        cpu.run(entry_ops(vector) + save_ops()) is Some,
        ({
            let at_call = cpu.run(entry_ops(vector) + save_ops()).unwrap();
            let n = cpu.stack.len() as int;
            let tail = if pushes_error_code(vector) {
                n - 1
            } else {
                n
            };
            &&& at_call.regs == cpu.regs
            &&& at_call.stack_base == cpu.stack_base
            &&& at_call.stack.len() == tail + 17
            &&& at_call.stack.subrange(0, tail) == cpu.stack.subrange(0, tail)
            &&& frame_on(at_call.stack) is Some
            &&& frame_on(at_call.stack).unwrap().int_no == vector
            &&& frame_on(at_call.stack).unwrap().err_code == if pushes_error_code(vector) {
                cpu.stack[n - 1]
            } else {
                0
            }
            &&& frame_registers(frame_on(at_call.stack).unwrap()) == cpu.regs
            &&& frame_on(at_call.stack).unwrap().rip == cpu.stack[tail - 1]
            &&& frame_on(at_call.stack).unwrap().cs == cpu.stack[tail - 2]
            &&& frame_on(at_call.stack).unwrap().rflags == cpu.stack[tail - 3]
            &&& frame_on(at_call.stack).unwrap().rsp == cpu.stack[tail - 4]
            &&& frame_on(at_call.stack).unwrap().ss == cpu.stack[tail - 5]
        }),
{
    let entry = entry_ops(vector);
    let save = save_ops();
    let entered = if pushes_error_code(vector) {
        CpuState { stack: cpu.stack.push(vector as u64), ..cpu }
    } else {
        CpuState { stack: cpu.stack.push(0).push(vector as u64), ..cpu }
    };
    assert(cpu.run(entry) == Some(entered)) by {
        if pushes_error_code(vector) {
            lemma_run_one(cpu, StackOp::PushValue(vector as u64));
        } else {
            assert(entry =~= seq![StackOp::PushValue(0)] + seq![StackOp::PushValue(vector as u64)]);
            lemma_run_concat(
                cpu,
                seq![StackOp::PushValue(0)],
                seq![StackOp::PushValue(vector as u64)],
            );
            lemma_run_one(cpu, StackOp::PushValue(0));
            lemma_run_one(cpu.step(StackOp::PushValue(0)).unwrap(), StackOp::PushValue(vector as u64));
        }
    }
    lemma_run_concat(cpu, entry, save);
    assert(only_pushes(save));
    lemma_pushes_keep_registers(entered, save);
    let at_call = entered.run(save).unwrap();
    let pushed = Seq::new(save.len(), |i: int| entered.regs.get(save[i]->Push_0));
    assert(at_call.stack == entered.stack + pushed);
    assert(pushed.len() == 15);
    let top = at_call.stack.subrange(at_call.stack.len() - FRAME_WORDS, at_call.stack.len() as int);
    let m = entered.stack.len() as int;
    assert forall|i: int| 0 <= i < 15 implies #[trigger] top[7 + i] == pushed[i] by {
        assert(top[7 + i] == at_call.stack[m + i]);
    }
    assert forall|i: int| 0 <= i < 7 implies #[trigger] top[i] == entered.stack[m - 7 + i] by {
        assert(top[i] == at_call.stack[m - 7 + i]);
    }
    assert(at_call.stack.subrange(0, m - 2) =~= cpu.stack.subrange(0, m - 2));
    assert(at_call.stack.subrange(0, m - 1) =~= entered.stack.subrange(0, m - 1));
    assert(pushed[0] == cpu.regs.rax);
    assert(pushed[1] == cpu.regs.rbx);
    assert(pushed[2] == cpu.regs.rcx);
    assert(pushed[3] == cpu.regs.rdx);
    assert(pushed[4] == cpu.regs.rbp);
    assert(pushed[5] == cpu.regs.rsi);
    assert(pushed[6] == cpu.regs.rdi);
    assert(pushed[7] == cpu.regs.r8);
    assert(pushed[8] == cpu.regs.r9);
    assert(pushed[9] == cpu.regs.r10);
    assert(pushed[10] == cpu.regs.r11);
    assert(pushed[11] == cpu.regs.r12);
    assert(pushed[12] == cpu.regs.r13);
    assert(pushed[13] == cpu.regs.r14);
    assert(pushed[14] == cpu.regs.r15);
    assert(top[7] == pushed[0]);
    assert(top[8] == pushed[1]);
    assert(top[9] == pushed[2]);
    assert(top[10] == pushed[3]);
    assert(top[11] == pushed[4]);
    assert(top[12] == pushed[5]);
    assert(top[13] == pushed[6]);
    assert(top[14] == pushed[7]);
    assert(top[15] == pushed[8]);
    assert(top[16] == pushed[9]);
    assert(top[17] == pushed[10]);
    assert(top[18] == pushed[11]);
    assert(top[19] == pushed[12]);
    assert(top[20] == pushed[13]);
    assert(top[21] == pushed[14]);
}

/// What the exit sequence restores. Whatever the registers hold when the
/// dispatcher returns, running the exit sequence on a stack topped by the
/// words of `frame` loads every register from the frame and leaves the
/// processor's five words on top for the interrupt return.
pub proof fn lemma_exit_restores_frame(
    regs: Registers,
    below: Seq<u64>,
    frame: InterruptFrame,
    stack_base: u64,
)
    ensures
        (CpuState { regs, stack: below + frame_words(frame), stack_base }).run(exit_ops()) == Some(
            CpuState {
                regs: frame_registers(frame),
                stack: below + seq![frame.ss, frame.rsp, frame.rflags, frame.cs, frame.rip],
                stack_base,
            },
        ),
{
    let words = frame_words(frame);
    let c0 = CpuState { regs, stack: below + words, stack_base };
    let n = below.len() as int;
    let ops = exit_ops();
    assert(words.subrange(0, 22) =~= words);
    // One pop at a time, from the top of the frame down.
    let c1 = lemma_exit_step(c0, ops, 0, below, words);
    let c2 = lemma_exit_step(c1, ops, 1, below, words);
    let c3 = lemma_exit_step(c2, ops, 2, below, words);
    let c4 = lemma_exit_step(c3, ops, 3, below, words);
    let c5 = lemma_exit_step(c4, ops, 4, below, words);
    let c6 = lemma_exit_step(c5, ops, 5, below, words);
    let c7 = lemma_exit_step(c6, ops, 6, below, words);
    let c8 = lemma_exit_step(c7, ops, 7, below, words);
    let c9 = lemma_exit_step(c8, ops, 8, below, words);
    let c10 = lemma_exit_step(c9, ops, 9, below, words);
    let c11 = lemma_exit_step(c10, ops, 10, below, words);
    let c12 = lemma_exit_step(c11, ops, 11, below, words);
    let c13 = lemma_exit_step(c12, ops, 12, below, words);
    let c14 = lemma_exit_step(c13, ops, 13, below, words);
    let c15 = lemma_exit_step(c14, ops, 14, below, words);
    assert(c15.regs == frame_registers(frame));
    let rest = ops.subrange(15, 16);
    assert(rest =~= seq![StackOp::Discard(2)]);
    lemma_run_one(c15, StackOp::Discard(2));
    let done = c15.step(StackOp::Discard(2)).unwrap();
    assert(done.stack =~= below + seq![frame.ss, frame.rsp, frame.rflags, frame.cs, frame.rip]);
    assert(ops.subrange(0, 16) =~= ops);
}

/// One pop of the exit sequence: with `k` registers already popped, the next
/// pop loads its register with the word that is then on top.
proof fn lemma_exit_step(
    c: CpuState,
    ops: Seq<StackOp>,
    k: int,
    below: Seq<u64>,
    words: Seq<u64>,
) -> (next: CpuState)
    requires
        ops == exit_ops(),
        0 <= k < 15,
        words.len() == 22,
        c.stack == below + words.subrange(0, 22 - k),
    ensures
        c.run(ops.subrange(k, 16)) == next.run(ops.subrange(k + 1, 16)),
        next.stack == below + words.subrange(0, 22 - k - 1),
        next.stack_base == c.stack_base,
        next.regs == c.regs.set(ops[k]->Pop_0, words[22 - k - 1]),
        ops[k] is Pop,
{
    let tail = ops.subrange(k, 16);
    assert(tail[0] == ops[k]);
    assert(tail.drop_first() =~= ops.subrange(k + 1, 16));
    let next = c.step(ops[k]).unwrap();
    assert(c.stack.last() == words[22 - k - 1]);
    assert(next.stack =~= below + words.subrange(0, 22 - k - 1));
    next
}

// ---------------------------------------------------------------------------
// The call of the dispatcher
// ---------------------------------------------------------------------------

/// The dispatcher is called on an aligned stack. On a stack of whole words
/// with room for one more, the instructions before the call leave the stack
/// pointer a multiple of sixteen, keep the unaligned stack pointer in `rbp`,
/// change no other register, and add at most one word of padding.
pub proof fn lemma_call_is_aligned(cpu: CpuState)
    requires
        cpu.stack_base % 8 == 0,
        cpu.sp() >= 8,
    ensures
        cpu.run(call_ops()) is Some,
        ({
            let at_call = cpu.run(call_ops()).unwrap();
            &&& at_call.sp() % 16 == 0
            &&& at_call.sp() == cpu.sp() - cpu.sp() % 16
            &&& at_call.regs == cpu.regs.set(Reg::Rbp, cpu.sp() as u64)
            &&& at_call.stack_base == cpu.stack_base
            &&& at_call.stack.len() >= cpu.stack.len()
            &&& at_call.stack.subrange(0, cpu.stack.len() as int) == cpu.stack
        }),
{
    let save = StackOp::SaveStackPointer(Reg::Rbp);
    assert(call_ops() =~= seq![save] + seq![StackOp::AlignStack]);
    lemma_run_concat(cpu, seq![save], seq![StackOp::AlignStack]);
    lemma_run_one(cpu, save);
    let saved = cpu.step(save).unwrap();
    lemma_run_one(saved, StackOp::AlignStack);
    let at_call = saved.step(StackOp::AlignStack).unwrap();
    assert(at_call.stack.subrange(0, cpu.stack.len() as int) =~= cpu.stack);
}

/// The alignment is taken back. Whatever the dispatcher did above the frame
/// and to the registers it may change, as long as it returns with `rbp` as
/// it was at the call and with the words that lay on the stack before the
/// call, loading the stack pointer from `rbp` leaves exactly those words.
pub proof fn lemma_return_restores_stack(before: CpuState, back: CpuState)
    requires
        before.stack_base % 8 == 0,
        before.sp() >= 0,
        back.stack_base == before.stack_base,
        back.regs.rbp == before.sp(),
        back.stack.len() >= before.stack.len(),
        back.stack.subrange(0, before.stack.len() as int) == before.stack,
    ensures
        back.run(return_ops()) == Some(CpuState { stack: before.stack, ..back }),
{
    lemma_run_one(back, StackOp::RestoreStackPointer(Reg::Rbp));
}

/// Frame symmetry of the whole trampoline. For every vector and every
/// register contents, on a stack of whole words that holds what the
/// processor pushed and has room for the frame, the entry stub, the landing
/// sequence with its alignment, and the sequence that leaves again give back
/// every register bit for bit, and leave the stack as the processor needs
/// it for the interrupt return: as it was at entry, less the fault code
/// where the processor had pushed one.
pub proof fn lemma_trampoline_round_trip(cpu: CpuState, vector: u8)
    requires
        cpu.stack_base % 8 == 0,
        cpu.sp() >= 8 * 18,
        cpu.stack.len() >= if pushes_error_code(vector) {
            6int
        } else {
            5int
        },
    ensures
        cpu.run(entry_ops(vector) + (save_ops() + call_ops()) + (return_ops() + exit_ops()))
            == Some(
            CpuState {
                regs: cpu.regs,
                stack: if pushes_error_code(vector) {
                    cpu.stack.drop_last()
                } else {
                    cpu.stack
                },
                stack_base: cpu.stack_base,
            },
        ),
{
    let entry = entry_ops(vector);
    let n = cpu.stack.len() as int;
    let tail = if pushes_error_code(vector) {
        n - 1
    } else {
        n
    };
    // Up to the register pushes.
    lemma_entry_builds_frame(cpu, vector);
    let saved = cpu.run(entry + save_ops()).unwrap();
    let frame = frame_on(saved.stack).unwrap();
    // The call.
    lemma_call_is_aligned(saved);
    let at_call = saved.run(call_ops()).unwrap();
    // The return.
    lemma_return_restores_stack(saved, at_call);
    let back = CpuState { stack: saved.stack, ..at_call };
    // The pops and the removal of vector number and fault code.
    let below = saved.stack.subrange(0, saved.stack.len() - FRAME_WORDS);
    let words = saved.stack.subrange(saved.stack.len() - FRAME_WORDS, saved.stack.len() as int);
    assert(words =~= frame_words(frame));
    assert(saved.stack =~= below + frame_words(frame));
    lemma_exit_restores_frame(at_call.regs, below, frame, cpu.stack_base);
    let done = back.run(exit_ops()).unwrap();
    assert(frame_registers(frame) == cpu.regs);
    assert(done.stack =~= cpu.stack.subrange(0, tail)) by {
        assert(below =~= cpu.stack.subrange(0, tail - 5));
        assert(saved.stack.subrange(0, tail) == cpu.stack.subrange(0, tail));
        assert forall|i: int| 0 <= i < tail implies done.stack[i] == cpu.stack[i] by {
            if i < tail - 5 {
                assert(below[i] == saved.stack[i]);
                assert(saved.stack.subrange(0, tail)[i] == cpu.stack.subrange(0, tail)[i]);
            }
        }
    }
    assert(cpu.stack.subrange(0, tail) =~= if pushes_error_code(vector) {
        cpu.stack.drop_last()
    } else {
        cpu.stack
    });
    // Chain the four parts.
    let landing = save_ops() + call_ops();
    let leaving = return_ops() + exit_ops();
    assert(entry + landing + leaving =~= (entry + save_ops()) + (call_ops() + (return_ops()
        + exit_ops())));
    lemma_run_concat(cpu, entry + save_ops(), call_ops() + (return_ops() + exit_ops()));
    lemma_run_concat(saved, call_ops(), return_ops() + exit_ops());
    lemma_run_concat(at_call, return_ops(), exit_ops());
}

} // verus!
