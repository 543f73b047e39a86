//! The diagnostic output channel: a byte queue with the text formatting the
//! kernel uses, and the register programming of the UART that drains it.

use vstd::prelude::*;
use vstd::string::*;
use crate::port::PortWrite;

verus! {

/// Offset of the data register from the UART base port.
pub const DATA_REG: u16 = 0;
/// Offset of the interrupt enable register.
pub const INT_ENABLE_REG: u16 = 1;
/// Offset of the FIFO control register.
pub const FIFO_CTRL_REG: u16 = 2;
/// Offset of the line control register.
pub const LINE_CTRL_REG: u16 = 3;
/// Offset of the modem control register.
pub const MODEM_CTRL_REG: u16 = 4;
/// Offset of the line status register.
pub const LINE_STATUS_REG: u16 = 5;
/// Line status bit: the transmitter holding register is empty.
pub const TRANSMIT_EMPTY: u8 = 0x20;
/// Line status bit: a received byte is waiting.
pub const DATA_READY: u8 = 0x01;
/// Byte written to the data register, in loopback mode, to probe the chip.
pub const LOOPBACK_PROBE: u8 = 0xAE;

/// ASCII character for one digit below sixteen: `0`-`9`, then `A`-`F`.
pub open spec fn digit_char(d: int) -> u8 {
    if d < 10 {
        (0x30 + d) as u8
    } else {
        (0x37 + d) as u8
    }
}

/// The digits of `value` in `base`, most significant first, without leading
/// zeros; empty for zero.
pub open spec fn radix_digits(value: nat, base: nat) -> Seq<u8>
    decreases value,
{
    if value == 0 || base < 2 {
        Seq::empty()
    } else {
        proof {
            assert(value / base < value) by (nonlinear_arith)
                requires
                    value > 0,
                    base >= 2,
            ;
        }
        radix_digits(value / base, base).push(digit_char((value % base) as int))
    }
}

/// Exactly `width` digits of `value` in base sixteen, most significant first,
/// padded with zeros on the left; higher digits are dropped.
pub open spec fn hex_fixed(value: nat, width: nat) -> Seq<u8>
    decreases width,
{
    if width == 0 {
        Seq::empty()
    } else {
        hex_fixed(value / 16, (width - 1) as nat).push(digit_char((value % 16) as int))
    }
}

/// Text of `value` as the channel prints it in hexadecimal: the prefix `0x`,
/// then upper-case digits without leading zeros, `0` for zero.
pub open spec fn hex_text(value: nat) -> Seq<u8> {
    seq![0x30u8, 0x78u8] + if value == 0 {
        seq![0x30u8]
    } else {
        radix_digits(value, 16)
    }
}

/// Text of a 64-bit `value` printed as two 32-bit halves, high half first.
pub open spec fn hex_halves_text(value: u64) -> Seq<u8> {
    hex_text((value / 0x1_0000_0000) as nat) + hex_text((value % 0x1_0000_0000) as nat)
}

/// Text of `value` in decimal, `0` for zero.
pub open spec fn decimal_text(value: nat) -> Seq<u8> {
    if value == 0 {
        seq![0x30u8]
    } else {
        radix_digits(value, 10)
    }
}

/// The writes that program a UART at `base` for 38400 baud, 8N1, FIFOs on,
/// up to and including the loopback probe.
pub open spec fn init_probe_script(base: u16) -> Seq<PortWrite>
    recommends
        base + LINE_STATUS_REG <= u16::MAX,
{
    seq![
        PortWrite { port: (base + INT_ENABLE_REG) as u16, value: 0x00 },
        PortWrite { port: (base + LINE_CTRL_REG) as u16, value: 0x80 },
        PortWrite { port: (base + DATA_REG) as u16, value: 0x03 },
        PortWrite { port: (base + INT_ENABLE_REG) as u16, value: 0x00 },
        PortWrite { port: (base + LINE_CTRL_REG) as u16, value: 0x03 },
        PortWrite { port: (base + FIFO_CTRL_REG) as u16, value: 0xC7 },
        PortWrite { port: (base + MODEM_CTRL_REG) as u16, value: 0x0B },
        PortWrite { port: (base + MODEM_CTRL_REG) as u16, value: 0x1E },
        PortWrite { port: (base + DATA_REG) as u16, value: LOOPBACK_PROBE },
    ]
}

/// The digit that an ASCII character of `digit_char` stands for.
pub open spec fn digit_value(c: u8) -> int {
    if c < 0x3A {
        c - 0x30
    } else {
        c - 0x37
    }
}

/// The number that `digits` denote in `base`, most significant digit first.
pub open spec fn digits_value(digits: Seq<u8>, base: nat) -> int
    decreases digits.len(),
{
    if digits.len() == 0 {
        0
    } else {
        digits_value(digits.drop_last(), base) * base + digit_value(digits.last())
    }
}

/// The digits printed for a number denote that number, and there is no
/// leading zero among them.
pub proof fn lemma_digits_denote_value(value: nat, base: nat)
    requires
        2 <= base <= 16,
    ensures
        digits_value(radix_digits(value, base), base) == value,
        value > 0 ==> radix_digits(value, base).len() > 0 && radix_digits(value, base)[0] != 0x30,
    decreases value,
{
    if value > 0 {
        assert(value / base < value) by (nonlinear_arith)
            requires
                value > 0,
                base >= 2,
        ;
        lemma_digits_denote_value(value / base, base);
        let head = radix_digits(value / base, base);
        let digits = radix_digits(value, base);
        assert(digits.drop_last() =~= head);
        assert(value == (value / base) * base + value % base) by (nonlinear_arith)
            requires
                base > 0,
        ;
        if value / base > 0 {
            assert(digits[0] == head[0]);
        }
    }
}

/// Appending `piece` to what was appended to `start` before is appending
/// both at once.
pub proof fn lemma_append(start: Seq<u8>, head: Seq<u8>, piece: Seq<u8>)
    ensures
        (start + head) + piece == start + (head + piece),
{
    assert((start + head) + piece =~= start + (head + piece));
}

/// Three pieces appended one by one are their concatenation appended once.
pub proof fn lemma_append_3(start: Seq<u8>, a: Seq<u8>, b: Seq<u8>, c: Seq<u8>)
    ensures
        start + a + b + c == start + (a + b + c),
{
    lemma_append(start, a, b);
    lemma_append(start, a + b, c);
}

/// Four pieces appended one by one are their concatenation appended once.
pub proof fn lemma_append_4(start: Seq<u8>, a: Seq<u8>, b: Seq<u8>, c: Seq<u8>, d: Seq<u8>)
    ensures
        start + a + b + c + d == start + (a + b + c + d),
{
    lemma_append_3(start, a, b, c);
    lemma_append(start, a + b + c, d);
}

/// Five pieces appended one by one are their concatenation appended once.
pub proof fn lemma_append_5(
    start: Seq<u8>,
    a: Seq<u8>,
    b: Seq<u8>,
    c: Seq<u8>,
    d: Seq<u8>,
    e: Seq<u8>,
)
    ensures
        start + a + b + c + d + e == start + (a + b + c + d + e),
{
    lemma_append_4(start, a, b, c, d);
    lemma_append(start, a + b + c + d, e);
}

/// Six pieces appended one by one are their concatenation appended once.
pub proof fn lemma_append_6(
    start: Seq<u8>,
    a: Seq<u8>,
    b: Seq<u8>,
    c: Seq<u8>,
    d: Seq<u8>,
    e: Seq<u8>,
    f: Seq<u8>,
)
    ensures
        start + a + b + c + d + e + f == start + (a + b + c + d + e + f),
{
    lemma_append_5(start, a, b, c, d, e);
    lemma_append(start, a + b + c + d + e, f);
}

/// Seven pieces appended one by one are their concatenation appended once.
pub proof fn lemma_append_7(
    start: Seq<u8>,
    a: Seq<u8>,
    b: Seq<u8>,
    c: Seq<u8>,
    d: Seq<u8>,
    e: Seq<u8>,
    f: Seq<u8>,
    g: Seq<u8>,
)
    ensures
        start + a + b + c + d + e + f + g == start + (a + b + c + d + e + f + g),
{
    lemma_append_6(start, a, b, c, d, e, f);
    lemma_append(start, a + b + c + d + e + f, g);
}

/// Eight pieces appended one by one are their concatenation appended once.
pub proof fn lemma_append_8(
    start: Seq<u8>,
    a: Seq<u8>,
    b: Seq<u8>,
    c: Seq<u8>,
    d: Seq<u8>,
    e: Seq<u8>,
    f: Seq<u8>,
    g: Seq<u8>,
    h: Seq<u8>,
)
    ensures
        start + a + b + c + d + e + f + g + h == start + (a + b + c + d + e + f + g + h),
{
    lemma_append_7(start, a, b, c, d, e, f, g);
    lemma_append(start, a + b + c + d + e + f + g, h);
}

/// Nine pieces appended one by one are their concatenation appended once.
pub proof fn lemma_append_9(
    start: Seq<u8>,
    a: Seq<u8>,
    b: Seq<u8>,
    c: Seq<u8>,
    d: Seq<u8>,
    e: Seq<u8>,
    f: Seq<u8>,
    g: Seq<u8>,
    h: Seq<u8>,
    i: Seq<u8>,
)
    ensures
        start + a + b + c + d + e + f + g + h + i == start + (a + b + c + d + e + f + g + h + i),
{
    lemma_append_8(start, a, b, c, d, e, f, g, h);
    lemma_append(start, a + b + c + d + e + f + g + h, i);
}

/// Appending nothing changes nothing.
pub proof fn lemma_append_nothing(start: Seq<u8>)
    ensures
        start + Seq::<u8>::empty() == start,
        Seq::<u8>::empty() + start == start,
{
    assert(start + Seq::<u8>::empty() =~= start);
    assert(Seq::<u8>::empty() + start =~= start);
}

/// Appends the digits of `value` in `base` to `out`, most significant first.
fn push_radix(out: &mut Vec<u8>, value: u64, base: u64)
    requires
        2 <= base <= 16,
    ensures
        final(out)@ == old(out)@ + radix_digits(value as nat, base as nat),
{
    let mut reversed: Vec<u8> = Vec::new();
    let mut rest: u64 = value;
    while rest > 0
        invariant
            2 <= base <= 16,
            radix_digits(value as nat, base as nat) == radix_digits(rest as nat, base as nat)
                + reversed@.reverse(),
        decreases rest,
    {
        let d: u64 = rest % base;
        let c: u8 = if d < 10 {
            (0x30 + d) as u8
        } else {
            (0x37 + d) as u8
        };
        proof {
            let b = base as nat;
            assert(radix_digits(rest as nat, b) == radix_digits((rest / base) as nat, b).push(c));
            assert(reversed@.push(c).reverse() =~= seq![c] + reversed@.reverse());
            assert(radix_digits((rest / base) as nat, b).push(c) + reversed@.reverse()
                =~= radix_digits((rest / base) as nat, b) + (seq![c] + reversed@.reverse()));
        }
        reversed.push(c);
        rest = rest / base;
    }
    let mut i: usize = reversed.len();
    while i > 0
        invariant
            i <= reversed.len(),
            out@ == old(out)@ + reversed@.reverse().subrange(0, reversed.len() - i),
        decreases i,
    {
        i = i - 1;
        out.push(reversed[i]);
        assert(out@ =~= old(out)@ + reversed@.reverse().subrange(0, reversed.len() - i));
    }
    assert(reversed@.reverse().subrange(0, reversed.len() as int) =~= reversed@.reverse());
}

/// Appends exactly `width` hexadecimal digits of `value` to `out`.
pub(crate) fn push_hex_fixed(out: &mut Vec<u8>, value: u64, width: usize)
    ensures
        final(out)@ == old(out)@ + hex_fixed(value as nat, width as nat),
{
    let mut reversed: Vec<u8> = Vec::new();
    let mut rest: u64 = value;
    let mut n: usize = 0;
    while n < width
        invariant
            n <= width,
            reversed.len() == n,
            hex_fixed(value as nat, width as nat) == hex_fixed(rest as nat, (width - n) as nat)
                + reversed@.reverse(),
        decreases width - n,
    {
        let d: u64 = rest % 16;
        let c: u8 = if d < 10 {
            (0x30 + d) as u8
        } else {
            (0x37 + d) as u8
        };
        proof {
            let w = (width - n) as nat;
            assert(hex_fixed(rest as nat, w) == hex_fixed((rest / 16) as nat, (w - 1) as nat).push(c));
            assert(reversed@.push(c).reverse() =~= seq![c] + reversed@.reverse());
            assert(hex_fixed((rest / 16) as nat, (w - 1) as nat).push(c) + reversed@.reverse()
                =~= hex_fixed((rest / 16) as nat, (w - 1) as nat) + (seq![c] + reversed@.reverse()));
        }
        reversed.push(c);
        rest = rest / 16;
        n = n + 1;
    }
    let mut i: usize = reversed.len();
    while i > 0
        invariant
            i <= reversed.len(),
            out@ == old(out)@ + reversed@.reverse().subrange(0, reversed.len() - i),
        decreases i,
    {
        i = i - 1;
        out.push(reversed[i]);
        assert(out@ =~= old(out)@ + reversed@.reverse().subrange(0, reversed.len() - i));
    }
    assert(reversed@.reverse().subrange(0, reversed.len() as int) =~= reversed@.reverse());
}

/// A serial port seen from the kernel: the base of its register block and the
/// bytes queued for transmission, oldest first.
pub struct SerialPort {
    base: u16,
    queue: Vec<u8>,
}

impl View for SerialPort {
    type V = Seq<u8>;

    /// The bytes written so far and not yet taken for transmission.
    closed spec fn view(&self) -> Seq<u8> {
        self.queue@
    }
}

impl SerialPort {
    /// Base port of the register block.
    pub closed spec fn base_port(&self) -> u16 {
        self.base
    }

    /// A port at `base` with nothing queued.
    pub fn new(base: u16) -> (port: Self)
        ensures
            port.base_port() == base,
            port@ == Seq::<u8>::empty(),
    {
        SerialPort { base, queue: Vec::new() }
    }

    /// Base port of the register block.
    pub fn base(&self) -> (base: u16)
        ensures
            base == self.base_port(),
    {
        self.base
    }

    /// Port of the register at offset `reg`.
    pub fn register(&self, reg: u16) -> (port: u16)
        requires
            self.base_port() + reg <= u16::MAX,
        ensures
            port == self.base_port() + reg,
    {
        self.base + reg
    }

    /// The register writes that set the port up, in order. The last one
    /// returns the chip to normal operation after the loopback probe; the
    /// echoed byte may be read from the data register just before it and
    /// judged with `probe_echo_ok`.
    pub fn init(&self) -> (script: Vec<PortWrite>)
        requires
            self.base_port() + LINE_STATUS_REG <= u16::MAX,
        ensures
            script@ == init_probe_script(self.base_port()).push(
                PortWrite { port: (self.base_port() + MODEM_CTRL_REG) as u16, value: 0x0F },
            ),
    {
        let mut script: Vec<PortWrite> = Vec::new();
        script.push(PortWrite::new(self.base + INT_ENABLE_REG, 0x00));
        script.push(PortWrite::new(self.base + LINE_CTRL_REG, 0x80));
        script.push(PortWrite::new(self.base + DATA_REG, 0x03));
        script.push(PortWrite::new(self.base + INT_ENABLE_REG, 0x00));
        script.push(PortWrite::new(self.base + LINE_CTRL_REG, 0x03));
        script.push(PortWrite::new(self.base + FIFO_CTRL_REG, 0xC7));
        script.push(PortWrite::new(self.base + MODEM_CTRL_REG, 0x0B));
        script.push(PortWrite::new(self.base + MODEM_CTRL_REG, 0x1E));
        script.push(PortWrite::new(self.base + DATA_REG, LOOPBACK_PROBE));
        script.push(PortWrite::new(self.base + MODEM_CTRL_REG, 0x0F));
        assert(script@ =~= init_probe_script(self.base_port()).push(
            PortWrite { port: (self.base_port() + MODEM_CTRL_REG) as u16, value: 0x0F },
        ));
        script
    }

    /// Whether the byte read back during the loopback probe is the one sent.
    pub fn probe_echo_ok(echo: u8) -> (ok: bool)
        ensures
            ok == (echo == LOOPBACK_PROBE),
    {
        echo == LOOPBACK_PROBE
    }

    /// Whether a line status value allows the next byte to be sent.
    pub fn transmit_ready(status: u8) -> (ready: bool)
        ensures
            ready == (status & TRANSMIT_EMPTY != 0),
    {
        status & TRANSMIT_EMPTY != 0
    }

    /// The port to read a received byte from, if the line status value says
    /// one is waiting.
    pub fn read_byte(&self, status: u8) -> (source: Option<u16>)
        requires
            self.base_port() + LINE_STATUS_REG <= u16::MAX,
        ensures
            source == if status & DATA_READY != 0 {
                Some((self.base_port() + DATA_REG) as u16)
            } else {
                None
            },
    {
        if status & DATA_READY != 0 {
            Some(self.base + DATA_REG)
        } else {
            None
        }
    }

    /// Queues one byte.
    pub fn write_byte(&mut self, byte: u8)
        ensures
            final(self)@ == old(self)@.push(byte),
            final(self).base_port() == old(self).base_port(),
    {
        self.queue.push(byte);
    }

    /// Queues the UTF-8 bytes of `s`.
    pub fn write_str(&mut self, s: &str)
        ensures
            final(self)@ == old(self)@ + s.spec_bytes(),
            final(self).base_port() == old(self).base_port(),
    {
        let bytes = s.as_bytes();
        let mut i: usize = 0;
        while i < bytes.len()
            invariant
                i <= bytes@.len(),
                bytes@ == s.spec_bytes(),
                self.queue@ == old(self).queue@ + bytes@.subrange(0, i as int),
                self.base == old(self).base,
            decreases bytes@.len() - i,
        {
            self.queue.push(bytes[i]);
            i = i + 1;
            assert(self.queue@ =~= old(self).queue@ + bytes@.subrange(0, i as int));
        }
        assert(bytes@.subrange(0, i as int) =~= bytes@);
    }

    /// Queues `value` in hexadecimal: `0x`, then upper-case digits without
    /// leading zeros.
    pub fn write_hex(&mut self, value: u32)
        ensures
            final(self)@ == old(self)@ + hex_text(value as nat),
            final(self).base_port() == old(self).base_port(),
    {
        self.queue.push(0x30u8);
        self.queue.push(0x78u8);
        if value == 0 {
            self.queue.push(0x30u8);
        } else {
            push_radix(&mut self.queue, value as u64, 16);
        }
        assert(self.queue@ =~= old(self).queue@ + hex_text(value as nat));
    }

    /// Queues `value` in decimal.
    pub fn write_decimal(&mut self, value: u32)
        ensures
            final(self)@ == old(self)@ + decimal_text(value as nat),
            final(self).base_port() == old(self).base_port(),
    {
        if value == 0 {
            self.queue.push(0x30u8);
        } else {
            push_radix(&mut self.queue, value as u64, 10);
        }
        assert(self.queue@ =~= old(self).queue@ + decimal_text(value as nat));
    }

    /// Queues all sixteen hexadecimal digits of `value`, without a prefix.
    pub fn write_hex64(&mut self, value: u64)
        ensures
            final(self)@ == old(self)@ + hex_fixed(value as nat, 16),
            final(self).base_port() == old(self).base_port(),
    {
        push_hex_fixed(&mut self.queue, value, 16);
    }

    /// Queues a 64-bit `value` the way the kernel prints addresses: the high
    /// and the low 32 bits, each through `write_hex`.
    pub fn write_hex_halves(&mut self, value: u64)
        ensures
            final(self)@ == old(self)@ + hex_halves_text(value),
            final(self).base_port() == old(self).base_port(),
    {
        let high: u32 = (value / 0x1_0000_0000) as u32;
        let low: u32 = (value % 0x1_0000_0000) as u32;
        self.write_hex(high);
        self.write_hex(low);
        assert(self@ =~= old(self)@ + hex_halves_text(value));
    }

    /// Number of bytes queued.
    pub fn pending(&self) -> (n: usize)
        ensures
            n == self@.len(),
    {
        self.queue.len()
    }

    /// Hands the queued bytes to the caller, oldest first, and empties the
    /// queue.
    pub fn take(&mut self) -> (bytes: Vec<u8>)
        ensures
            bytes@ == old(self)@,
            final(self)@ == Seq::<u8>::empty(),
            final(self).base_port() == old(self).base_port(),
    {
        let mut bytes: Vec<u8> = Vec::new();
        bytes.append(&mut self.queue);
        assert(bytes@ =~= old(self)@);
        bytes
    }
}

} // verus!
