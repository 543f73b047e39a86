//! Driver for the programmable interval timer, a model of the registers of
//! its channel 0, and the time queries that rest on the tick counter.

use vstd::prelude::*;
use vstd::string::*;
use crate::interrupts::{Dispatcher, get_timer_ticks};
use crate::port::PortWrite;
use crate::serial::{
    SerialPort, decimal_text, hex_text, lemma_append, lemma_append_3, lemma_append_5,
};

verus! {

/// Frequency of the oscillator that feeds the timer, in Hz.
pub const PIT_FREQUENCY: u32 = 1_193_182;
/// Command port of the timer.
pub const PIT_COMMAND: u16 = 0x43;
/// Data port of channel 0.
pub const PIT_CHANNEL0: u16 = 0x40;
/// Command: channel 0, low byte then high byte, rate generator, binary.
pub const PIT_RATE_GENERATOR: u8 = 0x34;
/// Largest divisor the sixteen-bit counter takes.
pub const MAX_DIVISOR: u32 = 0xFFFF;

/// Why the timer was not programmed.
#[derive(Clone, Copy, Debug, PartialEq, Eq, Structural)]
pub enum TimerError {
    /// A frequency of zero was asked for.
    ZeroFrequency,
    /// The frequency is so low that the divisor does not fit in sixteen bits.
    DivisorTooLarge { divisor: u32 },
}

/// The divisor for `freq_hz`: the oscillator frequency divided by it.
pub open spec fn divisor_of(freq_hz: u32) -> int
    recommends
        freq_hz > 0,
{
    PIT_FREQUENCY as int / freq_hz as int
}

/// The reason, if any, for which `freq_hz` is refused.
pub open spec fn init_error(freq_hz: u32) -> Option<TimerError> {
    if freq_hz == 0 {
        Some(TimerError::ZeroFrequency)
    } else if divisor_of(freq_hz) > MAX_DIVISOR {
        Some(TimerError::DivisorTooLarge { divisor: divisor_of(freq_hz) as u32 })
    } else {
        None
    }
}

/// The writes that program channel 0 as a rate generator with `divisor`:
/// the command, the low byte, the high byte.
pub open spec fn program_script(divisor: u16) -> Seq<PortWrite> {
    seq![
        PortWrite { port: PIT_COMMAND, value: PIT_RATE_GENERATOR },
        PortWrite { port: PIT_CHANNEL0, value: (divisor % 256) as u8 },
        PortWrite { port: PIT_CHANNEL0, value: (divisor / 256) as u8 },
    ]
}

/// What `init` reports when it refuses a frequency.
pub open spec fn error_report(e: TimerError) -> Seq<u8> {
    match e {
        TimerError::ZeroFrequency => "64-bit Timer init - ERROR: Frequency is zero\n".spec_bytes(),
        TimerError::DivisorTooLarge { divisor } =>
            "64-bit Timer init - ERROR: Divisor too large: 0x".spec_bytes() + hex_text(
                divisor as nat,
            ) + "\n".spec_bytes(),
    }
}

/// The line of `init` that states the frequency and the divisor.
pub open spec fn frequency_line(freq_hz: u32, divisor: u16) -> Seq<u8> {
    "64-bit Timer init - Frequency: ".spec_bytes() + decimal_text(freq_hz as nat)
        + "Hz, Divisor: 0x".spec_bytes() + hex_text(divisor as nat) + "\n".spec_bytes()
}

/// The line of `init` that states the bytes sent to the device.
pub open spec fn bytes_line(divisor: u16) -> Seq<u8> {
    "64-bit PIT programmed - Command: 0x34, Divisor Low: 0x".spec_bytes() + hex_text(
        (divisor % 256) as nat,
    ) + ", High: 0x".spec_bytes() + hex_text((divisor / 256) as nat) + "\n".spec_bytes()
}

/// What `init` reports when it programs the timer.
pub open spec fn program_report(freq_hz: u32, divisor: u16) -> Seq<u8> {
    frequency_line(freq_hz, divisor) + bytes_line(divisor)
}

// ---------------------------------------------------------------------------
// Model of the device
// ---------------------------------------------------------------------------

/// Which byte of the reload value channel 0 expects next.
#[derive(Clone, Copy, Debug, PartialEq, Eq, Structural)]
pub enum Latch {
    /// No reload value is being written.
    Idle,
    /// The low byte comes next.
    AwaitLow,
    /// The low byte was received; the high byte comes next.
    AwaitHigh(u8),
}

/// Channel 0 of the timer, as far as the driver programs it.
#[derive(Clone, Copy, Debug, PartialEq, Eq, Structural)]
pub struct Pit {
    /// The last command accepted for channel 0.
    pub command: u8,
    pub latch: Latch,
    /// The value the counter reloads from; zero stands for 65536.
    pub reload: u16,
    /// A complete reload value was written since the last command.
    pub counting: bool,
}

impl Pit {
    /// Whether a command byte selects channel 0 with the low byte, high byte
    /// access that the driver uses.
    pub open spec fn selects_channel0(value: u8) -> bool {
        value & 0xC0 == 0 && value & 0x30 == 0x30
    }

    /// The channel after one port write. Writes to other ports, and commands
    /// for other channels or access modes, leave it unchanged.
    pub open spec fn after(self, w: PortWrite) -> Pit {
        if w.port == PIT_COMMAND {
            if Self::selects_channel0(w.value) {
                Pit { command: w.value, latch: Latch::AwaitLow, reload: self.reload, counting: false }
            } else {
                self
            }
        } else if w.port == PIT_CHANNEL0 {
            match self.latch {
                Latch::Idle => self,
                Latch::AwaitLow => Pit { latch: Latch::AwaitHigh(w.value), ..self },
                Latch::AwaitHigh(low) => Pit {
                    command: self.command,
                    latch: Latch::Idle,
                    reload: (low as int + 256 * w.value as int) as u16,
                    counting: true,
                },
            }
        } else {
            self
        }
    }

    /// The channel after the writes of `script`, first to last.
    pub open spec fn after_all(self, script: Seq<PortWrite>) -> Pit
        decreases script.len(),
    {
        if script.len() == 0 {
            self
        } else {
            self.after_all(script.drop_last()).after(script.last())
        }
    }

    /// The channel before anything was written to it.
    pub fn new() -> (pit: Self)
        ensures
            pit == (Pit { command: 0, latch: Latch::Idle, reload: 0, counting: false }),
    {
        Pit { command: 0, latch: Latch::Idle, reload: 0, counting: false }
    }

    /// Performs one port write on the model.
    pub fn write(&mut self, w: PortWrite)
        ensures
            *final(self) == old(self).after(w),
    {
        if w.port == PIT_COMMAND {
            if w.value & 0xC0 == 0 && w.value & 0x30 == 0x30 {
                self.command = w.value;
                self.latch = Latch::AwaitLow;
                self.counting = false;
            }
        } else if w.port == PIT_CHANNEL0 {
            match self.latch {
                Latch::Idle => {},
                Latch::AwaitLow => {
                    self.latch = Latch::AwaitHigh(w.value);
                },
                Latch::AwaitHigh(low) => {
                    self.latch = Latch::Idle;
                    self.reload = low as u16 + 256 * (w.value as u16);
                    self.counting = true;
                },
            }
        }
    }

    /// Performs the writes of `script` on the model, first to last.
    pub fn apply(&mut self, script: &Vec<PortWrite>)
        ensures
            *final(self) == old(self).after_all(script@),
    {
        let mut i: usize = 0;
        while i < script.len()
            invariant
                i <= script.len(),
                *self == old(self).after_all(script@.subrange(0, i as int)),
            decreases script.len() - i,
        {
            self.write(script[i]);
            proof {
                let next = script@.subrange(0, i + 1);
                assert(next.drop_last() =~= script@.subrange(0, i as int));
                assert(next.last() == script@[i as int]);
            }
            i = i + 1;
        }
        assert(script@.subrange(0, i as int) =~= script@);
    }
}

/// Whatever state channel 0 was in, the programming sequence for `divisor`
/// leaves it counting as a rate generator that reloads from `divisor`.
pub proof fn lemma_program_sets_divisor(pit: Pit, divisor: u16)
    ensures
        pit.after_all(program_script(divisor)) == (Pit {
            command: PIT_RATE_GENERATOR,
            latch: Latch::Idle,
            reload: divisor,
            counting: true,
        }),
{
    assert(0x34u8 & 0xC0 == 0 && 0x34u8 & 0x30 == 0x30) by (bit_vector);
    let s = program_script(divisor);
    let s2 = s.drop_last();
    let s1 = s2.drop_last();
    assert(s1.drop_last() =~= Seq::<PortWrite>::empty());
    assert(pit.after_all(s1.drop_last()) == pit);
    assert(pit.after_all(s1) == pit.after(s[0]));
    assert(pit.after_all(s2) == pit.after(s[0]).after(s[1]));
}

// ---------------------------------------------------------------------------
// Driver
// ---------------------------------------------------------------------------

/// A programmed timer: the frequency that was asked for and the divisor
/// that realises it.
#[derive(Clone, Copy, Debug)]
pub struct Timer {
    frequency_hz: u32,
    divisor: u16,
}

impl Timer {
    /// The frequency is not zero and the divisor is the one that belongs to
    /// it.
    #[verifier::type_invariant]
    spec fn well_formed(self) -> bool {
        self.frequency_hz > 0 && self.divisor == divisor_of(self.frequency_hz)
    }

    /// The configured frequency in Hz.
    pub closed spec fn frequency(self) -> u32 {
        self.frequency_hz
    }

    /// The divisor programmed into the device.
    pub closed spec fn reload(self) -> u16 {
        self.divisor
    }

    /// The configured frequency in Hz; never zero.
    pub fn frequency_hz(&self) -> (f: u32)
        ensures
            f == self.frequency(),
            f > 0,
    {
        proof {
            use_type_invariant(self);
        }
        self.frequency_hz
    }

    /// The divisor programmed into the device.
    pub fn divisor(&self) -> (d: u16)
        ensures
            d == self.reload(),
            d == divisor_of(self.frequency()),
    {
        proof {
            use_type_invariant(self);
        }
        self.divisor
    }
}

/// Milliseconds that `ticks` ticks take at the frequency `timer` was
/// programmed for, rounded down.
pub fn get_uptime_ms(timer: &Timer, ticks: u64) -> (ms: u64)
    requires
        ticks * 1000 / timer.frequency() as int <= u64::MAX,
    ensures
        ms == ticks * 1000 / timer.frequency() as int,
{
    let frequency = timer.frequency_hz();
    let scaled: u128 = ticks as u128 * 1000;
    (scaled / frequency as u128) as u64
}

/// Whole seconds that `ticks` ticks take at the frequency `timer` was
/// programmed for.
pub fn get_uptime_seconds(timer: &Timer, ticks: u64) -> (s: u64)
    ensures
        s == ticks / timer.frequency() as u64,
{
    ticks / timer.frequency_hz() as u64
}

/// Computes the divisor for `freq_hz`, or says why there is none.
pub fn divisor_for(freq_hz: u32) -> (r: Result<u16, TimerError>)
    ensures
        match r {
            Ok(d) => init_error(freq_hz) is None && d == divisor_of(freq_hz),
            Err(e) => init_error(freq_hz) == Some(e),
        },
{
    if freq_hz == 0 {
        return Err(TimerError::ZeroFrequency);
    }
    let divisor: u32 = PIT_FREQUENCY / freq_hz;
    if divisor > MAX_DIVISOR {
        return Err(TimerError::DivisorTooLarge { divisor });
    }
    Ok(divisor as u16)
}

/// Programs the timer to fire `freq_hz` times a second. Returns the timer
/// and the port writes that program it: the command, then the low byte of
/// the divisor, then the high byte. A frequency whose divisor does not fit
/// in sixteen bits is refused and reported, and then there is nothing to
/// write.
pub fn init(freq_hz: u32, serial: &mut SerialPort) -> (r: Result<(Timer, Vec<PortWrite>), TimerError>)
    ensures
        final(serial).base_port() == old(serial).base_port(),
        match r {
            Ok((timer, script)) => {
                &&& init_error(freq_hz) is None
                &&& timer.frequency() == freq_hz
                &&& timer.reload() == divisor_of(freq_hz)
                &&& script@ == program_script(timer.reload())
                &&& forall|pit: Pit|
                    (#[trigger] pit.after_all(script@)).reload == timer.reload()
                        && pit.after_all(script@).counting
                &&& final(serial)@ == old(serial)@ + program_report(freq_hz, timer.reload())
            },
            Err(e) => {
                &&& init_error(freq_hz) == Some(e)
                &&& final(serial)@ == old(serial)@ + error_report(e)
            },
        },
{
    let divisor: u16 = match divisor_for(freq_hz) {
        Ok(d) => d,
        Err(TimerError::ZeroFrequency) => {
            serial.write_str("64-bit Timer init - ERROR: Frequency is zero\n");
            return Err(TimerError::ZeroFrequency);
        },
        Err(TimerError::DivisorTooLarge { divisor }) => {
            serial.write_str("64-bit Timer init - ERROR: Divisor too large: 0x");
            serial.write_hex(divisor);
            serial.write_str("\n");
            proof {
                lemma_append_3(
                    old(serial)@,
                    "64-bit Timer init - ERROR: Divisor too large: 0x".spec_bytes(),
                    hex_text(divisor as nat),
                    "\n".spec_bytes(),
                );
            }
            return Err(TimerError::DivisorTooLarge { divisor });
        },
    };
    let divisor_low: u8 = (divisor % 256) as u8;
    let divisor_high: u8 = (divisor / 256) as u8;

    serial.write_str("64-bit Timer init - Frequency: ");
    serial.write_decimal(freq_hz);
    serial.write_str("Hz, Divisor: 0x");
    serial.write_hex(divisor as u32);
    serial.write_str("\n");
    proof {
        lemma_append_5(
            old(serial)@,
            "64-bit Timer init - Frequency: ".spec_bytes(),
            decimal_text(freq_hz as nat),
            "Hz, Divisor: 0x".spec_bytes(),
            hex_text(divisor as nat),
            "\n".spec_bytes(),
        );
    }
    let ghost stated = serial@;

    let mut script: Vec<PortWrite> = Vec::new();
    script.push(PortWrite::new(PIT_COMMAND, PIT_RATE_GENERATOR));
    script.push(PortWrite::new(PIT_CHANNEL0, divisor_low));
    script.push(PortWrite::new(PIT_CHANNEL0, divisor_high));

    serial.write_str("64-bit PIT programmed - Command: 0x34, Divisor Low: 0x");
    serial.write_hex(divisor_low as u32);
    serial.write_str(", High: 0x");
    serial.write_hex(divisor_high as u32);
    serial.write_str("\n");
    proof {
        assert(script@ =~= program_script(divisor));
        lemma_append_5(
            stated,
            "64-bit PIT programmed - Command: 0x34, Divisor Low: 0x".spec_bytes(),
            hex_text((divisor % 256) as nat),
            ", High: 0x".spec_bytes(),
            hex_text((divisor / 256) as nat),
            "\n".spec_bytes(),
        );
        lemma_append(old(serial)@, frequency_line(freq_hz, divisor), bytes_line(divisor));
        assert forall|pit: Pit|
            (#[trigger] pit.after_all(script@)).reload == divisor && pit.after_all(
                script@,
            ).counting by {
            lemma_program_sets_divisor(pit, divisor);
        }
    }
    Ok((Timer { frequency_hz: freq_hz, divisor }, script))
}

/// The current value of the tick counter.
pub fn get_ticks(dispatcher: &Dispatcher) -> (ticks: u64)
    ensures
        ticks == dispatcher.ticks(),
{
    get_timer_ticks(dispatcher)
}

/// One poll of the busy-wait sleep that began when the counter read `start`:
/// says whether `ticks` ticks have passed now that it reads `now`.
pub fn sleep_ticks(start: u64, now: u64, ticks: u64) -> (done: bool)
    requires
        start <= now,
    ensures
        done == (now - start >= ticks),
{
    now - start >= ticks
}

/// Joins the two halves of the time-stamp counter as the processor returns
/// them.
pub fn rdtsc(low: u32, high: u32) -> (cycles: u64)
    ensures
        cycles == high as int * 0x1_0000_0000 + low as int,
{
    high as u64 * 0x1_0000_0000 + low as u64
}

} // verus!
