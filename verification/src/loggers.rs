//! Levelled logging on top of the diagnostic channel.

use vstd::prelude::*;
use vstd::string::*;
use crate::serial::{SerialPort, decimal_text, hex_text, lemma_append_5};

verus! {

/// Severity of a log line.
#[derive(Debug, Clone, Copy, PartialEq, Eq, Structural)]
pub enum LogLevel {
    Debug,
    Info,
    Warn,
    Error,
}

/// The tag of a level as it stands between the brackets of a log line.
pub open spec fn level_tag(level: LogLevel) -> Seq<u8> {
    match level {
        LogLevel::Debug => "DEBUG".spec_bytes(),
        LogLevel::Info => "INFO".spec_bytes(),
        LogLevel::Warn => "WARN".spec_bytes(),
        LogLevel::Error => "ERROR".spec_bytes(),
    }
}

/// The terminal escape sequence that selects the colour of a level.
pub open spec fn level_color(level: LogLevel) -> Seq<u8> {
    match level {
        LogLevel::Debug => "\x1b[36m".spec_bytes(),
        LogLevel::Info => "\x1b[32m".spec_bytes(),
        LogLevel::Warn => "\x1b[33m".spec_bytes(),
        LogLevel::Error => "\x1b[31m".spec_bytes(),
    }
}

/// A log line: the level in brackets, the message, a line end.
pub open spec fn log_line(level: LogLevel, message: Seq<u8>) -> Seq<u8> {
    "[".spec_bytes() + level_tag(level) + "] ".spec_bytes() + message + "\n".spec_bytes()
}

/// A debug line that shows a named value: the name, a colon, the value.
pub open spec fn value_line(name: Seq<u8>, value: Seq<u8>) -> Seq<u8> {
    "[DEBUG] ".spec_bytes() + name + ": ".spec_bytes() + value + "\n".spec_bytes()
}

impl LogLevel {
    /// The tag of the level.
    pub fn as_str(&self) -> (tag: &'static str)
        ensures
            tag.spec_bytes() == level_tag(*self),
    {
        match self {
            LogLevel::Debug => "DEBUG",
            LogLevel::Info => "INFO",
            LogLevel::Warn => "WARN",
            LogLevel::Error => "ERROR",
        }
    }

    /// The escape sequence of the level's colour: cyan, green, yellow, red.
    pub fn color_code(&self) -> (code: &'static str)
        ensures
            code.spec_bytes() == level_color(*self),
    {
        match self {
            LogLevel::Debug => "\x1b[36m",
            LogLevel::Info => "\x1b[32m",
            LogLevel::Warn => "\x1b[33m",
            LogLevel::Error => "\x1b[31m",
        }
    }
}

/// The kernel logger. Every line goes to the diagnostic channel; the logger
/// also remembers whether a framebuffer console has become available.
#[derive(Debug, Clone, Copy, PartialEq, Eq, Structural)]
pub struct Logger {
    pub framebuffer_available: bool,
}

impl Logger {
    /// A logger that knows of no framebuffer.
    pub fn new() -> (logger: Self)
        ensures
            !logger.framebuffer_available,
    {
        Logger { framebuffer_available: false }
    }

    /// Records whether a framebuffer console is available.
    pub fn set_framebuffer_available(&mut self, available: bool)
        ensures
            final(self).framebuffer_available == available,
    {
        self.framebuffer_available = available;
    }

    /// Whether a framebuffer console was announced.
    pub fn is_framebuffer_available(&self) -> (available: bool)
        ensures
            available == self.framebuffer_available,
    {
        self.framebuffer_available
    }

    /// Writes the log line to the diagnostic channel.
    fn log_to_serial(&self, level: LogLevel, message: &str, serial: &mut SerialPort)
        ensures
            final(serial)@ == old(serial)@ + log_line(level, message.spec_bytes()),
            final(serial).base_port() == old(serial).base_port(),
    {
        serial.write_str("[");
        serial.write_str(level.as_str());
        serial.write_str("] ");
        serial.write_str(message);
        serial.write_str("\n");
        proof {
            lemma_append_5(
                old(serial)@,
                "[".spec_bytes(),
                level_tag(level),
                "] ".spec_bytes(),
                message.spec_bytes(),
                "\n".spec_bytes(),
            );
        }
    }

    /// Writes one line at `level`. The line always goes to the diagnostic
    /// channel, whether or not a framebuffer is available.
    pub fn log(&self, level: LogLevel, message: &str, serial: &mut SerialPort)
        ensures
            final(serial)@ == old(serial)@ + log_line(level, message.spec_bytes()),
            final(serial).base_port() == old(serial).base_port(),
    {
        self.log_to_serial(level, message, serial);
    }

    /// Writes one line at debug level.
    pub fn debug(&self, message: &str, serial: &mut SerialPort)
        ensures
            final(serial)@ == old(serial)@ + log_line(LogLevel::Debug, message.spec_bytes()),
            final(serial).base_port() == old(serial).base_port(),
    {
        self.log(LogLevel::Debug, message, serial);
    }

    /// Writes one line at info level.
    pub fn info(&self, message: &str, serial: &mut SerialPort)
        ensures
            final(serial)@ == old(serial)@ + log_line(LogLevel::Info, message.spec_bytes()),
            final(serial).base_port() == old(serial).base_port(),
    {
        self.log(LogLevel::Info, message, serial);
    }

    /// Writes one line at warning level.
    pub fn warn(&self, message: &str, serial: &mut SerialPort)
        ensures
            final(serial)@ == old(serial)@ + log_line(LogLevel::Warn, message.spec_bytes()),
            final(serial).base_port() == old(serial).base_port(),
    {
        self.log(LogLevel::Warn, message, serial);
    }

    /// Writes one line at error level.
    pub fn error(&self, message: &str, serial: &mut SerialPort)
        ensures
            final(serial)@ == old(serial)@ + log_line(LogLevel::Error, message.spec_bytes()),
            final(serial).base_port() == old(serial).base_port(),
    {
        self.log(LogLevel::Error, message, serial);
    }

    /// Writes a debug line that shows `value` in hexadecimal.
    pub fn debug_hex(&self, name: &str, value: u32, serial: &mut SerialPort)
        ensures
            final(serial)@ == old(serial)@ + value_line(name.spec_bytes(), hex_text(value as nat)),
            final(serial).base_port() == old(serial).base_port(),
    {
        serial.write_str("[DEBUG] ");
        serial.write_str(name);
        serial.write_str(": ");
        serial.write_hex(value);
        serial.write_str("\n");
        proof {
            lemma_append_5(
                old(serial)@,
                "[DEBUG] ".spec_bytes(),
                name.spec_bytes(),
                ": ".spec_bytes(),
                hex_text(value as nat),
                "\n".spec_bytes(),
            );
        }
    }

    /// Writes a debug line that shows `value` in decimal.
    pub fn debug_decimal(&self, name: &str, value: u32, serial: &mut SerialPort)
        ensures
            final(serial)@ == old(serial)@ + value_line(
                name.spec_bytes(),
                decimal_text(value as nat),
            ),
            final(serial).base_port() == old(serial).base_port(),
    {
        serial.write_str("[DEBUG] ");
        serial.write_str(name);
        serial.write_str(": ");
        serial.write_decimal(value);
        serial.write_str("\n");
        proof {
            lemma_append_5(
                old(serial)@,
                "[DEBUG] ".spec_bytes(),
                name.spec_bytes(),
                ": ".spec_bytes(),
                decimal_text(value as nat),
                "\n".spec_bytes(),
            );
        }
    }
}

} // verus!
