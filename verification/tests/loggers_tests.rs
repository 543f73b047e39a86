use interrupt_core::loggers::{LogLevel, Logger};
use interrupt_core::serial::SerialPort;

fn text(serial: &mut SerialPort) -> String {
    String::from_utf8(serial.take()).unwrap()
}

#[test]
fn level_tags_and_colours() {
    assert_eq!(LogLevel::Debug.as_str(), "DEBUG");
    assert_eq!(LogLevel::Info.as_str(), "INFO");
    assert_eq!(LogLevel::Warn.as_str(), "WARN");
    assert_eq!(LogLevel::Error.as_str(), "ERROR");
    assert_eq!(LogLevel::Debug.color_code(), "\x1b[36m");
    assert_eq!(LogLevel::Info.color_code(), "\x1b[32m");
    assert_eq!(LogLevel::Warn.color_code(), "\x1b[33m");
    assert_eq!(LogLevel::Error.color_code(), "\x1b[31m");
}

#[test]
fn each_level_writes_its_tagged_line() {
    let mut serial = SerialPort::new(0x3F8);
    let logger = Logger::new();
    logger.debug("probing", &mut serial);
    logger.info("ready", &mut serial);
    logger.warn("slow", &mut serial);
    logger.error("broken", &mut serial);
    logger.log(LogLevel::Info, "", &mut serial);
    assert_eq!(
        text(&mut serial),
        "[DEBUG] probing\n[INFO] ready\n[WARN] slow\n[ERROR] broken\n[INFO] \n"
    );
}

#[test]
fn framebuffer_flag_is_remembered_and_does_not_change_the_line() {
    let mut serial = SerialPort::new(0x3F8);
    let mut logger = Logger::new();
    assert!(!logger.is_framebuffer_available());
    logger.info("one", &mut serial);
    logger.set_framebuffer_available(true);
    assert!(logger.is_framebuffer_available());
    logger.info("two", &mut serial);
    logger.set_framebuffer_available(false);
    assert!(!logger.is_framebuffer_available());
    assert_eq!(text(&mut serial), "[INFO] one\n[INFO] two\n");
}

#[test]
fn debug_hex_and_decimal_show_named_values() {
    let mut serial = SerialPort::new(0x3F8);
    let logger = Logger::new();
    logger.debug_hex("cr3", 0x1000, &mut serial);
    logger.debug_decimal("ticks", 1000, &mut serial);
    logger.debug_hex("zero", 0, &mut serial);
    logger.debug_decimal("zero", 0, &mut serial);
    assert_eq!(
        text(&mut serial),
        "[DEBUG] cr3: 0x1000\n[DEBUG] ticks: 1000\n[DEBUG] zero: 0x0\n[DEBUG] zero: 0\n"
    );
}
