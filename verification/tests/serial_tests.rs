use interrupt_core::port::PortWrite;
use interrupt_core::serial::SerialPort;

fn text(port: &mut SerialPort) -> String {
    String::from_utf8(port.take()).unwrap()
}

#[test]
fn new_port_has_base_and_empty_queue() {
    let mut port = SerialPort::new(0x3F8);
    assert_eq!(port.base(), 0x3F8);
    assert_eq!(port.pending(), 0);
    assert_eq!(port.take(), Vec::<u8>::new());
}

#[test]
fn write_hex_prints_prefix_and_upper_case_digits() {
    let mut port = SerialPort::new(0x3F8);
    port.write_hex(0x1a2b);
    assert_eq!(text(&mut port), "0x1A2B");
}

#[test]
fn write_hex_of_zero_is_a_single_digit() {
    let mut port = SerialPort::new(0x3F8);
    port.write_hex(0);
    assert_eq!(text(&mut port), "0x0");
}

#[test]
fn write_hex_of_largest_value() {
    let mut port = SerialPort::new(0x3F8);
    port.write_hex(u32::MAX);
    assert_eq!(text(&mut port), "0xFFFFFFFF");
}

#[test]
fn write_hex_keeps_inner_zeros() {
    let mut port = SerialPort::new(0x3F8);
    port.write_hex(0x1000);
    port.write_hex(0x0a0);
    assert_eq!(text(&mut port), "0x10000xA0");
}

#[test]
fn write_decimal_prints_digits() {
    let mut port = SerialPort::new(0x3F8);
    port.write_decimal(0);
    port.write_byte(b' ');
    port.write_decimal(7);
    port.write_byte(b' ');
    port.write_decimal(11931);
    port.write_byte(b' ');
    port.write_decimal(u32::MAX);
    assert_eq!(text(&mut port), "0 7 11931 4294967295");
}

#[test]
fn write_hex64_prints_sixteen_digits() {
    let mut port = SerialPort::new(0x3F8);
    port.write_hex64(0);
    port.write_byte(b'\n');
    port.write_hex64(0xDEAD_BEEF);
    port.write_byte(b'\n');
    port.write_hex64(u64::MAX);
    assert_eq!(text(&mut port), "0000000000000000\n00000000DEADBEEF\nFFFFFFFFFFFFFFFF");
}

#[test]
fn write_hex_halves_prints_high_then_low() {
    let mut port = SerialPort::new(0x3F8);
    port.write_hex_halves(0xFFFF_8000_0010_2000);
    port.write_byte(b' ');
    port.write_hex_halves(0x1234);
    assert_eq!(text(&mut port), "0xFFFF80000x102000 0x00x1234");
}

#[test]
fn write_str_queues_utf8_bytes_in_order() {
    let mut port = SerialPort::new(0x3F8);
    port.write_str("ab");
    port.write_str("");
    port.write_str("\u{2713}c");
    assert_eq!(port.pending(), 6);
    assert_eq!(port.take(), vec![b'a', b'b', 0xE2, 0x9C, 0x93, b'c']);
}

#[test]
fn take_empties_the_queue_and_keeps_the_base() {
    let mut port = SerialPort::new(0x2F8);
    port.write_byte(1);
    port.write_byte(2);
    assert_eq!(port.take(), vec![1, 2]);
    assert_eq!(port.pending(), 0);
    assert_eq!(port.base(), 0x2F8);
    port.write_byte(3);
    assert_eq!(port.take(), vec![3]);
}

#[test]
fn init_script_programs_the_uart_in_order() {
    let port = SerialPort::new(0x3F8);
    let script = port.init();
    let expected = vec![
        PortWrite { port: 0x3F9, value: 0x00 },
        PortWrite { port: 0x3FB, value: 0x80 },
        PortWrite { port: 0x3F8, value: 0x03 },
        PortWrite { port: 0x3F9, value: 0x00 },
        PortWrite { port: 0x3FB, value: 0x03 },
        PortWrite { port: 0x3FA, value: 0xC7 },
        PortWrite { port: 0x3FC, value: 0x0B },
        PortWrite { port: 0x3FC, value: 0x1E },
        PortWrite { port: 0x3F8, value: 0xAE },
        PortWrite { port: 0x3FC, value: 0x0F },
    ];
    assert_eq!(script, expected);
}

#[test]
fn register_adds_offset_to_base() {
    let port = SerialPort::new(0x3F8);
    assert_eq!(port.register(0), 0x3F8);
    assert_eq!(port.register(5), 0x3FD);
}

#[test]
fn probe_echo_must_be_the_probe_byte() {
    assert!(SerialPort::probe_echo_ok(0xAE));
    assert!(!SerialPort::probe_echo_ok(0x00));
    assert!(!SerialPort::probe_echo_ok(0xAF));
}

#[test]
fn transmit_ready_looks_at_bit_five() {
    assert!(SerialPort::transmit_ready(0x20));
    assert!(SerialPort::transmit_ready(0xFF));
    assert!(!SerialPort::transmit_ready(0x00));
    assert!(!SerialPort::transmit_ready(0xDF));
}

#[test]
fn read_byte_names_data_port_only_when_data_is_ready() {
    let port = SerialPort::new(0x3F8);
    assert_eq!(port.read_byte(0x01), Some(0x3F8));
    assert_eq!(port.read_byte(0x61), Some(0x3F8));
    assert_eq!(port.read_byte(0x60), None);
    assert_eq!(port.read_byte(0x00), None);
}
