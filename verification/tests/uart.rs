use std::cell::RefCell;

use ternvale::uart::output::{ByteSink, LineBuf, UartError, Written};
use ternvale::uart::{reg_name, Pl011, PL011_BASE, PL011_SIZE};

fn uart(sink: Vec<u8>) -> (Pl011<Share>, std::rc::Rc<RefCell<Vec<u8>>>) {
    let sink = std::rc::Rc::new(RefCell::new(sink));
    let shared = std::rc::Rc::clone(&sink);
    let device = Pl011::new(Box::new(Share(sink)));
    (device, shared)
}

struct Share(std::rc::Rc<RefCell<Vec<u8>>>);

impl ByteSink for Share {
    fn written(&self) -> Written {
        unreachable!()
    }

    fn never_fails(&self) -> bool {
        true
    }

    fn write_all(&mut self, bytes: &[u8]) -> std::io::Result<()> {
        self.0.borrow_mut().extend_from_slice(bytes);
        Ok(())
    }
}

struct Broken;

impl ByteSink for Broken {
    fn written(&self) -> Written {
        unreachable!()
    }

    fn never_fails(&self) -> bool {
        false
    }

    fn write_all(&mut self, _bytes: &[u8]) -> std::io::Result<()> {
        Err(std::io::Error::new(std::io::ErrorKind::Other, "gone"))
    }
}

#[test]
fn tx_bytes_reach_the_sink_and_rx_flags_follow_the_queue() {
    let (mut uart, sink) = uart(Vec::new());
    uart.write(0, 1, u64::from(b'A'));
    uart.write(0, 1, u64::from(b'\n'));
    assert_eq!(sink.borrow().as_slice(), b"A\n");
    let fr = uart.read(0x18, 4);
    assert_eq!(fr & (1 << 5), 0, "TXFF clear");
    assert_ne!(fr & (1 << 4), 0, "RXFE set");
    assert!(uart.push_rx(b'Z'));
    let fr = uart.read(0x18, 4);
    assert_eq!(fr & (1 << 4), 0, "RXFE clear");
    assert_ne!(fr & (1 << 6), 0, "RXFF set for a 1-byte fifo");
    assert!(!uart.push_rx(b'Y'));
    assert_eq!(uart.read(0, 1), u64::from(b'Z'));
    assert_ne!(uart.read(0x18, 4) & (1 << 4), 0);
}

#[test]
fn periph_id_matches_the_arm_pl011() {
    let (mut uart, _) = uart(Vec::new());
    let id: Vec<u64> = (0..8)
        .map(|index| uart.read(0xfe0 + index * 4, 4))
        .collect();
    assert_eq!(id, vec![0x11, 0x10, 0x14, 0x00, 0x0d, 0xf0, 0x05, 0xb1]);
}

#[test]
fn write_to_a_read_only_register_is_ignored() {
    let (mut uart, _) = uart(Vec::new());
    uart.write(0xfe0, 4, 0xff);
    assert_eq!(uart.read(0xfe0, 4), 0x11);
    uart.write(0x18, 4, 0);
    assert_ne!(uart.read(0x18, 4) & (1 << 7), 0, "TXFE stays set");
}

/// A window on the bus, with a count of accesses.
struct Window<S: ByteSink> {
    base: u64,
    size: u64,
    device: Pl011<S>,
    accesses: u64,
}

impl<S: ByteSink> Window<S> {
    fn write(&mut self, gpa: u64, size: u8, value: u64) {
        assert!(gpa >= self.base && gpa < self.base + self.size);
        self.accesses += 1;
        self.device.write(gpa - self.base, size, value);
    }
}

#[test]
fn bus_write_to_uartdr_delivers_the_byte() {
    let (device, sink) = uart(Vec::new());
    assert_eq!(device.name(), "pl011");
    let mut bus = Window {
        base: PL011_BASE,
        size: PL011_SIZE,
        device,
        accesses: 0,
    };
    bus.write(PL011_BASE, 1, u64::from(b'H'));
    assert_eq!(sink.borrow().as_slice(), b"H");
    assert_eq!(bus.accesses, 1);
}

#[test]
fn tx_lines_are_handed_out_without_their_newline() {
    let (mut uart, _) = uart(Vec::new());
    for byte in b"Hi\n\nyou" {
        uart.write(0, 1, u64::from(*byte));
    }
    assert_eq!(uart.take_lines(), vec!["Hi".to_string()]);
    assert!(uart.take_lines().is_empty());
    assert_eq!(uart.flush_line(), Some("you".to_string()));
    assert_eq!(uart.flush_line(), None);
    assert_eq!(reg_name(0), "UARTDR");
    assert_eq!(reg_name(0xffc), "UARTPCellID3");
    assert_eq!(reg_name(0x7), "unknown");
}

#[test]
fn a_long_line_is_handed_out_at_the_limit() {
    let mut buf = LineBuf::new();
    for _ in 0..255 {
        assert_eq!(buf.push(b'x'), None);
    }
    assert_eq!(buf.push(b'x').map(|line| line.len()), Some(256));
    // Bytes above 0x7f take two.
    for _ in 0..127 {
        assert_eq!(buf.push(0xe9), None);
    }
    let line = buf.push(0xe9).expect("line");
    assert_eq!(line.chars().count(), 128);
    assert_eq!(line.len(), 256);
    assert!(line.chars().all(|c| c == 'é'));
    assert_eq!(buf.push(b'\n'), None);
}

#[test]
fn a_sink_error_is_kept() {
    let mut uart = Pl011::new(Box::new(Broken));
    uart.write(0, 1, 0x41);
    let failures = uart.take_failures();
    assert_eq!(failures.len(), 1);
    assert_eq!(failures[0].to_string(), "gone");
    assert!(uart.take_failures().is_empty());
    assert_eq!(uart.flush_line(), Some("A".to_string()));
}

#[test]
fn a_vector_is_a_sink() {
    let mut uart = Pl011::new(Box::new(vec![b'>']));
    uart.write(0, 4, 0x1_0000_0142);
    assert!(uart.take_failures().is_empty());
    let mut sink: Vec<u8> = vec![1];
    sink.write_all(&[2, 3]).expect("vec");
    assert_eq!(sink, vec![1, 2, 3]);
}

#[test]
fn the_fifo_keeps_order_and_depth() {
    let (mut uart, _) = uart(Vec::new());
    uart.write(0x2c, 4, 0x10);
    assert_eq!(uart.read(0x2c, 4), 0x10);
    for byte in 0..16u8 {
        assert!(uart.push_rx(byte));
    }
    assert!(!uart.push_rx(99));
    assert_eq!(uart.read(0x3c, 4), 0x10);
    for byte in 0..16u64 {
        assert_eq!(uart.read(0, 4), byte);
    }
    assert_eq!(uart.read(0x3c, 4), 0);
    assert_eq!(uart.read(0, 4), 0);
}

#[test]
fn registers_keep_their_bits() {
    let (mut uart, _) = uart(Vec::new());
    assert_eq!(uart.read(0x30, 4), 0x300);
    uart.write(0x24, 4, 0x1_2345);
    assert_eq!(uart.read(0x24, 4), 0x2345);
    assert_eq!(uart.read(0x24, 1), 0x45);
    uart.write(0x28, 4, 0xff);
    assert_eq!(uart.read(0x28, 4), 0x3f);
    uart.write(0x38, 4, 0xffff);
    assert_eq!(uart.read(0x38, 4), 0x7ff);
    uart.write(0, 1, 0x61);
    assert_eq!(uart.read(0x40, 4), 0x20);
    uart.write(0x44, 4, 0x20);
    assert_eq!(uart.read(0x40, 4), 0);
    assert_eq!(uart.read(0xfe1, 4), 0);
    let error = UartError::Create {
        path: "/x".to_string(),
        source: "denied".to_string(),
    };
    assert_eq!(error.message(), "create serial log /x: denied");
}

#[test]
fn the_receive_interrupt_goes_with_the_last_byte() {
    let mut dev = Pl011::new(Box::new(Vec::<u8>::new()));
    dev.write(0x02c, 4, 0x10);
    assert!(dev.push_rx(1));
    assert!(dev.push_rx(2));
    assert_eq!(dev.read(0x03c, 4), 0x10);
    assert_eq!(dev.read(0x040, 4), 0, "masked");
    dev.write(0x038, 4, 0x10);
    assert_eq!(dev.read(0x040, 4), 0x10);
    assert_eq!(dev.read(0x000, 4), 1);
    assert_eq!(dev.read(0x03c, 4), 0x10);
    assert_eq!(dev.read(0x000, 4), 2);
    assert_eq!(dev.read(0x03c, 4), 0);
    dev.write(0x000, 1, 0x41);
    assert_eq!(dev.read(0x03c, 4), 0x20);
    dev.write(0x044, 4, 0x20);
    assert_eq!(dev.read(0x03c, 4), 0);
}

#[test]
fn lines_keep_every_byte() {
    let mut bytes = b"ab\n\nc".to_vec();
    bytes.extend(std::iter::repeat(b'x').take(300));
    bytes.extend([0xe9, b'\n', b'z']);
    let mut buf = LineBuf::new();
    let mut lines = Vec::new();
    for &byte in &bytes {
        lines.extend(buf.push(byte));
    }
    lines.extend(buf.flush());
    assert!(lines.iter().all(|line| !line.is_empty()));
    let text: String = bytes
        .iter()
        .filter(|&&byte| byte != b'\n')
        .map(|&byte| byte as char)
        .collect();
    assert_eq!(lines.concat(), text);
    assert_eq!(lines[0], "ab");
    assert_eq!(lines[lines.len() - 1], "z");
}
