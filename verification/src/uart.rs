//! PL011 UART at guest physical [`PL011_BASE`].
//!
//! Register offsets follow ARM DDI 0183. PeriphID and PCellID match the ARM
//! PrimeCell values used by QEMU's PL011 (`11 10 14 00 0d f0 05 b1`).
//!
//! A write to UARTDR transmits even when `UARTEN` is clear. The bare-metal
//! hello payload stores a byte and never programs the control register.
pub mod laws;
pub mod output;

use std::collections::VecDeque;

use vstd::prelude::*;

use self::output::{ByteSink, LineBuf};
use crate::bytes::mask;

verus! {

broadcast use vstd::group_vstd_default;

/// Guest physical base. The device itself is addressed by offset.
pub const PL011_BASE: u64 = 0x0900_0000;

/// MMIO window covering the register block through PCellID3.
pub const PL011_SIZE: u64 = 0x1000;

pub const DR: u64 = 0x000;

pub const FR: u64 = 0x018;

pub const IBRD: u64 = 0x024;

pub const FBRD: u64 = 0x028;

pub const LCR_H: u64 = 0x02c;

pub const CR: u64 = 0x030;

pub const IMSC: u64 = 0x038;

pub const RIS: u64 = 0x03c;

pub const MIS: u64 = 0x040;

pub const ICR: u64 = 0x044;

pub const PERIPH_ID0: u64 = 0xfe0;

/// Transmit FIFO empty.
pub const FR_TXFE: u32 = 0x80;

/// Receive FIFO full.
pub const FR_RXFF: u32 = 0x40;

/// Transmit FIFO full.
pub const FR_TXFF: u32 = 0x20;

/// Receive FIFO empty.
pub const FR_RXFE: u32 = 0x10;

/// FIFOs enabled.
pub const LCR_FEN: u16 = 0x10;

/// Receive interrupt.
pub const IRQ_RX: u16 = 0x10;

/// Transmit interrupt.
pub const IRQ_TX: u16 = 0x20;

/// `UARTCR` reset: TX and RX enabled, UART disabled.
pub const CR_RESET: u16 = 0x0300;

/// The registers of a PL011 and the bytes that wait for the guest.
pub struct UartRegs {
    pub rx: Seq<u8>,
    pub ibrd: u16,
    pub fbrd: u8,
    pub lcr_h: u16,
    pub cr: u16,
    pub imsc: u16,
    pub ris: u16,
}

/// Byte `i` of the eight identification registers.
pub open spec fn id_byte_at(i: int) -> u8 {
    seq![0x11u8, 0x10, 0x14, 0x00, 0x0d, 0xf0, 0x05, 0xb1][i]
}

impl UartRegs {
    /// The registers after power-on.
    pub open spec fn reset() -> UartRegs {
        UartRegs { rx: Seq::empty(), ibrd: 0, fbrd: 0, lcr_h: 0, cr: CR_RESET, imsc: 0, ris: 0 }
    }

    /// How many bytes the receive FIFO takes.
    pub open spec fn depth(self) -> nat {
        if self.lcr_h & LCR_FEN != 0 {
            16
        } else {
            1
        }
    }

    /// The flag register. Transmission is immediate, so the transmit FIFO is always empty.
    pub open spec fn flags(self) -> u32 {
        let empty = if self.rx.len() == 0 {
            FR_TXFE | FR_RXFE
        } else {
            FR_TXFE
        };
        if self.rx.len() >= self.depth() {
            empty | FR_RXFF
        } else {
            empty
        }
    }

    /// What a read of the register at `offset` brings.
    pub open spec fn value(self, offset: u64) -> u64 {
        if offset == DR {
            if self.rx.len() == 0 {
                0
            } else {
                self.rx[0] as u64
            }
        } else if offset == FR {
            self.flags() as u64
        } else if offset == IBRD {
            self.ibrd as u64
        } else if offset == FBRD {
            self.fbrd as u64
        } else if offset == LCR_H {
            self.lcr_h as u64
        } else if offset == CR {
            self.cr as u64
        } else if offset == IMSC {
            self.imsc as u64
        } else if offset == RIS {
            self.ris as u64
        } else if offset == MIS {
            (self.ris & self.imsc) as u64
        } else if PERIPH_ID0 <= offset < PERIPH_ID0 + 32 && offset % 4 == 0 {
            id_byte_at((offset - PERIPH_ID0) / 4) as u64
        } else {
            0
        }
    }

    /// After the host queued `byte`. A full queue drops it.
    pub open spec fn after_push(self, byte: u8) -> UartRegs {
        if self.rx.len() < self.depth() {
            UartRegs { rx: self.rx.push(byte), ris: self.ris | IRQ_RX, ..self }
        } else {
            self
        }
    }

    /// After a read. Reading UARTDR takes the byte, and the last byte takes the receive
    /// interrupt with it.
    pub open spec fn after_read(self, offset: u64) -> UartRegs {
        if offset == DR && self.rx.len() > 0 {
            UartRegs {
                rx: self.rx.skip(1),
                ris: if self.rx.len() == 1 {
                    self.ris & !IRQ_RX
                } else {
                    self.ris
                },
                ..self
            }
        } else {
            self
        }
    }

    /// After a write of `v`. Read-only and unknown registers ignore it.
    pub open spec fn after_write(self, offset: u64, v: u64) -> UartRegs {
        if offset == DR {
            UartRegs { ris: self.ris | IRQ_TX, ..self }
        } else if offset == IBRD {
            UartRegs { ibrd: (v % 0x1_0000) as u16, ..self }
        } else if offset == FBRD {
            UartRegs { fbrd: (v % 0x40) as u8, ..self }
        } else if offset == LCR_H {
            UartRegs { lcr_h: (v % 0x100) as u16, ..self }
        } else if offset == CR {
            UartRegs { cr: (v % 0x1_0000) as u16, ..self }
        } else if offset == IMSC {
            UartRegs { imsc: (v % 0x800) as u16, ..self }
        } else if offset == ICR {
            UartRegs { ris: self.ris & !((v % 0x1_0000) as u16), ..self }
        } else {
            self
        }
    }
}

/// PrimeCell PL011.
pub struct Pl011<S: ByteSink + ?Sized> {
    sink: Box<S>,
    line: LineBuf,
    lines: Vec<String>,
    failures: Vec<std::io::Error>,
    rx: VecDeque<u8>,
    ibrd: u16,
    fbrd: u8,
    lcr_h: u16,
    cr: u16,
    imsc: u16,
    ris: u16,
}

/// The text of each line.
pub open spec fn texts(lines: Seq<String>) -> Seq<Seq<char>> {
    Seq::new(lines.len(), |i: int| lines[i]@)
}

/// Lines so far, and the line handed out, if one was.
pub open spec fn with_line(lines: Seq<Seq<char>>, line: Option<Seq<char>>) -> Seq<Seq<char>> {
    match line {
        Some(text) => lines.push(text),
        None => lines,
    }
}

impl<S: ByteSink + ?Sized> Pl011<S> {
    /// The registers.
    pub closed spec fn regs(&self) -> UartRegs {
        UartRegs {
            rx: self.rx@,
            ibrd: self.ibrd,
            fbrd: self.fbrd,
            lcr_h: self.lcr_h,
            cr: self.cr,
            imsc: self.imsc,
            ris: self.ris,
        }
    }

    /// The sink of transmitted bytes.
    pub closed spec fn sink(&self) -> Box<S> {
        self.sink
    }

    /// Bytes that the sink took.
    pub open spec fn sent(&self) -> Seq<u8> {
        self.sink().written()
    }

    /// Transmitted text since the last line ended.
    pub closed spec fn partial_line(&self) -> Seq<char> {
        self.line@
    }

    /// Transmitted lines that were not taken.
    pub closed spec fn lines(&self) -> Seq<Seq<char>> {
        texts(self.lines@)
    }

    /// Errors of the sink that were not taken.
    pub closed spec fn failures(&self) -> Seq<std::io::Error> {
        self.failures@
    }

    /// The unfinished line is shorter than the limit.
    pub closed spec fn wf(&self) -> bool {
        self.line.wf()
    }

    /// Everything but the registers is as in `other`.
    pub open spec fn same_output(&self, other: &Self) -> bool {
        &&& self.sink() == other.sink()
        &&& self.partial_line() == other.partial_line()
        &&& self.lines() == other.lines()
        &&& self.failures() == other.failures()
    }

    /// UART that writes guest TX into `sink`.
    pub fn new(sink: Box<S>) -> (u: Self)
        ensures
            u.wf(),
            u.regs() == UartRegs::reset(),
            u.sink() == sink,
            u.partial_line() == Seq::<char>::empty(),
            u.lines() == Seq::<Seq<char>>::empty(),
            u.failures() == Seq::<std::io::Error>::empty(),
    {
        let u = Pl011 {
            sink,
            line: LineBuf::new(),
            lines: Vec::new(),
            failures: Vec::new(),
            rx: VecDeque::new(),
            ibrd: 0,
            fbrd: 0,
            lcr_h: 0,
            cr: CR_RESET,
            imsc: 0,
            ris: 0,
        };
        assert(u.lines() =~= Seq::<Seq<char>>::empty());
        u
    }

    /// Queue one byte from the host. `false` when the RX FIFO is full.
    pub fn push_rx(&mut self, byte: u8) -> (taken: bool)
        requires
            old(self).wf(),
        ensures
            final(self).wf(),
            final(self).same_output(old(self)),
            taken == (old(self).regs().rx.len() < old(self).regs().depth()),
            final(self).regs() == old(self).regs().after_push(byte),
    {
        if self.rx.len() >= self.fifo_depth() {
            return false;
        }
        self.rx.push_back(byte);
        self.ris = self.ris | IRQ_RX;
        true
    }

    /// Read a register. `offset` is from [`PL011_BASE`].
    pub fn read(&mut self, offset: u64, size: u8) -> (value: u64)
        requires
            old(self).wf(),
        ensures
            final(self).wf(),
            final(self).same_output(old(self)),
            final(self).regs() == old(self).regs().after_read(offset),
            value == crate::bytes::low_bytes(old(self).regs().value(offset), size),
    {
        let value: u64 = self.read_reg(offset);
        mask(value, size)
    }

    /// Write a register. `offset` is from [`PL011_BASE`].
    ///
    /// A write to UARTDR hands one byte to the sink. The byte either reaches the sink or leaves
    /// the error that kept it from there, which a sink that never fails does not give.
    pub fn write(&mut self, offset: u64, size: u8, value: u64)
        requires
            old(self).wf(),
        ensures
            final(self).wf(),
            final(self).regs() == old(self).regs().after_write(
                offset,
                crate::bytes::low_bytes(value, size),
            ),
            offset != DR ==> final(self).same_output(old(self)),
            offset == DR ==> old(self).transmitted(final(self), (value % 0x100) as u8),
    {
        let low: u64 = mask(value, size);
        assert(low % 0x100 == value % 0x100) by {
            assert(value % 0x1_0000 % 0x100 == value % 0x100);
            assert(value % 0x1_0000_0000 % 0x100 == value % 0x100);
        }
        self.write_reg(offset, low);
    }

    /// `after` is `self` after `byte` was transmitted.
    pub open spec fn transmitted(&self, after: &Self, byte: u8) -> bool {
        let (text, line) = output::line_after(self.partial_line(), byte);
        &&& after.partial_line() == text
        &&& after.lines() == with_line(self.lines(), line)
        &&& {
            ||| after.failures() == self.failures() && after.sent() == self.sent().push(byte)
            ||| !self.sink().never_fails() && after.failures().len() == self.failures().len() + 1
                && after.failures().drop_last() == self.failures()
        }
        &&& self.sink().never_fails() ==> after.sink().never_fails()
    }

    fn read_reg(&mut self, offset: u64) -> (value: u64)
        requires
            old(self).wf(),
        ensures
            final(self).wf(),
            final(self).same_output(old(self)),
            final(self).regs() == old(self).regs().after_read(offset),
            value == old(self).regs().value(offset),
    {
        match offset {
            DR => self.read_dr(),
            FR => self.flags() as u64,
            IBRD => self.ibrd as u64,
            FBRD => self.fbrd as u64,
            LCR_H => self.lcr_h as u64,
            CR => self.cr as u64,
            IMSC => self.imsc as u64,
            RIS => self.ris as u64,
            MIS => (self.ris & self.imsc) as u64,
            _ => {
                if PERIPH_ID0 <= offset && offset < PERIPH_ID0 + 32 && offset % 4 == 0 {
                    id_byte(offset) as u64
                } else {
                    0
                }
            },
        }
    }

    fn write_reg(&mut self, offset: u64, value: u64)
        requires
            old(self).wf(),
        ensures
            final(self).wf(),
            final(self).regs() == old(self).regs().after_write(offset, value),
            offset != DR ==> final(self).same_output(old(self)),
            offset == DR ==> old(self).transmitted(final(self), (value % 0x100) as u8),
    {
        match offset {
            DR => self.transmit((value % 0x100) as u8),
            IBRD => {
                self.ibrd = (value % 0x1_0000) as u16;
            },
            FBRD => {
                self.fbrd = (value % 0x40) as u8;
            },
            LCR_H => {
                self.lcr_h = (value % 0x100) as u16;
            },
            CR => {
                self.cr = (value % 0x1_0000) as u16;
            },
            IMSC => {
                self.imsc = (value % 0x800) as u16;
            },
            ICR => {
                self.ris = self.ris & !((value % 0x1_0000) as u16);
            },
            _ => {},
        }
    }

    fn read_dr(&mut self) -> (value: u64)
        requires
            old(self).wf(),
        ensures
            final(self).wf(),
            final(self).same_output(old(self)),
            final(self).regs() == old(self).regs().after_read(DR),
            value == old(self).regs().value(DR),
    {
        match self.rx.pop_front() {
            Some(byte) => {
                if self.rx.len() == 0 {
                    self.ris = self.ris & !IRQ_RX;
                }
                assert(self.rx@ =~= old(self).rx@.skip(1));
                byte as u64
            },
            None => 0,
        }
    }

    fn transmit(&mut self, byte: u8)
        requires
            old(self).wf(),
        ensures
            final(self).wf(),
            final(self).regs() == (UartRegs {
                ris: old(self).regs().ris | IRQ_TX,
                ..old(self).regs()
            }),
            old(self).transmitted(final(self), byte),
    {
        let one: [u8; 1] = [byte];
        match self.sink.write_all(&one) {
            Ok(()) => {
                assert(self.sent() =~= old(self).sent().push(byte));
            },
            Err(error) => {
                self.failures.push(error);
                assert(self.failures@.drop_last() =~= old(self).failures@);
            },
        }
        if let Some(line) = self.line.push(byte) {
            self.lines.push(line);
            assert(texts(self.lines@) =~= texts(old(self).lines@).push(line@));
        }
        self.ris = self.ris | IRQ_TX;
    }

    fn flags(&self) -> (f: u32)
        ensures
            f == self.regs().flags(),
    {
        let mut flags: u32 = FR_TXFE;
        if self.rx.len() == 0 {
            flags = flags | FR_RXFE;
        }
        if self.rx.len() >= self.fifo_depth() {
            flags = flags | FR_RXFF;
        }
        flags
    }

    fn fifo_depth(&self) -> (n: usize)
        ensures
            n == self.regs().depth(),
    {
        if self.lcr_h & LCR_FEN != 0 {
            16
        } else {
            1
        }
    }

    /// The name that the device goes by on the bus.
    pub fn name(&self) -> (s: &str)
        ensures
            s@ == "pl011"@,
    {
        "pl011"
    }

    /// Take the transmitted lines, oldest first.
    pub fn take_lines(&mut self) -> (lines: Vec<String>)
        requires
            old(self).wf(),
        ensures
            final(self).wf(),
            final(self).regs() == old(self).regs(),
            final(self).sink() == old(self).sink(),
            final(self).partial_line() == old(self).partial_line(),
            final(self).failures() == old(self).failures(),
            final(self).lines() == Seq::<Seq<char>>::empty(),
            texts(lines@) == old(self).lines(),
    {
        let mut lines: Vec<String> = Vec::new();
        lines.append(&mut self.lines);
        assert(lines@ =~= old(self).lines@);
        assert(self.lines() =~= Seq::<Seq<char>>::empty());
        lines
    }

    /// Take the errors of the sink, oldest first.
    pub fn take_failures(&mut self) -> (failures: Vec<std::io::Error>)
        requires
            old(self).wf(),
        ensures
            final(self).wf(),
            final(self).regs() == old(self).regs(),
            final(self).sink() == old(self).sink(),
            final(self).partial_line() == old(self).partial_line(),
            final(self).lines() == old(self).lines(),
            final(self).failures() == Seq::<std::io::Error>::empty(),
            failures@ == old(self).failures(),
    {
        let mut failures: Vec<std::io::Error> = Vec::new();
        failures.append(&mut self.failures);
        assert(failures@ =~= old(self).failures@);
        failures
    }

    /// End the unfinished line, as when the device goes away.
    pub fn flush_line(&mut self) -> (line: Option<String>)
        requires
            old(self).wf(),
        ensures
            final(self).wf(),
            final(self).regs() == old(self).regs(),
            final(self).sink() == old(self).sink(),
            final(self).lines() == old(self).lines(),
            final(self).failures() == old(self).failures(),
            final(self).partial_line() == Seq::<char>::empty(),
            line is None <==> old(self).partial_line().len() == 0,
            line matches Some(s) ==> s@ == old(self).partial_line(),
    {
        let line = self.line.flush();
        assert(self.line@ =~= Seq::<char>::empty());
        line
    }
}

fn id_byte(offset: u64) -> (b: u8)
    requires
        PERIPH_ID0 <= offset < PERIPH_ID0 + 32,
    ensures
        b == id_byte_at((offset - PERIPH_ID0) / 4),
{
    match (offset - PERIPH_ID0) / 4 {
        0 => 0x11,
        1 => 0x10,
        2 => 0x14,
        3 => 0x00,
        4 => 0x0d,
        5 => 0xf0,
        6 => 0x05,
        _ => 0xb1,
    }
}

/// The name of the register at `offset`.
pub fn reg_name(offset: u64) -> (name: &'static str)
    ensures
        name@ == register_name(offset),
{
    match offset {
        DR => "UARTDR",
        FR => "UARTFR",
        IBRD => "UARTIBRD",
        FBRD => "UARTFBRD",
        LCR_H => "UARTLCR_H",
        CR => "UARTCR",
        IMSC => "UARTIMSC",
        RIS => "UARTRIS",
        MIS => "UARTMIS",
        ICR => "UARTICR",
        0xfe0 => "UARTPeriphID0",
        0xfe4 => "UARTPeriphID1",
        0xfe8 => "UARTPeriphID2",
        0xfec => "UARTPeriphID3",
        0xff0 => "UARTPCellID0",
        0xff4 => "UARTPCellID1",
        0xff8 => "UARTPCellID2",
        0xffc => "UARTPCellID3",
        _ => "unknown",
    }
}

/// The PrimeCell name of the register at `offset`.
pub open spec fn register_name(offset: u64) -> Seq<char> {
    if offset == DR {
        "UARTDR"@
    } else if offset == FR {
        "UARTFR"@
    } else if offset == IBRD {
        "UARTIBRD"@
    } else if offset == FBRD {
        "UARTFBRD"@
    } else if offset == LCR_H {
        "UARTLCR_H"@
    } else if offset == CR {
        "UARTCR"@
    } else if offset == IMSC {
        "UARTIMSC"@
    } else if offset == RIS {
        "UARTRIS"@
    } else if offset == MIS {
        "UARTMIS"@
    } else if offset == ICR {
        "UARTICR"@
    } else if offset == 0xfe0 {
        "UARTPeriphID0"@
    } else if offset == 0xfe4 {
        "UARTPeriphID1"@
    } else if offset == 0xfe8 {
        "UARTPeriphID2"@
    } else if offset == 0xfec {
        "UARTPeriphID3"@
    } else if offset == 0xff0 {
        "UARTPCellID0"@
    } else if offset == 0xff4 {
        "UARTPCellID1"@
    } else if offset == 0xff8 {
        "UARTPCellID2"@
    } else if offset == 0xffc {
        "UARTPCellID3"@
    } else {
        "unknown"@
    }
}

} // verus!
