//! What holds of every PL011.
use vstd::prelude::*;

use super::output::{flushed, line_after, ByteSink, LineBuf, UartError};
use super::{
    Pl011, UartRegs, DR, FR, FR_RXFE, FR_RXFF, FR_TXFE, FR_TXFF, ICR, IRQ_RX, MIS, PERIPH_ID0, RIS,
};

verus! {

broadcast use vstd::group_vstd_default;

/// What `n` reads of UARTDR in a row bring.
pub open spec fn reads(r: UartRegs, n: nat) -> Seq<u64>
    decreases n,
{
    if n == 0 {
        Seq::empty()
    } else {
        seq![r.value(DR)] + reads(r.after_read(DR), (n - 1) as nat)
    }
}

/// Bytes from the host reach the guest in the order they were queued, each once.
pub proof fn law_received_bytes_keep_their_order(r: UartRegs)
    ensures
        reads(r, r.rx.len()) == Seq::new(r.rx.len(), |i: int| r.rx[i] as u64),
    decreases r.rx.len(),
{
    let want = Seq::new(r.rx.len(), |i: int| r.rx[i] as u64);
    if r.rx.len() == 0 {
        assert(reads(r, 0) =~= want);
    } else {
        let next = r.after_read(DR);
        law_received_bytes_keep_their_order(next);
        assert(reads(r, r.rx.len()) =~= want);
    }
}

/// The text that is left and the lines handed out, in order, after `bytes` came in.
pub open spec fn lines_after(text: Seq<char>, bytes: Seq<u8>) -> (Seq<char>, Seq<Seq<char>>)
    decreases bytes.len(),
{
    if bytes.len() == 0 {
        (text, Seq::empty())
    } else {
        let (left, lines) = lines_after(text, bytes.drop_last());
        match line_after(left, bytes.last()) {
            (rest, Some(line)) => (rest, lines.push(line)),
            (rest, None) => (rest, lines),
        }
    }
}

/// The lines put one after the other.
pub open spec fn joined(lines: Seq<Seq<char>>) -> Seq<char>
    decreases lines.len(),
{
    if lines.len() == 0 {
        Seq::empty()
    } else {
        joined(lines.drop_last()) + lines.last()
    }
}

/// A character for each byte, without the newlines.
pub open spec fn text_of(bytes: Seq<u8>) -> Seq<char>
    decreases bytes.len(),
{
    if bytes.len() == 0 {
        Seq::empty()
    } else if bytes.last() == 0x0a {
        text_of(bytes.drop_last())
    } else {
        text_of(bytes.drop_last()).push(bytes.last() as char)
    }
}

/// No transmitted byte is lost, repeated, or moved on its way into a line: the lines handed out,
/// and then the text that is left, are the bytes that came in, without the newlines. No line is
/// empty. Ending the line at last hands out what is left.
pub proof fn law_lines_keep_every_byte(text: Seq<char>, bytes: Seq<u8>)
    ensures
        ({
            let (left, lines) = lines_after(text, bytes);
            &&& joined(lines) + left == text + text_of(bytes)
            &&& forall|i: int| 0 <= i < lines.len() ==> (#[trigger] lines[i]).len() > 0
            &&& match flushed(left).1 {
                Some(line) => joined(lines.push(line)) == text + text_of(bytes),
                None => joined(lines) == text + text_of(bytes),
            }
        }),
    decreases bytes.len(),
{
    let (left, lines) = lines_after(text, bytes);
    if bytes.len() == 0 {
        assert(joined(lines) + left =~= text + text_of(bytes));
    } else {
        let (before, some) = lines_after(text, bytes.drop_last());
        law_lines_keep_every_byte(text, bytes.drop_last());
        let longer = before.push(bytes.last() as char);
        match line_after(before, bytes.last()).1 {
            Some(line) => {
                assert(lines.drop_last() =~= some);
                assert(joined(lines) == joined(some) + line);
            },
            None => {},
        }
        assert(joined(some) + longer =~= (joined(some) + before).push(bytes.last() as char));
        assert((text + text_of(bytes.drop_last())).push(bytes.last() as char) =~= text + text_of(
            bytes.drop_last(),
        ).push(bytes.last() as char));
        assert(joined(lines) + left =~= text + text_of(bytes));
    }
    match flushed(left).1 {
        Some(line) => {
            assert(lines.push(line).drop_last() =~= lines);
        },
        None => {
            assert(joined(lines) + left =~= joined(lines));
        },
    }
}

/// The flags tell the receive queue: empty, full, or between. The transmitter is always empty
/// and never full.
pub proof fn law_flags_follow_the_queue(r: UartRegs)
    ensures
        r.flags() & FR_TXFE != 0,
        r.flags() & FR_TXFF == 0,
        r.flags() & FR_RXFE != 0 <==> r.rx.len() == 0,
        r.flags() & FR_RXFF != 0 <==> r.rx.len() >= r.depth(),
{
    assert({
        &&& 0x80u32 & 0x80 != 0 && 0x80u32 & 0x20 == 0 && 0x80u32 & 0x10 == 0 && 0x80u32 & 0x40 == 0
        &&& (0x80u32 | 0x10) & 0x80 != 0
        &&& (0x80u32 | 0x10) & 0x20 == 0
        &&& (0x80u32 | 0x10) & 0x10 != 0
        &&& (0x80u32 | 0x10) & 0x40 == 0
        &&& (0x80u32 | 0x40) & 0x80 != 0
        &&& (0x80u32 | 0x40) & 0x20 == 0
        &&& (0x80u32 | 0x40) & 0x10 == 0
        &&& (0x80u32 | 0x40) & 0x40 != 0
        &&& (0x80u32 | 0x10 | 0x40) & 0x80 != 0
        &&& (0x80u32 | 0x10 | 0x40) & 0x20 == 0
        &&& (0x80u32 | 0x10 | 0x40) & 0x10 != 0
        &&& (0x80u32 | 0x10 | 0x40) & 0x40 != 0
    }) by (bit_vector);
}

/// A write to the flags, the interrupt status, or an identification register changes nothing, and
/// no write at all changes an identification register or the receive queue.
pub proof fn law_read_only_registers_ignore_writes(r: UartRegs, offset: u64, v: u64, id: u64)
    requires
        PERIPH_ID0 <= id < PERIPH_ID0 + 32,
    ensures
        r.after_write(offset, v).value(id) == r.value(id),
        r.after_write(offset, v).rx == r.rx,
        offset == FR || offset == RIS || offset == MIS || offset == id ==> r.after_write(offset, v)
            == r,
{
}

/// Clearing interrupts clears exactly those that were named, masked or not.
pub proof fn law_cleared_interrupts_are_gone(r: UartRegs, v: u64, other: u16)
    requires
        other & ((v % 0x1_0000) as u16) == 0,
    ensures
        r.after_write(ICR, v).ris & ((v % 0x1_0000) as u16) == 0,
        r.after_write(ICR, v).ris & other == r.ris & other,
        r.value(MIS) == r.ris & r.imsc,
{
    let ris = r.ris;
    let bits = (v % 0x1_0000) as u16;
    assert({
        &&& (ris & !bits) & bits == 0
        &&& other & bits == 0 ==> (ris & !bits) & other == ris & other
    }) by (bit_vector);
}

/// The receive interrupt is pending only while a byte waits.
pub open spec fn receive_interrupt_ok(r: UartRegs) -> bool {
    r.ris & IRQ_RX != 0 ==> r.rx.len() > 0
}

/// The receive interrupt is pending only while a byte waits: so after power-on, and whatever the
/// host queues and the guest reads and writes.
pub proof fn law_receive_interrupt_needs_a_byte(r: UartRegs, byte: u8, offset: u64, v: u64)
    requires
        receive_interrupt_ok(r),
    ensures
        receive_interrupt_ok(UartRegs::reset()),
        receive_interrupt_ok(r.after_push(byte)),
        receive_interrupt_ok(r.after_read(offset)),
        receive_interrupt_ok(r.after_write(offset, v)),
        r.rx.len() < r.depth() ==> r.after_push(byte).ris & IRQ_RX != 0,
{
    let ris = r.ris;
    let bits = (v % 0x1_0000) as u16;
    assert({
        &&& 0u16 & 0x10 == 0
        &&& (ris | 0x10) & 0x10 != 0
        &&& (ris & !0x10) & 0x10 == 0
        &&& (ris | 0x20) & 0x10 == ris & 0x10
        &&& (ris & !bits) & 0x10 != 0 ==> ris & 0x10 != 0
    }) by (bit_vector);
}

/// The registers after the host queued `bytes` in order.
pub open spec fn pushed(r: UartRegs, bytes: Seq<u8>) -> UartRegs
    decreases bytes.len(),
{
    if bytes.len() == 0 {
        r
    } else {
        pushed(r, bytes.drop_last()).after_push(bytes.last())
    }
}

/// What the host queues is what the guest reads: bytes that fit come out of UARTDR unchanged and in
/// order, after those that waited already; queued into an empty UART, the next read brings the
/// byte. Nothing but the queue and the receive interrupt changes.
pub proof fn law_host_input_reaches_the_guest(r: UartRegs, bytes: Seq<u8>)
    requires
        r.rx.len() + bytes.len() <= r.depth(),
    ensures
        ({
            let full = pushed(r, bytes);
            let n = r.rx.len() + bytes.len();
            &&& reads(full, n).len() == n
            &&& forall|i: int|
                0 <= i < n ==> #[trigger] reads(full, n)[i] == if i < r.rx.len() {
                    r.rx[i]
                } else {
                    bytes[i - r.rx.len()]
                }
            &&& r.rx.len() == 0 && bytes.len() > 0 ==> full.value(0x000) == bytes[0]
            &&& full.ibrd == r.ibrd && full.fbrd == r.fbrd && full.lcr_h == r.lcr_h && full.cr
                == r.cr && full.imsc == r.imsc
            &&& bytes.len() > 0 ==> full.ris == r.ris | 0x10
        }),
{
    lemma_pushed(r, bytes);
    let full = pushed(r, bytes);
    law_received_bytes_keep_their_order(full);
}

proof fn lemma_pushed(r: UartRegs, bytes: Seq<u8>)
    requires
        r.rx.len() + bytes.len() <= r.depth(),
    ensures
        pushed(r, bytes) == (UartRegs {
            rx: r.rx + bytes,
            ris: if bytes.len() == 0 {
                r.ris
            } else {
                r.ris | 0x10
            },
            ..r
        }),
    decreases bytes.len(),
{
    let ris = r.ris;
    if bytes.len() == 0 {
        assert(r.rx + bytes =~= r.rx);
    } else {
        lemma_pushed(r, bytes.drop_last());
        assert((r.rx + bytes.drop_last()).push(bytes.last()) =~= r.rx + bytes);
        assert((ris | 0x10) | 0x10 == ris | 0x10) by (bit_vector);
    }
}

/// The receive queue takes sixteen bytes with the FIFO bit of the line control set and one without
/// it. A byte that does not fit changes nothing.
pub proof fn law_receive_queue_has_its_depth(r: UartRegs, byte: u8)
    ensures
        (r.lcr_h / 16) % 2 == 1 ==> r.depth() == 16,
        (r.lcr_h / 16) % 2 == 0 ==> r.depth() == 1,
        r.rx.len() < r.depth() ==> r.after_push(byte).rx == r.rx.push(byte),
        r.rx.len() >= r.depth() ==> r.after_push(byte) == r,
{
    let l = r.lcr_h;
    assert(l & 0x10 != 0 <==> (l / 16) % 2 == 1) by (bit_vector);
}

/// A register that can be written reads back what was written, in the bits that it has; and a
/// write to one register changes no other.
pub proof fn law_registers_read_back(r: UartRegs, v: u64, offset: u64)
    ensures
        r.after_write(0x024, v).value(0x024) == v % 0x1_0000,
        r.after_write(0x028, v).value(0x028) == v % 0x40,
        r.after_write(0x02c, v).value(0x02c) == v % 0x100,
        r.after_write(0x030, v).value(0x030) == v % 0x1_0000,
        r.after_write(0x038, v).value(0x038) == v % 0x800,
        offset != 0x024 ==> r.after_write(offset, v).value(0x024) == r.value(0x024),
        offset != 0x028 ==> r.after_write(offset, v).value(0x028) == r.value(0x028),
        offset != 0x02c ==> r.after_write(offset, v).value(0x02c) == r.value(0x02c),
        offset != 0x030 ==> r.after_write(offset, v).value(0x030) == r.value(0x030),
        offset != 0x038 ==> r.after_write(offset, v).value(0x038) == r.value(0x038),
        offset != 0x000 && offset != 0x044 ==> r.after_write(offset, v).value(0x03c) == r.value(
            0x03c,
        ),
        r.after_write(0x000, v).value(0x03c) == (r.value(0x03c) as u16 | 0x20),
        r.value(0x040) == (r.value(0x03c) as u16 & r.value(0x038) as u16),
{
}

/// A read takes a byte of the receive queue if it is of UARTDR and there is one, and changes
/// nothing else but the receive interrupt.
pub proof fn law_reads_take_one_byte(r: UartRegs, offset: u64)
    ensures
        offset != 0x000 || r.rx.len() == 0 ==> r.after_read(offset) == r,
        r.rx.len() > 0 ==> r.value(0x000) == r.rx[0] && r.after_read(0x000).rx == r.rx.subrange(
            1,
            r.rx.len() as int,
        ),
        r.rx.len() == 0 ==> r.value(0x000) == 0,
        r.rx.len() > 1 ==> r.after_read(0x000).ris == r.ris,
        r.rx.len() == 1 ==> r.after_read(0x000).ris == r.ris & 0xffef,
        forall|at: u64|
            at != 0x000 && at != 0x018 && at != 0x03c && at != 0x040
                ==> #[trigger] r.after_read(offset).value(at) == r.value(at),
{
    let ris = r.ris;
    assert(ris & !0x10u16 == ris & 0xffef) by (bit_vector);
    if r.rx.len() > 0 {
        assert(r.rx.skip(1) =~= r.rx.subrange(1, r.rx.len() as int));
    }
}

/// After power-on: nothing waits, nothing is masked in or pending, and the control register has
/// its transmitter and receiver bits set. The identification registers spell the PrimeCell PL011,
/// in every state.
pub proof fn law_power_on_and_identity(r: UartRegs)
    ensures
        ({
            let p = UartRegs::reset();
            &&& p.rx.len() == 0 && p.value(0x024) == 0 && p.value(0x028) == 0
            &&& p.value(0x02c) == 0 && p.value(0x030) == 0x300 && p.value(0x038) == 0
            &&& p.value(0x03c) == 0 && p.value(0x018) == 0x90
        }),
        r.value(0xfe0) == 0x11 && r.value(0xfe4) == 0x10 && r.value(0xfe8) == 0x14,
        r.value(0xfec) == 0x00 && r.value(0xff0) == 0x0d && r.value(0xff4) == 0xf0,
        r.value(0xff8) == 0x05 && r.value(0xffc) == 0xb1,
{
    assert({
        &&& 0u16 & 0x10 == 0
        &&& 0x80u32 | 0x10 == 0x90
    }) by (bit_vector);
}

/// A line ends at a newline, or where its text reaches 256 bytes, and nowhere else. Every other
/// byte is added to the text as the character of that number.
pub proof fn law_lines_end_at_newlines_or_the_limit(text: Seq<char>, byte: u8)
    ensures
        ({
            let longer = text.push(byte as char);
            let (left, line) = line_after(text, byte);
            &&& byte == 10 && text.len() > 0 ==> line == Some(text) && left.len() == 0
            &&& byte == 10 && text.len() == 0 ==> line is None && left.len() == 0
            &&& byte != 10 && super::output::text_bytes(longer) < 256 ==> line is None && left
                == longer
            &&& byte != 10 && super::output::text_bytes(longer) >= 256 ==> line == Some(longer)
                && left.len() == 0
            &&& super::output::text_bytes(longer) == super::output::text_bytes(text) + if byte
                < 128 {
                1int
            } else {
                2int
            }
        }),
{
    let longer = text.push(byte as char);
    assert(longer.drop_last() =~= text);
}

/// The calls of a UART and its registers: a byte that fits is queued; a read brings the low bytes
/// of the register and takes from the queue; a write changes the registers. None but a write to
/// UARTDR touches the output.
pub proof fn law_calls_go_to_the_registers<S: ByteSink>(
    p: &mut Pl011<S>,
    byte: u8,
    taken: bool,
    r: &mut Pl011<S>,
    offset: u64,
    size: u8,
    value: u64,
    w: &mut Pl011<S>,
    v: u64,
)
    requires
        call_ensures(Pl011::<S>::push_rx, (p, byte), taken),
        call_ensures(Pl011::<S>::read, (r, offset, size), value),
        call_ensures(Pl011::<S>::write, (w, offset, size, v), ()),
    ensures
        taken <==> old(p).regs().rx.len() < old(p).regs().depth(),
        final(p).regs() == old(p).regs().after_push(byte),
        final(r).regs() == old(r).regs().after_read(offset),
        size == 1 ==> value == old(r).regs().value(offset) % 0x100,
        size == 2 ==> value == old(r).regs().value(offset) % 0x1_0000,
        size == 4 ==> value == old(r).regs().value(offset) % 0x1_0000_0000,
        size == 8 ==> value == old(r).regs().value(offset),
        size == 1 ==> final(w).regs() == old(w).regs().after_write(offset, v % 0x100),
        size == 2 ==> final(w).regs() == old(w).regs().after_write(offset, v % 0x1_0000),
        size == 4 ==> final(w).regs() == old(w).regs().after_write(offset, v % 0x1_0000_0000),
        size == 8 ==> final(w).regs() == old(w).regs().after_write(offset, v),
        final(p).sent() == old(p).sent() && final(p).lines() == old(p).lines()
            && final(p).partial_line() == old(p).partial_line(),
        final(r).sent() == old(r).sent() && final(r).lines() == old(r).lines()
            && final(r).partial_line() == old(r).partial_line(),
        offset != 0 ==> final(w).sent() == old(w).sent() && final(w).lines() == old(w).lines()
            && final(w).partial_line() == old(w).partial_line(),
{
}

/// A byte that the host queues into an empty UART is what the guest's next read of UARTDR brings,
/// with every size of access.
pub proof fn law_pushed_bytes_come_out<S: ByteSink>(
    p: &mut Pl011<S>,
    byte: u8,
    taken: bool,
    r: &mut Pl011<S>,
    size: u8,
    value: u64,
)
    requires
        call_ensures(Pl011::<S>::push_rx, (p, byte), taken),
        old(p).regs().rx.len() == 0,
        *old(r) == *final(p),
        call_ensures(Pl011::<S>::read, (r, 0x000, size), value),
    ensures
        taken,
        value == byte,
        final(r).regs().rx.len() == 0,
{
    law_receive_queue_has_its_depth(old(p).regs(), byte);
    law_reads_take_one_byte(old(r).regs(), 0x000);
}

/// A byte written to UARTDR goes to the sink as it is, behind those before it, if the sink never
/// fails; and it goes into the text of the line. A new UART has sent nothing.
pub proof fn law_transmitted_bytes_reach_the_sink<S: ByteSink>(
    w: &mut Pl011<S>,
    size: u8,
    v: u64,
    sink: Box<S>,
    n: Pl011<S>,
)
    requires
        call_ensures(Pl011::<S>::write, (w, 0x000, size, v), ()),
        call_ensures(Pl011::<S>::new, (sink,), n),
    ensures
        old(w).sink().never_fails() ==> final(w).sent() == old(w).sent().push((v % 256) as u8)
            && final(w).failures() == old(w).failures() && final(w).sink().never_fails(),
        v % 256 != 10 && old(w).partial_line().len() < 100 ==> final(w).partial_line() == old(w).partial_line().push((v % 256) as u8 as char) && final(w).lines() == old(w).lines(),
        v % 256 == 10 && old(w).partial_line().len() > 0 ==> final(w).partial_line().len() == 0
            && final(w).lines() == old(w).lines().push(old(w).partial_line()),
        v % 256 == 10 && old(w).partial_line().len() == 0 ==> final(w).partial_line().len() == 0
            && final(w).lines() == old(w).lines(),
        n.sink() == sink && n.lines().len() == 0 && n.partial_line().len() == 0,
        n.failures().len() == 0,
        n.regs() == UartRegs::reset(),
{
    let text = old(w).partial_line();
    law_lines_end_at_newlines_or_the_limit(text, (v % 256) as u8);
    lemma_text_takes_two_bytes_at_most(text.push((v % 256) as u8 as char));
}

proof fn lemma_text_takes_two_bytes_at_most(text: Seq<char>)
    ensures
        super::output::text_bytes(text) <= 2 * text.len(),
    decreases text.len(),
{
    if text.len() > 0 {
        lemma_text_takes_two_bytes_at_most(text.drop_last());
    }
}

/// Lines and errors are taken oldest first and each once; ending the line hands out its text.
pub proof fn law_output_is_taken_once<S: ByteSink>(
    l: &mut Pl011<S>,
    lines: Vec<String>,
    e: &mut Pl011<S>,
    errors: Vec<std::io::Error>,
    f: &mut Pl011<S>,
    line: Option<String>,
)
    requires
        call_ensures(Pl011::<S>::take_lines, (l,), lines),
        call_ensures(Pl011::<S>::take_failures, (e,), errors),
        call_ensures(Pl011::<S>::flush_line, (f,), line),
    ensures
        lines@.len() == old(l).lines().len(),
        forall|i: int| 0 <= i < lines@.len() ==> (#[trigger] lines@[i])@ == old(l).lines()[i],
        final(l).lines().len() == 0,
        errors@ == old(e).failures() && final(e).failures().len() == 0,
        line is Some <==> old(f).partial_line().len() > 0,
        line matches Some(s) ==> s@ == old(f).partial_line(),
        final(f).partial_line().len() == 0,
{
    assert forall|i: int| 0 <= i < lines@.len() implies (#[trigger] lines@[i])@ == old(l).lines()[i] by {
        assert(super::texts(lines@)[i] == lines@[i]@);
    }
}

/// A line buffer hands out what [`line_after`] and [`flushed`] say, and starts empty.
pub proof fn law_line_buffers_hand_out_lines(
    n: LineBuf,
    b: &mut LineBuf,
    byte: u8,
    line: Option<String>,
    f: &mut LineBuf,
    last: Option<String>,
)
    requires
        call_ensures(LineBuf::new, (), n),
        call_ensures(LineBuf::push, (b, byte), line),
        call_ensures(LineBuf::flush, (f,), last),
    ensures
        n@.len() == 0,
        final(b)@ == line_after(old(b)@, byte).0,
        line is Some <==> line_after(old(b)@, byte).1 is Some,
        line matches Some(s) ==> line_after(old(b)@, byte).1 == Some(s@),
        final(f)@.len() == 0,
        last is Some <==> old(f)@.len() > 0,
        last matches Some(s) ==> s@ == old(f)@,
{
}

/// The name of each register, the bus name of the device, and what a failed serial log says.
pub proof fn law_uart_names<S: ByteSink>(
    offset: u64,
    name: &'static str,
    e: UartError,
    s: String,
    d: &Pl011<S>,
    bus: &str,
)
    requires
        call_ensures(Pl011::<S>::name, (d,), bus),
        call_ensures(super::reg_name, (offset,), name),
        call_ensures(UartError::message, (&e,), s),
    ensures
        name@ == (match offset {
            0x000 => "UARTDR",
            0x018 => "UARTFR",
            0x024 => "UARTIBRD",
            0x028 => "UARTFBRD",
            0x02c => "UARTLCR_H",
            0x030 => "UARTCR",
            0x038 => "UARTIMSC",
            0x03c => "UARTRIS",
            0x040 => "UARTMIS",
            0x044 => "UARTICR",
            0xfe0 => "UARTPeriphID0",
            0xfe4 => "UARTPeriphID1",
            0xfe8 => "UARTPeriphID2",
            0xfec => "UARTPeriphID3",
            0xff0 => "UARTPCellID0",
            0xff4 => "UARTPCellID1",
            0xff8 => "UARTPCellID2",
            0xffc => "UARTPCellID3",
            _ => "unknown",
        })@,
        e matches UartError::Create { path, source } ==> s@ == "create serial log "@ + path@
            + ": "@ + source@,
        bus@ == "pl011"@,
{
}

/// A byte vector takes all that is written to it, in order.
pub proof fn law_byte_vectors_take_everything(
    v: &mut Vec<u8>,
    bytes: &[u8],
    r: std::io::Result<()>,
)
    requires
        call_ensures(<Vec<u8> as ByteSink>::write_all, (v, bytes), r),
    ensures
        r is Ok,
        final(v)@ == old(v)@ + bytes@,
{
}

/// What reads bring: the oldest byte that waits, or zero; the flags; what each register holds; the
/// pending interrupts, and those of them that are not masked. Every other offset reads zero, and
/// a write to one that holds nothing changes nothing.
pub proof fn law_reads_bring_what_registers_hold(r: UartRegs, offset: u64, v: u64)
    ensures
        r.rx.len() == 0 ==> r.value(0x000) == 0,
        r.rx.len() > 0 ==> r.value(0x000) == r.rx[0],
        r.value(0x024) == r.ibrd && r.value(0x028) == r.fbrd && r.value(0x02c) == r.lcr_h,
        r.value(0x030) == r.cr && r.value(0x038) == r.imsc && r.value(0x03c) == r.ris,
        r.value(0x040) == r.ris & r.imsc,
        offset != 0x000 && offset != 0x018 && offset != 0x024 && offset != 0x028 && offset != 0x02c
            && offset != 0x030 && offset != 0x038 && offset != 0x03c && offset != 0x040 && !(0xfe0
            <= offset <= 0xffc && offset % 4 == 0) ==> r.value(offset) == 0,
        offset != 0x000 && offset != 0x024 && offset != 0x028 && offset != 0x02c && offset != 0x030
            && offset != 0x038 && offset != 0x044 ==> r.after_write(offset, v) == r,
{
}

} // verus!
