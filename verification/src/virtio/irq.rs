//! Virtio interrupt-status line.
//!
//! The line is active while some status bit is set. Each change of the line is queued as an
//! edge; whoever drives the interrupt controller takes the edges and plays them in order.
use vstd::prelude::*;

verus! {

/// The status bits a virtio device has: used buffer, and configuration change.
pub const STATUS_BITS: u32 = 0b11;

/// Interrupt status bits and the line changes that were not delivered yet.
#[derive(Debug)]
pub struct VirtioIrq {
    bits: u32,
    edges: Vec<bool>,
}

impl VirtioIrq {
    /// The interrupt-status register.
    pub closed spec fn bits(&self) -> u32 {
        self.bits
    }

    /// Line levels to deliver, oldest first.
    pub closed spec fn edges(&self) -> Seq<bool> {
        self.edges@
    }

    /// The line is active.
    pub open spec fn active(&self) -> bool {
        self.bits() != 0
    }

    /// Only defined bits are set; edges alternate and the newest one is the line's level.
    pub open spec fn wf(&self) -> bool {
        &&& self.bits() <= STATUS_BITS
        &&& forall|i: int| 0 < i < self.edges().len() ==> self.edges()[i] != #[trigger] self.edges()[i - 1]
        &&& self.edges().len() > 0 ==> self.edges().last() == self.active()
    }

    /// `self` became `after` by setting the status to `bits`: an edge is queued exactly when the
    /// line changed.
    pub open spec fn moved_to(&self, after: &Self, bits: u32) -> bool {
        &&& after.bits() == bits
        &&& after.edges() == if after.active() == self.active() {
            self.edges()
        } else {
            self.edges().push(after.active())
        }
    }

    /// Idle line with nothing to deliver.
    pub fn new() -> (irq: Self)
        ensures
            irq.wf(),
            irq.bits() == 0,
            irq.edges() == Seq::<bool>::empty(),
    {
        VirtioIrq { bits: 0, edges: Vec::new() }
    }

    /// Current interrupt-status register value.
    pub fn status(&self) -> (bits: u32)
        ensures
            bits == self.bits(),
    {
        self.bits
    }

    /// OR `bits` into the status. Raises the line when it becomes non-zero.
    pub fn raise(&mut self, bits: u32)
        requires
            old(self).wf(),
        ensures
            final(self).wf(),
            old(self).moved_to(final(self), old(self).bits() | (bits & STATUS_BITS)),
    {
        let set: u32 = bits & STATUS_BITS;
        let prev: u32 = self.bits;
        proof {
            assert({
                &&& bits & 0b11 <= 0b11
                &&& prev | 0 == prev
                &&& prev <= 0b11 && set <= 0b11 ==> prev | set <= 0b11
                &&& set != 0 ==> prev | set != 0
            }) by (bit_vector);
        }
        if set == 0 {
            return;
        }
        self.bits = prev | set;
        if prev == 0 {
            self.edges.push(true);
        }
    }

    /// Clear `bits` from the status. Lowers the line when it becomes zero.
    pub fn ack(&mut self, bits: u32)
        requires
            old(self).wf(),
        ensures
            final(self).wf(),
            old(self).moved_to(final(self), old(self).bits() & !(bits & STATUS_BITS)),
    {
        let clear: u32 = bits & STATUS_BITS;
        let prev: u32 = self.bits;
        let next: u32 = prev & !clear;
        proof {
            assert(prev & !clear <= prev) by (bit_vector);
        }
        self.bits = next;
        if prev != 0 && next == 0 {
            self.edges.push(false);
        }
    }

    /// Take the undelivered line levels.
    pub fn take_edges(&mut self) -> (edges: Vec<bool>)
        requires
            old(self).wf(),
        ensures
            final(self).wf(),
            edges@ == old(self).edges(),
            final(self).bits() == old(self).bits(),
            final(self).edges() == Seq::<bool>::empty(),
    {
        let mut edges: Vec<bool> = Vec::new();
        edges.append(&mut self.edges);
        edges
    }
}

/// Raising and then acknowledging the same bits of an idle line brings it back to idle, and
/// delivers exactly one active and one inactive level.
pub proof fn law_raise_then_ack(idle: &VirtioIrq, raised: &VirtioIrq, cleared: &VirtioIrq, bits: u32)
    requires
        idle.wf(),
        idle.bits() == 0,
        bits & STATUS_BITS != 0,
        idle.moved_to(raised, idle.bits() | (bits & STATUS_BITS)),
        raised.moved_to(cleared, raised.bits() & !(bits & STATUS_BITS)),
    ensures
        cleared.bits() == 0,
        cleared.edges() == idle.edges().push(true).push(false),
{
    let b = bits & STATUS_BITS;
    assert({
        &&& 0 | b == b
        &&& b & !b == 0
    }) by (bit_vector);
}

/// Acknowledging some bits leaves every other bit of the status as it was.
pub proof fn law_other_bits_stay(before: &VirtioIrq, after: &VirtioIrq, bits: u32, other: u32)
    requires
        before.moved_to(after, before.bits() & !(bits & STATUS_BITS)),
        other & bits == 0,
    ensures
        after.bits() & other == before.bits() & other,
{
    let prev = before.bits();
    assert((prev & !(bits & 0b11)) & other == prev & other) by (bit_vector)
        requires
            other & bits == 0,
    ;
}

/// The line goes up when the first of the two status bits is raised, and down when the last one is
/// acknowledged, and each change is delivered once, in order. Other bits do nothing. Bits are
/// given here as numbers from 0 to 3: 1 is used buffers, 2 is the configuration.
pub proof fn law_the_line_follows_the_bits(
    up: &mut VirtioIrq,
    down: &mut VirtioIrq,
    taken: &mut VirtioIrq,
    bits: u32,
    edges: Vec<bool>,
    n: VirtioIrq,
    s: u32,
)
    requires
        old(up).wf() && old(down).wf(),
        call_ensures(VirtioIrq::raise, (up, bits), ()),
        call_ensures(VirtioIrq::ack, (down, bits), ()),
        call_ensures(VirtioIrq::take_edges, (taken,), edges),
        call_ensures(VirtioIrq::new, (), n),
        call_ensures(VirtioIrq::status, (&n,), s),
    ensures
        one(final(up).bits(), 0) == (one(old(up).bits(), 0) || one(bits, 0)),
        one(final(up).bits(), 1) == (one(old(up).bits(), 1) || one(bits, 1)),
        final(up).bits() <= 3 && final(down).bits() <= 3,
        one(final(down).bits(), 0) == (one(old(down).bits(), 0) && !one(bits, 0)),
        one(final(down).bits(), 1) == (one(old(down).bits(), 1) && !one(bits, 1)),
        old(up).bits() == 0 && final(up).bits() != 0 ==> final(up).edges() == old(up).edges().push(
            true,
        ),
        old(up).bits() != 0 || final(up).bits() == 0 ==> final(up).edges() == old(up).edges(),
        old(down).bits() != 0 && final(down).bits() == 0 ==> final(down).edges() == old(down).edges().push(false),
        old(down).bits() == 0 || final(down).bits() != 0 ==> final(down).edges() == old(down).edges(),
        edges@ == old(taken).edges() && final(taken).edges().len() == 0 && final(taken).bits()
            == old(taken).bits(),
        n.bits() == 0 && n.edges().len() == 0 && s == 0,
{
    let a = old(up).bits();
    let b = old(down).bits();
    assert(a <= 3 ==> {
        let x = a | (bits & 3);
        &&& (x % 2 == 1) == (a % 2 == 1 || bits % 2 == 1)
        &&& (x / 2 % 2 == 1) == (a / 2 % 2 == 1 || bits / 2 % 2 == 1)
        &&& x <= 3
        &&& a != 0 ==> x != 0
    }) by (bit_vector);
    assert(b <= 3 ==> {
        let y = b & !(bits & 3);
        &&& (y % 2 == 1) == (b % 2 == 1 && !(bits % 2 == 1))
        &&& (y / 2 % 2 == 1) == (b / 2 % 2 == 1 && !(bits / 2 % 2 == 1))
        &&& y <= 3
        &&& b == 0 ==> y == 0
    }) by (bit_vector);
}

/// Bit `i`, zero or one, of `bits` is set.
pub open spec fn one(bits: u32, i: int) -> bool {
    if i == 0 {
        bits % 2 == 1
    } else {
        bits / 2 % 2 == 1
    }
}

} // verus!
