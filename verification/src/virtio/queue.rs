//! Split virtqueue: descriptor table, available ring, and used ring.
//!
//! Guest-controlled indices, lengths, and addresses are checked before use.
//! A bad value marks the queue broken and leaves the reason. Later operations do nothing.
pub mod calls;
pub mod laws;
pub mod layout;

use vstd::arithmetic::power2::is_pow2;
use vstd::prelude::*;

use crate::arith::is_power_of_two;
use crate::memory::GuestMemory;

verus! {

broadcast use vstd::group_vstd_default;

/// Descriptor flag: another descriptor follows.
pub const NEXT: u16 = 1;

/// Descriptor flag: the device writes this buffer.
pub const WRITE: u16 = 2;

/// Descriptor flag: the buffer is a table of descriptors.
pub const INDIRECT: u16 = 4;

/// Available-ring flag: the driver does not want interrupts.
pub const NO_INTERRUPT: u16 = 1;

/// One guest buffer in a descriptor chain.
#[derive(Debug, Clone, Copy, PartialEq, Eq, Structural)]
pub struct Buffer {
    /// Guest physical address.
    pub addr: u64,
    /// Length in bytes. Zero is a valid empty buffer.
    pub len: u32,
}

/// One available chain. Readable buffers come before writable ones.
#[derive(Debug, Clone, PartialEq, Eq)]
pub struct Chain {
    /// Descriptor index published in the available ring.
    pub head: u16,
    /// Device-readable buffers.
    pub readable: Vec<Buffer>,
    /// Device-writable buffers.
    pub writable: Vec<Buffer>,
}

/// What a [`Chain`] holds.
pub struct ChainView {
    pub head: u16,
    pub readable: Seq<Buffer>,
    pub writable: Seq<Buffer>,
}

impl View for Chain {
    type V = ChainView;

    open spec fn view(&self) -> ChainView {
        ChainView { head: self.head, readable: self.readable@, writable: self.writable@ }
    }
}

/// One entry of a descriptor table.
#[derive(Debug, Clone, Copy, PartialEq, Eq, Structural)]
pub struct Desc {
    pub addr: u64,
    pub len: u32,
    pub flags: u16,
    pub next: u16,
}

impl Desc {
    /// Another descriptor of the table follows.
    pub open spec fn continues(self) -> bool {
        self.flags & NEXT != 0
    }

    /// The device writes the buffer.
    pub open spec fn writes(self) -> bool {
        self.flags & WRITE != 0
    }

    /// The buffer is a table of descriptors.
    pub open spec fn is_table(self) -> bool {
        self.flags & INDIRECT != 0
    }
}

/// The descriptor stored at `at`, where all of it is mapped.
pub open spec fn desc_at(m: Map<int, u8>, at: int) -> Option<Desc> {
    if crate::memory::mapped(m, at, 16) {
        Some(
            Desc {
                addr: crate::memory::value_at(m, at, 8) as u64,
                len: crate::memory::value_at(m, at + 8, 4) as u32,
                flags: crate::memory::value_at(m, at + 12, 2) as u16,
                next: crate::memory::value_at(m, at + 14, 2) as u16,
            },
        )
    } else {
        None
    }
}

/// The descriptors of the table of `count` entries at `table`, from entry `index` to the end of
/// its chain, when entries `visited` came before. A chain ends at the first descriptor that has
/// no successor or is itself a table. There is none when the chain leaves mapped memory or the
/// table, comes back to an entry, or has more than `count` entries.
pub open spec fn chain_from(
    m: Map<int, u8>,
    table: int,
    count: nat,
    index: int,
    visited: Seq<int>,
) -> Option<Seq<Desc>>
    decreases count - visited.len(),
{
    if visited.len() >= count || index >= count || visited.contains(index) {
        None
    } else {
        match desc_at(m, table + 16 * index) {
            None => None,
            Some(d) => if d.is_table() || !d.continues() {
                Some(seq![d])
            } else {
                prepend(seq![d], chain_from(m, table, count, d.next as int, visited.push(index)))
            },
        }
    }
}

/// `rest` with `front` before it.
pub open spec fn prepend(front: Seq<Desc>, rest: Option<Seq<Desc>>) -> Option<Seq<Desc>> {
    match rest {
        None => None,
        Some(ds) => Some(front + ds),
    }
}

/// The first and the last byte of the buffer are mapped, or it is empty.
pub open spec fn buffer_mapped(m: Map<int, u8>, addr: int, len: int) -> bool {
    len > 0 ==> m.dom().contains(addr) && m.dom().contains(addr + len - 1)
}

/// The buffers of `ds` are mapped, and no readable one follows a writable one.
pub open spec fn buffers_ok(m: Map<int, u8>, ds: Seq<Desc>) -> bool {
    &&& forall|i: int|
        0 <= i < ds.len() ==> buffer_mapped(m, (#[trigger] ds[i]).addr as int, ds[i].len as int)
    &&& forall|i: int, j: int|
        0 <= i < j < ds.len() && (#[trigger] ds[i]).writes() ==> (#[trigger] ds[j]).writes()
}

/// The buffers of `ds` that the device writes, or those that it reads, in order.
pub open spec fn buffers(ds: Seq<Desc>, writable: bool) -> Seq<Buffer>
    decreases ds.len(),
{
    if ds.len() == 0 {
        Seq::empty()
    } else {
        let rest = buffers(ds.drop_last(), writable);
        if ds.last().writes() == writable {
            rest.push(Buffer { addr: ds.last().addr, len: ds.last().len })
        } else {
            rest
        }
    }
}

/// The chain inside the descriptor table that `t` points at. It holds no further table.
pub open spec fn table_chain(m: Map<int, u8>, size: u16, t: Desc) -> Option<Seq<Desc>> {
    if t.len == 0 || t.len % 16 != 0 || t.len / 16 > size {
        None
    } else {
        match chain_from(m, t.addr as int, (t.len / 16) as nat, 0, Seq::empty()) {
            Some(ds) => if !ds.last().is_table() {
                Some(ds)
            } else {
                None
            },
            None => None,
        }
    }
}

/// The guest-controlled value that a queue rejected.
#[derive(Debug, Clone, Copy, PartialEq, Eq, Structural)]
pub enum Fault {
    /// The size of the queue.
    Size,
    /// The address of the descriptor table or of a ring.
    Alignment,
    /// The available index.
    AvailIndex,
    /// The available ring.
    AvailRing,
    /// A head in the available ring.
    AvailHead,
    /// A descriptor or its successor.
    Descriptor,
    /// An indirect descriptor table.
    Table,
    /// A buffer of a chain.
    Buffer,
    /// A head that was to be recorded.
    UsedHead,
    /// The used ring.
    UsedRing,
    /// The used index.
    UsedIndex,
    /// The used index that the driver wants to hear about.
    UsedEvent,
}

impl Fault {
    /// What is wrong, in words.
    pub fn reason(self) -> (s: &'static str)
        ensures
            s@ == (match self {
                Fault::Size => "queue size is not a power of two",
                Fault::Alignment => "queue address is misaligned",
                Fault::AvailIndex => "available index is outside guest memory",
                Fault::AvailRing => "available ring is outside guest memory",
                Fault::AvailHead => "available head is outside the queue",
                Fault::Descriptor => "descriptor chain loops or leaves its table or guest memory",
                Fault::Table => "indirect descriptor is not allowed or its table is malformed",
                Fault::Buffer => {
                    "buffer is outside guest memory or a readable one follows a writable one"
                },
                Fault::UsedHead => "used head is outside the queue",
                Fault::UsedRing => "used ring is outside guest memory",
                Fault::UsedIndex => "used index is outside guest memory",
                Fault::UsedEvent => "used event index is outside guest memory",
            })@,
    {
        match self {
            Fault::Size => "queue size is not a power of two",
            Fault::Alignment => "queue address is misaligned",
            Fault::AvailIndex => "available index is outside guest memory",
            Fault::AvailRing => "available ring is outside guest memory",
            Fault::AvailHead => "available head is outside the queue",
            Fault::Descriptor => "descriptor chain loops or leaves its table or guest memory",
            Fault::Table => "indirect descriptor is not allowed or its table is malformed",
            Fault::Buffer => {
                "buffer is outside guest memory or a readable one follows a writable one"
            },
            Fault::UsedHead => "used head is outside the queue",
            Fault::UsedRing => "used ring is outside guest memory",
            Fault::UsedIndex => "used index is outside guest memory",
            Fault::UsedEvent => "used event index is outside guest memory",
        }
    }
}

/// A split virtqueue bound to guest addresses.
#[derive(Debug, Clone, Copy, PartialEq, Eq, Structural)]
pub struct SplitQueue {
    /// How many descriptors, and ring slots, the queue has.
    pub size: u16,
    /// Address of the descriptor table.
    pub desc: u64,
    /// Address of the available ring.
    pub avail: u64,
    /// Address of the used ring.
    pub used: u64,
    /// Available-ring index of the next chain to take.
    pub last_avail: u16,
    /// Used-ring index of the next element to fill.
    pub used_idx: u16,
    /// Why the queue is broken, if it is.
    pub broken: Option<Fault>,
    /// Indirect descriptors were negotiated.
    pub indirect: bool,
    /// Event indices were negotiated.
    pub event_idx: bool,
}

/// The 16-bit ring index after `i`.
pub open spec fn next_index(i: u16) -> u16 {
    if i == u16::MAX {
        0
    } else {
        (i + 1) as u16
    }
}

impl SplitQueue {
    /// The bound size and addresses are ones a queue can have.
    pub open spec fn bindable(size: u16, desc: u64, avail: u64, used: u64) -> bool {
        is_pow2(size as int) && desc % 16 == 0 && avail % 2 == 0 && used % 4 == 0
    }

    /// A queue that is not broken has a size and addresses that a queue can have.
    pub open spec fn wf(&self) -> bool {
        self.broken is None ==> Self::bindable(self.size, self.desc, self.avail, self.used)
    }

    /// What is wrong with the bound size and addresses, if something is.
    pub open spec fn bind_fault(size: u16, desc: u64, avail: u64, used: u64) -> Option<Fault> {
        if Self::bindable(size, desc, avail, used) {
            None
        } else if !is_pow2(size as int) {
            Some(Fault::Size)
        } else {
            Some(Fault::Alignment)
        }
    }

    /// The queue after it rejected a value.
    pub open spec fn rejected(self, fault: Fault) -> Self {
        SplitQueue { broken: Some(fault), ..self }
    }

    /// What is wrong with the chain that starts at descriptor `head`, where there is none.
    pub open spec fn chain_fault(self, m: Map<int, u8>, head: u16) -> Fault {
        if head >= self.size {
            Fault::AvailHead
        } else if chain_from(
            m,
            self.desc as int,
            self.size as nat,
            head as int,
            Seq::empty(),
        ) is None {
            Fault::Descriptor
        } else if self.descriptors(m, head) is None {
            Fault::Table
        } else {
            Fault::Buffer
        }
    }

    /// The descriptors with buffers of the chain that starts at descriptor `head`: those of the
    /// queue's own table, then those of the table that the last one points at, if it does.
    pub open spec fn descriptors(self, m: Map<int, u8>, head: u16) -> Option<Seq<Desc>> {
        match chain_from(m, self.desc as int, self.size as nat, head as int, Seq::empty()) {
            None => None,
            Some(ds) => if !ds.last().is_table() {
                Some(ds)
            } else if self.indirect && !ds.last().continues() {
                prepend(ds.drop_last(), table_chain(m, self.size, ds.last()))
            } else {
                None
            },
        }
    }

    /// The chain that starts at descriptor `head`, where all of its buffers are acceptable.
    pub open spec fn chain(self, m: Map<int, u8>, head: u16) -> Option<ChainView> {
        match self.descriptors(m, head) {
            Some(ds) => if buffers_ok(m, ds) {
                Some(
                    ChainView { head, readable: buffers(ds, false), writable: buffers(ds, true) },
                )
            } else {
                None
            },
            None => None,
        }
    }

    /// Where the available ring holds the next head.
    pub open spec fn ring_at(self) -> int {
        self.avail + 4 + 2 * (self.last_avail as int % self.size as int)
    }

    /// The queue and the chain after one chain was taken.
    pub open spec fn popped(self, m: Map<int, u8>) -> (Self, Option<ChainView>) {
        if self.broken is Some {
            (self, None)
        } else if !crate::memory::mapped(m, self.avail + 2, 2) {
            (self.rejected(Fault::AvailIndex), None)
        } else if crate::memory::value_at(m, self.avail + 2, 2) == self.last_avail {
            (self, None)
        } else if !crate::memory::mapped(m, self.ring_at(), 2) {
            (self.rejected(Fault::AvailRing), None)
        } else {
            let head = crate::memory::value_at(m, self.ring_at(), 2) as u16;
            match self.chain(m, head) {
                None => (self.rejected(self.chain_fault(m, head)), None),
                Some(c) => (SplitQueue { last_avail: next_index(self.last_avail), ..self }, Some(c)),
            }
        }
    }

    /// Bind a queue. `size` must be a non-zero power of two.
    ///
    /// `indirect` and `event_idx` follow `VIRTIO_F_INDIRECT_DESC` and
    /// `VIRTIO_F_EVENT_IDX` after feature negotiation.
    pub fn new(
        size: u16,
        desc: u64,
        avail: u64,
        used: u64,
        indirect: bool,
        event_idx: bool,
    ) -> (q: Self)
        ensures
            q.wf(),
            q == (SplitQueue {
                size,
                desc,
                avail,
                used,
                last_avail: 0,
                used_idx: 0,
                broken: Self::bind_fault(size, desc, avail, used),
                indirect,
                event_idx,
            }),
    {
        let mut queue = SplitQueue {
            size,
            desc,
            avail,
            used,
            last_avail: 0,
            used_idx: 0,
            broken: None,
            indirect,
            event_idx,
        };
        if !is_power_of_two(size as u32) {
            queue.break_queue(Fault::Size);
        } else if desc % 16 != 0 || avail % 2 != 0 || used % 4 != 0 {
            queue.break_queue(Fault::Alignment);
        }
        queue
    }

    /// The queue rejected a guest-controlled value.
    pub fn is_broken(&self) -> (b: bool)
        ensures
            b == self.broken is Some,
    {
        self.broken.is_some()
    }

    /// Where the used ring holds the next element.
    pub open spec fn elem_at(self) -> int {
        self.used + 4 + 8 * (self.used_idx as int % self.size as int)
    }

    /// The queue, the memory, and the answer after a completed chain was recorded.
    ///
    /// The element holds the head, then the length. The used index is written last.
    pub open spec fn recorded(self, m: Map<int, u8>, head: u16, len: u32) -> (
        Self,
        Map<int, u8>,
        bool,
    ) {
        let at = self.elem_at();
        let with_head = crate::memory::with_value(m, at, head as nat, 4);
        let with_elem = crate::memory::with_value(with_head, at + 4, len as nat, 4);
        let next = next_index(self.used_idx);
        if self.broken is Some {
            (self, m, false)
        } else if head >= self.size {
            (self.rejected(Fault::UsedHead), m, false)
        } else if at + 4 > u64::MAX || !crate::memory::mapped(m, at, 4) {
            (self.rejected(Fault::UsedRing), m, false)
        } else if !crate::memory::mapped(m, at + 4, 4) {
            (self.rejected(Fault::UsedRing), with_head, false)
        } else if !crate::memory::mapped(m, self.used + 2, 2) {
            (self.rejected(Fault::UsedIndex), with_elem, false)
        } else {
            (
                SplitQueue { used_idx: next, ..self },
                crate::memory::with_value(with_elem, self.used + 2, next as nat, 2),
                true,
            )
        }
    }

    /// Record a completed chain. `head` is the index from [`Chain::head`].
    pub fn add_used(&mut self, mem: &mut GuestMemory, head: u16, len: u32) -> (done: bool)
        requires
            old(self).wf(),
            old(mem).wf(),
        ensures
            final(self).wf(),
            final(mem).wf(),
            (*final(self), final(mem)@, done) == old(self).recorded(old(mem)@, head, len),
    {
        proof {
            reveal(is_pow2);
        }
        if self.broken.is_some() {
            return false;
        }
        if head >= self.size {
            self.break_queue(Fault::UsedHead);
            return false;
        }
        let slot: u64 = (self.used_idx % self.size) as u64;
        if self.used > u64::MAX - (4 + slot * 8) {
            self.break_queue(Fault::UsedRing);
            return false;
        }
        let elem: u64 = self.used + (4 + slot * 8);
        if elem > u64::MAX - 4 {
            self.break_queue(Fault::UsedRing);
            return false;
        }
        let len_at: u64 = elem + 4;
        proof {
            let id = crate::bytes::le_bytes(head as nat, 4);
            crate::memory::lemma_write_keeps_mapped(mem@, elem as int, id);
            crate::memory::lemma_write_keeps_mapped(
                crate::memory::with_bytes(mem@, elem as int, id),
                len_at as int,
                crate::bytes::le_bytes(len as nat, 4),
            );
        }
        if mem.write_u32(elem, head as u32).is_err() {
            self.break_queue(Fault::UsedRing);
            return false;
        }
        if mem.write_u32(len_at, len).is_err() {
            self.break_queue(Fault::UsedRing);
            return false;
        }
        let next: u16 = self.used_idx.wrapping_add(1);
        let idx_at: u64 = self.used + 2;
        if mem.write_u16(idx_at, next).is_err() {
            self.break_queue(Fault::UsedIndex);
            return false;
        }
        self.used_idx = next;
        true
    }

    /// Where the driver keeps the used index that it wants to hear about.
    pub open spec fn event_at(self) -> int {
        self.avail + 4 + 2 * self.size
    }

    /// The queue, and whether the driver asked to be told about the latest used element.
    ///
    /// With event indices the driver names the used index of one element. Without them a flag
    /// of the available ring turns interrupts off.
    pub open spec fn asked(self, m: Map<int, u8>) -> (Self, bool) {
        if self.broken is Some {
            (self, false)
        } else if self.event_idx {
            if !crate::memory::mapped(m, self.event_at(), 2) {
                (self.rejected(Fault::UsedEvent), false)
            } else {
                (
                    self,
                    next_index(crate::memory::value_at(m, self.event_at(), 2) as u16)
                        == self.used_idx,
                )
            }
        } else {
            (
                self,
                crate::memory::mapped(m, self.avail as int, 2) && crate::memory::value_at(
                    m,
                    self.avail as int,
                    2,
                ) as u16 & NO_INTERRUPT == 0,
            )
        }
    }

    /// Whether the driver asked to be told about the latest used element.
    pub fn notification_needed(&mut self, mem: &GuestMemory) -> (needed: bool)
        requires
            old(self).wf(),
            mem.wf(),
        ensures
            final(self).wf(),
            (*final(self), needed) == old(self).asked(mem@),
    {
        proof {
            mem.lemma_addresses();
        }
        if self.broken.is_some() {
            return false;
        }
        if self.event_idx {
            let add: u64 = 4 + self.size as u64 * 2;
            if self.avail > u64::MAX - add {
                assert(!mem@.dom().contains(self.event_at()));
                self.break_queue(Fault::UsedEvent);
                return false;
            }
            let used_event: u16 = match mem.read_u16(self.avail + add) {
                Ok(v) => v,
                Err(_) => {
                    self.break_queue(Fault::UsedEvent);
                    return false;
                },
            };
            let new: u16 = self.used_idx;
            let old_idx: u16 = new.wrapping_sub(1);
            return new.wrapping_sub(used_event.wrapping_add(1)) < new.wrapping_sub(old_idx);
        }
        match mem.read_u16(self.avail) {
            Ok(flags) => flags & NO_INTERRUPT == 0,
            Err(_) => false,
        }
    }

    fn break_queue(&mut self, fault: Fault)
        ensures
            *final(self) == old(self).rejected(fault),
    {
        self.broken = Some(fault);
    }

    /// How many chains the driver published that were not taken, when nothing is refused.
    pub open spec fn pending(self, m: Map<int, u8>) -> int {
        (crate::memory::value_at(m, self.avail + 2, 2) - self.last_avail) % 0x1_0000
    }

    /// The queue and the chains after every available chain was taken.
    pub open spec fn drained(self, m: Map<int, u8>) -> (Self, Seq<ChainView>)
        decreases self.pending(m),
    {
        proof {
            self.lemma_pop_advances(m);
        }
        match self.popped(m) {
            (q, None) => (q, Seq::empty()),
            (q, Some(c)) => {
                let (last, rest) = q.drained(m);
                (last, seq![c] + rest)
            },
        }
    }

    /// Taking a chain leaves one less to take.
    pub proof fn lemma_pop_advances(self, m: Map<int, u8>)
        ensures
            self.popped(m).1 is Some ==> 0 <= self.popped(m).0.pending(m) == self.pending(m) - 1,
    {
        let idx = crate::memory::value_at(m, self.avail + 2, 2);
        crate::bytes::lemma_le_value_bound(crate::memory::bytes_at(m, self.avail + 2, 2));
        crate::bytes::lemma_byte_ranges();
        assert(idx < 0x1_0000);
    }

    /// Chains published since the last call, in available-ring order.
    pub fn chains<'a>(&'a mut self, mem: &'a GuestMemory) -> (c: Chains<'a>)
        requires
            old(self).wf(),
            mem.wf(),
        ensures
            c.wf(),
            *c.queue == *old(self),
            *c.mem == *mem,
            *final(self) == *final(c.queue),
    {
        Chains { queue: self, mem }
    }

    /// Take the next available chain.
    pub fn pop(&mut self, mem: &GuestMemory) -> (r: Option<Chain>)
        requires
            old(self).wf(),
            mem.wf(),
        ensures
            final(self).wf(),
            *final(self) == old(self).popped(mem@).0,
            r is Some == old(self).popped(mem@).1 is Some,
            r matches Some(c) ==> Some(c@) == old(self).popped(mem@).1,
    {
        proof {
            mem.lemma_addresses();
            reveal(is_pow2);
        }
        if self.broken.is_some() {
            return None;
        }
        if self.avail > u64::MAX - 2 {
            assert(!mem@.dom().contains(self.avail + 3));
            self.break_queue(Fault::AvailIndex);
            return None;
        }
        let idx: u16 = match mem.read_u16(self.avail + 2) {
            Ok(v) => v,
            Err(_) => {
                self.break_queue(Fault::AvailIndex);
                return None;
            },
        };
        if self.last_avail == idx {
            return None;
        }
        let slot: u64 = (self.last_avail % self.size) as u64;
        if self.avail > u64::MAX - (4 + slot * 2) {
            assert(!mem@.dom().contains(self.ring_at()));
            self.break_queue(Fault::AvailRing);
            return None;
        }
        let head: u16 = match mem.read_u16(self.avail + (4 + slot * 2)) {
            Ok(v) => v,
            Err(_) => {
                self.break_queue(Fault::AvailRing);
                return None;
            },
        };
        match self.walk(mem, head) {
            None => None,
            Some(chain) => {
                self.last_avail = self.last_avail.wrapping_add(1);
                Some(chain)
            },
        }
    }

    /// The chain at `head`. Breaks the queue when there is none.
    fn walk(&mut self, mem: &GuestMemory, head: u16) -> (r: Option<Chain>)
        requires
            mem.wf(),
        ensures
            r is Some == old(self).chain(mem@, head) is Some,
            r matches Some(c) ==> Some(c@) == old(self).chain(mem@, head) && *final(self) == *old(
                self,
            ),
            r is None ==> *final(self) == old(self).rejected(old(self).chain_fault(mem@, head)),
    {
        if head >= self.size {
            self.break_queue(Fault::AvailHead);
            return None;
        }
        let mut descs = match follow(mem, self.desc, self.size as u32, head as u32) {
            Some(descs) => descs,
            None => {
                self.break_queue(Fault::Descriptor);
                return None;
            },
        };
        let last: Desc = descs[descs.len() - 1];
        if last.flags & INDIRECT != 0 {
            if !self.indirect || last.flags & NEXT != 0 {
                self.break_queue(Fault::Table);
                return None;
            }
            let ghost own = descs@.drop_last();
            descs.pop();
            assert(descs@ =~= own);
            match self.walk_indirect(mem, last) {
                Some(mut more) => {
                    descs.append(&mut more);
                },
                None => {
                    return None;
                },
            }
        }
        match split(mem, &descs) {
            Some((readable, writable)) => Some(Chain { head, readable, writable }),
            None => {
                self.break_queue(Fault::Buffer);
                None
            },
        }
    }

    /// The descriptors of the table at `table`. Breaks the queue when the table has no chain.
    fn walk_indirect(&mut self, mem: &GuestMemory, table: Desc) -> (r: Option<Vec<Desc>>)
        requires
            mem.wf(),
        ensures
            r is Some == table_chain(mem@, old(self).size, table) is Some,
            r matches Some(ds) ==> Some(ds@) == table_chain(mem@, old(self).size, table)
                && *final(self) == *old(self),
            r is None ==> *final(self) == old(self).rejected(Fault::Table),
    {
        if table.len == 0 || table.len % 16 != 0 {
            self.break_queue(Fault::Table);
            return None;
        }
        let count: u32 = table.len / 16;
        if count > self.size as u32 {
            self.break_queue(Fault::Table);
            return None;
        }
        let descs = match follow(mem, table.addr, count, 0) {
            Some(descs) => descs,
            None => {
                self.break_queue(Fault::Table);
                return None;
            },
        };
        if descs[descs.len() - 1].flags & INDIRECT != 0 {
            self.break_queue(Fault::Table);
            return None;
        }
        Some(descs)
    }
}

/// Descriptors of the table at `table` from entry `first` to the end of its chain.
fn follow(mem: &GuestMemory, table: u64, count: u32, first: u32) -> (r: Option<Vec<Desc>>)
    requires
        mem.wf(),
        count <= 0xffff,
    ensures
        r is Some == chain_from(mem@, table as int, count as nat, first as int, Seq::empty()) is Some,
        r matches Some(ds) ==> ds@.len() > 0 && Some(ds@) == chain_from(
            mem@,
            table as int,
            count as nat,
            first as int,
            Seq::empty(),
        ),
{
    let mut out: Vec<Desc> = Vec::new();
    let mut seen: Vec<bool> = vec![false; count as usize];
    let mut index: u32 = first;
    let mut steps: u32 = 0;
    let ghost mut visited: Seq<int> = Seq::empty();
    let ghost whole = chain_from(mem@, table as int, count as nat, first as int, Seq::empty());
    proof {
        mem.lemma_addresses();
        assert(whole == prepend(
            out@,
            chain_from(mem@, table as int, count as nat, index as int, visited),
        )) by {
            match whole {
                Some(ds) => {
                    assert(out@ + ds =~= ds);
                },
                None => {},
            }
        }
    }
    while steps < count
        invariant
            mem.wf(),
            count <= 0xffff,
            steps <= count,
            seen@.len() == count,
            visited.len() == steps,
            forall|a: int| #[trigger] mem@.dom().contains(a) ==> 0 <= a <= u64::MAX,
            forall|j: int| 0 <= j < count ==> seen@[j] == #[trigger] visited.contains(j),
            whole == chain_from(mem@, table as int, count as nat, first as int, Seq::empty()),
            whole == prepend(
                out@,
                chain_from(mem@, table as int, count as nat, index as int, visited),
            ),
        decreases count - steps,
    {
        if index >= count || seen[index as usize] {
            return None;
        }
        let ghost old_visited = visited;
        let ghost before = out@;
        seen.set(index as usize, true);
        proof {
            visited = visited.push(index as int);
            assert forall|j: int| 0 <= j < count implies seen@[j] == #[trigger] visited.contains(
                j,
            ) by {
                if old_visited.contains(j) {
                    let k = choose|k: int| 0 <= k < old_visited.len() && old_visited[k] == j;
                    assert(visited[k] == j);
                }
                if j == index {
                    assert(visited[steps as int] == j);
                }
                if visited.contains(j) && j != index {
                    let k = choose|k: int| 0 <= k < visited.len() && visited[k] == j;
                    assert(old_visited[k] == j);
                }
            }
        }
        let desc: Desc = match read_desc(mem, table, index) {
            Some(desc) => desc,
            None => {
                return None;
            },
        };
        out.push(desc);
        if desc.flags & INDIRECT != 0 || desc.flags & NEXT == 0 {
            assert(before + seq![desc] =~= out@);
            return Some(out);
        }
        proof {
            let rest = chain_from(mem@, table as int, count as nat, desc.next as int, visited);
            match rest {
                Some(ds) => {
                    assert(before + (seq![desc] + ds) =~= out@ + ds);
                },
                None => {},
            }
        }
        index = desc.next as u32;
        steps = steps + 1;
    }
    None
}

/// Entry `index` of the descriptor table at `table`.
fn read_desc(mem: &GuestMemory, table: u64, index: u32) -> (r: Option<Desc>)
    requires
        mem.wf(),
    ensures
        r == desc_at(mem@, table + 16 * index),
{
    proof {
        mem.lemma_addresses();
    }
    let ghost at = table + 16 * index;
    let add: u64 = index as u64 * 16;
    if table > u64::MAX - add {
        assert(!mem@.dom().contains(at));
        return None;
    }
    read_desc_at(mem, table + add)
}

fn read_desc_at(mem: &GuestMemory, addr: u64) -> (r: Option<Desc>)
    requires
        mem.wf(),
    ensures
        r == desc_at(mem@, addr as int),
{
    proof {
        mem.lemma_addresses();
    }
    if addr > u64::MAX - 14 {
        assert(!mem@.dom().contains(addr + 15));
        return None;
    }
    match (
        mem.read_u64(addr),
        mem.read_u32(addr + 8),
        mem.read_u16(addr + 12),
        mem.read_u16(addr + 14),
    ) {
        (Ok(base), Ok(len), Ok(flags), Ok(next)) => Some(Desc { addr: base, len, flags, next }),
        _ => None,
    }
}

/// Whether the first and last byte of a buffer that is not empty are mapped.
fn span_mapped(mem: &GuestMemory, addr: u64, len: u32) -> (b: bool)
    requires
        mem.wf(),
        len > 0,
    ensures
        b == buffer_mapped(mem@, addr as int, len as int),
{
    proof {
        mem.lemma_addresses();
    }
    match addr.checked_add(len as u64 - 1) {
        None => {
            assert(!mem@.dom().contains(addr + len - 1));
            false
        },
        Some(last) => mem.read_u8(addr).is_ok() && mem.read_u8(last).is_ok(),
    }
}

/// The readable and the writable buffers of a chain, unless one of them is refused.
fn split(mem: &GuestMemory, descs: &Vec<Desc>) -> (r: Option<(Vec<Buffer>, Vec<Buffer>)>)
    requires
        mem.wf(),
    ensures
        r is Some == buffers_ok(mem@, descs@),
        r matches Some((readable, writable)) ==> readable@ == buffers(descs@, false) && writable@
            == buffers(descs@, true),
{
    let mut readable: Vec<Buffer> = Vec::new();
    let mut writable: Vec<Buffer> = Vec::new();
    let mut writing: bool = false;
    let mut i: usize = 0;
    let ghost ds = descs@;
    while i < descs.len()
        invariant
            i <= descs@.len(),
            mem.wf(),
            ds == descs@,
            buffers_ok(mem@, ds.subrange(0, i as int)),
            writing == (exists|j: int| 0 <= j < i && (#[trigger] ds[j]).writes()),
            readable@ == buffers(ds.subrange(0, i as int), false),
            writable@ == buffers(ds.subrange(0, i as int), true),
        decreases descs@.len() - i,
    {
        let desc: Desc = descs[i];
        let ghost front = ds.subrange(0, i as int);
        let ghost more = ds.subrange(0, i + 1);
        proof {
            assert(desc == ds[i as int]);
            assert(more.drop_last() =~= front);
            assert(more.last() == desc);
            assert(forall|j: int| 0 <= j < i ==> front[j] == ds[j]);
            assert(forall|j: int| 0 <= j <= i ==> more[j] == ds[j]);
        }
        if desc.len > 0 && !span_mapped(mem, desc.addr, desc.len) {
            return None;
        }
        let buf: Buffer = Buffer { addr: desc.addr, len: desc.len };
        if desc.flags & WRITE != 0 {
            writing = true;
            writable.push(buf);
        } else if writing {
            proof {
                let j = choose|j: int| 0 <= j < i && (#[trigger] ds[j]).writes();
                assert(ds[j].writes() && !ds[i as int].writes());
            }
            return None;
        } else {
            readable.push(buf);
        }
        i = i + 1;
    }
    assert(ds.subrange(0, i as int) =~= ds);
    Some((readable, writable))
}

/// Available chains. Stops when the ring is empty or broken.
pub struct Chains<'a> {
    /// The queue that the chains are taken from.
    pub queue: &'a mut SplitQueue,
    /// The memory that holds its rings.
    pub mem: &'a GuestMemory,
}

impl<'a> Chains<'a> {
    /// Queue and memory are well formed.
    pub open spec fn wf(&self) -> bool {
        self.queue.wf() && self.mem.wf()
    }

    /// The next chain.
    pub fn next(&mut self) -> (r: Option<Chain>)
        requires
            old(self).wf(),
        ensures
            final(self).wf(),
            *final(self).mem == *old(self).mem,
            *final(self).queue == old(self).queue.popped(old(self).mem@).0,
            *final(final(self).queue) == *final(old(self).queue),
            r is Some == old(self).queue.popped(old(self).mem@).1 is Some,
            r matches Some(c) ==> Some(c@) == old(self).queue.popped(old(self).mem@).1,
    {
        self.queue.pop(self.mem)
    }

    /// Every chain that is left.
    pub fn collect(self) -> (out: Vec<Chain>)
        requires
            self.wf(),
        ensures
            chain_views(out@) == old(self.queue).drained(self.mem@).1,
            *final(self.queue) == old(self.queue).drained(self.mem@).0,
            final(self.queue).wf(),
    {
        let mut out: Vec<Chain> = Vec::new();
        let mem = self.mem;
        let queue = self.queue;
        let ghost want = queue.drained(mem@);
        let ghost fin = *final(queue);
        proof {
            assert(chain_views(out@) + want.1 =~= want.1);
        }
        loop
            invariant
                queue.wf(),
                mem.wf(),
                *final(queue) == fin,
                queue.drained(mem@).0 == want.0,
                chain_views(out@) + queue.drained(mem@).1 == want.1,
            ensures
                chain_views(out@) == want.1,
                *queue == want.0,
                queue.wf(),
                *final(queue) == fin,
            decreases queue.pending(mem@),
        {
            let ghost here = *queue;
            proof {
                here.lemma_pop_advances(mem@);
            }
            match queue.pop(mem) {
                Some(c) => {
                    let ghost before = out@;
                    out.push(c);
                    proof {
                        assert(chain_views(out@) =~= chain_views(before).push(c@));
                        assert(chain_views(out@) + queue.drained(mem@).1 =~= chain_views(before)
                            + here.drained(mem@).1);
                    }
                },
                None => {
                    assert(chain_views(out@) =~= want.1);
                    break;
                },
            }
        }
        out
    }
}

/// What each chain holds.
pub open spec fn chain_views(s: Seq<Chain>) -> Seq<ChainView> {
    Seq::new(s.len(), |i: int| s[i]@)
}

} // verus!
