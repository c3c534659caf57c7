//! Virtio-mmio v2 register file.
//!
//! Status transitions live in [`status`]. Queue registers live in [`queue`].
pub mod calls;
pub mod laws;
pub mod queue;
pub mod status;

use vstd::arithmetic::power2::is_pow2;
use vstd::prelude::*;

use super::irq::VirtioIrq;
use super::{VirtioDevice, VIRTIO_F_VERSION_1};
use crate::bytes::mask;
use crate::text::push_dec;

verus! {

broadcast use vstd::group_vstd_default;

pub const MAGIC: u32 = 0x7472_6976;

pub const VERSION: u32 = 2;

pub const MAGIC_VALUE: u64 = 0x000;

pub const VERSION_REG: u64 = 0x004;

pub const DEVICE_ID: u64 = 0x008;

pub const VENDOR_ID: u64 = 0x00c;

pub const DEVICE_FEATURES: u64 = 0x010;

pub const DEVICE_FEATURES_SEL: u64 = 0x014;

pub const DRIVER_FEATURES: u64 = 0x020;

pub const DRIVER_FEATURES_SEL: u64 = 0x024;

pub const QUEUE_SEL: u64 = 0x030;

pub const QUEUE_NUM_MAX: u64 = 0x034;

pub const QUEUE_NUM: u64 = 0x038;

pub const QUEUE_READY: u64 = 0x044;

pub const QUEUE_NOTIFY: u64 = 0x050;

pub const INTERRUPT_STATUS: u64 = 0x060;

pub const INTERRUPT_ACK: u64 = 0x064;

pub const STATUS: u64 = 0x070;

pub const QUEUE_DESC_LOW: u64 = 0x080;

pub const QUEUE_DESC_HIGH: u64 = 0x084;

pub const QUEUE_DRIVER_LOW: u64 = 0x090;

pub const QUEUE_DRIVER_HIGH: u64 = 0x094;

pub const QUEUE_DEVICE_LOW: u64 = 0x0a0;

pub const QUEUE_DEVICE_HIGH: u64 = 0x0a4;

pub const CONFIG_GENERATION: u64 = 0x0fc;

pub const CONFIG: u64 = 0x100;

/// Where the platform puts its virtio-mmio slots.
#[derive(Debug, Clone, Copy, PartialEq, Eq, Structural)]
pub struct SlotWindow {
    /// Guest PA of slot 0.
    pub base: u64,
    /// How many slots there are.
    pub slots: u32,
    /// Bytes from one slot to the next.
    pub slot_size: u64,
}

impl SlotWindow {
    /// The window ends inside the address space.
    pub open spec fn wf(&self) -> bool {
        self.base + self.slots * self.slot_size <= u64::MAX
    }
}

/// Guest PA of virtio-mmio `slot`.
pub fn slot_base(window: &SlotWindow, slot: u32) -> (r: Option<u64>)
    requires
        window.wf(),
    ensures
        r is Some <==> slot < window.slots,
        r matches Some(base) ==> base == window.base + slot * window.slot_size,
{
    if slot >= window.slots {
        return None;
    }
    proof {
        let size = window.slot_size as int;
        let slots = window.slots as int;
        let at = slot as int;
        assert(0 <= at * size <= slots * size) by (nonlinear_arith)
            requires
                0 <= at < slots,
                0 <= size,
        ;
    }
    Some(window.base + slot as u64 * window.slot_size)
}

/// Registering a virtio-mmio slot failed.
#[derive(Debug, Clone, PartialEq, Eq)]
pub enum VirtioMmioError {
    /// `slot` is not one of the platform virtio-mmio windows.
    Slot {
        /// Requested slot.
        slot: u32,
        /// Slot count from the platform layout.
        slots: u32,
    },
    /// The MMIO bus rejected the window.
    Bus {
        /// Requested slot.
        slot: u32,
        /// Guest address of the slot.
        base: u64,
        /// Bus error.
        source: String,
    },
}

impl VirtioMmioError {
    /// The message for `self`.
    pub open spec fn text(self) -> Seq<char> {
        match self {
            VirtioMmioError::Slot { slot, slots } => "virtio-mmio slot "@ + crate::text::dec(
                slot as nat,
            ) + " is outside 0.."@ + crate::text::dec(slots as nat),
            VirtioMmioError::Bus { slot, base, source } => "register virtio-mmio slot "@
                + crate::text::dec(slot as nat) + " at 0x"@ + crate::text::hex(base as nat)
                + ": "@ + source@,
        }
    }

    /// What went wrong, in words.
    pub fn message(&self) -> (s: String)
        ensures
            s@ == self.text(),
    {
        let mut s: String = String::new();
        match self {
            VirtioMmioError::Slot { slot, slots } => {
                s.append("virtio-mmio slot ");
                push_dec(&mut s, *slot as u64);
                s.append(" is outside 0..");
                push_dec(&mut s, *slots as u64);
            },
            VirtioMmioError::Bus { slot, base, source } => {
                s.append("register virtio-mmio slot ");
                push_dec(&mut s, *slot as u64);
                s.append(" at 0x");
                crate::text::push_hex(&mut s, *base);
                s.append(": ");
                s.append(source.as_str());
            },
        }
        assert(s@ =~= self.text());
        s
    }
}

/// One virtqueue of a transport, as its registers describe it.
#[derive(Debug, Clone, Copy, PartialEq, Eq, Structural)]
pub struct Queue {
    /// The largest size the device takes.
    pub num_max: u32,
    /// The size the driver chose, or zero.
    pub num: u32,
    /// The driver handed the queue over.
    pub ready: bool,
    /// Address of the descriptor table.
    pub desc: u64,
    /// Address of the available ring.
    pub driver: u64,
    /// Address of the used ring.
    pub device: u64,
}

impl Queue {
    /// A queue as a reset leaves it.
    pub open spec fn cleared(num_max: u32) -> Queue {
        Queue { num_max, num: 0, ready: false, desc: 0, driver: 0, device: 0 }
    }

    /// The driver gave a size and all addresses.
    pub open spec fn configured(self) -> bool {
        self.num != 0 && self.desc != 0 && self.driver != 0 && self.device != 0
    }

    /// The size is one that was allowed, and a queue that is ready is configured.
    pub open spec fn wf(self) -> bool {
        &&& self.num <= self.num_max <= 0xffff
        &&& self.num != 0 ==> is_pow2(self.num as int)
        &&& self.ready ==> self.configured()
    }
}

/// The driver-visible registers of a transport.
pub struct Regs {
    pub device_features_sel: u32,
    pub driver_features_sel: u32,
    pub driver_features: u64,
    pub queue_sel: u32,
    pub queues: Seq<Queue>,
    pub status: u32,
}

/// Virtio-mmio v2 transport for one [`VirtioDevice`].
pub struct VirtioMmio<D: VirtioDevice + ?Sized> {
    device: Box<D>,
    name: String,
    device_features_sel: u32,
    driver_features_sel: u32,
    driver_features: u64,
    queue_sel: u32,
    queues: Vec<Queue>,
    status: u32,
    interrupt: VirtioIrq,
}

/// The lower or upper half of `features`, by selector.
pub open spec fn feature_half(features: u64, sel: u32) -> u32 {
    if sel == 0 {
        (features % 0x1_0000_0000) as u32
    } else if sel == 1 {
        (features / 0x1_0000_0000) as u32
    } else {
        0
    }
}

/// `x` with its lower half replaced.
pub open spec fn with_low(x: u64, v: u32) -> u64 {
    (x / 0x1_0000_0000 * 0x1_0000_0000 + v) as u64
}

/// `x` with its upper half replaced.
pub open spec fn with_high(x: u64, v: u32) -> u64 {
    (v * 0x1_0000_0000 + x % 0x1_0000_0000) as u64
}

impl Regs {
    /// The registers after a reset.
    pub open spec fn reset(self) -> Regs {
        Regs {
            device_features_sel: 0,
            driver_features_sel: 0,
            driver_features: 0,
            queue_sel: 0,
            queues: Seq::new(
                self.queues.len(),
                |i: int| Queue::cleared(self.queues[i].num_max),
            ),
            status: 0,
        }
    }

    /// Each queue is well formed, the status is one that the handshake reaches, and
    /// `VIRTIO_F_VERSION_1` was accepted wherever the handshake is past features.
    pub open spec fn wf(self) -> bool {
        &&& self.queues.len() <= 0xffff
        &&& forall|i: int| 0 <= i < self.queues.len() ==> (#[trigger] self.queues[i]).wf()
        &&& status::stage(self.status) is Some
        &&& self.status & super::STATUS_FEATURES_OK != 0 ==> self.driver_features
            & VIRTIO_F_VERSION_1 != 0
    }

    /// The selected queue, if there is one.
    pub open spec fn selected(self) -> Option<Queue> {
        if self.queue_sel < self.queues.len() {
            Some(self.queues[self.queue_sel as int])
        } else {
            None
        }
    }

    /// The registers with the selected queue replaced.
    pub open spec fn with_selected(self, q: Queue) -> Regs {
        Regs { queues: self.queues.update(self.queue_sel as int, q), ..self }
    }

    /// The registers after the driver wrote `v` to the register at `offset`.
    pub open spec fn after_register(self, offset: u64, v: u32, offered: u64) -> Regs {
        if offset == DEVICE_FEATURES_SEL {
            Regs { device_features_sel: v, ..self }
        } else if offset == DRIVER_FEATURES_SEL {
            Regs { driver_features_sel: v, ..self }
        } else if offset == DRIVER_FEATURES {
            self.after_driver_features(v)
        } else if offset == QUEUE_SEL {
            Regs { queue_sel: v, ..self }
        } else if offset == QUEUE_NUM {
            self.after_queue_num(v)
        } else if offset == QUEUE_READY {
            self.after_queue_ready(v)
        } else if offset == STATUS {
            self.after_status(v, offered)
        } else {
            self.after_queue_addr(offset, v)
        }
    }

    /// What the device is asked when the driver writes `v` to the register at `offset`.
    pub open spec fn calls_of_register(self, offset: u64, v: u32, offered: u64) -> Seq<
        super::DeviceCall,
    > {
        if offset == QUEUE_NOTIFY {
            self.calls_of_notify(v)
        } else if offset == STATUS {
            self.calls_of_status(v, offered)
        } else {
            Seq::empty()
        }
    }

    /// The registers after a guest write.
    pub open spec fn after_write(self, offset: u64, size: u8, value: u64, offered: u64) -> Regs {
        if offset < CONFIG && size == 4 {
            self.after_register(offset, (value % 0x1_0000_0000) as u32, offered)
        } else {
            self
        }
    }

    /// What the device is asked on a guest write.
    pub open spec fn calls_of_write(self, offset: u64, size: u8, value: u64, offered: u64) -> Seq<
        super::DeviceCall,
    > {
        if offset >= CONFIG {
            seq![
                super::DeviceCall::WriteConfig { offset: (offset - CONFIG) as u64, size, value },
            ]
        } else if size == 4 {
            self.calls_of_register(offset, (value % 0x1_0000_0000) as u32, offered)
        } else {
            Seq::empty()
        }
    }
}

/// The interrupt bits that a guest write acknowledges.
pub open spec fn acked_by_write(offset: u64, size: u8, value: u64) -> u32 {
    if size == 4 && offset == INTERRUPT_ACK {
        (value % 0x1_0000_0000) as u32
    } else if size == 4 && offset == STATUS && value % 0x1_0000_0000 == 0 {
        super::irq::STATUS_BITS
    } else {
        0
    }
}

impl<D: VirtioDevice + ?Sized> VirtioMmio<D> {
    /// The driver-visible registers.
    pub closed spec fn regs(&self) -> Regs {
        Regs {
            device_features_sel: self.device_features_sel,
            driver_features_sel: self.driver_features_sel,
            driver_features: self.driver_features,
            queue_sel: self.queue_sel,
            queues: self.queues@,
            status: self.status,
        }
    }

    /// The interrupt line.
    pub closed spec fn irq(&self) -> VirtioIrq {
        self.interrupt
    }

    /// The device behind the transport.
    pub closed spec fn device(&self) -> Box<D> {
        self.device
    }

    /// What the device has been asked so far.
    pub open spec fn calls(&self) -> Seq<super::DeviceCall> {
        self.device().calls()
    }

    /// The features that the transport offers for its device.
    pub open spec fn offered_features(&self) -> u64 {
        self.device().features() | VIRTIO_F_VERSION_1
    }

    /// What the device reports: id, vendor, config generation.
    pub open spec fn identity(&self) -> (u32, u32, u32) {
        (self.device().id(), self.device().vendor(), self.device().generation())
    }

    /// The name of the transport.
    pub closed spec fn named(&self) -> Seq<char> {
        self.name@
    }

    /// Registers and interrupt line are well formed.
    pub open spec fn wf(&self) -> bool {
        self.regs().wf() && self.irq().wf()
    }

    /// The value of the register at `offset`. Zero for one that cannot be read.
    pub open spec fn register_value(&self, offset: u64) -> u32 {
        if offset == MAGIC_VALUE {
            MAGIC
        } else if offset == VERSION_REG {
            VERSION
        } else if offset == DEVICE_ID {
            self.identity().0
        } else if offset == VENDOR_ID {
            self.identity().1
        } else if offset == DEVICE_FEATURES {
            feature_half(self.offered_features(), self.regs().device_features_sel)
        } else if offset == QUEUE_NUM_MAX {
            match self.regs().selected() {
                Some(q) => q.num_max,
                None => 0,
            }
        } else if offset == QUEUE_READY {
            match self.regs().selected() {
                Some(q) => if q.ready {
                    1
                } else {
                    0
                },
                None => 0,
            }
        } else if offset == INTERRUPT_STATUS {
            self.irq().bits()
        } else if offset == STATUS {
            self.regs().status
        } else if offset == CONFIG_GENERATION {
            self.identity().2
        } else {
            0
        }
    }

    /// Build a transport. `VIRTIO_F_VERSION_1` is always offered.
    pub fn new(slot: u32, device: Box<D>) -> (t: Self)
        ensures
            t.wf(),
            t.regs() == fresh_regs(&*device),
            t.named() == "virtio-mmio-"@ + crate::text::dec(slot as nat),
            t.device() == device,
            t.irq().bits() == 0,
            t.irq().edges() == Seq::<bool>::empty(),
    {
        Self::with_irq(slot, device, VirtioIrq::new())
    }

    /// Build a transport on an interrupt line that already exists.
    pub fn with_irq(slot: u32, device: Box<D>, irq: VirtioIrq) -> (t: Self)
        requires
            irq.wf(),
        ensures
            t.wf(),
            t.regs() == fresh_regs(&*device),
            t.named() == "virtio-mmio-"@ + crate::text::dec(slot as nat),
            t.device() == device,
            t.irq() == irq,
    {
        let count: u16 = device.num_queues();
        let mut queues: Vec<Queue> = Vec::new();
        let mut index: u16 = 0;
        while index < count
            invariant
                index <= count,
                queues@.len() == index,
                forall|i: int|
                    0 <= i < index ==> #[trigger] queues@[i] == Queue::cleared(
                        device.queue_max(i as u16) as u32,
                    ),
            decreases count - index,
        {
            let max: u16 = device.queue_num_max(index);
            queues.push(
                Queue { num_max: max as u32, num: 0, ready: false, desc: 0, driver: 0, device: 0 },
            );
            index = index + 1;
        }
        let mut name: String = String::new();
        name.append("virtio-mmio-");
        push_dec(&mut name, slot as u64);
        proof {
            assert(name@ =~= "virtio-mmio-"@ + crate::text::dec(slot as nat));
            assert(queues@ =~= fresh_regs(&*device).queues);
            assert({
                &&& 0u32 & super::STATUS_FEATURES_OK == 0
                &&& 0u32 & !super::STATUS_FAILED == 0
            }) by (bit_vector);
        }
        VirtioMmio {
            device,
            name,
            device_features_sel: 0,
            driver_features_sel: 0,
            driver_features: 0,
            queue_sel: 0,
            queues,
            status: 0,
            interrupt: irq,
        }
    }

    /// `self` has the device and the name of `other`, and the device was asked nothing.
    pub open spec fn same_device(&self, other: &Self) -> bool {
        self.device() == other.device() && self.named() == other.named()
    }

    /// Where the device of `other` is steady, so is that of `self`, with the same identity and
    /// features.
    pub open spec fn kept_identity(&self, other: &Self) -> bool {
        other.device().steady() ==> {
            &&& self.device().steady()
            &&& self.device().id() == other.device().id()
            &&& self.device().vendor() == other.device().vendor()
            &&& self.offered_features() == other.offered_features()
        }
    }

    /// Where the device of `other` is steady, its config space is also that of `self`.
    pub open spec fn kept_config(&self, other: &Self) -> bool {
        other.device().steady() ==> forall|at: u64, len: u8| #[trigger]
            self.device().config(at, len) == other.device().config(at, len)
    }

    /// The features that the transport offers for its device.
    pub(super) fn offered(&self) -> (f: u64)
        ensures
            f == self.offered_features(),
    {
        self.device.device_features() | VIRTIO_F_VERSION_1
    }

    /// Map this transport onto platform virtio-mmio `slot`: the guest address to put it at, and
    /// the transport.
    pub fn register(window: &SlotWindow, slot: u32, device: Box<D>) -> (r: Result<
        (u64, Self),
        VirtioMmioError,
    >)
        requires
            window.wf(),
        ensures
            r is Ok <==> slot < window.slots,
            r matches Ok((base, t)) ==> {
                &&& base == window.base + slot * window.slot_size
                &&& t.wf()
                &&& t.regs() == fresh_regs(&*device)
                &&& t.named() == "virtio-mmio-"@ + crate::text::dec(slot as nat)
                &&& t.device() == device
                &&& t.irq().bits() == 0
                &&& t.irq().edges() == Seq::<bool>::empty()
            },
            r matches Err(e) ==> e == (VirtioMmioError::Slot { slot, slots: window.slots }),
    {
        match slot_base(window, slot) {
            None => Err(VirtioMmioError::Slot { slot, slots: window.slots }),
            Some(base) => Ok((base, Self::new(slot, device))),
        }
    }

    /// The name that the transport goes by on the bus.
    pub fn name(&self) -> (s: &str)
        ensures
            s@ == self.named(),
    {
        self.name.as_str()
    }

    /// Raise interrupt-status bits. The driver clears them through `InterruptACK`.
    pub fn raise_interrupt(&mut self, bits: u32)
        requires
            old(self).wf(),
        ensures
            final(self).wf(),
            final(self).regs() == old(self).regs(),
            final(self).same_device(old(self)),
            old(self).irq().moved_to(
                &final(self).irq(),
                old(self).irq().bits() | (bits & super::irq::STATUS_BITS),
            ),
    {
        self.interrupt.raise(bits);
    }

    /// Take the undelivered levels of the interrupt line.
    pub fn take_edges(&mut self) -> (edges: Vec<bool>)
        requires
            old(self).wf(),
        ensures
            final(self).wf(),
            final(self).regs() == old(self).regs(),
            final(self).same_device(old(self)),
            edges@ == old(self).irq().edges(),
            final(self).irq().bits() == old(self).irq().bits(),
            final(self).irq().edges() == Seq::<bool>::empty(),
    {
        self.interrupt.take_edges()
    }

    /// Guest read of one register or a config-space field.
    pub fn read(&mut self, offset: u64, size: u8) -> (value: u64)
        requires
            old(self).wf(),
        ensures
            final(self).wf(),
            final(self).regs() == old(self).regs(),
            final(self).irq() == old(self).irq(),
            final(self).named() == old(self).named(),
            offset >= CONFIG ==> {
                let answer = old(self).device().config((offset - CONFIG) as u64, size);
                &&& final(self).calls() == old(self).calls().push(
                    (super::DeviceCall::ReadConfig {
                        offset: (offset - CONFIG) as u64,
                        size,
                        value: answer,
                    }),
                )
                &&& value == crate::bytes::low_bytes(answer, size)
            },
            final(self).kept_identity(old(self)),
            final(self).kept_config(old(self)),
            offset < CONFIG ==> final(self).same_device(old(self)),
            offset < CONFIG && size == 4 ==> value == old(self).register_value(offset),
            offset < CONFIG && size != 4 ==> value == 0,
    {
        let value: u64 = if offset >= CONFIG {
            self.device.read_config(offset - CONFIG, size)
        } else if size != 4 {
            0
        } else {
            self.read_reg(offset) as u64
        };
        mask(value, size)
    }

    /// Guest write of one register or a config-space field.
    pub fn write(&mut self, offset: u64, size: u8, value: u64)
        requires
            old(self).wf(),
        ensures
            final(self).wf(),
            final(self).regs() == old(self).regs().after_write(
                offset,
                size,
                value,
                old(self).offered_features(),
            ),
            final(self).calls() == old(self).calls() + old(self).regs().calls_of_write(
                offset,
                size,
                value,
                old(self).offered_features(),
            ),
            old(self).regs().calls_of_write(
                offset,
                size,
                value,
                old(self).offered_features(),
            ).len() == 0 ==> final(self).same_device(old(self)),
            final(self).named() == old(self).named(),
            final(self).kept_identity(old(self)),
            offset >= CONFIG ==> forall|at: u64, len: u8| #[trigger]
                final(self).device().config(at, len) == old(self).device().config_after(
                    (offset - CONFIG) as u64,
                    size,
                    value,
                    at,
                    len,
                ),
            offset < CONFIG ==> final(self).kept_config(old(self)),
            old(self).irq().moved_to(
                &final(self).irq(),
                old(self).irq().bits() & !(acked_by_write(offset, size, value)
                    & super::irq::STATUS_BITS),
            ),
    {
        proof {
            let b = self.interrupt.bits();
            assert({
                &&& b & !(0u32 & 3) == b
                &&& b <= 3 ==> b & !(3u32 & 3) == 0
            }) by (bit_vector);
        }
        if offset >= CONFIG {
            self.device.write_config(offset - CONFIG, size, value);
            return;
        }
        if size != 4 {
            return;
        }
        self.write_reg(offset, (value % 0x1_0000_0000) as u32);
    }

    fn read_reg(&self, offset: u64) -> (value: u32)
        ensures
            value == self.register_value(offset),
    {
        match offset {
            MAGIC_VALUE => MAGIC,
            VERSION_REG => VERSION,
            DEVICE_ID => self.device.device_id(),
            VENDOR_ID => self.device.vendor_id(),
            DEVICE_FEATURES => feature_word(self.offered(), self.device_features_sel),
            QUEUE_NUM_MAX => match self.selected() {
                Some(q) => q.num_max,
                None => 0,
            },
            QUEUE_READY => match self.selected() {
                Some(q) => if q.ready {
                    1
                } else {
                    0
                },
                None => 0,
            },
            INTERRUPT_STATUS => self.interrupt.status(),
            STATUS => self.status,
            CONFIG_GENERATION => self.device.config_generation(),
            _ => 0,
        }
    }

    fn write_reg(&mut self, offset: u64, value: u32)
        requires
            old(self).wf(),
            offset < CONFIG,
        ensures
            final(self).wf(),
            final(self).regs() == old(self).regs().after_register(
                offset,
                value,
                old(self).offered_features(),
            ),
            final(self).calls() == old(self).calls() + old(self).regs().calls_of_register(
                offset,
                value,
                old(self).offered_features(),
            ),
            old(self).regs().calls_of_register(
                offset,
                value,
                old(self).offered_features(),
            ).len() == 0 ==> final(self).same_device(old(self)),
            final(self).named() == old(self).named(),
            final(self).kept_identity(old(self)),
            final(self).kept_config(old(self)),
            old(self).irq().moved_to(
                &final(self).irq(),
                old(self).irq().bits() & !(acked_by_write(offset, 4, value as u64)
                    & super::irq::STATUS_BITS),
            ),
    {
        proof {
            let b = self.interrupt.bits();
            assert({
                &&& b & !(0u32 & 3) == b
                &&& b <= 3 ==> b & !(3u32 & 3) == 0
            }) by (bit_vector);
        }
        match offset {
            DEVICE_FEATURES_SEL => {
                self.device_features_sel = value;
            },
            DRIVER_FEATURES_SEL => {
                self.driver_features_sel = value;
            },
            DRIVER_FEATURES => self.write_driver_features(value),
            QUEUE_SEL => {
                self.queue_sel = value;
            },
            QUEUE_NUM => self.write_queue_num(value),
            QUEUE_READY => self.write_queue_ready(value),
            QUEUE_NOTIFY => self.write_notify(value),
            INTERRUPT_ACK => self.interrupt.ack(value),
            STATUS => self.write_status(value),
            _ => self.write_addr(offset, value),
        }
    }

    fn selected(&self) -> (q: Option<Queue>)
        ensures
            q == self.regs().selected(),
    {
        if (self.queue_sel as u64) < self.queues.len() as u64 {
            Some(self.queues[self.queue_sel as usize])
        } else {
            None
        }
    }
}

/// The registers of a transport that no driver has touched.
pub open spec fn fresh_regs<D: VirtioDevice + ?Sized>(device: &D) -> Regs {
    Regs {
        device_features_sel: 0,
        driver_features_sel: 0,
        driver_features: 0,
        queue_sel: 0,
        queues: Seq::new(
            device.queue_count() as nat,
            |i: int| Queue::cleared(device.queue_max(i as u16) as u32),
        ),
        status: 0,
    }
}

fn feature_word(features: u64, sel: u32) -> (w: u32)
    ensures
        w == feature_half(features, sel),
{
    match sel {
        0 => (features % 0x1_0000_0000) as u32,
        1 => (features / 0x1_0000_0000) as u32,
        _ => 0,
    }
}

} // verus!
