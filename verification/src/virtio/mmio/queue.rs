//! Virtqueue register writes. Descriptor walking lives in `virtio::queue`.
use vstd::arithmetic::power2::is_pow2;
use vstd::prelude::*;

use super::{
    with_high, with_low, Queue, Regs, VirtioMmio, QUEUE_DESC_HIGH, QUEUE_DESC_LOW,
    QUEUE_DEVICE_HIGH, QUEUE_DEVICE_LOW, QUEUE_DRIVER_HIGH, QUEUE_DRIVER_LOW,
};
use crate::arith::is_power_of_two;
use crate::virtio::{QueueNotify, VirtioDevice};

verus! {

broadcast use vstd::group_vstd_default;

impl Regs {
    /// After the driver chose a size: zero, or a power of two within the limit, for a queue
    /// that is not ready.
    pub open spec fn after_queue_num(self, v: u32) -> Regs {
        match self.selected() {
            Some(q) => if !q.ready && (v == 0 || (v <= q.num_max && is_pow2(v as int))) {
                self.with_selected(Queue { num: v, ..q })
            } else {
                self
            },
            None => self,
        }
    }

    /// After the driver handed the queue over. Only a configured queue becomes ready, and only
    /// a reset takes it back.
    pub open spec fn after_queue_ready(self, v: u32) -> Regs {
        match self.selected() {
            Some(q) => if v == 1 && q.configured() {
                self.with_selected(Queue { ready: true, ..q })
            } else {
                self
            },
            None => self,
        }
    }

    /// What the device is told when the driver kicks queue `v`. Only a ready queue is passed on.
    pub open spec fn calls_of_notify(self, v: u32) -> Seq<crate::virtio::DeviceCall> {
        if v < self.queues.len() && self.queues[v as int].ready {
            let q = self.queues[v as int];
            seq![
                crate::virtio::DeviceCall::Notify(
                    crate::virtio::QueueNotify {
                        index: v as u16,
                        size: q.num as u16,
                        desc: q.desc,
                        avail: q.driver,
                        used: q.device,
                        features: self.driver_features,
                    },
                ),
            ]
        } else {
            Seq::empty()
        }
    }

    /// After the driver wrote half of a ring address of a queue that is not ready.
    pub open spec fn after_queue_addr(self, offset: u64, v: u32) -> Regs {
        match self.selected() {
            Some(q) => if q.ready {
                self
            } else if offset == QUEUE_DESC_LOW {
                self.with_selected(Queue { desc: with_low(q.desc, v), ..q })
            } else if offset == QUEUE_DESC_HIGH {
                self.with_selected(Queue { desc: with_high(q.desc, v), ..q })
            } else if offset == QUEUE_DRIVER_LOW {
                self.with_selected(Queue { driver: with_low(q.driver, v), ..q })
            } else if offset == QUEUE_DRIVER_HIGH {
                self.with_selected(Queue { driver: with_high(q.driver, v), ..q })
            } else if offset == QUEUE_DEVICE_LOW {
                self.with_selected(Queue { device: with_low(q.device, v), ..q })
            } else if offset == QUEUE_DEVICE_HIGH {
                self.with_selected(Queue { device: with_high(q.device, v), ..q })
            } else {
                self
            },
            None => self,
        }
    }
}

/// What every write to a register of the selected queue keeps.
pub open spec fn queue_write<D: VirtioDevice + ?Sized>(
    before: &VirtioMmio<D>,
    after: &VirtioMmio<D>,
    regs: Regs,
) -> bool {
    &&& after.wf()
    &&& after.regs() == regs
    &&& after.same_device(before)
    &&& after.irq() == before.irq()
}

impl<D: VirtioDevice + ?Sized> VirtioMmio<D> {
    /// Choose the size of the selected queue.
    pub(super) fn write_queue_num(&mut self, value: u32)
        requires
            old(self).wf(),
        ensures
            queue_write(old(self), final(self), old(self).regs().after_queue_num(value)),
    {
        if self.queue_sel as u64 >= self.queues.len() as u64 {
            return;
        }
        let at: usize = self.queue_sel as usize;
        let queue: Queue = self.queues[at];
        assert(self.regs().queues[at as int].wf());
        if queue.ready {
            return;
        }
        if value != 0 && (value > queue.num_max || !is_power_of_two(value)) {
            return;
        }
        self.queues.set(at, Queue { num: value, ..queue });
    }

    /// Hand the selected queue over.
    pub(super) fn write_queue_ready(&mut self, value: u32)
        requires
            old(self).wf(),
        ensures
            queue_write(old(self), final(self), old(self).regs().after_queue_ready(value)),
    {
        if self.queue_sel as u64 >= self.queues.len() as u64 {
            return;
        }
        let at: usize = self.queue_sel as usize;
        let queue: Queue = self.queues[at];
        assert(self.regs().queues[at as int].wf());
        if value != 1 {
            return;
        }
        if queue.num == 0 || queue.desc == 0 || queue.driver == 0 || queue.device == 0 {
            return;
        }
        self.queues.set(at, Queue { ready: true, ..queue });
    }

    /// Pass a kick on to the device.
    pub(super) fn write_notify(&mut self, value: u32)
        requires
            old(self).wf(),
        ensures
            final(self).wf(),
            final(self).regs() == old(self).regs(),
            final(self).irq() == old(self).irq(),
            final(self).named() == old(self).named(),
            final(self).kept_identity(old(self)),
            final(self).kept_config(old(self)),
            final(self).calls() == old(self).calls() + old(self).regs().calls_of_notify(value),
            old(self).regs().calls_of_notify(value).len() == 0 ==> final(self).same_device(
                old(self),
            ),
    {
        if value as u64 >= self.queues.len() as u64 {
            return;
        }
        let queue: Queue = self.queues[value as usize];
        assert(self.regs().queues[value as int].wf());
        if !queue.ready {
            return;
        }
        let notify = QueueNotify {
            index: value as u16,
            size: queue.num as u16,
            desc: queue.desc,
            avail: queue.driver,
            used: queue.device,
            features: self.driver_features,
        };
        self.device.notify(notify);
    }

    /// Replace half of the ring address that `offset` names.
    pub(super) fn write_addr(&mut self, offset: u64, value: u32)
        requires
            old(self).wf(),
        ensures
            queue_write(old(self), final(self), old(self).regs().after_queue_addr(offset, value)),
    {
        if self.queue_sel as u64 >= self.queues.len() as u64 {
            return;
        }
        let at: usize = self.queue_sel as usize;
        let mut queue: Queue = self.queues[at];
        assert(self.regs().queues[at as int].wf());
        if queue.ready {
            return;
        }
        match offset {
            QUEUE_DESC_LOW => {
                queue.desc = replace_low(queue.desc, value);
            },
            QUEUE_DESC_HIGH => {
                queue.desc = replace_high(queue.desc, value);
            },
            QUEUE_DRIVER_LOW => {
                queue.driver = replace_low(queue.driver, value);
            },
            QUEUE_DRIVER_HIGH => {
                queue.driver = replace_high(queue.driver, value);
            },
            QUEUE_DEVICE_LOW => {
                queue.device = replace_low(queue.device, value);
            },
            QUEUE_DEVICE_HIGH => {
                queue.device = replace_high(queue.device, value);
            },
            _ => {
                return;
            },
        }
        self.queues.set(at, queue);
    }
}

/// `x` with its lower half replaced.
pub(super) fn replace_low(x: u64, v: u32) -> (r: u64)
    ensures
        r == with_low(x, v),
{
    x / 0x1_0000_0000 * 0x1_0000_0000 + v as u64
}

/// `x` with its upper half replaced.
pub(super) fn replace_high(x: u64, v: u32) -> (r: u64)
    ensures
        r == with_high(x, v),
{
    v as u64 * 0x1_0000_0000 + x % 0x1_0000_0000
}

} // verus!
