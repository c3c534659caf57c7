//! What holds of every virtio-mmio transport, whatever the driver writes.
use vstd::prelude::*;

use super::status::{lemma_features_bit, stage, ACK, DRIVER, DRIVER_OK, FEATURES};
use super::{Regs, VirtioMmio, DRIVER_FEATURES, DRIVER_FEATURES_SEL, STATUS};
use crate::virtio::{VirtioDevice, STATUS_FAILED, STATUS_FEATURES_OK, VIRTIO_F_VERSION_1};

verus! {

broadcast use vstd::group_vstd_default;

/// The write that resets the transport.
pub open spec fn resets(offset: u64, size: u8, value: u64) -> bool {
    offset == STATUS && size == 4 && value % 0x1_0000_0000 == 0
}

/// A write keeps the handshake where it is, moves it one stage on, or resets it.
pub proof fn law_status_moves_one_stage(
    r: Regs,
    offset: u64,
    size: u8,
    value: u64,
    offered: u64,
)
    requires
        r.wf(),
    ensures
        ({
            let after = r.after_write(offset, size, value, offered);
            let (from, to) = (stage(r.status), stage(after.status));
            &&& to is Some
            &&& resets(offset, size, value) ==> after.status == 0
            &&& !resets(offset, size, value) ==> from->0 <= to->0 <= from->0 + 1
        }),
{
    assert(0u32 & !STATUS_FAILED == 0) by (bit_vector);
}

/// `FEATURES_OK` is reached only with features that were offered, `VIRTIO_F_VERSION_1` among
/// them.
pub proof fn law_features_ok_needs_version_1(
    r: Regs,
    offset: u64,
    size: u8,
    value: u64,
    offered: u64,
)
    requires
        r.wf(),
        r.status & STATUS_FEATURES_OK == 0,
        r.after_write(offset, size, value, offered).status & STATUS_FEATURES_OK != 0,
    ensures
        ({
            let after = r.after_write(offset, size, value, offered);
            &&& after.driver_features & !offered == 0
            &&& after.driver_features & VIRTIO_F_VERSION_1 != 0
        }),
{
    let after = r.after_write(offset, size, value, offered);
    law_status_moves_one_stage(r, offset, size, value, offered);
    lemma_features_bit(r.status);
    lemma_features_bit(after.status);
    assert(0u32 & STATUS_FEATURES_OK == 0) by (bit_vector);
}

/// From `FEATURES_OK` until a reset the accepted features do not change.
pub proof fn law_features_are_final(r: Regs, offset: u64, size: u8, value: u64, offered: u64)
    requires
        r.wf(),
        r.status & STATUS_FEATURES_OK != 0,
        !resets(offset, size, value),
    ensures
        r.after_write(offset, size, value, offered).driver_features == r.driver_features,
        r.after_write(offset, size, value, offered).status & STATUS_FEATURES_OK != 0,
{
    let after = r.after_write(offset, size, value, offered);
    law_status_moves_one_stage(r, offset, size, value, offered);
    lemma_features_bit(r.status);
    lemma_features_bit(after.status);
}

/// Past `FEATURES_OK`, the features in force are among those offered, with `VIRTIO_F_VERSION_1`.
pub open spec fn features_in_force_agreed(r: Regs, offered: u64) -> bool {
    r.status & STATUS_FEATURES_OK != 0 ==> r.features_agreed(offered)
}

/// Every write keeps the features in force among those offered, with `VIRTIO_F_VERSION_1`.
pub proof fn law_features_in_force_stay_agreed(
    r: Regs,
    offset: u64,
    size: u8,
    value: u64,
    offered: u64,
)
    requires
        r.wf(),
        features_in_force_agreed(r, offered),
    ensures
        features_in_force_agreed(r.after_write(offset, size, value, offered), offered),
{
    if r.status & STATUS_FEATURES_OK == 0 {
        if r.after_write(offset, size, value, offered).status & STATUS_FEATURES_OK != 0 {
            law_features_ok_needs_version_1(r, offset, size, value, offered);
        }
    } else if resets(offset, size, value) {
        assert(0u32 & STATUS_FEATURES_OK == 0) by (bit_vector);
    } else {
        law_features_are_final(r, offset, size, value, offered);
    }
}

/// A guest write.
pub struct Write {
    pub offset: u64,
    pub size: u8,
    pub value: u64,
}

/// The registers after `writes` in order. Reads and interrupts leave the registers alone.
pub open spec fn after_writes(r: Regs, writes: Seq<Write>, offered: u64) -> Regs
    decreases writes.len(),
{
    if writes.len() == 0 {
        r
    } else {
        let w = writes.last();
        after_writes(r, writes.drop_last(), offered).after_write(w.offset, w.size, w.value, offered)
    }
}

/// Whatever a driver writes to a fresh transport: the status, `FAILED` aside, is a prefix of the
/// handshake; and past `FEATURES_OK` the features in force are among those offered, with
/// `VIRTIO_F_VERSION_1`, and only a reset changes them.
pub proof fn law_handshake_holds_after_any_writes(
    r: Regs,
    writes: Seq<Write>,
    next: Write,
    offered: u64,
)
    requires
        r.wf(),
        r.status == 0,
    ensures
        ({
            let now = after_writes(r, writes, offered);
            let later = now.after_write(next.offset, next.size, next.value, offered);
            let s = now.status & !STATUS_FAILED;
            &&& s == 0 || s == ACK || s == DRIVER || s == FEATURES || s == DRIVER_OK
            &&& features_in_force_agreed(now, offered)
            &&& now.status & STATUS_FEATURES_OK != 0 && !resets(next.offset, next.size, next.value)
                ==> later.driver_features == now.driver_features
        }),
{
    lemma_after_writes(r, writes, offered);
    let now = after_writes(r, writes, offered);
    if now.status & STATUS_FEATURES_OK != 0 && !resets(next.offset, next.size, next.value) {
        law_features_are_final(now, next.offset, next.size, next.value, offered);
    }
}

/// The same of a transport whose device is steady: what a write promises keeps the features in
/// force among those that the device offers, with `VIRTIO_F_VERSION_1`.
pub proof fn law_transport_keeps_features_agreed<D: VirtioDevice + ?Sized>(
    before: &VirtioMmio<D>,
    after: &VirtioMmio<D>,
    w: Write,
)
    requires
        before.wf(),
        before.device().steady(),
        features_in_force_agreed(before.regs(), before.offered_features()),
        after.kept_identity(before),
        after.regs() == before.regs().after_write(
            w.offset,
            w.size,
            w.value,
            before.offered_features(),
        ),
    ensures
        features_in_force_agreed(after.regs(), after.offered_features()),
{
    law_features_in_force_stay_agreed(
        before.regs(),
        w.offset,
        w.size,
        w.value,
        before.offered_features(),
    );
}

proof fn lemma_after_writes(r: Regs, writes: Seq<Write>, offered: u64)
    requires
        r.wf(),
        r.status == 0,
    ensures
        after_writes(r, writes, offered).wf(),
        features_in_force_agreed(after_writes(r, writes, offered), offered),
    decreases writes.len(),
{
    if writes.len() == 0 {
        assert(0u32 & STATUS_FEATURES_OK == 0) by (bit_vector);
    } else {
        let w = writes.last();
        let before = after_writes(r, writes.drop_last(), offered);
        lemma_after_writes(r, writes.drop_last(), offered);
        law_features_in_force_stay_agreed(before, w.offset, w.size, w.value, offered);
        lemma_write_keeps_wf(before, w, offered);
    }
}

proof fn lemma_write_keeps_wf(r: Regs, w: Write, offered: u64)
    requires
        r.wf(),
        features_in_force_agreed(r, offered),
    ensures
        r.after_write(w.offset, w.size, w.value, offered).wf(),
{
    let after = r.after_write(w.offset, w.size, w.value, offered);
    law_status_moves_one_stage(r, w.offset, w.size, w.value, offered);
    law_features_in_force_stay_agreed(r, w.offset, w.size, w.value, offered);
    assert forall|i: int| 0 <= i < after.queues.len() implies (
    #[trigger] after.queues[i]).wf() by {
        assert(r.queues[i].wf());
    }
}

/// A queue that is ready keeps its size and addresses, and stays ready, until a reset.
pub proof fn law_ready_queues_are_frozen(
    r: Regs,
    i: int,
    offset: u64,
    size: u8,
    value: u64,
    offered: u64,
)
    requires
        r.wf(),
        0 <= i < r.queues.len(),
        r.queues[i].ready,
        !resets(offset, size, value),
    ensures
        r.after_write(offset, size, value, offered).queues[i] == r.queues[i],
{
}

/// A reset leaves no queue ready, no size, no address, and no accepted feature; the queues keep
/// their limits, and a second reset changes nothing.
pub proof fn law_reset_clears(r: Regs, value: u64, offered: u64)
    requires
        r.wf(),
        value % 0x1_0000_0000 == 0,
    ensures
        ({
            let after = r.after_write(STATUS, 4, value, offered);
            &&& after.status == 0 && after.driver_features == 0 && after.queue_sel == 0
            &&& after.queues.len() == r.queues.len()
            &&& forall|i: int|
                0 <= i < r.queues.len() ==> #[trigger] after.queues[i] == super::Queue::cleared(
                    r.queues[i].num_max,
                )
            &&& after.reset() == after
        }),
{
    let after = r.after_write(STATUS, 4, value, offered);
    assert(after.reset().queues =~= after.queues);
}

/// The device hears of a kick only when the queue is ready, and then with its size, its
/// addresses, and the accepted features.
pub proof fn law_only_ready_queues_are_kicked(
    r: Regs,
    offset: u64,
    size: u8,
    value: u64,
    offered: u64,
    i: int,
)
    requires
        r.wf(),
        0 <= i < r.calls_of_write(offset, size, value, offered).len(),
        r.calls_of_write(offset, size, value, offered)[i] is Notify,
    ensures
        ({
            let kick = r.calls_of_write(offset, size, value, offered)[i]->Notify_0;
            &&& kick.index < r.queues.len()
            &&& r.queues[kick.index as int].ready
            &&& kick.size == r.queues[kick.index as int].num
            &&& kick.desc == r.queues[kick.index as int].desc
            &&& kick.avail == r.queues[kick.index as int].driver
            &&& kick.used == r.queues[kick.index as int].device
            &&& kick.features == r.driver_features
        }),
{
    let v = (value % 0x1_0000_0000) as u32;
    assert(r.queues[v as int].wf());
}

/// The registers after a driver ran the whole handshake and accepted `accepted`.
pub open spec fn handshake(r: Regs, accepted: u64, offered: u64) -> Regs {
    let bound = r.after_write(STATUS, 4, ACK as u64, offered).after_write(
        STATUS,
        4,
        DRIVER as u64,
        offered,
    );
    let high = bound.after_write(DRIVER_FEATURES_SEL, 4, 1, offered).after_write(
        DRIVER_FEATURES,
        4,
        (accepted / 0x1_0000_0000) as u64,
        offered,
    );
    let low = high.after_write(DRIVER_FEATURES_SEL, 4, 0, offered).after_write(
        DRIVER_FEATURES,
        4,
        (accepted % 0x1_0000_0000) as u64,
        offered,
    );
    low.after_write(STATUS, 4, FEATURES as u64, offered).after_write(
        STATUS,
        4,
        DRIVER_OK as u64,
        offered,
    )
}

/// From a reset, the handshake with features that were offered, `VIRTIO_F_VERSION_1` among
/// them, reaches `DRIVER_OK` with exactly those features.
pub proof fn law_handshake_reaches_driver_ok(r: Regs, accepted: u64, offered: u64)
    requires
        r.wf(),
        r.status == 0,
        accepted & !offered == 0,
        accepted & VIRTIO_F_VERSION_1 != 0,
    ensures
        handshake(r, accepted, offered).status == DRIVER_OK,
        handshake(r, accepted, offered).driver_features == accepted,
        handshake(r, accepted, offered).queues == r.queues,
{
    assert({
        &&& 0u32 & !0x80 == 0 && 0x1u32 & !0x80 == 0x1 && 0x3u32 & !0x80 == 0x3 && 0xbu32 & !0x80 == 0xb && 0xfu32 & !0x80 == 0xf
        &&& 0x3u32 & 8 == 0
    }) by (bit_vector);
}

/// The registers after the driver wrote `value` to the four-byte register at `offset`.
#[verifier::opaque]
pub open spec fn written(r: Regs, offset: u64, value: u64, offered: u64) -> Regs {
    r.after_write(offset, 4, value, offered)
}

/// The registers after the driver set up the selected queue: its size, both halves of its three
/// addresses, and the hand-over.
pub open spec fn set_up(
    r: Regs,
    size: u32,
    desc: u64,
    driver: u64,
    device: u64,
    offered: u64,
) -> Regs {
    let r1 = written(r, 0x038, size as u64, offered);
    let r2 = written(r1, 0x080, desc % 0x1_0000_0000, offered);
    let r3 = written(r2, 0x084, desc / 0x1_0000_0000, offered);
    let r4 = written(r3, 0x090, driver % 0x1_0000_0000, offered);
    let r5 = written(r4, 0x094, driver / 0x1_0000_0000, offered);
    let r6 = written(r5, 0x0a0, device % 0x1_0000_0000, offered);
    let r7 = written(r6, 0x0a4, device / 0x1_0000_0000, offered);
    written(r7, 0x044, 1, offered)
}

/// A selected queue that is not ready takes every power of two up to and with the limit that
/// QueueNumMax reads as its size, and any addresses but zero; it is then ready, QueueReady reads
/// one, and a kick carries exactly that size, those addresses, and the accepted features. No other
/// queue changes. Zero, or a size past the limit or that is no power of two, leaves it not ready.
pub proof fn law_set_up_queues_are_ready<D: VirtioDevice + ?Sized>(
    before: &VirtioMmio<D>,
    after: &VirtioMmio<D>,
    size: u32,
    desc: u64,
    driver: u64,
    device: u64,
)
    requires
        before.wf(),
        before.regs().queue_sel < before.regs().queues.len(),
        !before.regs().queues[before.regs().queue_sel as int].ready,
        before.regs().queues[before.regs().queue_sel as int].num == 0,
        after.regs() == set_up(
            before.regs(),
            size,
            desc,
            driver,
            device,
            before.offered_features(),
        ),
    ensures
        ({
            let i = before.regs().queue_sel;
            let r = after.regs();
            let good = 1 <= size <= before.register_value(0x034) && vstd::arithmetic::power2::is_pow2(
                size as int,
            );
            &&& before.register_value(0x034) == before.regs().queues[i as int].num_max
            &&& good && desc != 0 && driver != 0 && device != 0 ==> {
                &&& after.register_value(0x044) == 1
                &&& r.calls_of_write(0x050, 4, i as u64, after.offered_features()) == seq![
                    crate::virtio::DeviceCall::Notify(
                        crate::virtio::QueueNotify {
                            index: i as u16,
                            size: size as u16,
                            desc,
                            avail: driver,
                            used: device,
                            features: before.regs().driver_features,
                        },
                    ),
                ]
            }
            &&& !good || desc == 0 || driver == 0 || device == 0 ==> {
                &&& after.register_value(0x044) == 0
                &&& r.calls_of_write(0x050, 4, i as u64, after.offered_features()).len() == 0
            }
            &&& forall|j: int|
                0 <= j < r.queues.len() && j != i ==> #[trigger] r.queues[j]
                    == before.regs().queues[j]
            &&& r.queues.len() == before.regs().queues.len()
            &&& r.status == before.regs().status && r.driver_features
                == before.regs().driver_features
        }),
{
    let r = before.regs();
    assert(r.queues[r.queue_sel as int].wf());
    lemma_set_up(r, size, desc, driver, device, before.offered_features());
}

/// The selected queue after it was set up.
pub open spec fn set_up_queue(
    q: super::Queue,
    size: u32,
    desc: u64,
    driver: u64,
    device: u64,
) -> super::Queue {
    let good = 1 <= size <= q.num_max && vstd::arithmetic::power2::is_pow2(size as int);
    super::Queue {
        num_max: q.num_max,
        num: if good {
            size
        } else {
            0
        },
        ready: good && desc != 0 && driver != 0 && device != 0,
        desc,
        driver,
        device,
    }
}

proof fn lemma_set_up(r: Regs, size: u32, desc: u64, driver: u64, device: u64, offered: u64)
    requires
        r.queue_sel < r.queues.len(),
        !r.queues[r.queue_sel as int].ready,
        r.queues[r.queue_sel as int].num == 0,
    ensures
        set_up(r, size, desc, driver, device, offered) == r.with_selected(
            set_up_queue(r.queues[r.queue_sel as int], size, desc, driver, device),
        ),
{
    let i = r.queue_sel as int;
    let q = set_up_queue(r.queues[i], size, desc, driver, device);
    let q1 = super::Queue { num: q.num, ..r.queues[i] };
    let r1 = r.with_selected(q1);
    lemma_size_is_set(r, size, offered);
    lemma_address_is_set(r1, desc, offered);
    let q3 = super::Queue { desc, ..q1 };
    let r3 = r1.with_selected(q3);
    lemma_address_is_set(r3, driver, offered);
    let q5 = super::Queue { driver, ..q3 };
    let r5 = r3.with_selected(q5);
    lemma_address_is_set(r5, device, offered);
    let q7 = super::Queue { device, ..q5 };
    let r7 = r5.with_selected(q7);
    lemma_hand_over(r7, offered);
    assert(r.with_selected(q).queues =~= r.queues.update(i, q1).update(i, q3).update(i, q5).update(
        i,
        q7,
    ).update(i, q));
    assert(r7.queues =~= r.queues.update(i, q7));
}

proof fn lemma_size_is_set(r: Regs, size: u32, offered: u64)
    requires
        r.queue_sel < r.queues.len(),
        !r.queues[r.queue_sel as int].ready,
        r.queues[r.queue_sel as int].num == 0,
    ensures
        ({
            let q = r.queues[r.queue_sel as int];
            let good = 1 <= size <= q.num_max && vstd::arithmetic::power2::is_pow2(size as int);
            written(r, 0x038, size as u64, offered) == r.with_selected(
                super::Queue {
                    num: if good {
                        size
                    } else {
                        0
                    },
                    ..q
                },
            )
        }),
{
    reveal(written);
    let q = r.queues[r.queue_sel as int];
    assert(r.queues.update(r.queue_sel as int, q) =~= r.queues);
}

proof fn lemma_hand_over(r: Regs, offered: u64)
    requires
        r.queue_sel < r.queues.len(),
        !r.queues[r.queue_sel as int].ready,
    ensures
        ({
            let q = r.queues[r.queue_sel as int];
            written(r, 0x044, 1, offered) == r.with_selected(
                super::Queue {
                    ready: q.num != 0 && q.desc != 0 && q.driver != 0 && q.device != 0,
                    ..q
                },
            )
        }),
{
    reveal(written);
    let q = r.queues[r.queue_sel as int];
    assert(r.queues.update(r.queue_sel as int, q) =~= r.queues);
}

proof fn lemma_address_is_set(r: Regs, a: u64, offered: u64)
    requires
        r.queue_sel < r.queues.len(),
        !r.queues[r.queue_sel as int].ready,
    ensures
        ({
            let q = r.queues[r.queue_sel as int];
            let low = a % 0x1_0000_0000;
            let high = a / 0x1_0000_0000;
            &&& written(written(r, 0x080, low, offered), 0x084, high, offered)
                == r.with_selected(super::Queue { desc: a, ..q })
            &&& written(written(r, 0x090, low, offered), 0x094, high, offered)
                == r.with_selected(super::Queue { driver: a, ..q })
            &&& written(written(r, 0x0a0, low, offered), 0x0a4, high, offered)
                == r.with_selected(super::Queue { device: a, ..q })
        }),
{
    let i = r.queue_sel as int;
    let q = r.queues[i];
    let low = a % 0x1_0000_0000;
    let high = a / 0x1_0000_0000;
    lemma_half_is_set(r, low, offered);
    let desc_low = super::Queue {
        desc: (q.desc / 0x1_0000_0000 * 0x1_0000_0000 + low) as u64,
        ..q
    };
    lemma_half_is_set(r.with_selected(desc_low), high, offered);
    assert(r.with_selected(desc_low).with_selected(super::Queue { desc: a, ..desc_low }).queues
        =~= r.queues.update(i, super::Queue { desc: a, ..q }));
    let driver_low = super::Queue {
        driver: (q.driver / 0x1_0000_0000 * 0x1_0000_0000 + low) as u64,
        ..q
    };
    lemma_half_is_set(r.with_selected(driver_low), high, offered);
    assert(r.with_selected(driver_low).with_selected(super::Queue { driver: a, ..driver_low }).queues
        =~= r.queues.update(i, super::Queue { driver: a, ..q }));
    let device_low = super::Queue {
        device: (q.device / 0x1_0000_0000 * 0x1_0000_0000 + low) as u64,
        ..q
    };
    lemma_half_is_set(r.with_selected(device_low), high, offered);
    assert(r.with_selected(device_low).with_selected(super::Queue { device: a, ..device_low }).queues
        =~= r.queues.update(i, super::Queue { device: a, ..q }));
}

proof fn lemma_half_is_set(r: Regs, v: u64, offered: u64)
    requires
        r.queue_sel < r.queues.len(),
        !r.queues[r.queue_sel as int].ready,
        v < 0x1_0000_0000,
    ensures
        ({
            let q = r.queues[r.queue_sel as int];
            let unit = 0x1_0000_0000u64;
            &&& written(r, 0x080, v, offered) == r.with_selected(
                super::Queue { desc: (q.desc / unit * unit + v) as u64, ..q },
            )
            &&& written(r, 0x084, v, offered) == r.with_selected(
                super::Queue { desc: (v * unit + q.desc % unit) as u64, ..q },
            )
            &&& written(r, 0x090, v, offered) == r.with_selected(
                super::Queue { driver: (q.driver / unit * unit + v) as u64, ..q },
            )
            &&& written(r, 0x094, v, offered) == r.with_selected(
                super::Queue { driver: (v * unit + q.driver % unit) as u64, ..q },
            )
            &&& written(r, 0x0a0, v, offered) == r.with_selected(
                super::Queue { device: (q.device / unit * unit + v) as u64, ..q },
            )
            &&& written(r, 0x0a4, v, offered) == r.with_selected(
                super::Queue { device: (v * unit + q.device % unit) as u64, ..q },
            )
        }),
{
    reveal(written);
}

} // verus!
