//! What a driver sees through the registers of a transport, by their offsets.
use vstd::prelude::*;

use super::status::StatusRefusal;
use super::{Queue, Regs, SlotWindow, VirtioMmio, VirtioMmioError};
use crate::virtio::irq::{one, VirtioIrq};
use crate::virtio::VirtioDevice;

verus! {

broadcast use vstd::group_vstd_default;

/// What the driver reads at each offset below config space, four bytes at a time: the magic, the
/// version, the identity of the device, the selected half of its features with bit 32 set, the
/// limit and the readiness of the selected queue, the interrupt bits, the status, and the config
/// generation. All else, and any other size, reads zero. A read changes no register.
pub proof fn law_registers_read_what_they_hold<D: VirtioDevice>(
    t: &mut VirtioMmio<D>,
    offset: u64,
    size: u8,
    value: u64,
)
    requires
        call_ensures(VirtioMmio::<D>::read, (t, offset, size), value),
        offset < 0x100,
    ensures
        ({
            let r = old(t).regs();
            let d = old(t).device();
            let f = d.features() as int;
            let sel = r.queue_sel as int;
            let known = 0 <= sel < r.queues.len();
            &&& size != 4 ==> value == 0
            &&& size == 4 && offset == 0x000 ==> value == 0x7472_6976
            &&& size == 4 && offset == 0x004 ==> value == 2
            &&& size == 4 && offset == 0x008 ==> value == d.id()
            &&& size == 4 && offset == 0x00c ==> value == d.vendor()
            &&& size == 4 && offset == 0x010 && r.device_features_sel == 0 ==> value == f
                % 0x1_0000_0000
            &&& size == 4 && offset == 0x010 && r.device_features_sel == 1 ==> value == f
                / 0x1_0000_0000 + if f / 0x1_0000_0000 % 2 == 1 {
                0int
            } else {
                1int
            }
            &&& size == 4 && offset == 0x010 && r.device_features_sel > 1 ==> value == 0
            &&& size == 4 && offset == 0x034 ==> value == if known {
                r.queues[sel].num_max as int
            } else {
                0
            }
            &&& size == 4 && offset == 0x044 ==> value == if known && r.queues[sel].ready {
                1int
            } else {
                0
            }
            &&& size == 4 && offset == 0x060 ==> value == old(t).irq().bits()
            &&& size == 4 && offset == 0x070 ==> value == r.status
            &&& size == 4 && offset == 0x0fc ==> value == d.generation()
            &&& offset != 0x000 && offset != 0x004 && offset != 0x008 && offset != 0x00c && offset
                != 0x010 && offset != 0x034 && offset != 0x044 && offset != 0x060 && offset != 0x070
                && offset != 0x0fc ==> value == 0
            &&& final(t).regs() == r && final(t).irq() == old(t).irq() && final(t).device() == d
        }),
{
    let f = old(t).device().features();
    assert({
        &&& (f | 0x1_0000_0000) % 0x1_0000_0000 == f % 0x1_0000_0000
        &&& (f | 0x1_0000_0000) / 0x1_0000_0000 == f / 0x1_0000_0000 + if f / 0x1_0000_0000 % 2
            == 1 {
            0int
        } else {
            1int
        }
    }) by (bit_vector);
}

/// Config space begins at 0x100: a read brings the low bytes of what the device has there, and a
/// write hands it offset, size, and value as they are. Neither touches a register.
pub proof fn law_config_space_is_the_device<D: VirtioDevice>(
    t: &mut VirtioMmio<D>,
    u: &mut VirtioMmio<D>,
    offset: u64,
    size: u8,
    value: u64,
    v: u64,
)
    requires
        call_ensures(VirtioMmio::<D>::read, (t, offset, size), value),
        call_ensures(VirtioMmio::<D>::write, (u, offset, size, v), ()),
        offset >= 0x100,
    ensures
        ({
            let c = old(t).device().config((offset - 0x100) as u64, size);
            &&& size == 1 ==> value == c % 0x100
            &&& size == 2 ==> value == c % 0x1_0000
            &&& size == 4 ==> value == c % 0x1_0000_0000
            &&& size == 8 ==> value == c
            &&& final(t).calls() == old(t).calls().push(
                crate::virtio::DeviceCall::ReadConfig {
                    offset: (offset - 0x100) as u64,
                    size,
                    value: c,
                },
            )
            &&& final(t).regs() == old(t).regs()
            &&& final(u).regs() == old(u).regs()
            &&& final(u).irq().bits() == old(u).irq().bits()
            &&& final(u).calls() == old(u).calls().push(
                crate::virtio::DeviceCall::WriteConfig {
                    offset: (offset - 0x100) as u64,
                    size,
                    value: v,
                },
            )
        }),
{
    let before = old(u).calls();
    let call = crate::virtio::DeviceCall::WriteConfig {
        offset: (offset - 0x100) as u64,
        size,
        value: v,
    };
    assert(before + seq![call] =~= before.push(call));
    let b = old(u).irq().bits();
    lemma_nothing_is_acknowledged(b);
}

/// A write of four bytes below config space changes the registers by [`Regs::after_write`] with
/// the features that the transport offers, and asks the device what [`Regs::calls_of_write`]
/// says. Any other size does nothing.
pub proof fn law_writes_go_to_the_registers<D: VirtioDevice>(
    t: &mut VirtioMmio<D>,
    offset: u64,
    size: u8,
    v: u64,
)
    requires
        call_ensures(VirtioMmio::<D>::write, (t, offset, size, v), ()),
        offset < 0x100,
    ensures
        size == 4 ==> final(t).regs() == old(t).regs().after_write(
            offset,
            4,
            v,
            old(t).device().features() | 0x1_0000_0000,
        ),
        size == 4 ==> final(t).calls() == old(t).calls() + old(t).regs().calls_of_write(
            offset,
            4,
            v,
            old(t).device().features() | 0x1_0000_0000,
        ),
        size != 4 ==> final(t).regs() == old(t).regs() && final(t).device() == old(t).device(),
        size != 4 ==> final(t).irq().bits() == old(t).irq().bits(),
{
    let b = old(t).irq().bits();
    lemma_nothing_is_acknowledged(b);
}

/// What each register takes from a write. Selectors keep the value. Everything that is not named
/// here or a register of the selected queue changes nothing.
pub proof fn law_each_register_takes_its_own(r: Regs, offset: u64, v: u64, offered: u64)
    requires
        v < 0x1_0000_0000,
    ensures
        ({
            let a = r.after_write(offset, 4, v, offered);
            &&& offset == 0x014 ==> a == Regs { device_features_sel: v as u32, ..r }
            &&& offset == 0x024 ==> a == Regs { driver_features_sel: v as u32, ..r }
            &&& offset == 0x030 ==> a == Regs { queue_sel: v as u32, ..r }
            &&& offset == 0x020 && r.status / 8 % 2 == 1 ==> a == r
            &&& offset == 0x020 && r.status / 8 % 2 == 0 && r.driver_features_sel == 0 ==> a
                == Regs {
                driver_features: (r.driver_features - r.driver_features % 0x1_0000_0000 + v) as u64,
                ..r
            }
            &&& offset == 0x020 && r.status / 8 % 2 == 0 && r.driver_features_sel == 1 ==> a
                == Regs {
                driver_features: (r.driver_features % 0x1_0000_0000 + 0x1_0000_0000 * v) as u64,
                ..r
            }
            &&& offset == 0x020 && r.driver_features_sel > 1 ==> a == r
            &&& offset != 0x014 && offset != 0x024 && offset != 0x030 && offset != 0x020 && offset
                != 0x038 && offset != 0x044 && offset != 0x070 && offset != 0x080 && offset != 0x084
                && offset != 0x090 && offset != 0x094 && offset != 0x0a0 && offset != 0x0a4 ==> a
                == r
            &&& r.queue_sel >= r.queues.len() && offset != 0x014 && offset != 0x024 && offset
                != 0x030 && offset != 0x020 && offset != 0x070 ==> a == r
        }),
{
    let s = r.status;
    assert(s & 8 != 0 <==> s / 8 % 2 == 1) by (bit_vector);
}

/// A queue register of a selected queue changes that queue alone. A queue that is ready takes
/// nothing; one that is not takes zero, or a power of two up to its limit, as its size, and is
/// handed over by writing one once it has a size and three addresses.
pub proof fn law_queue_registers_change_the_selected_queue(r: Regs, offset: u64, v: u64, offered: u64)
    requires
        v < 0x1_0000_0000,
        r.queue_sel < r.queues.len(),
        offset == 0x038 || offset == 0x044,
    ensures
        ({
            let i = r.queue_sel as int;
            let q = r.queues[i];
            let a = r.after_write(offset, 4, v, offered);
            let size_ok = v == 0 || (v <= q.num_max && vstd::arithmetic::power2::is_pow2(v as int));
            &&& a.queues.len() == r.queues.len()
            &&& forall|j: int| 0 <= j < r.queues.len() && j != i ==> #[trigger] a.queues[j]
                == r.queues[j]
            &&& a.status == r.status && a.driver_features == r.driver_features && a.queue_sel
                == r.queue_sel
            &&& offset == 0x038 && !q.ready && size_ok ==> a.queues[i] == Queue {
                num: v as u32,
                ..q
            }
            &&& offset == 0x038 && (q.ready || !size_ok) ==> a == r
            &&& offset == 0x044 && v == 1 && q.num != 0 && q.desc != 0 && q.driver != 0 && q.device
                != 0 ==> a.queues[i] == Queue { ready: true, ..q }
            &&& offset == 0x044 && (v != 1 || q.num == 0 || q.desc == 0 || q.driver == 0 || q.device
                == 0) ==> a == r
        }),
{
}

/// A kick reaches the device exactly when the queue that it names is ready, with that queue's
/// size and addresses and the accepted features.
pub proof fn law_kicks_reach_ready_queues(r: Regs, v: u64, offered: u64)
    requires
        v < 0x1_0000_0000,
        r.wf(),
    ensures
        ({
            let c = r.calls_of_write(0x050, 4, v, offered);
            &&& v < r.queues.len() && r.queues[v as int].ready ==> c.len() == 1 && c[0]
                == crate::virtio::DeviceCall::Notify(
                crate::virtio::QueueNotify {
                    index: v as u16,
                    size: r.queues[v as int].num as u16,
                    desc: r.queues[v as int].desc,
                    avail: r.queues[v as int].driver,
                    used: r.queues[v as int].device,
                    features: r.driver_features,
                },
            )
            &&& v >= r.queues.len() || !r.queues[v as int].ready ==> c.len() == 0
            &&& r.after_write(0x050, 4, v, offered) == r
        }),
{
}

/// How far along the handshake a status is, without its failed bit; -1 for none.
pub open spec fn rung(s: int) -> int {
    if s == 0 {
        0
    } else if s == 1 {
        1
    } else if s == 3 {
        2
    } else if s == 11 {
        3
    } else if s == 15 {
        4
    } else {
        -1
    }
}

/// A status is taken exactly when it is on the handshake, no further than one step on and not
/// back, with or without the failed bit, and the step to features has features that are offered
/// and bit 32 among them. Zero resets. The device hears of every reset and every change, and of
/// nothing else.
pub proof fn law_statuses_go_step_by_step(r: Regs, v: u64, offered: u64)
    requires
        r.wf(),
        v < 0x1_0000_0000,
    ensures
        ({
            let from = rung(r.status as int % 128);
            let to = rung(v as int % 128);
            let agreed = r.driver_features & !offered == 0 && r.driver_features / 0x1_0000_0000 % 2
                == 1;
            let taken = v < 256 && 0 <= to && from <= to <= from + 1 && (from < 3 && to == 3
                ==> agreed);
            let a = r.after_write(0x070, 4, v, offered);
            let c = r.calls_of_write(0x070, 4, v, offered);
            &&& r.status < 256 && from >= 0
            &&& v != 0 && taken ==> a == Regs { status: v as u32, ..r }
            &&& v != 0 && !taken ==> a == r
            &&& v == 0 ==> a.status == 0 && a.driver_features == 0 && a.queues.len()
                == r.queues.len() && forall|i: int|
                0 <= i < r.queues.len() ==> #[trigger] a.queues[i] == (Queue {
                    num_max: r.queues[i].num_max,
                    num: 0,
                    ready: false,
                    desc: 0,
                    driver: 0,
                    device: 0,
                })
            &&& v == 0 ==> a.device_features_sel == 0 && a.driver_features_sel == 0 && a.queue_sel
                == 0
            &&& v == 0 || (taken && v != r.status) ==> c.len() == 1 && c[0]
                == crate::virtio::DeviceCall::StatusChanged(v as u32)
            &&& v != 0 && (!taken || v == r.status) ==> c.len() == 0
        }),
{
    let s = r.status;
    let w = v as u32;
    let f = r.driver_features;
    lemma_status_bits(s);
    lemma_status_bits(w);
    lemma_version_bit(f);
}

proof fn lemma_nothing_is_acknowledged(b: u32)
    ensures
        b & !(0u32 & 3) == b,
{
    assert(b & !(0u32 & 3) == b) by (bit_vector);
}

proof fn lemma_version_bit(f: u64)
    ensures
        f & 0x1_0000_0000 != 0 <==> f / 0x1_0000_0000 % 2 == 1,
{
    assert(f & 0x1_0000_0000 != 0 <==> f / 0x1_0000_0000 % 2 == 1) by (bit_vector);
}

proof fn lemma_status_bits(s: u32)
    ensures
        s < 256 ==> s & !0x80 == s % 128,
        s & !0x80 == 0 || s & !0x80 == 0x1 || s & !0x80 == 0x3 || s & !0x80 == 0xb || s & !0x80
            == 0xf ==> s < 256,
        s & !0x8f == 0 ==> s < 256,
{
    assert({
        &&& s < 256 ==> s & !0x80 == s % 128
        &&& s & !0x80 == 0 || s & !0x80 == 0x1 || s & !0x80 == 0x3 || s & !0x80 == 0xb || s & !0x80
            == 0xf ==> s < 256
        &&& s & !0x8f == 0 ==> s < 256
    }) by (bit_vector);
}

/// Acknowledging clears the bits that are named, and a reset clears both; no other write touches
/// the interrupt bits.
pub proof fn law_interrupts_are_acknowledged<D: VirtioDevice>(
    t: &mut VirtioMmio<D>,
    offset: u64,
    v: u64,
)
    requires
        old(t).wf(),
        call_ensures(VirtioMmio::<D>::write, (t, offset, 4, v), ()),
        v < 0x1_0000_0000,
    ensures
        ({
            let b = old(t).irq().bits();
            let a = final(t).irq().bits();
            &&& offset == 0x064 ==> one(a, 0) == (one(b, 0) && v % 2 == 0) && one(a, 1) == (one(
                b,
                1,
            ) && v / 2 % 2 == 0) && a <= 3
            &&& offset == 0x070 && v == 0 ==> a == 0
            &&& offset != 0x064 && !(offset == 0x070 && v == 0) ==> a == b
        }),
{
    lemma_cleared(old(t).irq().bits(), v as u32);
}

/// Raising an interrupt sets the two status bits that are named and changes nothing else; the
/// levels of the line are taken in order and once.
pub proof fn law_interrupts_are_raised<D: VirtioDevice>(
    t: &mut VirtioMmio<D>,
    bits: u32,
    u: &mut VirtioMmio<D>,
    edges: Vec<bool>,
)
    requires
        old(t).wf(),
        call_ensures(VirtioMmio::<D>::raise_interrupt, (t, bits), ()),
        call_ensures(VirtioMmio::<D>::take_edges, (u,), edges),
    ensures
        one(final(t).irq().bits(), 0) == (one(old(t).irq().bits(), 0) || one(bits, 0)),
        one(final(t).irq().bits(), 1) == (one(old(t).irq().bits(), 1) || one(bits, 1)),
        final(t).irq().bits() <= 3,
        final(t).regs() == old(t).regs() && final(t).device() == old(t).device(),
        edges@ == old(u).irq().edges() && final(u).irq().edges().len() == 0,
        final(u).irq().bits() == old(u).irq().bits() && final(u).regs() == old(u).regs(),
{
    let a = old(t).irq().bits();
    assert(a <= 3 ==> {
        let x = a | (bits & 3);
        &&& (x % 2 == 1) == (a % 2 == 1 || bits % 2 == 1)
        &&& (x / 2 % 2 == 1) == (a / 2 % 2 == 1 || bits / 2 % 2 == 1)
        &&& x <= 3
    }) by (bit_vector);
}

/// Slots lie one behind the other from the base on, and there are as many as the window has. A
/// transport on one is fresh: no status, no features, no queue set up, its queues with the limits
/// of the device, its name that of the slot.
pub proof fn law_slots_follow_each_other<D: VirtioDevice>(
    window: &SlotWindow,
    slot: u32,
    base: Option<u64>,
    device: Box<D>,
    r: Result<(u64, VirtioMmio<D>), VirtioMmioError>,
    n: VirtioMmio<D>,
    w: VirtioMmio<D>,
    irq: VirtioIrq,
    name: &str,
)
    requires
        window.wf(),
        call_ensures(super::slot_base, (window, slot), base),
        call_ensures(VirtioMmio::<D>::register, (window, slot, device), r),
        call_ensures(VirtioMmio::<D>::new, (slot, device), n),
        call_ensures(VirtioMmio::<D>::with_irq, (slot, device, irq), w),
        call_ensures(VirtioMmio::<D>::name, (&n,), name),
    ensures
        slot < window.slots ==> (base matches Some(b) && b == window.base + slot
            * window.slot_size),
        slot >= window.slots ==> base is None,
        slot < window.slots ==> (r matches Ok((b, t)) && b == window.base + slot
            * window.slot_size && fresh(t, device)),
        slot >= window.slots ==> (r matches Err(e) && e == (VirtioMmioError::Slot {
            slot,
            slots: window.slots,
        })),
        fresh(n, device) && fresh(w, device) && w.irq() == irq,
        n.irq().bits() == 0 && n.irq().edges().len() == 0,
        name@ == "virtio-mmio-"@ + crate::text::dec(slot as nat),
{
}

/// No driver has touched the transport of `device`.
pub open spec fn fresh<D: VirtioDevice>(t: VirtioMmio<D>, device: Box<D>) -> bool {
    let r = t.regs();
    &&& t.device() == device
    &&& r.status == 0 && r.driver_features == 0 && r.queue_sel == 0
    &&& r.device_features_sel == 0 && r.driver_features_sel == 0
    &&& r.queues.len() == device.queue_count()
    &&& forall|i: int|
        0 <= i < r.queues.len() ==> #[trigger] r.queues[i] == (Queue {
            num_max: device.queue_max(i as u16) as u32,
            num: 0,
            ready: false,
            desc: 0,
            driver: 0,
            device: 0,
        })
}

/// Why a status is refused, the first reason first: a bit that no driver sets, a bit that went
/// away, bits out of order, a step left out, a feature that was not offered, bit 32 missing.
pub proof fn law_refusals_have_their_reason<D: VirtioDevice>(
    t: &VirtioMmio<D>,
    v: u32,
    r: Result<(), StatusRefusal>,
    why: StatusRefusal,
    text: &'static str,
)
    requires
        t.wf(),
        v != 0,
        call_ensures(VirtioMmio::<D>::check_status, (t, v), r),
        call_ensures(StatusRefusal::reason, (why,), text),
    ensures
        ({
            let s = t.regs().status;
            let f = t.regs().driver_features;
            let offered = t.device().features() | 0x1_0000_0000;
            let from = rung(s as int % 128);
            let to = rung(v as int % 128);
            let unknown = v & !0x8f != 0;
            let cleared = !unknown && (v & !0x80) & (s & !0x80) != s & !0x80;
            let step = !unknown && !cleared && to >= 0 && to <= from + 1;
            &&& unknown <==> r == Err::<(), StatusRefusal>(StatusRefusal::UnknownBit)
            &&& cleared <==> r == Err::<(), StatusRefusal>(StatusRefusal::ClearedBit)
            &&& !unknown && !cleared && to < 0 <==> r == Err::<(), StatusRefusal>(
                StatusRefusal::OutOfOrder,
            )
            &&& !unknown && !cleared && to > from + 1 <==> r == Err::<(), StatusRefusal>(
                StatusRefusal::SkippedStep,
            )
            &&& step && from < 3 && to == 3 && f & !offered != 0 <==> r == Err::<(), StatusRefusal>(
                StatusRefusal::UnofferedFeature,
            )
            &&& step && from < 3 && to == 3 && f & !offered == 0 && f / 0x1_0000_0000 % 2 == 0
                <==> r == Err::<(), StatusRefusal>(StatusRefusal::MissingVersion1)
        }),
        text@ == (match why {
            StatusRefusal::UnknownBit => "unknown status bit",
            StatusRefusal::ClearedBit => "status bits cleared without reset",
            StatusRefusal::OutOfOrder => "out of order",
            StatusRefusal::SkippedStep => "skipped status step",
            StatusRefusal::UnofferedFeature => {
                "driver features are not a subset of device features"
            },
            StatusRefusal::MissingVersion1 => "missing VIRTIO_F_VERSION_1",
        })@,
{
    let s = t.regs().status;
    let f = t.regs().driver_features;
    lemma_status_bits(s);
    lemma_status_bits(v);
    lemma_version_bit(f);
}

/// What a slot error says.
pub proof fn law_slot_errors_say_what_is_wrong(e: VirtioMmioError, s: String)
    requires
        call_ensures(VirtioMmioError::message, (&e,), s),
    ensures
        match e {
            VirtioMmioError::Slot { slot, slots } => s@ == "virtio-mmio slot "@ + crate::text::dec(
                slot as nat,
            ) + " is outside 0.."@ + crate::text::dec(slots as nat),
            VirtioMmioError::Bus { slot, base, source } => s@ == "register virtio-mmio slot "@
                + crate::text::dec(slot as nat) + " at 0x"@ + crate::text::hex(base as nat) + ": "@
                + source@,
        },
{
}

/// Only the low four bytes of a value that is written to a register count.
pub proof fn law_registers_take_four_bytes(r: Regs, offset: u64, v: u64, offered: u64)
    requires
        offset < 0x100,
    ensures
        r.after_write(offset, 4, v, offered) == r.after_write(
            offset,
            4,
            v % 0x1_0000_0000,
            offered,
        ),
        r.calls_of_write(offset, 4, v, offered) == r.calls_of_write(
            offset,
            4,
            v % 0x1_0000_0000,
            offered,
        ),
{
    let w = (v % 0x1_0000_0000) as u32;
    assert((v % 0x1_0000_0000) % 0x1_0000_0000 == v % 0x1_0000_0000);
    assert(r.after_write(offset, 4, v, offered) == r.after_register(offset, w, offered));
    assert(r.calls_of_write(offset, 4, v, offered) == r.calls_of_register(offset, w, offered));
}

/// Acknowledging goes by the two lowest bits of what is written, whatever stands above them.
pub proof fn law_the_low_bits_acknowledge<D: VirtioDevice>(t: &mut VirtioMmio<D>, v: u64)
    requires
        old(t).wf(),
        call_ensures(VirtioMmio::<D>::write, (t, 0x064, 4, v), ()),
    ensures
        one(final(t).irq().bits(), 0) == (one(old(t).irq().bits(), 0) && v % 2 == 0),
        one(final(t).irq().bits(), 1) == (one(old(t).irq().bits(), 1) && v / 2 % 2 == 0),
{
    let w = (v % 0x1_0000_0000) as u32;
    lemma_cleared(old(t).irq().bits(), w);
    assert(v as int == 0x1_0000_0000 * (v as int / 0x1_0000_0000) + w);
}

proof fn lemma_cleared(b: u32, w: u32)
    requires
        b <= 3,
    ensures
        one(b & !(w & 3), 0) == (one(b, 0) && w % 2 == 0),
        one(b & !(w & 3), 1) == (one(b, 1) && w / 2 % 2 == 0),
        b & !(w & 3) <= 3,
        b & !(3u32 & 3) == 0,
        b & !(0u32 & 3) == b,
{
    assert(b <= 3 ==> {
        let y = b & !(w & 3);
        &&& (y % 2 == 1) == (b % 2 == 1 && w % 2 == 0)
        &&& (y / 2 % 2 == 1) == (b / 2 % 2 == 1 && w / 2 % 2 == 0)
        &&& y <= 3
        &&& b & !(3u32 & 3) == 0
        &&& b & !(0u32 & 3) == b
    }) by (bit_vector);
}

/// No call gives a transport another name.
pub proof fn law_transports_keep_their_name<D: VirtioDevice>(
    t: &mut VirtioMmio<D>,
    u: &mut VirtioMmio<D>,
    offset: u64,
    size: u8,
    value: u64,
    w: &mut VirtioMmio<D>,
    bits: u32,
    e: &mut VirtioMmio<D>,
    edges: Vec<bool>,
)
    requires
        call_ensures(VirtioMmio::<D>::read, (t, offset, size), value),
        call_ensures(VirtioMmio::<D>::write, (u, offset, size, value), ()),
        call_ensures(VirtioMmio::<D>::raise_interrupt, (w, bits), ()),
        call_ensures(VirtioMmio::<D>::take_edges, (e,), edges),
    ensures
        final(t).named() == old(t).named() && final(u).named() == old(u).named(),
        final(w).named() == old(w).named() && final(e).named() == old(e).named(),
        final(e).device() == old(e).device(),
{
}

} // verus!
