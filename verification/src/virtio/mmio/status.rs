//! Virtio status state machine.
use vstd::prelude::*;

use super::queue::{replace_high, replace_low};
use super::{with_high, with_low, Queue, Regs, VirtioMmio};
use crate::virtio::{VirtioDevice, STATUS_FAILED, STATUS_FEATURES_OK, VIRTIO_F_VERSION_1};

verus! {

broadcast use vstd::group_vstd_default;

/// Every status bit that a driver may set.
pub const DRIVER_STATUS_BITS: u32 = 0x8f;

/// The device was found.
pub const ACK: u32 = 0x1;

/// A driver is bound.
pub const DRIVER: u32 = 0x3;

/// Features are negotiated.
pub const FEATURES: u32 = 0xb;

/// The driver is up.
pub const DRIVER_OK: u32 = 0xf;

/// How far the handshake got, leaving `FAILED` aside. There is no stage for bits out of order.
pub open spec fn stage(status: u32) -> Option<int> {
    let s = status & !STATUS_FAILED;
    if s == 0 {
        Some(0)
    } else if s == ACK {
        Some(1)
    } else if s == DRIVER {
        Some(2)
    } else if s == FEATURES {
        Some(3)
    } else if s == DRIVER_OK {
        Some(4)
    } else {
        None
    }
}

impl Regs {
    /// The driver accepted only offered features, and `VIRTIO_F_VERSION_1` among them.
    pub open spec fn features_agreed(self, offered: u64) -> bool {
        &&& self.driver_features & !offered == 0
        &&& self.driver_features & VIRTIO_F_VERSION_1 != 0
    }

    /// A status other than zero that the driver may write: the same stage or the next one, and
    /// past the features only once they are agreed.
    pub open spec fn status_allowed(self, requested: u32, offered: u64) -> bool {
        match (stage(self.status), stage(requested)) {
            (Some(from), Some(to)) => {
                &&& from <= to <= from + 1
                &&& (from < 3 && to == 3) ==> self.features_agreed(offered)
            },
            _ => false,
        }
    }

    /// After the driver wrote the status. Zero resets; what is not allowed changes nothing.
    pub open spec fn after_status(self, requested: u32, offered: u64) -> Regs {
        if requested == 0 {
            self.reset()
        } else if self.status_allowed(requested, offered) {
            Regs { status: requested, ..self }
        } else {
            self
        }
    }

    /// What the device is told: every reset, and every change.
    pub open spec fn calls_of_status(self, requested: u32, offered: u64) -> Seq<
        crate::virtio::DeviceCall,
    > {
        if requested == 0 || (requested != self.status && self.status_allowed(
            requested,
            offered,
        )) {
            seq![crate::virtio::DeviceCall::StatusChanged(requested)]
        } else {
            Seq::empty()
        }
    }

    /// After the driver accepted features. The choice is final from `FEATURES_OK` on.
    pub open spec fn after_driver_features(self, v: u32) -> Regs {
        if self.status & STATUS_FEATURES_OK != 0 {
            self
        } else if self.driver_features_sel == 0 {
            Regs { driver_features: with_low(self.driver_features, v), ..self }
        } else if self.driver_features_sel == 1 {
            Regs { driver_features: with_high(self.driver_features, v), ..self }
        } else {
            self
        }
    }
}

/// Why a status write was refused.
#[derive(Debug, Clone, Copy, PartialEq, Eq, Structural)]
pub enum StatusRefusal {
    /// A bit that no driver sets.
    UnknownBit,
    /// A bit that was set is missing.
    ClearedBit,
    /// The bits are not a prefix of the handshake.
    OutOfOrder,
    /// The handshake jumps over a stage.
    SkippedStep,
    /// The driver accepted a feature that was not offered.
    UnofferedFeature,
    /// The driver did not accept `VIRTIO_F_VERSION_1`.
    MissingVersion1,
}

impl StatusRefusal {
    /// The reason in words.
    pub fn reason(self) -> (s: &'static str)
        ensures
            s@ == (match self {
                StatusRefusal::UnknownBit => "unknown status bit",
                StatusRefusal::ClearedBit => "status bits cleared without reset",
                StatusRefusal::OutOfOrder => "out of order",
                StatusRefusal::SkippedStep => "skipped status step",
                StatusRefusal::UnofferedFeature => {
                    "driver features are not a subset of device features"
                },
                StatusRefusal::MissingVersion1 => "missing VIRTIO_F_VERSION_1",
            })@,
    {
        match self {
            StatusRefusal::UnknownBit => "unknown status bit",
            StatusRefusal::ClearedBit => "status bits cleared without reset",
            StatusRefusal::OutOfOrder => "out of order",
            StatusRefusal::SkippedStep => "skipped status step",
            StatusRefusal::UnofferedFeature => {
                "driver features are not a subset of device features"
            },
            StatusRefusal::MissingVersion1 => "missing VIRTIO_F_VERSION_1",
        }
    }
}

impl Regs {
    /// The first reason to refuse `requested`, if there is one.
    pub open spec fn refusal(self, requested: u32, offered: u64) -> Option<StatusRefusal> {
        let from = self.status & !STATUS_FAILED;
        let to = requested & !STATUS_FAILED;
        if requested & !DRIVER_STATUS_BITS != 0 {
            Some(StatusRefusal::UnknownBit)
        } else if to & from != from {
            Some(StatusRefusal::ClearedBit)
        } else if stage(requested) is None {
            Some(StatusRefusal::OutOfOrder)
        } else if stage(requested)->0 > stage(self.status)->0 + 1 {
            Some(StatusRefusal::SkippedStep)
        } else if stage(requested)->0 == 3 && stage(self.status)->0 < 3 {
            self.feature_refusal(offered)
        } else {
            None
        }
    }

    /// Why the driver's features are not acceptable, if they are not.
    pub open spec fn feature_refusal(self, offered: u64) -> Option<StatusRefusal> {
        if self.driver_features & !offered != 0 {
            Some(StatusRefusal::UnofferedFeature)
        } else if self.driver_features & VIRTIO_F_VERSION_1 == 0 {
            Some(StatusRefusal::MissingVersion1)
        } else {
            None
        }
    }

    /// A status is allowed exactly when there is no reason to refuse it.
    pub proof fn lemma_refusal(self, requested: u32, offered: u64)
        requires
            stage(self.status) is Some,
        ensures
            self.refusal(requested, offered) is None <==> self.status_allowed(requested, offered),
    {
        let from = self.status & !STATUS_FAILED;
        let to = requested & !STATUS_FAILED;
        assert({
            &&& (requested & !0x80u32 == 0 || requested & !0x80u32 == 0x1 || requested & !0x80u32 == 0x3 || requested & !0x80u32 == 0xb || requested & !0x80u32 == 0xf) ==> requested & !0x8fu32 == 0
            &&& (from == 0 || from == 0x1 || from == 0x3 || from == 0xb || from == 0xf) && (to == 0 || to == 0x1 || to == 0x3 || to == 0xb || to == 0xf) ==> (to & from == from <==> from <= to)
        }) by (bit_vector);
    }
}

/// Whether `status` is a prefix of the handshake.
fn status_prefix(status: u32) -> (b: bool)
    ensures
        b == (status == 0 || status == ACK || status == DRIVER || status == FEATURES || status
            == DRIVER_OK),
{
    status == 0 || status == ACK || status == DRIVER || status == FEATURES || status == DRIVER_OK
}

/// How far along the handshake `status` is.
fn status_step(status: u32) -> (step: u8)
    ensures
        status == 0 ==> step == 0,
        status == ACK ==> step == 1,
        status == DRIVER ==> step == 2,
        status == FEATURES ==> step == 3,
        status == DRIVER_OK ==> step == 4,
        step <= 5,
{
    match status {
        0 => 0,
        ACK => 1,
        DRIVER => 2,
        FEATURES => 3,
        DRIVER_OK => 4,
        _ => 5,
    }
}

/// The `FEATURES_OK` bit is set from the features stage on.
pub proof fn lemma_features_bit(status: u32)
    requires
        stage(status) is Some,
    ensures
        status & STATUS_FEATURES_OK != 0 <==> stage(status)->0 >= 3,
        (status & !STATUS_FAILED) & STATUS_FEATURES_OK == status & STATUS_FEATURES_OK,
{
    let s = status & !STATUS_FAILED;
    assert({
        &&& (status & !0x80u32) & 8 == status & 8
        &&& 0u32 & 8 == 0 && 0x1u32 & 8 == 0 && 0x3u32 & 8 == 0 && 0xbu32 & 8 == 8 && 0xfu32 & 8 == 8
    }) by (bit_vector);
}

impl<D: VirtioDevice + ?Sized> VirtioMmio<D> {
    /// Accept half of the driver's features.
    pub(super) fn write_driver_features(&mut self, value: u32)
        requires
            old(self).wf(),
        ensures
            final(self).wf(),
            final(self).regs() == old(self).regs().after_driver_features(value),
            final(self).same_device(old(self)),
            final(self).irq() == old(self).irq(),
    {
        if self.status & STATUS_FEATURES_OK != 0 {
            return;
        }
        match self.driver_features_sel {
            0 => {
                self.driver_features = replace_low(self.driver_features, value);
            },
            1 => {
                self.driver_features = replace_high(self.driver_features, value);
            },
            _ => {},
        }
    }

    /// Move the handshake, or reset the transport.
    pub(crate) fn write_status(&mut self, requested: u32)
        requires
            old(self).wf(),
        ensures
            final(self).wf(),
            final(self).regs() == old(self).regs().after_status(
                requested,
                old(self).offered_features(),
            ),
            final(self).calls() == old(self).calls() + old(self).regs().calls_of_status(
                requested,
                old(self).offered_features(),
            ),
            final(self).named() == old(self).named(),
            final(self).kept_identity(old(self)),
            final(self).kept_config(old(self)),
            old(self).regs().calls_of_status(requested, old(self).offered_features()).len() == 0
                ==> final(self).same_device(old(self)),
            requested != 0 ==> final(self).irq() == old(self).irq(),
            requested == 0 ==> old(self).irq().moved_to(&final(self).irq(), 0),
    {
        if requested == 0 {
            self.reset();
            self.device.status_changed(0);
            return;
        }
        proof {
            self.regs().lemma_refusal(requested, self.offered_features());
            lemma_features_bit(self.status);
        }
        if self.check_status(requested).is_err() {
            return;
        }
        proof {
            lemma_features_bit(requested);
        }
        if requested == self.status {
            return;
        }
        self.status = requested;
        self.device.status_changed(requested);
    }

    /// Whether the driver may write `requested`, which is not a reset.
    pub fn check_status(&self, requested: u32) -> (r: Result<(), StatusRefusal>)
        requires
            self.wf(),
        ensures
            r == (match self.regs().refusal(requested, self.offered_features()) {
                Some(why) => Err::<(), StatusRefusal>(why),
                None => Ok(()),
            }),
    {
        if requested & !DRIVER_STATUS_BITS != 0 {
            return Err(StatusRefusal::UnknownBit);
        }
        let from: u32 = self.status & !STATUS_FAILED;
        let to: u32 = requested & !STATUS_FAILED;
        if to & from != from {
            return Err(StatusRefusal::ClearedBit);
        }
        if !status_prefix(to) {
            return Err(StatusRefusal::OutOfOrder);
        }
        if status_step(to) > status_step(from) + 1 {
            return Err(StatusRefusal::SkippedStep);
        }
        proof {
            lemma_features_bit(self.status);
            lemma_features_bit(requested);
            assert(stage(requested)->0 <= stage(self.status)->0 + 1);
        }
        if to & STATUS_FEATURES_OK != 0 && from & STATUS_FEATURES_OK == 0 {
            return self.check_features();
        }
        Ok(())
    }

    /// Whether the driver's features are acceptable.
    fn check_features(&self) -> (r: Result<(), StatusRefusal>)
        ensures
            r == (match self.regs().feature_refusal(self.offered_features()) {
                Some(why) => Err::<(), StatusRefusal>(why),
                None => Ok(()),
            }),
    {
        let offered: u64 = self.offered();
        if self.driver_features & !offered != 0 {
            return Err(StatusRefusal::UnofferedFeature);
        }
        if self.driver_features & VIRTIO_F_VERSION_1 == 0 {
            return Err(StatusRefusal::MissingVersion1);
        }
        Ok(())
    }

    /// Back to a transport that no driver has touched.
    fn reset(&mut self)
        requires
            old(self).wf(),
        ensures
            final(self).wf(),
            final(self).regs() == old(self).regs().reset(),
            final(self).same_device(old(self)),
            old(self).irq().moved_to(&final(self).irq(), 0),
    {
        self.device_features_sel = 0;
        self.driver_features_sel = 0;
        self.driver_features = 0;
        self.queue_sel = 0;
        self.status = 0;
        proof {
            let b = self.interrupt.bits();
            assert({
                &&& b <= 3 ==> b & !(3u32 & 3) == 0
                &&& 0u32 & STATUS_FEATURES_OK == 0
                &&& 0u32 & !STATUS_FAILED == 0
            }) by (bit_vector);
        }
        self.interrupt.ack(0b11);
        let mut i: usize = 0;
        while i < self.queues.len()
            invariant
                i <= self.queues@.len(),
                self.queues@.len() == old(self).queues@.len(),
                self.device_features_sel == 0,
                self.driver_features_sel == 0,
                self.driver_features == 0,
                self.queue_sel == 0,
                self.status == 0,
                self.name == old(self).name,
                self.device == old(self).device,
                self.interrupt.wf(),
                old(self).irq().moved_to(&self.interrupt, 0),
                forall|j: int|
                    0 <= j < i ==> #[trigger] self.queues@[j] == Queue::cleared(
                        old(self).queues@[j].num_max,
                    ),
                forall|j: int| i <= j < self.queues@.len() ==> self.queues@[j] == old(self).queues@[j],
            decreases self.queues@.len() - i,
        {
            let max: u32 = self.queues[i].num_max;
            self.queues.set(
                i,
                Queue { num_max: max, num: 0, ready: false, desc: 0, driver: 0, device: 0 },
            );
            i = i + 1;
        }
        proof {
            let want = old(self).regs().reset();
            assert(self.queues@ =~= want.queues);
            assert forall|j: int| 0 <= j < self.queues@.len() implies (
            #[trigger] self.queues@[j]).wf() by {
                assert(old(self).regs().queues[j].wf());
            }
        }
    }
}

} // verus!
