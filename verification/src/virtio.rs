//! Virtio-mmio v2 (virtio 1.x) transport and devices.
//!
//! Register layout follows the virtio 1.2 MMIO chapter. Feature negotiation
//! accepts `FEATURES_OK` only when the driver offers `VIRTIO_F_VERSION_1`.
pub mod blk;
pub mod irq;
pub mod mmio;
pub mod queue;

use vstd::prelude::*;

verus! {

/// `VIRTIO_F_VERSION_1`. Required before `FEATURES_OK`.
pub const VIRTIO_F_VERSION_1: u64 = 0x1_0000_0000;

/// `VIRTIO_F_INDIRECT_DESC`. Descriptors may point at descriptor tables.
pub const VIRTIO_F_INDIRECT_DESC: u64 = 0x1000_0000;

/// `VIRTIO_F_EVENT_IDX`. The driver names the used index it wants to hear about.
pub const VIRTIO_F_EVENT_IDX: u64 = 0x2000_0000;

/// Status bit set by the driver after it finds the device.
pub const STATUS_ACKNOWLEDGE: u32 = 1;

/// Status bit set once a driver is bound.
pub const STATUS_DRIVER: u32 = 2;

/// Status bit set when the driver finishes initialization.
pub const STATUS_DRIVER_OK: u32 = 4;

/// Status bit set after feature negotiation.
pub const STATUS_FEATURES_OK: u32 = 8;

/// Device asks the driver to reset.
pub const STATUS_DEVICE_NEEDS_RESET: u32 = 64;

/// Driver gave up on the device.
pub const STATUS_FAILED: u32 = 128;

/// The vendor id that a device reports unless it has one of its own. The QEMU value.
pub const DEFAULT_VENDOR_ID: u32 = 0x554d_4551;

/// How many virtqueues a device has unless it says otherwise.
pub const DEFAULT_NUM_QUEUES: u16 = 1;

/// The size limit of a virtqueue unless the device says otherwise.
pub const DEFAULT_QUEUE_NUM_MAX: u16 = 256;

/// A kick from the driver: the queue, where its rings are, and the negotiated features.
#[derive(Debug, Clone, Copy, PartialEq, Eq, Structural)]
pub struct QueueNotify {
    /// Which virtqueue was kicked.
    pub index: u16,
    /// How many descriptors it has.
    pub size: u16,
    /// Address of the descriptor table.
    pub desc: u64,
    /// Address of the available ring.
    pub avail: u64,
    /// Address of the used ring.
    pub used: u64,
    /// Features that the driver accepted.
    pub features: u64,
}

/// One request of the transport to its device.
pub enum DeviceCall {
    /// Config space was read, with this answer.
    ReadConfig { offset: u64, size: u8, value: u64 },
    /// Config space was written.
    WriteConfig { offset: u64, size: u8, value: u64 },
    /// A queue was kicked.
    Notify(QueueNotify),
    /// The status changed.
    StatusChanged(u32),
}

/// The requests that a device has had.
pub type Calls = Seq<DeviceCall>;

/// A virtio 1.x device behind the MMIO transport.
///
/// The specification functions say what the device has been asked, and what it reports at the
/// moment. Every device defines them, and its methods keep to them.
pub trait VirtioDevice: Send {
    /// Requests so far, oldest first.
    spec fn calls(&self) -> Calls;

    /// The device id.
    spec fn id(&self) -> u32;

    /// The vendor id.
    spec fn vendor(&self) -> u32;

    /// The feature bits.
    spec fn features(&self) -> u64;

    /// The number of virtqueues.
    spec fn queue_count(&self) -> u16;

    /// The size limit of `queue`.
    spec fn queue_max(&self, queue: u16) -> u16;

    /// The config generation.
    spec fn generation(&self) -> u32;

    /// What a config read of `size` bytes at `offset` brings.
    spec fn config(&self, offset: u64, size: u8) -> u64;

    /// What a config read of `len` bytes at `at` brings once `value` was written.
    spec fn config_after(&self, offset: u64, size: u8, value: u64, at: u64, len: u8) -> u64;

    /// Identity and features are fixed for good, and only config writes change config space.
    spec fn steady(&self) -> bool;

    /// Virtio device id (`VIRTIO_ID_*`). Zero means an empty slot.
    fn device_id(&self) -> (r: u32)
        ensures
            r == self.id(),
    ;

    /// Four-byte vendor id. [`DEFAULT_VENDOR_ID`] is the usual one.
    fn vendor_id(&self) -> (r: u32)
        ensures
            r == self.vendor(),
    ;

    /// Device feature bits, not including [`VIRTIO_F_VERSION_1`].
    fn device_features(&self) -> (r: u64)
        ensures
            r == self.features(),
    ;

    /// How many virtqueues this device has. [`DEFAULT_NUM_QUEUES`] is the usual number.
    fn num_queues(&self) -> (r: u16)
        ensures
            r == self.queue_count(),
    ;

    /// Maximum queue size for `queue`. [`DEFAULT_QUEUE_NUM_MAX`] is the usual limit.
    fn queue_num_max(&self, queue: u16) -> (r: u16)
        ensures
            r == self.queue_max(queue),
    ;

    /// Read device-specific config at `offset` from the start of config space.
    fn read_config(&mut self, offset: u64, size: u8) -> (value: u64)
        ensures
            value == old(self).config(offset, size),
            final(self).calls() == old(self).calls().push(
                (DeviceCall::ReadConfig { offset, size, value }),
            ),
            old(self).steady() ==> {
                &&& final(self).steady()
                &&& final(self).id() == old(self).id()
                &&& final(self).vendor() == old(self).vendor()
                &&& final(self).features() == old(self).features()
                &&& forall|at: u64, len: u8| #[trigger]
                    final(self).config(at, len) == old(self).config(at, len)
            },
    ;

    /// Write device-specific config.
    fn write_config(&mut self, offset: u64, size: u8, value: u64)
        ensures
            final(self).calls() == old(self).calls().push(
                (DeviceCall::WriteConfig { offset, size, value }),
            ),
            forall|at: u64, len: u8| #[trigger]
                final(self).config(at, len) == old(self).config_after(offset, size, value, at, len),
            old(self).steady() ==> {
                &&& final(self).steady()
                &&& final(self).id() == old(self).id()
                &&& final(self).vendor() == old(self).vendor()
                &&& final(self).features() == old(self).features()
            },
    ;

    /// The driver kicked `queue`.
    fn notify(&mut self, queue: QueueNotify)
        ensures
            final(self).calls() == old(self).calls().push(DeviceCall::Notify(queue)),
            old(self).steady() ==> {
                &&& final(self).steady()
                &&& final(self).id() == old(self).id()
                &&& final(self).vendor() == old(self).vendor()
                &&& final(self).features() == old(self).features()
                &&& forall|at: u64, len: u8| #[trigger]
                    final(self).config(at, len) == old(self).config(at, len)
            },
    ;

    /// `status` changed, including a reset to 0.
    fn status_changed(&mut self, status: u32)
        ensures
            final(self).calls() == old(self).calls().push(DeviceCall::StatusChanged(status)),
            old(self).steady() ==> {
                &&& final(self).steady()
                &&& final(self).id() == old(self).id()
                &&& final(self).vendor() == old(self).vendor()
                &&& final(self).features() == old(self).features()
                &&& forall|at: u64, len: u8| #[trigger]
                    final(self).config(at, len) == old(self).config(at, len)
            },
    ;

    /// Bumped when config space changes.
    fn config_generation(&self) -> (r: u32)
        ensures
            r == self.generation(),
    ;
}

/// A virtio device that only answers identity and queue-size registers.
pub struct FixedDevice {
    id: u32,
    queues: u16,
    calls: Ghost<Seq<DeviceCall>>,
}

impl FixedDevice {
    /// `id` is the virtio device id. `queues` is how many virtqueues it reports.
    pub fn new(id: u32, queues: u16) -> (d: Self)
        ensures
            d.id() == id,
            d.queue_count() == queues,
            d.calls() == Seq::<DeviceCall>::empty(),
    {
        FixedDevice { id, queues, calls: Ghost(Seq::empty()) }
    }
}

impl VirtioDevice for FixedDevice {
    closed spec fn calls(&self) -> Calls {
        self.calls@
    }

    closed spec fn id(&self) -> u32 {
        self.id
    }

    open spec fn vendor(&self) -> u32 {
        DEFAULT_VENDOR_ID
    }

    open spec fn features(&self) -> u64 {
        0
    }

    closed spec fn queue_count(&self) -> u16 {
        self.queues
    }

    open spec fn queue_max(&self, queue: u16) -> u16 {
        DEFAULT_QUEUE_NUM_MAX
    }

    open spec fn generation(&self) -> u32 {
        0
    }

    open spec fn config(&self, offset: u64, size: u8) -> u64 {
        0
    }

    open spec fn config_after(&self, offset: u64, size: u8, value: u64, at: u64, len: u8) -> u64 {
        0
    }

    open spec fn steady(&self) -> bool {
        true
    }

    fn device_id(&self) -> (r: u32) {
        self.id
    }

    fn vendor_id(&self) -> (r: u32) {
        DEFAULT_VENDOR_ID
    }

    fn device_features(&self) -> (r: u64) {
        0
    }

    fn num_queues(&self) -> (r: u16) {
        self.queues
    }

    fn queue_num_max(&self, queue: u16) -> (r: u16) {
        DEFAULT_QUEUE_NUM_MAX
    }

    fn read_config(&mut self, offset: u64, size: u8) -> (value: u64)
        ensures
            value == 0,
            final(self).id() == old(self).id(),
            final(self).queue_count() == old(self).queue_count(),
    {
        let ghost call = DeviceCall::ReadConfig { offset, size, value: 0 };
        self.calls = Ghost(self.calls@.push(call));
        0
    }

    fn write_config(&mut self, offset: u64, size: u8, value: u64)
        ensures
            final(self).id() == old(self).id(),
            final(self).queue_count() == old(self).queue_count(),
    {
        let ghost call = DeviceCall::WriteConfig { offset, size, value };
        self.calls = Ghost(self.calls@.push(call));
    }

    fn notify(&mut self, queue: QueueNotify)
        ensures
            final(self).id() == old(self).id(),
            final(self).queue_count() == old(self).queue_count(),
    {
        self.calls = Ghost(self.calls@.push(DeviceCall::Notify(queue)));
    }

    fn status_changed(&mut self, status: u32)
        ensures
            final(self).id() == old(self).id(),
            final(self).queue_count() == old(self).queue_count(),
    {
        self.calls = Ghost(self.calls@.push(DeviceCall::StatusChanged(status)));
    }

    fn config_generation(&self) -> (r: u32) {
        0
    }
}

/// A fixed device reports its id and its number of queues, the vendor id that spells `QEMU`, no
/// features, queues of up to 256 entries, generation 0, and zeros in config space. No request
/// changes any of that.
pub proof fn law_fixed_devices_stay_as_they_are(
    id: u32,
    queues: u16,
    d: FixedDevice,
    q: u16,
    answers: (u32, u32, u64, u16, u16, u32),
    a: &mut FixedDevice,
    offset: u64,
    size: u8,
    value: u64,
    b: &mut FixedDevice,
    n: QueueNotify,
    c: &mut FixedDevice,
    status: u32,
    e: &mut FixedDevice,
)
    requires
        call_ensures(FixedDevice::new, (id, queues), d),
        call_ensures(FixedDevice::device_id, (&d,), answers.0),
        call_ensures(FixedDevice::vendor_id, (&d,), answers.1),
        call_ensures(FixedDevice::device_features, (&d,), answers.2),
        call_ensures(FixedDevice::num_queues, (&d,), answers.3),
        call_ensures(FixedDevice::queue_num_max, (&d, q), answers.4),
        call_ensures(FixedDevice::config_generation, (&d,), answers.5),
        call_ensures(FixedDevice::read_config, (a, offset, size), value),
        call_ensures(FixedDevice::notify, (b, n), ()),
        call_ensures(FixedDevice::status_changed, (c, status), ()),
        call_ensures(FixedDevice::write_config, (e, offset, size, value), ()),
    ensures
        answers.0 == id,
        answers.1 == 0x51 + 0x100 * 0x45 + 0x1_0000 * 0x4d + 0x100_0000 * 0x55,
        answers.2 == 0,
        answers.3 == queues,
        answers.4 == 256,
        answers.5 == 0,
        value == 0,
        forall|at: u64, len: u8| #[trigger] d.config(at, len) == 0,
        forall|at: u64, len: u8| #[trigger] final(e).config(at, len) == 0,
        final(a).id() == old(a).id() && final(a).queue_count() == old(a).queue_count(),
        final(b).id() == old(b).id() && final(b).queue_count() == old(b).queue_count(),
        final(c).id() == old(c).id() && final(c).queue_count() == old(c).queue_count(),
        final(e).id() == old(e).id() && final(e).queue_count() == old(e).queue_count(),
{
}

} // verus!
