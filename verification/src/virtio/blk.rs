//! virtio-blk device: request queue and image geometry.
pub mod backend;
pub mod calls;
pub mod kicks;
pub mod laws;
pub mod request;
pub mod wire;
pub mod worker;

use vstd::prelude::*;

use self::backend::FileBackend;
use self::request::Pending;
use super::queue::{Chain, SplitQueue};
use super::{QueueNotify, VirtioDevice};
use crate::bytes::{le_to_u64, u64_to_le};

verus! {

broadcast use vstd::group_vstd_default;

/// Virtio block device id.
pub const VIRTIO_BLK_ID: u32 = 2;

/// Read-only feature bit.
pub const VIRTIO_BLK_F_RO: u64 = 0x20;

/// Cache flush feature bit.
pub const VIRTIO_BLK_F_FLUSH: u64 = 0x200;

/// Request type: read.
pub const VIRTIO_BLK_T_IN: u32 = 0;

/// Request type: write.
pub const VIRTIO_BLK_T_OUT: u32 = 1;

/// Request type: flush.
pub const VIRTIO_BLK_T_FLUSH: u32 = 4;

/// Request type: device id.
pub const VIRTIO_BLK_T_GET_ID: u32 = 8;

/// Request status: done.
pub const VIRTIO_BLK_S_OK: u8 = 0;

/// Request status: failed.
pub const VIRTIO_BLK_S_IOERR: u8 = 1;

/// Request status: not supported.
pub const VIRTIO_BLK_S_UNSUPP: u8 = 2;

/// Bytes of a sector.
pub const SECTOR: u64 = 512;

/// Bytes of a device id.
pub const ID_BYTES: usize = 20;

/// Bytes of a request header.
pub const HEADER_BYTES: usize = 16;

/// `a + b` in a 64-bit counter.
pub open spec fn counted(a: u64, b: u64) -> u64 {
    ((a + b) % 0x1_0000_0000_0000_0000) as u64
}

/// Counters for one virtio-blk device.
#[derive(Debug, Clone, Copy, PartialEq, Eq, Structural)]
pub struct BlkStats {
    /// Completed requests, including failures.
    pub reqs: u64,
    /// Payload bytes read or written on successful IN/OUT/GET_ID.
    pub bytes: u64,
    /// Requests that returned an error status.
    pub errors: u64,
}

impl BlkStats {
    /// One more request that moved `bytes`.
    pub open spec fn after_ok(self, bytes: u32) -> BlkStats {
        BlkStats {
            reqs: counted(self.reqs, 1),
            bytes: counted(self.bytes, bytes as u64),
            errors: self.errors,
        }
    }

    /// One more request that failed.
    pub open spec fn after_error(self) -> BlkStats {
        BlkStats {
            reqs: counted(self.reqs, 1),
            bytes: self.bytes,
            errors: counted(self.errors, 1),
        }
    }

    /// Counters at zero.
    pub fn new() -> (s: Self)
        ensures
            s == (BlkStats { reqs: 0, bytes: 0, errors: 0 }),
    {
        BlkStats { reqs: 0, bytes: 0, errors: 0 }
    }

    /// Count a request that moved `bytes`.
    pub(crate) fn ok(&mut self, bytes: u32)
        ensures
            *final(self) == old(self).after_ok(bytes),
    {
        self.reqs = self.reqs.wrapping_add(1);
        self.bytes = self.bytes.wrapping_add(bytes as u64);
    }

    /// Count a request that failed.
    pub(crate) fn error(&mut self)
        ensures
            *final(self) == old(self).after_error(),
    {
        self.reqs = self.reqs.wrapping_add(1);
        self.errors = self.errors.wrapping_add(1);
    }

    /// Snapshot of `(reqs, bytes, errors)`.
    pub fn snapshot(&self) -> (s: (u64, u64, u64))
        ensures
            s == (self.reqs, self.bytes, self.errors),
    {
        (self.reqs, self.bytes, self.errors)
    }
}

/// Opening or sizing a virtio-blk image failed.
#[derive(Debug, Clone, PartialEq, Eq)]
pub enum VirtioBlkError {
    /// The image file could not be opened.
    Open {
        /// Host path.
        path: String,
        /// OS error.
        source: String,
    },
}

impl VirtioBlkError {
    /// The message for `self`.
    pub open spec fn text(self) -> Seq<char> {
        match self {
            VirtioBlkError::Open { path, source } => "open virtio-blk image "@ + path@ + ": "@
                + source@,
        }
    }

    /// What went wrong, in words.
    pub fn message(&self) -> (s: String)
        ensures
            s@ == self.text(),
    {
        match self {
            VirtioBlkError::Open { path, source } => {
                let mut s: String = String::new();
                s.append("open virtio-blk image ");
                s.append(path.as_str());
                s.append(": ");
                s.append(source.as_str());
                assert(s@ =~= self.text());
                s
            },
        }
    }
}

/// Work for the I/O side of the device.
#[derive(Debug, Clone, Copy, PartialEq, Eq, Structural)]
pub enum Kick {
    /// The driver kicked the queue.
    Notify(QueueNotify),
    /// The driver reset the device.
    Reset,
}

/// The chains of one kick.
#[derive(Debug)]
pub struct Job {
    chains: Vec<Chain>,
    at: usize,
    completed: bool,
}

/// The chains of a job that are left, and whether the used ring took one.
pub struct JobView {
    pub chains: Seq<super::queue::ChainView>,
    pub completed: bool,
}

impl Job {
    pub closed spec fn wf(&self) -> bool {
        self.at <= self.chains@.len()
    }
}

impl View for Job {
    type V = JobView;

    closed spec fn view(&self) -> JobView {
        JobView {
            chains: super::queue::chain_views(self.chains@).skip(self.at as int),
            completed: self.completed,
        }
    }
}

/// One virtio-blk device.
///
/// The transport side queues kicks. The I/O side takes them one by one, see [`worker`].
pub struct VirtioBlk {
    backend: FileBackend,
    serial: Vec<u8>,
    stats: BlkStats,
    kicks: Vec<Kick>,
    queue: Option<SplitQueue>,
    job: Option<Job>,
    pending: Option<Pending>,
    calls: Ghost<Seq<super::DeviceCall>>,
}

/// What a [`VirtioBlk`] holds.
#[verifier::ext_equal]
pub struct BlkView {
    pub backend: FileBackend,
    pub serial: Seq<u8>,
    pub stats: BlkStats,
    pub kicks: Seq<Kick>,
    pub queue: Option<SplitQueue>,
    pub job: Option<JobView>,
    pub pending: Option<Pending>,
}

/// The device id of an image: the first bytes of its name, padded with zeros.
pub open spec fn serial_of(name: Seq<u8>) -> Seq<u8> {
    Seq::new(
        ID_BYTES as nat,
        |i: int|
            if i < name.len() {
                name[i]
            } else {
                0
            },
    )
}

/// The `size` bytes at `offset` of the config space, which holds the capacity.
pub open spec fn config_value(capacity: u64, offset: u64, size: u8) -> u64 {
    if offset >= 8 {
        0
    } else {
        let end = if offset + size < 8 {
            offset + size
        } else {
            8
        };
        crate::bytes::le_value(
            crate::bytes::le_bytes(capacity as nat, 8).subrange(offset as int, end),
        ) as u64
    }
}

impl View for VirtioBlk {
    type V = BlkView;

    closed spec fn view(&self) -> BlkView {
        BlkView {
            backend: self.backend,
            serial: self.serial@,
            stats: self.stats,
            kicks: self.kicks@,
            queue: self.queue,
            job: match self.job {
                Some(job) => Some(job@),
                None => None,
            },
            pending: self.pending,
        }
    }
}

impl BlkView {
    /// A job has a queue, and a transfer under way belongs to a chain of the job.
    pub open spec fn wf(self) -> bool {
        &&& self.backend.wf()
        &&& self.serial.len() == ID_BYTES
        &&& self.queue matches Some(q) ==> q.wf()
        &&& self.job is Some ==> self.queue is Some
        &&& self.pending matches Some(p) ==> {
            &&& p.wf()
            &&& self.job is Some
            &&& self.job->0.chains.len() > 0
        }
    }
}

impl VirtioBlk {
    /// What the device holds is well formed, and so is its job.
    pub open spec fn wf(&self) -> bool {
        self@.wf() && self.job_wf()
    }

    /// The job in progress, if there is one, is inside its chains.
    pub closed spec fn job_wf(&self) -> bool {
        self.job matches Some(job) ==> job.wf()
    }

    /// A device for an image of `len` bytes. `name` is the file name, if it can be read.
    pub fn new(len: u64, read_only: bool, name: Option<&str>) -> (b: Self)
        ensures
            b.wf(),
            b.calls() == Seq::<super::DeviceCall>::empty(),
            b@.backend.size() == len - len % SECTOR,
            b@.backend.is_read_only() == read_only,
            b@.serial == serial_of(
                match name {
                    Some(n) => vstd::utf8::encode_utf8(n@),
                    None => vstd::utf8::encode_utf8("ternvale"@),
                },
            ),
            b@.stats == (BlkStats { reqs: 0, bytes: 0, errors: 0 }),
            b@.kicks == Seq::<Kick>::empty(),
            b@.queue is None,
            b@.job is None,
            b@.pending is None,
    {
        let id: &str = match name {
            Some(n) => n,
            None => "ternvale",
        };
        let bytes = id.as_bytes();
        let mut serial: Vec<u8> = Vec::new();
        while serial.len() < ID_BYTES
            invariant
                serial@.len() <= ID_BYTES,
                serial@ == serial_of(bytes@).take(serial@.len() as int),
            decreases ID_BYTES - serial@.len(),
        {
            let b: u8 = if serial.len() < bytes.len() {
                bytes[serial.len()]
            } else {
                0
            };
            serial.push(b);
            assert(serial@ =~= serial_of(bytes@).take(serial@.len() as int));
        }
        assert(serial@ =~= serial_of(bytes@));
        VirtioBlk {
            backend: FileBackend::new(len, read_only),
            serial,
            stats: BlkStats::new(),
            kicks: Vec::new(),
            queue: None,
            job: None,
            pending: None,
            calls: Ghost(Seq::empty()),
        }
    }

    /// Per-device request counters.
    pub fn stats(&self) -> (s: &BlkStats)
        ensures
            *s == self@.stats,
    {
        &self.stats
    }

    /// Why the queue in use is broken, if it is.
    pub fn fault(&self) -> (f: Option<super::queue::Fault>)
        ensures
            f == (match self@.queue {
                Some(q) => q.broken,
                None => None,
            }),
    {
        match &self.queue {
            Some(q) => q.broken,
            None => None,
        }
    }

    /// Geometry of the image.
    pub fn backend(&self) -> (b: &FileBackend)
        ensures
            *b == self@.backend,
    {
        &self.backend
    }
}

impl VirtioDevice for VirtioBlk {
    closed spec fn calls(&self) -> super::Calls {
        self.calls@
    }

    open spec fn id(&self) -> u32 {
        VIRTIO_BLK_ID
    }

    open spec fn vendor(&self) -> u32 {
        super::DEFAULT_VENDOR_ID
    }

    open spec fn features(&self) -> u64 {
        if self@.backend.is_read_only() {
            VIRTIO_BLK_F_FLUSH | VIRTIO_BLK_F_RO
        } else {
            VIRTIO_BLK_F_FLUSH
        }
    }

    open spec fn queue_count(&self) -> u16 {
        1
    }

    open spec fn queue_max(&self, queue: u16) -> u16 {
        super::DEFAULT_QUEUE_NUM_MAX
    }

    open spec fn generation(&self) -> u32 {
        0
    }

    open spec fn config(&self, offset: u64, size: u8) -> u64 {
        config_value(self@.backend.sectors(), offset, size)
    }

    open spec fn config_after(&self, offset: u64, size: u8, value: u64, at: u64, len: u8) -> u64 {
        self.config(at, len)
    }

    open spec fn steady(&self) -> bool {
        true
    }

    fn device_id(&self) -> (r: u32) {
        VIRTIO_BLK_ID
    }

    fn vendor_id(&self) -> (r: u32) {
        super::DEFAULT_VENDOR_ID
    }

    fn device_features(&self) -> (r: u64) {
        let mut features: u64 = VIRTIO_BLK_F_FLUSH;
        if self.backend.read_only() {
            features = features | VIRTIO_BLK_F_RO;
        }
        features
    }

    fn num_queues(&self) -> (r: u16) {
        1
    }

    fn queue_num_max(&self, queue: u16) -> (r: u16) {
        super::DEFAULT_QUEUE_NUM_MAX
    }

    fn read_config(&mut self, offset: u64, size: u8) -> (value: u64)
        ensures
            final(self)@ == old(self)@,
            old(self).wf() ==> final(self).wf(),
    {
        let bytes = u64_to_le(self.backend.capacity(), 8);
        proof {
            crate::bytes::lemma_le_bytes_len(self.backend.sectors() as nat, 8);
        }
        let value: u64 = read_le(&bytes, offset, size);
        let ghost call = super::DeviceCall::ReadConfig { offset, size, value };
        self.calls = Ghost(self.calls@.push(call));
        value
    }

    fn write_config(&mut self, offset: u64, size: u8, value: u64)
        ensures
            final(self)@ == old(self)@,
            old(self).wf() ==> final(self).wf(),
    {
        let ghost call = super::DeviceCall::WriteConfig { offset, size, value };
        self.calls = Ghost(self.calls@.push(call));
    }

    fn notify(&mut self, queue: QueueNotify)
        ensures
            final(self)@ == (BlkView {
                kicks: old(self)@.kicks.push(Kick::Notify(queue)),
                ..old(self)@
            }),
            old(self).wf() ==> final(self).wf(),
    {
        self.kicks.push(Kick::Notify(queue));
        self.calls = Ghost(self.calls@.push(super::DeviceCall::Notify(queue)));
    }

    fn status_changed(&mut self, status: u32)
        ensures
            status == 0 ==> final(self)@ == (BlkView {
                kicks: old(self)@.kicks.push(Kick::Reset),
                ..old(self)@
            }),
            status != 0 ==> final(self)@ == old(self)@,
            old(self).wf() ==> final(self).wf(),
    {
        if status == 0 {
            self.kicks.push(Kick::Reset);
        }
        self.calls = Ghost(self.calls@.push(super::DeviceCall::StatusChanged(status)));
    }

    fn config_generation(&self) -> (r: u32) {
        0
    }
}

fn read_le(bytes: &Vec<u8>, offset: u64, size: u8) -> (value: u64)
    requires
        bytes@.len() == 8,
    ensures
        value == (if offset >= 8 {
            0
        } else {
            crate::bytes::le_value(
                bytes@.subrange(
                    offset as int,
                    if offset + size < 8 {
                        offset + size
                    } else {
                        8
                    },
                ),
            ) as int
        }),
{
    if offset >= 8 {
        return 0;
    }
    let start: usize = offset as usize;
    let end: usize = if start + (size as usize) < 8 {
        start + size as usize
    } else {
        8
    };
    le_to_u64(vstd::slice::slice_subrange(bytes.as_slice(), start, end))
}

} // verus!
