//! Parse and execute one virtio-blk request chain.
//!
//! A request that needs the image stops at the transfer it wants; the reply completes it.
use vstd::prelude::*;

use super::backend::FileBackend;
use super::{
    BlkStats, HEADER_BYTES, ID_BYTES, SECTOR, VIRTIO_BLK_S_IOERR, VIRTIO_BLK_S_OK,
    VIRTIO_BLK_S_UNSUPP, VIRTIO_BLK_T_FLUSH, VIRTIO_BLK_T_GET_ID, VIRTIO_BLK_T_IN,
    VIRTIO_BLK_T_OUT,
};
use crate::bytes::le_to_u64;
use crate::memory::GuestMemory;
use crate::virtio::queue::{Buffer, Chain};

verus! {

broadcast use vstd::group_vstd_default;

/// The first `n` bytes of the buffers in order, when there are that many and they are mapped.
pub open spec fn gathered(m: Map<int, u8>, bufs: Seq<Buffer>, n: nat) -> Option<Seq<u8>>
    decreases bufs.len(),
{
    if n == 0 {
        Some(Seq::empty())
    } else if bufs.len() == 0 {
        None
    } else {
        let take = if bufs[0].len < n {
            bufs[0].len as nat
        } else {
            n
        };
        let rest = gathered(m, bufs.skip(1), (n - take) as nat);
        if crate::memory::mapped(m, bufs[0].addr as int, take as int) && rest is Some {
            Some(crate::memory::bytes_at(m, bufs[0].addr as int, take) + rest->0)
        } else {
            None
        }
    }
}

/// What came of spreading bytes over buffers.
pub struct Spread {
    /// Memory afterwards.
    pub memory: Map<int, u8>,
    /// How many bytes went into the buffers.
    pub count: nat,
    /// Every piece was mapped.
    pub ok: bool,
}

/// `data` spread over the buffers in order. Data that the buffers have no room for is dropped. The
/// first piece that is not mapped ends the copy.
pub open spec fn scattered(m: Map<int, u8>, bufs: Seq<Buffer>, data: Seq<u8>) -> Spread
    decreases bufs.len(),
{
    if data.len() == 0 || bufs.len() == 0 {
        Spread { memory: m, count: 0, ok: true }
    } else {
        let take: int = if bufs[0].len < data.len() {
            bufs[0].len as int
        } else {
            data.len() as int
        };
        if crate::memory::mapped(m, bufs[0].addr as int, take) {
            let rest = scattered(
                crate::memory::with_bytes(m, bufs[0].addr as int, data.take(take)),
                bufs.skip(1),
                data.skip(take),
            );
            Spread { count: (take + rest.count) as nat, ..rest }
        } else {
            Spread { memory: m, count: 0, ok: false }
        }
    }
}

/// The smaller of the two.
pub open spec fn smaller(a: nat, b: nat) -> nat {
    if a < b {
        a
    } else {
        b
    }
}

/// No more bytes are spread than there are, nor than the buffers have room for; and where every
/// piece was mapped, as many as that.
pub proof fn lemma_spread_count(m: Map<int, u8>, bufs: Seq<Buffer>, data: Seq<u8>)
    ensures
        scattered(m, bufs, data).count <= smaller(data.len(), total_len(bufs)),
        scattered(m, bufs, data).ok ==> scattered(m, bufs, data).count == smaller(
            data.len(),
            total_len(bufs),
        ),
    decreases bufs.len(),
{
    if data.len() > 0 && bufs.len() > 0 {
        let take: int = if bufs[0].len < data.len() {
            bufs[0].len as int
        } else {
            data.len() as int
        };
        lemma_total_front(bufs);
        lemma_spread_count(
            crate::memory::with_bytes(m, bufs[0].addr as int, data.take(take)),
            bufs.skip(1),
            data.skip(take),
        );
    }
}

/// The bytes of the first buffer and of the others.
pub proof fn lemma_total_front(bufs: Seq<Buffer>)
    requires
        bufs.len() > 0,
    ensures
        total_len(bufs) == bufs[0].len + total_len(bufs.skip(1)),
    decreases bufs.len(),
{
    if bufs.len() > 1 {
        lemma_total_front(bufs.drop_last());
        assert(bufs.drop_last().skip(1) =~= bufs.skip(1).drop_last());
    } else {
        assert(bufs.skip(1) =~= Seq::<Buffer>::empty());
        assert(bufs.drop_last() =~= Seq::<Buffer>::empty());
    }
}

fn copy_from(mem: &GuestMemory, bufs: &Vec<Buffer>, n: usize) -> (r: Option<Vec<u8>>)
    requires
        mem.wf(),
    ensures
        r is Some == gathered(mem@, bufs@, n as nat) is Some,
        r matches Some(v) ==> Some(v@) == gathered(mem@, bufs@, n as nat),
{
    let mut out: Vec<u8> = Vec::new();
    let mut i: usize = 0;
    let ghost want = gathered(mem@, bufs@, n as nat);
    proof {
        assert(bufs@.skip(0) =~= bufs@);
        if want is Some {
            assert(out@ + want->0 =~= want->0);
        }
    }
    while i < bufs.len() && out.len() < n
        invariant
            i <= bufs@.len(),
            out@.len() <= n,
            mem.wf(),
            want == gathered(mem@, bufs@, n as nat),
            ({
                let rest = gathered(mem@, bufs@.skip(i as int), (n - out@.len()) as nat);
                &&& want is Some == rest is Some
                &&& rest is Some ==> want->0 == out@ + rest->0
            }),
        decreases bufs@.len() - i,
    {
        let left: usize = n - out.len();
        let len: u32 = bufs[i].len;
        let take: usize = if (len as u64) < left as u64 {
            len as usize
        } else {
            left
        };
        let ghost before = out@;
        proof {
            assert(bufs@.skip(i as int).skip(1) =~= bufs@.skip(i + 1));
        }
        match mem.read_bytes(bufs[i].addr, take) {
            Ok(mut piece) => {
                let ghost got = piece@;
                out.append(&mut piece);
                proof {
                    let rest = gathered(mem@, bufs@.skip(i + 1), (n - out@.len()) as nat);
                    if rest is Some {
                        assert(before + (got + rest->0) =~= out@ + rest->0);
                    }
                }
            },
            Err(_) => {
                return None;
            },
        }
        i = i + 1;
    }
    if out.len() < n {
        return None;
    }
    proof {
        assert(out@ + Seq::<u8>::empty() =~= out@);
    }
    Some(out)
}

fn copy_to(mem: &mut GuestMemory, bufs: &Vec<Buffer>, data: &Vec<u8>) -> (r: (usize, bool))
    requires
        old(mem).wf(),
    ensures
        final(mem).wf(),
        scattered(old(mem)@, bufs@, data@) == (Spread {
            memory: final(mem)@,
            count: r.0 as nat,
            ok: r.1,
        }),
        r.0 <= data@.len(),
{
    let mut off: usize = 0;
    let mut i: usize = 0;
    proof {
        assert(bufs@.skip(0) =~= bufs@);
        assert(data@.skip(0) =~= data@);
    }
    while i < bufs.len() && off < data.len()
        invariant
            i <= bufs@.len(),
            off <= data@.len(),
            mem.wf(),
            ({
                let rest = scattered(mem@, bufs@.skip(i as int), data@.skip(off as int));
                scattered(old(mem)@, bufs@, data@) == (Spread {
                    count: off as nat + rest.count,
                    ..rest
                })
            }),
        decreases bufs@.len() - i,
    {
        let left: usize = data.len() - off;
        let len: u32 = bufs[i].len;
        let take: usize = if (len as u64) < left as u64 {
            len as usize
        } else {
            left
        };
        let piece = vstd::slice::slice_subrange(data.as_slice(), off, off + take);
        proof {
            assert(bufs@.skip(i as int).skip(1) =~= bufs@.skip(i + 1));
            assert(data@.skip(off as int).skip(take as int) =~= data@.skip(off + take));
            assert(data@.skip(off as int).take(take as int) =~= piece@);
        }
        if mem.write_bytes(bufs[i].addr, piece).is_err() {
            return (off, false);
        }
        off = off + take;
        i = i + 1;
    }
    (off, true)
}

/// How many bytes the buffers have together.
pub open spec fn total_len(bufs: Seq<Buffer>) -> nat
    decreases bufs.len(),
{
    if bufs.len() == 0 {
        0
    } else {
        total_len(bufs.drop_last()) + bufs.last().len as nat
    }
}

/// The 32-bit sum of the buffer lengths. It wraps.
fn sum_len(bufs: &Vec<Buffer>) -> (n: u32)
    ensures
        n == total_len(bufs@) % 0x1_0000_0000,
{
    let mut n: u32 = 0;
    let mut i: usize = 0;
    while i < bufs.len()
        invariant
            i <= bufs@.len(),
            n == total_len(bufs@.take(i as int)) % 0x1_0000_0000,
        decreases bufs@.len() - i,
    {
        proof {
            assert(bufs@.take(i + 1).drop_last() =~= bufs@.take(i as int));
        }
        n = n.wrapping_add(bufs[i].len);
        i = i + 1;
    }
    assert(bufs@.take(i as int) =~= bufs@);
    n
}

/// Payload bytes of a request of type `ty`: all but the status byte, or all but the header.
pub open spec fn payload_len(readable: Seq<Buffer>, writable: Seq<Buffer>, ty: u32) -> u32 {
    if ty == VIRTIO_BLK_T_IN || ty == VIRTIO_BLK_T_GET_ID {
        let total = total_len(writable) % 0x1_0000_0000;
        if total == 0 {
            0
        } else {
            (total - 1) as u32
        }
    } else if ty == VIRTIO_BLK_T_OUT {
        let total = total_len(readable) % 0x1_0000_0000;
        if total < HEADER_BYTES {
            0
        } else {
            (total - HEADER_BYTES) as u32
        }
    } else {
        0
    }
}

fn data_bytes(chain: &Chain, ty: u32) -> (n: u32)
    ensures
        n == payload_len(chain.readable@, chain.writable@, ty),
{
    match ty {
        VIRTIO_BLK_T_IN | VIRTIO_BLK_T_GET_ID => {
            let total: u32 = sum_len(&chain.writable);
            if total == 0 {
                0
            } else {
                total - 1
            }
        },
        VIRTIO_BLK_T_OUT => {
            let total: u32 = sum_len(&chain.readable);
            if total < HEADER_BYTES as u32 {
                0
            } else {
                total - HEADER_BYTES as u32
            }
        },
        _ => 0,
    }
}

/// Address of the status byte: the last writable byte.
pub open spec fn status_at(writable: Seq<Buffer>) -> Option<u64> {
    if writable.len() == 0 || writable.last().len == 0 {
        None
    } else {
        Some(
            ((writable.last().addr + writable.last().len - 1) % 0x1_0000_0000_0000_0000) as u64,
        )
    }
}

/// Address of the status byte of `chain`.
pub(crate) fn chain_status(chain: &Chain) -> (r: Option<u64>)
    ensures
        r == status_at(chain.writable@),
{
    let n: usize = chain.writable.len();
    if n == 0 {
        return None;
    }
    let last: Buffer = chain.writable[n - 1];
    if last.len == 0 {
        return None;
    }
    Some(last.addr.wrapping_add(last.len as u64 - 1))
}

/// The buffers without their last byte, where the last buffer has one.
pub open spec fn without_last_byte(bufs: Seq<Buffer>) -> Seq<Buffer> {
    if bufs.len() == 0 || bufs.last().len == 0 {
        bufs
    } else {
        bufs.drop_last().push(
            Buffer { addr: bufs.last().addr, len: (bufs.last().len - 1) as u32 },
        )
    }
}

/// The buffers without the empty ones at the end.
pub open spec fn without_empty_tail(bufs: Seq<Buffer>) -> Seq<Buffer>
    decreases bufs.len(),
{
    if bufs.len() > 0 && bufs.last().len == 0 {
        without_empty_tail(bufs.drop_last())
    } else {
        bufs
    }
}

/// The writable buffers without the status byte, and without what is left empty at the end.
pub open spec fn data_area(writable: Seq<Buffer>) -> Seq<Buffer> {
    without_empty_tail(without_last_byte(writable))
}

/// What is left is a front part of the buffers with all of their bytes, and does not end in an
/// empty one.
pub proof fn lemma_without_empty_tail(bufs: Seq<Buffer>)
    ensures
        ({
            let kept = without_empty_tail(bufs);
            &&& kept.len() <= bufs.len()
            &&& kept == bufs.take(kept.len() as int)
            &&& total_len(kept) == total_len(bufs)
            &&& kept.len() > 0 ==> kept.last().len > 0
        }),
    decreases bufs.len(),
{
    if bufs.len() > 0 && bufs.last().len == 0 {
        lemma_without_empty_tail(bufs.drop_last());
        let kept = without_empty_tail(bufs);
        assert(bufs.drop_last().take(kept.len() as int) =~= bufs.take(kept.len() as int));
    } else {
        assert(bufs.take(bufs.len() as int) =~= bufs);
    }
}

fn copy_buffers(bufs: &Vec<Buffer>) -> (out: Vec<Buffer>)
    ensures
        out@ == bufs@,
{
    let mut out: Vec<Buffer> = Vec::new();
    let mut i: usize = 0;
    while i < bufs.len()
        invariant
            i <= bufs@.len(),
            out@ == bufs@.take(i as int),
        decreases bufs@.len() - i,
    {
        out.push(bufs[i]);
        i = i + 1;
        assert(out@ =~= bufs@.take(i as int));
    }
    assert(bufs@.take(i as int) =~= bufs@);
    out
}

/// The writable buffers of `chain` without the status byte.
pub(crate) fn data_writable(chain: &Chain) -> (out: Vec<Buffer>)
    ensures
        out@ == data_area(chain.writable@),
{
    let mut bufs = copy_buffers(&chain.writable);
    let n: usize = bufs.len();
    if n > 0 {
        let last: Buffer = bufs[n - 1];
        if last.len > 0 {
            bufs.set(n - 1, Buffer { addr: last.addr, len: last.len - 1 });
            assert(bufs@ =~= without_last_byte(chain.writable@));
        }
    }
    while bufs.len() > 0 && bufs[bufs.len() - 1].len == 0
        invariant
            without_empty_tail(bufs@) == data_area(chain.writable@),
        decreases bufs@.len(),
    {
        let ghost before = bufs@;
        bufs.pop();
        assert(bufs@ =~= before.drop_last());
    }
    bufs
}

/// The buffers without their first `n` bytes.
pub open spec fn without_front(bufs: Seq<Buffer>, n: nat) -> Seq<Buffer>
    decreases bufs.len(),
{
    if bufs.len() == 0 {
        Seq::empty()
    } else if n >= bufs[0].len {
        without_front(bufs.skip(1), (n - bufs[0].len) as nat)
    } else {
        seq![
            Buffer {
                addr: ((bufs[0].addr + n) % 0x1_0000_0000_0000_0000) as u64,
                len: (bufs[0].len - n) as u32,
            },
        ] + without_front(bufs.skip(1), 0)
    }
}

fn out_readable(chain: &Chain) -> (out: Vec<Buffer>)
    ensures
        out@ == without_front(chain.readable@, HEADER_BYTES as nat),
{
    let mut skip: u32 = HEADER_BYTES as u32;
    let mut out: Vec<Buffer> = Vec::new();
    let mut i: usize = 0;
    let ghost all = chain.readable@;
    proof {
        assert(all.skip(0) =~= all);
        assert(out@ + without_front(all, skip as nat) =~= without_front(all, skip as nat));
    }
    while i < chain.readable.len()
        invariant
            i <= chain.readable@.len(),
            all == chain.readable@,
            out@ + without_front(all.skip(i as int), skip as nat) == without_front(
                all,
                HEADER_BYTES as nat,
            ),
        decreases chain.readable@.len() - i,
    {
        let buf: Buffer = chain.readable[i];
        let ghost before = out@;
        proof {
            assert(all.skip(i as int).skip(1) =~= all.skip(i + 1));
        }
        if skip >= buf.len {
            skip = skip - buf.len;
        } else {
            let rest = Buffer { addr: buf.addr.wrapping_add(skip as u64), len: buf.len - skip };
            out.push(rest);
            skip = 0;
            proof {
                assert(out@ + without_front(all.skip(i + 1), 0) =~= before + (seq![rest]
                    + without_front(all.skip(i + 1), 0)));
            }
        }
        i = i + 1;
    }
    assert(out@ + Seq::<Buffer>::empty() =~= out@);
    out
}

/// The `len` bytes from `sector` on lie inside an image of `sectors` sectors.
pub open spec fn within(sectors: u64, sector: u64, len: u32) -> bool {
    sector + (len + SECTOR - 1) / SECTOR as int <= sectors
}

fn in_range(backend: &FileBackend, sector: u64, len: u32) -> (b: bool)
    ensures
        b == within(backend.sectors(), sector, len),
{
    if len == 0 {
        return sector <= backend.capacity();
    }
    let count: u64 = (len as u64 + (SECTOR - 1)) / SECTOR;
    match sector.checked_add(count) {
        Some(end) => end <= backend.capacity(),
        None => false,
    }
}

/// A request header, and where its status byte goes.
#[derive(Debug, Clone, Copy, PartialEq, Eq, Structural)]
pub struct Header {
    /// Request type.
    pub ty: u32,
    /// First sector.
    pub sector: u64,
    /// Address of the status byte.
    pub status: u64,
}

/// The header of a chain that has one and a status byte.
pub open spec fn header_of(
    m: Map<int, u8>,
    readable: Seq<Buffer>,
    writable: Seq<Buffer>,
) -> Option<Header> {
    match (gathered(m, readable, HEADER_BYTES as nat), status_at(writable)) {
        (Some(h), Some(status)) => Some(
            Header {
                ty: crate::bytes::le_value(h.subrange(0, 4)) as u32,
                sector: crate::bytes::le_value(h.subrange(8, 16)) as u64,
                status,
            },
        ),
        _ => None,
    }
}

/// What was gathered has the length that was asked for.
pub proof fn lemma_gathered_len(m: Map<int, u8>, bufs: Seq<Buffer>, n: nat)
    ensures
        gathered(m, bufs, n) matches Some(v) ==> v.len() == n,
    decreases bufs.len(),
{
    if n > 0 && bufs.len() > 0 {
        let take = if bufs[0].len < n {
            bufs[0].len as nat
        } else {
            n
        };
        lemma_gathered_len(m, bufs.skip(1), (n - take) as nat);
    }
}

fn parse(mem: &GuestMemory, chain: &Chain) -> (r: Option<Header>)
    requires
        mem.wf(),
    ensures
        r == header_of(mem@, chain.readable@, chain.writable@),
{
    let hdr = match copy_from(mem, &chain.readable, HEADER_BYTES) {
        Some(hdr) => hdr,
        None => {
            return None;
        },
    };
    proof {
        lemma_gathered_len(mem@, chain.readable@, HEADER_BYTES as nat);
        crate::bytes::lemma_le_value_bound(hdr@.subrange(0, 4));
        crate::bytes::lemma_byte_ranges();
    }
    let ty: u32 = le_to_u64(vstd::slice::slice_subrange(hdr.as_slice(), 0, 4)) as u32;
    let sector: u64 = le_to_u64(vstd::slice::slice_subrange(hdr.as_slice(), 8, 16));
    match chain_status(chain) {
        Some(status) => Some(Header { ty, sector, status }),
        None => None,
    }
}

/// Memory and counters after a request was answered, and the bytes that the device wrote.
pub struct Outcome {
    pub memory: Map<int, u8>,
    pub stats: BlkStats,
    pub used: u32,
}

/// The status byte goes to `at`, if there is one and it is mapped, and counts as written.
pub open spec fn answered(
    m: Map<int, u8>,
    stats: BlkStats,
    at: Option<u64>,
    status: u8,
    written: u32,
) -> Outcome {
    match at {
        Some(addr) => if m.dom().contains(addr as int) {
            Outcome {
                memory: crate::memory::with_bytes(m, addr as int, seq![status]),
                stats,
                used: (written + 1) as u32,
            }
        } else {
            Outcome { memory: m, stats, used: written }
        },
        None => Outcome { memory: m, stats, used: written },
    }
}

fn write_status(mem: &mut GuestMemory, at: Option<u64>, status: u8) -> (n: u32)
    requires
        old(mem).wf(),
    ensures
        final(mem).wf(),
        n <= 1,
        forall|stats: BlkStats, written: u32|
            written < u32::MAX ==> #[trigger] answered(old(mem)@, stats, at, status, written) == (
            Outcome { memory: final(mem)@, stats, used: (written + n) as u32 }),
{
    match at {
        None => 0,
        Some(addr) => {
            if mem.write_u8(addr, status).is_err() {
                0
            } else {
                1
            }
        },
    }
}

/// A transfer that a request wants of the image.
#[derive(Debug)]
pub enum BlkIo {
    /// Read `len` bytes at byte `offset`.
    Read {
        /// First byte.
        offset: u64,
        /// How many bytes.
        len: u32,
    },
    /// Write `data` at byte `offset`.
    Write {
        /// First byte.
        offset: u64,
        /// What to write.
        data: Vec<u8>,
    },
    /// Flush cached writes.
    Flush,
}

/// What a [`BlkIo`] asks for.
pub enum IoView {
    Read { offset: u64, len: u32 },
    Write { offset: u64, data: Seq<u8> },
    Flush,
}

impl View for BlkIo {
    type V = IoView;

    open spec fn view(&self) -> IoView {
        match self {
            BlkIo::Read { offset, len } => IoView::Read { offset: *offset, len: *len },
            BlkIo::Write { offset, data } => IoView::Write { offset: *offset, data: data@ },
            BlkIo::Flush => IoView::Flush,
        }
    }
}

/// What the image answered.
#[derive(Debug)]
pub enum IoReply {
    /// The transfer failed.
    Failed,
    /// The transfer is done. A read brings its bytes; for the others `data` is not looked at.
    Done {
        /// The bytes of a read.
        data: Vec<u8>,
    },
}

/// What has to be known to answer a request once its transfer is done.
#[derive(Debug, Clone, Copy, PartialEq, Eq, Structural)]
pub struct Pending {
    /// The transfer brings bytes for the guest.
    pub reads: bool,
    /// Payload bytes.
    pub len: u32,
    /// Address of the status byte.
    pub status: u64,
}

impl Pending {
    /// The payload leaves room to count the status byte.
    pub open spec fn wf(self) -> bool {
        self.len < u32::MAX
    }

    /// A read brings exactly the payload.
    pub open spec fn fits(self, reply: IoReply) -> bool {
        self.reads ==> (reply matches IoReply::Done { data } ==> data@.len() == self.len)
    }
}

/// How far a request gets without the image.
pub enum BeginView {
    Finished(Outcome),
    Wants(IoView, Pending),
}

/// A request that brings bytes to the guest, answered after they were spread. The bytes count as
/// payload only where all of them found mapped memory.
pub open spec fn brought(spread: Spread, stats: BlkStats, status: u64) -> Outcome {
    let n = spread.count as u32;
    if spread.ok {
        answered(spread.memory, stats.after_ok(n), Some(status), VIRTIO_BLK_S_OK, n)
    } else {
        answered(spread.memory, stats.after_error(), Some(status), VIRTIO_BLK_S_IOERR, n)
    }
}

/// A request up to its transfer. Requests that the image cannot serve fail without one: a write
/// to a read-only image, sectors that it does not have, payload that is not mapped.
pub open spec fn begun(
    m: Map<int, u8>,
    backend: FileBackend,
    readable: Seq<Buffer>,
    writable: Seq<Buffer>,
    serial: Seq<u8>,
    stats: BlkStats,
) -> BeginView {
    match header_of(m, readable, writable) {
        None => BeginView::Finished(
            answered(m, stats.after_error(), status_at(writable), VIRTIO_BLK_S_IOERR, 0),
        ),
        Some(h) => {
            let len = payload_len(readable, writable, h.ty);
            let offset = (h.sector * SECTOR) as u64;
            let refused = BeginView::Finished(
                answered(m, stats.after_error(), Some(h.status), VIRTIO_BLK_S_IOERR, 0),
            );
            if h.ty == VIRTIO_BLK_T_IN {
                if within(backend.sectors(), h.sector, len) {
                    BeginView::Wants(
                        IoView::Read { offset, len },
                        Pending { reads: true, len, status: h.status },
                    )
                } else {
                    refused
                }
            } else if h.ty == VIRTIO_BLK_T_OUT {
                let payload = gathered(
                    m,
                    without_front(readable, HEADER_BYTES as nat),
                    len as nat,
                );
                if !backend.is_read_only() && within(backend.sectors(), h.sector, len)
                    && payload is Some {
                    BeginView::Wants(
                        IoView::Write { offset, data: payload->0 },
                        Pending { reads: false, len, status: h.status },
                    )
                } else {
                    refused
                }
            } else if h.ty == VIRTIO_BLK_T_FLUSH {
                BeginView::Wants(IoView::Flush, Pending { reads: false, len: 0, status: h.status })
            } else if h.ty == VIRTIO_BLK_T_GET_ID {
                BeginView::Finished(
                    brought(scattered(m, data_area(writable), serial), stats, h.status),
                )
            } else {
                BeginView::Finished(
                    answered(m, stats.after_error(), Some(h.status), VIRTIO_BLK_S_UNSUPP, 0),
                )
            }
        },
    }
}

/// A request after its transfer.
pub open spec fn completed(
    m: Map<int, u8>,
    writable: Seq<Buffer>,
    pending: Pending,
    reply: IoReply,
    stats: BlkStats,
) -> Outcome {
    match reply {
        IoReply::Failed => answered(
            m,
            stats.after_error(),
            Some(pending.status),
            VIRTIO_BLK_S_IOERR,
            0,
        ),
        IoReply::Done { data } => if pending.reads {
            brought(scattered(m, data_area(writable), data@), stats, pending.status)
        } else {
            answered(
                m,
                stats.after_ok(pending.len),
                Some(pending.status),
                VIRTIO_BLK_S_OK,
                0,
            )
        },
    }
}

/// A request from beginning to end. `reply` is what the image answers, where it is asked.
pub open spec fn served(
    m: Map<int, u8>,
    backend: FileBackend,
    readable: Seq<Buffer>,
    writable: Seq<Buffer>,
    serial: Seq<u8>,
    stats: BlkStats,
    reply: IoReply,
) -> Outcome {
    match begun(m, backend, readable, writable, serial, stats) {
        BeginView::Finished(o) => o,
        BeginView::Wants(_, pending) => completed(m, writable, pending, reply, stats),
    }
}

/// How far [`process`] got.
#[derive(Debug)]
pub enum Begin {
    /// The request was answered. The device wrote this many bytes.
    Finished(u32),
    /// The request needs a transfer.
    Wants(BlkIo, Pending),
}

/// Run one chain up to its transfer.
pub fn process(
    mem: &mut GuestMemory,
    backend: &FileBackend,
    chain: &Chain,
    serial: &Vec<u8>,
    stats: &mut BlkStats,
) -> (r: Begin)
    requires
        old(mem).wf(),
        backend.wf(),
        serial@.len() == ID_BYTES,
    ensures
        final(mem).wf(),
        ({
            let want = begun(
                old(mem)@,
                *backend,
                chain.readable@,
                chain.writable@,
                serial@,
                *old(stats),
            );
            match r {
                Begin::Finished(used) => want == BeginView::Finished(
                    (Outcome { memory: final(mem)@, stats: *final(stats), used }),
                ),
                Begin::Wants(io, pending) => {
                    &&& want == BeginView::Wants(io@, pending)
                    &&& pending.wf()
                    &&& *final(mem) == *old(mem)
                    &&& *final(stats) == *old(stats)
                },
            }
        }),
{
    let header: Header = match parse(mem, chain) {
        Some(header) => header,
        None => {
            stats.error();
            let n: u32 = write_status(mem, chain_status(chain), VIRTIO_BLK_S_IOERR);
            return Begin::Finished(n);
        },
    };
    let len: u32 = data_bytes(chain, header.ty);
    match header.ty {
        VIRTIO_BLK_T_IN => read_req(mem, backend, header, len, stats),
        VIRTIO_BLK_T_OUT => write_req(mem, backend, chain, header, len, stats),
        VIRTIO_BLK_T_FLUSH => Begin::Wants(
            BlkIo::Flush,
            Pending { reads: false, len: 0, status: header.status },
        ),
        VIRTIO_BLK_T_GET_ID => get_id(mem, chain, header, serial, stats),
        _ => {
            stats.error();
            let n: u32 = write_status(mem, Some(header.status), VIRTIO_BLK_S_UNSUPP);
            Begin::Finished(n)
        },
    }
}

/// Fail the request with an I/O error.
fn refuse(mem: &mut GuestMemory, header: Header, stats: &mut BlkStats) -> (r: Begin)
    requires
        old(mem).wf(),
    ensures
        final(mem).wf(),
        r is Finished,
        answered(
            old(mem)@,
            old(stats).after_error(),
            Some(header.status),
            VIRTIO_BLK_S_IOERR,
            0,
        ) == (Outcome { memory: final(mem)@, stats: *final(stats), used: r->Finished_0 }),
{
    stats.error();
    let n: u32 = write_status(mem, Some(header.status), VIRTIO_BLK_S_IOERR);
    Begin::Finished(n)
}

fn read_req(
    mem: &mut GuestMemory,
    backend: &FileBackend,
    header: Header,
    len: u32,
    stats: &mut BlkStats,
) -> (r: Begin)
    requires
        old(mem).wf(),
        backend.wf(),
        len < u32::MAX,
    ensures
        final(mem).wf(),
        within(backend.sectors(), header.sector, len) ==> {
            &&& r matches Begin::Wants(io, pending)
            &&& io@ == (IoView::Read { offset: (header.sector * SECTOR) as u64, len })
            &&& pending == (Pending { reads: true, len, status: header.status })
            &&& *final(mem) == *old(mem)
            &&& *final(stats) == *old(stats)
        },
        !within(backend.sectors(), header.sector, len) ==> r is Finished && answered(
            old(mem)@,
            old(stats).after_error(),
            Some(header.status),
            VIRTIO_BLK_S_IOERR,
            0,
        ) == (Outcome { memory: final(mem)@, stats: *final(stats), used: r->Finished_0 }),
{
    if !in_range(backend, header.sector, len) {
        return refuse(mem, header, stats);
    }
    Begin::Wants(
        BlkIo::Read { offset: header.sector * SECTOR, len },
        Pending { reads: true, len, status: header.status },
    )
}

fn write_req(
    mem: &mut GuestMemory,
    backend: &FileBackend,
    chain: &Chain,
    header: Header,
    len: u32,
    stats: &mut BlkStats,
) -> (r: Begin)
    requires
        old(mem).wf(),
        backend.wf(),
    ensures
        final(mem).wf(),
        ({
            let payload = gathered(
                old(mem)@,
                without_front(chain.readable@, HEADER_BYTES as nat),
                len as nat,
            );
            if !backend.is_read_only() && within(backend.sectors(), header.sector, len)
                && payload is Some {
                &&& r matches Begin::Wants(io, pending)
                &&& io@ == (IoView::Write {
                    offset: (header.sector * SECTOR) as u64,
                    data: payload->0,
                })
                &&& pending == (Pending { reads: false, len, status: header.status })
                &&& *final(mem) == *old(mem)
                &&& *final(stats) == *old(stats)
            } else {
                r is Finished && answered(
                    old(mem)@,
                    old(stats).after_error(),
                    Some(header.status),
                    VIRTIO_BLK_S_IOERR,
                    0,
                ) == (Outcome { memory: final(mem)@, stats: *final(stats), used: r->Finished_0 })
            }
        }),
{
    if backend.read_only() {
        return refuse(mem, header, stats);
    }
    if !in_range(backend, header.sector, len) {
        return refuse(mem, header, stats);
    }
    let payload = out_readable(chain);
    match copy_from(mem, &payload, len as usize) {
        None => refuse(mem, header, stats),
        Some(data) => Begin::Wants(
            BlkIo::Write { offset: header.sector * SECTOR, data },
            Pending { reads: false, len, status: header.status },
        ),
    }
}

/// Spread `data` over the data area, and answer the request.
fn bring(
    mem: &mut GuestMemory,
    chain: &Chain,
    status: u64,
    data: &Vec<u8>,
    stats: &mut BlkStats,
) -> (used: u32)
    requires
        old(mem).wf(),
        data@.len() < u32::MAX,
    ensures
        final(mem).wf(),
        brought(
            scattered(old(mem)@, data_area(chain.writable@), data@),
            *old(stats),
            status,
        ) == (Outcome { memory: final(mem)@, stats: *final(stats), used }),
{
    let area = data_writable(chain);
    let (count, ok): (usize, bool) = copy_to(mem, &area, data);
    if ok {
        stats.ok(count as u32);
        let n: u32 = write_status(mem, Some(status), VIRTIO_BLK_S_OK);
        n + count as u32
    } else {
        stats.error();
        let n: u32 = write_status(mem, Some(status), VIRTIO_BLK_S_IOERR);
        n + count as u32
    }
}

fn get_id(
    mem: &mut GuestMemory,
    chain: &Chain,
    header: Header,
    serial: &Vec<u8>,
    stats: &mut BlkStats,
) -> (r: Begin)
    requires
        old(mem).wf(),
        serial@.len() == ID_BYTES,
    ensures
        final(mem).wf(),
        r is Finished,
        brought(
            scattered(old(mem)@, data_area(chain.writable@), serial@),
            *old(stats),
            header.status,
        ) == (Outcome { memory: final(mem)@, stats: *final(stats), used: r->Finished_0 }),
{
    Begin::Finished(bring(mem, chain, header.status, serial, stats))
}

/// Answer a request whose transfer is done. Returns the bytes that the device wrote.
pub fn complete(
    mem: &mut GuestMemory,
    chain: &Chain,
    pending: Pending,
    reply: IoReply,
    stats: &mut BlkStats,
) -> (used: u32)
    requires
        old(mem).wf(),
        pending.wf(),
        pending.fits(reply),
    ensures
        final(mem).wf(),
        completed(old(mem)@, chain.writable@, pending, reply, *old(stats)) == (Outcome {
            memory: final(mem)@,
            stats: *final(stats),
            used,
        }),
{
    match reply {
        IoReply::Failed => {
            stats.error();
            write_status(mem, Some(pending.status), VIRTIO_BLK_S_IOERR)
        },
        IoReply::Done { data } => {
            if !pending.reads {
                stats.ok(pending.len);
                return write_status(mem, Some(pending.status), VIRTIO_BLK_S_OK);
            }
            bring(mem, chain, pending.status, &data, stats)
        },
    }
}

} // verus!
