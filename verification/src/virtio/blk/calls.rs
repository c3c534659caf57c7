//! What the calls of a virtio-blk device do: its identity, its config space, its image, and the
//! steps of its I/O side.
use vstd::prelude::*;

use super::backend::{FileBackend, ReadAt, TransferError, WriteAt};
use super::request::{Begin, BeginView, IoReply, Outcome, Pending};
use super::worker::{queue_for, Action};
use super::{BlkStats, BlkView, JobView, Kick, VirtioBlk, VirtioBlkError};
use crate::memory::GuestMemory;
use crate::virtio::queue::{Chain, SplitQueue};
use crate::virtio::{QueueNotify, VirtioDevice};

verus! {

broadcast use vstd::group_vstd_default;

/// A device has the whole sectors of its file, takes writes unless it is read-only, has the first
/// twenty bytes of its name as its id, zeros behind a shorter one, and `ternvale` where it has no
/// name. It has counted nothing and has nothing to do.
pub proof fn law_new_devices_are_idle(
    len: u64,
    read_only: bool,
    name: Option<&str>,
    b: VirtioBlk,
    stats: &BlkStats,
    backend: &FileBackend,
    fault: Option<crate::virtio::queue::Fault>,
)
    requires
        call_ensures(VirtioBlk::new, (len, read_only, name), b),
        call_ensures(VirtioBlk::stats, (&b,), stats),
        call_ensures(VirtioBlk::backend, (&b,), backend),
        call_ensures(VirtioBlk::fault, (&b,), fault),
    ensures
        backend.size() == 512 * (len as int / 512),
        backend.is_read_only() == read_only,
        stats.reqs == 0 && stats.bytes == 0 && stats.errors == 0,
        fault is None,
        b@.kicks.len() == 0 && b@.job is None && b@.pending is None && b@.queue is None,
        b@.serial.len() == 20,
        ({
            let bytes = vstd::utf8::encode_utf8(
                match name {
                    Some(n) => n@,
                    None => "ternvale"@,
                },
            );
            forall|i: int|
                0 <= i < 20 ==> #[trigger] b@.serial[i] == if i < bytes.len() {
                    bytes[i]
                } else {
                    0
                }
        }),
{
}

/// What the device tells the transport: device id 2, the vendor id that spells `QEMU`, flush as
/// its one feature, and read-only beside it where the image is; one queue, of up to 256 entries;
/// generation 0.
pub proof fn law_devices_are_block_devices(
    b: &VirtioBlk,
    id: u32,
    vendor: u32,
    features: u64,
    queues: u16,
    queue: u16,
    limit: u16,
    generation: u32,
)
    requires
        call_ensures(VirtioBlk::device_id, (b,), id),
        call_ensures(VirtioBlk::vendor_id, (b,), vendor),
        call_ensures(VirtioBlk::device_features, (b,), features),
        call_ensures(VirtioBlk::num_queues, (b,), queues),
        call_ensures(VirtioBlk::queue_num_max, (b, queue), limit),
        call_ensures(VirtioBlk::config_generation, (b,), generation),
    ensures
        id == 2,
        vendor == 0x51 + 0x100 * 0x45 + 0x1_0000 * 0x4d + 0x100_0000 * 0x55,
        b@.backend.is_read_only() ==> features == 512 + 32,
        !b@.backend.is_read_only() ==> features == 512,
        queues == 1 && limit == 256 && generation == 0,
{
    assert(0x200u64 | 0x20 == 0x220) by (bit_vector);
}

/// Config space holds the number of sectors in its first eight bytes, the lowest byte first, and
/// zeros behind them. Reading it changes nothing.
pub proof fn law_config_space_holds_the_sectors(
    b: &mut VirtioBlk,
    offset: u64,
    size: u8,
    value: u64,
)
    requires
        call_ensures(VirtioBlk::read_config, (b, offset, size), value),
    ensures
        ({
            let n = old(b)@.backend.size() as int / 512;
            &&& offset == 0 && size >= 8 ==> value == n
            &&& offset == 0 && size == 4 ==> value == n % 0x1_0000_0000
            &&& offset == 4 && size >= 4 ==> value == n / 0x1_0000_0000
            &&& offset == 0 && size == 2 ==> value == n % 0x1_0000
            &&& offset == 2 && size == 2 ==> value == n / 0x1_0000 % 0x1_0000
            &&& offset == 4 && size == 2 ==> value == n / 0x1_0000_0000 % 0x1_0000
            &&& offset == 6 && size >= 2 ==> value == n / 0x1_0000_0000_0000
            &&& offset == 0 && size == 1 ==> value == n % 256
            &&& offset == 1 && size == 1 ==> value == n / 0x100 % 256
            &&& offset == 2 && size == 1 ==> value == n / 0x1_0000 % 256
            &&& offset == 3 && size == 1 ==> value == n / 0x100_0000 % 256
            &&& offset == 4 && size == 1 ==> value == n / 0x1_0000_0000 % 256
            &&& offset == 5 && size == 1 ==> value == n / 0x100_0000_0000 % 256
            &&& offset == 6 && size == 1 ==> value == n / 0x1_0000_0000_0000 % 256
            &&& offset == 7 && size >= 1 ==> value == n / 0x100_0000_0000_0000
            &&& offset >= 8 || size == 0 ==> value == 0
        }),
        final(b)@ == old(b)@,
{
    let n = old(b)@.backend.sectors() as nat;
    let end = if offset + size < 8 {
        offset + size
    } else {
        8
    };
    if offset < 8 {
        lemma_part(n, 8, offset as nat, (end - offset) as nat);
        lemma_places(n, offset as nat);
        lemma_places(n / places(offset as nat), (end - offset) as nat);
    }
}

proof fn lemma_places(n: nat, i: nat)
    requires
        i <= 8,
    ensures
        i == 0 ==> n / places(i) == n && n % places(i) == 0,
        i == 1 ==> n / places(i) == n / 0x100 && n % places(i) == n % 0x100,
        i == 2 ==> n / places(i) == n / 0x1_0000 && n % places(i) == n % 0x1_0000,
        i == 3 ==> n / places(i) == n / 0x100_0000 && n % places(i) == n % 0x100_0000,
        i == 4 ==> n / places(i) == n / 0x1_0000_0000 && n % places(i) == n % 0x1_0000_0000,
        i == 5 ==> n / places(i) == n / 0x100_0000_0000 && n % places(i) == n % 0x100_0000_0000,
        i == 6 ==> n / places(i) == n / 0x1_0000_0000_0000 && n % places(i) == n % 0x1_0000_0000_0000,
        i == 7 ==> n / places(i) == n / 0x100_0000_0000_0000 && n % places(i) == n % 0x100_0000_0000_0000,
        i == 8 ==> n / places(i) == n / 0x1_0000_0000_0000_0000 && n % places(i) == n % 0x1_0000_0000_0000_0000,
{
    reveal_with_fuel(places, 9);
    let p = places(i);
    if i == 1 {
        assert(n / p == n / 0x100 && n % p == n % 0x100) by (nonlinear_arith)
            requires
                p == 0x100,
        ;
    } else if i == 2 {
        assert(n / p == n / 0x1_0000 && n % p == n % 0x1_0000) by (nonlinear_arith)
            requires
                p == 0x1_0000,
        ;
    } else if i == 3 {
        assert(n / p == n / 0x100_0000 && n % p == n % 0x100_0000) by (nonlinear_arith)
            requires
                p == 0x100_0000,
        ;
    } else if i == 4 {
        assert(n / p == n / 0x1_0000_0000 && n % p == n % 0x1_0000_0000) by (nonlinear_arith)
            requires
                p == 0x1_0000_0000,
        ;
    } else if i == 5 {
        assert(n / p == n / 0x100_0000_0000 && n % p == n % 0x100_0000_0000) by (nonlinear_arith)
            requires
                p == 0x100_0000_0000,
        ;
    } else if i == 6 {
        assert(n / p == n / 0x1_0000_0000_0000 && n % p == n % 0x1_0000_0000_0000) by (nonlinear_arith)
            requires
                p == 0x1_0000_0000_0000,
        ;
    } else if i == 7 {
        assert(n / p == n / 0x100_0000_0000_0000 && n % p == n % 0x100_0000_0000_0000) by (nonlinear_arith)
            requires
                p == 0x100_0000_0000_0000,
        ;
    } else if i == 8 {
        assert(n / p == n / 0x1_0000_0000_0000_0000 && n % p == n % 0x1_0000_0000_0000_0000) by (nonlinear_arith)
            requires
                p == 0x1_0000_0000_0000_0000,
        ;
    } else {
        assert(n / p == n && n % p == 0) by (nonlinear_arith)
            requires
                p == 1,
        ;
    }
}

/// 256 multiplied with itself `i` times.
spec fn places(i: nat) -> nat
    decreases i,
{
    if i == 0 {
        1
    } else {
        256 * places((i - 1) as nat)
    }
}

/// Bytes `at` to `at + len` of a number spell its part there.
proof fn lemma_part(n: nat, k: nat, at: nat, len: nat)
    requires
        at + len <= k,
    ensures
        crate::bytes::le_value(
            crate::bytes::le_bytes(n, k).subrange(at as int, (at + len) as int),
        ) == n / places(at) % places(len),
    decreases k,
{
    let s = crate::bytes::le_bytes(n, k);
    crate::bytes::lemma_le_bytes_len(n, k);
    let part = s.subrange(at as int, (at + len) as int);
    if len == 0 {
        lemma_places(n / places(at), 0);
    } else {
        let rest = crate::bytes::le_bytes(n / 256, (k - 1) as nat);
        crate::bytes::lemma_le_bytes_len(n / 256, (k - 1) as nat);
        if at == 0 {
            lemma_part(n / 256, (k - 1) as nat, 0, (len - 1) as nat);
            assert(part.subrange(1, part.len() as int) =~= rest.subrange(0, len - 1));
            let p = places((len - 1) as nat);
            lemma_places_positive((len - 1) as nat);
            assert(n % (256 * p) == n % 256 + 256 * (n / 256 % p)) by {
                vstd::arithmetic::div_mod::lemma_mod_breakdown(n as int, 256, p as int);
            }
            lemma_places(n, 0);
            lemma_places(n / 256, 0);
        } else {
            lemma_part(n / 256, (k - 1) as nat, (at - 1) as nat, len);
            assert(part =~= rest.subrange(at - 1, at - 1 + len));
            let p = places((at - 1) as nat);
            lemma_places_positive((at - 1) as nat);
            vstd::arithmetic::div_mod::lemma_div_denominator(n as int, 256, p as int);
        }
    }
}

proof fn lemma_places_positive(i: nat)
    ensures
        places(i) > 0,
    decreases i,
{
    if i > 0 {
        lemma_places_positive((i - 1) as nat);
    }
}

/// A kick and a reset wait for their turn behind what came before; no other status, and no write
/// to config space, changes anything.
pub proof fn law_kicks_wait_their_turn(
    a: &mut VirtioBlk,
    n: QueueNotify,
    b: &mut VirtioBlk,
    status: u32,
    c: &mut VirtioBlk,
    offset: u64,
    size: u8,
    value: u64,
)
    requires
        call_ensures(VirtioBlk::notify, (a, n), ()),
        call_ensures(VirtioBlk::status_changed, (b, status), ()),
        call_ensures(VirtioBlk::write_config, (c, offset, size, value), ()),
    ensures
        final(a)@ == (BlkView { kicks: old(a)@.kicks.push(Kick::Notify(n)), ..old(a)@ }),
        final(b)@ == (BlkView {
            kicks: if status == 0 {
                old(b)@.kicks.push(Kick::Reset)
            } else {
                old(b)@.kicks
            },
            ..old(b)@
        }),
        final(c)@ == old(c)@,
{
}

/// A kick works on the queue in use when its size and addresses are the same, and else on a new
/// one, with what the driver accepted: tables of descriptors by feature bit 28, event indices by
/// bit 29.
pub proof fn law_kicks_name_their_queue(current: Option<SplitQueue>, n: QueueNotify)
    ensures
        ({
            let q = queue_for(current, n);
            let same = current is Some && current->0.size == n.size && current->0.desc == n.desc
                && current->0.avail == n.avail && current->0.used == n.used;
            &&& same ==> q == current->0
            &&& !same ==> {
                &&& q.size == n.size && q.desc == n.desc && q.avail == n.avail && q.used == n.used
                &&& q.last_avail == 0 && q.used_idx == 0
                &&& q.indirect == (n.features / 0x1000_0000 % 2 == 1)
                &&& q.event_idx == (n.features / 0x2000_0000 % 2 == 1)
                &&& q.broken is None <==> vstd::arithmetic::power2::is_pow2(n.size as int) && n.desc
                    % 16 == 0 && n.avail % 2 == 0 && n.used % 4 == 0
            }
        }),
{
    let f = n.features;
    assert({
        &&& f & 0x1000_0000 != 0 <==> f / 0x1000_0000 % 2 == 1
        &&& f & 0x2000_0000 != 0 <==> f / 0x2000_0000 % 2 == 1
    }) by (bit_vector);
}

/// The steps of the I/O side. With nothing to do it is idle. A reset forgets the queue. A kick
/// takes every chain that the driver published. The chains are begun one by one; one that is
/// answered at once is recorded with its own head and length, and one that wants a transfer asks
/// for it and changes nothing else. After the last chain, the used-buffer interrupt, bit 0, is
/// raised if a chain was recorded and the driver wants to hear.
pub proof fn law_steps_follow_the_kicks(
    b: &mut VirtioBlk,
    mem: &mut GuestMemory,
    action: Action,
)
    requires
        call_ensures(VirtioBlk::step, (b, mem), action),
        old(b).wf(),
        old(b)@.pending is None,
    ensures
        ({
            let x = old(b)@;
            let y = final(b)@;
            let m = old(mem)@;
            &&& x.job is None && x.kicks.len() == 0 ==> y == x && final(mem)@ == m && action is Idle
            &&& x.job is None && x.kicks.len() > 0 && x.kicks[0] is Reset ==> y == (BlkView {
                kicks: x.kicks.subrange(1, x.kicks.len() as int),
                queue: None,
                ..x
            }) && final(mem)@ == m && action is Again
            &&& x.job is None && x.kicks.len() > 0 ==> (x.kicks[0] matches Kick::Notify(n) ==> {
                let (q, chains) = queue_for(x.queue, n).drained(m);
                &&& y == (BlkView {
                    kicks: x.kicks.subrange(1, x.kicks.len() as int),
                    queue: Some(q),
                    job: Some(JobView { chains, completed: false }),
                    ..x
                })
                &&& final(mem)@ == m && action is Again
            })
            &&& x.job matches Some(job) ==> (job.chains.len() == 0 ==> {
                &&& final(mem)@ == m && y.job is None
                &&& job.completed && x.queue->0.asked(m).1 <==> action == Action::Raise(1)
                &&& action == Action::Raise(1) || action is Again
                &&& y == (BlkView { job: None, queue: y.queue, ..x })
                &&& y.queue == Some(
                    if job.completed {
                        x.queue->0.asked(m).0
                    } else {
                        x.queue->0
                    },
                )
            })
            &&& x.job matches Some(job) ==> (job.chains.len() > 0 ==> match super::request::begun(
                m,
                x.backend,
                job.chains[0].readable,
                job.chains[0].writable,
                x.serial,
                x.stats,
            ) {
                BeginView::Wants(io, p) => {
                    &&& y == (BlkView { pending: Some(p), ..x }) && final(mem)@ == m
                    &&& action matches Action::Io(asked) && asked@ == io
                },
                BeginView::Finished(o) => {
                    &&& action is Again
                    &&& answered_first(x, o, y, final(mem)@)
                },
            })
        }),
{
}

/// The first chain of the job of `x` was answered with `o`: it is recorded in the used ring, with
/// its head and length, and leaves the job.
pub open spec fn answered_first(x: BlkView, o: Outcome, y: BlkView, after: Map<int, u8>) -> bool {
    let job = x.job->0;
    let (q, n, done) = x.queue->0.recorded(o.memory, job.chains[0].head, o.used);
    &&& after == n
    &&& y == (BlkView {
        stats: o.stats,
        queue: Some(q),
        job: Some(
            JobView {
                chains: job.chains.subrange(1, job.chains.len() as int),
                completed: job.completed || done,
            },
        ),
        pending: None,
        ..x
    })
}

/// The reply to a transfer answers the first chain of the job, which is then recorded.
pub proof fn law_replies_answer_the_first_chain(
    b: &mut VirtioBlk,
    mem: &mut GuestMemory,
    reply: IoReply,
)
    requires
        call_ensures(VirtioBlk::finish, (b, mem, reply), ()),
        old(b).wf(),
        old(b)@.pending is Some,
    ensures
        answered_first(
            old(b)@,
            super::request::completed(
                old(mem)@,
                old(b)@.job->0.chains[0].writable,
                old(b)@.pending->0,
                reply,
                old(b)@.stats,
            ),
            final(b)@,
            final(mem)@,
        ),
{
}

/// A request that is processed begins with its buffers, the image, the id, and the counters as
/// they are; its memory, counters, and length are those of its answer, and while it waits for its
/// transfer nothing has changed. Once that is done it is completed likewise.
pub proof fn law_requests_are_processed_as_begun(
    mem: &mut GuestMemory,
    backend: &FileBackend,
    chain: &Chain,
    serial: &Vec<u8>,
    stats: &mut BlkStats,
    r: Begin,
    later: &mut GuestMemory,
    counts: &mut BlkStats,
    pending: Pending,
    reply: IoReply,
    used: u32,
)
    requires
        call_ensures(super::request::process, (mem, backend, chain, serial, stats), r),
        call_ensures(super::request::complete, (later, chain, pending, reply, counts), used),
    ensures
        match super::request::begun(
            old(mem)@,
            *backend,
            chain.readable@,
            chain.writable@,
            serial@,
            *old(stats),
        ) {
            BeginView::Finished(o) => {
                r == Begin::Finished(o.used) && o.memory == final(mem)@ && o.stats == *final(stats)
            },
            BeginView::Wants(io, p) => {
                &&& r matches Begin::Wants(x, y) && x@ == io && y == p
                &&& final(mem)@ == old(mem)@ && *final(stats) == *old(stats)
            },
        },
        super::request::completed(old(later)@, chain.writable@, pending, reply, *old(counts)) == (
        Outcome { memory: final(later)@, stats: *final(counts), used }),
{
}

/// The image: its size in sectors, whether it takes writes, and which reads and writes begin.
pub proof fn law_images_have_whole_sectors(
    len: u64,
    read_only: bool,
    b: FileBackend,
    sectors: u64,
    ro: bool,
    n: usize,
    data: Vec<u8>,
    offset: u64,
    read: Result<ReadAt, TransferError>,
    write: Result<WriteAt, TransferError>,
)
    requires
        call_ensures(FileBackend::new, (len, read_only), b),
        call_ensures(FileBackend::capacity, (&b,), sectors),
        call_ensures(FileBackend::read_only, (&b,), ro),
        call_ensures(FileBackend::read_at, (&b, n, offset), read),
        call_ensures(FileBackend::write_at, (&b, data, offset), write),
    ensures
        512 * sectors <= len < 512 * sectors + 512,
        ro == read_only,
        offset + n <= 512 * sectors ==> (read matches Ok(t) && t.start() == offset && t.total() == n
            && t.got().len() == 0),
        offset + n > 512 * sectors ==> (read matches Err(e) && e is ReadPastEnd),
        read_only ==> (write matches Err(e) && e is ReadOnly),
        !read_only && offset + data@.len() > 512 * sectors ==> (write matches Err(e)
            && e is WritePastEnd),
        !read_only && offset + data@.len() <= 512 * sectors ==> (write matches Ok(t) && t.start()
            == offset && t.bytes() == data@ && t.taken() == 0),
{
}

/// A read asks for what is missing, in order, takes every byte that it is given, and fills the
/// rest with zeros once there are no more.
pub proof fn law_reads_take_what_they_are_given(
    t: &ReadAt,
    next: Option<(u64, usize)>,
    u: &mut ReadAt,
    chunk: &[u8],
    v: ReadAt,
    out: Vec<u8>,
)
    requires
        t.wf(),
        old(u).wf(),
        call_ensures(ReadAt::next, (t,), next),
        call_ensures(ReadAt::feed, (u, chunk), ()),
        call_ensures(ReadAt::into_bytes, (v,), out),
        chunk@.len() <= old(u).total() - old(u).got().len(),
    ensures
        t.got().len() == t.total() <==> next is None,
        next matches Some((at, n)) ==> at == t.start() + t.got().len() && t.got().len() + n
            == t.total(),
        final(u).start() == old(u).start() && final(u).total() == old(u).total(),
        forall|i: int|
            0 <= i < old(u).got().len() ==> #[trigger] final(u).got()[i] == old(u).got()[i],
        chunk@.len() > 0 ==> final(u).got().len() == old(u).got().len() + chunk@.len(),
        chunk@.len() == 0 ==> final(u).got().len() == old(u).total(),
        forall|i: int|
            old(u).got().len() <= i < final(u).got().len() ==> #[trigger] final(u).got()[i] == if chunk@.len()
                > 0 {
                chunk@[i - old(u).got().len()]
            } else {
                0
            },
        out@ == v.got(),
{
}

/// A write hands out the bytes that the file has not taken, from where they go; it counts those
/// that the file took, and fails where the file took none.
pub proof fn law_writes_go_on_where_the_file_stopped(
    t: &WriteAt,
    next: Option<(u64, &[u8])>,
    u: &mut WriteAt,
    n: usize,
    r: Result<(), TransferError>,
)
    requires
        t.wf(),
        call_ensures(WriteAt::next, (t,), next),
        call_ensures(WriteAt::wrote, (u, n), r),
    ensures
        t.taken() == t.bytes().len() <==> next is None,
        next matches Some((at, rest)) ==> {
            &&& at == t.start() + t.taken()
            &&& rest@.len() == t.bytes().len() - t.taken()
            &&& forall|i: int|
                0 <= i < rest@.len() ==> #[trigger] rest@[i] == t.bytes()[t.taken() + i]
        },
        n == 0 ==> (r matches Err(e) && e is ShortWrite),
        n > 0 ==> r is Ok,
        final(u).start() == old(u).start() && final(u).bytes() == old(u).bytes(),
        final(u).taken() == old(u).taken() + n,
{
}

/// Counters start at zero and are shown as they are; an image that cannot be opened is named.
pub proof fn law_counters_are_shown(
    zero: BlkStats,
    s: BlkStats,
    shown: (u64, u64, u64),
    e: VirtioBlkError,
    text: String,
)
    requires
        call_ensures(BlkStats::new, (), zero),
        call_ensures(BlkStats::snapshot, (&s,), shown),
        call_ensures(VirtioBlkError::message, (&e,), text),
    ensures
        zero.reqs == 0 && zero.bytes == 0 && zero.errors == 0,
        shown.0 == s.reqs && shown.1 == s.bytes && shown.2 == s.errors,
        match e {
            VirtioBlkError::Open { path, source } => text@ == "open virtio-blk image "@ + path@
                + ": "@ + source@,
        },
{
}

/// The bytes of a file, and zeros behind its end.
pub proof fn law_files_read_as_zero_behind_their_end(content: Seq<u8>, offset: int, len: nat, i: int)
    requires
        0 <= i < len,
        0 <= offset,
    ensures
        super::backend::file_range(content, offset, len).len() == len,
        offset + i < content.len() ==> super::backend::file_range(content, offset, len)[i]
            == content[offset + i],
        offset + i >= content.len() ==> super::backend::file_range(content, offset, len)[i] == 0,
{
}

} // verus!
