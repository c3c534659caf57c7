//! What holds of every virtio-blk device.
use vstd::prelude::*;

use super::backend::{FileBackend, WriteAt};
use super::worker::{queue_for, ActionView, INT_VRING};
use super::{BlkStats, BlkView, Kick, VIRTIO_BLK_S_OK};
use crate::virtio::queue::Buffer;
use crate::virtio::QueueNotify;

verus! {

broadcast use vstd::group_vstd_default;

/// A transfer that a request wants lies inside the image. A write is never wanted of a read-only
/// image, and brings exactly the payload.
pub proof fn law_transfers_stay_inside_the_image(
    m: Map<int, u8>,
    backend: FileBackend,
    readable: Seq<Buffer>,
    writable: Seq<Buffer>,
    serial: Seq<u8>,
    stats: BlkStats,
)
    requires
        backend.wf(),
    ensures
        super::request::begun(m, backend, readable, writable, serial, stats) matches
            super::request::BeginView::Wants(io, pending) ==> match io {
            super::request::IoView::Read { offset, len } => {
                &&& offset + len <= backend.size()
                &&& pending.reads && pending.len == len
            },
            super::request::IoView::Write { offset, data } => {
                &&& offset + data.len() <= backend.size()
                &&& !backend.is_read_only()
                &&& !pending.reads && pending.len == data.len()
            },
            super::request::IoView::Flush => !pending.reads,
        },
{
    match super::request::header_of(m, readable, writable) {
        None => {},
        Some(h) => {
            let len = super::request::payload_len(readable, writable, h.ty);
            super::request::lemma_gathered_len(
                m,
                super::request::without_front(readable, super::HEADER_BYTES as nat),
                len as nat,
            );
        },
    }
}

/// The counters tell the status byte: a request that reads zero there counts its payload and no
/// error, any other counts an error and no payload. Either way it counts as one request.
pub open spec fn told(
    before: BlkStats,
    o: super::request::Outcome,
    status: u64,
    payload: u32,
) -> bool {
    o.stats == if o.memory[status as int] == VIRTIO_BLK_S_OK {
        before.after_ok(payload)
    } else {
        before.after_error()
    }
}

pub(crate) proof fn lemma_scattered_dom(m: Map<int, u8>, bufs: Seq<Buffer>, data: Seq<u8>)
    ensures
        super::request::scattered(m, bufs, data).memory.dom() == m.dom(),
    decreases bufs.len(),
{
    if data.len() > 0 && bufs.len() > 0 {
        let take: int = if bufs[0].len < data.len() {
            bufs[0].len as int
        } else {
            data.len() as int
        };
        let next = crate::memory::with_bytes(m, bufs[0].addr as int, data.take(take));
        crate::memory::lemma_write_keeps_mapped(m, bufs[0].addr as int, data.take(take));
        lemma_scattered_dom(next, bufs.skip(1), data.skip(take));
    }
}

/// A request that is answered without a transfer leaves a status byte that agrees with the
/// counters.
pub proof fn law_status_agrees_with_the_counters(
    m: Map<int, u8>,
    backend: FileBackend,
    readable: Seq<Buffer>,
    writable: Seq<Buffer>,
    serial: Seq<u8>,
    stats: BlkStats,
)
    requires
        serial.len() == super::ID_BYTES,
        super::request::status_at(writable) is Some,
        m.dom().contains(super::request::status_at(writable)->0 as int),
    ensures
        super::request::begun(m, backend, readable, writable, serial, stats) matches
            super::request::BeginView::Finished(o) ==> told(
            stats,
            o,
            super::request::status_at(writable)->0,
            (o.used - 1) as u32,
        ) && o.used >= 1,
{
    lemma_scattered_dom(m, super::request::data_area(writable), serial);
    super::request::lemma_spread_count(m, super::request::data_area(writable), serial);
}

/// A request that is answered after its transfer leaves a status byte that agrees with the
/// counters. A failed transfer is an error.
pub proof fn law_completion_agrees_with_the_counters(
    m: Map<int, u8>,
    writable: Seq<Buffer>,
    pending: super::request::Pending,
    reply: super::request::IoReply,
    stats: BlkStats,
)
    requires
        pending.wf(),
        pending.fits(reply),
        m.dom().contains(pending.status as int),
    ensures
        ({
            let o = super::request::completed(m, writable, pending, reply, stats);
            &&& told(
                stats,
                o,
                pending.status,
                if pending.reads {
                    (o.used - 1) as u32
                } else {
                    pending.len
                },
            )
            &&& o.used >= 1
            &&& reply is Failed ==> o.memory[pending.status as int] == super::VIRTIO_BLK_S_IOERR
            &&& !(reply is Failed) && !pending.reads ==> o.memory[pending.status as int]
                == VIRTIO_BLK_S_OK
        }),
{
    match reply {
        super::request::IoReply::Done { data } => {
            lemma_scattered_dom(m, super::request::data_area(writable), data@);
            super::request::lemma_spread_count(m, super::request::data_area(writable), data@);
        },
        super::request::IoReply::Failed => {},
    }
}

/// Payload bytes of a request that succeeds: for a read all writable bytes but the status byte,
/// for a write all readable bytes but the header, for an id as much of it as there is room for.
pub open spec fn payload(readable: Seq<Buffer>, writable: Seq<Buffer>, ty: u32) -> nat {
    let room = (super::request::total_len(writable) - 1) as nat;
    if ty == super::VIRTIO_BLK_T_IN {
        room
    } else if ty == super::VIRTIO_BLK_T_OUT {
        (super::request::total_len(readable) - super::HEADER_BYTES) as nat
    } else if ty == super::VIRTIO_BLK_T_GET_ID {
        super::request::smaller(super::ID_BYTES as nat, room)
    } else {
        0
    }
}

/// A request that has a header and a mapped status byte, from beginning to end: it counts as one
/// request; its payload counts exactly when the status byte reads zero, and an error exactly when
/// it does not. The status byte is zero, an I/O error, or, exactly for the types that are not
/// known, not supported. Success reports the bytes brought and the status byte; an error where
/// the buffers are mapped reports the status byte alone.
pub proof fn law_requests_are_counted(
    m: Map<int, u8>,
    backend: FileBackend,
    readable: Seq<Buffer>,
    writable: Seq<Buffer>,
    serial: Seq<u8>,
    stats: BlkStats,
    reply: super::request::IoReply,
)
    requires
        backend.wf(),
        serial.len() == super::ID_BYTES,
        super::request::header_of(m, readable, writable) matches Some(h) && m.dom().contains(
            h.status as int,
        ),
        super::request::total_len(readable) <= u32::MAX,
        super::request::total_len(writable) <= u32::MAX,
        super::request::begun(m, backend, readable, writable, serial, stats) matches
            super::request::BeginView::Wants(_, pending) ==> pending.fits(reply),
    ensures
        ({
            let h = super::request::header_of(m, readable, writable)->0;
            let o = super::request::served(m, backend, readable, writable, serial, stats, reply);
            let status = o.memory[h.status as int];
            let ok = status == VIRTIO_BLK_S_OK;
            let bytes = payload(readable, writable, h.ty);
            &&& o.stats == (BlkStats {
                reqs: super::counted(stats.reqs, 1),
                bytes: if ok {
                    super::counted(stats.bytes, bytes as u64)
                } else {
                    stats.bytes
                },
                errors: if ok {
                    stats.errors
                } else {
                    super::counted(stats.errors, 1)
                },
            })
            &&& ok || status == super::VIRTIO_BLK_S_IOERR || status == super::VIRTIO_BLK_S_UNSUPP
            &&& status == super::VIRTIO_BLK_S_UNSUPP <==> h.ty != super::VIRTIO_BLK_T_IN && h.ty
                != super::VIRTIO_BLK_T_OUT && h.ty != super::VIRTIO_BLK_T_FLUSH && h.ty
                != super::VIRTIO_BLK_T_GET_ID
            &&& ok && (h.ty == super::VIRTIO_BLK_T_IN || h.ty == super::VIRTIO_BLK_T_GET_ID)
                ==> o.used == bytes + 1
            &&& ok && (h.ty == super::VIRTIO_BLK_T_OUT || h.ty == super::VIRTIO_BLK_T_FLUSH)
                ==> o.used == 1
            &&& !ok && all_mapped(m, super::request::data_area(writable)) ==> o.used == 1
        }),
{
    let h = super::request::header_of(m, readable, writable)->0;
    let area = super::request::data_area(writable);
    lemma_data_area(writable);
    lemma_scattered_dom(m, area, serial);
    super::request::lemma_spread_count(m, area, serial);
    lemma_header_len(m, readable);
    if all_mapped(m, area) {
        lemma_scatter_reaches(m, area, serial);
    }
    match reply {
        super::request::IoReply::Done { data } => {
            lemma_scattered_dom(m, area, data@);
            super::request::lemma_spread_count(m, area, data@);
            if all_mapped(m, area) {
                lemma_scatter_reaches(m, area, data@);
            }
        },
        super::request::IoReply::Failed => {},
    }
}

/// A chain with a header has that many readable bytes.
proof fn lemma_header_len(m: Map<int, u8>, readable: Seq<Buffer>)
    ensures
        super::request::gathered(m, readable, super::HEADER_BYTES as nat) is Some
            ==> super::request::total_len(readable) >= super::HEADER_BYTES,
{
    lemma_gathered_total(m, readable, super::HEADER_BYTES as nat);
}

pub(crate) proof fn lemma_gathered_total(m: Map<int, u8>, bufs: Seq<Buffer>, n: nat)
    ensures
        super::request::gathered(m, bufs, n) is Some ==> super::request::total_len(bufs) >= n,
    decreases bufs.len(),
{
    if n > 0 && bufs.len() > 0 {
        let take = if bufs[0].len < n {
            bufs[0].len as nat
        } else {
            n
        };
        super::request::lemma_total_front(bufs);
        lemma_gathered_total(m, bufs.skip(1), (n - take) as nat);
    }
}

/// Bytes spread over mapped buffers find memory.
pub(crate) proof fn lemma_scatter_reaches(m: Map<int, u8>, bufs: Seq<Buffer>, data: Seq<u8>)
    requires
        all_mapped(m, bufs),
    ensures
        super::request::scattered(m, bufs, data).ok,
    decreases bufs.len(),
{
    if data.len() > 0 && bufs.len() > 0 {
        let take: int = if bufs[0].len < data.len() {
            bufs[0].len as int
        } else {
            data.len() as int
        };
        let at = bufs[0].addr as int;
        let next = crate::memory::with_bytes(m, at, data.take(take));
        crate::memory::lemma_write_keeps_mapped(m, at, data.take(take));
        assert forall|a: int| at <= a < at + take implies #[trigger] m.dom().contains(a) by {
            assert(inside(bufs[0], a));
        }
        assert forall|i: int, a: int|
            0 <= i < bufs.skip(1).len() && #[trigger] inside(
                bufs.skip(1)[i],
                a,
            ) implies next.dom().contains(a) by {
            assert(inside(bufs[i + 1], a));
        }
        lemma_scatter_reaches(next, bufs.skip(1), data.skip(take));
    }
}

/// The buffers share no byte.
pub open spec fn disjoint(bufs: Seq<Buffer>) -> bool {
    forall|i: int, j: int, a: int|
        0 <= i < j < bufs.len() && #[trigger] inside(bufs[i], a) ==> !(#[trigger] inside(
            bufs[j],
            a,
        ))
}

/// `a` is an address of `b`.
pub open spec fn inside(b: Buffer, a: int) -> bool {
    b.addr <= a < b.addr + b.len
}

/// Every byte of every buffer is mapped.
pub open spec fn all_mapped(m: Map<int, u8>, bufs: Seq<Buffer>) -> bool {
    forall|i: int, a: int|
        0 <= i < bufs.len() && #[trigger] inside(bufs[i], a) ==> m.dom().contains(a)
}

pub(crate) proof fn lemma_scattered_elsewhere(m: Map<int, u8>, bufs: Seq<Buffer>, data: Seq<u8>, a: int)
    requires
        m.dom().contains(a),
        forall|i: int| 0 <= i < bufs.len() ==> !inside(#[trigger] bufs[i], a),
    ensures
        super::request::scattered(m, bufs, data).memory[a] == m[a],
    decreases bufs.len(),
{
    if data.len() > 0 && bufs.len() > 0 {
        let take: int = if bufs[0].len < data.len() {
            bufs[0].len as int
        } else {
            data.len() as int
        };
        let next = crate::memory::with_bytes(m, bufs[0].addr as int, data.take(take));
        assert(!inside(bufs[0], a));
        assert(next[a] == m[a]);
        assert forall|i: int| 0 <= i < bufs.skip(1).len() implies !inside(
            #[trigger] bufs.skip(1)[i],
            a,
        ) by {
            assert(bufs.skip(1)[i] == bufs[i + 1]);
        }
        lemma_scattered_elsewhere(next, bufs.skip(1), data.skip(take), a);
    }
}

proof fn lemma_gathered_same(m: Map<int, u8>, n: Map<int, u8>, bufs: Seq<Buffer>, len: nat)
    requires
        n.dom() == m.dom(),
        forall|i: int, a: int|
            0 <= i < bufs.len() && #[trigger] inside(bufs[i], a) ==> m.dom().contains(a) && n[a]
                == m[a],
    ensures
        super::request::gathered(n, bufs, len) == super::request::gathered(m, bufs, len),
    decreases bufs.len(),
{
    if len > 0 && bufs.len() > 0 {
        let take = if bufs[0].len < len {
            bufs[0].len as nat
        } else {
            len
        };
        assert(crate::memory::mapped(n, bufs[0].addr as int, take as int)
            == crate::memory::mapped(m, bufs[0].addr as int, take as int));
        assert forall|i: int| 0 <= i < take implies #[trigger] crate::memory::bytes_at(
            n,
            bufs[0].addr as int,
            take,
        )[i] == crate::memory::bytes_at(m, bufs[0].addr as int, take)[i] by {
            assert(inside(bufs[0], bufs[0].addr + i));
        }
        assert(crate::memory::bytes_at(n, bufs[0].addr as int, take) =~= crate::memory::bytes_at(
            m,
            bufs[0].addr as int,
            take,
        ));
        assert forall|i: int, a: int|
            0 <= i < bufs.skip(1).len() && #[trigger] inside(bufs.skip(1)[i], a) implies m.dom().contains(
        a) && n[a] == m[a] by {
            assert(inside(bufs[i + 1], a));
        }
        lemma_gathered_same(m, n, bufs.skip(1), (len - take) as nat);
    }
}

/// Bytes spread over disjoint mapped buffers with room for them are read back from them.
pub proof fn law_scattered_bytes_are_gathered(m: Map<int, u8>, bufs: Seq<Buffer>, data: Seq<u8>)
    requires
        disjoint(bufs),
        all_mapped(m, bufs),
        data.len() <= super::request::total_len(bufs),
    ensures
        super::request::scattered(m, bufs, data).ok,
        super::request::gathered(
            super::request::scattered(m, bufs, data).memory,
            bufs,
            data.len(),
        ) == Some(data),
    decreases bufs.len(),
{
    if data.len() == 0 {
        assert(data =~= Seq::<u8>::empty());
    } else if bufs.len() > 0 {
        let take: int = if bufs[0].len < data.len() {
            bufs[0].len as int
        } else {
            data.len() as int
        };
        let at = bufs[0].addr as int;
        let rest = bufs.skip(1);
        let next = crate::memory::with_bytes(m, at, data.take(take));
        super::request::lemma_total_front(bufs);
        crate::memory::lemma_write_keeps_mapped(m, at, data.take(take));
        assert forall|a: int| at <= a < at + take implies #[trigger] m.dom().contains(a) by {
            assert(inside(bufs[0], a));
        }
        assert forall|i: int, j: int, a: int|
            0 <= i < j < rest.len() && #[trigger] inside(rest[i], a) implies !(#[trigger] inside(
            rest[j],
            a,
        )) by {
            assert(rest[i] == bufs[i + 1] && rest[j] == bufs[j + 1]);
            assert(inside(bufs[i + 1], a));
        }
        assert forall|i: int, a: int|
            0 <= i < rest.len() && #[trigger] inside(rest[i], a) implies next.dom().contains(
        a) by {
            assert(inside(bufs[i + 1], a));
        }
        law_scattered_bytes_are_gathered(next, rest, data.skip(take));
        lemma_scattered_dom(next, rest, data.skip(take));
        let after = super::request::scattered(next, rest, data.skip(take)).memory;
        assert forall|k: int| 0 <= k < take implies #[trigger] crate::memory::bytes_at(
            after,
            at,
            take as nat,
        )[k] == data.take(take)[k] by {
            let a = at + k;
            assert(inside(bufs[0], a));
            assert forall|i: int| 0 <= i < rest.len() implies !inside(#[trigger] rest[i], a) by {
                assert(rest[i] == bufs[i + 1]);
                assert(!inside(bufs[i + 1], a));
            }
            assert(next.dom().contains(a));
            lemma_scattered_elsewhere(next, rest, data.skip(take), a);
        }
        assert(crate::memory::bytes_at(after, at, take as nat) =~= data.take(take));
        assert(crate::memory::mapped(after, at, take));
        assert(data.take(take) + data.skip(take) =~= data);
    }
}

/// `disk` with `data` at `offset`.
pub open spec fn disk_with(disk: Seq<u8>, offset: int, data: Seq<u8>) -> Seq<u8> {
    Seq::new(
        disk.len(),
        |i: int|
            if offset <= i < offset + data.len() {
                data[i - offset]
            } else {
                disk[i]
            },
    )
}

/// `disk` became `now` by the part of the write that was taken so far.
pub open spec fn write_agrees(w: WriteAt, disk: Seq<u8>, now: Seq<u8>) -> bool {
    now == disk_with(disk, w.start() as int, w.bytes().take(w.taken() as int))
}

/// A write that is taken by the file bit by bit ends up there whole, and nothing else changes. Each
/// time the file takes some front part of what was offered, at the place that was named.
pub proof fn law_write_reaches_the_file(
    before: WriteAt,
    after: WriteAt,
    disk: Seq<u8>,
    now: Seq<u8>,
    n: nat,
)
    requires
        before.wf(),
        write_agrees(before, disk, now),
        n <= before.bytes().len() - before.taken(),
        after.start() == before.start(),
        after.bytes() == before.bytes(),
        after.taken() == before.taken() + n,
    ensures
        ({
            let taken = before.taken() as int;
            let next = disk_with(
                now,
                before.start() + taken,
                before.bytes().subrange(taken, before.bytes().len() as int).take(n as int),
            );
            &&& write_agrees(after, disk, next)
            &&& after.complete() ==> next == disk_with(disk, after.start() as int, after.bytes())
        }),
{
    let taken = before.taken() as int;
    let next = disk_with(
        now,
        before.start() + taken,
        before.bytes().subrange(taken, before.bytes().len() as int).take(n as int),
    );
    let want = disk_with(disk, after.start() as int, after.bytes().take(after.taken() as int));
    assert(next =~= want);
    if after.complete() {
        assert(after.bytes().take(after.taken() as int) =~= after.bytes());
    }
}

pub(crate) proof fn lemma_data_area(writable: Seq<Buffer>)
    requires
        writable.len() > 0,
        writable.last().len > 0,
    ensures
        ({
            let all = super::request::without_last_byte(writable);
            let area = super::request::data_area(writable);
            &&& super::request::total_len(area) + 1 == super::request::total_len(writable)
            &&& area.len() <= all.len() == writable.len()
            &&& forall|i: int| 0 <= i < area.len() ==> #[trigger] area[i] == all[i]
        }),
{
    let all = super::request::without_last_byte(writable);
    let area = super::request::data_area(writable);
    assert(all.drop_last() =~= writable.drop_last());
    super::request::lemma_without_empty_tail(all);
    assert forall|i: int| 0 <= i < area.len() implies #[trigger] area[i] == all[i] by {
        assert(area[i] == all.take(area.len() as int)[i]);
    }
}

/// The addresses of the buffers' bytes, in order.
pub open spec fn addresses(bufs: Seq<Buffer>) -> Seq<int>
    decreases bufs.len(),
{
    if bufs.len() == 0 {
        Seq::empty()
    } else {
        addresses(bufs.drop_last()) + Seq::new(
            bufs.last().len as nat,
            |i: int| bufs.last().addr + i,
        )
    }
}

proof fn lemma_addresses_without_empty_tail(bufs: Seq<Buffer>)
    ensures
        addresses(super::request::without_empty_tail(bufs)) == addresses(bufs),
    decreases bufs.len(),
{
    if bufs.len() > 0 && bufs.last().len == 0 {
        lemma_addresses_without_empty_tail(bufs.drop_last());
        assert(addresses(bufs) =~= addresses(bufs.drop_last()));
    }
}

/// The data area and the status byte after it are the writable bytes of a chain, each once and in
/// order; and the data area does not end in an empty buffer.
pub proof fn law_status_byte_follows_the_data(writable: Seq<Buffer>)
    requires
        writable.len() > 0,
        writable.last().len > 0,
        writable.last().addr + writable.last().len - 1 <= u64::MAX,
    ensures
        ({
            let area = super::request::data_area(writable);
            &&& super::request::status_at(writable) matches Some(at) && addresses(writable)
                == addresses(area).push(at as int)
            &&& area.len() > 0 ==> area.last().len > 0
        }),
{
    let all = super::request::without_last_byte(writable);
    super::request::lemma_without_empty_tail(all);
    lemma_addresses_without_empty_tail(all);
    assert(all.drop_last() =~= writable.drop_last());
    let at = super::request::status_at(writable)->0;
    assert(addresses(writable) =~= addresses(all).push(at as int));
}

/// The used length counts the bytes that the device wrote for the guest and the status byte. An
/// id request brings as much of the id as there is room for before the status byte, and counts
/// that much as payload.
pub proof fn law_ids_fill_what_there_is_room_for(
    m: Map<int, u8>,
    backend: FileBackend,
    readable: Seq<Buffer>,
    writable: Seq<Buffer>,
    serial: Seq<u8>,
    stats: BlkStats,
)
    requires
        serial.len() == super::ID_BYTES,
        super::request::header_of(m, readable, writable) matches Some(h) && h.ty
            == super::VIRTIO_BLK_T_GET_ID && m.dom().contains(h.status as int),
        super::request::scattered(m, super::request::data_area(writable), serial).ok,
    ensures
        ({
            let room = (super::request::total_len(writable) - 1) as nat;
            let n = super::request::smaller(super::ID_BYTES as nat, room);
            &&& super::request::begun(m, backend, readable, writable, serial, stats) matches
                super::request::BeginView::Finished(o) && o.used == n + 1 && o.stats
                == stats.after_ok(n as u32)
        }),
{
    let area = super::request::data_area(writable);
    lemma_data_area(writable);
    super::request::lemma_spread_count(m, area, serial);
    lemma_scattered_dom(m, area, serial);
}

/// A read gives back what a write wrote. A write request puts its payload at the sectors it
/// names, and a later read request of the same bytes finds it there, brings it into the guest's
/// buffers, and reports success, provided that those buffers are mapped and share no byte.
pub proof fn law_reads_give_back_writes(
    backend: FileBackend,
    disk: Seq<u8>,
    m_out: Map<int, u8>,
    readable_out: Seq<Buffer>,
    writable_out: Seq<Buffer>,
    m_in: Map<int, u8>,
    readable_in: Seq<Buffer>,
    writable_in: Seq<Buffer>,
    serial: Seq<u8>,
    stats_out: BlkStats,
    stats: BlkStats,
    reply: super::request::IoReply,
)
    requires
        backend.wf(),
        disk.len() == backend.size(),
        super::request::begun(m_out, backend, readable_out, writable_out, serial, stats_out) is Wants,
        super::request::begun(m_in, backend, readable_in, writable_in, serial, stats) is Wants,
        ({
            let out = super::request::begun(
                m_out,
                backend,
                readable_out,
                writable_out,
                serial,
                stats_out,
            )->Wants_0;
            let (io, pending) = {
                let b = super::request::begun(
                    m_in,
                    backend,
                    readable_in,
                    writable_in,
                    serial,
                    stats,
                );
                (b->Wants_0, b->Wants_1)
            };
            &&& out is Write
            &&& io is Read
            &&& io->Read_offset == out->Write_offset
            &&& io->Read_len == out->data.len()
            &&& reply matches super::request::IoReply::Done { data } && data@
                == super::backend::file_range(
                disk_with(disk, out->Write_offset as int, out->data),
                io->Read_offset as int,
                io->Read_len as nat,
            )
        }),
        disjoint(writable_in),
        all_mapped(m_in, writable_in),
        writable_in.last().addr + writable_in.last().len - 1 <= u64::MAX,
    ensures
        ({
            let data = super::request::begun(
                m_out,
                backend,
                readable_out,
                writable_out,
                serial,
                stats_out,
            )->Wants_0->data;
            let pending = super::request::begun(
                m_in,
                backend,
                readable_in,
                writable_in,
                serial,
                stats,
            )->Wants_1;
            let o = super::request::completed(m_in, writable_in, pending, reply, stats);
            &&& reply matches super::request::IoReply::Done { data: got } && got@ == data
            &&& super::request::gathered(
                o.memory,
                super::request::data_area(writable_in),
                data.len(),
            ) == Some(data)
            &&& o.memory[pending.status as int] == VIRTIO_BLK_S_OK
            &&& o.used == data.len() + 1
            &&& o.stats == stats.after_ok(data.len() as u32)
        }),
{
    let b_out = super::request::begun(m_out, backend, readable_out, writable_out, serial, stats_out);
    let b_in = super::request::begun(m_in, backend, readable_in, writable_in, serial, stats);
    let offset = b_out->Wants_0->Write_offset as int;
    let data = b_out->Wants_0->data;
    let pending = b_in->Wants_1;
    law_transfers_stay_inside_the_image(
        m_out,
        backend,
        readable_out,
        writable_out,
        serial,
        stats_out,
    );
    law_transfers_stay_inside_the_image(m_in, backend, readable_in, writable_in, serial, stats);
    let got = super::backend::file_range(disk_with(disk, offset, data), offset, data.len());
    assert(got =~= data);
    let area = super::request::data_area(writable_in);
    let last = writable_in.last();
    assert(writable_in.len() > 0 && last.len > 0);
    let status = pending.status as int;
    assert(status == last.addr + last.len - 1);
    let n = writable_in.len() - 1;
    lemma_data_area(writable_in);
    assert forall|i: int, a: int| 0 <= i < area.len() && #[trigger] inside(area[i], a) implies inside(
        writable_in[i],
        a,
    ) && a != status by {
        if i < n {
            assert(super::request::without_last_byte(writable_in)[i] == writable_in[i]);
            if a == status {
                assert(inside(writable_in[i], a));
                assert(inside(writable_in[n], a));
            }
        }
    }
    assert forall|i: int, j: int, a: int|
        0 <= i < j < area.len() && #[trigger] inside(area[i], a) implies !(#[trigger] inside(
        area[j],
        a,
    )) by {
        assert(inside(writable_in[i], a));
        if inside(area[j], a) {
            assert(inside(writable_in[j], a));
        }
    }
    assert(all_mapped(m_in, area));
    assert(data.len() <= super::request::total_len(area));
    law_scattered_bytes_are_gathered(m_in, area, data);
    lemma_scattered_dom(m_in, area, data);
    super::request::lemma_spread_count(m_in, area, data);
    let after = super::request::scattered(m_in, area, data).memory;
    assert(inside(writable_in[n], status));
    assert(after.dom().contains(status));
    let end = crate::memory::with_bytes(after, status, seq![VIRTIO_BLK_S_OK]);
    crate::memory::lemma_write_keeps_mapped(after, status, seq![VIRTIO_BLK_S_OK]);
    assert forall|i: int, a: int| 0 <= i < area.len() && #[trigger] inside(area[i], a) implies after.dom().contains(
    a) && end[a] == after[a] by {
        assert(inside(writable_in[i], a));
    }
    lemma_gathered_same(after, end, area, data.len());
}

/// The image `disk` did what a request asked of it and became `after`: a read brings the bytes that
/// are there, a write that succeeds leaves its bytes at their place, and nothing else changes it.
pub open spec fn image_did(
    disk: Seq<u8>,
    begin: super::request::BeginView,
    reply: super::request::IoReply,
    after: Seq<u8>,
) -> bool {
    match (begin, reply) {
        (
            super::request::BeginView::Wants(super::request::IoView::Read { offset, len }, _),
            super::request::IoReply::Done { data },
        ) => data@ == super::backend::file_range(disk, offset as int, len as nat) && after == disk,
        (
            super::request::BeginView::Wants(super::request::IoView::Write { offset, data }, _),
            super::request::IoReply::Done { .. },
        ) => after == disk_with(disk, offset as int, data),
        (
            super::request::BeginView::Wants(super::request::IoView::Write { .. }, _),
            super::request::IoReply::Failed,
        ) => after.len() == disk.len(),
        _ => after == disk,
    }
}

/// A write request that reports success, then a read request of the same sector with room for as
/// many bytes and the status byte, on an image that nothing else changed: the read puts the
/// payload of the write into the writable bytes in order, reports success in the last one,
/// counts both as used, and leaves the image as it is. The writable buffers are mapped, share no
/// byte, and lie inside the address space.
pub proof fn law_written_payload_is_read_back(
    backend: FileBackend,
    disks: (Seq<u8>, Seq<u8>, Seq<u8>),
    m_out: Map<int, u8>,
    out: crate::virtio::queue::ChainView,
    reply_out: super::request::IoReply,
    m_in: Map<int, u8>,
    back: crate::virtio::queue::ChainView,
    reply_in: super::request::IoReply,
    serial: Seq<u8>,
    stats_out: BlkStats,
    stats_in: BlkStats,
)
    requires
        backend.wf(),
        serial.len() == super::ID_BYTES,
        disks.0.len() == backend.size(),
        // The write reported success.
        super::request::header_of(m_out, out.readable, out.writable) matches Some(h) && h.ty
            == super::VIRTIO_BLK_T_OUT && m_out.dom().contains(h.status as int)
            && super::request::served(
            m_out,
            backend,
            out.readable,
            out.writable,
            serial,
            stats_out,
            reply_out,
        ).memory[h.status as int] == VIRTIO_BLK_S_OK,
        super::request::total_len(out.readable) <= u32::MAX,
        image_did(
            disks.0,
            super::request::begun(m_out, backend, out.readable, out.writable, serial, stats_out),
            reply_out,
            disks.1,
        ),
        // The read is of the same sector.
        super::request::header_of(m_in, back.readable, back.writable) matches Some(h) && h.ty
            == super::VIRTIO_BLK_T_IN && h.sector == super::request::header_of(
            m_out,
            out.readable,
            out.writable,
        )->0.sector,
        super::request::total_len(back.writable) == payload(
            out.readable,
            out.writable,
            super::VIRTIO_BLK_T_OUT,
        ) + 1,
        disjoint(back.writable),
        all_mapped(m_in, back.writable),
        back.writable.last().addr + back.writable.last().len - 1 <= u64::MAX,
        !(reply_in is Failed),
        image_did(
            disks.1,
            super::request::begun(m_in, backend, back.readable, back.writable, serial, stats_in),
            reply_in,
            disks.2,
        ),
    ensures
        ({
            let n = payload(out.readable, out.writable, super::VIRTIO_BLK_T_OUT);
            let sent = super::request::gathered(
                m_out,
                super::request::without_front(out.readable, super::HEADER_BYTES as nat),
                n,
            );
            let o = super::request::served(
                m_in,
                backend,
                back.readable,
                back.writable,
                serial,
                stats_in,
                reply_in,
            );
            let at = addresses(back.writable);
            &&& sent is Some && sent->0.len() == n
            &&& at.len() == n + 1
            &&& forall|i: int| 0 <= i < n ==> o.memory[#[trigger] at[i]] == sent->0[i]
            &&& o.memory[at[n as int]] == VIRTIO_BLK_S_OK
            &&& o.used == n + 1
            &&& disks.2 == disks.1
        }),
{
    let n = payload(out.readable, out.writable, super::VIRTIO_BLK_T_OUT);
    let begun_out = super::request::begun(
        m_out,
        backend,
        out.readable,
        out.writable,
        serial,
        stats_out,
    );
    let h = super::request::header_of(m_out, out.readable, out.writable)->0;
    lemma_header_len(m_out, out.readable);
    assert(super::request::payload_len(out.readable, out.writable, h.ty) == n);
    assert(begun_out is Wants);
    assert(reply_out is Done);
    assert(super::request::payload_len(back.readable, back.writable, super::VIRTIO_BLK_T_IN) == n);
    let begun_in = super::request::begun(
        m_in,
        backend,
        back.readable,
        back.writable,
        serial,
        stats_in,
    );
    assert(begun_in is Wants);
    super::request::lemma_gathered_len(
        m_out,
        super::request::without_front(out.readable, super::HEADER_BYTES as nat),
        n,
    );
    law_reads_give_back_writes(
        backend,
        disks.0,
        m_out,
        out.readable,
        out.writable,
        m_in,
        back.readable,
        back.writable,
        serial,
        stats_out,
        stats_in,
        reply_in,
    );
    let sent = begun_out->Wants_0->data;
    let o = super::request::completed(
        m_in,
        back.writable,
        begun_in->Wants_1,
        reply_in,
        stats_in,
    );
    let area = super::request::data_area(back.writable);
    lemma_data_area(back.writable);
    law_status_byte_follows_the_data(back.writable);
    lemma_addresses_len(area);
    lemma_gathered_by_address(o.memory, area, n);
    assert forall|i: int| 0 <= i < n implies o.memory[#[trigger] addresses(back.writable)[i]]
        == sent[i] by {
        assert(addresses(back.writable)[i] == addresses(area)[i]);
    }
}

pub(crate) proof fn lemma_addresses_len(bufs: Seq<Buffer>)
    ensures
        addresses(bufs).len() == super::request::total_len(bufs),
    decreases bufs.len(),
{
    if bufs.len() > 0 {
        lemma_addresses_len(bufs.drop_last());
    }
}

pub(crate) proof fn lemma_addresses_front(bufs: Seq<Buffer>)
    requires
        bufs.len() > 0,
    ensures
        addresses(bufs) == Seq::new(bufs[0].len as nat, |i: int| bufs[0].addr + i) + addresses(
            bufs.skip(1),
        ),
    decreases bufs.len(),
{
    let first = Seq::new(bufs[0].len as nat, |i: int| bufs[0].addr + i);
    if bufs.len() > 1 {
        lemma_addresses_front(bufs.drop_last());
        assert(bufs.drop_last().skip(1) =~= bufs.skip(1).drop_last());
        let last = Seq::new(bufs.last().len as nat, |i: int| bufs.last().addr + i);
        assert(addresses(bufs.skip(1)) == addresses(bufs.skip(1).drop_last()) + last);
        assert(addresses(bufs) =~= first + addresses(bufs.skip(1)));
    } else {
        assert(bufs.skip(1) =~= Seq::<Buffer>::empty());
        assert(bufs.drop_last() =~= Seq::<Buffer>::empty());
        assert(addresses(bufs) =~= first + addresses(bufs.skip(1)));
    }
}

/// What is gathered stands at the buffers' addresses, in order.
pub(crate) proof fn lemma_gathered_by_address(m: Map<int, u8>, bufs: Seq<Buffer>, n: nat)
    requires
        n <= super::request::total_len(bufs),
    ensures
        super::request::gathered(m, bufs, n) matches Some(v) ==> v.len() == n && forall|i: int|
            0 <= i < n ==> v[i] == m[#[trigger] addresses(bufs)[i]],
    decreases bufs.len(),
{
    super::request::lemma_gathered_len(m, bufs, n);
    if n > 0 && bufs.len() > 0 && super::request::gathered(m, bufs, n) is Some {
        let take = if bufs[0].len < n {
            bufs[0].len as nat
        } else {
            n
        };
        let rest = bufs.skip(1);
        super::request::lemma_total_front(bufs);
        lemma_addresses_front(bufs);
        lemma_addresses_len(rest);
        lemma_gathered_by_address(m, rest, (n - take) as nat);
        let v = super::request::gathered(m, bufs, n)->0;
        let tail = super::request::gathered(m, rest, (n - take) as nat)->0;
        assert forall|i: int| 0 <= i < n implies v[i] == m[#[trigger] addresses(bufs)[i]] by {
            if i >= take {
                assert(v[i] == tail[i - take]);
                assert(addresses(bufs)[i] == addresses(rest)[i - take]);
            }
        }
    }
}

/// An interrupt is raised only at the end of a kick, when the used ring took at least one of its
/// chains and the driver asked to hear of it; and then it is raised.
pub proof fn law_interrupts_follow_completions(b: BlkView, m: Map<int, u8>)
    requires
        b.wf(),
    ensures
        b.stepped(m).2 matches ActionView::Raise(bits) ==> bits == INT_VRING,
        b.stepped(m).2 is Raise <==> {
            &&& b.job matches Some(job) && job.chains.len() == 0 && job.completed
            &&& b.queue->0.asked(m).1
        },
{
}

/// A reset takes its turn among the kicks. It forgets the queue, so that the next kick starts at
/// the beginning of its rings, whichever they are; it touches neither the counters nor memory.
pub proof fn law_resets_forget_the_queue(b: BlkView, m: Map<int, u8>, n: QueueNotify)
    requires
        b.wf(),
        b.job is None,
        b.kicks.len() > 0,
        b.kicks[0] is Reset,
    ensures
        ({
            let (after, memory, _) = b.stepped(m);
            &&& after.queue is None
            &&& after.kicks == b.kicks.skip(1)
            &&& after.stats == b.stats
            &&& memory == m
            &&& queue_for(after.queue, n).last_avail == 0
            &&& queue_for(after.queue, n).used_idx == 0
        }),
{
}

/// A kick with the rings of the queue in use goes on where the last one stopped.
pub proof fn law_kicks_go_on_where_the_last_stopped(b: BlkView, n: QueueNotify)
    requires
        b.queue matches Some(q) && q.size == n.size && q.desc == n.desc && q.avail == n.avail
            && q.used == n.used,
    ensures
        queue_for(b.queue, n) == b.queue->0,
{
}

/// What is left of the job, counting its end.
pub open spec fn job_left(b: BlkView) -> nat {
    match b.job {
        Some(job) => job.chains.len() + 1,
        None => 0,
    }
}

/// There is less left to do in `after` than in `before`: fewer kicks, or as many and less of a job.
pub open spec fn less_left(before: BlkView, after: BlkView) -> bool {
    ||| after.kicks.len() < before.kicks.len()
    ||| after.kicks.len() == before.kicks.len() && job_left(after) < job_left(before)
}

/// The I/O side comes to rest. A step either finds nothing to do, asks for a transfer, or leaves
/// less to do; and a transfer that was answered leaves less to do.
pub proof fn law_work_comes_to_an_end(
    b: BlkView,
    m: Map<int, u8>,
    n: Map<int, u8>,
    reply: super::request::IoReply,
)
    requires
        b.wf(),
        b.pending is None,
    ensures
        b.stepped(m).2 is Idle <==> b.kicks.len() == 0 && b.job is None,
        b.stepped(m).2 is Idle ==> b.stepped(m).0 == b && b.stepped(m).1 == m,
        b.stepped(m).2 is Again || b.stepped(m).2 is Raise ==> less_left(b, b.stepped(m).0),
        b.stepped(m).2 is Io ==> less_left(b, b.stepped(m).0.finished(n, reply).0),
{
}

/// Every chain of a kick is answered once, in order: what is recorded is the oldest chain that
/// is left, and it counts as one request.
pub proof fn law_chains_are_answered_in_order(
    b: BlkView,
    m: Map<int, u8>,
    n: Map<int, u8>,
    reply: super::request::IoReply,
)
    requires
        b.wf(),
        b.pending is None,
        b.job is Some,
        b.job->0.chains.len() > 0,
    ensures
        ({
            let (stepped, _, action) = b.stepped(m);
            let after = if action is Io {
                stepped.finished(n, reply).0
            } else {
                stepped
            };
            &&& action is Io || action is Again
            &&& action is Io ==> stepped.job == b.job && stepped.stats == b.stats
            &&& after.job->0.chains == b.job->0.chains.skip(1)
            &&& after.stats.reqs == super::counted(b.stats.reqs, 1)
            &&& after.pending is None
        }),
{
}

} // verus!
