//! What a request says in guest memory, byte by byte, and what it does to the image and to memory.
use vstd::prelude::*;

use super::backend::FileBackend;
use super::laws::{addresses, all_mapped, disjoint, inside};
use super::request::{BeginView, IoReply, IoView};
use super::BlkStats;
use crate::virtio::queue::Buffer;

verus! {

broadcast use vstd::group_vstd_default;

/// The type of a request whose bytes stand at the addresses `at`: bytes 0 to 3, the lowest first.
pub open spec fn type_at(m: Map<int, u8>, at: Seq<int>) -> int {
    m[at[0]] + 0x100 * m[at[1]] + 0x1_0000 * m[at[2]] + 0x100_0000 * m[at[3]]
}

/// The first sector of a request whose bytes stand at the addresses `at`: bytes 8 to 15, the
/// lowest first.
pub open spec fn sector_at(m: Map<int, u8>, at: Seq<int>) -> int {
    m[at[8]] + 0x100 * m[at[9]] + 0x1_0000 * m[at[10]] + 0x100_0000 * m[at[11]] + 0x1_0000_0000
        * m[at[12]] + 0x100_0000_0000 * m[at[13]] + 0x1_0000_0000_0000 * m[at[14]]
        + 0x100_0000_0000_0000 * m[at[15]]
}

/// The first `n` of the addresses are there, and mapped.
pub open spec fn reachable(m: Map<int, u8>, at: Seq<int>, n: int) -> bool {
    n <= at.len() && forall|i: int| 0 <= i < n ==> m.dom().contains(#[trigger] at[i])
}

/// The addresses are 64-bit numbers.
pub open spec fn within_64_bits(at: Seq<int>) -> bool {
    forall|i: int| 0 <= i < at.len() ==> 0 <= #[trigger] at[i] <= u64::MAX
}

proof fn lemma_gathered_iff(m: Map<int, u8>, bufs: Seq<Buffer>, n: nat)
    ensures
        super::request::gathered(m, bufs, n) is Some <==> reachable(m, addresses(bufs), n as int),
    decreases bufs.len(),
{
    super::laws::lemma_addresses_len(bufs);
    if n == 0 {
    } else if bufs.len() == 0 {
        assert(addresses(bufs).len() == 0);
    } else {
        let first = bufs[0];
        let take = if first.len < n {
            first.len as nat
        } else {
            n
        };
        let rest = bufs.skip(1);
        let left = (n - take) as nat;
        let at = addresses(bufs);
        super::laws::lemma_addresses_front(bufs);
        super::laws::lemma_addresses_len(rest);
        super::request::lemma_total_front(bufs);
        lemma_gathered_iff(m, rest, left);
        if super::request::gathered(m, bufs, n) is Some {
            assert forall|i: int| 0 <= i < n implies m.dom().contains(#[trigger] at[i]) by {
                if i < take {
                    assert(at[i] == first.addr + i);
                    assert(m.dom().contains(first.addr + i));
                } else {
                    assert(at[i] == addresses(rest)[i - take]);
                }
            }
        }
        if reachable(m, at, n as int) {
            assert forall|a: int|
                first.addr <= a < first.addr + take implies #[trigger] m.dom().contains(a) by {
                assert(at[a - first.addr] == a);
            }
            assert forall|i: int| 0 <= i < left implies m.dom().contains(
                #[trigger] addresses(rest)[i],
            ) by {
                assert(at[i + take] == addresses(rest)[i]);
            }
        }
    }
}

proof fn lemma_without_front(bufs: Seq<Buffer>, n: nat)
    requires
        n <= addresses(bufs).len(),
        forall|i: int| n <= i < addresses(bufs).len() ==> 0 <= #[trigger] addresses(bufs)[i] <= u64::MAX,
    ensures
        addresses(super::request::without_front(bufs, n)) == addresses(bufs).skip(n as int),
    decreases bufs.len(),
{
    let at = addresses(bufs);
    if bufs.len() == 0 {
        assert(addresses(super::request::without_front(bufs, n)) =~= at.skip(n as int));
    } else {
        let rest = bufs.skip(1);
        let first = bufs[0];
        super::laws::lemma_addresses_front(bufs);
        let far = addresses(rest);
        if n >= first.len {
            let left = (n - first.len) as nat;
            assert forall|i: int| left <= i < far.len() implies 0 <= #[trigger] far[i]
                <= u64::MAX by {
                assert(at[i + first.len] == far[i]);
            }
            lemma_without_front(rest, left);
            assert(at.skip(n as int) =~= far.skip(left as int));
        } else {
            assert forall|i: int| 0 <= i < far.len() implies 0 <= #[trigger] far[i] <= u64::MAX by {
                assert(at[i + first.len] == far[i]);
            }
            lemma_without_front(rest, 0);
            assert(at[n as int] == first.addr + n);
            let cut = Buffer {
                addr: (first.addr + n) as u64,
                len: (first.len - n) as u32,
            };
            let tail = super::request::without_front(rest, 0);
            let all = super::request::without_front(bufs, n);
            assert(all =~= seq![cut] + tail);
            assert(all.skip(1) =~= tail);
            super::laws::lemma_addresses_front(all);
            assert(far.skip(0) =~= far);
            assert(addresses(all) =~= at.skip(n as int));
        }
    }
}

proof fn lemma_last_address(bufs: Seq<Buffer>)
    requires
        bufs.len() > 0,
        bufs.last().len > 0,
    ensures
        addresses(bufs).len() > 0,
        addresses(bufs).last() == bufs.last().addr + bufs.last().len - 1,
{
}

/// The header of a chain is its first sixteen readable bytes: the type is spelled by the first four,
/// and the first sector by the last eight, the lowest first. The status byte is the last writable
/// one. There is a header exactly when those bytes are mapped and there is such a byte.
pub proof fn law_headers_are_read_byte_by_byte(
    m: Map<int, u8>,
    readable: Seq<Buffer>,
    writable: Seq<Buffer>,
)
    ensures
        ({
            let at = addresses(readable);
            let h = super::request::header_of(m, readable, writable);
            &&& h is Some <==> reachable(m, at, 16) && writable.len() > 0 && writable.last().len > 0
            &&& h is Some ==> {
                &&& h->0.ty == type_at(m, at)
                &&& h->0.sector == sector_at(m, at)
                &&& addresses(writable).last() <= u64::MAX ==> h->0.status == addresses(
                    writable,
                ).last()
            }
        }),
{
    let at = addresses(readable);
    lemma_gathered_iff(m, readable, 16);
    if writable.len() > 0 && writable.last().len > 0 {
        lemma_last_address(writable);
    }
    if super::request::gathered(m, readable, 16) is Some {
        let v = super::request::gathered(m, readable, 16)->0;
        super::laws::lemma_addresses_len(readable);
        super::laws::lemma_gathered_by_address(m, readable, 16);
        let t = v.subrange(0, 4);
        let s = v.subrange(8, 16);
        crate::bytes::law_bytes_count_by_place(t);
        crate::bytes::law_bytes_count_by_place(s);
        assert(t[0] == m[at[0]] && t[1] == m[at[1]] && t[2] == m[at[2]] && t[3] == m[at[3]]);
        assert(s[0] == m[at[8]] && s[1] == m[at[9]] && s[2] == m[at[10]] && s[3] == m[at[11]]);
        assert(s[4] == m[at[12]] && s[5] == m[at[13]] && s[6] == m[at[14]] && s[7] == m[at[15]]);
    }
}

/// The `n` bytes from `sector` on, in whole sectors, lie inside the image.
pub open spec fn inside_image(backend: FileBackend, sector: int, n: int) -> bool {
    512 * (sector + (n + 511) / 512) <= backend.size()
}

/// A request whose header is there, by the bytes that the driver stored. A read (type 0) wants as
/// many bytes as there are writable ones before the status byte; a write (type 1) wants to store
/// the readable bytes behind the header, in order. Either begins at 512 times the sector, and is
/// wanted exactly when its sectors lie in the image and, for a write, the image takes writes and
/// the bytes are mapped. A flush is type 4. No other type wants anything of the image.
pub proof fn law_transfers_begin_at_their_sector(
    m: Map<int, u8>,
    backend: FileBackend,
    readable: Seq<Buffer>,
    writable: Seq<Buffer>,
    serial: Seq<u8>,
    stats: BlkStats,
)
    requires
        backend.wf(),
        within_64_bits(addresses(readable)),
        within_64_bits(addresses(writable)),
        reachable(m, addresses(readable), 16),
        writable.len() > 0,
        writable.last().len > 0,
        addresses(readable).len() <= u32::MAX,
        addresses(writable).len() <= u32::MAX,
    ensures
        ({
            let at = addresses(readable);
            let ty = type_at(m, at);
            let sector = sector_at(m, at);
            let b = super::request::begun(m, backend, readable, writable, serial, stats);
            let room = addresses(writable).len() - 1;
            let sent = at.len() - 16;
            &&& ty == 0 && inside_image(backend, sector, room) ==> {
                &&& b matches BeginView::Wants(IoView::Read { offset, len }, pending)
                &&& offset == 512 * sector && len == room
                &&& pending.reads && pending.len == room
            }
            &&& ty == 1 && inside_image(backend, sector, sent) && !backend.is_read_only()
                && reachable(m, at, at.len() as int) ==> {
                &&& b matches BeginView::Wants(IoView::Write { offset, data }, pending)
                &&& offset == 512 * sector && data.len() == sent
                &&& forall|i: int| 0 <= i < sent ==> data[i] == m[#[trigger] at[16 + i]]
                &&& !pending.reads && pending.len == sent
            }
            &&& ty == 4 ==> {
                &&& b matches BeginView::Wants(IoView::Flush, pending)
                &&& !pending.reads && pending.len == 0
            }
            &&& b matches BeginView::Wants(IoView::Read { .. }, _) ==> ty == 0 && inside_image(
                backend,
                sector,
                room,
            )
            &&& b matches BeginView::Wants(IoView::Write { .. }, _) ==> ty == 1 && inside_image(
                backend,
                sector,
                sent,
            ) && !backend.is_read_only() && reachable(m, at, at.len() as int)
            &&& b matches BeginView::Wants(IoView::Flush, _) ==> ty == 4
            &&& b matches BeginView::Wants(_, pending) ==> pending.status == addresses(
                writable,
            ).last()
        }),
{
    let at = addresses(readable);
    law_headers_are_read_byte_by_byte(m, readable, writable);
    super::laws::lemma_addresses_len(readable);
    super::laws::lemma_addresses_len(writable);
    lemma_last_address(writable);
    let sent = (at.len() - 16) as nat;
    let h = super::request::header_of(m, readable, writable)->0;
    let size = backend.size() as int;
    assert(size == 512 * (size / 512));
    if h.ty == 1 {
        assert(super::request::payload_len(readable, writable, 1) == sent);
        let rest = super::request::without_front(readable, 16);
        let got = super::request::gathered(m, rest, sent);
        lemma_without_front(readable, 16);
        lemma_gathered_iff(m, rest, sent);
        super::laws::lemma_addresses_len(rest);
        if got is Some {
            assert forall|i: int| 0 <= i < at.len() implies m.dom().contains(#[trigger] at[i]) by {
                if i >= 16 {
                    assert(addresses(rest)[i - 16] == at[i]);
                }
            }
        }
        if reachable(m, at, at.len() as int) {
            assert forall|i: int| 0 <= i < sent implies m.dom().contains(
                #[trigger] addresses(rest)[i],
            ) by {
                assert(addresses(rest)[i] == at[16 + i]);
            }
            super::laws::lemma_gathered_by_address(m, rest, sent);
            assert forall|i: int| 0 <= i < sent implies got->0[i] == m[#[trigger] at[16 + i]] by {
                assert(addresses(rest)[i] == at[16 + i]);
            }
        }
    }
}

/// The bytes of the image that a transfer reaches: where it begins, and where it ends.
pub open spec fn reach(io: IoView) -> (int, int) {
    match io {
        IoView::Read { offset, len } => (offset as int, offset + len),
        IoView::Write { offset, data } => (offset as int, offset + data.len()),
        IoView::Flush => (0, 0),
    }
}

/// Two requests for different sectors never touch the same byte of the image, as long as the one
/// for the lower sector does not ask for more bytes than lie between them.
pub proof fn law_different_sectors_are_apart(
    m: Map<int, u8>,
    backend: FileBackend,
    low: (Seq<Buffer>, Seq<Buffer>),
    high: (Seq<Buffer>, Seq<Buffer>),
    serial: Seq<u8>,
    stats: BlkStats,
)
    requires
        backend.wf(),
        within_64_bits(addresses(low.0)) && within_64_bits(addresses(high.0)),
        within_64_bits(addresses(low.1)) && within_64_bits(addresses(high.1)),
        reachable(m, addresses(low.0), 16) && reachable(m, addresses(high.0), 16),
        low.1.len() > 0 && low.1.last().len > 0 && high.1.len() > 0 && high.1.last().len > 0,
        addresses(low.0).len() <= u32::MAX && addresses(high.0).len() <= u32::MAX,
        addresses(low.1).len() <= u32::MAX && addresses(high.1).len() <= u32::MAX,
        super::request::begun(m, backend, low.0, low.1, serial, stats) is Wants,
        super::request::begun(m, backend, high.0, high.1, serial, stats) is Wants,
        type_at(m, addresses(low.0)) <= 1 && type_at(m, addresses(high.0)) <= 1,
        sector_at(m, addresses(low.0)) < sector_at(m, addresses(high.0)),
        ({
            let (from, to) = reach(
                super::request::begun(m, backend, low.0, low.1, serial, stats)->Wants_0,
            );
            to - from <= 512 * (sector_at(m, addresses(high.0)) - sector_at(m, addresses(low.0)))
        }),
    ensures
        reach(super::request::begun(m, backend, low.0, low.1, serial, stats)->Wants_0).1 <= reach(
            super::request::begun(m, backend, high.0, high.1, serial, stats)->Wants_0,
        ).0,
{
    law_transfers_begin_at_their_sector(m, backend, low.0, low.1, serial, stats);
    law_transfers_begin_at_their_sector(m, backend, high.0, high.1, serial, stats);
}

proof fn lemma_inside_is_an_address(bufs: Seq<Buffer>, i: int, a: int)
    requires
        0 <= i < bufs.len(),
        inside(bufs[i], a),
    ensures
        addresses(bufs).contains(a),
    decreases bufs.len(),
{
    let at = addresses(bufs);
    let front = addresses(bufs.drop_last());
    if i == bufs.len() - 1 {
        assert(at[front.len() + (a - bufs.last().addr)] == a);
    } else {
        lemma_inside_is_an_address(bufs.drop_last(), i, a);
        let k = front.index_of(a);
        assert(at[k] == a);
    }
}

/// A request changes only its own writable bytes, whatever it is and whatever the image answers;
/// and it maps and unmaps nothing.
pub proof fn law_requests_write_only_their_own_bytes(
    m: Map<int, u8>,
    backend: FileBackend,
    readable: Seq<Buffer>,
    writable: Seq<Buffer>,
    serial: Seq<u8>,
    stats: BlkStats,
    reply: IoReply,
    a: int,
)
    requires
        within_64_bits(addresses(writable)),
        m.dom().contains(a),
        !addresses(writable).contains(a),
    ensures
        ({
            let o = super::request::served(m, backend, readable, writable, serial, stats, reply);
            o.memory.dom() == m.dom() && o.memory[a] == m[a]
        }),
{
    let area = super::request::data_area(writable);
    if super::request::status_at(writable) is Some {
        lemma_last_address(writable);
        let to = addresses(writable);
        assert(to[to.len() - 1] == to.last());
        assert(super::request::status_at(writable)->0 == to.last());
        super::laws::lemma_data_area(writable);
        assert forall|i: int| 0 <= i < area.len() implies !inside(#[trigger] area[i], a) by {
            if inside(area[i], a) {
                assert(inside(writable[i], a));
                lemma_inside_is_an_address(writable, i, a);
            }
        }
        super::laws::lemma_scattered_elsewhere(m, area, serial, a);
        super::laws::lemma_scattered_dom(m, area, serial);
        match reply {
            IoReply::Done { data } => {
                super::laws::lemma_scattered_elsewhere(m, area, data@, a);
                super::laws::lemma_scattered_dom(m, area, data@);
            },
            IoReply::Failed => {},
        }
        lemma_answer_is_local(m, to.last(), a);
        lemma_answer_is_local(super::request::scattered(m, area, serial).memory, to.last(), a);
        match reply {
            IoReply::Done { data } => {
                lemma_answer_is_local(
                    super::request::scattered(m, area, data@).memory,
                    to.last(),
                    a,
                );
            },
            IoReply::Failed => {},
        }
    }
}

proof fn lemma_answer_is_local(m: Map<int, u8>, status: int, a: int)
    requires
        m.dom().contains(a),
        a != status,
    ensures
        forall|v: u8|
            #![trigger crate::memory::with_bytes(m, status, seq![v])]
            crate::memory::with_bytes(m, status, seq![v]).dom() == m.dom()
                && crate::memory::with_bytes(m, status, seq![v])[a] == m[a],
{
    assert forall|v: u8|
        #![trigger crate::memory::with_bytes(m, status, seq![v])]
        crate::memory::with_bytes(m, status, seq![v]).dom() == m.dom()
            && crate::memory::with_bytes(m, status, seq![v])[a] == m[a] by {
        assert(crate::memory::with_bytes(m, status, seq![v]).dom() =~= m.dom());
    }
}

proof fn lemma_brought_bytes(
    m: Map<int, u8>,
    writable: Seq<Buffer>,
    data: Seq<u8>,
    stats: BlkStats,
    status: u64,
)
    requires
        writable.len() > 0,
        writable.last().len > 0,
        within_64_bits(addresses(writable)),
        disjoint(writable),
        all_mapped(m, writable),
        data.len() < addresses(writable).len(),
        addresses(writable).len() <= u32::MAX,
        status == addresses(writable).last(),
    ensures
        ({
            let to = addresses(writable);
            let o = super::request::brought(
                super::request::scattered(m, super::request::data_area(writable), data),
                stats,
                status,
            );
            &&& forall|i: int| 0 <= i < data.len() ==> o.memory[#[trigger] to[i]] == data[i]
            &&& o.memory[to.last()] == 0
            &&& o.used == data.len() + 1
            &&& o.stats == stats.after_ok(data.len() as u32)
        }),
{
    let to = addresses(writable);
    let area = super::request::data_area(writable);
    let n = writable.len() - 1;
    lemma_last_address(writable);
    super::laws::lemma_addresses_len(writable);
    super::laws::lemma_addresses_len(area);
    super::laws::lemma_data_area(writable);
    super::laws::law_status_byte_follows_the_data(writable);
    assert forall|i: int, a: int| 0 <= i < area.len() && #[trigger] inside(area[i], a) implies inside(
        writable[i],
        a,
    ) && a != status by {
        if i < n {
            assert(super::request::without_last_byte(writable)[i] == writable[i]);
            if a == status {
                assert(inside(writable[i], a));
                assert(inside(writable[n], a));
            }
        }
    }
    assert forall|i: int, j: int, a: int|
        0 <= i < j < area.len() && #[trigger] inside(area[i], a) implies !(#[trigger] inside(
        area[j],
        a,
    )) by {
        assert(inside(writable[i], a));
        if inside(area[j], a) {
            assert(inside(writable[j], a));
        }
    }
    assert(all_mapped(m, area));
    super::laws::law_scattered_bytes_are_gathered(m, area, data);
    super::laws::lemma_scattered_dom(m, area, data);
    super::request::lemma_spread_count(m, area, data);
    let after = super::request::scattered(m, area, data).memory;
    assert(inside(writable[n], status as int));
    let end = crate::memory::with_bytes(after, status as int, seq![0u8]);
    super::laws::lemma_gathered_by_address(after, area, data.len());
    assert forall|i: int| 0 <= i < data.len() implies end[#[trigger] to[i]] == data[i] by {
        assert(to[i] == addresses(area)[i]);
        lemma_address_is_inside(area, i);
        let k = choose|k: int| 0 <= k < area.len() && inside(#[trigger] area[k], to[i]);
        assert(inside(area[k], to[i]));
        assert(m.dom().contains(to[i]));
    }
}

proof fn lemma_no_room_drops(m: Map<int, u8>, bufs: Seq<Buffer>, data: Seq<u8>)
    requires
        data.len() >= super::request::total_len(bufs),
    ensures
        super::request::scattered(m, bufs, data) == super::request::scattered(
            m,
            bufs,
            data.take(super::request::total_len(bufs) as int),
        ),
    decreases bufs.len(),
{
    if bufs.len() > 0 {
        let total = super::request::total_len(bufs);
        let cut = data.take(total as int);
        let first = bufs[0];
        let len = first.len as int;
        let rest = bufs.skip(1);
        super::request::lemma_total_front(bufs);
        if data.len() > 0 {
            let next = crate::memory::with_bytes(m, first.addr as int, data.take(len));
            assert(data.skip(len).len() >= super::request::total_len(rest));
            lemma_no_room_drops(next, rest, data.skip(len));
            assert(data.take(len) =~= cut.take(len));
            assert(cut.skip(len) =~= data.skip(len).take(super::request::total_len(rest) as int));
            if total == 0 {
                assert(next =~= m);
            }
            if len == data.len() {
                assert(data.take(data.len() as int) =~= data.take(len));
            }
        } else {
            assert(cut =~= data);
        }
    } else {
        assert(data.take(0).len() == 0);
    }
}

proof fn lemma_address_is_inside(bufs: Seq<Buffer>, i: int)
    requires
        0 <= i < addresses(bufs).len(),
    ensures
        exists|k: int| 0 <= k < bufs.len() && inside(#[trigger] bufs[k], addresses(bufs)[i]),
    decreases bufs.len(),
{
    let front = addresses(bufs.drop_last());
    if i < front.len() {
        lemma_address_is_inside(bufs.drop_last(), i);
        let k = choose|k: int|
            0 <= k < bufs.drop_last().len() && inside(#[trigger] bufs.drop_last()[k], front[i]);
        assert(inside(bufs[k], addresses(bufs)[i]));
    } else {
        assert(inside(bufs[bufs.len() - 1], addresses(bufs)[i]));
    }
}

/// A read that the image answered: its bytes stand in the writable bytes, in order; the status byte
/// behind them is zero; the used length counts all of these. An id request does the same with the
/// twenty bytes of the id, or as many of them as there is room for.
pub proof fn law_reads_fill_the_writable_bytes(
    m: Map<int, u8>,
    backend: FileBackend,
    readable: Seq<Buffer>,
    writable: Seq<Buffer>,
    serial: Seq<u8>,
    stats: BlkStats,
    reply: IoReply,
)
    requires
        backend.wf(),
        serial.len() == 20,
        reachable(m, addresses(readable), 16),
        within_64_bits(addresses(readable)) && within_64_bits(addresses(writable)),
        addresses(readable).len() <= u32::MAX && addresses(writable).len() <= u32::MAX,
        writable.len() > 0 && writable.last().len > 0,
        disjoint(writable),
        all_mapped(m, writable),
    ensures
        ({
            let to = addresses(writable);
            let ty = type_at(m, addresses(readable));
            let room = to.len() - 1;
            let o = super::request::served(m, backend, readable, writable, serial, stats, reply);
            &&& ty == 0 && inside_image(backend, sector_at(m, addresses(readable)), room) && (
            reply matches IoReply::Done { data } && data@.len() == room) ==> {
                &&& forall|i: int|
                    0 <= i < room ==> o.memory[#[trigger] to[i]] == reply->data@[i]
                &&& o.memory[to.last()] == 0
                &&& o.used == room + 1
                &&& o.stats == stats.after_ok(room as u32)
            }
            &&& ty == 8 ==> {
                let n = if room < 20 {
                    room
                } else {
                    20
                };
                &&& forall|i: int| 0 <= i < n ==> o.memory[#[trigger] to[i]] == serial[i]
                &&& o.memory[to.last()] == 0
                &&& o.used == n + 1
                &&& o.stats == stats.after_ok(n as u32)
            }
        }),
{
    law_transfers_begin_at_their_sector(m, backend, readable, writable, serial, stats);
    law_headers_are_read_byte_by_byte(m, readable, writable);
    lemma_last_address(writable);
    let to = addresses(writable);
    let h = super::request::header_of(m, readable, writable)->0;
    let room = to.len() - 1;
    if h.ty == 8 {
        let n = if room < 20 {
            room
        } else {
            20
        };
        let area = super::request::data_area(writable);
        super::laws::lemma_data_area(writable);
        super::laws::lemma_addresses_len(writable);
        if room < 20 {
            lemma_no_room_drops(m, area, serial);
        } else {
            assert(serial.take(20) =~= serial);
        }
        lemma_brought_bytes(m, writable, serial.take(n), stats, h.status);
    }
    match reply {
        IoReply::Done { data } => {
            if data@.len() == room {
                lemma_brought_bytes(m, writable, data@, stats, h.status);
            }
        },
        IoReply::Failed => {},
    }
}

/// The counters: a success adds one request and its bytes, and a failure one request and one
/// error. They wrap at 64 bits.
pub proof fn law_counters_count(stats: BlkStats, bytes: u32)
    ensures
        ({
            let o = stats.after_ok(bytes);
            &&& o.reqs == (stats.reqs + 1) % 0x1_0000_0000_0000_0000
            &&& o.bytes == (stats.bytes + bytes) % 0x1_0000_0000_0000_0000
            &&& o.errors == stats.errors
        }),
        ({
            let o = stats.after_error();
            &&& o.reqs == (stats.reqs + 1) % 0x1_0000_0000_0000_0000
            &&& o.bytes == stats.bytes
            &&& o.errors == (stats.errors + 1) % 0x1_0000_0000_0000_0000
        }),
{
}

/// A request that fails says so: with a mapped status byte, a transfer that the image failed, a
/// read or write outside the image, a write to a read-only image, or a write of unmapped bytes
/// leaves 1 there, a type that is not 0, 1, 4, or 8 leaves 2, and a write or flush that the image
/// did leaves 0. All of these report one byte as written, and none changes another byte.
pub proof fn law_answers_say_what_happened(
    m: Map<int, u8>,
    backend: FileBackend,
    readable: Seq<Buffer>,
    writable: Seq<Buffer>,
    serial: Seq<u8>,
    stats: BlkStats,
    reply: IoReply,
)
    requires
        backend.wf(),
        reachable(m, addresses(readable), 16),
        within_64_bits(addresses(readable)) && within_64_bits(addresses(writable)),
        addresses(readable).len() <= u32::MAX && addresses(writable).len() <= u32::MAX,
        writable.len() > 0 && writable.last().len > 0,
        m.dom().contains(addresses(writable).last()),
    ensures
        ({
            let at = addresses(readable);
            let st = addresses(writable).last();
            let ty = type_at(m, at);
            let sector = sector_at(m, at);
            let room = addresses(writable).len() - 1;
            let sent = at.len() - 16;
            let o = super::request::served(m, backend, readable, writable, serial, stats, reply);
            let wants_read = ty == 0 && inside_image(backend, sector, room);
            let wants_write = ty == 1 && inside_image(backend, sector, sent)
                && !backend.is_read_only() && reachable(m, at, at.len() as int);
            let one = |v: u8| o.memory == m.insert(st, v) && o.used == 1;
            &&& (ty == 0 && !wants_read) || (ty == 1 && !wants_write) ==> one(1) && o.stats
                == stats.after_error()
            &&& (wants_read || wants_write || ty == 4) && reply is Failed ==> one(1) && o.stats
                == stats.after_error()
            &&& wants_write && !(reply is Failed) ==> one(0) && o.stats == stats.after_ok(sent as u32)
            &&& ty == 4 && !(reply is Failed) ==> one(0) && o.stats == stats.after_ok(0)
            &&& ty != 0 && ty != 1 && ty != 4 && ty != 8 ==> one(2) && o.stats
                == stats.after_error()
        }),
{
    law_transfers_begin_at_their_sector(m, backend, readable, writable, serial, stats);
    law_headers_are_read_byte_by_byte(m, readable, writable);
    lemma_last_address(writable);
    let st = addresses(writable).last();
    assert(crate::memory::with_bytes(m, st, seq![0u8]) =~= m.insert(st, 0u8));
    assert(crate::memory::with_bytes(m, st, seq![1u8]) =~= m.insert(st, 1u8));
    assert(crate::memory::with_bytes(m, st, seq![2u8]) =~= m.insert(st, 2u8));
}

/// A request without a whole mapped header, or without a status byte, fails and counts as an error.
/// It leaves 1 in its status byte where that is there and mapped, and reports that one byte;
/// otherwise it changes nothing and reports none.
pub proof fn law_requests_without_a_header_fail(
    m: Map<int, u8>,
    backend: FileBackend,
    readable: Seq<Buffer>,
    writable: Seq<Buffer>,
    serial: Seq<u8>,
    stats: BlkStats,
    reply: IoReply,
)
    requires
        within_64_bits(addresses(writable)),
        !(reachable(m, addresses(readable), 16) && writable.len() > 0 && writable.last().len > 0),
    ensures
        ({
            let o = super::request::served(m, backend, readable, writable, serial, stats, reply);
            let st = addresses(writable).last();
            let told = writable.len() > 0 && writable.last().len > 0 && m.dom().contains(st);
            &&& told ==> o.memory == m.insert(st, 1u8) && o.used == 1
            &&& !told ==> o.memory == m && o.used == 0
            &&& o.stats == stats.after_error()
        }),
{
    law_headers_are_read_byte_by_byte(m, readable, writable);
    if writable.len() > 0 && writable.last().len > 0 {
        lemma_last_address(writable);
        let to = addresses(writable);
        assert(to[to.len() - 1] == to.last());
        let st = to.last();
        if m.dom().contains(st) {
            assert(crate::memory::with_bytes(m, st, seq![1u8]) =~= m.insert(st, 1u8));
        }
    }
}

/// Without a mapped status byte, a request is counted as it would be with one, but reports no byte
/// of its own and changes none.
pub proof fn law_answers_without_a_status_byte_are_counted(
    m: Map<int, u8>,
    backend: FileBackend,
    readable: Seq<Buffer>,
    writable: Seq<Buffer>,
    serial: Seq<u8>,
    stats: BlkStats,
    reply: IoReply,
)
    requires
        backend.wf(),
        reachable(m, addresses(readable), 16),
        within_64_bits(addresses(readable)) && within_64_bits(addresses(writable)),
        addresses(readable).len() <= u32::MAX && addresses(writable).len() <= u32::MAX,
        writable.len() > 0 && writable.last().len > 0,
        !m.dom().contains(addresses(writable).last()),
    ensures
        ({
            let at = addresses(readable);
            let ty = type_at(m, at);
            let sector = sector_at(m, at);
            let room = addresses(writable).len() - 1;
            let sent = at.len() - 16;
            let o = super::request::served(m, backend, readable, writable, serial, stats, reply);
            let wants_read = ty == 0 && inside_image(backend, sector, room);
            let wants_write = ty == 1 && inside_image(backend, sector, sent)
                && !backend.is_read_only() && reachable(m, at, at.len() as int);
            let failed = reply is Failed;
            let nothing = o.memory == m && o.used == 0;
            &&& ty == 0 && (!wants_read || failed) ==> nothing && o.stats == stats.after_error()
            &&& ty == 1 && (!wants_write || failed) ==> nothing && o.stats == stats.after_error()
            &&& wants_write && !failed ==> nothing && o.stats == stats.after_ok(sent as u32)
            &&& ty == 4 && failed ==> nothing && o.stats == stats.after_error()
            &&& ty == 4 && !failed ==> nothing && o.stats == stats.after_ok(0)
            &&& ty != 0 && ty != 1 && ty != 4 && ty != 8 ==> nothing && o.stats
                == stats.after_error()
        }),
{
    law_transfers_begin_at_their_sector(m, backend, readable, writable, serial, stats);
    law_headers_are_read_byte_by_byte(m, readable, writable);
    lemma_last_address(writable);
}

/// Bytes that are brought to the guest stop at the first buffer whose share of them is not mapped:
/// those for the buffers before it count, and the copy is no success. Where every share is mapped
/// it is one, and as many bytes count as there are, or as there is room for.
pub proof fn law_copies_stop_at_unmapped_buffers(m: Map<int, u8>, bufs: Seq<Buffer>, data: Seq<u8>, k: int)
    requires
        0 <= k <= bufs.len(),
        forall|i: int|
            0 <= i < k ==> crate::memory::mapped(
                m,
                (#[trigger] bufs[i]).addr as int,
                bufs[i].len as int,
            ),
        super::request::total_len(bufs.take(k)) <= data.len(),
    ensures
        ({
            let before = super::request::total_len(bufs.take(k)) as int;
            let left = data.len() - before;
            let share = if bufs[k].len < left {
                bufs[k].len as int
            } else {
                left
            };
            let s = super::request::scattered(m, bufs, data);
            &&& k == bufs.len() ==> s.ok && s.count == before
            &&& k < bufs.len() && left > 0 && !crate::memory::mapped(m, bufs[k].addr as int, share)
                ==> !s.ok && s.count == before
            &&& left == 0 ==> s.ok && s.count == before
        }),
    decreases k,
{
    if k == 0 {
        assert(bufs.take(0) =~= Seq::<Buffer>::empty());
        assert(super::request::total_len(bufs.take(0)) == 0);
    } else if data.len() > 0 {
        let front = bufs.take(k);
        super::request::lemma_total_front(front);
        let rest = bufs.skip(1);
        assert(front.skip(1) =~= rest.take(k - 1));
        let take = bufs[0].len as int;
        assert(take <= data.len());
        let n = crate::memory::with_bytes(m, bufs[0].addr as int, data.take(take));
        assert(crate::memory::mapped(m, bufs[0].addr as int, take));
        assert(n.dom() =~= m.dom());
        assert forall|i: int| 0 <= i < k - 1 implies crate::memory::mapped(
            n,
            (#[trigger] rest[i]).addr as int,
            rest[i].len as int,
        ) by {
            assert(rest[i] == bufs[i + 1]);
        }
        law_copies_stop_at_unmapped_buffers(n, rest, data.skip(take), k - 1);
    }
}

/// How many bytes a request moves, for any number of bytes in its buffers: the count of writable ones,
/// or of readable ones for a write, is one of 32 bits and wraps; the status byte, or the header, is
/// taken off, and nothing is left where there is less than that. Other requests move none.
pub proof fn law_payloads_are_counted_in_32_bits(readable: Seq<Buffer>, writable: Seq<Buffer>, ty: u32)
    ensures
        ({
            let n = super::request::payload_len(readable, writable, ty) as int;
            let w = addresses(writable).len() as int % 0x1_0000_0000;
            let r = addresses(readable).len() as int % 0x1_0000_0000;
            &&& (ty == 0 || ty == 8) && w >= 1 ==> n == w - 1
            &&& (ty == 0 || ty == 8) && w == 0 ==> n == 0
            &&& ty == 1 && r >= 16 ==> n == r - 16
            &&& ty == 1 && r < 16 ==> n == 0
            &&& ty != 0 && ty != 1 && ty != 8 ==> n == 0
        }),
{
    super::laws::lemma_addresses_len(readable);
    super::laws::lemma_addresses_len(writable);
}

} // verus!
