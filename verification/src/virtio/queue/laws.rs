//! What holds of every split virtqueue.
use vstd::prelude::*;

use super::SplitQueue;

verus! {

broadcast use vstd::group_vstd_default;

/// A broken queue stays as it is: it hands out no chain, records none, asks for no interrupt,
/// and leaves guest memory alone.
pub proof fn law_broken_is_inert(q: SplitQueue, m: Map<int, u8>, head: u16, len: u32)
    requires
        q.broken is Some,
    ensures
        q.popped(m) == (q, None::<super::ChainView>),
        q.drained(m) == (q, Seq::<super::ChainView>::empty()),
        q.recorded(m, head, len) == (q, m, false),
        q.asked(m) == (q, false),
{
}

/// No operation moves a queue or changes its size, and none mends a broken one. A queue that
/// refuses a value keeps its ring positions.
pub proof fn law_binding_is_fixed(q: SplitQueue, m: Map<int, u8>, head: u16, len: u32)
    ensures
        ({
            let a = q.popped(m).0;
            let b = q.recorded(m, head, len).0;
            let c = q.asked(m).0;
            &&& a == (SplitQueue { last_avail: a.last_avail, broken: a.broken, ..q })
            &&& b == (SplitQueue { used_idx: b.used_idx, broken: b.broken, ..q })
            &&& c == (SplitQueue { broken: c.broken, ..q })
            &&& q.broken is Some ==> a.broken == q.broken && b.broken == q.broken && c.broken
                == q.broken
            &&& a.broken is Some ==> a.last_avail == q.last_avail
            &&& b.broken is Some ==> b.used_idx == q.used_idx
        }),
{
}

/// A recorded completion reads back from the used ring: the element holds the head and the
/// length, and the index counts one more.
pub proof fn law_used_element_reads_back(q: SplitQueue, m: Map<int, u8>, head: u16, len: u32)
    requires
        q.recorded(m, head, len).2,
    ensures
        ({
            let (next, after, _) = q.recorded(m, head, len);
            &&& crate::memory::value_at(after, q.elem_at(), 4) == head
            &&& crate::memory::value_at(after, q.elem_at() + 4, 4) == len
            &&& crate::memory::value_at(after, q.used + 2, 2) == next.used_idx
            &&& next.used_idx == super::next_index(q.used_idx)
        }),
{
    let at = q.elem_at();
    let next = super::next_index(q.used_idx);
    crate::bytes::lemma_byte_ranges();
    crate::bytes::lemma_le_bytes_len(head as nat, 4);
    crate::bytes::lemma_le_bytes_len(len as nat, 4);
    crate::bytes::lemma_le_bytes_len(next as nat, 2);
    let id = crate::bytes::le_bytes(head as nat, 4);
    let size = crate::bytes::le_bytes(len as nat, 4);
    let idx = crate::bytes::le_bytes(next as nat, 2);
    let m1 = crate::memory::with_bytes(m, at, id);
    let m2 = crate::memory::with_bytes(m1, at + 4, size);
    crate::memory::lemma_write_keeps_mapped(m, at, id);
    crate::memory::lemma_write_keeps_mapped(m1, at + 4, size);
    crate::memory::law_value_after_write(m, at, head as nat, 4);
    crate::memory::law_value_after_write(m1, at + 4, len as nat, 4);
    crate::memory::law_value_after_write(m2, q.used + 2, next as nat, 2);
    crate::memory::law_write_is_local(m1, at + 4, size, at, 4);
    crate::memory::law_write_is_local(m2, q.used + 2, idx, at, 4);
    crate::memory::law_write_is_local(m2, q.used + 2, idx, at + 4, 4);
}

/// Recording a completion touches only the used ring.
pub proof fn law_recording_stays_in_the_used_ring(
    q: SplitQueue,
    m: Map<int, u8>,
    head: u16,
    len: u32,
    a: int,
)
    requires
        m.dom().contains(a),
        a < q.used + 2 || a >= q.used + 4 + 8 * q.size,
    ensures
        q.recorded(m, head, len).1.dom() == m.dom(),
        q.recorded(m, head, len).1[a] == m[a],
{
    let at = q.elem_at();
    let next = super::next_index(q.used_idx);
    crate::bytes::lemma_le_bytes_len(head as nat, 4);
    crate::bytes::lemma_le_bytes_len(len as nat, 4);
    crate::bytes::lemma_le_bytes_len(next as nat, 2);
    let id = crate::bytes::le_bytes(head as nat, 4);
    let size = crate::bytes::le_bytes(len as nat, 4);
    let idx = crate::bytes::le_bytes(next as nat, 2);
    let m1 = crate::memory::with_bytes(m, at, id);
    let m2 = crate::memory::with_bytes(m1, at + 4, size);
    crate::memory::lemma_write_keeps_mapped(m, at, id);
    crate::memory::lemma_write_keeps_mapped(m1, at + 4, size);
    crate::memory::lemma_write_keeps_mapped(m2, q.used + 2, idx);
    if q.broken is None && head < q.size {
        assert(0 <= q.used_idx as int % q.size as int <= q.size - 1);
    }
}

/// A chain found in a table has at least one descriptor and no more than the table, and every
/// descriptor before its last has a successor in the table.
proof fn lemma_chain_shape(m: Map<int, u8>, table: int, count: nat, index: int, visited: Seq<int>)
    ensures
        super::chain_from(m, table, count, index, visited) matches Some(ds) ==> {
            &&& 0 < ds.len() <= count - visited.len()
            &&& index < count
        },
    decreases count - visited.len(),
{
    if visited.len() < count && index < count && !visited.contains(index) {
        match super::desc_at(m, table + 16 * index) {
            None => {},
            Some(d) => {
                lemma_chain_shape(m, table, count, d.next as int, visited.push(index));
            },
        }
    }
}

proof fn lemma_buffers_come_from_descriptors(m: Map<int, u8>, ds: Seq<super::Desc>, writable: bool)
    requires
        super::buffers_ok(m, ds),
    ensures
        super::buffers(ds, writable).len() <= ds.len(),
        super::buffers(ds, true).len() + super::buffers(ds, false).len() == ds.len(),
        forall|i: int|
            0 <= i < super::buffers(ds, writable).len() ==> super::buffer_mapped(
                m,
                (#[trigger] super::buffers(ds, writable)[i]).addr as int,
                super::buffers(ds, writable)[i].len as int,
            ),
    decreases ds.len(),
{
    if ds.len() > 0 {
        let front = ds.drop_last();
        assert(forall|i: int| 0 <= i < front.len() ==> front[i] == ds[i]);
        lemma_buffers_come_from_descriptors(m, front, writable);
        let all = super::buffers(ds, writable);
        let some = super::buffers(front, writable);
        assert forall|i: int| 0 <= i < all.len() implies super::buffer_mapped(
            m,
            (#[trigger] all[i]).addr as int,
            all[i].len as int,
        ) by {
            if i < some.len() {
                assert(all[i] == some[i]);
            } else {
                assert(all[i].addr == ds.last().addr && all[i].len == ds.last().len);
            }
        }
    }
}

/// Every chain that is handed out starts inside the queue, has fewer buffers than the queue and one
/// table have descriptors together, and has only buffers that are empty or begin and end in mapped
/// memory.
pub proof fn law_chains_are_checked(q: SplitQueue, m: Map<int, u8>, head: u16)
    ensures
        q.chain(m, head) matches Some(c) ==> {
            &&& c.head == head < q.size
            &&& 0 < c.readable.len() + c.writable.len() <= 2 * q.size - 1
            &&& forall|i: int|
                0 <= i < c.readable.len() ==> super::buffer_mapped(
                    m,
                    (#[trigger] c.readable[i]).addr as int,
                    c.readable[i].len as int,
                )
            &&& forall|i: int|
                0 <= i < c.writable.len() ==> super::buffer_mapped(
                    m,
                    (#[trigger] c.writable[i]).addr as int,
                    c.writable[i].len as int,
                )
        },
{
    lemma_chain_shape(m, q.desc as int, q.size as nat, head as int, Seq::empty());
    if q.chain(m, head) is Some {
        let own = super::chain_from(
            m,
            q.desc as int,
            q.size as nat,
            head as int,
            Seq::empty(),
        )->0;
        let t = own.last();
        if t.is_table() {
            lemma_chain_shape(m, t.addr as int, (t.len / 16) as nat, 0, Seq::empty());
        }
        let ds = q.descriptors(m, head)->0;
        lemma_buffers_come_from_descriptors(m, ds, true);
        lemma_buffers_come_from_descriptors(m, ds, false);
    }
}

/// Readable buffers come before writable ones: in the order of the whole chain, the table that its
/// last descriptor may point at included, the readable buffers are a front part of the
/// descriptors and the writable ones are the rest.
pub proof fn law_readable_buffers_come_first(q: SplitQueue, m: Map<int, u8>, head: u16)
    ensures
        q.chain(m, head) matches Some(c) ==> {
            let ds = q.descriptors(m, head)->0;
            let n = c.readable.len() as int;
            &&& n + c.writable.len() == ds.len()
            &&& forall|i: int|
                0 <= i < n ==> !(#[trigger] ds[i]).writes() && c.readable[i] == (super::Buffer {
                    addr: ds[i].addr,
                    len: ds[i].len,
                })
            &&& forall|i: int|
                n <= i < ds.len() ==> (#[trigger] ds[i]).writes() && c.writable[i - n] == (
                super::Buffer { addr: ds[i].addr, len: ds[i].len })
        },
{
    if q.chain(m, head) is Some {
        lemma_readable_first(m, q.descriptors(m, head)->0);
    }
}

proof fn lemma_readable_first(m: Map<int, u8>, ds: Seq<super::Desc>)
    requires
        super::buffers_ok(m, ds),
    ensures
        ({
            let readable = super::buffers(ds, false);
            let writable = super::buffers(ds, true);
            let n = readable.len() as int;
            &&& n + writable.len() == ds.len()
            &&& forall|i: int|
                0 <= i < n ==> !(#[trigger] ds[i]).writes() && readable[i] == (super::Buffer {
                    addr: ds[i].addr,
                    len: ds[i].len,
                })
            &&& forall|i: int|
                n <= i < ds.len() ==> (#[trigger] ds[i]).writes() && writable[i - n] == (
                super::Buffer { addr: ds[i].addr, len: ds[i].len })
        }),
    decreases ds.len(),
{
    if ds.len() > 0 {
        let front = ds.drop_last();
        assert(forall|i: int| 0 <= i < front.len() ==> front[i] == ds[i]);
        lemma_readable_first(m, front);
        let n = super::buffers(front, false).len() as int;
        if n < front.len() {
            assert(front[n].writes() && ds[n].writes());
            assert(ds[ds.len() - 1].writes());
        }
    }
}

/// Chains leave the queue in the order in which the ring holds their heads, none twice and none
/// left out.
pub proof fn law_heads_leave_in_ring_order(q: SplitQueue, m: Map<int, u8>, i: int)
    requires
        0 <= i < q.drained(m).1.len(),
    ensures
        q.drained(m).1[i].head == crate::memory::value_at(
            m,
            q.avail + 4 + 2 * ((q.last_avail + i) % 0x1_0000 % q.size as int),
            2,
        ),
    decreases i,
{
    q.lemma_pop_advances(m);
    crate::bytes::lemma_le_value_bound(crate::memory::bytes_at(m, q.ring_at(), 2));
    crate::bytes::lemma_byte_ranges();
    let next = q.popped(m).0;
    if i > 0 {
        assert(q.drained(m).1[i] == next.drained(m).1[i - 1]);
        law_heads_leave_in_ring_order(next, m, i - 1);
        assert((next.last_avail + (i - 1)) % 0x1_0000 == (q.last_avail + i) % 0x1_0000);
    } else {
        assert(q.last_avail as int % 0x1_0000 == q.last_avail);
    }
}

/// Draining takes every published chain, one per published index, unless the queue breaks.
pub proof fn law_draining_empties_the_ring(q: SplitQueue, m: Map<int, u8>)
    ensures
        ({
            let (after, chains) = q.drained(m);
            &&& after.broken is Some || (after.pending(m) == 0 && chains.len() == q.pending(m))
            &&& chains.len() <= 0xffff
        }),
    decreases q.pending(m),
{
    q.lemma_pop_advances(m);
    crate::bytes::lemma_le_value_bound(crate::memory::bytes_at(m, q.avail + 2, 2));
    crate::bytes::lemma_byte_ranges();
    lemma_drained_count(q, m);
    match q.popped(m) {
        (_, None) => {},
        (next, Some(_)) => {
            law_draining_empties_the_ring(next, m);
        },
    }
}

proof fn lemma_drained_count(q: SplitQueue, m: Map<int, u8>)
    ensures
        q.drained(m).1.len() <= q.pending(m),
    decreases q.pending(m),
{
    q.lemma_pop_advances(m);
    match q.popped(m) {
        (_, None) => {},
        (next, Some(_)) => {
            lemma_drained_count(next, m);
        },
    }
}

/// With event indices, the element recorded last raises an interrupt exactly when the driver
/// named its index.
pub proof fn law_event_index_names_the_element(q: SplitQueue, m: Map<int, u8>, event: u16)
    requires
        q.broken is None,
        q.event_idx,
        crate::memory::mapped(m, q.event_at(), 2),
        crate::memory::value_at(m, q.event_at(), 2) == event,
    ensures
        (SplitQueue { used_idx: super::next_index(q.used_idx), ..q }).asked(m).1 == (event
            == q.used_idx),
{
}

} // verus!
