//! What a driver stores in guest memory is what the queue takes from there, byte by byte.
use vstd::prelude::*;

use super::{ChainView, Desc, SplitQueue};

verus! {

broadcast use vstd::group_vstd_default;

/// The two bytes at `a`, the low one first, as a number.
pub open spec fn half_word(m: Map<int, u8>, a: int) -> int {
    m[a] + 256 * m[a + 1]
}

/// The four bytes at `a`, the lowest one first, as a number.
pub open spec fn word(m: Map<int, u8>, a: int) -> int {
    half_word(m, a) + 0x1_0000 * half_word(m, a + 2)
}

/// The eight bytes at `a`, the lowest one first, as a number.
pub open spec fn double_word(m: Map<int, u8>, a: int) -> int {
    word(m, a) + 0x1_0000_0000 * word(m, a + 4)
}

/// The `n` bytes at `a` are mapped.
pub open spec fn there(m: Map<int, u8>, a: int, n: int) -> bool {
    forall|i: int| 0 <= i < n ==> m.dom().contains(#[trigger] (a + i))
}

/// The sixteen bytes at `at` hold the descriptor: address, length, flags, and successor.
pub open spec fn stored(m: Map<int, u8>, at: int, d: Desc) -> bool {
    &&& there(m, at, 16)
    &&& d.addr == double_word(m, at)
    &&& d.len == word(m, at + 8)
    &&& d.flags == half_word(m, at + 12)
    &&& d.next == half_word(m, at + 14)
}

pub(crate) proof fn lemma_there(m: Map<int, u8>, a: int, n: int)
    ensures
        there(m, a, n) <==> crate::memory::mapped(m, a, n),
{
    crate::memory::law_regions_map_their_addresses(m, a, n, a);
}

/// A descriptor is read exactly as it was stored: with every address and length, whatever its
/// flags and its successor.
pub proof fn law_stored_descriptors_are_read(m: Map<int, u8>, at: int, d: Desc)
    ensures
        super::desc_at(m, at) == Some(d) <==> stored(m, at, d),
        super::desc_at(m, at) is None <==> !there(m, at, 16),
{
    lemma_there(m, at, 16);
    crate::memory::law_numbers_are_little_endian(m, at);
    crate::memory::law_numbers_are_little_endian(m, at + 8);
    crate::memory::law_numbers_are_little_endian(m, at + 12);
    crate::memory::law_numbers_are_little_endian(m, at + 14);
}

/// Another descriptor follows: the lowest flag.
pub open spec fn has_next(d: Desc) -> bool {
    d.flags % 2 == 1
}

/// The device writes the buffer: the second flag.
pub open spec fn is_written(d: Desc) -> bool {
    d.flags / 2 % 2 == 1
}

/// The buffer is a table of descriptors: the third flag.
pub open spec fn is_indirect(d: Desc) -> bool {
    d.flags / 4 % 2 == 1
}

proof fn lemma_flags(d: Desc)
    ensures
        d.continues() == has_next(d),
        d.writes() == is_written(d),
        d.is_table() == is_indirect(d),
{
    let f = d.flags;
    assert((f & 1 != 0 <==> f % 2 == 1) && (f & 2 != 0 <==> f / 2 % 2 == 1) && (f & 4 != 0 <==> f
        / 4 % 2 == 1)) by (bit_vector);
}

/// The descriptors `ds` stand in the entries `idx` of the table of `count` entries at `table`, no
/// entry twice; each but the last names the entry of the one after it, and the last names none or
/// is itself a table.
pub open spec fn linked(
    m: Map<int, u8>,
    table: int,
    count: int,
    idx: Seq<int>,
    ds: Seq<Desc>,
) -> bool {
    &&& 0 < ds.len() == idx.len() <= count
    &&& forall|i: int| 0 <= i < idx.len() ==> 0 <= #[trigger] idx[i] < count
    &&& forall|i: int| 0 <= i < idx.len() ==> stored(m, table + 16 * idx[i], #[trigger] ds[i])
    &&& forall|i: int, j: int| 0 <= i < j < idx.len() ==> #[trigger] idx[i] != #[trigger] idx[j]
    &&& forall|i: int|
        0 <= i < ds.len() - 1 ==> has_next(#[trigger] ds[i]) && !is_indirect(ds[i]) && ds[i].next
            == idx[i + 1]
    &&& is_indirect(ds.last()) || !has_next(ds.last())
}

pub(crate) proof fn lemma_linked_is_chain(
    m: Map<int, u8>,
    table: int,
    count: nat,
    idx: Seq<int>,
    ds: Seq<Desc>,
    visited: Seq<int>,
)
    requires
        linked(m, table, count as int, idx, ds),
        visited.len() + idx.len() <= count,
        forall|i: int| 0 <= i < idx.len() ==> !visited.contains(#[trigger] idx[i]),
    ensures
        super::chain_from(m, table, count, idx[0], visited) == Some(ds),
    decreases idx.len(),
{
    let d = ds[0];
    law_stored_descriptors_are_read(m, table + 16 * idx[0], d);
    lemma_flags(d);
    if ds.len() == 1 {
        assert(ds =~= seq![d]);
    } else {
        let rest = idx.skip(1);
        let tail = ds.skip(1);
        assert(has_next(ds[0]) && !is_indirect(ds[0]) && ds[0].next == idx[1]);
        assert forall|i: int| 0 <= i < rest.len() implies stored(
            m,
            table + 16 * rest[i],
            #[trigger] tail[i],
        ) by {
            assert(tail[i] == ds[i + 1]);
        }
        assert forall|i: int| 0 <= i < tail.len() - 1 implies has_next(#[trigger] tail[i])
            && !is_indirect(tail[i]) && tail[i].next == rest[i + 1] by {
            assert(tail[i] == ds[i + 1]);
        }
        let seen = visited.push(idx[0]);
        assert forall|i: int| 0 <= i < rest.len() implies !seen.contains(#[trigger] rest[i]) by {
            assert(!visited.contains(idx[i + 1]));
            assert(idx[0] != idx[i + 1]);
        }
        lemma_linked_is_chain(m, table, count, rest, tail, seen);
        assert(ds =~= seq![d] + tail);
    }
}

pub(crate) proof fn lemma_chain_is_linked(
    m: Map<int, u8>,
    table: int,
    count: nat,
    index: int,
    visited: Seq<int>,
) -> (idx: Seq<int>)
    requires
        0 <= index,
        super::chain_from(m, table, count, index, visited) is Some,
    ensures
        linked(
            m,
            table,
            count as int,
            idx,
            super::chain_from(m, table, count, index, visited)->0,
        ),
        idx[0] == index,
        visited.len() + idx.len() <= count,
        forall|i: int| 0 <= i < idx.len() ==> !visited.contains(#[trigger] idx[i]),
    decreases count - visited.len(),
{
    let d = super::desc_at(m, table + 16 * index)->0;
    law_stored_descriptors_are_read(m, table + 16 * index, d);
    lemma_flags(d);
    let ds = super::chain_from(m, table, count, index, visited)->0;
    if d.is_table() || !d.continues() {
        let idx = seq![index];
        assert(ds =~= seq![d]);
        idx
    } else {
        let rest = lemma_chain_is_linked(m, table, count, d.next as int, visited.push(index));
        let tail = super::chain_from(m, table, count, d.next as int, visited.push(index))->0;
        let idx = seq![index] + rest;
        assert(ds =~= seq![d] + tail);
        assert forall|i: int| 0 <= i < idx.len() implies 0 <= #[trigger] idx[i] < count by {
            if i > 0 {
                assert(idx[i] == rest[i - 1]);
            }
        }
        assert forall|i: int| 0 <= i < idx.len() implies stored(
            m,
            table + 16 * idx[i],
            #[trigger] ds[i],
        ) by {
            if i > 0 {
                assert(idx[i] == rest[i - 1] && ds[i] == tail[i - 1]);
            }
        }
        assert forall|i: int, j: int| 0 <= i < j < idx.len() implies #[trigger] idx[i]
            != #[trigger] idx[j] by {
            assert(idx[j] == rest[j - 1]);
            if i > 0 {
                assert(idx[i] == rest[i - 1]);
            } else {
                assert(!visited.push(index).contains(rest[j - 1]));
                assert(visited.push(index)[visited.len() as int] == index);
            }
        }
        assert forall|i: int| 0 <= i < ds.len() - 1 implies has_next(#[trigger] ds[i])
            && !is_indirect(ds[i]) && ds[i].next == idx[i + 1] by {
            assert(idx[i + 1] == rest[i]);
            if i > 0 {
                assert(ds[i] == tail[i - 1]);
            }
        }
        assert(ds.last() == tail.last());
        assert forall|i: int| 0 <= i < idx.len() implies !visited.contains(#[trigger] idx[i]) by {
            if i > 0 {
                assert(!visited.push(index).contains(rest[i - 1]));
                if visited.contains(rest[i - 1]) {
                    let k = visited.index_of(rest[i - 1]);
                    assert(visited.push(index)[k] == rest[i - 1]);
                }
            }
        }
        idx
    }
}

/// The driver stored `ds` as one chain that begins at entry `head` of the queue's table.
pub open spec fn direct(q: SplitQueue, m: Map<int, u8>, head: int, idx: Seq<int>, ds: Seq<Desc>) -> bool {
    &&& linked(m, q.desc as int, q.size as int, idx, ds)
    &&& idx[0] == head
    &&& !is_indirect(ds.last())
}

/// The driver stored `own` as a chain that begins at entry `head` of the queue's table, and its
/// last descriptor points at a table of whole entries, no more than the queue has, that holds the
/// chain `inner` from its first entry on.
pub open spec fn through_a_table(
    q: SplitQueue,
    m: Map<int, u8>,
    head: int,
    idx: Seq<int>,
    own: Seq<Desc>,
    inner_idx: Seq<int>,
    inner: Seq<Desc>,
) -> bool {
    &&& q.indirect
    &&& linked(m, q.desc as int, q.size as int, idx, own)
    &&& idx[0] == head
    &&& is_indirect(own.last()) && !has_next(own.last())
    &&& own.last().len % 16 == 0
    &&& 1 <= own.last().len as int / 16 <= q.size
    &&& linked(m, own.last().addr as int, own.last().len as int / 16, inner_idx, inner)
    &&& inner_idx[0] == 0
    &&& !is_indirect(inner.last())
}

/// A chain that the driver stored, in the queue's own table or with the last part in another one,
/// is found as it was stored.
pub proof fn law_stored_chains_are_found(
    q: SplitQueue,
    m: Map<int, u8>,
    head: u16,
    idx: Seq<int>,
    own: Seq<Desc>,
    inner_idx: Seq<int>,
    inner: Seq<Desc>,
)
    ensures
        direct(q, m, head as int, idx, own) ==> q.descriptors(m, head) == Some(own),
        through_a_table(q, m, head as int, idx, own, inner_idx, inner) ==> q.descriptors(m, head)
            == Some(own.drop_last() + inner),
{
    if linked(m, q.desc as int, q.size as int, idx, own) {
        lemma_linked_is_chain(m, q.desc as int, q.size as nat, idx, own, Seq::empty());
        lemma_flags(own.last());
    }
    if through_a_table(q, m, head as int, idx, own, inner_idx, inner) {
        let t = own.last();
        lemma_linked_is_chain(
            m,
            t.addr as int,
            (t.len / 16) as nat,
            inner_idx,
            inner,
            Seq::empty(),
        );
        lemma_flags(inner.last());
    }
}

/// Nothing else is found: descriptors that the queue finds from `head` on were stored as a chain,
/// in its own table or with the last part in another one.
pub proof fn law_found_chains_were_stored(q: SplitQueue, m: Map<int, u8>, head: u16)
    ensures
        q.descriptors(m, head) matches Some(ds) ==> {
            ||| exists|idx: Seq<int>| direct(q, m, head as int, idx, ds)
            ||| exists|idx: Seq<int>, own: Seq<Desc>, inner_idx: Seq<int>, inner: Seq<Desc>|
                #[trigger] through_a_table(q, m, head as int, idx, own, inner_idx, inner) && ds
                    == own.drop_last() + inner
        },
{
    if q.descriptors(m, head) is Some {
        let ds = q.descriptors(m, head)->0;
        let own = super::chain_from(
            m,
            q.desc as int,
            q.size as nat,
            head as int,
            Seq::empty(),
        )->0;
        let idx = lemma_chain_is_linked(
            m,
            q.desc as int,
            q.size as nat,
            head as int,
            Seq::empty(),
        );
        let t = own.last();
        lemma_flags(t);
        if t.is_table() {
            let inner_idx = lemma_chain_is_linked(
                m,
                t.addr as int,
                (t.len / 16) as nat,
                0,
                Seq::empty(),
            );
            let inner = super::chain_from(m, t.addr as int, (t.len / 16) as nat, 0, Seq::empty())->0;
            lemma_flags(inner.last());
            assert(through_a_table(q, m, head as int, idx, own, inner_idx, inner));
        } else {
            assert(direct(q, m, head as int, idx, ds));
        }
    }
}

/// The descriptors are acceptable: each buffer is empty or begins and ends in mapped memory, and no
/// buffer for reading follows one for writing.
pub open spec fn acceptable(m: Map<int, u8>, ds: Seq<Desc>) -> bool {
    &&& forall|i: int|
        0 <= i < ds.len() ==> {
            let d = #[trigger] ds[i];
            d.len == 0 || (m.dom().contains(d.addr as int) && m.dom().contains(d.addr + d.len - 1))
        }
    &&& forall|i: int, j: int|
        0 <= i < j < ds.len() && is_written(#[trigger] ds[i]) ==> is_written(#[trigger] ds[j])
}

/// A chain is handed out exactly when its descriptors were found and are acceptable. It has the
/// head that was published, and one buffer for each descriptor, in order, with its address and its
/// length: first those that the device reads, then those that it writes.
pub proof fn law_chains_hold_the_stored_buffers(q: SplitQueue, m: Map<int, u8>, head: u16)
    ensures
        q.chain(m, head) is Some <==> q.descriptors(m, head) is Some && acceptable(
            m,
            q.descriptors(m, head)->0,
        ),
        q.chain(m, head) matches Some(c) ==> {
            let ds = q.descriptors(m, head)->0;
            let all = c.readable + c.writable;
            &&& c.head == head
            &&& all.len() == ds.len()
            &&& forall|i: int|
                0 <= i < ds.len() ==> {
                    &&& (#[trigger] all[i]).addr == ds[i].addr
                    &&& all[i].len == ds[i].len
                    &&& i < c.readable.len() <==> !is_written(ds[i])
                }
        },
{
    if q.descriptors(m, head) is Some {
        let ds = q.descriptors(m, head)->0;
        assert forall|i: int| 0 <= i < ds.len() implies (#[trigger] ds[i]).writes() == is_written(
            ds[i],
        ) by {
            lemma_flags(ds[i]);
        }
        if acceptable(m, ds) {
            assert forall|i: int| 0 <= i < ds.len() implies super::buffer_mapped(
                m,
                (#[trigger] ds[i]).addr as int,
                ds[i].len as int,
            ) by {}
            assert(super::buffers_ok(m, ds));
        }
        if q.chain(m, head) is Some {
            assert forall|i: int| 0 <= i < ds.len() implies {
                let d = #[trigger] ds[i];
                d.len == 0 || (m.dom().contains(d.addr as int) && m.dom().contains(
                    d.addr + d.len - 1,
                ))
            } by {
                assert(super::buffer_mapped(m, ds[i].addr as int, ds[i].len as int));
            }
            super::laws::law_readable_buffers_come_first(q, m, head);
            let c = q.chain(m, head)->0;
            let all = c.readable + c.writable;
            assert forall|i: int| 0 <= i < ds.len() implies {
                &&& (#[trigger] all[i]).addr == ds[i].addr
                &&& all[i].len == ds[i].len
                &&& i < c.readable.len() <==> !is_written(ds[i])
            } by {
                let d = ds[i];
                assert(d.writes() == is_written(d));
            }
        }
    }
}

/// Where the available ring holds the head number `k` after those that were taken.
pub open spec fn slot(q: SplitQueue, k: int) -> int {
    q.avail + 4 + 2 * ((q.last_avail + k) % 0x1_0000 % q.size as int)
}

/// How many heads the driver published that were not taken.
pub open spec fn published(q: SplitQueue, m: Map<int, u8>) -> int {
    (half_word(m, q.avail + 2) - q.last_avail) % 0x1_0000
}

/// A queue that works takes the next published head from its slot and hands out its chain, and
/// counts one more as taken. With none published it hands out none and stays as it is.
pub proof fn law_the_next_head_is_taken(q: SplitQueue, m: Map<int, u8>)
    requires
        q.broken is None,
        q.size > 0,
        there(m, q.avail + 2, 2),
    ensures
        half_word(m, q.avail + 2) == q.last_avail ==> q.popped(m) == (q, None::<ChainView>),
        half_word(m, q.avail + 2) != q.last_avail && there(m, slot(q, 0), 2) && q.chain(
            m,
            half_word(m, slot(q, 0)) as u16,
        ) is Some ==> q.popped(m) == (
            SplitQueue { last_avail: ((q.last_avail + 1) % 0x1_0000) as u16, ..q },
            q.chain(m, half_word(m, slot(q, 0)) as u16),
        ),
{
    lemma_there(m, q.avail + 2, 2);
    lemma_there(m, slot(q, 0), 2);
    crate::memory::law_numbers_are_little_endian(m, q.avail + 2);
    crate::memory::law_numbers_are_little_endian(m, slot(q, 0));
    assert((q.last_avail + 0) % 0x1_0000 == q.last_avail);
    assert(slot(q, 0) == q.ring_at());
}

/// A ring whose published slots are mapped and hold heads of good chains is emptied: every chain
/// comes out, in order, and the queue still works.
pub proof fn law_good_rings_are_emptied(q: SplitQueue, m: Map<int, u8>)
    requires
        q.broken is None,
        q.size > 0,
        there(m, q.avail + 2, 2),
        forall|k: int|
            0 <= k < published(q, m) ==> there(m, #[trigger] slot(q, k), 2) && q.chain(
                m,
                half_word(m, slot(q, k)) as u16,
            ) is Some,
    ensures
        ({
            let (after, chains) = q.drained(m);
            &&& chains.len() == published(q, m)
            &&& forall|k: int|
                0 <= k < chains.len() ==> Some(#[trigger] chains[k]) == q.chain(
                    m,
                    half_word(m, slot(q, k)) as u16,
                )
            &&& after == SplitQueue { last_avail: half_word(m, q.avail + 2) as u16, ..q }
        }),
{
    assert forall|k: int| 0 <= k < published(q, m) implies #[trigger] chain_in(q, m, k) is Some by {
        reveal(chain_in);
        assert(there(m, slot(q, k), 2));
    }
    lemma_emptied(q, m);
    let chains = q.drained(m).1;
    assert forall|k: int| 0 <= k < chains.len() implies Some(#[trigger] chains[k]) == q.chain(
        m,
        half_word(m, slot(q, k)) as u16,
    ) by {
        reveal(chain_in);
        assert(chain_in(q, m, k) == Some(chains[k]));
    }
}

/// The chain whose head is in slot `k`, if there is one.
#[verifier::opaque]
spec fn chain_in(q: SplitQueue, m: Map<int, u8>, k: int) -> Option<ChainView> {
    if there(m, slot(q, k), 2) {
        q.chain(m, half_word(m, slot(q, k)) as u16)
    } else {
        None
    }
}

proof fn lemma_emptied(q: SplitQueue, m: Map<int, u8>)
    requires
        q.broken is None,
        q.size > 0,
        there(m, q.avail + 2, 2),
        forall|k: int| 0 <= k < published(q, m) ==> #[trigger] chain_in(q, m, k) is Some,
    ensures
        q.drained(m).1.len() == published(q, m),
        forall|k: int|
            0 <= k < published(q, m) ==> #[trigger] chain_in(q, m, k) == Some(q.drained(m).1[k]),
        q.drained(m).0 == (SplitQueue { last_avail: half_word(m, q.avail + 2) as u16, ..q }),
    decreases published(q, m),
{
    let next = SplitQueue { last_avail: ((q.last_avail + 1) % 0x1_0000) as u16, ..q };
    lemma_first_out(q, m, next);
    if half_word(m, q.avail + 2) != q.last_avail {
        assert forall|k: int| 0 <= k < published(next, m) implies #[trigger] chain_in(
            next,
            m,
            k,
        ) is Some by {
            lemma_same_chain(q, next, m, k);
            assert(chain_in(q, m, k + 1) is Some);
        }
        lemma_emptied(next, m);
        assert forall|k: int| 0 <= k < published(q, m) implies #[trigger] chain_in(q, m, k) == Some(
            q.drained(m).1[k],
        ) by {
            if k > 0 {
                lemma_same_chain(q, next, m, k - 1);
                assert(q.drained(m).1[k] == next.drained(m).1[k - 1]);
            }
        }
    }
}

proof fn lemma_first_out(q: SplitQueue, m: Map<int, u8>, next: SplitQueue)
    requires
        q.broken is None,
        q.size > 0,
        there(m, q.avail + 2, 2),
        published(q, m) > 0 ==> chain_in(q, m, 0) is Some,
        next == (SplitQueue { last_avail: ((q.last_avail + 1) % 0x1_0000) as u16, ..q }),
    ensures
        half_word(m, q.avail + 2) == q.last_avail ==> published(q, m) == 0 && q.drained(m) == (
            q,
            Seq::<ChainView>::empty(),
        ),
        half_word(m, q.avail + 2) != q.last_avail ==> {
            &&& published(q, m) > 0
            &&& published(next, m) == published(q, m) - 1
            &&& q.drained(m).0 == next.drained(m).0
            &&& q.drained(m).1 == seq![chain_in(q, m, 0)->0] + next.drained(m).1
        },
{
    crate::memory::law_numbers_are_little_endian(m, q.avail + 2);
    law_the_next_head_is_taken(q, m);
    reveal(chain_in);
    assert(0 <= half_word(m, q.avail + 2) <= 0xffff);
}

proof fn lemma_next_slot(q: SplitQueue, next: SplitQueue, k: int)
    requires
        q.size > 0,
        k >= 0,
        next == (SplitQueue { last_avail: ((q.last_avail + 1) % 0x1_0000) as u16, ..q }),
    ensures
        slot(next, k) == slot(q, k + 1),
{
    assert((next.last_avail + k) % 0x1_0000 == (q.last_avail + (k + 1)) % 0x1_0000);
}

proof fn lemma_same_chain(q: SplitQueue, next: SplitQueue, m: Map<int, u8>, k: int)
    requires
        q.size > 0,
        k >= 0,
        next == (SplitQueue { last_avail: ((q.last_avail + 1) % 0x1_0000) as u16, ..q }),
    ensures
        chain_in(next, m, k) == chain_in(q, m, k + 1),
{
    reveal(chain_in);
    lemma_next_slot(q, next, k);
}

/// A completion of a chain of the queue, with its used ring mapped, is stored: the next element
/// holds the head and the length, the used index counts one more, and no other byte changes.
pub proof fn law_completions_are_stored(q: SplitQueue, m: Map<int, u8>, head: u16, len: u32)
    requires
        q.broken is None,
        head < q.size,
        q.used + 4 + 8 * (q.used_idx as int % q.size as int) + 4 <= u64::MAX,
        there(m, q.used + 4 + 8 * (q.used_idx as int % q.size as int), 8),
        there(m, q.used + 2, 2),
    ensures
        ({
            let at = q.used + 4 + 8 * (q.used_idx as int % q.size as int);
            let (after, n, done) = q.recorded(m, head, len);
            &&& done
            &&& after == SplitQueue { used_idx: ((q.used_idx + 1) % 0x1_0000) as u16, ..q }
            &&& word(n, at) == head
            &&& word(n, at + 4) == len
            &&& half_word(n, q.used + 2) == (q.used_idx + 1) % 0x1_0000
            &&& n.dom() == m.dom()
            &&& forall|a: int|
                m.dom().contains(a) && !(at <= a < at + 8) && !(q.used + 2 <= a < q.used + 4)
                    ==> #[trigger] n[a] == m[a]
        }),
{
    let at = q.used + 4 + 8 * (q.used_idx as int % q.size as int);
    let n = q.recorded(m, head, len).1;
    assert(at >= q.used + 4) by {
        assert(0 <= q.used_idx as int % q.size as int);
    }
    lemma_there(m, at, 8);
    lemma_there(m, q.used + 2, 2);
    assert(crate::memory::mapped(m, at, 4) && crate::memory::mapped(m, at + 4, 4));
    assert(at == q.elem_at());
    super::laws::law_used_element_reads_back(q, m, head, len);
    crate::memory::law_numbers_are_little_endian(n, at);
    crate::memory::law_numbers_are_little_endian(n, at + 4);
    crate::memory::law_numbers_are_little_endian(n, q.used + 2);
    let next = super::next_index(q.used_idx);
    crate::bytes::lemma_le_bytes_len(head as nat, 4);
    crate::bytes::lemma_le_bytes_len(len as nat, 4);
    crate::bytes::lemma_le_bytes_len(next as nat, 2);
    let id = crate::bytes::le_bytes(head as nat, 4);
    let size = crate::bytes::le_bytes(len as nat, 4);
    let idx = crate::bytes::le_bytes(next as nat, 2);
    let m1 = crate::memory::with_bytes(m, at, id);
    let m2 = crate::memory::with_bytes(m1, at + 4, size);
    crate::memory::lemma_write_keeps_mapped(m, at, id);
    crate::memory::lemma_write_keeps_mapped(m1, at + 4, size);
    crate::memory::lemma_write_keeps_mapped(m2, q.used + 2, idx);
}

/// Without event indices the driver hears of completions unless the lowest flag of the available
/// ring is set. With them it hears of the one whose used index it named behind the available ring.
pub proof fn law_the_driver_is_told_what_it_asked_for(q: SplitQueue, m: Map<int, u8>)
    requires
        q.broken is None,
    ensures
        !q.event_idx && there(m, q.avail as int, 2) ==> q.asked(m) == (q, m[q.avail as int] % 2
            == 0),
        !q.event_idx && !there(m, q.avail as int, 2) ==> q.asked(m) == (q, false),
        q.event_idx && there(m, q.avail + 4 + 2 * q.size, 2) ==> q.asked(m) == (
            q,
            (half_word(m, q.avail + 4 + 2 * q.size) + 1) % 0x1_0000 == q.used_idx,
        ),
{
    lemma_there(m, q.avail as int, 2);
    lemma_there(m, q.avail + 4 + 2 * q.size, 2);
    crate::memory::law_numbers_are_little_endian(m, q.avail as int);
    crate::memory::law_numbers_are_little_endian(m, q.avail + 4 + 2 * q.size);
    let f = crate::memory::value_at(m, q.avail as int, 2) as u16;
    assert(f & 1 == 0 <==> f % 2 == 0) by (bit_vector);
    let low = m[q.avail as int] as int;
    let high = m[q.avail + 1] as int;
    assert((low + 256 * high) % 2 == low % 2);
}

/// A queue can be used exactly with a power of two as its size and with addresses that are
/// multiples of sixteen, two, and four.
pub proof fn law_queues_are_aligned(size: u16, desc: u64, avail: u64, used: u64)
    ensures
        SplitQueue::bind_fault(size, desc, avail, used) is None
            <==> vstd::arithmetic::power2::is_pow2(size as int) && desc % 16 == 0 && avail % 2 == 0
            && used % 4 == 0,
{
}

} // verus!
