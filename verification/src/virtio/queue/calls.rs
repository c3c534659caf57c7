//! What the calls of a queue do, and which value of the driver breaks it.
use vstd::prelude::*;

use super::layout::{
    acceptable, half_word, linked, slot, there,
};
use super::{Chain, ChainView, Chains, Desc, Fault, SplitQueue};
use crate::memory::GuestMemory;

verus! {

broadcast use vstd::group_vstd_default;

/// A new queue starts at the beginning of its rings with what it was given. It works exactly with a
/// power of two as its size and with addresses that are multiples of sixteen, two, and four; the
/// size is looked at first.
pub proof fn law_new_queues_start_at_the_beginning(
    size: u16,
    desc: u64,
    avail: u64,
    used: u64,
    indirect: bool,
    event_idx: bool,
    q: SplitQueue,
    broken: bool,
)
    requires
        call_ensures(SplitQueue::new, (size, desc, avail, used, indirect, event_idx), q),
        call_ensures(SplitQueue::is_broken, (&q,), broken),
    ensures
        q.size == size && q.desc == desc && q.avail == avail && q.used == used,
        q.indirect == indirect && q.event_idx == event_idx,
        q.last_avail == 0 && q.used_idx == 0,
        ({
            let sized = vstd::arithmetic::power2::is_pow2(size as int);
            let aligned = desc % 16 == 0 && avail % 2 == 0 && used % 4 == 0;
            &&& broken == !(sized && aligned)
            &&& q.broken is None <==> sized && aligned
            &&& q.broken == Some(Fault::Size) <==> !sized
            &&& q.broken == Some(Fault::Alignment) <==> sized && !aligned
        }),
{
}

/// A queue that broke stays as it is, touches no memory, hands out no chain, takes no completion,
/// and asks for no interrupt.
pub proof fn law_broken_queues_do_nothing(q: SplitQueue, m: Map<int, u8>, head: u16, len: u32)
    requires
        q.broken is Some,
    ensures
        q.popped(m) == (q, None::<ChainView>),
        q.drained(m) == (q, Seq::<ChainView>::empty()),
        q.recorded(m, head, len) == (q, m, false),
        q.asked(m) == (q, false),
{
}

/// The calls of a queue: taking a chain, taking all, recording a completion, and asking whether
/// the driver wants to hear. Memory changes by a completion alone.
pub proof fn law_calls_work_on_the_rings(
    q: &mut SplitQueue,
    taken: Option<Chain>,
    r: &mut SplitQueue,
    n: &mut GuestMemory,
    head: u16,
    len: u32,
    done: bool,
    s: &mut SplitQueue,
    needed: bool,
    mem: &GuestMemory,
)
    requires
        call_ensures(SplitQueue::pop, (q, mem), taken),
        call_ensures(SplitQueue::add_used, (r, n, head, len), done),
        call_ensures(SplitQueue::notification_needed, (s, mem), needed),
    ensures
        *final(q) == old(q).popped(mem@).0,
        taken is Some <==> old(q).popped(mem@).1 is Some,
        taken matches Some(c) ==> old(q).popped(mem@).1 == Some(
            ChainView { head: c.head, readable: c.readable@, writable: c.writable@ },
        ),
        (*final(r), final(n)@, done) == old(r).recorded(old(n)@, head, len),
        (*final(s), needed) == old(s).asked(mem@),
{
}

/// Walking the chains of a queue hands out what the queue hands out, and collecting them hands out
/// every one that is left.
pub proof fn law_walks_take_from_the_queue<'a>(
    q: &'a mut SplitQueue,
    mem: &'a GuestMemory,
    all: Chains<'a>,
    out: Vec<Chain>,
)
    requires
        call_ensures(SplitQueue::chains, (q, mem), all),
        call_ensures(Chains::collect, (all,), out),
    ensures
        *final(q) == old(q).drained(mem@).0,
        out@.len() == old(q).drained(mem@).1.len(),
        forall|i: int|
            0 <= i < out@.len() ==> (#[trigger] out@[i])@ == old(q).drained(mem@).1[i],
{
    assert(super::chain_views(out@) == old(q).drained(mem@).1);
    assert forall|i: int| 0 <= i < out@.len() implies (#[trigger] out@[i])@ == old(q).drained(
        mem@,
    ).1[i] by {
        assert(super::chain_views(out@)[i] == out@[i]@);
    }
}

/// The driver stored a chain of entries of the queue's own table from `head` on.
pub open spec fn begins_a_chain(q: SplitQueue, m: Map<int, u8>, head: int) -> bool {
    exists|idx: Seq<int>, ds: Seq<Desc>|
        #[trigger] linked(m, q.desc as int, q.size as int, idx, ds) && idx[0] == head
}

/// What breaks a queue when it takes a chain, the first of these: the index of the available ring
/// is not mapped; a head was published and its slot is not mapped; the head is no entry of the
/// queue; the entries from there on are no chain; the chain ends in a table that cannot be used; a
/// buffer is not acceptable. The queue keeps all else, and no chain is handed out.
pub proof fn law_bad_chains_break_the_queue(q: SplitQueue, m: Map<int, u8>)
    requires
        q.broken is None,
        q.size > 0,
    ensures
        ({
            let (after, chain) = q.popped(m);
            let counted = there(m, q.avail + 2, 2);
            let waiting = counted && half_word(m, q.avail + 2) != q.last_avail;
            let named = waiting && there(m, slot(q, 0), 2);
            let head = half_word(m, slot(q, 0));
            let good = named && q.descriptors(m, head as u16) is Some;
            &&& after.broken is Some ==> chain is None && after == SplitQueue {
                broken: after.broken,
                ..q
            }
            &&& after.broken == Some(Fault::AvailIndex) <==> !counted
            &&& after.broken == Some(Fault::AvailRing) <==> waiting && !named
            &&& after.broken == Some(Fault::AvailHead) <==> named && head >= q.size
            &&& after.broken == Some(Fault::Descriptor) <==> named && head < q.size
                && !begins_a_chain(q, m, head)
            &&& after.broken == Some(Fault::Table) <==> named && begins_a_chain(q, m, head) && !good
            &&& after.broken == Some(Fault::Buffer) <==> good && !acceptable(
                m,
                q.descriptors(m, head as u16)->0,
            )
            &&& chain is Some <==> good && acceptable(m, q.descriptors(m, head as u16)->0)
        }),
{
    super::layout::lemma_there(m, q.avail + 2, 2);
    super::layout::lemma_there(m, slot(q, 0), 2);
    crate::memory::law_numbers_are_little_endian(m, q.avail + 2);
    crate::memory::law_numbers_are_little_endian(m, slot(q, 0));
    assert((q.last_avail + 0) % 0x1_0000 == q.last_avail);
    assert(slot(q, 0) == q.ring_at());
    let head = half_word(m, slot(q, 0));
    assert(0 <= head <= 0xffff);
    super::layout::law_chains_hold_the_stored_buffers(q, m, head as u16);
    lemma_begins(q, m, head as u16);
}

proof fn lemma_begins(q: SplitQueue, m: Map<int, u8>, head: u16)
    ensures
        begins_a_chain(q, m, head as int) <==> super::chain_from(
            m,
            q.desc as int,
            q.size as nat,
            head as int,
            Seq::empty(),
        ) is Some,
        begins_a_chain(q, m, head as int) ==> head < q.size,
{
    let found = super::chain_from(
        m,
        q.desc as int,
        q.size as nat,
        head as int,
        Seq::empty(),
    );
    if begins_a_chain(q, m, head as int) {
        let (idx, ds) = choose|idx: Seq<int>, ds: Seq<Desc>|
            #[trigger] linked(m, q.desc as int, q.size as int, idx, ds) && idx[0] == head;
        super::layout::lemma_linked_is_chain(
            m,
            q.desc as int,
            q.size as nat,
            idx,
            ds,
            Seq::empty(),
        );
    }
    if found is Some {
        let idx = super::layout::lemma_chain_is_linked(
            m,
            q.desc as int,
            q.size as nat,
            head as int,
            Seq::empty(),
        );
        assert(linked(m, q.desc as int, q.size as int, idx, found->0));
    }
}

/// What breaks a queue when it records a completion, the first of these: the head is no entry of
/// the queue; the next element of the used ring is not mapped, or does not end in 64 bits; its
/// index is not mapped. The index then keeps its value.
pub proof fn law_bad_used_rings_break_the_queue(q: SplitQueue, m: Map<int, u8>, head: u16, len: u32)
    requires
        q.broken is None,
        q.size > 0,
        there(m, q.used + 2, 2),
    ensures
        ({
            let at = q.used + 4 + 8 * (q.used_idx as int % q.size as int);
            let (after, n, done) = q.recorded(m, head, len);
            let fits = at + 4 <= u64::MAX && there(m, at, 4) && there(m, at + 4, 4);
            &&& done <==> head < q.size && fits
            &&& after.broken is Some <==> !done
            &&& !done ==> after == SplitQueue { broken: after.broken, ..q }
            &&& !done ==> half_word(n, q.used + 2) == half_word(m, q.used + 2)
            &&& after.broken == Some(Fault::UsedHead) <==> head >= q.size
            &&& after.broken == Some(Fault::UsedRing) <==> head < q.size && !fits
            &&& head >= q.size ==> n == m
        }),
{
    let at = q.used + 4 + 8 * (q.used_idx as int % q.size as int);
    assert(at >= q.used + 4) by {
        assert(0 <= q.used_idx as int % q.size as int);
    }
    super::layout::lemma_there(m, at, 4);
    super::layout::lemma_there(m, at + 4, 4);
    super::layout::lemma_there(m, q.used + 2, 2);
    assert(at == q.elem_at());
    crate::bytes::lemma_le_bytes_len(head as nat, 4);
}

/// An unmapped used index breaks the queue where nothing else does, and so does an unmapped place
/// for the index that the driver wants to hear about.
pub proof fn law_unmapped_indices_break_the_queue(
    q: SplitQueue,
    m: Map<int, u8>,
    head: u16,
    len: u32,
)
    requires
        q.broken is None,
    ensures
        ({
            let at = q.used + 4 + 8 * (q.used_idx as int % q.size as int);
            head < q.size && at + 4 <= u64::MAX && there(m, at, 4) && there(m, at + 4, 4) && !there(
                m,
                q.used + 2,
                2,
            ) ==> {
                &&& !q.recorded(m, head, len).2
                &&& q.recorded(m, head, len).0 == SplitQueue { broken: Some(Fault::UsedIndex), ..q }
            }
        }),
        q.event_idx && !there(m, q.avail + 4 + 2 * q.size, 2) ==> q.asked(m) == (
            SplitQueue { broken: Some(Fault::UsedEvent), ..q },
            false,
        ),
{
    let at = q.used + 4 + 8 * (q.used_idx as int % q.size as int);
    super::layout::lemma_there(m, at, 4);
    super::layout::lemma_there(m, at + 4, 4);
    super::layout::lemma_there(m, q.used + 2, 2);
    super::layout::lemma_there(m, q.avail + 4 + 2 * q.size, 2);
}

/// What each fault says.
pub proof fn law_faults_have_their_reason(f: Fault, s: &'static str)
    requires
        call_ensures(Fault::reason, (f,), s),
    ensures
        f is Size ==> s@ == "queue size is not a power of two"@,
        f is Alignment ==> s@ == "queue address is misaligned"@,
        f is AvailIndex ==> s@ == "available index is outside guest memory"@,
        f is AvailRing ==> s@ == "available ring is outside guest memory"@,
        f is AvailHead ==> s@ == "available head is outside the queue"@,
        f is Descriptor ==> s@
            == "descriptor chain loops or leaves its table or guest memory"@,
        f is Table ==> s@ == "indirect descriptor is not allowed or its table is malformed"@,
        f is Buffer ==> s@
            == "buffer is outside guest memory or a readable one follows a writable one"@,
        f is UsedHead ==> s@ == "used head is outside the queue"@,
        f is UsedRing ==> s@ == "used ring is outside guest memory"@,
        f is UsedIndex ==> s@ == "used index is outside guest memory"@,
        f is UsedEvent ==> s@ == "used event index is outside guest memory"@,
{
}

/// A step of a walk takes the next chain of its queue.
pub proof fn law_walks_go_chain_by_chain<'a>(all: &mut Chains<'a>, c: Option<Chain>)
    requires
        call_ensures(Chains::next, (all,), c),
    ensures
        *final(all).queue == old(all).queue.popped(old(all).mem@).0,
        *final(all).mem == *old(all).mem,
        c is Some <==> old(all).queue.popped(old(all).mem@).1 is Some,
        c matches Some(c) ==> old(all).queue.popped(old(all).mem@).1 == Some(c@),
{
}

} // verus!
