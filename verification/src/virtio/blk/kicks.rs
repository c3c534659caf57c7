//! What holds of a whole kick, from the notification to the end of its job.
use vstd::prelude::*;

use super::backend::FileBackend;
use super::request::IoReply;
use super::worker::{queue_for, ActionView, INT_VRING};
use super::{BlkStats, BlkView, Kick};
use crate::virtio::queue::{ChainView, SplitQueue};
use crate::virtio::QueueNotify;

verus! {

broadcast use vstd::group_vstd_default;

/// What answering chains changes.
pub struct Work {
    /// The queue.
    pub queue: SplitQueue,
    /// Guest memory.
    pub memory: Map<int, u8>,
    /// The counters.
    pub stats: BlkStats,
    /// The used ring took a chain.
    pub completed: bool,
}

/// After `chains` were answered one after the other: each request is served from beginning to end,
/// and recorded in the used ring with its head and the bytes that the device wrote. The image
/// answers chain `i` with `replies[i]`, where it is asked.
pub open spec fn worked(
    w: Work,
    backend: FileBackend,
    serial: Seq<u8>,
    chains: Seq<ChainView>,
    replies: Seq<IoReply>,
) -> Work
    decreases chains.len(),
{
    if chains.len() == 0 {
        w
    } else {
        let o = super::request::served(
            w.memory,
            backend,
            chains[0].readable,
            chains[0].writable,
            serial,
            w.stats,
            replies[0],
        );
        let (queue, memory, done) = w.queue.recorded(o.memory, chains[0].head, o.used);
        worked(
            Work { queue, memory, stats: o.stats, completed: w.completed || done },
            backend,
            serial,
            chains.skip(1),
            replies.skip(1),
        )
    }
}

/// One step of a job, and the transfer that it asks for.
pub open spec fn chain_run(b: BlkView, m: Map<int, u8>, reply: IoReply) -> (
    BlkView,
    Map<int, u8>,
) {
    let (stepped, memory, action) = b.stepped(m);
    if action is Io {
        stepped.finished(memory, reply)
    } else {
        (stepped, memory)
    }
}

/// The first `k` chains of a job.
pub open spec fn job_run(b: BlkView, m: Map<int, u8>, replies: Seq<IoReply>, k: nat) -> (
    BlkView,
    Map<int, u8>,
)
    decreases k,
{
    if k == 0 {
        (b, m)
    } else {
        let (next, memory) = chain_run(b, m, replies[0]);
        job_run(next, memory, replies.skip(1), (k - 1) as nat)
    }
}

/// A kick: the step that takes it, the chains of its job, and the step that ends the job.
pub open spec fn kick_run(b: BlkView, m: Map<int, u8>, replies: Seq<IoReply>) -> (
    BlkView,
    Map<int, u8>,
    ActionView,
) {
    let (taken, memory, _) = b.stepped(m);
    let (done, after) = job_run(taken, memory, replies, taken.job->0.chains.len());
    done.stepped(after)
}

/// What a job works on.
pub open spec fn work_of(b: BlkView, m: Map<int, u8>) -> Work {
    Work {
        queue: b.queue->0,
        memory: m,
        stats: b.stats,
        completed: b.job->0.completed,
    }
}

proof fn lemma_job_run(b: BlkView, m: Map<int, u8>, replies: Seq<IoReply>, k: nat)
    requires
        b.queue is Some,
        b.pending is None,
        b.job is Some,
        k <= b.job->0.chains.len(),
    ensures
        ({
            let (after, memory) = job_run(b, m, replies, k);
            let chains = b.job->0.chains;
            let w = worked(work_of(b, m), b.backend, b.serial, chains.take(k as int), replies);
            &&& after.job is Some && after.job->0.chains == chains.skip(k as int)
            &&& after.queue is Some && after.pending is None
            &&& work_of(after, memory) == w
            &&& after.backend == b.backend && after.serial == b.serial && after.kicks == b.kicks
            &&& k < chains.len() ==> after.stepped(memory).2 is Io || after.stepped(memory).2 is Again
        }),
    decreases k,
{
    let chains = b.job->0.chains;
    if k == 0 {
        assert(chains.skip(0) =~= chains);
        assert(chains.take(0) =~= Seq::<ChainView>::empty());
    } else {
        let (next, memory) = chain_run(b, m, replies[0]);
        assert(next.job->0.chains == chains.skip(1));
        lemma_job_run(next, memory, replies.skip(1), (k - 1) as nat);
        assert(chains.skip(1).skip(k - 1) =~= chains.skip(k as int));
        assert(chains.take(k as int).skip(1) =~= chains.skip(1).take(k - 1));
        assert(chains.take(k as int)[0] == chains[0]);
    }
}

/// The queue, memory, counters, and completions of a kick with notification `n` on `b`.
pub open spec fn kick_work(
    b: BlkView,
    m: Map<int, u8>,
    n: QueueNotify,
    replies: Seq<IoReply>,
) -> Work {
    let (queue, chains) = queue_for(b.queue, n).drained(m);
    worked(
        Work { queue, memory: m, stats: b.stats, completed: false },
        b.backend,
        b.serial,
        chains,
        replies,
    )
}

/// A kick from its notification to the end of its job. Every available chain is taken from the
/// queue; each is answered once, in the order of the ring, and recorded with its head; then the
/// interrupt is raised if the used ring took a chain and the driver asked to hear of it, and not
/// otherwise. No step before the last one raises it.
pub proof fn law_kicks_run_to_their_end(
    b: BlkView,
    m: Map<int, u8>,
    n: QueueNotify,
    replies: Seq<IoReply>,
)
    requires
        b.wf(),
        b.job is None,
        b.pending is None,
        b.kicks.len() > 0,
        b.kicks[0] == Kick::Notify(n),
        replies.len() == queue_for(b.queue, n).drained(m).1.len(),
    ensures
        ({
            let w = kick_work(b, m, n, replies);
            let (queue, raised) = if w.completed {
                w.queue.asked(w.memory)
            } else {
                (w.queue, false)
            };
            kick_run(b, m, replies) == (
                BlkView {
                    stats: w.stats,
                    kicks: b.kicks.skip(1),
                    queue: Some(queue),
                    job: None,
                    pending: None,
                    ..b
                },
                w.memory,
                if raised {
                    ActionView::Raise(INT_VRING)
                } else {
                    ActionView::Again
                },
            )
        }),
        b.stepped(m).2 is Again,
        forall|k: nat|
            k < replies.len() ==> {
                let (at, memory) = #[trigger] job_run(b.stepped(m).0, m, replies, k);
                at.stepped(memory).2 is Io || at.stepped(memory).2 is Again
            },
{
    let taken = b.stepped(m).0;
    let chains = taken.job->0.chains;
    lemma_job_run(taken, m, replies, chains.len());
    assert(chains.take(chains.len() as int) =~= chains);
    assert forall|k: nat| k < replies.len() implies {
        let (at, memory) = #[trigger] job_run(taken, m, replies, k);
        at.stepped(memory).2 is Io || at.stepped(memory).2 is Again
    } by {
        lemma_job_run(taken, m, replies, k);
    }
}

proof fn lemma_served_counts_once(
    m: Map<int, u8>,
    backend: FileBackend,
    chain: ChainView,
    serial: Seq<u8>,
    stats: BlkStats,
    reply: IoReply,
)
    ensures
        super::request::served(
            m,
            backend,
            chain.readable,
            chain.writable,
            serial,
            stats,
            reply,
        ).stats.reqs == super::counted(stats.reqs, 1),
{
}

proof fn lemma_recorded(q: SplitQueue, m: Map<int, u8>, head: u16, len: u32)
    ensures
        ({
            let (after, _, done) = q.recorded(m, head, len);
            &&& after.last_avail == q.last_avail && after.avail == q.avail
            &&& after.broken is None ==> {
                &&& q.broken is None
                &&& done
                &&& after.used_idx == (q.used_idx + 1) % 0x1_0000
            }
        }),
{
}

proof fn lemma_worked(
    w: Work,
    backend: FileBackend,
    serial: Seq<u8>,
    chains: Seq<ChainView>,
    replies: Seq<IoReply>,
)
    requires
        chains.len() <= 0xffff,
    ensures
        ({
            let end = worked(w, backend, serial, chains, replies);
            &&& end.stats.reqs == super::counted(w.stats.reqs, chains.len() as u64)
            &&& end.queue.last_avail == w.queue.last_avail && end.queue.avail == w.queue.avail
            &&& end.queue.broken is None ==> {
                &&& w.queue.broken is None
                &&& end.queue.used_idx == (w.queue.used_idx + chains.len()) % 0x1_0000
                &&& end.completed == (w.completed || chains.len() > 0)
            }
        }),
    decreases chains.len(),
{
    if chains.len() > 0 {
        let o = super::request::served(
            w.memory,
            backend,
            chains[0].readable,
            chains[0].writable,
            serial,
            w.stats,
            replies[0],
        );
        let (queue, memory, done) = w.queue.recorded(o.memory, chains[0].head, o.used);
        let next = Work { queue, memory, stats: o.stats, completed: w.completed || done };
        lemma_served_counts_once(w.memory, backend, chains[0], serial, w.stats, replies[0]);
        lemma_recorded(w.queue, o.memory, chains[0].head, o.used);
        lemma_worked(next, backend, serial, chains.skip(1), replies.skip(1));
        assert(worked(w, backend, serial, chains, replies) == worked(
            next,
            backend,
            serial,
            chains.skip(1),
            replies.skip(1),
        ));
    }
}

/// A kick on a queue that does not break answers as many chains as the driver published since the
/// last kick on the same rings, those whose heads the ring holds from there on. The used index
/// moves on by that many, as does the count of requests, and the used ring took one if there
/// was any. Nothing is left in the ring.
pub proof fn law_kicks_answer_what_was_published(
    b: BlkView,
    m: Map<int, u8>,
    n: QueueNotify,
    replies: Seq<IoReply>,
)
    requires
        kick_work(b, m, n, replies).queue.broken is None,
    ensures
        ({
            let before = queue_for(b.queue, n);
            let chains = before.drained(m).1;
            let w = kick_work(b, m, n, replies);
            &&& chains.len() == before.pending(m)
            &&& forall|i: int|
                0 <= i < chains.len() ==> (#[trigger] chains[i]).head == crate::memory::value_at(
                    m,
                    before.avail + 4 + 2 * ((before.last_avail + i) % 0x1_0000
                        % before.size as int),
                    2,
                )
            &&& w.queue.used_idx == (before.used_idx + chains.len()) % 0x1_0000
            &&& w.stats.reqs == super::counted(b.stats.reqs, chains.len() as u64)
            &&& w.completed == (chains.len() > 0)
            &&& w.queue.pending(m) == 0
        }),
{
    let before = queue_for(b.queue, n);
    crate::virtio::queue::laws::law_draining_empties_the_ring(before, m);
    let (queue, chains) = before.drained(m);
    lemma_worked(
        Work { queue, memory: m, stats: b.stats, completed: false },
        b.backend,
        b.serial,
        chains,
        replies,
    );
    assert forall|i: int| 0 <= i < chains.len() implies (#[trigger] chains[i]).head
        == crate::memory::value_at(
        m,
        before.avail + 4 + 2 * ((before.last_avail + i) % 0x1_0000 % before.size as int),
        2,
    ) by {
        crate::virtio::queue::laws::law_heads_leave_in_ring_order(before, m, i);
    }
    lemma_drained_keeps_used(before, m);
}

proof fn lemma_drained_keeps_used(q: SplitQueue, m: Map<int, u8>)
    ensures
        q.drained(m).0.used_idx == q.used_idx,
    decreases q.pending(m),
{
    q.lemma_pop_advances(m);
    match q.popped(m) {
        (_, None) => {},
        (next, Some(_)) => {
            lemma_drained_keeps_used(next, m);
        },
    }
}

} // verus!
