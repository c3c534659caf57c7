//! The I/O side of a virtio-blk device, one decision at a time.
use vstd::prelude::*;

use super::request::{complete, process, Begin, BlkIo, IoReply, Pending};
use super::{BlkView, Job, JobView, Kick, VirtioBlk};
use crate::memory::GuestMemory;
use crate::virtio::queue::SplitQueue;
use crate::virtio::{QueueNotify, VIRTIO_F_EVENT_IDX, VIRTIO_F_INDIRECT_DESC};

verus! {

broadcast use vstd::group_vstd_default;

/// Interrupt bit for used buffers.
pub const INT_VRING: u32 = 1;

/// What the I/O side does next.
#[derive(Debug)]
pub enum Action {
    /// Nothing is left to do until the next kick.
    Idle,
    /// Ask again.
    Again,
    /// Run this transfer, then hand in the reply.
    Io(BlkIo),
    /// Raise these interrupt bits, then ask again.
    Raise(u32),
}

/// What an [`Action`] asks for.
pub enum ActionView {
    Idle,
    Again,
    Io(super::request::IoView),
    Raise(u32),
}

impl View for Action {
    type V = ActionView;

    open spec fn view(&self) -> ActionView {
        match self {
            Action::Idle => ActionView::Idle,
            Action::Again => ActionView::Again,
            Action::Io(io) => ActionView::Io(io@),
            Action::Raise(bits) => ActionView::Raise(*bits),
        }
    }
}

/// The queue that a kick is about: the one in use when it has the same rings, else a new one.
pub open spec fn queue_for(current: Option<SplitQueue>, n: QueueNotify) -> SplitQueue {
    if current matches Some(q) && q.size == n.size && q.desc == n.desc && q.avail == n.avail
        && q.used == n.used {
        current->0
    } else {
        SplitQueue {
            size: n.size,
            desc: n.desc,
            avail: n.avail,
            used: n.used,
            last_avail: 0,
            used_idx: 0,
            broken: SplitQueue::bind_fault(n.size, n.desc, n.avail, n.used),
            indirect: n.features & VIRTIO_F_INDIRECT_DESC != 0,
            event_idx: n.features & VIRTIO_F_EVENT_IDX != 0,
        }
    }
}

impl BlkView {
    /// After the first chain of the job was answered.
    pub open spec fn recorded(self, o: super::request::Outcome) -> (BlkView, Map<int, u8>) {
        let job = self.job->0;
        let (queue, memory, done) = self.queue->0.recorded(o.memory, job.chains[0].head, o.used);
        (
            BlkView {
                stats: o.stats,
                queue: Some(queue),
                job: Some(
                    JobView {
                        chains: job.chains.skip(1),
                        completed: job.completed || done,
                    },
                ),
                pending: None,
                ..self
            },
            memory,
        )
    }

    /// After one step without a transfer under way: take a kick, start a chain, or end the job.
    pub open spec fn stepped(self, m: Map<int, u8>) -> (BlkView, Map<int, u8>, ActionView) {
        match self.job {
            None => if self.kicks.len() == 0 {
                (self, m, ActionView::Idle)
            } else {
                let rest = self.kicks.skip(1);
                match self.kicks[0] {
                    Kick::Reset => (
                        BlkView { kicks: rest, queue: None, ..self },
                        m,
                        ActionView::Again,
                    ),
                    Kick::Notify(n) => {
                        let (queue, chains) = queue_for(self.queue, n).drained(m);
                        (
                            BlkView {
                                kicks: rest,
                                queue: Some(queue),
                                job: Some(JobView { chains, completed: false }),
                                ..self
                            },
                            m,
                            ActionView::Again,
                        )
                    },
                }
            },
            Some(job) => if job.chains.len() == 0 {
                let (queue, needed) = if job.completed {
                    self.queue->0.asked(m)
                } else {
                    (self.queue->0, false)
                };
                (
                    BlkView { queue: Some(queue), job: None, ..self },
                    m,
                    if needed {
                        ActionView::Raise(INT_VRING)
                    } else {
                        ActionView::Again
                    },
                )
            } else {
                let chain = job.chains[0];
                match super::request::begun(
                    m,
                    self.backend,
                    chain.readable,
                    chain.writable,
                    self.serial,
                    self.stats,
                ) {
                    super::request::BeginView::Finished(o) => {
                        let (after, memory) = self.recorded(o);
                        (after, memory, ActionView::Again)
                    },
                    super::request::BeginView::Wants(io, pending) => (
                        BlkView { pending: Some(pending), ..self },
                        m,
                        ActionView::Io(io),
                    ),
                }
            },
        }
    }

    /// After the transfer under way was done.
    pub open spec fn finished(self, m: Map<int, u8>, reply: IoReply) -> (BlkView, Map<int, u8>) {
        self.recorded(
            super::request::completed(
                m,
                self.job->0.chains[0].writable,
                self.pending->0,
                reply,
                self.stats,
            ),
        )
    }
}

impl VirtioBlk {
    /// Do the next thing that needs no transfer.
    pub fn step(&mut self, mem: &mut GuestMemory) -> (action: Action)
        requires
            old(self).wf(),
            old(mem).wf(),
            old(self)@.pending is None,
        ensures
            final(self).wf(),
            final(mem).wf(),
            (final(self)@, final(mem)@, action@) == old(self)@.stepped(old(mem)@),
    {
        if self.job.is_none() {
            return self.take_kick(mem);
        }
        self.start_chain(mem)
    }

    /// Take the next kick.
    fn take_kick(&mut self, mem: &GuestMemory) -> (action: Action)
        requires
            old(self).wf(),
            mem.wf(),
            old(self)@.pending is None,
            old(self)@.job is None,
        ensures
            final(self).wf(),
            (final(self)@, mem@, action@) == old(self)@.stepped(mem@),
    {
        if self.kicks.len() == 0 {
            return Action::Idle;
        }
        let kick: Kick = self.kicks.remove(0);
        proof {
            assert(self.kicks@ =~= old(self).kicks@.skip(1));
        }
        match kick {
            Kick::Reset => {
                self.queue = None;
            },
            Kick::Notify(notify) => {
                let mut queue: SplitQueue = bind(self.queue, notify);
                let chains = queue.chains(mem).collect();
                proof {
                    assert(crate::virtio::queue::chain_views(chains@).skip(0)
                        =~= crate::virtio::queue::chain_views(chains@));
                }
                self.queue = Some(queue);
                self.job = Some(Job { chains, at: 0, completed: false });
            },
        }
        Action::Again
    }
}

impl VirtioBlk {
    /// Start the next chain of the job, or end the job.
    fn start_chain(&mut self, mem: &mut GuestMemory) -> (action: Action)
        requires
            old(self).wf(),
            old(mem).wf(),
            old(self)@.pending is None,
            old(self)@.job is Some,
        ensures
            final(self).wf(),
            final(mem).wf(),
            (final(self)@, final(mem)@, action@) == old(self)@.stepped(old(mem)@),
    {
        let (at, count, done): (usize, usize, bool) = match &self.job {
            Some(job) => (job.at, job.chains.len(), job.completed),
            None => {
                return Action::Again;
            },
        };
        if at >= count {
            self.job = None;
            if !done {
                return Action::Again;
            }
            if let Some(queue) = &mut self.queue {
                if queue.notification_needed(mem) {
                    return Action::Raise(INT_VRING);
                }
            }
            return Action::Again;
        }
        let begin = match &self.job {
            Some(job) => process(
                mem,
                &self.backend,
                &job.chains[job.at],
                &self.serial,
                &mut self.stats,
            ),
            None => {
                return Action::Again;
            },
        };
        match begin {
            Begin::Finished(used) => {
                self.record(mem, used);
                Action::Again
            },
            Begin::Wants(io, pending) => {
                self.pending = Some(pending);
                Action::Io(io)
            },
        }
    }

    /// Hand in the reply to the transfer under way.
    pub fn finish(&mut self, mem: &mut GuestMemory, reply: IoReply)
        requires
            old(self).wf(),
            old(mem).wf(),
            old(self)@.pending matches Some(p) && p.fits(reply),
        ensures
            final(self).wf(),
            final(mem).wf(),
            (final(self)@, final(mem)@) == old(self)@.finished(old(mem)@, reply),
    {
        let pending: Pending = match self.pending {
            Some(pending) => pending,
            None => {
                return;
            },
        };
        self.pending = None;
        let used: u32 = match &self.job {
            Some(job) => complete(mem, &job.chains[job.at], pending, reply, &mut self.stats),
            None => {
                return;
            },
        };
        self.record(mem, used);
    }

    /// Put the first chain of the job into the used ring.
    fn record(&mut self, mem: &mut GuestMemory, used: u32)
        requires
            old(self).wf(),
            old(mem).wf(),
            old(self)@.job is Some,
            old(self)@.job->0.chains.len() > 0,
        ensures
            final(self).wf(),
            final(mem).wf(),
            (final(self)@, final(mem)@) == old(self)@.recorded(
                (super::request::Outcome { memory: old(mem)@, stats: old(self)@.stats, used }),
            ),
    {
        self.pending = None;
        let head: u16 = match &self.job {
            Some(job) => job.chains[job.at].head,
            None => {
                return;
            },
        };
        let done: bool = match &mut self.queue {
            Some(queue) => queue.add_used(mem, head, used),
            None => {
                return;
            },
        };
        if let Some(job) = &mut self.job {
            let count: usize = job.chains.len();
            assert(job.at < count);
            job.at = job.at + 1;
            job.completed = job.completed || done;
        }
        proof {
            let before = old(self)@.job->0.chains;
            assert(self@.job->0.chains =~= before.skip(1));
        }
    }
}

/// The queue that a kick is about.
fn bind(current: Option<SplitQueue>, n: QueueNotify) -> (q: SplitQueue)
    requires
        current matches Some(c) ==> c.wf(),
    ensures
        q == queue_for(current, n),
        q.wf(),
{
    if let Some(q) = current {
        if q.size == n.size && q.desc == n.desc && q.avail == n.avail && q.used == n.used {
            return q;
        }
    }
    let indirect: bool = n.features & VIRTIO_F_INDIRECT_DESC != 0;
    let event_idx: bool = n.features & VIRTIO_F_EVENT_IDX != 0;
    SplitQueue::new(n.size, n.desc, n.avail, n.used, indirect, event_idx)
}

} // verus!
