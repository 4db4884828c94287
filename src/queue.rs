//! Decisions of the single worker that drains the durable job queue. The
//! queue itself lives on disk; this state mirrors its entries, in order.
use vstd::prelude::*;

verus! {

/// What a queued job asks for.
#[derive(Clone, Copy, Debug, PartialEq, Eq, Structural)]
pub enum JobKind {
    /// Render and report the diff of a pull request.
    Diff,
    /// Scheduled maintenance.
    Cleanup,
}

/// One entry of the durable queue.
#[derive(Clone, Copy, Debug, PartialEq, Eq, Structural)]
pub struct QueueEntry {
    pub id: u64,
    pub kind: JobKind,
}

/// Something that happened to the worker.
#[derive(Clone, Copy, Debug, PartialEq, Eq, Structural)]
pub enum WorkerEvent {
    /// An entry was appended to the queue on disk.
    Enqueued(QueueEntry),
    /// The worker is free and asks for work.
    Poll,
    /// The job in flight returned, successfully or with a terminal failure.
    Finished,
}

/// What the worker does next.
#[derive(Clone, Copy, Debug, PartialEq, Eq, Structural)]
pub enum WorkerAction {
    /// Tell the sender that the entry is stored.
    Acknowledge(u64),
    /// Run the pipeline on the entry; it stays queued until it is committed.
    Run(QueueEntry),
    /// Remove the entry from the queue on disk.
    Commit(u64),
    /// Nothing to do.
    Wait,
}

/// The queue as the worker sees it: stored entries, oldest first, and
/// whether the oldest one is being processed.
pub struct Worker {
    pub pending: Vec<QueueEntry>,
    pub in_flight: bool,
}

impl Worker {
    /// Whether the state is consistent: only a stored entry can be in flight.
    pub open spec fn wf(&self) -> bool {
        self.in_flight ==> self.pending@.len() > 0
    }

    /// The worker after a start or a restart: every stored entry is pending
    /// and none is in flight, so an entry whose job was cut short by a crash
    /// is delivered again.
    pub fn new(stored: Vec<QueueEntry>) -> (r: Worker)
        ensures
            r.wf(),
            r.pending@ == stored@,
            !r.in_flight,
    {
        Worker { pending: stored, in_flight: false }
    }

    /// Takes one event and says what to do. Entries are acknowledged only
    /// once stored, run oldest first and one at a time, and removed only
    /// when the job in flight has finished.
    pub fn step(&mut self, event: WorkerEvent) -> (r: WorkerAction)
        requires
            old(self).wf(),
        ensures
            final(self).wf(),
            match event {
                WorkerEvent::Enqueued(e) => {
                    &&& final(self).pending@ == old(self).pending@.push(e)
                    &&& final(self).in_flight == old(self).in_flight
                    &&& r == WorkerAction::Acknowledge(e.id)
                },
                WorkerEvent::Poll => if !old(self).in_flight && old(self).pending@.len() > 0 {
                    &&& final(self).pending@ == old(self).pending@
                    &&& final(self).in_flight
                    &&& r == WorkerAction::Run(old(self).pending@[0])
                } else {
                    &&& final(self).pending@ == old(self).pending@
                    &&& final(self).in_flight == old(self).in_flight
                    &&& r == WorkerAction::Wait
                },
                WorkerEvent::Finished => if old(self).in_flight {
                    &&& final(self).pending@ == old(self).pending@.drop_first()
                    &&& !final(self).in_flight
                    &&& r == WorkerAction::Commit(old(self).pending@[0].id)
                } else {
                    &&& final(self).pending@ == old(self).pending@
                    &&& !final(self).in_flight
                    &&& r == WorkerAction::Wait
                },
            },
    {
        match event {
            WorkerEvent::Enqueued(e) => {
                self.pending.push(e);
                WorkerAction::Acknowledge(e.id)
            },
            WorkerEvent::Poll => {
                if !self.in_flight && self.pending.len() > 0 {
                    self.in_flight = true;
                    WorkerAction::Run(self.pending[0])
                } else {
                    WorkerAction::Wait
                }
            },
            WorkerEvent::Finished => {
                if self.in_flight {
                    let done = self.pending.remove(0);
                    self.in_flight = false;
                    WorkerAction::Commit(done.id)
                } else {
                    WorkerAction::Wait
                }
            },
        }
    }
}

} // verus!
