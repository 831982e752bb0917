//! The station model: a bounded admission queue in FIFO order and a fixed
//! worker pool, with live occupancy (active workers, queue depth) that never
//! exceeds the fixed bounds.

use vstd::prelude::*;
use crate::model::{ItemKind, PreparedItem, Station};

verus! {

/// Event sent from a worker towards the aggregator: one per completed job.
#[derive(Debug, Clone, Copy, PartialEq, Eq, Structural)]
pub enum ProgressEvent {
    ItemDone(PreparedItem),
}

/// One schedulable unit of work, derived from an order line: which order it
/// belongs to, its kind, and its processing duration in seconds.
#[derive(Debug, Clone, Copy, PartialEq, Eq, Structural)]
pub struct Job {
    pub order_id: u8,
    pub item_kind: ItemKind,
    pub duration: u64,
}

/// A station: its identity, a bounded FIFO queue of admitted jobs, and the
/// occupancy of its fixed pool of workers.
#[derive(Debug)]
pub struct StationHandle {
    /// Which station this is; fixed at construction.
    pub which: Station,
    /// Size of the worker pool; fixed at construction.
    pub workers: usize,
    /// Capacity of the admission queue; fixed at construction.
    pub buffer: usize,
    /// Jobs admitted and not yet taken by a worker, oldest first.
    pub queue: Vec<Job>,
    /// Workers currently processing a job.
    pub active_workers: usize,
}

/// How many of `n` submissions a queue of depth `depth` and capacity `cap`
/// admits: all of them, or just enough to fill the queue.
pub open spec fn spec_admitted_count(depth: int, cap: int, n: int) -> int {
    if n <= cap - depth {
        n
    } else {
        cap - depth
    }
}

impl StationHandle {
    /// Well-formedness: occupancy never exceeds the fixed bounds.
    pub open spec fn wf(self) -> bool {
        &&& self.active_workers <= self.workers
        &&& self.queue@.len() <= self.buffer
    }

    /// Create a station with an empty queue and an idle worker pool.
    pub fn new(which: Station, workers: usize, buffer: usize) -> (s: StationHandle)
        ensures
            s.wf(),
            s.which == which,
            s.workers == workers,
            s.buffer == buffer,
            s.queue@.len() == 0,
            s.active_workers == 0,
    {
        StationHandle {
            which,
            workers,
            buffer,
            queue: Vec::new(),
            active_workers: 0,
        }
    }

    /// Current queue length.
    pub fn queue_len(&self) -> (n: usize)
        ensures
            n == self.queue@.len(),
    {
        self.queue.len()
    }

    /// Number of active workers.
    pub fn active(&self) -> (n: usize)
        ensures
            n == self.active_workers,
    {
        self.active_workers
    }

    /// Try to admit one job. The queue admits it exactly when it has room;
    /// a refusal models the submitter suspending, never a drop.
    pub fn try_submit(&mut self, job: Job) -> (admitted: bool)
        requires
            old(self).wf(),
        ensures
            final(self).wf(),
            admitted == (old(self).queue@.len() < old(self).buffer),
            admitted ==> final(self).queue@ == old(self).queue@.push(job),
            !admitted ==> final(self).queue@ == old(self).queue@,
            final(self).which == old(self).which,
            final(self).workers == old(self).workers,
            final(self).buffer == old(self).buffer,
            final(self).active_workers == old(self).active_workers,
    {
        if self.queue.len() < self.buffer {
            self.queue.push(job);
            true
        } else {
            false
        }
    }

    /// Submit a batch of jobs in order; the first `admitted` of them enter the
    /// queue and the rest would suspend their submitters.
    pub fn submit_all(&mut self, jobs: &Vec<Job>) -> (admitted: usize)
        requires
            old(self).wf(),
        ensures
            final(self).wf(),
            admitted == spec_admitted_count(
                old(self).queue@.len() as int,
                old(self).buffer as int,
                jobs@.len() as int,
            ),
            final(self).queue@ == old(self).queue@ + jobs@.take(admitted as int),
            final(self).which == old(self).which,
            final(self).workers == old(self).workers,
            final(self).buffer == old(self).buffer,
            final(self).active_workers == old(self).active_workers,
    {
        let mut i: usize = 0;
        while i < jobs.len()
            invariant
                0 <= i <= jobs@.len(),
                self.wf(),
                self.which == old(self).which,
                self.workers == old(self).workers,
                self.buffer == old(self).buffer,
                self.active_workers == old(self).active_workers,
                self.queue@ == old(self).queue@ + jobs@.take(i as int),
                self.queue@.len() == old(self).queue@.len() + i
                    || (self.queue@.len() == self.buffer
                        && i == spec_admitted_count(
                            old(self).queue@.len() as int,
                            old(self).buffer as int,
                            jobs@.len() as int,
                        )),
            decreases jobs@.len() - i,
        {
            if self.queue.len() >= self.buffer {
                proof {
                    assert(self.queue@ == old(self).queue@ + jobs@.take(i as int));
                }
                return i;
            }
            self.queue.push(jobs[i]);
            proof {
                assert(jobs@.take(i + 1) =~= jobs@.take(i as int).push(jobs@[i as int]));
                assert(self.queue@ =~= old(self).queue@ + jobs@.take(i + 1));
            }
            i = i + 1;
        }
        i
    }

    /// A worker takes the oldest queued job and becomes active; with an empty
    /// queue nothing changes and the worker keeps waiting.
    pub fn take_job(&mut self) -> (j: Option<Job>)
        requires
            old(self).wf(),
            old(self).active_workers < old(self).workers,
        ensures
            final(self).wf(),
            old(self).queue@.len() == 0 ==> {
                &&& j is None
                &&& final(self).queue@ == old(self).queue@
                &&& final(self).active_workers == old(self).active_workers
            },
            old(self).queue@.len() > 0 ==> {
                &&& j == Some(old(self).queue@[0])
                &&& final(self).queue@ == old(self).queue@.subrange(1, old(self).queue@.len() as int)
                &&& final(self).active_workers == old(self).active_workers + 1
            },
            final(self).which == old(self).which,
            final(self).workers == old(self).workers,
            final(self).buffer == old(self).buffer,
    {
        if self.queue.len() == 0 {
            None
        } else {
            let job = self.queue.remove(0);
            self.active_workers = self.active_workers + 1;
            Some(job)
        }
    }

    /// A worker finishes its job and becomes idle again.
    pub fn finish_job(&mut self)
        requires
            old(self).wf(),
            old(self).active_workers > 0,
        ensures
            final(self).wf(),
            final(self).active_workers == old(self).active_workers - 1,
            final(self).queue@ == old(self).queue@,
            final(self).which == old(self).which,
            final(self).workers == old(self).workers,
            final(self).buffer == old(self).buffer,
    {
        self.active_workers = self.active_workers - 1;
    }
}

/// A well-formed station never reports more active workers than its pool size,
/// nor a queue deeper than its capacity.
pub proof fn lemma_occupancy_bounds(s: StationHandle)
    requires
        s.wf(),
    ensures
        s.active_workers <= s.workers,
        s.queue@.len() <= s.buffer,
{
}

/// Backpressure: submitting one job more than the capacity of an empty queue
/// admits exactly the capacity and leaves exactly one submission suspended;
/// once a worker has drained one job, the queue has room for it.
pub proof fn lemma_backpressure(s: StationHandle, n: int)
    requires
        s.wf(),
        s.queue@.len() == 0,
        n == s.buffer + 1,
    ensures
        spec_admitted_count(s.queue@.len() as int, s.buffer as int, n) == s.buffer,
        n - spec_admitted_count(s.queue@.len() as int, s.buffer as int, n) == 1,
        spec_admitted_count(s.buffer - 1, s.buffer as int, 1) == 1,
{
}

} // verus!
