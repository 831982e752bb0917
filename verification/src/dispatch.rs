//! Order fan-out and fan-in: expanding an order into its jobs, the identity a
//! completed job produces, and reassembling per-order results while tolerating
//! individually lost completions.

use vstd::prelude::*;
use crate::model::{Order, OrderLine, PreparedItem};
use crate::station::Job;
use crate::utils::spec_total_items;

verus! {

/// The job one unit of a line becomes: the order's id, the line's kind, and
/// the line's preparation time.
pub open spec fn spec_job_of(id: u8, line: OrderLine) -> Job {
    Job {
        order_id: id,
        item_kind: line.item,
        duration: line.prep_time_spec(),
    }
}

/// One line expands to `quantity` identical jobs.
pub open spec fn spec_expand_line(id: u8, line: OrderLine) -> Seq<Job> {
    Seq::new(line.quantity as nat, |i: int| spec_job_of(id, line))
}

/// An order's lines expand, line by line in order, to the jobs dispatched for
/// the order.
pub open spec fn spec_expand(id: u8, lines: Seq<OrderLine>) -> Seq<Job>
    decreases lines.len(),
{
    if lines.len() == 0 {
        Seq::empty()
    } else {
        spec_expand(id, lines.drop_last()) + spec_expand_line(id, lines.last())
    }
}

/// The number of jobs dispatched for an order equals the sum of its line
/// quantities, and every job carries the order's id.
pub proof fn lemma_expand_shape(id: u8, lines: Seq<OrderLine>)
    ensures
        spec_expand(id, lines).len() == spec_total_items(lines),
        forall|k: int|
            0 <= k < spec_expand(id, lines).len() ==> (#[trigger] spec_expand(id, lines)[k]).order_id == id,
    decreases lines.len(),
{
    if lines.len() > 0 {
        lemma_expand_shape(id, lines.drop_last());
    }
}

/// Expand an order into one job per unit of each line: `quantity` jobs per
/// line, each with the order's id, the line's kind, and its preparation time.
pub fn expand_order(order: &Order) -> (jobs: Vec<Job>)
    ensures
        jobs@ == spec_expand(order.id, order.lines@),
        jobs@.len() == spec_total_items(order.lines@),
        forall|k: int| 0 <= k < jobs@.len() ==> (#[trigger] jobs@[k]).order_id == order.id,
{
    let mut jobs: Vec<Job> = Vec::new();
    let mut i: usize = 0;
    while i < order.lines.len()
        invariant
            0 <= i <= order.lines@.len(),
            jobs@ == spec_expand(order.id, order.lines@.take(i as int)),
        decreases order.lines@.len() - i,
    {
        let line = order.lines[i];
        let job = Job {
            order_id: order.id,
            item_kind: line.item,
            duration: line.prep_time(),
        };
        let mut q: u8 = 0;
        while q < line.quantity
            invariant
                0 <= q <= line.quantity,
                job == spec_job_of(order.id, line),
                jobs@ == spec_expand(order.id, order.lines@.take(i as int))
                    + Seq::new(q as nat, |k: int| spec_job_of(order.id, line)),
            decreases line.quantity - q,
        {
            jobs.push(job);
            proof {
                assert(Seq::new((q + 1) as nat, |k: int| spec_job_of(order.id, line))
                    =~= Seq::new(q as nat, |k: int| spec_job_of(order.id, line))
                        .push(spec_job_of(order.id, line)));
                assert(jobs@ =~= spec_expand(order.id, order.lines@.take(i as int))
                    + Seq::new((q + 1) as nat, |k: int| spec_job_of(order.id, line)));
            }
            q = q + 1;
        }
        proof {
            let taken = order.lines@.take(i + 1);
            assert(taken.drop_last() =~= order.lines@.take(i as int));
            assert(taken.last() == order.lines@[i as int]);
            assert(jobs@ =~= spec_expand(order.id, taken));
        }
        i = i + 1;
    }
    proof {
        assert(order.lines@.take(order.lines@.len() as int) =~= order.lines@);
        lemma_expand_shape(order.id, order.lines@);
    }
    jobs
}

/// The item a worker produces for a job: the pipeline never mutates identity,
/// so the result carries the job's own order id and item kind.
pub open spec fn spec_complete_job(job: Job) -> PreparedItem {
    PreparedItem {
        order_id: job.order_id,
        item: job.item_kind,
    }
}

/// The items a batch of jobs produces, one per job, in order.
pub open spec fn spec_items_of(jobs: Seq<Job>) -> Seq<PreparedItem> {
    jobs.map_values(|j: Job| spec_complete_job(j))
}

/// Produce the prepared item for a job. The `(order_id, item_kind)` on the
/// job's input equals the pair on its produced item.
pub fn complete_job(job: &Job) -> (item: PreparedItem)
    ensures
        item == spec_complete_job(*job),
        item.order_id == job.order_id,
        item.item == job.item_kind,
{
    PreparedItem {
        order_id: job.order_id,
        item: job.item_kind,
    }
}

/// The results that survive fan-in: each resolved completion in order, each
/// broken one silently omitted.
pub open spec fn spec_collect(results: Seq<Option<PreparedItem>>) -> Seq<PreparedItem>
    decreases results.len(),
{
    if results.len() == 0 {
        Seq::empty()
    } else {
        match results.last() {
            Some(item) => spec_collect(results.drop_last()).push(item),
            None => spec_collect(results.drop_last()),
        }
    }
}

/// Fan-in never invents results, and with no lost completion it keeps them
/// all, in order.
pub proof fn lemma_collect_shape(results: Seq<Option<PreparedItem>>)
    ensures
        spec_collect(results).len() <= results.len(),
        (forall|k: int| 0 <= k < results.len() ==> (#[trigger] results[k]) is Some)
            ==> spec_collect(results).len() == results.len(),
    decreases results.len(),
{
    if results.len() > 0 {
        lemma_collect_shape(results.drop_last());
    }
}

/// Join on all per-job completion outcomes: keep every resolved result in
/// arrival order, drop each broken one rather than failing the order.
pub fn collect_results(results: &Vec<Option<PreparedItem>>) -> (prepared: Vec<PreparedItem>)
    ensures
        prepared@ == spec_collect(results@),
        prepared@.len() <= results@.len(),
        (forall|k: int| 0 <= k < results@.len() ==> (#[trigger] results@[k]) is Some)
            ==> prepared@.len() == results@.len(),
{
    let mut prepared: Vec<PreparedItem> = Vec::new();
    let mut i: usize = 0;
    while i < results.len()
        invariant
            0 <= i <= results@.len(),
            prepared@ == spec_collect(results@.take(i as int)),
        decreases results@.len() - i,
    {
        proof {
            let taken = results@.take(i + 1);
            assert(taken.drop_last() =~= results@.take(i as int));
            assert(taken.last() == results@[i as int]);
        }
        match &results[i] {
            Some(item) => {
                prepared.push(*item);
            }
            None => {}
        }
        i = i + 1;
    }
    proof {
        assert(results@.take(results@.len() as int) =~= results@);
        lemma_collect_shape(results@);
    }
    prepared
}

} // verus!
