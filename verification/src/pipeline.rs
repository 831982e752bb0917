//! The deterministic core of a full run: every order's jobs are dispatched
//! and completed, every completion is counted by the aggregator exactly once.
//! The final counters are a function of the orders alone, which gives both
//! per-order completion totals and idempotence across re-runs.

use vstd::prelude::*;
use crate::aggregator::{
    spec_count_family, spec_count_order, Aggregator, ORDER_SLOTS,
};
use crate::dispatch::{
    complete_job, expand_order, lemma_expand_shape, spec_complete_job, spec_expand,
    spec_items_of,
};
use crate::kitchen::Kitchen;
use crate::model::{Order, PreparedItem, Station};
use crate::station::Job;
use crate::utils::{spec_total_items, FAMILY_COUNT};

verus! {

/// The prepared items a fully completed order produces, in dispatch order.
pub open spec fn spec_order_items(order: Order) -> Seq<PreparedItem> {
    spec_items_of(spec_expand(order.id, order.lines@))
}

/// The prepared items of a full run: every order's items, order by order.
pub open spec fn spec_pipeline_items(orders: Seq<Order>) -> Seq<PreparedItem>
    decreases orders.len(),
{
    if orders.len() == 0 {
        Seq::empty()
    } else {
        spec_pipeline_items(orders.drop_last()) + spec_order_items(orders.last())
    }
}

/// An order's items are one per unit of its lines, and all carry its id.
pub proof fn lemma_order_items_shape(order: Order)
    ensures
        spec_order_items(order).len() == spec_total_items(order.lines@),
        forall|k: int|
            0 <= k < spec_order_items(order).len()
                ==> (#[trigger] spec_order_items(order)[k]).order_id == order.id,
{
    lemma_expand_shape(order.id, order.lines@);
}

/// Over items that all carry one order id, the count for that id is the whole
/// length and the count for every other id is zero.
pub proof fn lemma_count_uniform(items: Seq<PreparedItem>, id: u8)
    requires
        forall|k: int| 0 <= k < items.len() ==> (#[trigger] items[k]).order_id == id,
    ensures
        spec_count_order(items, id as int) == items.len(),
        forall|other: int| other != id ==> #[trigger] spec_count_order(items, other) == 0,
    decreases items.len(),
{
    if items.len() > 0 {
        assert forall|k: int|
            0 <= k < items.drop_last().len()
                implies (#[trigger] items.drop_last()[k]).order_id == id by {
            assert(items[k].order_id == id);
        }
        lemma_count_uniform(items.drop_last(), id);
        assert forall|other: int|
            other != id implies #[trigger] spec_count_order(items, other) == 0 by {
            assert(spec_count_order(items.drop_last(), other) == 0);
        }
    }
}

/// Taking one more order appends exactly that order's items.
pub proof fn lemma_pipeline_take_succ(orders: Seq<Order>, i: int)
    requires
        0 <= i < orders.len(),
    ensures
        spec_pipeline_items(orders.take(i + 1)) == spec_pipeline_items(orders.take(i))
            + spec_order_items(orders[i]),
{
    let taken = orders.take(i + 1);
    assert(taken.drop_last() =~= orders.take(i));
    assert(taken.last() == orders[i]);
}

/// A prefix of the orders yields no more items than the whole run.
pub proof fn lemma_pipeline_prefix_len(orders: Seq<Order>, i: int)
    requires
        0 <= i <= orders.len(),
    ensures
        spec_pipeline_items(orders.take(i)).len() <= spec_pipeline_items(orders).len(),
    decreases orders.len() - i,
{
    if i == orders.len() {
        assert(orders.take(i) =~= orders);
    } else {
        lemma_pipeline_take_succ(orders, i);
        lemma_pipeline_prefix_len(orders, i + 1);
    }
}

/// If no order in the run carries `id`, the run contributes no item to it.
pub proof fn lemma_pipeline_count_absent(orders: Seq<Order>, id: int, fam: int)
    requires
        forall|j: int| 0 <= j < orders.len() ==> (#[trigger] orders[j]).id != id,
    ensures
        spec_count_order(spec_pipeline_items(orders), id) == 0,
        spec_count_family(spec_pipeline_items(orders), id, fam) == 0,
    decreases orders.len(),
{
    if orders.len() > 0 {
        let last = orders.last();
        assert forall|j: int|
            0 <= j < orders.drop_last().len()
                implies (#[trigger] orders.drop_last()[j]).id != id by {
            assert(orders[j].id != id);
        }
        lemma_pipeline_count_absent(orders.drop_last(), id, fam);
        lemma_order_items_shape(last);
        lemma_count_uniform(spec_order_items(last), last.id);
        crate::aggregator::lemma_count_concat(
            spec_pipeline_items(orders.drop_last()),
            spec_order_items(last),
            id,
            fam,
        );
        crate::aggregator::lemma_count_bounds(spec_order_items(last), id);
    }
}

/// With run-unique order ids, the run's count for an order's id is exactly
/// the sum of that order's line quantities.
pub proof fn lemma_pipeline_count(orders: Seq<Order>, k: int)
    requires
        0 <= k < orders.len(),
        forall|j: int|
            0 <= j < orders.len() && j != k ==> (#[trigger] orders[j]).id != orders[k].id,
    ensures
        spec_count_order(spec_pipeline_items(orders), orders[k].id as int)
            == spec_total_items(orders[k].lines@),
    decreases orders.len(),
{
    let id = orders[k].id;
    let last = orders.last();
    lemma_order_items_shape(last);
    lemma_count_uniform(spec_order_items(last), last.id);
    crate::aggregator::lemma_count_concat(
        spec_pipeline_items(orders.drop_last()),
        spec_order_items(last),
        id as int,
        0,
    );
    if k == orders.len() - 1 {
        assert forall|j: int|
            0 <= j < orders.drop_last().len()
                implies (#[trigger] orders.drop_last()[j]).id != id by {
            assert(orders[j].id != id);
        }
        lemma_pipeline_count_absent(orders.drop_last(), id as int, 0);
    } else {
        assert forall|j: int|
            0 <= j < orders.drop_last().len() && j != k
                implies (#[trigger] orders.drop_last()[j]).id != orders.drop_last()[k].id by {
            assert(orders[j].id != orders[k].id);
        }
        lemma_pipeline_count(orders.drop_last(), k);
        assert(last.id != id);
    }
}

/// What a full run leaves behind: a well-formed aggregator whose counters are
/// exactly the per-order and per-family counts of the run's items.
pub open spec fn is_run_result(agg: Aggregator, orders: Seq<Order>) -> bool {
    &&& agg.wf()
    &&& agg.events_seen == spec_pipeline_items(orders).len()
    &&& forall|i: int|
        0 <= i < ORDER_SLOTS ==> #[trigger] agg.done_total@[i]
            == spec_count_order(spec_pipeline_items(orders), i)
    &&& forall|i: int, b: int|
        0 <= i < ORDER_SLOTS && 0 <= b < FAMILY_COUNT
            ==> #[trigger] agg.family_count(i, b)
                == spec_count_family(spec_pipeline_items(orders), i, b)
}

/// Complete every job of a batch, in order: the worker-pool model with no
/// induced failures, where each job yields exactly its own prepared item.
pub fn complete_all(jobs: &Vec<Job>) -> (items: Vec<PreparedItem>)
    ensures
        items@ == spec_items_of(jobs@),
{
    let mut items: Vec<PreparedItem> = Vec::new();
    let mut k: usize = 0;
    while k < jobs.len()
        invariant
            0 <= k <= jobs@.len(),
            items@ == spec_items_of(jobs@.take(k as int)),
        decreases jobs@.len() - k,
    {
        items.push(complete_job(&jobs[k]));
        proof {
            assert(spec_items_of(jobs@.take(k + 1))
                =~= spec_items_of(jobs@.take(k as int))
                    .push(spec_complete_job(jobs@[k as int])));
        }
        k = k + 1;
    }
    proof {
        assert(jobs@.take(jobs@.len() as int) =~= jobs@);
    }
    items
}

/// Process one order to completion with no induced failures: its lines fan
/// out to one job per unit, every job completes, and the results fan back in.
/// The result set has exactly one item per unit, each carrying the order's
/// own id — submission and completion order never change what comes back.
pub fn process_order(order: &Order) -> (prepared: Vec<PreparedItem>)
    ensures
        prepared@ == spec_order_items(*order),
        prepared@.len() == spec_total_items(order.lines@),
        forall|k: int|
            0 <= k < prepared@.len() ==> (#[trigger] prepared@[k]).order_id == order.id,
{
    let jobs = expand_order(order);
    let prepared = complete_all(&jobs);
    proof {
        lemma_order_items_shape(*order);
        assert(prepared@ =~= spec_order_items(*order));
    }
    prepared
}

/// Drain a station as its workers do during a graceful shutdown: repeatedly
/// take the oldest queued job, process it, and go idle, until the queue is
/// empty. Jobs leave in FIFO submission order and each yields exactly its own
/// prepared item; the station ends empty and idle, its bounds untouched.
pub fn drain_station(station: &mut crate::station::StationHandle) -> (items: Vec<PreparedItem>)
    requires
        old(station).wf(),
        old(station).active_workers == 0,
        old(station).workers >= 1,
    ensures
        final(station).wf(),
        final(station).queue@.len() == 0,
        final(station).active_workers == 0,
        items@ == spec_items_of(old(station).queue@),
        final(station).which == old(station).which,
        final(station).workers == old(station).workers,
        final(station).buffer == old(station).buffer,
{
    let ghost full = old(station).queue@;
    let queued = station.queue_len();
    proof {
        assert(full.len() == queued);
    }
    let mut items: Vec<PreparedItem> = Vec::new();
    let mut i: usize = 0;
    while station.queue_len() > 0
        invariant
            full.len() <= usize::MAX,
            station.wf(),
            station.active_workers == 0,
            station.workers >= 1,
            station.which == old(station).which,
            station.workers == old(station).workers,
            station.buffer == old(station).buffer,
            i <= full.len(),
            station.queue@ == full.subrange(i as int, full.len() as int),
            items@ == spec_items_of(full.take(i as int)),
        decreases station.queue@.len(),
    {
        proof {
            assert(i < full.len());
        }
        let taken = station.take_job();
        proof {
            assert(taken is Some);
        }
        let job = taken.unwrap();
        items.push(complete_job(&job));
        station.finish_job();
        proof {
            assert(job == full[i as int]);
            assert(station.queue@ =~= full.subrange(i + 1, full.len() as int));
            assert(items@ =~= spec_items_of(full.take(i + 1)));
        }
        i = i + 1;
    }
    proof {
        assert(full.take(full.len() as int) =~= full);
    }
    items
}

/// Run the whole pipeline to completion over a fixed set of orders: expand
/// each order into its jobs, complete every job, and feed every completion
/// to a fresh aggregator. The resulting counters are a function of the
/// orders alone.
pub fn run_orders(orders: &Vec<Order>) -> (agg: Aggregator)
    requires
        spec_pipeline_items(orders@).len() <= u64::MAX,
    ensures
        is_run_result(agg, orders@),
{
    let mut agg = Aggregator::new();
    let mut k: usize = 0;
    proof {
        assert(orders@.take(0int) =~= Seq::<Order>::empty());
    }
    while k < orders.len()
        invariant
            0 <= k <= orders@.len(),
            spec_pipeline_items(orders@).len() <= u64::MAX,
            agg.wf(),
            agg.events_seen == spec_pipeline_items(orders@.take(k as int)).len(),
            forall|i: int|
                0 <= i < ORDER_SLOTS ==> #[trigger] agg.done_total@[i]
                    == spec_count_order(spec_pipeline_items(orders@.take(k as int)), i),
            forall|i: int, b: int|
                0 <= i < ORDER_SLOTS && 0 <= b < FAMILY_COUNT
                    ==> #[trigger] agg.family_count(i, b)
                        == spec_count_family(spec_pipeline_items(orders@.take(k as int)), i, b),
        decreases orders@.len() - k,
    {
        let jobs = expand_order(&orders[k]);
        let items = complete_all(&jobs);
        proof {
            assert(items@ =~= spec_order_items(orders@[k as int]));
            lemma_pipeline_take_succ(orders@, k as int);
            lemma_pipeline_prefix_len(orders@, k + 1);
            crate::aggregator::lemma_count_concat_all(
                spec_pipeline_items(orders@.take(k as int)),
                items@,
            );
            assert(spec_pipeline_items(orders@.take(k + 1))
                == spec_pipeline_items(orders@.take(k as int)) + items@);
        }
        agg.apply_items(&items);
        k = k + 1;
    }
    proof {
        assert(orders@.take(orders@.len() as int) =~= orders@);
    }
    agg
}

/// How many jobs of a queue belong to order `id`.
pub open spec fn spec_count_jobs_order(jobs: Seq<Job>, id: int) -> int
    decreases jobs.len(),
{
    if jobs.len() == 0 {
        0
    } else {
        spec_count_jobs_order(jobs.drop_last(), id) + (if jobs.last().order_id == id {
            1int
        } else {
            0int
        })
    }
}

/// How many jobs of a queue belong to order `id` and family bucket `b`.
pub open spec fn spec_count_jobs_family(jobs: Seq<Job>, id: int, b: int) -> int
    decreases jobs.len(),
{
    if jobs.len() == 0 {
        0
    } else {
        spec_count_jobs_family(jobs.drop_last(), id, b) + (if jobs.last().order_id == id
            && crate::utils::spec_kind_bucket(jobs.last().item_kind) == b {
            1int
        } else {
            0int
        })
    }
}

/// Appending one job to a queue raises its counts by exactly that job.
pub proof fn lemma_push_job_counts(q: Seq<Job>, job: Job)
    ensures
        forall|id: int|
            #[trigger] spec_count_jobs_order(q.push(job), id) == spec_count_jobs_order(q, id)
                + (if job.order_id == id { 1int } else { 0int }),
        forall|id: int, b: int|
            #[trigger] spec_count_jobs_family(q.push(job), id, b)
                == spec_count_jobs_family(q, id, b) + (if job.order_id == id
                    && crate::utils::spec_kind_bucket(job.item_kind) == b {
                    1int
                } else {
                    0int
                }),
{
    assert(q.push(job).drop_last() =~= q);
}

/// Appending one item to a trace raises its counts by exactly that item.
pub proof fn lemma_push_item_counts(s: Seq<PreparedItem>, item: PreparedItem)
    ensures
        forall|id: int|
            #[trigger] spec_count_order(s.push(item), id) == spec_count_order(s, id)
                + (if item.order_id == id { 1int } else { 0int }),
        forall|id: int, b: int|
            #[trigger] spec_count_family(s.push(item), id, b) == spec_count_family(s, id, b)
                + (if item.order_id == id
                    && crate::utils::spec_kind_bucket(item.item) == b {
                    1int
                } else {
                    0int
                }),
{
    assert(s.push(item).drop_last() =~= s);
}

/// Completing a queue of jobs yields items with the same per-order and
/// per-family counts.
pub proof fn lemma_jobs_items_count(jobs: Seq<Job>, id: int, b: int)
    ensures
        spec_count_order(spec_items_of(jobs), id)
            == spec_count_jobs_order(jobs, id),
        spec_count_family(spec_items_of(jobs), id, b)
            == spec_count_jobs_family(jobs, id, b),
    decreases jobs.len(),
{
    if jobs.len() > 0 {
        lemma_jobs_items_count(jobs.drop_last(), id, b);
        assert(spec_items_of(jobs).drop_last()
            =~= spec_items_of(jobs.drop_last()));
        assert(spec_items_of(jobs).last()
            == spec_complete_job(jobs.last()));
    }
}

/// Completing a queue of jobs yields items with the same counts, for every
/// order id and family.
pub proof fn lemma_jobs_items_count_all(jobs: Seq<Job>)
    ensures
        forall|id: int|
            #[trigger] spec_count_order(spec_items_of(jobs), id)
                == spec_count_jobs_order(jobs, id),
        forall|id: int, b: int|
            #[trigger] spec_count_family(spec_items_of(jobs), id, b)
                == spec_count_jobs_family(jobs, id, b),
{
    assert forall|id: int|
        #[trigger] spec_count_order(spec_items_of(jobs), id)
            == spec_count_jobs_order(jobs, id) by {
        lemma_jobs_items_count(jobs, id, 0);
    }
    assert forall|id: int, b: int|
        #[trigger] spec_count_family(spec_items_of(jobs), id, b)
            == spec_count_jobs_family(jobs, id, b) by {
        lemma_jobs_items_count(jobs, id, b);
    }
}

/// After a full run with no induced failures, an order with a run-unique id
/// has `done_total` equal to the sum of its line quantities, and its family
/// counts sum to that total.
pub proof fn lemma_full_completion(orders: Seq<Order>, agg: Aggregator, k: int)
    requires
        is_run_result(agg, orders),
        0 <= k < orders.len(),
        forall|j: int|
            0 <= j < orders.len() && j != k ==> (#[trigger] orders[j]).id != orders[k].id,
    ensures
        agg.done_total@[orders[k].id as int] == spec_total_items(orders[k].lines@),
        agg.done_total@[orders[k].id as int] == agg.family_count(orders[k].id as int, 0)
            + agg.family_count(orders[k].id as int, 1) + agg.family_count(orders[k].id as int, 2),
{
    lemma_pipeline_count(orders, k);
    let id = orders[k].id as int;
    assert(agg.done_total@[id] == agg.done_burgers@[id] + agg.done_snacks@[id]
        + agg.done_drinks@[id]);
}

/// Queued jobs across the whole kitchen that belong to order `id`.
pub open spec fn spec_queued_order(k: Kitchen, id: int) -> int {
    spec_count_jobs_order(k.grill.queue@, id) + spec_count_jobs_order(k.fryer.queue@, id)
        + spec_count_jobs_order(k.drink.queue@, id)
}

/// Queued jobs across the whole kitchen for order `id` and family `b`.
pub open spec fn spec_queued_family(k: Kitchen, id: int, b: int) -> int {
    spec_count_jobs_family(k.grill.queue@, id, b) + spec_count_jobs_family(k.fryer.queue@, id, b)
        + spec_count_jobs_family(k.drink.queue@, id, b)
}

/// How many jobs sit in the kitchen's queues in all.
pub open spec fn spec_queued_len(k: Kitchen) -> int {
    k.grill.queue@.len() + k.fryer.queue@.len() + k.drink.queue@.len() as int
}

/// A kitchen between processing steps: well formed, every worker idle, and
/// every station able to make progress (a worker and a queue slot each).
pub open spec fn kitchen_idle(k: Kitchen) -> bool {
    &&& k.wf()
    &&& k.grill.active_workers == 0 && k.grill.workers >= 1 && k.grill.buffer >= 1
    &&& k.fryer.active_workers == 0 && k.fryer.workers >= 1 && k.fryer.buffer >= 1
    &&& k.drink.active_workers == 0 && k.drink.workers >= 1 && k.drink.buffer >= 1
}

/// Conservation of completions: every dispatched job is accounted for exactly
/// once, either already counted by the aggregator or still queued at its
/// station — nothing is dropped and nothing is counted twice.
pub open spec fn accounts_for(agg: Aggregator, k: Kitchen, dispatched: Seq<PreparedItem>) -> bool {
    &&& agg.events_seen + spec_queued_len(k) == dispatched.len()
    &&& forall|id: int|
        0 <= id < ORDER_SLOTS ==> #[trigger] agg.done_total@[id] + spec_queued_order(k, id)
            == spec_count_order(dispatched, id)
    &&& forall|id: int, b: int|
        0 <= id < ORDER_SLOTS && 0 <= b < FAMILY_COUNT
            ==> #[trigger] agg.family_count(id, b) + spec_queued_family(k, id, b)
                == spec_count_family(dispatched, id, b)
}

/// Drain one station's queue into the aggregator: its workers complete every
/// queued job in FIFO order and every completion is counted exactly once.
fn absorb_station(station: &mut crate::station::StationHandle, agg: &mut Aggregator)
    requires
        old(station).wf(),
        old(station).active_workers == 0,
        old(station).workers >= 1,
        old(agg).wf(),
        old(agg).events_seen + old(station).queue@.len() <= u64::MAX,
    ensures
        final(station).wf(),
        final(station).queue@.len() == 0,
        final(station).active_workers == 0,
        final(station).which == old(station).which,
        final(station).workers == old(station).workers,
        final(station).buffer == old(station).buffer,
        final(agg).wf(),
        final(agg).events_seen == old(agg).events_seen + old(station).queue@.len(),
        forall|id: int|
            0 <= id < ORDER_SLOTS ==> #[trigger] final(agg).done_total@[id]
                == old(agg).done_total@[id] + spec_count_jobs_order(old(station).queue@, id),
        forall|id: int, b: int|
            0 <= id < ORDER_SLOTS && 0 <= b < FAMILY_COUNT
                ==> #[trigger] final(agg).family_count(id, b) == old(agg).family_count(id, b)
                    + spec_count_jobs_family(old(station).queue@, id, b),
{
    let items = drain_station(station);
    proof {
        lemma_jobs_items_count_all(old(station).queue@);
    }
    agg.apply_items(&items);
}

/// Run the whole pipeline through the station models: every job is routed to
/// its station's bounded queue; a submission that finds the queue full waits
/// while that station's workers drain it, and the drained completions reach
/// the aggregator. Backpressure delays but never drops a job, so the final
/// counters are exactly those of an unconstrained full run.
pub fn run_orders_through_kitchen(orders: &Vec<Order>, kitchen: &mut Kitchen) -> (agg: Aggregator)
    requires
        kitchen_idle(*old(kitchen)),
        old(kitchen).grill.queue@.len() == 0,
        old(kitchen).fryer.queue@.len() == 0,
        old(kitchen).drink.queue@.len() == 0,
        spec_pipeline_items(orders@).len() <= u64::MAX,
    ensures
        is_run_result(agg, orders@),
        kitchen_idle(*final(kitchen)),
        final(kitchen).grill.queue@.len() == 0,
        final(kitchen).fryer.queue@.len() == 0,
        final(kitchen).drink.queue@.len() == 0,
{
    let mut agg = Aggregator::new();
    let ghost mut dispatched: Seq<PreparedItem> = Seq::empty();
    proof {
        assert(orders@.take(0int) =~= Seq::<Order>::empty());
    }
    let mut k: usize = 0;
    while k < orders.len()
        invariant
            0 <= k <= orders@.len(),
            spec_pipeline_items(orders@).len() <= u64::MAX,
            kitchen_idle(*kitchen),
            agg.wf(),
            dispatched == spec_pipeline_items(orders@.take(k as int)),
            accounts_for(agg, *kitchen, dispatched),
        decreases orders@.len() - k,
    {
        let jobs = expand_order(&orders[k]);
        let mut jj: usize = 0;
        while jj < jobs.len()
            invariant
                0 <= jj <= jobs@.len(),
                0 <= k < orders@.len(),
                spec_pipeline_items(orders@).len() <= u64::MAX,
                kitchen_idle(*kitchen),
                agg.wf(),
                jobs@ == spec_expand(orders@[k as int].id, orders@[k as int].lines@),
                dispatched == spec_pipeline_items(orders@.take(k as int))
                    + spec_items_of(jobs@.take(jj as int)),
                accounts_for(agg, *kitchen, dispatched),
            decreases jobs@.len() - jj,
        {
            proof {
                lemma_pipeline_take_succ(orders@, k as int);
                lemma_pipeline_prefix_len(orders@, k + 1);
                assert(spec_order_items(orders@[k as int]) == spec_items_of(jobs@));
                assert(spec_items_of(jobs@.take(jj as int)).len() == jj);
                assert(spec_items_of(jobs@).len() == jobs@.len());
                assert(dispatched.len() < spec_pipeline_items(orders@).len());
            }
            let job = jobs[jj];
            let ghost kb = *kitchen;
            let admitted = kitchen.try_submit(job);
            proof {
                lemma_kitchen_submit_counts(kb, *kitchen, job, admitted);
            }
            if !admitted {
                let ghost kd = *kitchen;
                proof {
                    assert(accounts_for(agg, *kitchen, dispatched));
                }
                match job.item_kind.station() {
                    Station::Grill => absorb_station(&mut kitchen.grill, &mut agg),
                    Station::Fryer => absorb_station(&mut kitchen.fryer, &mut agg),
                    Station::Drink => absorb_station(&mut kitchen.drink, &mut agg),
                }
                proof {
                    assert(accounts_for(agg, *kitchen, dispatched));
                }
                let ghost kb2 = *kitchen;
                let resubmitted = kitchen.try_submit(job);
                proof {
                    lemma_kitchen_submit_counts(kb2, *kitchen, job, resubmitted);
                    assert(resubmitted);
                }
            }
            proof {
                lemma_push_item_counts(dispatched, spec_complete_job(job));
                dispatched = dispatched.push(spec_complete_job(job));
                assert(spec_items_of(jobs@.take(jj + 1))
                    =~= spec_items_of(jobs@.take(jj as int)).push(spec_complete_job(job)));
                assert(accounts_for(agg, *kitchen, dispatched));
            }
            jj = jj + 1;
        }
        proof {
            lemma_pipeline_take_succ(orders@, k as int);
            assert(jobs@.take(jobs@.len() as int) =~= jobs@);
            assert(dispatched =~= spec_pipeline_items(orders@.take(k + 1)));
        }
        k = k + 1;
    }
    proof {
        assert(orders@.take(orders@.len() as int) =~= orders@);
    }
    absorb_station(&mut kitchen.grill, &mut agg);
    absorb_station(&mut kitchen.fryer, &mut agg);
    absorb_station(&mut kitchen.drink, &mut agg);
    agg
}

/// What one routed submission does to the kitchen's queued counts: an
/// admitted job joins its own station's queue and no other; a refused one
/// changes nothing.
proof fn lemma_kitchen_submit_counts(before: Kitchen, after: Kitchen, job: Job, admitted: bool)
    requires
        ({
            let t = job.item_kind.station_spec();
            let b = before.station_view(t);
            let a = after.station_view(t);
            &&& (admitted ==> a.queue@ == b.queue@.push(job))
            &&& (!admitted ==> a.queue@ == b.queue@)
            &&& a.active_workers == b.active_workers
            &&& a.workers == b.workers
            &&& a.buffer == b.buffer
            &&& forall|s: crate::model::Station|
                s != t ==> #[trigger] after.station_view(s) == before.station_view(s)
        }),
    ensures
        after.grill.active_workers == before.grill.active_workers,
        after.grill.workers == before.grill.workers,
        after.grill.buffer == before.grill.buffer,
        after.fryer.active_workers == before.fryer.active_workers,
        after.fryer.workers == before.fryer.workers,
        after.fryer.buffer == before.fryer.buffer,
        after.drink.active_workers == before.drink.active_workers,
        after.drink.workers == before.drink.workers,
        after.drink.buffer == before.drink.buffer,
        admitted ==> spec_queued_len(after) == spec_queued_len(before) + 1,
        !admitted ==> spec_queued_len(after) == spec_queued_len(before),
        forall|id: int|
            #[trigger] spec_queued_order(after, id) == spec_queued_order(before, id)
                + (if admitted && job.order_id == id { 1int } else { 0int }),
        forall|id: int, b: int|
            #[trigger] spec_queued_family(after, id, b) == spec_queued_family(before, id, b)
                + (if admitted && job.order_id == id
                    && crate::utils::spec_kind_bucket(job.item_kind) == b {
                    1int
                } else {
                    0int
                }),
{
    let t = job.item_kind.station_spec();
    assert(after.station_view(Station::Grill).queue@ == after.grill.queue@);
    assert(after.station_view(Station::Fryer).queue@ == after.fryer.queue@);
    assert(after.station_view(Station::Drink).queue@ == after.drink.queue@);
    if t != Station::Grill {
        assert(after.station_view(Station::Grill) == before.station_view(Station::Grill));
    }
    if t != Station::Fryer {
        assert(after.station_view(Station::Fryer) == before.station_view(Station::Fryer));
    }
    if t != Station::Drink {
        assert(after.station_view(Station::Drink) == before.station_view(Station::Drink));
    }
    if admitted {
        lemma_push_job_counts(before.station_view(t).queue@, job);
    }
}

/// Re-running the pipeline over the same fixed orders is idempotent: both
/// runs end with identical counters and event totals.
pub proof fn lemma_run_deterministic(orders: Seq<Order>, a1: Aggregator, a2: Aggregator)
    requires
        is_run_result(a1, orders),
        is_run_result(a2, orders),
    ensures
        a1.done_total@ == a2.done_total@,
        a1.done_burgers@ == a2.done_burgers@,
        a1.done_snacks@ == a2.done_snacks@,
        a1.done_drinks@ == a2.done_drinks@,
        a1.events_seen == a2.events_seen,
{
    assert forall|i: int|
        0 <= i < ORDER_SLOTS implies a1.done_total@[i] == a2.done_total@[i]
            && a1.done_burgers@[i] == a2.done_burgers@[i]
            && a1.done_snacks@[i] == a2.done_snacks@[i]
            && a1.done_drinks@[i] == a2.done_drinks@[i] by {
        assert(a1.family_count(i, 0) == spec_count_family(spec_pipeline_items(orders), i, 0));
        assert(a2.family_count(i, 0) == spec_count_family(spec_pipeline_items(orders), i, 0));
        assert(a1.family_count(i, 1) == spec_count_family(spec_pipeline_items(orders), i, 1));
        assert(a2.family_count(i, 1) == spec_count_family(spec_pipeline_items(orders), i, 1));
        assert(a1.family_count(i, 2) == spec_count_family(spec_pipeline_items(orders), i, 2));
        assert(a2.family_count(i, 2) == spec_count_family(spec_pipeline_items(orders), i, 2));
    }
    assert(a1.done_total@ =~= a2.done_total@);
    assert(a1.done_burgers@ =~= a2.done_burgers@);
    assert(a1.done_snacks@ =~= a2.done_snacks@);
    assert(a1.done_drinks@ =~= a2.done_drinks@);
}

} // verus!
