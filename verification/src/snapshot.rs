//! Building the data of one rendered snapshot: each station's occupancy row
//! and one row per known order with a nonzero item total. Formatting and
//! terminal output live outside the library; this module fixes exactly what
//! a render shows.

use vstd::prelude::*;
use crate::aggregator::{Aggregator, ORDER_SLOTS};
use crate::kitchen::Kitchen;
use crate::model::{Order, Station};
use crate::station::StationHandle;
use crate::utils::spec_total_items;

verus! {

/// One station's line of the snapshot: its occupancy against its fixed bounds.
#[derive(Debug, Clone, Copy, PartialEq, Eq, Structural)]
pub struct StationRow {
    pub which: Station,
    pub active: usize,
    pub workers: usize,
    pub queue_len: usize,
    pub buffer: usize,
}

/// One order's line of the snapshot: its completion counts against its total.
#[derive(Debug, Clone, Copy, PartialEq, Eq, Structural)]
pub struct OrderRow {
    pub id: u8,
    pub done: u64,
    pub total: u64,
    pub burgers: u64,
    pub snacks: u64,
    pub drinks: u64,
}

/// The row a station shows: its live occupancy beside its fixed bounds.
pub open spec fn spec_station_row(s: StationHandle) -> StationRow {
    StationRow {
        which: s.which,
        active: s.active_workers,
        workers: s.workers,
        queue_len: s.queue@.len() as usize,
        buffer: s.buffer,
    }
}

/// The row order `i` shows.
pub open spec fn spec_order_row(agg: Aggregator, totals: Seq<u64>, i: int) -> OrderRow {
    OrderRow {
        id: i as u8,
        done: agg.done_total@[i],
        total: totals[i],
        burgers: agg.done_burgers@[i],
        snacks: agg.done_snacks@[i],
        drinks: agg.done_drinks@[i],
    }
}

/// The order rows of a snapshot: ids below `n` in increasing order, keeping
/// exactly those with a nonzero total.
pub open spec fn spec_order_rows(agg: Aggregator, totals: Seq<u64>, n: int) -> Seq<OrderRow>
    decreases n,
{
    if n <= 0 {
        Seq::empty()
    } else {
        spec_order_rows(agg, totals, n - 1) + (if totals[n - 1] != 0 {
            seq![spec_order_row(agg, totals, n - 1)]
        } else {
            Seq::empty()
        })
    }
}

/// The three station rows of the snapshot, in display order.
pub fn station_rows(kitchen: &Kitchen) -> (rows: Vec<StationRow>)
    ensures
        rows@.len() == 3,
        rows@[0] == spec_station_row(kitchen.station_view(Station::Grill)),
        rows@[1] == spec_station_row(kitchen.station_view(Station::Fryer)),
        rows@[2] == spec_station_row(kitchen.station_view(Station::Drink)),
{
    let mut rows: Vec<StationRow> = Vec::new();
    rows.push(StationRow {
        which: kitchen.grill.which,
        active: kitchen.grill.active(),
        workers: kitchen.grill.workers,
        queue_len: kitchen.grill.queue_len(),
        buffer: kitchen.grill.buffer,
    });
    rows.push(StationRow {
        which: kitchen.fryer.which,
        active: kitchen.fryer.active(),
        workers: kitchen.fryer.workers,
        queue_len: kitchen.fryer.queue_len(),
        buffer: kitchen.fryer.buffer,
    });
    rows.push(StationRow {
        which: kitchen.drink.which,
        active: kitchen.drink.active(),
        workers: kitchen.drink.workers,
        queue_len: kitchen.drink.queue_len(),
        buffer: kitchen.drink.buffer,
    });
    rows
}

/// The order rows of the snapshot: one per known order id with a nonzero
/// total, in increasing id order, each showing the aggregator's counts.
pub fn order_rows(agg: &Aggregator, totals: &Vec<u64>, orders_n: u8) -> (rows: Vec<OrderRow>)
    requires
        agg.wf(),
        totals@.len() == ORDER_SLOTS,
    ensures
        rows@ == spec_order_rows(*agg, totals@, orders_n as int),
{
    let mut rows: Vec<OrderRow> = Vec::new();
    let mut id: u8 = 0;
    while id < orders_n
        invariant
            id <= orders_n,
            agg.wf(),
            totals@.len() == ORDER_SLOTS,
            rows@ == spec_order_rows(*agg, totals@, id as int),
        decreases orders_n - id,
    {
        let idx = id as usize;
        let total = totals[idx];
        if total != 0 {
            rows.push(OrderRow {
                id,
                done: agg.done_total[idx],
                total,
                burgers: agg.done_burgers[idx],
                snacks: agg.done_snacks[idx],
                drinks: agg.done_drinks[idx],
            });
        }
        proof {
            if total != 0 {
                assert(rows@ =~= spec_order_rows(*agg, totals@, id as int)
                    + seq![spec_order_row(*agg, totals@, id as int)]);
            } else {
                assert(rows@ =~= spec_order_rows(*agg, totals@, id as int) + Seq::empty());
            }
        }
        id = id + 1;
    }
    rows
}

/// The totals array of a run: each order's item total at its id's slot, over
/// an initially zero array.
pub open spec fn spec_totals(orders: Seq<Order>) -> Seq<u64>
    decreases orders.len(),
{
    if orders.len() == 0 {
        Seq::new(ORDER_SLOTS as nat, |i: int| 0u64)
    } else {
        spec_totals(orders.drop_last()).update(
            orders.last().id as int,
            spec_total_items(orders.last().lines@) as u64,
        )
    }
}

/// The totals array always covers every id slot.
pub proof fn lemma_totals_len(orders: Seq<Order>)
    ensures
        spec_totals(orders).len() == ORDER_SLOTS,
    decreases orders.len(),
{
    if orders.len() > 0 {
        lemma_totals_len(orders.drop_last());
    }
}

/// With run-unique ids, the totals array holds each order's item sum at its
/// own slot.
pub proof fn lemma_totals_at_unique_id(orders: Seq<Order>, k: int)
    requires
        0 <= k < orders.len(),
        forall|j: int|
            0 <= j < orders.len() && j != k ==> (#[trigger] orders[j]).id != orders[k].id,
    ensures
        spec_totals(orders)[orders[k].id as int]
            == spec_total_items(orders[k].lines@) as u64,
    decreases orders.len(),
{
    lemma_totals_len(orders.drop_last());
    if k < orders.len() - 1 {
        assert forall|j: int|
            0 <= j < orders.drop_last().len() && j != k
                implies (#[trigger] orders.drop_last()[j]).id != orders.drop_last()[k].id by {
            assert(orders[j].id != orders[k].id);
        }
        lemma_totals_at_unique_id(orders.drop_last(), k);
        assert(orders.last().id != orders[k].id);
    }
}

/// A fully completed order is visibly complete: after a full run with no
/// induced failures, the snapshot row of an order with a run-unique id shows
/// `done` equal to `total`.
pub proof fn lemma_row_shows_completion(orders: Seq<Order>, agg: Aggregator, k: int)
    requires
        crate::pipeline::is_run_result(agg, orders),
        0 <= k < orders.len(),
        forall|j: int|
            0 <= j < orders.len() && j != k ==> (#[trigger] orders[j]).id != orders[k].id,
    ensures
        ({
            let row = spec_order_row(agg, spec_totals(orders), orders[k].id as int);
            row.done == row.total
        }),
{
    crate::pipeline::lemma_full_completion(orders, agg, k);
    lemma_totals_at_unique_id(orders, k);
    let id = orders[k].id as int;
    assert(agg.done_total@[id] == spec_total_items(orders[k].lines@));
}

/// Compute each order's item total, indexed by its id.
pub fn compute_totals(orders: &Vec<Order>) -> (totals: Vec<u64>)
    requires
        forall|k: int|
            0 <= k < orders@.len()
                ==> spec_total_items((#[trigger] orders@[k]).lines@) <= usize::MAX,
    ensures
        totals@ == spec_totals(orders@),
        totals@.len() == ORDER_SLOTS,
{
    let mut totals: Vec<u64> = Vec::new();
    let mut i: usize = 0;
    while i < ORDER_SLOTS
        invariant
            i <= ORDER_SLOTS,
            totals@.len() == i,
            forall|j: int| 0 <= j < i ==> #[trigger] totals@[j] == 0,
        decreases ORDER_SLOTS - i,
    {
        totals.push(0);
        i = i + 1;
    }
    proof {
        assert(totals@ =~= spec_totals(orders@.take(0int)));
    }
    let mut k: usize = 0;
    while k < orders.len()
        invariant
            0 <= k <= orders@.len(),
            forall|j: int|
                0 <= j < orders@.len()
                    ==> spec_total_items((#[trigger] orders@[j]).lines@) <= usize::MAX,
            totals@ == spec_totals(orders@.take(k as int)),
            totals@.len() == ORDER_SLOTS,
        decreases orders@.len() - k,
    {
        let n = crate::utils::order_total_items(&orders[k]);
        let idx = orders[k].id as usize;
        totals[idx] = n as u64;
        proof {
            assert(orders@.take(k + 1).drop_last() =~= orders@.take(k as int));
            assert(orders@.take(k + 1).last() == orders@[k as int]);
            assert(totals@ =~= spec_totals(orders@.take(k + 1)));
        }
        k = k + 1;
    }
    proof {
        assert(orders@.take(orders@.len() as int) =~= orders@);
        lemma_totals_len(orders@);
    }
    totals
}

} // verus!
