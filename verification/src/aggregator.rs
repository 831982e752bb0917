//! The progress aggregator: running per-order completion counts, and the
//! debounce state machine that coalesces bursts of progress events into at
//! most one render per window, with a final render at stream closure whenever
//! unrendered changes remain.
//!
//! The aggregator owns its counters exclusively: every transition here is one
//! atomic step of its single logical loop. The loop itself (awaiting the next
//! event or the timer) is driven from outside; each arm of that select calls
//! one transition below and performs the action it returns.

use vstd::prelude::*;
use crate::model::PreparedItem;
use crate::station::ProgressEvent;
use crate::utils::{kind_bucket, spec_kind_bucket, FAMILY_COUNT};

verus! {

/// Orders are keyed by a dense small id, so the counters are arrays indexed
/// by every possible id value.
pub const ORDER_SLOTS: usize = 256;

/// How many of `items` belong to order `id`.
pub open spec fn spec_count_order(items: Seq<PreparedItem>, id: int) -> int
    decreases items.len(),
{
    if items.len() == 0 {
        0
    } else {
        spec_count_order(items.drop_last(), id) + (if items.last().order_id == id {
            1int
        } else {
            0int
        })
    }
}

/// How many of `items` belong to order `id` and fall in family bucket `b`.
pub open spec fn spec_count_family(items: Seq<PreparedItem>, id: int, b: int) -> int
    decreases items.len(),
{
    if items.len() == 0 {
        0
    } else {
        spec_count_family(items.drop_last(), id, b) + (if items.last().order_id == id
            && spec_kind_bucket(items.last().item) == b {
            1int
        } else {
            0int
        })
    }
}

/// Counts are nonnegative and bounded by the number of items, and the three
/// family counts of an order partition its total count.
pub proof fn lemma_count_bounds(items: Seq<PreparedItem>, id: int)
    ensures
        0 <= spec_count_order(items, id) <= items.len(),
        forall|b: int| 0 <= #[trigger] spec_count_family(items, id, b) <= spec_count_order(items, id),
        spec_count_order(items, id) == spec_count_family(items, id, 0)
            + spec_count_family(items, id, 1) + spec_count_family(items, id, 2),
    decreases items.len(),
{
    if items.len() > 0 {
        lemma_count_bounds(items.drop_last(), id);
        assert forall|b: int|
            0 <= #[trigger] spec_count_family(items, id, b) <= spec_count_order(items, id) by {
            assert(0 <= spec_count_family(items.drop_last(), id, b)
                <= spec_count_order(items.drop_last(), id));
        }
    }
}

/// Counting distributes over concatenation.
pub proof fn lemma_count_concat(a: Seq<PreparedItem>, b: Seq<PreparedItem>, id: int, fam: int)
    ensures
        spec_count_order(a + b, id) == spec_count_order(a, id) + spec_count_order(b, id),
        spec_count_family(a + b, id, fam) == spec_count_family(a, id, fam)
            + spec_count_family(b, id, fam),
    decreases b.len(),
{
    if b.len() == 0 {
        assert(a + b =~= a);
    } else {
        lemma_count_concat(a, b.drop_last(), id, fam);
        assert((a + b).drop_last() =~= a + b.drop_last());
    }
}

/// Counting distributes over concatenation, for every order id and family.
pub proof fn lemma_count_concat_all(a: Seq<PreparedItem>, b: Seq<PreparedItem>)
    ensures
        forall|id: int|
            #[trigger] spec_count_order(a + b, id) == spec_count_order(a, id)
                + spec_count_order(b, id),
        forall|id: int, fam: int|
            #[trigger] spec_count_family(a + b, id, fam) == spec_count_family(a, id, fam)
                + spec_count_family(b, id, fam),
{
    assert forall|id: int|
        #[trigger] spec_count_order(a + b, id) == spec_count_order(a, id)
            + spec_count_order(b, id) by {
        lemma_count_concat(a, b, id, 0);
    }
    assert forall|id: int, fam: int|
        #[trigger] spec_count_family(a + b, id, fam) == spec_count_family(a, id, fam)
            + spec_count_family(b, id, fam) by {
        lemma_count_concat(a, b, id, fam);
    }
}

/// Per-order running counts and the debounce state: dirty means counters have
/// changed since the last render; a timer is armed from the first unconsumed
/// event of a window, never extended by later ones.
#[derive(Debug)]
pub struct Aggregator {
    /// Completed items per order id.
    pub done_total: Vec<u64>,
    /// Completed burger-family items per order id.
    pub done_burgers: Vec<u64>,
    /// Completed snack-family items per order id.
    pub done_snacks: Vec<u64>,
    /// Completed drink-family items per order id.
    pub done_drinks: Vec<u64>,
    /// Counters changed since the last render.
    pub dirty: bool,
    /// A coalescing-window timer is pending.
    pub timer_armed: bool,
    /// At least one event was ever received.
    pub ever_received: bool,
    /// Total events received, across all orders.
    pub events_seen: u64,
}

impl Aggregator {
    /// The count this aggregator holds for order `id` in family bucket `b`.
    pub open spec fn family_count(self, id: int, b: int) -> int {
        if b == 0 {
            self.done_burgers@[id] as int
        } else if b == 1 {
            self.done_snacks@[id] as int
        } else {
            self.done_drinks@[id] as int
        }
    }

    /// Well-formedness: counter arrays cover every id; the debounce flags are
    /// consistent (a timer only pends on a dirty state, and nothing is dirty
    /// before the first event); each order's family counts sum to its total;
    /// and no counter exceeds the number of events seen.
    pub open spec fn wf(self) -> bool {
        &&& self.done_total@.len() == ORDER_SLOTS
        &&& self.done_burgers@.len() == ORDER_SLOTS
        &&& self.done_snacks@.len() == ORDER_SLOTS
        &&& self.done_drinks@.len() == ORDER_SLOTS
        &&& (self.timer_armed ==> self.dirty)
        &&& (self.dirty ==> self.ever_received)
        &&& (forall|i: int|
            0 <= i < ORDER_SLOTS ==> #[trigger] self.done_total@[i] == self.done_burgers@[i]
                + self.done_snacks@[i] + self.done_drinks@[i])
        &&& (forall|i: int| 0 <= i < ORDER_SLOTS ==> #[trigger] self.done_total@[i] <= self.events_seen)
    }

    /// A fresh aggregator: all counters zero, nothing dirty, no timer pending.
    pub fn new() -> (agg: Aggregator)
        ensures
            agg.wf(),
            !agg.dirty,
            !agg.timer_armed,
            !agg.ever_received,
            agg.events_seen == 0,
            forall|i: int| 0 <= i < ORDER_SLOTS ==> #[trigger] agg.done_total@[i] == 0,
            forall|i: int, b: int|
                0 <= i < ORDER_SLOTS && 0 <= b < FAMILY_COUNT
                    ==> #[trigger] agg.family_count(i, b) == 0,
    {
        Aggregator {
            done_total: zero_counters(),
            done_burgers: zero_counters(),
            done_snacks: zero_counters(),
            done_drinks: zero_counters(),
            dirty: false,
            timer_armed: false,
            ever_received: false,
            events_seen: 0,
        }
    }

    /// One progress event arrived: bump the order's total and its family
    /// bucket, mark the state dirty, and arm the coalescing timer if none is
    /// pending. Returns whether the caller must arm the timer; an already
    /// pending timer is never reset or extended.
    pub fn on_item_done(&mut self, item: PreparedItem) -> (arm_timer: bool)
        requires
            old(self).wf(),
            old(self).events_seen < u64::MAX,
        ensures
            final(self).wf(),
            arm_timer == !old(self).timer_armed,
            final(self).dirty,
            final(self).timer_armed,
            final(self).ever_received,
            final(self).events_seen == old(self).events_seen + 1,
            (final(self).dirty, final(self).timer_armed, false) == spec_debounce_step(
                old(self).dirty,
                old(self).timer_armed,
                DebounceInput::Event,
            ),
            forall|i: int|
                0 <= i < ORDER_SLOTS ==> #[trigger] final(self).done_total@[i]
                    == old(self).done_total@[i] + (if i == item.order_id { 1int } else { 0int }),
            forall|i: int, b: int|
                0 <= i < ORDER_SLOTS && 0 <= b < FAMILY_COUNT
                    ==> #[trigger] final(self).family_count(i, b) == old(self).family_count(i, b)
                        + (if i == item.order_id && b == spec_kind_bucket(item.item) {
                            1int
                        } else {
                            0int
                        }),
    {
        let i = item.order_id as usize;
        let total = self.done_total[i];
        self.done_total[i] = total + 1;
        let b = kind_bucket(&item.item);
        if b == 0 {
            let v = self.done_burgers[i];
            self.done_burgers[i] = v + 1;
        } else if b == 1 {
            let v = self.done_snacks[i];
            self.done_snacks[i] = v + 1;
        } else {
            let v = self.done_drinks[i];
            self.done_drinks[i] = v + 1;
        }
        self.dirty = true;
        self.ever_received = true;
        let arm_timer = !self.timer_armed;
        self.timer_armed = true;
        self.events_seen = self.events_seen + 1;
        arm_timer
    }

    /// The coalescing timer expired: render exactly once for the window's
    /// events, clear the dirty flag and disarm. The timer only ever pends on
    /// a dirty state, so its expiry always renders.
    pub fn on_timer_fired(&mut self) -> (render: bool)
        requires
            old(self).wf(),
            old(self).timer_armed,
        ensures
            final(self).wf(),
            render == old(self).dirty,
            render,
            !final(self).dirty,
            !final(self).timer_armed,
            (final(self).dirty, final(self).timer_armed, render) == spec_debounce_step(
                old(self).dirty,
                old(self).timer_armed,
                DebounceInput::TimerExpiry,
            ),
            final(self).ever_received == old(self).ever_received,
            final(self).events_seen == old(self).events_seen,
            final(self).done_total@ == old(self).done_total@,
            final(self).done_burgers@ == old(self).done_burgers@,
            final(self).done_snacks@ == old(self).done_snacks@,
            final(self).done_drinks@ == old(self).done_drinks@,
    {
        let render = self.dirty;
        self.dirty = false;
        self.timer_armed = false;
        render
    }

    /// Whether stream closure owes a final render: exactly when the counters
    /// changed since the last render.
    pub open spec fn closing_renders(self) -> bool {
        self.dirty
    }

    /// One progress event arrived on the stream; counts it and reports
    /// whether the caller must arm the coalescing timer.
    pub fn on_event(&mut self, ev: ProgressEvent) -> (arm_timer: bool)
        requires
            old(self).wf(),
            old(self).events_seen < u64::MAX,
        ensures
            final(self).wf(),
            arm_timer == !old(self).timer_armed,
            final(self).dirty,
            final(self).timer_armed,
            final(self).ever_received,
            final(self).events_seen == old(self).events_seen + 1,
            ({
                let item = ev->ItemDone_0;
                &&& forall|i: int|
                    0 <= i < ORDER_SLOTS ==> #[trigger] final(self).done_total@[i]
                        == old(self).done_total@[i] + (if i == item.order_id { 1int } else { 0int })
                &&& forall|i: int, b: int|
                    0 <= i < ORDER_SLOTS && 0 <= b < FAMILY_COUNT
                        ==> #[trigger] final(self).family_count(i, b)
                            == old(self).family_count(i, b)
                                + (if i == item.order_id && b == spec_kind_bucket(item.item) {
                                    1int
                                } else {
                                    0int
                                })
            }),
    {
        match ev {
            ProgressEvent::ItemDone(item) => self.on_item_done(item),
        }
    }

    /// The event stream closed: whether a final synchronous render is owed
    /// before the loop terminates. It is owed exactly when the counters have
    /// changed since the last render; a stream that closes with nothing ever
    /// received renders nothing.
    pub fn on_stream_closed(&self) -> (render: bool)
        requires
            self.wf(),
        ensures
            render == self.closing_renders(),
            render == self.dirty,
            !self.ever_received ==> !render,
    {
        self.dirty
    }

    /// Apply a batch of completed items in arrival order: every event counts
    /// exactly once, towards its order's total and its family bucket.
    pub fn apply_items(&mut self, items: &Vec<PreparedItem>) -> (arm_timer: bool)
        requires
            old(self).wf(),
            old(self).events_seen + items@.len() <= u64::MAX,
        ensures
            final(self).wf(),
            final(self).events_seen == old(self).events_seen + items@.len(),
            arm_timer == (!old(self).timer_armed && items@.len() > 0),
            final(self).dirty == (old(self).dirty || items@.len() > 0),
            final(self).timer_armed == (old(self).timer_armed || items@.len() > 0),
            final(self).ever_received == (old(self).ever_received || items@.len() > 0),
            forall|i: int|
                0 <= i < ORDER_SLOTS ==> #[trigger] final(self).done_total@[i]
                    == old(self).done_total@[i] + spec_count_order(items@, i),
            forall|i: int, b: int|
                0 <= i < ORDER_SLOTS && 0 <= b < FAMILY_COUNT
                    ==> #[trigger] final(self).family_count(i, b)
                        == old(self).family_count(i, b) + spec_count_family(items@, i, b),
    {
        let mut k: usize = 0;
        let mut arm_timer = false;
        while k < items.len()
            invariant
                0 <= k <= items@.len(),
                self.wf(),
                old(self).wf(),
                old(self).events_seen + items@.len() <= u64::MAX,
                self.events_seen == old(self).events_seen + k,
                arm_timer == (!old(self).timer_armed && k > 0),
                self.dirty == (old(self).dirty || k > 0),
                self.timer_armed == (old(self).timer_armed || k > 0),
                self.ever_received == (old(self).ever_received || k > 0),
                forall|i: int|
                    0 <= i < ORDER_SLOTS ==> #[trigger] self.done_total@[i]
                        == old(self).done_total@[i] + spec_count_order(items@.take(k as int), i),
                forall|i: int, b: int|
                    0 <= i < ORDER_SLOTS && 0 <= b < FAMILY_COUNT
                        ==> #[trigger] self.family_count(i, b) == old(self).family_count(i, b)
                            + spec_count_family(items@.take(k as int), i, b),
            decreases items@.len() - k,
        {
            proof {
                lemma_count_bounds(items@.take(k as int), items@[k as int].order_id as int);
                assert(items@.take(k + 1).drop_last() =~= items@.take(k as int));
                assert(items@.take(k + 1).last() == items@[k as int]);
            }
            let armed_now = self.on_item_done(items[k]);
            if armed_now {
                arm_timer = true;
            }
            k = k + 1;
        }
        proof {
            assert(items@.take(items@.len() as int) =~= items@);
        }
        arm_timer
    }
}

/// One zeroed counter slot per possible order id.
fn zero_counters() -> (v: Vec<u64>)
    ensures
        v@.len() == ORDER_SLOTS,
        forall|i: int| 0 <= i < ORDER_SLOTS ==> #[trigger] v@[i] == 0,
{
    let mut v: Vec<u64> = Vec::new();
    let mut i: usize = 0;
    while i < ORDER_SLOTS
        invariant
            0 <= i <= ORDER_SLOTS,
            v@.len() == i,
            forall|j: int| 0 <= j < i ==> #[trigger] v@[j] == 0,
        decreases ORDER_SLOTS - i,
    {
        v.push(0);
        i = i + 1;
    }
    v
}

/// One input of the aggregator loop's select, as far as the debounce flags
/// are concerned: a progress event, or the expiry of the coalescing timer.
#[derive(Debug, Clone, Copy)]
pub enum DebounceInput {
    Event,
    TimerExpiry,
}

/// The debounce flags after one input, and whether that input rendered:
/// an event marks the state dirty and arms the timer; an expiry of the armed
/// timer renders exactly when dirty and clears both; an expiry with no timer
/// pending changes nothing. The result is `(dirty, timer_armed, rendered)`.
pub open spec fn spec_debounce_step(dirty: bool, armed: bool, input: DebounceInput) -> (
    bool,
    bool,
    bool,
) {
    match input {
        DebounceInput::Event => (true, true, false),
        DebounceInput::TimerExpiry => ((if armed { false } else { dirty }), false, armed && dirty),
    }
}

/// How many renders a trace of inputs produces from the given flags.
pub open spec fn spec_trace_renders(dirty: bool, armed: bool, inputs: Seq<DebounceInput>) -> int
    decreases inputs.len(),
{
    if inputs.len() == 0 {
        0
    } else {
        let s = spec_debounce_step(dirty, armed, inputs.first());
        (if s.2 { 1int } else { 0int }) + spec_trace_renders(s.0, s.1, inputs.drop_first())
    }
}

/// How many times a trace of inputs arms the timer, that is, opens a new
/// coalescing window.
pub open spec fn spec_trace_armings(dirty: bool, armed: bool, inputs: Seq<DebounceInput>) -> int
    decreases inputs.len(),
{
    if inputs.len() == 0 {
        0
    } else {
        let s = spec_debounce_step(dirty, armed, inputs.first());
        (if !armed && s.1 { 1int } else { 0int }) + spec_trace_armings(s.0, s.1, inputs.drop_first())
    }
}

/// At most one render per coalescing window: over any trace of events and
/// timer expiries, the loop renders no more often than it opens a window
/// (counting a window already open at the start), however many events a
/// burst delivers.
pub proof fn lemma_one_render_per_window(dirty: bool, armed: bool, inputs: Seq<DebounceInput>)
    ensures
        spec_trace_renders(dirty, armed, inputs) <= spec_trace_armings(dirty, armed, inputs)
            + (if armed { 1int } else { 0int }),
    decreases inputs.len(),
{
    if inputs.len() > 0 {
        let s = spec_debounce_step(dirty, armed, inputs.first());
        lemma_one_render_per_window(s.0, s.1, inputs.drop_first());
    }
}

/// Debounce soundness: a pending timer implies unrendered changes, and an
/// aggregator that never received an event has nothing dirty and no timer
/// pending, so neither a timer expiry nor stream closure can render.
pub proof fn lemma_debounce(agg: Aggregator)
    requires
        agg.wf(),
    ensures
        agg.timer_armed ==> agg.dirty,
        !agg.ever_received ==> !agg.dirty && !agg.timer_armed,
        !agg.ever_received ==> !agg.closing_renders(),
{
}

} // verus!
