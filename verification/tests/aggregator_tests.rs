use kitchen_sim::aggregator::Aggregator;
use kitchen_sim::dispatch::{collect_results, complete_job};
use kitchen_sim::model::{Burger, Drink, ItemKind, PreparedItem, Snack};
use kitchen_sim::station::{Job, ProgressEvent};

fn item(order_id: u8, kind: ItemKind) -> PreparedItem {
    PreparedItem {
        order_id,
        item: kind,
    }
}

#[test]
fn fresh_aggregator_is_clean() {
    let agg = Aggregator::new();
    assert!(!agg.dirty);
    assert!(!agg.timer_armed);
    assert!(!agg.ever_received);
    assert_eq!(agg.events_seen, 0);
    assert!(agg.done_total.iter().all(|&c| c == 0));
}

#[test]
fn burst_arms_one_timer_and_renders_once() {
    let mut agg = Aggregator::new();
    // A burst of events within one coalescing window: only the first event
    // arms the timer; the others neither arm nor extend it.
    let first_arm = agg.on_item_done(item(1, ItemKind::Burger(Burger::BigMac)));
    assert!(first_arm);
    for _ in 0..10 {
        let arm = agg.on_item_done(item(1, ItemKind::Burger(Burger::BigMac)));
        assert!(!arm);
    }
    // The one timer expiry renders exactly once for the whole burst.
    assert!(agg.on_timer_fired());
    assert!(!agg.dirty);
    assert!(!agg.timer_armed);
    assert_eq!(agg.done_total[1], 11);
}

#[test]
fn closure_with_no_events_renders_nothing() {
    let agg = Aggregator::new();
    assert!(!agg.on_stream_closed());
}

#[test]
fn closure_while_dirty_renders_final_snapshot() {
    let mut agg = Aggregator::new();
    agg.on_item_done(item(0, ItemKind::Drink(Drink::Cola)));
    // Stream closes before the timer fires: one final render is owed.
    assert!(agg.on_stream_closed());
}

#[test]
fn closure_after_timer_render_owes_nothing_new() {
    let mut agg = Aggregator::new();
    agg.on_item_done(item(0, ItemKind::Drink(Drink::Cola)));
    assert!(agg.on_timer_fired());
    // Everything received is already rendered; closing renders nothing more.
    assert!(!agg.on_stream_closed());
}

#[test]
fn new_window_after_render() {
    let mut agg = Aggregator::new();
    assert!(agg.on_item_done(item(0, ItemKind::Snack(Snack::Fries))));
    assert!(agg.on_timer_fired());
    // The next event after a render opens a new window and arms a new timer.
    assert!(agg.on_item_done(item(0, ItemKind::Snack(Snack::Fries))));
    assert!(agg.on_timer_fired());
    assert_eq!(agg.done_total[0], 2);
}

#[test]
fn events_count_into_family_buckets() {
    let mut agg = Aggregator::new();
    agg.on_event(ProgressEvent::ItemDone(item(5, ItemKind::Burger(Burger::McWrap))));
    agg.on_event(ProgressEvent::ItemDone(item(5, ItemKind::Snack(Snack::Nuggets))));
    agg.on_event(ProgressEvent::ItemDone(item(5, ItemKind::Drink(Drink::Fanta))));
    agg.on_event(ProgressEvent::ItemDone(item(5, ItemKind::Burger(Burger::BigMac))));
    agg.on_event(ProgressEvent::ItemDone(item(9, ItemKind::Drink(Drink::Lipton))));

    assert_eq!(agg.done_total[5], 4);
    assert_eq!(agg.done_burgers[5], 2);
    assert_eq!(agg.done_snacks[5], 1);
    assert_eq!(agg.done_drinks[5], 1);
    assert_eq!(agg.done_total[9], 1);
    assert_eq!(agg.done_drinks[9], 1);
    assert_eq!(agg.done_total[0], 0);
    assert_eq!(agg.events_seen, 5);
}

#[test]
fn apply_items_counts_each_event_once() {
    let mut agg = Aggregator::new();
    let items = vec![
        item(2, ItemKind::Burger(Burger::McCrispy)),
        item(2, ItemKind::Burger(Burger::McCrispy)),
        item(3, ItemKind::Snack(Snack::Fries)),
    ];
    let arm = agg.apply_items(&items);
    assert!(arm);
    assert_eq!(agg.done_total[2], 2);
    assert_eq!(agg.done_burgers[2], 2);
    assert_eq!(agg.done_total[3], 1);
    assert_eq!(agg.done_snacks[3], 1);
    assert_eq!(agg.events_seen, 3);

    // An empty batch changes nothing and arms nothing.
    let mut idle = Aggregator::new();
    assert!(!idle.apply_items(&vec![]));
    assert!(!idle.dirty);
}

#[test]
fn job_identity_round_trip() {
    let job = Job {
        order_id: 42,
        item_kind: ItemKind::Drink(Drink::Sprite),
        duration: 1,
    };
    let prepared = complete_job(&job);
    assert_eq!(prepared.order_id, job.order_id);
    assert_eq!(prepared.item, job.item_kind);
}

#[test]
fn collect_results_omits_lost_completions() {
    let a = item(1, ItemKind::Burger(Burger::BigMac));
    let b = item(1, ItemKind::Drink(Drink::Cola));
    let c = item(2, ItemKind::Snack(Snack::Fries));
    let outcomes = vec![Some(a), None, Some(b), None, Some(c)];
    let prepared = collect_results(&outcomes);
    assert_eq!(prepared.len(), 3);
    assert_eq!(prepared[0], a);
    assert_eq!(prepared[1], b);
    assert_eq!(prepared[2], c);

    let all_ok = vec![Some(a), Some(b)];
    assert_eq!(collect_results(&all_ok).len(), 2);

    let none_ok: Vec<Option<PreparedItem>> = vec![None, None];
    assert!(collect_results(&none_ok).is_empty());
}
