use kitchen_sim::aggregator::Aggregator;
use kitchen_sim::kitchen::Kitchen;
use kitchen_sim::model::{Burger, Drink, ItemKind, Order, OrderLine, Size, Snack, Station};
use kitchen_sim::pipeline::run_orders;
use kitchen_sim::random::generator_orders;
use kitchen_sim::snapshot::{compute_totals, order_rows, station_rows};
use kitchen_sim::utils::order_total_items;

fn sample_orders() -> Vec<Order> {
    vec![
        Order {
            id: 0,
            lines: vec![
                OrderLine {
                    item: ItemKind::Burger(Burger::BigMac),
                    quantity: 2,
                    size: Size::Medium,
                },
                OrderLine {
                    item: ItemKind::Drink(Drink::Cola),
                    quantity: 1,
                    size: Size::Large,
                },
            ],
        },
        Order {
            id: 1,
            lines: vec![OrderLine {
                item: ItemKind::Snack(Snack::Fries),
                quantity: 2,
                size: Size::Medium,
            }],
        },
    ]
}

#[test]
fn full_completion_counts_match_order_totals() {
    let orders = sample_orders();
    let agg = run_orders(&orders);
    for order in &orders {
        let idx = order.id as usize;
        assert_eq!(agg.done_total[idx] as usize, order_total_items(order));
        assert_eq!(
            agg.done_total[idx],
            agg.done_burgers[idx] + agg.done_snacks[idx] + agg.done_drinks[idx]
        );
    }
    assert_eq!(agg.done_total[0], 3);
    assert_eq!(agg.done_burgers[0], 2);
    assert_eq!(agg.done_drinks[0], 1);
    assert_eq!(agg.done_total[1], 2);
    assert_eq!(agg.done_snacks[1], 2);
}

#[test]
fn rerun_is_idempotent() {
    let first = run_orders(&sample_orders());
    let second = run_orders(&sample_orders());
    assert_eq!(first.done_total, second.done_total);
    assert_eq!(first.done_burgers, second.done_burgers);
    assert_eq!(first.done_snacks, second.done_snacks);
    assert_eq!(first.done_drinks, second.done_drinks);
    assert_eq!(first.events_seen, second.events_seen);
}

#[test]
fn generated_runs_are_idempotent() {
    let first = run_orders(&generator_orders(10, 42));
    let second = run_orders(&generator_orders(10, 42));
    assert_eq!(first.done_total, second.done_total);
    assert_eq!(first.done_burgers, second.done_burgers);
    assert_eq!(first.done_snacks, second.done_snacks);
    assert_eq!(first.done_drinks, second.done_drinks);
}

#[test]
fn generator_is_deterministic_and_well_formed() {
    let orders = generator_orders(10, 42);
    assert_eq!(orders.len(), 10);
    for (i, order) in orders.iter().enumerate() {
        assert_eq!(order.id as usize, i);
        assert!(order.lines.len() >= 2 && order.lines.len() <= 6);
        for line in &order.lines {
            assert!(line.quantity >= 1 && line.quantity <= 2);
        }
    }
    let again = generator_orders(10, 42);
    for (a, b) in orders.iter().zip(again.iter()) {
        assert_eq!(a.id, b.id);
        assert_eq!(a.lines, b.lines);
    }
}

#[test]
fn generator_draws_vary_between_orders() {
    // The drawn values drive the workload: across a run the generator must
    // produce more than one distinct line, not echo a fixed bound back.
    let orders = generator_orders(10, 42);
    let mut distinct_lines: Vec<OrderLine> = Vec::new();
    for order in &orders {
        for line in &order.lines {
            if !distinct_lines.contains(line) {
                distinct_lines.push(*line);
            }
        }
    }
    assert!(distinct_lines.len() > 1);
}

#[test]
fn run_through_stations_matches_unconstrained_run() {
    // Tiny queues force backpressure drains along the way; the final
    // counters still match those of a run with no capacity limits.
    let orders = generator_orders(10, 42);
    let mut kitchen = Kitchen::new(1, 1, 1, 1, 1, 1);
    let routed = kitchen_sim::pipeline::run_orders_through_kitchen(&orders, &mut kitchen);
    let unconstrained = run_orders(&generator_orders(10, 42));
    assert_eq!(routed.done_total, unconstrained.done_total);
    assert_eq!(routed.done_burgers, unconstrained.done_burgers);
    assert_eq!(routed.done_snacks, unconstrained.done_snacks);
    assert_eq!(routed.done_drinks, unconstrained.done_drinks);
    assert_eq!(routed.events_seen, unconstrained.events_seen);
    assert_eq!(kitchen.grill.queue_len(), 0);
    assert_eq!(kitchen.fryer.queue_len(), 0);
    assert_eq!(kitchen.drink.queue_len(), 0);
}

#[test]
fn totals_indexed_by_order_id() {
    let orders = sample_orders();
    let totals = compute_totals(&orders);
    assert_eq!(totals.len(), 256);
    assert_eq!(totals[0], 3);
    assert_eq!(totals[1], 2);
    assert_eq!(totals[2], 0);
}

#[test]
fn snapshot_rows_skip_empty_orders() {
    let orders = sample_orders();
    let totals = compute_totals(&orders);
    let agg = run_orders(&orders);
    // Only ids below orders_n with a nonzero total are shown.
    let rows = order_rows(&agg, &totals, 5);
    assert_eq!(rows.len(), 2);
    assert_eq!(rows[0].id, 0);
    assert_eq!(rows[0].done, 3);
    assert_eq!(rows[0].total, 3);
    assert_eq!(rows[0].burgers, 2);
    assert_eq!(rows[0].drinks, 1);
    assert_eq!(rows[1].id, 1);
    assert_eq!(rows[1].done, 2);
    assert_eq!(rows[1].snacks, 2);

    // With no known orders nothing is shown.
    let empty = order_rows(&Aggregator::new(), &totals, 0);
    assert!(empty.is_empty());
}

#[test]
fn snapshot_station_rows_reflect_occupancy() {
    let kitchen = Kitchen::new(3, 10, 2, 10, 2, 10);
    let rows = station_rows(&kitchen);
    assert_eq!(rows.len(), 3);
    assert_eq!(rows[0].which, Station::Grill);
    assert_eq!(rows[0].workers, 3);
    assert_eq!(rows[0].buffer, 10);
    assert_eq!(rows[0].active, 0);
    assert_eq!(rows[0].queue_len, 0);
    assert_eq!(rows[1].which, Station::Fryer);
    assert_eq!(rows[2].which, Station::Drink);
}
