use kitchen_sim::aggregator::Aggregator;
use kitchen_sim::dispatch::expand_order;
use kitchen_sim::kitchen::Kitchen;
use kitchen_sim::model::{Burger, Drink, ItemKind, Order, OrderLine, Size, Station};
use kitchen_sim::pipeline::process_order;
use kitchen_sim::station::{Job, StationHandle};

fn job(order_id: u8, duration: u64) -> Job {
    Job {
        order_id,
        item_kind: ItemKind::Burger(Burger::BigMac),
        duration,
    }
}

#[test]
fn occupancy_never_exceeds_bounds() {
    let mut s = StationHandle::new(Station::Grill, 2, 3);
    let check = |s: &StationHandle| {
        assert!(s.active() <= s.workers);
        assert!(s.queue_len() <= s.buffer);
    };
    check(&s);
    assert!(s.try_submit(job(0, 1)));
    check(&s);
    assert!(s.try_submit(job(0, 2)));
    check(&s);
    assert!(s.try_submit(job(0, 3)));
    check(&s);
    assert!(!s.try_submit(job(0, 4)));
    check(&s);
    assert!(s.take_job().is_some());
    check(&s);
    assert!(s.take_job().is_some());
    check(&s);
    assert_eq!(s.active(), 2);
    s.finish_job();
    check(&s);
    s.finish_job();
    check(&s);
    assert_eq!(s.active(), 0);
    assert_eq!(s.queue_len(), 1);
}

#[test]
fn backpressure_leaves_one_suspended() {
    let capacity: usize = 4;
    let mut s = StationHandle::new(Station::Fryer, 1, capacity);
    let jobs: Vec<Job> = (0..capacity as u64 + 1).map(|d| job(0, d)).collect();
    let admitted = s.submit_all(&jobs);
    assert_eq!(admitted, capacity);
    assert_eq!(jobs.len() - admitted, 1);
    assert_eq!(s.queue_len(), capacity);
    // The last submission stays suspended until a worker drains the queue.
    assert!(!s.try_submit(jobs[capacity]));
    let taken = s.take_job();
    assert_eq!(taken.unwrap().duration, 0);
    assert!(s.try_submit(jobs[capacity]));
    assert_eq!(s.queue_len(), capacity);
}

#[test]
fn fifo_queue_order() {
    let mut s = StationHandle::new(Station::Drink, 3, 10);
    assert!(s.try_submit(job(1, 10)));
    assert!(s.try_submit(job(2, 20)));
    assert!(s.try_submit(job(3, 30)));
    assert_eq!(s.take_job().unwrap().order_id, 1);
    assert_eq!(s.take_job().unwrap().order_id, 2);
    assert_eq!(s.take_job().unwrap().order_id, 3);
    assert!(s.active() == 3);
}

#[test]
fn single_worker_station_serializes_two_jobs() {
    // One station with worker_count = 1, capacity = 1; two jobs of duration
    // 10 and 5 submitted in that order.
    let mut s = StationHandle::new(Station::Grill, 1, 1);
    let mut agg = Aggregator::new();
    let first = job(0, 10);
    let second = job(0, 5);

    // The first job is admitted at once and its submission returns.
    assert!(s.try_submit(first));
    // The second submission suspends: the queue has no room.
    assert!(!s.try_submit(second));
    // The worker picks the first job up; only now does the queue have room.
    let running = s.take_job().unwrap();
    assert_eq!(running.duration, 10);
    assert_eq!(s.active(), 1);
    assert!(s.try_submit(second));
    // The single worker is busy, so the second job cannot start yet.
    // It finishes the first job, reports it, and takes the second.
    agg.on_item_done(kitchen_sim::dispatch::complete_job(&running));
    s.finish_job();
    let running = s.take_job().unwrap();
    assert_eq!(running.duration, 5);
    agg.on_item_done(kitchen_sim::dispatch::complete_job(&running));
    s.finish_job();

    assert_eq!(s.active(), 0);
    assert_eq!(s.queue_len(), 0);
    assert_eq!(agg.done_total[0], 2);
}

#[test]
fn three_workers_run_one_line_concurrently() {
    // An order with one line of quantity 3, routed to a station with three
    // workers: all three jobs can be taken up near-simultaneously.
    let order = Order {
        id: 7,
        lines: vec![OrderLine {
            item: ItemKind::Burger(Burger::Cheeseburger),
            quantity: 3,
            size: Size::Medium,
        }],
    };
    let jobs = expand_order(&order);
    assert_eq!(jobs.len(), 3);

    let mut s = StationHandle::new(Station::Grill, 3, 10);
    let admitted = s.submit_all(&jobs);
    assert_eq!(admitted, 3);
    for _ in 0..3 {
        assert!(s.take_job().is_some());
    }
    assert_eq!(s.active(), 3);

    // The coordinator's result set has size 3, all items of the order.
    let prepared = process_order(&order);
    assert_eq!(prepared.len(), 3);
    for item in &prepared {
        assert_eq!(item.order_id, 7);
        assert_eq!(item.item, ItemKind::Burger(Burger::Cheeseburger));
    }
}

#[test]
fn drain_completes_queue_in_fifo_order() {
    let mut s = StationHandle::new(Station::Fryer, 2, 10);
    for id in 0..4u8 {
        assert!(s.try_submit(job(id, id as u64)));
    }
    let items = kitchen_sim::pipeline::drain_station(&mut s);
    assert_eq!(items.len(), 4);
    for (i, item) in items.iter().enumerate() {
        assert_eq!(item.order_id, i as u8);
        assert_eq!(item.item, ItemKind::Burger(Burger::BigMac));
    }
    assert_eq!(s.queue_len(), 0);
    assert_eq!(s.active(), 0);
}

#[test]
fn kitchen_routes_to_the_right_station() {
    let mut kitchen = Kitchen::new(3, 10, 2, 10, 2, 10);
    let burger = Job {
        order_id: 0,
        item_kind: ItemKind::Burger(Burger::McFish),
        duration: 6,
    };
    let drink = Job {
        order_id: 0,
        item_kind: ItemKind::Drink(Drink::Cola),
        duration: 1,
    };
    assert!(kitchen.try_submit(burger));
    assert!(kitchen.try_submit(drink));
    assert_eq!(kitchen.grill.queue_len(), 1);
    assert_eq!(kitchen.fryer.queue_len(), 0);
    assert_eq!(kitchen.drink.queue_len(), 1);
}
