use kitchen_sim::model::{Burger, Drink, ItemKind, Order, OrderLine, Size, Snack, Station};
use kitchen_sim::utils::{kind_bucket, order_total_items};

#[test]
fn base_time_per_kind() {
    assert_eq!(ItemKind::Burger(Burger::BigMac).base_time(), 7);
    assert_eq!(ItemKind::Burger(Burger::Cheeseburger).base_time(), 5);
    assert_eq!(ItemKind::Burger(Burger::McFish).base_time(), 6);
    assert_eq!(ItemKind::Burger(Burger::McCrispy).base_time(), 8);
    assert_eq!(ItemKind::Burger(Burger::McWrap).base_time(), 4);
    assert_eq!(ItemKind::Snack(Snack::Fries).base_time(), 3);
    assert_eq!(ItemKind::Snack(Snack::Nuggets).base_time(), 4);
    assert_eq!(ItemKind::Drink(Drink::Cola).base_time(), 1);
    assert_eq!(ItemKind::Drink(Drink::Fanta).base_time(), 1);
    assert_eq!(ItemKind::Drink(Drink::Sprite).base_time(), 1);
    assert_eq!(ItemKind::Drink(Drink::Lipton).base_time(), 1);
}

#[test]
fn routing_is_by_family() {
    assert_eq!(ItemKind::Burger(Burger::McWrap).station(), Station::Grill);
    assert_eq!(ItemKind::Snack(Snack::Fries).station(), Station::Fryer);
    assert_eq!(ItemKind::Drink(Drink::Lipton).station(), Station::Drink);
}

#[test]
fn prep_time_adds_large_delta() {
    let medium = OrderLine {
        item: ItemKind::Burger(Burger::BigMac),
        quantity: 1,
        size: Size::Medium,
    };
    let large = OrderLine {
        item: ItemKind::Burger(Burger::BigMac),
        quantity: 1,
        size: Size::Large,
    };
    assert_eq!(medium.prep_time(), 7);
    assert_eq!(large.prep_time(), 8);

    let small_drink = OrderLine {
        item: ItemKind::Drink(Drink::Cola),
        quantity: 2,
        size: Size::Medium,
    };
    assert_eq!(small_drink.prep_time(), 1);
}

#[test]
fn order_total_items_sums_quantities() {
    let order = Order {
        id: 3,
        lines: vec![
            OrderLine {
                item: ItemKind::Burger(Burger::BigMac),
                quantity: 2,
                size: Size::Medium,
            },
            OrderLine {
                item: ItemKind::Drink(Drink::Cola),
                quantity: 1,
                size: Size::Large,
            },
            OrderLine {
                item: ItemKind::Snack(Snack::Nuggets),
                quantity: 2,
                size: Size::Medium,
            },
        ],
    };
    assert_eq!(order_total_items(&order), 5);

    let empty = Order { id: 0, lines: vec![] };
    assert_eq!(order_total_items(&empty), 0);
}

#[test]
fn kind_bucket_per_family() {
    assert_eq!(kind_bucket(&ItemKind::Burger(Burger::McFish)), 0);
    assert_eq!(kind_bucket(&ItemKind::Snack(Snack::Nuggets)), 1);
    assert_eq!(kind_bucket(&ItemKind::Drink(Drink::Sprite)), 2);
}
