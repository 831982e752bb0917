//! Synthetic workload generation: random orders drawn through a seeded
//! generator. The draws come from the rand crate; everything that turns a
//! drawn number into an order value is verified here, so the generated
//! orders are well formed whatever the generator returns.

use vstd::prelude::*;
use rand::{Rng, SeedableRng};
use crate::model::{Burger, Drink, ItemKind, Order, OrderLine, Size, Snack};

verus! {

#[verifier::external_type_specification]
#[verifier::external_body]
pub struct ExStdRng(rand::rngs::StdRng);

/// Relies on rand's StdRng::seed_from_u64: builds a generator from a seed.
#[verifier::external_body]
fn new_rng(seed: u64) -> rand::rngs::StdRng {
    rand::rngs::StdRng::seed_from_u64(seed)
}

/// Relies on rand's Rng::gen_range over `lo..hi`: the sample lies in the
/// half-open range; the call panics only on an empty range, which the
/// requires excludes.
#[verifier::external_body]
fn rng_range(rng: &mut rand::rngs::StdRng, lo: u32, hi: u32) -> (r: u32)
    requires
        lo < hi,
    ensures
        lo <= r < hi,
{
    rng.gen_range(lo..hi)
}

/// The burger each drawn index stands for.
pub open spec fn spec_burger_from_index(i: int) -> Burger {
    if i == 0 {
        Burger::BigMac
    } else if i == 1 {
        Burger::Cheeseburger
    } else if i == 2 {
        Burger::McFish
    } else if i == 3 {
        Burger::McCrispy
    } else {
        Burger::McWrap
    }
}

/// Turn a drawn index into a burger kind; every index below five maps to its
/// own kind.
pub fn burger_from_index(i: u32) -> (b: Burger)
    requires
        i < 5,
    ensures
        b == spec_burger_from_index(i as int),
{
    if i == 0 {
        Burger::BigMac
    } else if i == 1 {
        Burger::Cheeseburger
    } else if i == 2 {
        Burger::McFish
    } else if i == 3 {
        Burger::McCrispy
    } else {
        Burger::McWrap
    }
}

/// The snack each drawn index stands for.
pub open spec fn spec_snack_from_index(i: int) -> Snack {
    if i == 0 {
        Snack::Fries
    } else {
        Snack::Nuggets
    }
}

/// Turn a drawn index into a snack kind.
pub fn snack_from_index(i: u32) -> (s: Snack)
    requires
        i < 2,
    ensures
        s == spec_snack_from_index(i as int),
{
    if i == 0 {
        Snack::Fries
    } else {
        Snack::Nuggets
    }
}

/// The drink each drawn index stands for.
pub open spec fn spec_drink_from_index(i: int) -> Drink {
    if i == 0 {
        Drink::Cola
    } else if i == 1 {
        Drink::Fanta
    } else if i == 2 {
        Drink::Sprite
    } else {
        Drink::Lipton
    }
}

/// Turn a drawn index into a drink kind.
pub fn drink_from_index(i: u32) -> (d: Drink)
    requires
        i < 4,
    ensures
        d == spec_drink_from_index(i as int),
{
    if i == 0 {
        Drink::Cola
    } else if i == 1 {
        Drink::Fanta
    } else if i == 2 {
        Drink::Sprite
    } else {
        Drink::Lipton
    }
}

/// The size each drawn index stands for.
pub open spec fn spec_size_from_index(i: int) -> Size {
    if i == 0 {
        Size::Medium
    } else {
        Size::Large
    }
}

/// Turn a drawn index into a size.
pub fn size_from_index(i: u32) -> (s: Size)
    requires
        i < 2,
    ensures
        s == spec_size_from_index(i as int),
{
    if i == 0 {
        Size::Medium
    } else {
        Size::Large
    }
}

/// A generated line is always valid workload: at least one unit of it.
pub open spec fn spec_line_generated(line: OrderLine) -> bool {
    1 <= line.quantity <= 2
}

/// Draw one order line: a kind from one of the three families, a quantity of
/// one or two, and a size.
fn random_order_line(rng: &mut rand::rngs::StdRng) -> (line: OrderLine)
    ensures
        spec_line_generated(line),
{
    let item_type = rng_range(rng, 0, 3);
    let quantity = rng_range(rng, 1, 3) as u8;
    let size = size_from_index(rng_range(rng, 0, 2));
    let item = if item_type == 0 {
        ItemKind::Burger(burger_from_index(rng_range(rng, 0, 5)))
    } else if item_type == 1 {
        ItemKind::Snack(snack_from_index(rng_range(rng, 0, 2)))
    } else {
        ItemKind::Drink(drink_from_index(rng_range(rng, 0, 4)))
    };
    OrderLine { item, quantity, size }
}

/// A generated order carries the id it was given, and between two and six
/// lines, each valid.
pub open spec fn spec_order_generated(order: Order, id: u8) -> bool {
    &&& order.id == id
    &&& 2 <= order.lines@.len() <= 6
    &&& forall|k: int|
        0 <= k < order.lines@.len() ==> spec_line_generated(#[trigger] order.lines@[k])
}

/// Draw one order with the given id and two to six random lines.
fn random_order(rng: &mut rand::rngs::StdRng, id: u8) -> (order: Order)
    ensures
        spec_order_generated(order, id),
{
    let num_lines = rng_range(rng, 2, 7);
    let mut lines: Vec<OrderLine> = Vec::new();
    let mut i: u32 = 0;
    while i < num_lines
        invariant
            i <= num_lines,
            num_lines <= 6,
            lines@.len() == i,
            forall|k: int| 0 <= k < lines@.len() ==> spec_line_generated(#[trigger] lines@[k]),
        decreases num_lines - i,
    {
        let line = random_order_line(rng);
        lines.push(line);
        i = i + 1;
    }
    Order { id, lines }
}

/// Generate `n` random orders from the seed, with ids dense and unique:
/// order `i` carries id `i`. Every order is well-formed workload whatever
/// the generator draws.
pub fn generator_orders(n: u8, seed: u64) -> (orders: Vec<Order>)
    ensures
        orders@.len() == n,
        forall|i: int| 0 <= i < n ==> (#[trigger] orders@[i]).id == i,
        forall|i: int| 0 <= i < n ==> spec_order_generated(#[trigger] orders@[i], i as u8),
        forall|i: int, j: int| 0 <= i < n && 0 <= j < n && i != j ==> orders@[i].id != orders@[j].id,
{
    let mut rng = new_rng(seed);
    let mut orders: Vec<Order> = Vec::new();
    let mut i: u8 = 0;
    while i < n
        invariant
            i <= n,
            orders@.len() == i,
            forall|k: int| 0 <= k < i ==> (#[trigger] orders@[k]).id == k,
            forall|k: int| 0 <= k < i ==> spec_order_generated(#[trigger] orders@[k], k as u8),
        decreases n - i,
    {
        let order = random_order(&mut rng, i);
        orders.push(order);
        i = i + 1;
    }
    orders
}

} // verus!
