//! Small helpers over the data model: the item count of an order and the
//! family bucket of an item kind.

use vstd::prelude::*;
use crate::model::{ItemKind, Order, OrderLine};

verus! {

/// The number of family buckets: burgers, snacks, drinks.
pub const FAMILY_COUNT: usize = 3;

/// Sum of the quantities of a sequence of lines, as a mathematical integer.
pub open spec fn spec_total_items(lines: Seq<OrderLine>) -> int
    decreases lines.len(),
{
    if lines.len() == 0 {
        0
    } else {
        spec_total_items(lines.drop_last()) + lines.last().quantity
    }
}

/// Every partial sum of quantities is at most the whole sum.
proof fn lemma_total_items_prefix(lines: Seq<OrderLine>, i: int)
    requires
        0 <= i <= lines.len(),
    ensures
        spec_total_items(lines.take(i)) <= spec_total_items(lines),
        spec_total_items(lines) <= 255 * lines.len(),
        spec_total_items(lines) >= 0,
    decreases lines.len(),
{
    if lines.len() == 0 {
        assert(lines.take(i) =~= lines);
    } else if i == lines.len() {
        assert(lines.take(i) =~= lines);
        lemma_total_items_prefix(lines.drop_last(), lines.len() - 1);
    } else {
        lemma_total_items_prefix(lines.drop_last(), i);
        assert(lines.take(i) =~= lines.drop_last().take(i));
    }
}

/// Count total items in an order: the sum of its lines' quantities.
pub fn order_total_items(order: &Order) -> (n: usize)
    requires
        spec_total_items(order.lines@) <= usize::MAX,
    ensures
        n == spec_total_items(order.lines@),
{
    let mut n: usize = 0;
    let mut i: usize = 0;
    while i < order.lines.len()
        invariant
            0 <= i <= order.lines.len(),
            n == spec_total_items(order.lines@.take(i as int)),
            spec_total_items(order.lines@) <= usize::MAX,
        decreases order.lines.len() - i,
    {
        proof {
            lemma_total_items_prefix(order.lines@, i + 1);
            assert(order.lines@.take(i + 1).drop_last() =~= order.lines@.take(i as int));
            assert(order.lines@.take(i + 1).last() == order.lines@[i as int]);
        }
        n = n + order.lines[i].quantity as usize;
        i = i + 1;
    }
    proof {
        assert(order.lines@.take(order.lines@.len() as int) =~= order.lines@);
    }
    n
}

/// The family bucket of an item kind, as `kind_bucket` computes it.
pub open spec fn spec_kind_bucket(kind: ItemKind) -> int {
    match kind {
        ItemKind::Burger(_) => 0,
        ItemKind::Snack(_) => 1,
        ItemKind::Drink(_) => 2,
    }
}

/// Map an item kind to its family's column index: burgers, snacks, drinks.
pub fn kind_bucket(kind: &ItemKind) -> (b: usize)
    ensures
        b == spec_kind_bucket(*kind),
        b < FAMILY_COUNT,
{
    match kind {
        ItemKind::Burger(_) => 0,
        ItemKind::Snack(_) => 1,
        ItemKind::Drink(_) => 2,
    }
}

} // verus!
