//! The item taxonomy and the order data model: kinds of items grouped into
//! three families, sizes, order lines, orders, and the values the pipeline
//! produces from them.

use vstd::prelude::*;

verus! {

/// Kinds of burger, handled by the grill station.
#[derive(Debug, Clone, Copy, PartialEq, Eq, Structural)]
pub enum Burger {
    BigMac,
    Cheeseburger,
    McFish,
    McCrispy,
    McWrap,
}

/// Kinds of snack, handled by the fryer station.
#[derive(Debug, Clone, Copy, PartialEq, Eq, Structural)]
pub enum Snack {
    Fries,
    Nuggets,
}

/// Kinds of drink, handled by the drink station.
#[derive(Debug, Clone, Copy, PartialEq, Eq, Structural)]
pub enum Drink {
    Cola,
    Fanta,
    Sprite,
    Lipton,
}

/// Size of an item; a large item adds a fixed delta to its preparation time.
#[derive(Debug, Clone, Copy, PartialEq, Eq, Structural)]
pub enum Size {
    Medium,
    Large,
}

/// Unified item type used throughout the pipeline.
#[derive(Debug, Clone, Copy, PartialEq, Eq, Structural)]
pub enum ItemKind {
    Burger(Burger),
    Snack(Snack),
    Drink(Drink),
}

/// The stations of the kitchen; every item kind routes to exactly one.
#[derive(Debug, Clone, Copy, PartialEq, Eq, Structural)]
pub enum Station {
    Grill,
    Fryer,
    Drink,
}

/// One line of an order: an item kind, how many of it, and the size.
#[derive(Debug, Clone, Copy, PartialEq, Eq, Structural)]
pub struct OrderLine {
    pub item: ItemKind,
    pub quantity: u8,
    pub size: Size,
}

/// A customer order: an id, unique within a run, and its lines.
#[derive(Debug)]
pub struct Order {
    pub id: u8,
    pub lines: Vec<OrderLine>,
}

/// The result value a station produces when a job completes.
#[derive(Debug, Clone, Copy, PartialEq, Eq, Structural)]
pub struct PreparedItem {
    pub order_id: u8,
    pub item: ItemKind,
}

impl ItemKind {
    /// Base preparation time in seconds, depending on the item kind alone.
    pub fn base_time(&self) -> (secs: u64)
        ensures
            secs == self.base_time_spec(),
    {
        match self {
            ItemKind::Burger(burger) => match burger {
                Burger::BigMac => 7,
                Burger::Cheeseburger => 5,
                Burger::McFish => 6,
                Burger::McCrispy => 8,
                Burger::McWrap => 4,
            },
            ItemKind::Snack(snack) => match snack {
                Snack::Fries => 3,
                Snack::Nuggets => 4,
            },
            ItemKind::Drink(_) => 1,
        }
    }

    /// What `base_time` returns for each kind.
    pub open spec fn base_time_spec(self) -> u64 {
        match self {
            ItemKind::Burger(burger) => match burger {
                Burger::BigMac => 7u64,
                Burger::Cheeseburger => 5u64,
                Burger::McFish => 6u64,
                Burger::McCrispy => 8u64,
                Burger::McWrap => 4u64,
            },
            ItemKind::Snack(snack) => match snack {
                Snack::Fries => 3u64,
                Snack::Nuggets => 4u64,
            },
            ItemKind::Drink(_) => 1u64,
        }
    }

    /// Which station handles this item: the mapping is total over the closed
    /// set of kinds, each family to its own station.
    pub fn station(&self) -> (s: Station)
        ensures
            s == self.station_spec(),
    {
        match self {
            ItemKind::Burger(_) => Station::Grill,
            ItemKind::Snack(_) => Station::Fryer,
            ItemKind::Drink(_) => Station::Drink,
        }
    }

    /// What `station` returns for each kind.
    pub open spec fn station_spec(self) -> Station {
        match self {
            ItemKind::Burger(_) => Station::Grill,
            ItemKind::Snack(_) => Station::Fryer,
            ItemKind::Drink(_) => Station::Drink,
        }
    }
}

impl OrderLine {
    /// Total preparation time in seconds for one unit of this line: the base
    /// time of its kind, plus one second when the size is large.
    pub fn prep_time(&self) -> (secs: u64)
        ensures
            secs == self.prep_time_spec(),
    {
        let base_time = self.item.base_time();
        match self.size {
            Size::Medium => base_time,
            Size::Large => base_time + 1,
        }
    }

    /// What `prep_time` returns: base time, plus the large-size delta.
    pub open spec fn prep_time_spec(self) -> u64 {
        match self.size {
            Size::Medium => self.item.base_time_spec(),
            Size::Large => (self.item.base_time_spec() + 1) as u64,
        }
    }
}

} // verus!
