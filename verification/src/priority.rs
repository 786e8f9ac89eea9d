//! Snapshot levels ranked by price alone: highest price first for the
//! bids a sell order hits, lowest price first for the asks a buy order
//! lifts. The greater of two ranked levels is the one consumed first.
use vstd::prelude::*;
use vstd::std_specs::cmp::{PartialEqSpecImpl, PartialOrdSpecImpl};
use core::cmp::Ordering;
use crate::snapshot::PriceLevel;

verus! {

/// A level ranked so that the higher price is the greater.
#[derive(Clone, Copy, Debug)]
pub struct MaxPriceLevel(pub PriceLevel);

/// A level ranked so that the lower price is the greater.
#[derive(Clone, Copy, Debug)]
pub struct MinPriceLevel(pub PriceLevel);

impl PartialEq for MaxPriceLevel {
    fn eq(&self, other: &Self) -> (r: bool) {
        self.0.price == other.0.price
    }
}

impl PartialEqSpecImpl for MaxPriceLevel {
    open spec fn obeys_eq_spec() -> bool {
        true
    }

    open spec fn eq_spec(&self, other: &Self) -> bool {
        self.0.price == other.0.price
    }
}

impl PartialOrd for MaxPriceLevel {
    fn partial_cmp(&self, other: &Self) -> (r: Option<Ordering>) {
        if self.0.price < other.0.price {
            Some(Ordering::Less)
        } else if self.0.price == other.0.price {
            Some(Ordering::Equal)
        } else {
            Some(Ordering::Greater)
        }
    }
}

impl PartialOrdSpecImpl for MaxPriceLevel {
    open spec fn obeys_partial_cmp_spec() -> bool {
        true
    }

    open spec fn partial_cmp_spec(&self, other: &Self) -> Option<Ordering> {
        if self.0.price < other.0.price {
            Some(Ordering::Less)
        } else if self.0.price == other.0.price {
            Some(Ordering::Equal)
        } else {
            Some(Ordering::Greater)
        }
    }
}

impl PartialEq for MinPriceLevel {
    fn eq(&self, other: &Self) -> (r: bool) {
        self.0.price == other.0.price
    }
}

impl PartialEqSpecImpl for MinPriceLevel {
    open spec fn obeys_eq_spec() -> bool {
        true
    }

    open spec fn eq_spec(&self, other: &Self) -> bool {
        self.0.price == other.0.price
    }
}

impl PartialOrd for MinPriceLevel {
    fn partial_cmp(&self, other: &Self) -> (r: Option<Ordering>) {
        if other.0.price < self.0.price {
            Some(Ordering::Less)
        } else if self.0.price == other.0.price {
            Some(Ordering::Equal)
        } else {
            Some(Ordering::Greater)
        }
    }
}

impl PartialOrdSpecImpl for MinPriceLevel {
    open spec fn obeys_partial_cmp_spec() -> bool {
        true
    }

    open spec fn partial_cmp_spec(&self, other: &Self) -> Option<Ordering> {
        if other.0.price < self.0.price {
            Some(Ordering::Less)
        } else if self.0.price == other.0.price {
            Some(Ordering::Equal)
        } else {
            Some(Ordering::Greater)
        }
    }
}

} // verus!
