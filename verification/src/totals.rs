//! The exact totals of a list of items.

use crate::value::Item;
use vstd::prelude::*;

verus! {

/// The two totals of a list, as mathematical integers.
pub struct Totals {
    /// The sum of the byte lengths of the strings.
    pub string_len: nat,
    /// The sum of the integers that the numbers count for.
    pub int_sum: int,
}

impl Totals {
    /// The totals of a list without strings and numbers.
    pub open spec fn zero() -> Totals {
        Totals { string_len: 0, int_sum: 0 }
    }

    /// The totals of a list of one item.
    pub open spec fn of(item: Item) -> Totals {
        Totals { string_len: item.string_len(), int_sum: item.int_value() }
    }

    /// The totals of two lists taken together.
    pub open spec fn plus(self, other: Totals) -> Totals {
        Totals {
            string_len: self.string_len + other.string_len,
            int_sum: self.int_sum + other.int_sum,
        }
    }
}

/// The totals of a list of items.
pub open spec fn totals(items: Seq<Item>) -> Totals
    decreases items.len(),
{
    if items.len() == 0 {
        Totals::zero()
    } else {
        totals(items.drop_last()).plus(Totals::of(items.last()))
    }
}

} // verus!
