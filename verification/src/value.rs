//! The elements of a value list.

use crate::number::Number;
use vstd::prelude::*;
use vstd::utf8::encode_utf8;

verus! {

/// One element of a value list.
#[derive(Clone, Debug, PartialEq, Eq)]
pub enum Value {
    /// A string.
    String(String),
    /// A number.
    Number(Number),
    /// Anything else: a boolean, a null, a nested list or object. It counts
    /// for nothing.
    Other,
}

/// What a `Value` is to the totals: its view.
pub enum Item {
    /// A string, by its characters.
    Text(Seq<char>),
    /// A number.
    Number(Number),
    /// Anything else.
    Other,
}

impl Item {
    /// What the item adds to the total length: for a string, the number of
    /// bytes of its UTF-8 encoding.
    pub open spec fn string_len(self) -> nat {
        match self {
            Item::Text(text) => encode_utf8(text).len(),
            _ => 0,
        }
    }

    /// What the item adds to the sum: for a number, the integer it counts
    /// for.
    pub open spec fn int_value(self) -> int {
        match self {
            Item::Number(number) => number.amount(),
            _ => 0,
        }
    }
}

impl View for Value {
    type V = Item;

    open spec fn view(&self) -> Item {
        match self {
            Value::String(text) => Item::Text(text@),
            Value::Number(number) => Item::Number(*number),
            Value::Other => Item::Other,
        }
    }
}

impl Value {
    /// What the value adds to the total length: the length in bytes of a
    /// string, zero for anything else.
    pub fn string_len(&self) -> (len: usize)
        ensures
            len as nat == self@.string_len(),
    {
        match self {
            Value::String(text) => text.as_str().as_bytes().len(),
            _ => 0,
        }
    }

    /// What the value adds to the sum: the integer that a number counts for,
    /// zero for anything else.
    pub fn int_value(&self) -> (amount: i64)
        ensures
            amount as int == self@.int_value(),
    {
        match self {
            Value::Number(number) => number.to_i64(),
            _ => 0,
        }
    }
}

/// The views of the values of a list, in the order of the list.
pub open spec fn items_of(values: Seq<Value>) -> Seq<Item> {
    values.map_values(|value: Value| value@)
}

} // verus!
