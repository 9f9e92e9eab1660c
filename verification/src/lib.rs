//! Totals over a mixed list of values: the byte length of its strings and the
//! sum of its numbers.
//!
//! A list holds strings, numbers and values of other kinds. Each string
//! counts for the length of its UTF-8 encoding in bytes, each number for its
//! value rounded toward zero and held to the range of `i64`, and every other
//! value for nothing. Both totals are summed exactly and held to the range of
//! their type once, at the end, so the order of the list never matters.

pub mod data;
pub mod laws;
pub mod number;
pub mod totals;
pub mod value;
