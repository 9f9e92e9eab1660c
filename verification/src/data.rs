//! The request, the response, and the function that turns one into the other.

use crate::number::clamp_i64;
use crate::totals::totals;
use crate::value::{items_of, Item, Value};
use vstd::prelude::*;

verus! {

/// A request: the list of values to total.
#[derive(Clone, Debug, PartialEq, Eq)]
pub struct DataRequest {
    /// The values, in the order in which they arrived.
    pub data: Vec<Value>,
}

impl View for DataRequest {
    type V = Seq<Item>;

    open spec fn view(&self) -> Seq<Item> {
        items_of(self.data@)
    }
}

/// A response: the two totals of a list.
#[derive(Clone, Copy, Debug, PartialEq, Eq, Structural)]
pub struct DataResponse {
    /// The total length of the strings in bytes, held to the range of
    /// `usize`.
    pub string_len: usize,
    /// The sum of the numbers, held to the range of `i64`.
    pub int_sum: i64,
}

/// The integer nearest to `x` within the range of `usize`.
pub open spec fn clamp_usize(x: nat) -> nat {
    if x > usize::MAX {
        usize::MAX as nat
    } else {
        x
    }
}

/// The response that is owed for a list of items: each exact total, held to
/// the range of its type.
pub open spec fn response_of(items: Seq<Item>) -> DataResponse {
    DataResponse {
        string_len: clamp_usize(totals(items).string_len) as usize,
        int_sum: clamp_i64(totals(items).int_sum) as i64,
    }
}

/// Totals a list of values.
pub fn aggregate(values: &[Value]) -> (response: DataResponse)
    ensures
        response == response_of(items_of(values@)),
{
    let ghost items = items_of(values@);
    let mut string_len: usize = 0;
    let mut int_sum: i128 = 0;
    let mut i: usize = 0;
    while i < values.len()
        invariant
            i <= values.len(),
            items == items_of(values@),
            string_len as nat == clamp_usize(totals(items.take(i as int)).string_len),
            int_sum as int == totals(items.take(i as int)).int_sum,
            i * (i64::MIN as int) <= int_sum <= i * (i64::MAX as int),
        decreases values.len() - i,
    {
        let value = &values[i];
        proof {
            assert(items.take(i + 1).drop_last() =~= items.take(i as int));
            assert(items.take(i + 1).last() == value@);
        }
        string_len = string_len.saturating_add(value.string_len());
        int_sum = int_sum + value.int_value() as i128;
        i = i + 1;
    }
    proof {
        assert(items.take(i as int) =~= items);
    }
    let int_sum: i64 = if int_sum > i64::MAX as i128 {
        i64::MAX
    } else if int_sum < i64::MIN as i128 {
        i64::MIN
    } else {
        int_sum as i64
    };
    DataResponse { string_len, int_sum }
}

/// Answers a request with the totals of its list.
pub fn process_data(request: DataRequest) -> (response: DataResponse)
    ensures
        response == response_of(request@),
{
    aggregate(request.data.as_slice())
}

} // verus!
