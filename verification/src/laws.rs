//! What holds of the totals of every list.

use crate::data::{clamp_usize, response_of, DataResponse};
use crate::number::{clamp_i64, Number};
use crate::totals::{totals, Totals};
use crate::value::{items_of, Item, Value};
use vstd::prelude::*;
use vstd::utf8::encode_utf8;

verus! {

/// The text of a string item; the empty text for any other item.
pub open spec fn text_of(item: Item) -> Seq<char> {
    match item {
        Item::Text(text) => text,
        _ => Seq::empty(),
    }
}

/// The number of a number item; zero for any other item.
pub open spec fn number_of(item: Item) -> Number {
    match item {
        Item::Number(number) => number,
        _ => Number::Unsigned(0),
    }
}

/// The texts of the items of a list, in the order of the list.
pub open spec fn texts_of(items: Seq<Item>) -> Seq<Seq<char>> {
    items.map_values(|item: Item| text_of(item))
}

/// The numbers of the items of a list, in the order of the list.
pub open spec fn numbers_of(items: Seq<Item>) -> Seq<Number> {
    items.map_values(|item: Item| number_of(item))
}

/// The sum of the byte lengths of the UTF-8 encodings of the texts.
pub open spec fn byte_len_sum(texts: Seq<Seq<char>>) -> nat
    decreases texts.len(),
{
    if texts.len() == 0 {
        0
    } else {
        byte_len_sum(texts.drop_last()) + encode_utf8(texts.last()).len()
    }
}

/// The sum of the integers that the numbers count for.
pub open spec fn amount_sum(numbers: Seq<Number>) -> int
    decreases numbers.len(),
{
    if numbers.len() == 0 {
        0
    } else {
        amount_sum(numbers.drop_last()) + numbers.last().amount()
    }
}

/// The empty list has both totals zero.
pub proof fn lemma_empty()
    ensures
        totals(Seq::<Item>::empty()) == Totals::zero(),
        response_of(Seq::<Item>::empty()) == (DataResponse { string_len: 0, int_sum: 0 }),
{
}

/// In a list that holds only strings the sum of the numbers is zero, and the
/// total length is the sum of the byte lengths of the strings.
pub proof fn lemma_only_strings(items: Seq<Item>)
    requires
        forall|i: int| 0 <= i < items.len() ==> items[i] is Text,
    ensures
        totals(items).int_sum == 0,
        totals(items).string_len == byte_len_sum(texts_of(items)),
        response_of(items).int_sum == 0,
        response_of(items).string_len == clamp_usize(byte_len_sum(texts_of(items))),
    decreases items.len(),
{
    if items.len() > 0 {
        lemma_only_strings(items.drop_last());
        assert(texts_of(items).drop_last() =~= texts_of(items.drop_last()));
    }
}

/// In a list that holds only numbers the total length is zero, and the sum
/// is the sum of the integers that the numbers count for.
pub proof fn lemma_only_numbers(items: Seq<Item>)
    requires
        forall|i: int| 0 <= i < items.len() ==> items[i] is Number,
    ensures
        totals(items).string_len == 0,
        totals(items).int_sum == amount_sum(numbers_of(items)),
        response_of(items).string_len == 0,
        response_of(items).int_sum == clamp_i64(amount_sum(numbers_of(items))),
    decreases items.len(),
{
    if items.len() > 0 {
        lemma_only_numbers(items.drop_last());
        assert(numbers_of(items).drop_last() =~= numbers_of(items.drop_last()));
    }
}

/// The totals of two lists joined are the totals of the one plus the totals
/// of the other.
pub proof fn lemma_joined(front: Seq<Item>, back: Seq<Item>)
    ensures
        totals(front + back) == totals(front).plus(totals(back)),
    decreases back.len(),
{
    if back.len() == 0 {
        assert(front + back =~= front);
    } else {
        lemma_joined(front, back.drop_last());
        assert((front + back).drop_last() =~= front + back.drop_last());
    }
}

/// Taking one item out of a list takes what that item counts for out of the
/// totals, wherever in the list it stood.
pub proof fn lemma_removed(items: Seq<Item>, at: int)
    requires
        0 <= at < items.len(),
    ensures
        totals(items) == totals(items.remove(at)).plus(Totals::of(items[at])),
{
    let front = items.take(at);
    let back = items.skip(at + 1);
    let one = seq![items[at]];
    assert(items =~= (front + one) + back);
    assert(items.remove(at) =~= front + back);
    assert(totals(one) == Totals::of(items[at])) by {
        assert(one.drop_last() =~= Seq::<Item>::empty());
        assert(totals(one.drop_last()) == Totals::zero());
    }
    lemma_joined(front, one);
    lemma_joined(front + one, back);
    lemma_joined(front, back);
}

/// The order of a list does not matter: two lists that hold the same items,
/// each as often in the one as in the other, have the same totals and are
/// owed the same response.
pub proof fn lemma_order_independent(first: Seq<Item>, second: Seq<Item>)
    requires
        first.to_multiset() == second.to_multiset(),
    ensures
        totals(first) == totals(second),
        response_of(first) == response_of(second),
    decreases first.len(),
{
    first.to_multiset_ensures();
    second.to_multiset_ensures();
    if first.len() > 0 {
        let item = first.last();
        assert(second.contains(item)) by {
            assert(first.contains(item));
            assert(second.to_multiset().count(item) > 0);
        }
        let at = choose|at: int| 0 <= at < second.len() && second[at] == item;
        assert(first.drop_last() =~= first.remove(first.len() - 1));
        lemma_order_independent(first.drop_last(), second.remove(at));
        lemma_removed(second, at);
    }
}

/// The order of a list of values does not matter: two lists that hold the
/// same values, each as often in the one as in the other, are owed the same
/// response.
pub proof fn lemma_values_order_independent(first: Seq<Value>, second: Seq<Value>)
    requires
        first.to_multiset() == second.to_multiset(),
    ensures
        totals(items_of(first)) == totals(items_of(second)),
        response_of(items_of(first)) == response_of(items_of(second)),
    decreases first.len(),
{
    first.to_multiset_ensures();
    second.to_multiset_ensures();
    if first.len() > 0 {
        let value = first.last();
        assert(second.contains(value)) by {
            assert(first.contains(value));
            assert(second.to_multiset().count(value) > 0);
        }
        let at = choose|at: int| 0 <= at < second.len() && second[at] == value;
        assert(first.drop_last() =~= first.remove(first.len() - 1));
        lemma_values_order_independent(first.drop_last(), second.remove(at));
        assert(items_of(first).drop_last() =~= items_of(first.drop_last()));
        assert(items_of(second).remove(at) =~= items_of(second.remove(at)));
        lemma_removed(items_of(second), at);
    }
}

/// A value that is neither a string nor a number changes nothing: the list
/// without it has the same totals and is owed the same response, wherever in
/// the list it stood.
pub proof fn lemma_other_changes_nothing(items: Seq<Item>, at: int)
    requires
        0 <= at < items.len(),
        items[at] is Other,
    ensures
        totals(items.remove(at)) == totals(items),
        response_of(items.remove(at)) == response_of(items),
{
    lemma_removed(items, at);
}

} // verus!
