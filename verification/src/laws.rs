//! What holds of the sum of a text source, whatever its lines are.

use crate::error::Failure;
use crate::number::{law_parse_int_reads_decimals, parse_int, IntErrorKind};
use crate::summation::{
    add_item, consumed_from, consumed_of, item_number, sum_from, sum_of, text_number, Item,
};
use crate::text::{blank, law_trim_ignores_padding, law_trim_of_blank, trim};
use vstd::prelude::*;

verus! {

/// The sum of `values` as arithmetic has it, without bounds.
pub open spec fn arithmetic_sum(values: Seq<int>) -> int
    decreases values.len(),
{
    if values.len() == 0 {
        0
    } else {
        arithmetic_sum(values.drop_last()) + values.last()
    }
}

/// Whether every one of `items` gives a number.
pub open spec fn all_numbers(items: Seq<Item>) -> bool {
    forall|i: int| 0 <= i < items.len() ==> item_number(#[trigger] items[i]) is Ok
}

/// The numbers that `items` give, in their order; an item that gives none
/// counts nothing.
pub open spec fn numbers(items: Seq<Item>) -> Seq<int> {
    items.map_values(
        |item: Item|
            match item_number(item) {
                Ok(v) => v,
                Err(_) => 0,
            },
    )
}

/// Whether the sum of `values`, and of every row of values that `values`
/// begins with, lies within `isize`.
pub open spec fn totals_fit(values: Seq<int>) -> bool {
    forall|k: int|
        0 <= k <= values.len() ==> isize::MIN <= #[trigger] arithmetic_sum(values.take(k))
            <= isize::MAX
}

/// Summing two rows of items one after the other is summing the first and,
/// if that did not fail, going on from its total through the second.
pub proof fn lemma_sum_from_append(total: int, a: Seq<Item>, b: Seq<Item>)
    ensures
        sum_from(total, a + b) == (match sum_from(total, a) {
            Ok(next) => sum_from(next, b),
            Err(failure) => Err(failure),
        }),
        consumed_from(total, a + b) == (match sum_from(total, a) {
            Ok(next) => a.len() + consumed_from(next, b),
            Err(_) => consumed_from(total, a),
        }),
        consumed_from(total, a) <= a.len(),
    decreases a.len(),
{
    if a.len() > 0 {
        assert((a + b).first() == a.first());
        assert((a + b).drop_first() =~= a.drop_first() + b);
        if let Ok(next) = add_item(total, a.first()) {
            lemma_sum_from_append(next, a.drop_first(), b);
        }
    } else {
        assert(a + b =~= b);
    }
}

/// Summing one item from a total is adding its number to the total.
pub proof fn lemma_sum_from_one(total: int, item: Item)
    ensures
        sum_from(total, seq![item]) == add_item(total, item),
        consumed_from(total, seq![item]) == 1,
{
    assert(seq![item].drop_first() =~= Seq::<Item>::empty());
    reveal_with_fuel(sum_from, 2);
    reveal_with_fuel(consumed_from, 2);
}

/// A sum can be taken in two parts: the first `k` items, then the others
/// from the total reached. Where the first part fails, the sum fails in the
/// same way and reads no item more.
pub proof fn law_sum_in_parts(items: Seq<Item>, k: int)
    requires
        0 <= k <= items.len(),
    ensures
        sum_of(items) == (match sum_of(items.take(k)) {
            Ok(total) => sum_from(total, items.skip(k)),
            Err(failure) => Err(failure),
        }),
        consumed_of(items) == (match sum_of(items.take(k)) {
            Ok(total) => k + consumed_from(total, items.skip(k)),
            Err(_) => consumed_of(items.take(k)) as int,
        }),
        consumed_of(items.take(k)) <= k,
{
    assert(items.take(k) + items.skip(k) =~= items);
    lemma_sum_from_append(0, items.take(k), items.skip(k));
}

/// What follows a failure makes no difference: the sum fails in the same
/// way and reads the same items, whatever comes after them.
pub proof fn law_sum_ignores_what_follows_a_failure(items: Seq<Item>, rest: Seq<Item>)
    requires
        sum_of(items) is Err,
    ensures
        sum_of(items + rest) == sum_of(items),
        consumed_of(items + rest) == consumed_of(items),
{
    lemma_sum_from_append(0, items, rest);
}

/// The sum is a number exactly when every line writes a number and the
/// running total stays within `isize` all the way; it is then the
/// arithmetic sum of those numbers.
pub proof fn law_sum_is_arithmetic(items: Seq<Item>)
    ensures
        sum_of(items) is Ok <==> all_numbers(items) && totals_fit(numbers(items)),
        sum_of(items) matches Ok(total) ==> total == arithmetic_sum(numbers(items)),
        sum_of(items) is Ok ==> consumed_of(items) == items.len(),
    decreases items.len(),
{
    let values = numbers(items);
    if items.len() == 0 {
        assert forall|k: int| 0 <= k <= values.len() implies isize::MIN <= #[trigger] arithmetic_sum(
            values.take(k),
        ) <= isize::MAX by {
            assert(values.take(k) =~= values);
        }
    } else {
        // The sum of all is the sum of all but the last, and then the last.
        let n = items.len() as int;
        let init = items.drop_last();
        let last = items.last();
        assert(init + seq![last] =~= items);
        lemma_sum_from_append(0, init, seq![last]);
        if let Ok(total) = sum_of(init) {
            lemma_sum_from_one(total, last);
        }
        law_sum_is_arithmetic(init);
        // So are the numbers, and the sums that they begin with.
        assert(values.drop_last() =~= numbers(init));
        assert(values.take(n) =~= values);
        assert forall|k: int| 0 <= k < n implies values.take(k) == #[trigger] numbers(init).take(k) by {
            assert(values.take(k) =~= numbers(init).take(k));
        }
        if all_numbers(items) && totals_fit(values) {
            assert forall|i: int| 0 <= i < init.len() implies item_number(#[trigger] init[i]) is Ok by {
                assert(init[i] == items[i]);
            }
            assert forall|k: int| 0 <= k <= numbers(init).len() implies isize::MIN
                <= #[trigger] arithmetic_sum(numbers(init).take(k)) <= isize::MAX by {
                assert(values.take(k) =~= numbers(init).take(k));
            }
            assert(item_number(items[n - 1]) is Ok);
            assert(isize::MIN <= arithmetic_sum(values.take(n)) <= isize::MAX);
        }
        if sum_of(items) is Ok {
            assert forall|i: int| 0 <= i < items.len() implies item_number(#[trigger] items[i]) is Ok by {
                if i < n - 1 {
                    assert(items[i] == init[i]);
                }
            }
            assert forall|k: int| 0 <= k <= values.len() implies isize::MIN <= #[trigger] arithmetic_sum(
                values.take(k),
            ) <= isize::MAX by {
                if k < n {
                    assert(values.take(k) =~= numbers(init).take(k));
                }
            }
        }
    }
}

/// No lines add up to nothing.
pub proof fn law_sum_of_nothing()
    ensures
        sum_of(Seq::<Item>::empty()) == Ok::<int, Failure>(0),
        consumed_of(Seq::<Item>::empty()) == 0,
{
}

/// The sum of a single line is the number on that line, and fails as that
/// line fails.
pub proof fn law_sum_of_one(item: Item)
    ensures
        sum_of(seq![item]) == item_number(item),
        consumed_of(seq![item]) == 1,
{
    lemma_sum_from_one(0, item);
    if let Ok(text) = item {
        law_parse_int_reads_decimals(trim(text));
    }
}

/// White space around the text of a line makes no difference to the number
/// on it, nor to what is wrong with it.
pub proof fn law_number_ignores_padding(before: Seq<char>, text: Seq<char>, after: Seq<char>)
    requires
        blank(before),
        blank(after),
    ensures
        parse_int(trim(before + text + after)) == parse_int(trim(text)),
        text_number(before + text + after) is Ok <==> text_number(text) is Ok,
        text_number(text) is Ok ==> text_number(before + text + after) == text_number(text),
{
    law_trim_ignores_padding(before, text, after);
}

/// White space around the text of any line makes no difference to the sum.
pub proof fn law_sum_ignores_padding(
    items: Seq<Item>,
    k: int,
    before: Seq<char>,
    text: Seq<char>,
    after: Seq<char>,
)
    requires
        0 <= k < items.len(),
        items[k] == Ok::<Seq<char>, std::io::Error>(text),
        blank(before),
        blank(after),
    ensures
        sum_of(items.update(k, Ok(before + text + after))) is Ok <==> sum_of(items) is Ok,
        sum_of(items) is Ok ==> sum_of(items.update(k, Ok(before + text + after))) == sum_of(items),
{
    let padded = items.update(k, Ok(before + text + after));
    law_number_ignores_padding(before, text, after);
    law_sum_is_arithmetic(items);
    law_sum_is_arithmetic(padded);
    assert(numbers(padded) =~= numbers(items));
    if all_numbers(items) {
        assert forall|i: int| 0 <= i < padded.len() implies item_number(#[trigger] padded[i]) is Ok by {
            assert(item_number(items[i]) is Ok);
        }
    }
    if all_numbers(padded) {
        assert forall|i: int| 0 <= i < items.len() implies item_number(#[trigger] items[i]) is Ok by {
            assert(item_number(padded[i]) is Ok);
        }
    }
}

/// A line that is empty or all white space gives no number: it fails as
/// an empty text does, and the failure keeps the line.
pub proof fn law_blank_line_fails(text: Seq<char>)
    requires
        blank(text),
    ensures
        text_number(text) == Err::<int, Failure>(
            Failure::Parsing { input: text, source: IntErrorKind::Empty },
        ),
{
    law_trim_of_blank(text);
}

/// A sum with a line that is empty or all white space fails. Unless an
/// earlier item has failed, which then decides, it fails on that line, as a
/// line that does not parse, and reads nothing after it.
pub proof fn law_sum_fails_on_blank_line(items: Seq<Item>, k: int, text: Seq<char>)
    requires
        0 <= k < items.len(),
        items[k] == Ok::<Seq<char>, std::io::Error>(text),
        blank(text),
    ensures
        sum_of(items) is Err,
        sum_of(items.take(k)) is Ok ==> sum_of(items) == Err::<int, Failure>(
            Failure::Parsing { input: text, source: IntErrorKind::Empty },
        ) && consumed_of(items) == k + 1,
        sum_of(items.take(k)) is Err ==> sum_of(items) == sum_of(items.take(k)),
{
    law_sum_in_parts(items, k);
    law_blank_line_fails(text);
    assert(items.skip(k).first() == items[k]);
}

/// A failure of the text source fails the sum, wherever it stands. Unless
/// an earlier item has failed, which then decides, the sum fails with that
/// very failure and reads nothing after it.
pub proof fn law_input_failure_comes_through(items: Seq<Item>, k: int, e: std::io::Error)
    requires
        0 <= k < items.len(),
        items[k] == Err::<Seq<char>, std::io::Error>(e),
    ensures
        sum_of(items) is Err,
        sum_of(items.take(k)) is Ok ==> sum_of(items) == Err::<int, Failure>(Failure::Input(e))
            && consumed_of(items) == k + 1,
        sum_of(items.take(k)) is Err ==> sum_of(items) == sum_of(items.take(k)) && consumed_of(items)
            <= k,
{
    law_sum_in_parts(items, k);
    assert(items.skip(k).first() == items[k]);
}

} // verus!
