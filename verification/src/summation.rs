//! Summing the lines of a text source.

use crate::error::{Error, Failure};
use crate::number::{parse_between, parse_int};
use crate::text::{chars_of, trim, trim_bounds};
use vstd::prelude::*;
use vstd::std_specs::iter::IteratorSpec;

verus! {

/// What a text source hands over for one line: the text of the line, without
/// its line end, or the reason why the source could not give it.
pub type Item = Result<Seq<char>, std::io::Error>;

/// What came of reading a number or a sum, as contracts see it.
pub type Outcome = Result<int, Failure>;

/// The outcome that a machine result stands for.
pub open spec fn outcome(r: Result<isize, Error>) -> Outcome {
    match r {
        Ok(v) => Ok(v as int),
        Err(e) => Err(e@),
    }
}

/// The number on a line of text: the one that the trimmed text writes. A
/// line that writes none fails, and the failure keeps the line untrimmed.
pub open spec fn text_number(text: Seq<char>) -> Outcome {
    match parse_int(trim(text)) {
        Ok(v) => Ok(v),
        Err(source) => Err(Failure::Parsing { input: text, source }),
    }
}

/// The number that an item of a text source gives.
pub open spec fn item_number(item: Item) -> Outcome {
    match item {
        Ok(text) => text_number(text),
        Err(e) => Err(Failure::Input(e)),
    }
}

/// Reads the number on a line of text.
pub fn as_number(line: &str) -> (r: Result<isize, Error>)
    ensures
        outcome(r) == text_number(line@),
{
    let chars = chars_of(line);
    let (from, to) = trim_bounds(&chars);
    match parse_between(&chars, from, to) {
        Ok(v) => Ok(v),
        Err(source) => Err(Error::ParsingError { input: line.to_owned(), source }),
    }
}

/// Turns the failure of a text source into this library's failure and
/// leaves a line that was read as it is.
pub fn read<S>(line: Result<S, std::io::Error>) -> (r: Result<S, Error>)
    ensures
        line matches Ok(s) ==> r == Ok::<S, Error>(s),
        line matches Err(e) ==> r == Err::<S, Error>(Error::InputError(e)),
{
    match line {
        Ok(s) => Ok(s),
        Err(e) => Err(Error::InputError(e)),
    }
}

/// Something that a text source can hand over for one line: a line of text,
/// or a `Result` that holds one or reports that the source failed.
pub trait Line: Sized {
    /// What the item holds.
    spec fn content(self) -> Item;

    /// Reads the number on the line, or says why there is none.
    fn number(self) -> (r: Result<isize, Error>)
        ensures
            outcome(r) == item_number(self.content()),
    ;
}

impl<'a> Line for &'a str {
    open spec fn content(self) -> Item {
        Ok(self@)
    }

    fn number(self) -> (r: Result<isize, Error>) {
        as_number(self)
    }
}

impl Line for String {
    open spec fn content(self) -> Item {
        Ok(self@)
    }

    fn number(self) -> (r: Result<isize, Error>) {
        as_number(self.as_str())
    }
}

impl<S: Line> Line for Result<S, std::io::Error> {
    open spec fn content(self) -> Item {
        match self {
            Ok(line) => line.content(),
            Err(e) => Err(e),
        }
    }

    fn number(self) -> (r: Result<isize, Error>) {
        match read(self) {
            Ok(line) => line.number(),
            Err(e) => Err(e),
        }
    }
}

/// What each of `lines` holds, in their order.
pub open spec fn contents<L: Line>(lines: Seq<L>) -> Seq<Item> {
    lines.map_values(|line: L| line.content())
}

/// The running total after one more number: the two are added, unless the
/// new total leaves `isize`.
pub open spec fn add_value(total: int, value: int) -> Outcome {
    if isize::MIN <= total + value <= isize::MAX {
        Ok(total + value)
    } else {
        Err(Failure::Overflow)
    }
}

/// The running total after one more item: the item's number is added to
/// `total`, unless the item gives none or the new total leaves `isize`.
pub open spec fn add_item(total: int, item: Item) -> Outcome {
    match item_number(item) {
        Ok(value) => add_value(total, value),
        Err(failure) => Err(failure),
    }
}

/// The running total after `items`, taken in their order from `total` on,
/// or the first failure met on the way.
pub open spec fn sum_from(total: int, items: Seq<Item>) -> Outcome
    decreases items.len(),
{
    if items.len() == 0 {
        Ok(total)
    } else {
        match add_item(total, items.first()) {
            Ok(next) => sum_from(next, items.drop_first()),
            Err(failure) => Err(failure),
        }
    }
}

/// How many of `items` are read to reach `sum_from(total, items)`: all of
/// them, or those up to and with the first that fails.
pub open spec fn consumed_from(total: int, items: Seq<Item>) -> nat
    decreases items.len(),
{
    if items.len() == 0 {
        0
    } else {
        match add_item(total, items.first()) {
            Ok(next) => 1 + consumed_from(next, items.drop_first()),
            Err(_) => 1,
        }
    }
}

/// The sum of the numbers on `items`, or the first failure.
pub open spec fn sum_of(items: Seq<Item>) -> Outcome {
    sum_from(0, items)
}

/// How many of `items` are read to reach `sum_of(items)`.
pub open spec fn consumed_of(items: Seq<Item>) -> nat {
    consumed_from(0, items)
}

/// Adds a number to a running total.
pub fn add_number(total: isize, value: isize) -> (r: Result<isize, Error>)
    ensures
        outcome(r) == add_value(total as int, value as int),
{
    match total.checked_add(value) {
        Some(next) => Ok(next),
        None => Err(Error::OverflowError),
    }
}

/// Sums the numbers on the lines that `lines` still has to give, and stops
/// at the first failure: a failure of the source, a line that writes no
/// number, or a total that leaves `isize`. What follows a failure is left in
/// `lines`, unread.
///
/// `lines` has to be a source that comes to an end and stays there.
pub fn sum_by_ref<L, T>(lines: &mut T) -> (r: Result<isize, Error>)
    where
        L: Line,
        T: Iterator<Item = L>,
    requires
        (*old(lines)).obeys_prophetic_iter_laws(),
        (*old(lines)).decrease() is Some,
    ensures
        outcome(r) == sum_of(contents((*old(lines)).remaining())),
        (*final(lines)).remaining() == (*old(lines)).remaining().skip(
            consumed_of(contents((*old(lines)).remaining())) as int,
        ),
        (*final(lines)).obeys_prophetic_iter_laws(),
        (*final(lines)).decrease() is Some,
{
    let ghost all = (*lines).remaining();
    let ghost mut done: int = 0;
    let mut total: isize = 0;
    assert(all.skip(0) =~= all);
    loop
        invariant
            (*lines).obeys_prophetic_iter_laws(),
            (*lines).decrease() is Some,
            all == (*old(lines)).remaining(),
            0 <= done <= all.len(),
            (*lines).remaining() == all.skip(done),
            sum_of(contents(all)) == sum_from(total as int, contents(all.skip(done))),
            consumed_of(contents(all)) == done + consumed_from(total as int, contents(all.skip(done))),
        decreases (*lines).decrease()->0,
    {
        let ghost rest = all.skip(done);
        match lines.next() {
            None => {
                return Ok(total);
            },
            Some(line) => {
                assert(contents(rest).first() == line.content());
                assert(rest.drop_first() =~= all.skip(done + 1));
                assert(contents(rest).drop_first() =~= contents(all.skip(done + 1)));
                let value = match line.number() {
                    Ok(value) => value,
                    Err(e) => {
                        return Err(e);
                    },
                };
                total = match add_number(total, value) {
                    Ok(next) => next,
                    Err(e) => {
                        return Err(e);
                    },
                };
                proof {
                    done = done + 1;
                }
            },
        }
    }
}

/// Reads a stream of `Result`s containing either lines of text or I/O
/// errors, parses the lines as numbers, and returns their sum, or the first
/// failure. Nothing is read after a failure.
///
/// `lines` has to be a source that comes to an end and stays there.
pub fn sum<S, T>(lines: T) -> (r: Result<isize, Error>)
    where
        S: Line,
        T: Iterator<Item = Result<S, std::io::Error>>,
    requires
        lines.obeys_prophetic_iter_laws(),
        lines.decrease() is Some,
    ensures
        outcome(r) == sum_of(contents(lines.remaining())),
{
    let mut lines = lines;
    sum_by_ref(&mut lines)
}

/// Reads a stream of lines of text, parses them as numbers, and returns
/// their sum, or the first failure: what `sum` returns for the same lines,
/// each as a line that was read.
///
/// `strings` has to be a source that comes to an end and stays there.
pub fn sum_strings<'a, T>(strings: T) -> (r: Result<isize, Error>)
    where
        T: Iterator<Item = &'a str>,
    requires
        strings.obeys_prophetic_iter_laws(),
        strings.decrease() is Some,
    ensures
        outcome(r) == sum_of(strings.remaining().map_values(|line: &'a str| Ok(line@))),
{
    let mut strings = strings;
    assert(contents(strings.remaining()) =~= strings.remaining().map_values(|line: &'a str| Ok(line@)));
    sum_by_ref(&mut strings)
}

} // verus!
