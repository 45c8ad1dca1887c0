//! The ways in which summing a text source fails.

use crate::number::IntErrorKind;
use vstd::prelude::*;
use vstd::string::StringExecFns;

verus! {

/// `std::io::Error`: what the source of the lines reports when it cannot
/// give the next one. The type is only made known here, so that such a value
/// can be handed on; nothing is said of what it holds, and the library never
/// looks into it.
#[verifier::external_type_specification]
#[verifier::external_body]
pub struct ExIoError(std::io::Error);

/// Why no sum was returned.
#[derive(Debug)]
pub enum Error {
    /// Returned when reading the input fails, e.g. on non-UTF-8 data.
    InputError(std::io::Error),
    /// Returned when parsing input text as number fails.
    ParsingError {
        /// The line as it was read, white space included.
        input: String,
        /// What is wrong with it.
        source: IntErrorKind,
    },
    /// Returned when the numbers read so far add up to more, or to less,
    /// than the number type holds.
    OverflowError,
}

/// An `Error` as contracts see it: the offending line is a sequence of
/// characters.
pub enum Failure {
    /// The source of the lines failed, and reported this.
    Input(std::io::Error),
    /// The line `input` writes no number, for the reason `source`.
    Parsing { input: Seq<char>, source: IntErrorKind },
    /// The running total left `isize`.
    Overflow,
}

impl View for Error {
    type V = Failure;

    open spec fn view(&self) -> Failure {
        match *self {
            Error::InputError(e) => Failure::Input(e),
            Error::ParsingError { input, source } => Failure::Parsing { input: input@, source },
            Error::OverflowError => Failure::Overflow,
        }
    }
}

/// Whether `part` stands somewhere in `text`, character for character.
pub open spec fn contains(text: Seq<char>, part: Seq<char>) -> bool {
    exists|at: int| 0 <= at && at + part.len() <= text.len() && #[trigger] text.subrange(at, at + part.len()) == part
}

/// What a failure reads like to a person.
pub open spec fn message(failure: Failure) -> Seq<char> {
    match failure {
        Failure::Input(_) => "Could not read input"@,
        Failure::Parsing { input, .. } => "Could not parse \""@ + input + "\" to number"@,
        Failure::Overflow => "Could not add the numbers without overflow"@,
    }
}

impl Error {
    /// The failure in words. A line that did not parse is quoted in full.
    pub fn to_string(&self) -> (text: String)
        ensures
            text@ == message(self@),
    {
        match self {
            Error::InputError(_) => String::from_str("Could not read input"),
            Error::ParsingError { input, .. } => {
                let mut text = String::from_str("Could not parse \"");
                text.append(input.as_str());
                text.append("\" to number");
                text
            },
            Error::OverflowError => String::from_str("Could not add the numbers without overflow"),
        }
    }
}

/// The message for a line that did not parse holds that line, whatever the
/// line is and whatever is wrong with it.
pub proof fn law_message_quotes_input(input: Seq<char>, source: IntErrorKind)
    ensures
        contains(message(Failure::Parsing { input, source }), input),
{
    let text = message(Failure::Parsing { input, source });
    let at = "Could not parse \""@.len() as int;
    assert(text.subrange(at, at + input.len()) =~= input);
}

/// The message for an empty line that did not parse is the bare frame,
/// with nothing between its quotation marks.
pub proof fn law_message_of_empty_input(source: IntErrorKind)
    ensures
        message(Failure::Parsing { input: Seq::empty(), source }) == "Could not parse \"\" to number"@,
{
    reveal_strlit("Could not parse \"");
    reveal_strlit("\" to number");
    reveal_strlit("Could not parse \"\" to number");
    assert(message(Failure::Parsing { input: Seq::empty(), source }) =~= "Could not parse \"\" to number"@);
}

} // verus!
