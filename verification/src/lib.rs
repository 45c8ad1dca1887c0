//! Sums the numbers found on the lines of a text source, such as `stdin`:
//! one decimal integer to a line, white space around it allowed.
//!
//! ```
//! let stream = vec!["20", "22"].into_iter();
//! assert_eq!(stdio_utils::sum_strings(stream).unwrap(), 42);
//!
//! let stream = vec![Ok("20"), Ok("22")].into_iter();
//! assert_eq!(stdio_utils::sum(stream).unwrap(), 42);
//! ```
//!
//! A source that fails, a line that writes no number and a total that
//! leaves `isize` each end the sum with an [`Error`] that says which it was.

pub mod error;
pub mod laws;
pub mod number;
pub mod summation;
pub mod text;

pub use error::Error;
pub use number::IntErrorKind;
pub use summation::{as_number, read, sum, sum_by_ref, sum_strings, Line};
