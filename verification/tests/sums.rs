use std::io;
use stdio_utils::summation::add_number;
use stdio_utils::{read, sum, sum_by_ref, sum_strings, Error, IntErrorKind, Line};

fn mock_error() -> io::Error {
    io::Error::new(io::ErrorKind::Other, "Mock Error")
}

#[test]
fn twenty_and_twentytwo_are_fortytwo() {
    let stream = vec!["20", "22"].into_iter();
    assert_eq!(sum_strings(stream).unwrap(), 42);
}

#[test]
fn a_padded_line_sums_to_its_number() {
    let stream = vec!["\t 42\n"].into_iter();
    assert_eq!(sum_strings(stream).unwrap(), 42);
}

#[test]
fn sum_takes_strings_in_results() {
    let twenty: Result<String, io::Error> = Ok(String::from("20"));
    let twentytwo: Result<String, io::Error> = Ok(String::from("22"));
    let stream = vec![twenty, twentytwo].into_iter();
    assert_eq!(sum(stream).unwrap(), 42);
}

#[test]
fn sum_takes_string_slices_in_results() {
    let twenty: Result<&str, io::Error> = Ok("20");
    let twentytwo: Result<&str, io::Error> = Ok("22");
    let stream = vec![twenty, twentytwo].into_iter();
    assert_eq!(sum(stream).unwrap(), 42);
}

#[test]
fn sum_of_no_results_is_zero() {
    let stream = Vec::<Result<String, io::Error>>::new().into_iter();
    assert_eq!(sum(stream).unwrap(), 0);
}

#[test]
fn the_sum_is_the_arithmetic_sum() {
    let lines: Vec<&str> = vec!["1", " -2", "+3 ", "\t-40\t", "500", "-6000", "0", "  70000\r"];
    let expected: isize = 1 - 2 + 3 - 40 + 500 - 6000 + 70000;
    assert_eq!(sum_strings(lines.into_iter()).unwrap(), expected);
}

#[test]
fn the_sum_does_not_depend_on_white_space() {
    let bare: Vec<&str> = vec!["12", "-7", "+30"];
    let padded: Vec<&str> = vec!["  12", "-7\t\n", "\u{a0}+30\u{3000}"];
    assert_eq!(
        sum_strings(bare.into_iter()).unwrap(),
        sum_strings(padded.into_iter()).unwrap()
    );
}

#[test]
fn the_sum_of_many_lines_is_the_arithmetic_sum() {
    let mut lines: Vec<String> = Vec::new();
    let mut expected: isize = 0;
    let mut n: isize = -5000;
    while n <= 5000 {
        lines.push(format!(" {} ", n * 3 + 1));
        expected += n * 3 + 1;
        n += 1;
    }
    assert_eq!(sum_strings(lines.iter().map(|line| line.as_str())).unwrap(), expected);
    assert_eq!(sum(lines.into_iter().map(Ok)).unwrap(), expected);
}

#[test]
fn a_single_result_sums_to_its_number() {
    let stream = vec![Ok("-17")].into_iter();
    assert_eq!(sum(stream).unwrap(), -17);
}

#[test]
fn a_line_with_a_stray_character_fails_the_sum() {
    let stream = vec!["$"].into_iter();
    match sum_strings(stream) {
        Err(Error::ParsingError { input, source }) => {
            assert_eq!(input, "$");
            assert_eq!(source, IntErrorKind::InvalidDigit);
        }
        other => panic!("{:?}", other),
    }
}

#[test]
fn an_empty_line_fails_the_sum() {
    let stream = vec![""].into_iter();
    match sum_strings(stream) {
        Err(Error::ParsingError { input, source }) => {
            assert_eq!(input, "");
            assert_eq!(source, IntErrorKind::Empty);
        }
        other => panic!("{:?}", other),
    }
}

#[test]
fn a_blank_line_among_numbers_fails_the_sum() {
    let stream = vec!["1", "2", " \t", "3"].into_iter();
    match sum_strings(stream) {
        Err(Error::ParsingError { input, source }) => {
            assert_eq!(input, " \t");
            assert_eq!(source, IntErrorKind::Empty);
        }
        other => panic!("{:?}", other),
    }
    let results: Vec<Result<&str, io::Error>> = vec![Ok("1"), Ok(""), Ok("3")];
    assert!(matches!(
        sum(results.into_iter()),
        Err(Error::ParsingError { source: IntErrorKind::Empty, .. })
    ));
}

#[test]
fn the_first_failure_decides() {
    let stream = vec!["1", "x", "", "y"].into_iter();
    match sum_strings(stream) {
        Err(Error::ParsingError { input, .. }) => assert_eq!(input, "x"),
        other => panic!("{:?}", other),
    }
    let results: Vec<Result<&str, io::Error>> = vec![Ok("1"), Ok("x"), Err(mock_error())];
    assert!(matches!(sum(results.into_iter()), Err(Error::ParsingError { .. })));
    let results: Vec<Result<&str, io::Error>> = vec![Ok("1"), Err(mock_error()), Ok("x")];
    assert!(matches!(sum(results.into_iter()), Err(Error::InputError(_))));
}

#[test]
fn an_input_error_comes_through_as_it_is() {
    let input: Result<String, io::Error> = Err(mock_error());
    let stream = vec![input].into_iter();
    match sum(stream) {
        Err(Error::InputError(e)) => {
            assert_eq!(e.kind(), io::ErrorKind::Other);
            assert_eq!(e.to_string(), "Mock Error");
        }
        other => panic!("{:?}", other),
    }
}

#[test]
fn an_input_error_comes_through_from_any_place() {
    let mut place: usize = 0;
    while place < 5 {
        let mut items: Vec<Result<String, io::Error>> = Vec::new();
        let mut at: usize = 0;
        while at < 5 {
            if at == place {
                items.push(Err(io::Error::new(io::ErrorKind::InvalidData, format!("at {}", at))));
            } else {
                items.push(Ok(format!("{}", at)));
            }
            at += 1;
        }
        let mut stream = items.into_iter();
        match sum(stream.by_ref()) {
            Err(Error::InputError(e)) => {
                assert_eq!(e.kind(), io::ErrorKind::InvalidData);
                assert_eq!(e.to_string(), format!("at {}", place));
            }
            other => panic!("{:?}", other),
        }
        assert_eq!(stream.len(), 4 - place);
        place += 1;
    }
}

#[test]
fn nothing_is_read_after_an_input_error() {
    let items: Vec<Result<&str, io::Error>> = vec![Ok("1"), Err(mock_error()), Ok("2"), Ok("3")];
    let mut stream = items.into_iter();
    assert!(matches!(sum_by_ref(&mut stream), Err(Error::InputError(_))));
    assert_eq!(stream.next().unwrap().unwrap(), "2");
    assert_eq!(stream.next().unwrap().unwrap(), "3");
    assert!(stream.next().is_none());
}

#[test]
fn nothing_is_read_after_a_line_that_does_not_parse() {
    let mut stream = vec!["1", "two", "3"].into_iter();
    assert!(matches!(sum_by_ref(&mut stream), Err(Error::ParsingError { .. })));
    assert_eq!(stream.next(), Some("3"));
    assert_eq!(stream.next(), None);
}

#[test]
fn a_sum_that_succeeds_reads_every_line() {
    let mut stream = vec!["1", "2", "3"].into_iter();
    assert_eq!(sum_by_ref(&mut stream).unwrap(), 6);
    assert_eq!(stream.next(), None);
    assert_eq!(sum_by_ref(&mut stream).unwrap(), 0);
}

#[test]
fn a_sum_can_go_on_after_a_failure() {
    let mut stream = vec!["1", "two", "3", "4"].into_iter();
    assert!(sum_by_ref(&mut stream).is_err());
    assert_eq!(sum_by_ref(&mut stream).unwrap(), 7);
}

#[test]
fn a_total_beyond_the_range_overflows() {
    let max: String = isize::MAX.to_string();
    let min: String = isize::MIN.to_string();
    let stream = vec![max.as_str(), "1"].into_iter();
    assert!(matches!(sum_strings(stream), Err(Error::OverflowError)));
    let stream = vec![min.as_str(), "-1"].into_iter();
    assert!(matches!(sum_strings(stream), Err(Error::OverflowError)));
    let stream = vec![max.as_str(), "1", "-1"].into_iter();
    assert!(matches!(sum_strings(stream), Err(Error::OverflowError)));
    let mut stream = vec![max.as_str(), "1", "-1"].into_iter();
    assert!(matches!(sum_by_ref(&mut stream), Err(Error::OverflowError)));
    assert_eq!(stream.next(), Some("-1"));
}

#[test]
fn a_total_at_the_ends_of_the_range_is_returned() {
    let max: String = isize::MAX.to_string();
    let min: String = isize::MIN.to_string();
    let stream = vec![max.as_str(), "-1", "1"].into_iter();
    assert_eq!(sum_strings(stream).unwrap(), isize::MAX);
    let stream = vec![min.as_str(), "1", "-1"].into_iter();
    assert_eq!(sum_strings(stream).unwrap(), isize::MIN);
    let stream = vec![max.as_str(), min.as_str()].into_iter();
    assert_eq!(sum_strings(stream).unwrap(), -1);
}

#[test]
fn add_number_adds_or_overflows() {
    assert_eq!(add_number(20, 22).unwrap(), 42);
    assert_eq!(add_number(-20, 2).unwrap(), -18);
    assert_eq!(add_number(isize::MAX, 0).unwrap(), isize::MAX);
    assert_eq!(add_number(isize::MIN, isize::MAX).unwrap(), -1);
    assert!(matches!(add_number(isize::MAX, 1), Err(Error::OverflowError)));
    assert!(matches!(add_number(isize::MIN, -1), Err(Error::OverflowError)));
}

#[test]
fn read_wraps_an_input_error() {
    let line: Result<&str, io::Error> = Ok(" 42 ");
    assert_eq!(read(line).unwrap(), " 42 ");
    let line: Result<&str, io::Error> = Err(mock_error());
    match read(line) {
        Err(Error::InputError(e)) => assert_eq!(e.to_string(), "Mock Error"),
        other => panic!("{:?}", other),
    }
}

#[test]
fn lines_give_their_numbers() {
    assert_eq!(" 7 ".number().unwrap(), 7);
    assert_eq!(String::from("-7").number().unwrap(), -7);
    let line: Result<&str, io::Error> = Ok("8");
    assert_eq!(line.number().unwrap(), 8);
    let line: Result<String, io::Error> = Err(mock_error());
    assert!(matches!(line.number(), Err(Error::InputError(_))));
    assert!(matches!("seven".number(), Err(Error::ParsingError { .. })));
}
