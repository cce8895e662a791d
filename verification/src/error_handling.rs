//! Errors as values: `Result`, the `?` operator, and an error type of our own
//! that other errors convert into.
use vstd::prelude::*;
use crate::text::{parse_i32, parsed_i32};

verus! {

/// The error that an I/O operation reports.
#[verifier::external_type_specification]
#[verifier::external_body]
pub struct ExIoError(std::io::Error);

/// Stands in for reading a number from a file: always 42.
pub fn read_number_from_file() -> (r: Result<i32, &'static str>)
    ensures
        r == Ok::<i32, &'static str>(42),
{
    Ok(42)
}

/// Propagates the error of `read_number_from_file` with an explicit `match`.
pub fn with_match() -> (r: Result<i32, &'static str>)
    ensures
        r == Ok::<i32, &'static str>(42),
{
    let n = match read_number_from_file() {
        Ok(n) => n,
        Err(e) => return Err(e),
    };
    Ok(n)
}

/// Propagates the error of `read_number_from_file` with `?`.
pub fn with_question_mark() -> (r: Result<i32, &'static str>)
    ensures
        r == Ok::<i32, &'static str>(42),
{
    let n = read_number_from_file()?;
    Ok(n)
}

/// One error type for the failures of reading and parsing a number.
#[derive(Debug)]
pub enum MyError {
    IoError(std::io::Error),
    ParseError(std::num::ParseIntError),
    Custom(String),
}

impl From<std::io::Error> for MyError {
    /// Wraps an I/O error.
    fn from(err: std::io::Error) -> (r: MyError) {
        MyError::IoError(err)
    }
}

impl vstd::std_specs::convert::FromSpecImpl<std::io::Error> for MyError {
    open spec fn obeys_from_spec() -> bool {
        true
    }

    open spec fn from_spec(v: std::io::Error) -> MyError {
        MyError::IoError(v)
    }
}

impl From<std::num::ParseIntError> for MyError {
    /// Wraps a parse error.
    fn from(err: std::num::ParseIntError) -> (r: MyError) {
        MyError::ParseError(err)
    }
}

impl vstd::std_specs::convert::FromSpecImpl<std::num::ParseIntError> for MyError {
    open spec fn obeys_from_spec() -> bool {
        true
    }

    open spec fn from_spec(v: std::num::ParseIntError) -> MyError {
        MyError::ParseError(v)
    }
}

/// Parses the text of a number as an `i32`, turning a parse failure into
/// `MyError::ParseError`: the part of reading a number from a file that comes
/// after the read.
pub fn parse_number(text: &str) -> (r: Result<i32, MyError>)
    ensures
        r is Ok <==> parsed_i32(text@) is Some,
        r matches Ok(n) ==> parsed_i32(text@) == Some(n),
        r matches Err(e) ==> e is ParseError,
{
    match parse_i32(text) {
        Ok(n) => Ok(n),
        Err(e) => Err(MyError::from(e)),
    }
}

} // verus!
