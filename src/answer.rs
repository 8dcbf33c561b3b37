//! Answering a request: the date a number of days from today, as text.

use crate::calendar::{date_numbered, in_calendar_range, shift_days, CivilDate};
use crate::cli::{get_command_line_args, interpret, words_of, DtellError, Fault, Parsed, Request};
use crate::render::{date_text, format_named, write_date, DateFormat};
use vstd::prelude::*;

verus! {

/// The text of the date `distance` days from `today` in the format named
/// `format`, or why there is none.
pub open spec fn epoch_answer(today: CivilDate, distance: int, format: Seq<char>) -> Result<
    Seq<char>,
    Fault,
> {
    let k = today.number() + distance;
    if !in_calendar_range(k) {
        Err(Fault::OutOfRange)
    } else {
        match format_named(format) {
            None => Err(Fault::UnrecognizedFormat(format)),
            Some(f) => Ok(date_text(f, date_numbered(k))),
        }
    }
}

pub open spec fn text_result(r: Result<String, DtellError>) -> Result<Seq<char>, Fault> {
    match r {
        Ok(s) => Ok(s@),
        Err(e) => Err(e@),
    }
}

/// Writes `date` in the format named `format`.
pub fn format_date(date: CivilDate, format: &str) -> (r: Result<String, DtellError>)
    requires
        date.wf(),
    ensures
        text_result(r) == match format_named(format@) {
            Some(f) => Ok(date_text(f, date)),
            None => Err(Fault::UnrecognizedFormat(format@)),
        },
{
    match DateFormat::from_name(format) {
        Some(f) => Ok(write_date(date, f)),
        None => Err(DtellError::UnrecognizedFormat(String::from_str(format))),
    }
}

/// The date `distance` days from `today`, written in the format named `format`.
pub fn get_epoch_days(today: CivilDate, distance: i64, format: &str) -> (r: Result<
    String,
    DtellError,
>)
    requires
        today.wf(),
    ensures
        text_result(r) == epoch_answer(today, distance as int, format@),
{
    match shift_days(today, distance) {
        Some(date) => format_date(date, format),
        None => Err(DtellError::OutOfRange),
    }
}

/// What the program prints on success.
#[derive(Clone, Debug, PartialEq, Eq)]
pub enum Response {
    /// One line holding a date.
    Date(String),
    /// The manual.
    Help,
}

/// The answer to a command line (without the program name): the date text,
/// None for the manual, or why there is no answer.
pub open spec fn answer(args: Seq<Seq<char>>, today: CivilDate) -> Result<Option<Seq<char>>, Fault> {
    match interpret(args) {
        Parsed::Help => Ok(None),
        Parsed::Fail(f) => Err(f),
        Parsed::Compute { offset, format } => match epoch_answer(today, offset, format) {
            Ok(s) => Ok(Some(s)),
            Err(f) => Err(f),
        },
    }
}

pub open spec fn response_of(r: Result<Response, DtellError>) -> Result<Option<Seq<char>>, Fault> {
    match r {
        Ok(Response::Date(s)) => Ok(Some(s@)),
        Ok(Response::Help) => Ok(None),
        Err(e) => Err(e@),
    }
}

/// Answers a command line (without the program name), with `today` as the
/// current date.
pub fn run(args: &Vec<String>, today: CivilDate) -> (r: Result<Response, DtellError>)
    requires
        today.wf(),
    ensures
        response_of(r) == answer(words_of(args@), today),
{
    match get_command_line_args(args) {
        Ok(Request::Help) => Ok(Response::Help),
        Ok(Request::Compute { offset, format }) => match get_epoch_days(
            today,
            offset,
            format.as_str(),
        ) {
            Ok(s) => Ok(Response::Date(s)),
            Err(e) => Err(e),
        },
        Err(e) => Err(e),
    }
}

} // verus!
