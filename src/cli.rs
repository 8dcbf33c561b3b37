//! Reading the command line into a request, and answering it.

use crate::digits::{int_value, parse_i64};
use crate::words::same_text;
use vstd::prelude::*;

verus! {

/// What went wrong, as plain values.
pub enum Fault {
    InvalidDaysValue(Seq<char>),
    MissingDaysValue,
    MissingFormatValue,
    UnknownArgument(Seq<char>),
    NoOffsetProvided,
    UnrecognizedFormat(Seq<char>),
    OutOfRange,
}

/// Why a request cannot be answered.
#[derive(Clone, Debug, PartialEq, Eq)]
pub enum DtellError {
    /// The word given as the day count is not an integer.
    InvalidDaysValue(String),
    /// `--days` or `-d` ends the command line.
    MissingDaysValue,
    /// `--format` or `-f` ends the command line.
    MissingFormatValue,
    /// A second positional word after the day count.
    UnknownArgument(String),
    /// Neither a day count nor a help request was given.
    NoOffsetProvided,
    /// The format name is none of `gen`, `us`, `iso`.
    UnrecognizedFormat(String),
    /// The resulting date lies outside the representable years.
    OutOfRange,
}

impl View for DtellError {
    type V = Fault;

    open spec fn view(&self) -> Fault {
        match self {
            DtellError::InvalidDaysValue(w) => Fault::InvalidDaysValue(w@),
            DtellError::MissingDaysValue => Fault::MissingDaysValue,
            DtellError::MissingFormatValue => Fault::MissingFormatValue,
            DtellError::UnknownArgument(w) => Fault::UnknownArgument(w@),
            DtellError::NoOffsetProvided => Fault::NoOffsetProvided,
            DtellError::UnrecognizedFormat(w) => Fault::UnrecognizedFormat(w@),
            DtellError::OutOfRange => Fault::OutOfRange,
        }
    }
}

/// A request read from the command line.
#[derive(Clone, Debug, PartialEq, Eq)]
pub enum Request {
    /// Print the date `offset` days from today in the format named `format`.
    Compute { offset: i64, format: String },
    /// Print the manual.
    Help,
}

/// What reading a command line gives, as plain values.
pub enum Parsed {
    Compute { offset: int, format: Seq<char> },
    Help,
    Fail(Fault),
}

pub open spec fn parsed_of(r: Result<Request, DtellError>) -> Parsed {
    match r {
        Ok(Request::Compute { offset, format }) => Parsed::Compute {
            offset: offset as int,
            format: format@,
        },
        Ok(Request::Help) => Parsed::Help,
        Err(e) => Parsed::Fail(e@),
    }
}

pub open spec fn is_days_flag(w: Seq<char>) -> bool {
    w == seq!['-', '-', 'd', 'a', 'y', 's'] || w == seq!['-', 'd']
}

pub open spec fn is_format_flag(w: Seq<char>) -> bool {
    w == seq!['-', '-', 'f', 'o', 'r', 'm', 'a', 't'] || w == seq!['-', 'f']
}

pub open spec fn is_help_flag(w: Seq<char>) -> bool {
    w == seq!['-', '-', 'h', 'e', 'l', 'p'] || w == seq!['-', 'h']
}

pub open spec fn iso_name() -> Seq<char> {
    seq!['i', 's', 'o']
}

/// Reads `args` from position `i` on, with the day count and format name
/// collected so far.
pub open spec fn scan(
    args: Seq<Seq<char>>,
    i: int,
    days: Option<int>,
    format: Option<Seq<char>>,
) -> Parsed
    decreases args.len() - i,
{
    if i < 0 || i >= args.len() {
        match days {
            None => Parsed::Fail(Fault::NoOffsetProvided),
            Some(n) => Parsed::Compute {
                offset: n,
                format: match format {
                    Some(f) => f,
                    None => iso_name(),
                },
            },
        }
    } else if is_days_flag(args[i]) {
        if i + 1 < args.len() {
            match int_value(args[i + 1]) {
                Some(n) => scan(args, i + 2, Some(n), format),
                None => Parsed::Fail(Fault::InvalidDaysValue(args[i + 1])),
            }
        } else {
            Parsed::Fail(Fault::MissingDaysValue)
        }
    } else if is_format_flag(args[i]) {
        if i + 1 < args.len() {
            scan(args, i + 2, days, Some(args[i + 1]))
        } else {
            Parsed::Fail(Fault::MissingFormatValue)
        }
    } else if is_help_flag(args[i]) {
        Parsed::Help
    } else if days is None {
        match int_value(args[i]) {
            Some(n) => scan(args, i + 1, Some(n), format),
            None => Parsed::Fail(Fault::InvalidDaysValue(args[i])),
        }
    } else {
        Parsed::Fail(Fault::UnknownArgument(args[i]))
    }
}

/// The request that a command line (without the program name) makes.
pub open spec fn interpret(args: Seq<Seq<char>>) -> Parsed {
    scan(args, 0, None, None)
}

pub open spec fn words_of(args: Seq<String>) -> Seq<Seq<char>> {
    args.map_values(|s: String| s@)
}

spec fn days_view(d: Option<i64>) -> Option<int> {
    match d {
        Some(n) => Some(n as int),
        None => None,
    }
}

spec fn format_view(f: Option<String>) -> Option<Seq<char>> {
    match f {
        Some(s) => Some(s@),
        None => None,
    }
}

enum Flag {
    Days,
    Format,
    Help,
    Other,
}

spec fn flag_matches(f: Flag, w: Seq<char>) -> bool {
    match f {
        Flag::Days => is_days_flag(w),
        Flag::Format => !is_days_flag(w) && is_format_flag(w),
        Flag::Help => !is_days_flag(w) && !is_format_flag(w) && is_help_flag(w),
        Flag::Other => !is_days_flag(w) && !is_format_flag(w) && !is_help_flag(w),
    }
}

fn flag_of(w: &str) -> (r: Flag)
    ensures
        flag_matches(r, w@),
{
    proof {
        reveal_strlit("--days");
        reveal_strlit("-d");
        reveal_strlit("--format");
        reveal_strlit("-f");
        reveal_strlit("--help");
        reveal_strlit("-h");
    }
    assert("--days"@ =~= seq!['-', '-', 'd', 'a', 'y', 's']);
    assert("-d"@ =~= seq!['-', 'd']);
    assert("--format"@ =~= seq!['-', '-', 'f', 'o', 'r', 'm', 'a', 't']);
    assert("-f"@ =~= seq!['-', 'f']);
    assert("--help"@ =~= seq!['-', '-', 'h', 'e', 'l', 'p']);
    assert("-h"@ =~= seq!['-', 'h']);
    if same_text(w, "--days") || same_text(w, "-d") {
        Flag::Days
    } else if same_text(w, "--format") || same_text(w, "-f") {
        Flag::Format
    } else if same_text(w, "--help") || same_text(w, "-h") {
        Flag::Help
    } else {
        Flag::Other
    }
}

/// Reads the day count that follows the flag at position `*i`, and on success
/// moves `*i` onto it.
pub fn parse_days(args: &Vec<String>, i: &mut usize) -> (r: Result<i64, DtellError>)
    requires
        *old(i) < usize::MAX,
    ensures
        *old(i) + 1 < args.len() && int_value(args[*old(i) + 1]@) is Some ==> (r matches Ok(n)
            && n == int_value(args[*old(i) + 1]@)->0 && *final(i) == *old(i) + 1),
        *old(i) + 1 < args.len() && int_value(args[*old(i) + 1]@) is None ==> (r matches Err(e)
            && e@ == Fault::InvalidDaysValue(args[*old(i) + 1]@) && *final(i) == *old(i)),
        *old(i) + 1 >= args.len() ==> (r matches Err(e) && e@ == Fault::MissingDaysValue
            && *final(i) == *old(i)),
{
    if *i + 1 < args.len() {
        match parse_i64(args[*i + 1].as_str()) {
            Some(value) => {
                *i = *i + 1;
                Ok(value)
            },
            None => Err(DtellError::InvalidDaysValue(args[*i + 1].clone())),
        }
    } else {
        Err(DtellError::MissingDaysValue)
    }
}

/// Reads a command line (without the program name) into a request.
pub fn get_command_line_args(args: &Vec<String>) -> (r: Result<Request, DtellError>)
    ensures
        parsed_of(r) == interpret(words_of(args@)),
{
    let ghost words = words_of(args@);
    let mut days: Option<i64> = None;
    let mut format: Option<String> = None;
    let mut i: usize = 0;
    while i < args.len()
        invariant
            i <= args.len(),
            words == words_of(args@),
            words.len() == args.len(),
            forall|k: int| 0 <= k < args.len() ==> #[trigger] words[k] == args[k]@,
            scan(
                words,
                i as int,
                days_view(days),
                format_view(format),
            ) == interpret(words),
        decreases args.len() - i,
    {
        match flag_of(args[i].as_str()) {
            Flag::Days => {
                match parse_days(args, &mut i) {
                    Ok(n) => {
                        days = Some(n);
                    },
                    Err(e) => {
                        return Err(e);
                    },
                }
            },
            Flag::Format => {
                if i + 1 < args.len() {
                    format = Some(args[i + 1].clone());
                    i = i + 1;
                } else {
                    return Err(DtellError::MissingFormatValue);
                }
            },
            Flag::Help => {
                return Ok(Request::Help);
            },
            Flag::Other => {
                if days.is_none() {
                    match parse_i64(args[i].as_str()) {
                        Some(n) => {
                            days = Some(n);
                        },
                        None => {
                            return Err(DtellError::InvalidDaysValue(args[i].clone()));
                        },
                    }
                } else {
                    return Err(DtellError::UnknownArgument(args[i].clone()));
                }
            },
        }
        i = i + 1;
    }
    match days {
        Some(offset) => {
            let format = match format {
                Some(f) => f,
                None => {
                    proof {
                        reveal_strlit("iso");
                    }
                    let f = String::from_str("iso");
                    assert(f@ =~= iso_name());
                    f
                },
            };
            Ok(Request::Compute { offset, format })
        },
        None => Err(DtellError::NoOffsetProvided),
    }
}

} // verus!
