//! The manual page.

use vstd::prelude::*;

verus! {

/// The manual after its first line and the `NAME` heading.
pub const MANUAL_BODY: &'static str = r#"    dtell - Calculate dates based on a number of days relative to today.

SYNOPSIS
    dtell [--days | -d <number>] [--format | -f <type>] [<number>]

DESCRIPTION
    dtell calculates the date a specified number of days in the future or past relative to the current date.

    If the --days or -d option is provided, it specifies the number of days to add or subtract.

    If the --format or -f option is provided, it specifies the format in which the date should be displayed. Supported formats include:
    
        gen    - The date is displayed in the format DD/MM/YYYY.
        us     - The date is displayed in the format MM/DD/YYYY.
        iso    - The date is displayed in ISO format (YYYY-MM-DD). This is the default if no format is specified.

    If no command-line options are provided, the first argument is assumed to be the number of days.

OPTIONS
    --days, -d <number>   Specify the number of days to add or subtract relative to today.
    --format, -f <type>   Specify the output format for the date. Supported types are gen, us, iso.

EXAMPLES
    dtell --d 5 --f iso
        Displays the date 5 days in the future in ISO format.

    dtell 5
        Displays the date 5 days in the future in ISO format (default).

    dtell --days -10 --format us
        Displays the date 10 days in the past in US format (MM/DD/YYYY).

    dtell -d cat
        Displays an error message, as 'cat' is not a valid integer.

    dtell --days 7
        Displays the date 7 days in the future in ISO format (default format).

DIAGNOSTICS
    Invalid or missing value for --days | -d
        Occurs when the value following the --days or -d option is not a valid integer.
    
    Invalid value for days
        Occurs when the first positional argument is not a valid integer.
    
    Missing value for --format | -f
        Occurs when the --format or -f flag is provided without a corresponding format type.
    
    Unknown format type
        Occurs when the value of the --format or -f option is not one of the supported formats.
    
    Unknown argument
        Occurs when an unrecognized argument is provided.

SEE ALSO
    date(1)

HISTORY
    dtell written by Daksh Kaul / DriftingOtter, (C) 2025, and licensed under GNU General Public License version 3 (GPLv3).

BUGS
    No known bugs at this time.
"#;

/// The whole manual page: a blank line, the `NAME` heading, then the body.
pub open spec fn manual_page() -> Seq<char> {
    "\nNAME\n"@ + MANUAL_BODY@
}

/// The text printed for `--help`.
pub fn help_text() -> (r: String)
    ensures
        r@ == manual_page(),
        r@.len() > 0,
{
    let mut text = String::from_str("\nNAME\n");
    proof {
        reveal_strlit("\nNAME\n");
    }
    text.append(MANUAL_BODY);
    text
}

} // verus!
