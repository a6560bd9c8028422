//! The size of the terminal that the picture is made for.

use crate::error::ConvertError;
use vstd::prelude::*;

verus! {

/// Asks `terminal_size::terminal_size` for the character grid of the
/// terminal behind the standard streams, as (columns, rows).
///
/// The answer depends on the terminal, so nothing is claimed of it.
#[verifier::external_body]
fn query_terminal() -> (reported: Option<(u16, u16)>) {
    match terminal_size::terminal_size() {
        Some((terminal_size::Width(columns), terminal_size::Height(rows))) => Some((columns, rows)),
        None => None,
    }
}

/// What [`terminal_grid`] makes of a terminal's report.
pub open spec fn grid_of(reported: Option<(u16, u16)>) -> Result<(u16, u16), ConvertError> {
    match reported {
        None => Err(ConvertError::TerminalUnavailable),
        Some(size) => if size.0 == 0 || size.1 == 0 {
            Err(ConvertError::InvalidTerminalSize)
        } else {
            Ok(size)
        },
    }
}

/// Turns what the terminal reported into a grid of (columns, rows).
///
/// No report at all is [`ConvertError::TerminalUnavailable`]; a report
/// without columns or without rows is [`ConvertError::InvalidTerminalSize`].
pub fn terminal_grid(reported: Option<(u16, u16)>) -> (grid: Result<(u16, u16), ConvertError>)
    ensures
        grid == grid_of(reported),
{
    match reported {
        None => Err(ConvertError::TerminalUnavailable),
        Some(size) => if size.0 == 0 || size.1 == 0 {
            Err(ConvertError::InvalidTerminalSize)
        } else {
            Ok(size)
        },
    }
}

/// The character grid of the current terminal, as (columns, rows).
///
/// A grid that comes back has at least one column and one row. Where no
/// terminal is attached, or where it reports an empty grid, the failure is
/// the one that [`terminal_grid`] gives for that report.
pub fn get_terminal_size() -> (grid: Result<(u16, u16), ConvertError>)
    ensures
        exists|reported: Option<(u16, u16)>| grid == #[trigger] grid_of(reported),
        grid matches Ok(size) ==> size.0 > 0 && size.1 > 0,
        grid matches Err(e) ==> e == ConvertError::TerminalUnavailable || e
            == ConvertError::InvalidTerminalSize,
{
    terminal_grid(query_terminal())
}

} // verus!
