//! Drawing output above a pinned input row: the two escape sequences that
//! confine and release scrolling, and the order of terminal operations for
//! one line of output and for the screen setup. Nothing here writes to a
//! terminal; the plans say what is to be written.

use vstd::prelude::*;
use crate::text::{decimal, push_decimal};

verus! {

/// Confines scrolling to the rows from the first number to the second, both
/// counted from 1.
#[derive(Debug, Clone, Copy, PartialEq, Eq, Structural)]
pub struct SetScrollingRegion(pub u16, pub u16);

/// Lets the whole screen scroll again.
#[derive(Debug, Clone, Copy, PartialEq, Eq, Structural)]
pub struct SetScrollingAll();

/// Why a scrolling command could not run.
#[derive(Debug, Clone, Copy, PartialEq, Eq, Structural)]
pub enum CrosstermError {
    /// There is no way to run the command but its escape sequence.
    UnimplementedInWindows,
}

/// The two characters that open a control sequence: escape and `[`.
pub open spec fn csi() -> Seq<char> {
    "\x1B["@
}

impl CrosstermError {
    /// The text of the error.
    pub fn message(&self) -> (text: String)
        ensures
            text@ == "This command is unimplemented for Windows"@,
    {
        match self {
            CrosstermError::UnimplementedInWindows => {
                "This command is unimplemented for Windows".to_owned()
            },
        }
    }
}

impl SetScrollingRegion {
    /// The escape sequence of the command: the opening, the first row, a
    /// semicolon, the last row, and `r`.
    pub open spec fn ansi_text(self) -> Seq<char> {
        csi() + decimal(self.0 as nat) + ";"@ + decimal(self.1 as nat) + "r"@
    }

    /// Writes the escape sequence of the command.
    pub fn ansi(&self) -> (text: String)
        ensures
            text@ == self.ansi_text(),
    {
        let mut text = "\x1B[".to_owned();
        push_decimal(&mut text, self.0);
        text.append(";");
        push_decimal(&mut text, self.1);
        text.append("r");
        text
    }

    /// Runs the command without its escape sequence, which cannot be done.
    pub fn execute_winapi(&self) -> (done: Result<(), CrosstermError>)
        ensures
            done == Err::<(), CrosstermError>(CrosstermError::UnimplementedInWindows),
    {
        Err(CrosstermError::UnimplementedInWindows)
    }
}

impl SetScrollingAll {
    /// The escape sequence of the command: the opening and `r`.
    pub open spec fn ansi_text(self) -> Seq<char> {
        csi() + "r"@
    }

    /// Writes the escape sequence of the command.
    pub fn ansi(&self) -> (text: String)
        ensures
            text@ == self.ansi_text(),
    {
        let mut text = "\x1B[".to_owned();
        text.append("r");
        text
    }

    /// Runs the command without its escape sequence, which cannot be done.
    pub fn execute_winapi(&self) -> (done: Result<(), CrosstermError>)
        ensures
            done == Err::<(), CrosstermError>(CrosstermError::UnimplementedInWindows),
    {
        Err(CrosstermError::UnimplementedInWindows)
    }
}

/// One operation on the terminal. Rows and columns of the cursor moves are
/// counted from 0. `S` is the type of a text: `String` in running code, a
/// sequence of characters in contracts.
#[derive(Debug, PartialEq, Eq)]
pub enum ScreenOp<S> {
    /// Remember where the cursor is.
    SavePosition,
    /// Confine scrolling.
    Restrict(SetScrollingRegion),
    /// Scroll up by this many lines.
    ScrollUp(u16),
    /// Move the cursor to this column and row.
    MoveTo(u16, u16),
    /// Move the cursor to this row, keeping its column.
    MoveToRow(u16),
    /// Write this text where the cursor is.
    Print(S),
    /// Let the whole screen scroll again.
    Release(SetScrollingAll),
    /// Put the cursor back where it was remembered.
    RestorePosition,
    /// Send everything to the terminal.
    Flush,
}

impl View for ScreenOp<String> {
    type V = ScreenOp<Seq<char>>;

    open spec fn view(&self) -> ScreenOp<Seq<char>> {
        match self {
            ScreenOp::SavePosition => ScreenOp::SavePosition,
            ScreenOp::Restrict(region) => ScreenOp::Restrict(*region),
            ScreenOp::ScrollUp(lines) => ScreenOp::ScrollUp(*lines),
            ScreenOp::MoveTo(column, row) => ScreenOp::MoveTo(*column, *row),
            ScreenOp::MoveToRow(row) => ScreenOp::MoveToRow(*row),
            ScreenOp::Print(text) => ScreenOp::Print(text@),
            ScreenOp::Release(all) => ScreenOp::Release(*all),
            ScreenOp::RestorePosition => ScreenOp::RestorePosition,
            ScreenOp::Flush => ScreenOp::Flush,
        }
    }
}

/// A plan as the sequence of its operations.
pub open spec fn operations(plan: Seq<ScreenOp<String>>) -> Seq<ScreenOp<Seq<char>>> {
    Seq::new(plan.len(), |i: int| plan[i]@)
}

/// The line that is shown for an output: the output itself, or the prefix,
/// a colon and a space, and then the output.
pub open spec fn output_line(output: Seq<char>, prefix: Option<Seq<char>>) -> Seq<char> {
    match prefix {
        Some(label) => label + ": "@ + output,
        None => output,
    }
}

/// Puts the prefix, if there is one, before the output.
pub fn compose_output(output: &str, prefix: Option<&str>) -> (line: String)
    ensures
        line@ == output_line(
            output@,
            match prefix {
                Some(label) => Some(label@),
                None => None,
            },
        ),
{
    let mut line = String::new();
    if let Some(label) = prefix {
        line.append(label);
        line.append(": ");
    }
    line.append(output);
    assert(Seq::<char>::empty() + output@ == output@);
    line
}

/// The operations that show `line` on a terminal of `rows` rows: scrolling
/// is confined to all rows but the last, that region moves up by one line,
/// the line is written on the region's last row, and the cursor is put back
/// on the input row, where it was.
pub open spec fn output_operations(rows: u16, line: Seq<char>) -> Seq<ScreenOp<Seq<char>>> {
    seq![
        ScreenOp::SavePosition,
        ScreenOp::Restrict(SetScrollingRegion(1, (rows - 1) as u16)),
        ScreenOp::ScrollUp(1),
        ScreenOp::MoveTo(0, (rows - 2) as u16),
        ScreenOp::Print(line),
        ScreenOp::Release(SetScrollingAll()),
        ScreenOp::RestorePosition,
        ScreenOp::Flush,
    ]
}

/// Plans the showing of one output on a terminal of `rows` rows. The
/// terminal needs a row for the output above the row for the input.
pub fn output_plan(rows: u16, output: &str, prefix: Option<&str>) -> (plan: Vec<ScreenOp<String>>)
    requires
        rows >= 2,
    ensures
        operations(plan@) == output_operations(
            rows,
            output_line(
                output@,
                match prefix {
                    Some(label) => Some(label@),
                    None => None,
                },
            ),
        ),
{
    let last = rows - 1;
    let line = compose_output(output, prefix);
    let mut plan: Vec<ScreenOp<String>> = Vec::new();
    plan.push(ScreenOp::SavePosition);
    plan.push(ScreenOp::Restrict(SetScrollingRegion(1, last)));
    plan.push(ScreenOp::ScrollUp(1));
    plan.push(ScreenOp::MoveTo(0, last - 1));
    plan.push(ScreenOp::Print(line));
    plan.push(ScreenOp::Release(SetScrollingAll()));
    plan.push(ScreenOp::RestorePosition);
    plan.push(ScreenOp::Flush);
    plan
}

/// Plans the screen setup on a terminal of `rows` rows: the cursor goes to
/// the row after the last of the rows counted from 0, which a terminal takes
/// for its last row.
pub fn setup_plan(rows: u16) -> (plan: Vec<ScreenOp<String>>)
    ensures
        operations(plan@) == seq![ScreenOp::<Seq<char>>::MoveToRow(rows)],
{
    let mut plan: Vec<ScreenOp<String>> = Vec::new();
    plan.push(ScreenOp::MoveToRow(rows));
    plan
}

} // verus!
