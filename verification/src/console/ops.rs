//! Terminal operations and the ANSI text that performs them.

use crate::text::{decimal, decimal_digits, join2, join3, spaces};
use vstd::prelude::*;

verus! {

/// Something a terminal can be told to do.
pub trait Op {
    /// The text that performs the operation.
    spec fn rendering(&self) -> Seq<char>;

    /// The text to write to the terminal.
    fn ansi(&self) -> (text: String)
        ensures
            text@ == self.rendering(),
    ;
}

/// Prints a text.
pub struct Print(pub String);

impl Op for Print {
    open spec fn rendering(&self) -> Seq<char> {
        self.0@
    }

    fn ansi(&self) -> (text: String) {
        self.0.clone()
    }
}

/// Prints a text and ends the line.
pub struct PrintLn(pub String);

impl Op for PrintLn {
    open spec fn rendering(&self) -> Seq<char> {
        self.0@ + "\n"@
    }

    fn ansi(&self) -> (text: String) {
        join2(self.0.as_str(), "\n")
    }
}

/// What a clear operation wipes.
#[derive(Clone, Copy, Debug, PartialEq, Eq, Structural)]
pub enum ClearKind {
    /// The whole screen; the cursor goes to the top left.
    All,
    /// The current line; the cursor stays.
    Line,
}

/// Clears the screen or the line.
pub struct Clear(pub ClearKind);

impl Op for Clear {
    open spec fn rendering(&self) -> Seq<char> {
        match self.0 {
            ClearKind::All => "\x1b[2J\x1b[H"@,
            ClearKind::Line => "\x1b[2K"@,
        }
    }

    fn ansi(&self) -> (text: String) {
        match self.0 {
            ClearKind::All => String::from_str("\x1b[2J\x1b[H"),
            ClearKind::Line => String::from_str("\x1b[2K"),
        }
    }
}

/// Clears the current line.
pub struct ClearLine;

impl Op for ClearLine {
    open spec fn rendering(&self) -> Seq<char> {
        "\x1b[2K"@
    }

    fn ansi(&self) -> (text: String) {
        String::from_str("\x1b[2K")
    }
}

/// The escape sequence that moves the cursor by `count` in the direction
/// that `letter` names.
pub open spec fn cursor_move(count: usize, letter: Seq<char>) -> Seq<char> {
    "\x1b["@ + decimal_digits(count as nat) + letter
}

fn render_move(count: usize, letter: &str) -> (text: String)
    ensures
        text@ == cursor_move(count, letter@),
{
    let n = decimal(count);
    join3("\x1b[", n.as_str(), letter)
}

/// Wipes the last `count` characters: back, blanks over them, back again.
pub struct Backspace(pub usize);

impl Op for Backspace {
    open spec fn rendering(&self) -> Seq<char> {
        cursor_move(self.0, "D"@) + Seq::new(self.0 as nat, |i: int| ' ') + cursor_move(
            self.0,
            "D"@,
        )
    }

    fn ansi(&self) -> (text: String) {
        let back = render_move(self.0, "D");
        let blanks = spaces(self.0);
        join3(back.as_str(), blanks.as_str(), back.as_str())
    }
}

/// Moves the cursor up.
pub struct MoveUp(pub usize);

impl Op for MoveUp {
    open spec fn rendering(&self) -> Seq<char> {
        cursor_move(self.0, "A"@)
    }

    fn ansi(&self) -> (text: String) {
        render_move(self.0, "A")
    }
}

/// Moves the cursor down.
pub struct MoveDown(pub usize);

impl Op for MoveDown {
    open spec fn rendering(&self) -> Seq<char> {
        cursor_move(self.0, "B"@)
    }

    fn ansi(&self) -> (text: String) {
        render_move(self.0, "B")
    }
}

/// Moves the cursor left.
pub struct MoveLeft(pub usize);

impl Op for MoveLeft {
    open spec fn rendering(&self) -> Seq<char> {
        cursor_move(self.0, "D"@)
    }

    fn ansi(&self) -> (text: String) {
        render_move(self.0, "D")
    }
}

/// Moves the cursor right.
pub struct MoveRight(pub usize);

impl Op for MoveRight {
    open spec fn rendering(&self) -> Seq<char> {
        cursor_move(self.0, "C"@)
    }

    fn ansi(&self) -> (text: String) {
        render_move(self.0, "C")
    }
}

/// Moves the cursor to a row and a column.
pub struct MoveTo(pub usize, pub usize);

impl Op for MoveTo {
    open spec fn rendering(&self) -> Seq<char> {
        "\x1b["@ + decimal_digits(self.0 as nat) + ";"@ + decimal_digits(self.1 as nat) + "H"@
    }

    fn ansi(&self) -> (text: String) {
        let row = decimal(self.0);
        let column = decimal(self.1);
        let head = join3("\x1b[", row.as_str(), ";");
        join3(head.as_str(), column.as_str(), "H")
    }
}

/// Moves the cursor to a column of the current line.
pub struct MoveToColumn(pub usize);

impl Op for MoveToColumn {
    open spec fn rendering(&self) -> Seq<char> {
        cursor_move(self.0, "G"@)
    }

    fn ansi(&self) -> (text: String) {
        render_move(self.0, "G")
    }
}

} // verus!
