//! The commands an operator can type, and the lines they answer with.
//!
//! A command here decides and words; it neither reads the terminal nor calls
//! a relay. What it needs from outside (whether an address parses, whether a
//! relay answered its probe) is handed to it.

use crate::console::ops::{Clear, ClearKind, Op};
use crate::relay_registry::RegisterError;
use crate::text::{decimal, decimal_digits, join2, join3};
use vstd::prelude::*;

verus! {

/// `clear`: wipes the screen.
pub struct ClearCommand;

impl ClearCommand {
    /// The name the command is called by.
    pub fn name(&self) -> (name: &'static str)
        ensures
            name@ == "clear"@,
    {
        "clear"
    }

    /// What the command is for.
    pub fn description(&self) -> (text: &'static str)
        ensures
            text@ == "Clears the console"@,
    {
        "Clears the console"
    }

    /// The text to write to the terminal: the whole screen is cleared.
    pub fn execute(&self) -> (text: String)
        ensures
            text@ == "\x1b[2J\x1b[H"@,
    {
        Clear(ClearKind::All).ansi()
    }
}

/// The line that `help` prints for one command.
pub open spec fn help_line(name: Seq<char>, description: Seq<char>) -> Seq<char> {
    name + ": "@ + description
}

/// `help`: lists commands with their descriptions. It holds the pairs of
/// name and description that it lists.
pub struct HelpCommand(pub Vec<(String, String)>);

impl HelpCommand {
    /// The name the command is called by.
    pub fn name(&self) -> (name: &'static str)
        ensures
            name@ == "help"@,
    {
        "help"
    }

    /// What the command is for.
    pub fn description(&self) -> (text: &'static str)
        ensures
            text@ == "Displays a list of available commands and their descriptions"@,
    {
        "Displays a list of available commands and their descriptions"
    }

    /// The lines to print: one per command, the name, a colon and the
    /// description.
    pub fn execute(&self) -> (lines: Vec<String>)
        ensures
            lines@.len() == self.0@.len(),
            forall|i: int|
                0 <= i < lines@.len() ==> (#[trigger] lines@[i])@ == help_line(
                    self.0@[i].0@,
                    self.0@[i].1@,
                ),
    {
        let mut lines: Vec<String> = Vec::new();
        let mut i: usize = 0;
        while i < self.0.len()
            invariant
                i <= self.0.len(),
                lines@.len() == i,
                forall|j: int|
                    0 <= j < i ==> (#[trigger] lines@[j])@ == help_line(self.0@[j].0@, self.0@[j].1@),
            decreases self.0.len() - i,
        {
            lines.push(join3(self.0[i].0.as_str(), ": ", self.0[i].1.as_str()));
            i += 1;
        }
        lines
    }
}

/// What the operator asked of the relay command.
pub enum RelayRequest {
    /// Register the relay at this address, given as typed.
    Add(String),
    /// List the registered relays.
    List,
    /// `add` without an address: say how `add` is used.
    AddUsage,
    /// Anything else: say how the command is used.
    Usage,
}

/// `relay`: registers relays with the hub and lists them.
pub struct RelayCommand;

impl RelayCommand {
    /// The name the command is called by.
    pub fn name(&self) -> (name: &'static str)
        ensures
            name@ == "relay"@,
    {
        "relay"
    }

    /// What the command is for.
    pub fn description(&self) -> (text: &'static str)
        ensures
            text@ == "Add / remove relay servers"@,
    {
        "Add / remove relay servers"
    }

    /// Reads the arguments: `add <address>`, `list`, or something the
    /// command answers with a usage line.
    pub fn parse(&self, args: &Vec<String>) -> (request: RelayRequest)
        ensures
            request is Add <==> args@.len() == 2 && args@[0]@ == "add"@,
            request is Add ==> request->Add_0@ == args@[1]@,
            request is List <==> args@.len() == 1 && args@[0]@ == "list"@,
            request is AddUsage <==> args@.len() == 1 && args@[0]@ == "add"@,
    {
        proof {
            reveal_strlit("add");
            reveal_strlit("list");
            assert("add"@.len() == 3);
            assert("list"@.len() == 4);
        }
        if args.len() == 2 && args[0] == String::from_str("add") {
            RelayRequest::Add(args[1].clone())
        } else if args.len() == 1 && args[0] == String::from_str("list") {
            RelayRequest::List
        } else if args.len() == 1 && args[0] == String::from_str("add") {
            RelayRequest::AddUsage
        } else {
            RelayRequest::Usage
        }
    }

    /// The line for a request that needs no relay: how `add` is used, or how
    /// the command is used.
    pub fn usage(&self, request: &RelayRequest) -> (line: &'static str)
        ensures
            *request is AddUsage ==> line@ == "Usage: relay add <ipaddr>"@,
            !(*request is AddUsage) ==> line@ == "Usage: relay <op> ...args"@,
    {
        match request {
            RelayRequest::AddUsage => "Usage: relay add <ipaddr>",
            _ => "Usage: relay <op> ...args",
        }
    }

    /// The line for an address that does not parse.
    pub fn invalid_address(&self, typed: &String) -> (line: String)
        ensures
            line@ == "Failed to parse address: "@ + typed@,
    {
        join2("Failed to parse address: ", typed.as_str())
    }

    /// The line that reports how registering the relay at `address` went.
    pub fn report(&self, outcome: &Result<(), RegisterError>, address: &String) -> (line: String)
        ensures
            *outcome is Ok ==> line@ == "Successfully added relay: "@ + address@,
            *outcome == Err::<(), RegisterError>(RegisterError::Unreachable) ==> line@
                == "Failed to connect to relay: "@ + address@,
            *outcome == Err::<(), RegisterError>(RegisterError::CapacityExceeded) ==> line@
                == "No room for another relay: "@ + address@,
    {
        match outcome {
            Ok(_) => join2("Successfully added relay: ", address.as_str()),
            Err(RegisterError::Unreachable) => join2("Failed to connect to relay: ", address.as_str()),
            Err(RegisterError::CapacityExceeded) => join2(
                "No room for another relay: ",
                address.as_str(),
            ),
        }
    }

    /// The lines that list the relays: each address with its number,
    /// counted from one, or one line that says there is none.
    pub fn list_lines(&self, addresses: &Vec<String>) -> (lines: Vec<String>)
        ensures
            addresses@.len() == 0 ==> lines@.len() == 1 && lines@[0]@
                == "There are no relays connected."@,
            addresses@.len() > 0 ==> lines@.len() == addresses@.len(),
            addresses@.len() > 0 ==> forall|i: int|
                0 <= i < lines@.len() ==> (#[trigger] lines@[i])@ == list_line(i, addresses@[i]@),
    {
        let mut lines: Vec<String> = Vec::new();
        if addresses.len() == 0 {
            lines.push(String::from_str("There are no relays connected."));
            return lines;
        }
        let mut i: usize = 0;
        while i < addresses.len()
            invariant
                i <= addresses.len(),
                lines@.len() == i,
                forall|j: int| 0 <= j < i ==> (#[trigger] lines@[j])@ == list_line(j, addresses@[j]@),
            decreases addresses.len() - i,
        {
            let number = decimal(i + 1);
            lines.push(join3(number.as_str(), ") ", addresses[i].as_str()));
            i += 1;
        }
        lines
    }
}

/// The line that lists the relay at place `i`: its number, counted from
/// one, a bracket, and its address.
pub open spec fn list_line(i: int, address: Seq<char>) -> Seq<char> {
    decimal_digits((i + 1) as nat) + ") "@ + address
}

} // verus!
