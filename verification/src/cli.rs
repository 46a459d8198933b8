//! The command line: `--help`, `new DECK.pptx`, `inspect DECK.pptx`, or a deck to open.
use crate::text::chars_of;
use vstd::prelude::*;

verus! {

broadcast use vstd::string::group_string_axioms;

/// The help text printed for `--help` and when no deck is given.
pub const HELP: &'static str = "slide-builder\n\nUSAGE:\n  slide-builder new DECK.pptx\n  slide-builder inspect DECK.pptx\n  slide-builder DECK.pptx\n\nThe interactive UI requires Kitty or Ghostty and Chromium for previews.";

/// What the command line asks for.
#[derive(Clone, Debug, PartialEq, Eq)]
pub enum CliCommand {
    Help,
    /// Create a new deck at this path.
    New(String),
    /// Print the structure of this deck.
    Inspect(String),
    /// Open this deck, creating it when it does not exist.
    Open(String),
}

/// A subcommand is missing its deck.
#[derive(Clone, Copy, Debug, PartialEq, Eq, Structural)]
pub enum CliError {
    /// `new` without a destination.
    NewWithoutDestination,
    /// `inspect` without a deck.
    InspectWithoutDeck,
}

impl CliError {
    /// The message printed for the error.
    pub fn message(&self) -> (r: &'static str)
        ensures
            r@ == match self {
                CliError::NewWithoutDestination => "new requires a destination .pptx"@,
                CliError::InspectWithoutDeck => "inspect requires a .pptx"@,
            },
    {
        match self {
            CliError::NewWithoutDestination => "new requires a destination .pptx",
            CliError::InspectWithoutDeck => "inspect requires a .pptx",
        }
    }
}

/// A command as plain values.
pub ghost enum CommandView {
    Help,
    New(Seq<char>),
    Inspect(Seq<char>),
    Open(Seq<char>),
}

impl CliCommand {
    /// The command with its path as text.
    pub open spec fn view_of(self) -> CommandView {
        match self {
            CliCommand::Help => CommandView::Help,
            CliCommand::New(p) => CommandView::New(p@),
            CliCommand::Inspect(p) => CommandView::Inspect(p@),
            CliCommand::Open(p) => CommandView::Open(p@),
        }
    }
}

/// The command for the arguments after the program name: the first decides;
/// `new` and `inspect` take the second as their path; anything else is the
/// deck to open; none means help. Arguments after those are ignored.
pub open spec fn command_of(args: Seq<Seq<char>>) -> Result<CommandView, CliError> {
    if args.len() == 0 || args[0] == "--help"@ {
        Ok(CommandView::Help)
    } else if args[0] == "new"@ {
        if args.len() >= 2 {
            Ok(CommandView::New(args[1]))
        } else {
            Err(CliError::NewWithoutDestination)
        }
    } else if args[0] == "inspect"@ {
        if args.len() >= 2 {
            Ok(CommandView::Inspect(args[1]))
        } else {
            Err(CliError::InspectWithoutDeck)
        }
    } else {
        Ok(CommandView::Open(args[0]))
    }
}

/// The arguments as plain text.
pub open spec fn arg_texts(args: Seq<String>) -> Seq<Seq<char>> {
    args.map_values(|a: String| a@)
}

/// See `command_of`.
pub fn parse_command_line(args: &Vec<String>) -> (r: Result<CliCommand, CliError>)
    ensures
        match r {
            Ok(c) => command_of(arg_texts(args@)) == Ok::<CommandView, CliError>(c.view_of()),
            Err(e) => command_of(arg_texts(args@)) == Err::<CommandView, CliError>(e),
        },
{
    let ghost t = arg_texts(args@);
    if args.len() == 0 {
        return Ok(CliCommand::Help);
    }
    assert(t[0] == args@[0]@);
    let first = chars_of(args[0].as_str());
    if crate::text::eq_str(&first, "--help") {
        Ok(CliCommand::Help)
    } else if crate::text::eq_str(&first, "new") {
        if args.len() >= 2 {
            assert(t[1] == args@[1]@);
            Ok(CliCommand::New(args[1].clone()))
        } else {
            Err(CliError::NewWithoutDestination)
        }
    } else if crate::text::eq_str(&first, "inspect") {
        if args.len() >= 2 {
            assert(t[1] == args@[1]@);
            Ok(CliCommand::Inspect(args[1].clone()))
        } else {
            Err(CliError::InspectWithoutDeck)
        }
    } else {
        Ok(CliCommand::Open(args[0].clone()))
    }
}

} // verus!
