//! The `sessions` command line and the rules of the session manager.
use crate::text::{chars_of, eq_chars, eq_str};
use vstd::prelude::*;

verus! {

broadcast use vstd::string::group_string_axioms;

/// A `sessions` subcommand.
#[derive(Clone, Debug, PartialEq, Eq)]
pub enum Command {
    List,
    Continue(Option<String>),
    New(String),
    Rename { id: String, name: String },
    Delete(String),
}

/// An action of the session manager.
#[derive(Clone, Debug, PartialEq, Eq)]
pub enum SessionManagement {
    Rename { id: String, name: String },
    Delete(String),
}

/// Why a `sessions` command line or manager action was refused.
#[derive(Clone, Copy, Debug, PartialEq, Eq, Structural)]
pub enum SessionError {
    /// No subcommand was given.
    MissingSubcommand,
    /// The subcommand is not one of list, continue, new, rename, delete.
    UnknownSubcommand,
    /// A required argument is missing.
    MissingArgument,
    /// An argument that must be text is not valid UTF-8.
    NotUtf8,
    /// More arguments than the subcommand takes.
    ExtraArgument,
    /// The current session cannot be deleted.
    DeletesCurrentSession,
}

/// An argument as text, `None` when it is not valid UTF-8.
pub open spec fn arg_text(a: Option<String>) -> Option<Seq<char>> {
    match a {
        Some(s) => Some(s@),
        None => None,
    }
}

/// A parsed command as plain values: its kind and up to two texts.
pub open spec fn command_view(c: Command) -> (int, Option<Seq<char>>, Option<Seq<char>>) {
    match c {
        Command::List => (0, None, None),
        Command::Continue(id) => (1, arg_text(id), None),
        Command::New(p) => (2, Some(p@), None),
        Command::Rename { id, name } => (3, Some(id@), Some(name@)),
        Command::Delete(id) => (4, Some(id@), None),
    }
}

/// The number of arguments each subcommand takes after the verb, the
/// command it means, or the error. `args[0]` is the verb; `None` stands
/// for an argument that is not valid UTF-8.
pub open spec fn parse_view(args: Seq<Option<String>>) -> Result<(int, Option<Seq<char>>, Option<Seq<char>>, int), SessionError> {
    if args.len() == 0 {
        Err(SessionError::MissingSubcommand)
    } else {
        let verb = arg_text(args[0]);
        if verb == Some("list"@) {
            Ok((0, None, None, 1))
        } else if verb == Some("continue"@) {
            if args.len() < 2 {
                Ok((1, None, None, 1))
            } else if args[1] is None {
                Err(SessionError::NotUtf8)
            } else {
                Ok((1, arg_text(args[1]), None, 2))
            }
        } else if verb == Some("new"@) {
            if args.len() < 2 {
                Err(SessionError::MissingArgument)
            } else if args[1] is None {
                Err(SessionError::NotUtf8)
            } else {
                Ok((2, arg_text(args[1]), None, 2))
            }
        } else if verb == Some("rename"@) {
            if args.len() < 2 {
                Err(SessionError::MissingArgument)
            } else if args[1] is None {
                Err(SessionError::NotUtf8)
            } else if args.len() < 3 {
                Err(SessionError::MissingArgument)
            } else if args[2] is None {
                Err(SessionError::NotUtf8)
            } else {
                Ok((3, arg_text(args[1]), arg_text(args[2]), 3))
            }
        } else if verb == Some("delete"@) {
            if args.len() < 2 {
                Err(SessionError::MissingArgument)
            } else if args[1] is None {
                Err(SessionError::NotUtf8)
            } else {
                Ok((4, arg_text(args[1]), None, 2))
            }
        } else {
            Err(SessionError::UnknownSubcommand)
        }
    }
}

/// The verdict on a `sessions` command line: the command, or the error; a
/// command followed by more arguments is refused.
pub open spec fn parse_verdict(args: Seq<Option<String>>) -> Result<(int, Option<Seq<char>>, Option<Seq<char>>), SessionError> {
    match parse_view(args) {
        Err(e) => Err(e),
        Ok(v) => if args.len() > v.3 {
            Err(SessionError::ExtraArgument)
        } else {
            Ok((v.0, v.1, v.2))
        },
    }
}

fn text_arg(args: &Vec<Option<String>>, i: usize) -> (r: Result<String, SessionError>)
    ensures
        i >= args@.len() ==> r == Err::<String, SessionError>(SessionError::MissingArgument),
        i < args@.len() && args@[i as int] is None ==> r == Err::<String, SessionError>(SessionError::NotUtf8),
        i < args@.len() && args@[i as int] is Some ==> (r matches Ok(s) && arg_text(args@[i as int]) == Some(s@)),
{
    if i >= args.len() {
        return Err(SessionError::MissingArgument);
    }
    match &args[i] {
        None => Err(SessionError::NotUtf8),
        Some(s) => Ok(s.clone()),
    }
}

impl Command {
    /// Parses the arguments after `sessions`: `list`, `continue [ID]`,
    /// `new DECK.pptx`, `rename ID NAME` or `delete ID`, nothing more.
    pub fn parse(args: &Vec<Option<String>>) -> (r: Result<Command, SessionError>)
        ensures
            match r {
                Ok(c) => parse_verdict(args@) == Ok::<(int, Option<Seq<char>>, Option<Seq<char>>), SessionError>(command_view(c)),
                Err(e) => parse_verdict(args@) == Err::<(int, Option<Seq<char>>, Option<Seq<char>>), SessionError>(e),
            },
    {
        if args.len() == 0 {
            return Err(SessionError::MissingSubcommand);
        }
        proof {
            reveal_strlit("list");
            reveal_strlit("continue");
            reveal_strlit("new");
            reveal_strlit("rename");
            reveal_strlit("delete");
        }
        let (command, used) = match &args[0] {
            None => {
                return Err(SessionError::UnknownSubcommand);
            },
            Some(verb) => {
                let v = chars_of(verb.as_str());
                if eq_str(&v, "list") {
                    (Command::List, 1usize)
                } else if eq_str(&v, "continue") {
                    if args.len() < 2 {
                        (Command::Continue(None), 1)
                    } else {
                        match &args[1] {
                            None => {
                                return Err(SessionError::NotUtf8);
                            },
                            Some(id) => (Command::Continue(Some(id.clone())), 2),
                        }
                    }
                } else if eq_str(&v, "new") {
                    match text_arg(args, 1) {
                        Err(e) => {
                            return Err(e);
                        },
                        Ok(p) => (Command::New(p), 2),
                    }
                } else if eq_str(&v, "rename") {
                    let id = match text_arg(args, 1) {
                        Err(e) => {
                            return Err(e);
                        },
                        Ok(x) => x,
                    };
                    let name = match text_arg(args, 2) {
                        Err(e) => {
                            return Err(e);
                        },
                        Ok(x) => x,
                    };
                    (Command::Rename { id, name }, 3)
                } else if eq_str(&v, "delete") {
                    match text_arg(args, 1) {
                        Err(e) => {
                            return Err(e);
                        },
                        Ok(x) => (Command::Delete(x), 2),
                    }
                } else {
                    return Err(SessionError::UnknownSubcommand);
                }
            },
        };
        if args.len() > used {
            return Err(SessionError::ExtraArgument);
        }
        Ok(command)
    }
}

/// The current session may be renamed but not deleted; any other action is allowed.
pub fn check_management(current_id: &str, action: &SessionManagement) -> (r: Result<(), SessionError>)
    ensures
        match action {
            SessionManagement::Delete(id) => if id@ == current_id@ {
                r == Err::<(), SessionError>(SessionError::DeletesCurrentSession)
            } else {
                r is Ok
            },
            SessionManagement::Rename { .. } => r is Ok,
        },
{
    match action {
        SessionManagement::Rename { .. } => Ok(()),
        SessionManagement::Delete(id) => {
            let a = chars_of(id.as_str());
            let b = chars_of(current_id);
            if eq_chars(&a, &b) {
                Err(SessionError::DeletesCurrentSession)
            } else {
                Ok(())
            }
        },
    }
}

/// The provider, authentication mode and model a configuration selects.
#[derive(Clone, Debug, PartialEq, Eq)]
pub struct ModelSelection {
    pub provider: String,
    pub auth: String,
    pub model: String,
}

/// A selection as plain values.
pub open spec fn selection_view(s: ModelSelection) -> (Seq<char>, Seq<char>, Seq<char>) {
    (s.provider@, s.auth@, s.model@)
}

fn same_text(a: &String, b: &String) -> (r: bool)
    ensures
        r == (a@ == b@),
{
    let x = chars_of(a.as_str());
    eq_str(&x, b.as_str())
}

/// The selection written when a configuration is saved. A model resumed with
/// a session is session-local: when the configuration being saved keeps the
/// current selection, the persisted one stays; an explicit switch is saved.
pub fn selection_for_save(next: &ModelSelection, current: &ModelSelection, persisted: &ModelSelection) -> (r: ModelSelection)
    ensures
        selection_view(r) == if selection_view(*next) == selection_view(*current) {
            selection_view(*persisted)
        } else {
            selection_view(*next)
        },
{
    if same_text(&next.provider, &current.provider) && same_text(&next.auth, &current.auth) && same_text(
        &next.model,
        &current.model,
    ) {
        ModelSelection {
            provider: persisted.provider.clone(),
            auth: persisted.auth.clone(),
            model: persisted.model.clone(),
        }
    } else {
        ModelSelection { provider: next.provider.clone(), auth: next.auth.clone(), model: next.model.clone() }
    }
}

/// The slide shown after restoring a session: the saved one, or the last
/// slide when the deck is now shorter (0 for an empty deck).
pub fn restored_active_slide(saved: usize, slide_count: usize) -> (r: usize)
    ensures
        r == if slide_count == 0 {
            0
        } else if saved < slide_count {
            saved
        } else {
            (slide_count - 1) as usize
        },
{
    let last = if slide_count >= 1 { slide_count - 1 } else { 0 };
    if saved < last {
        saved
    } else {
        last
    }
}

/// The state of a tool call in the transcript.
#[derive(Clone, Copy, Debug, PartialEq, Eq, Structural)]
pub enum ToolStatus {
    Proposed,
    Running,
    Succeeded,
    Failed,
}

/// The detail given to a tool call that was still live when its session ended.
pub const INTERRUPTED_DETAIL: &'static str = "Session ended before this operation completed.";

/// A saved transcript holds settled history: a proposed or running tool call
/// becomes failed (and gets `INTERRUPTED_DETAIL`); settled calls are kept.
/// Returns the settled status and whether the detail is replaced.
pub fn settle_tool(status: ToolStatus) -> (r: (ToolStatus, bool))
    ensures
        r.1 <==> (status == ToolStatus::Proposed || status == ToolStatus::Running),
        r.0 == if r.1 { ToolStatus::Failed } else { status },
        r.0 == ToolStatus::Succeeded || r.0 == ToolStatus::Failed,
{
    match status {
        ToolStatus::Proposed => (ToolStatus::Failed, true),
        ToolStatus::Running => (ToolStatus::Failed, true),
        ToolStatus::Succeeded => (ToolStatus::Succeeded, false),
        ToolStatus::Failed => (ToolStatus::Failed, false),
    }
}

} // verus!
