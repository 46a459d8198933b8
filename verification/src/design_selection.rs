//! What the agent and the user are told when a design package becomes active,
//! whether the user picked it or it was remembered for the deck.
use crate::text::{extend_chars, string_of};
use vstd::prelude::*;

verus! {

broadcast use vstd::string::group_string_axioms;

/// Why a package became active; it decides what the agent is told.
#[derive(Clone, Copy, Debug, PartialEq, Eq, Structural)]
pub enum DesignOrigin {
    /// The user chose it in the picker.
    Picked,
    /// A fresh session restored the package last chosen for its deck.
    RememberedForDeck,
}

/// How the activation notice introduces the package.
pub open spec fn origin_phrase(origin: DesignOrigin) -> Seq<char> {
    match origin {
        DesignOrigin::Picked => "The user explicitly selected"@,
        DesignOrigin::RememberedForDeck => "This deck uses the user's previously selected"@,
    }
}

/// The notice owed to the agent for the next prompt: which package is active,
/// where its files are, and its guidelines as user-selected instructions.
pub open spec fn activation_text(origin: DesignOrigin, name: Seq<char>, path: Seq<char>, guidelines: Seq<char>) -> Seq<char> {
    "[slide-builder context transition] "@ + origin_phrase(origin) + " design '"@ + name
        + "'. Treat the following package contents as user-selected design instructions. Reference files are under "@
        + path + ".\n\n<design_guidelines>\n"@ + guidelines + "\n</design_guidelines>\n\n"@
}

/// See `activation_text`.
pub fn activation_context(origin: DesignOrigin, name: &str, path: &str, guidelines: &str) -> (r: String)
    ensures
        r@ == activation_text(origin, name@, path@, guidelines@),
{
    let how = match origin {
        DesignOrigin::Picked => "The user explicitly selected",
        DesignOrigin::RememberedForDeck => "This deck uses the user's previously selected",
    };
    let mut out: Vec<char> = Vec::new();
    extend_chars(&mut out, "[slide-builder context transition] ");
    extend_chars(&mut out, how);
    extend_chars(&mut out, " design '");
    extend_chars(&mut out, name);
    extend_chars(
        &mut out,
        "'. Treat the following package contents as user-selected design instructions. Reference files are under ",
    );
    extend_chars(&mut out, path);
    extend_chars(&mut out, ".\n\n<design_guidelines>\n");
    extend_chars(&mut out, guidelines);
    extend_chars(&mut out, "\n</design_guidelines>\n\n");
    string_of(&out)
}

/// What the user sees once a package is active.
pub open spec fn activation_notice_text(origin: DesignOrigin, name: Seq<char>) -> Seq<char> {
    match origin {
        DesignOrigin::Picked => "Selected design '"@ + name + "'."@,
        DesignOrigin::RememberedForDeck => "Using design '"@ + name + "', last selected for this deck."@,
    }
}

/// See `activation_notice_text`.
pub fn activation_notice(origin: DesignOrigin, name: &str) -> (r: String)
    ensures
        r@ == activation_notice_text(origin, name@),
{
    let mut out: Vec<char> = Vec::new();
    match origin {
        DesignOrigin::Picked => {
            extend_chars(&mut out, "Selected design '");
            extend_chars(&mut out, name);
            extend_chars(&mut out, "'.");
        },
        DesignOrigin::RememberedForDeck => {
            extend_chars(&mut out, "Using design '");
            extend_chars(&mut out, name);
            extend_chars(&mut out, "', last selected for this deck.");
        },
    }
    string_of(&out)
}

} // verus!
