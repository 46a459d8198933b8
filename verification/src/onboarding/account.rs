//! Connecting and disconnecting provider accounts: how each way of signing in
//! is summarised, which saved connections can be removed, and what the user
//! is told afterwards.
use crate::text::{decimal, extend_chars, push_decimal, string_of};
use vstd::prelude::*;

verus! {

broadcast use vstd::string::group_string_axioms;

/// How a provider's authentication mode signs in.
#[derive(Clone, Copy, Debug, PartialEq, Eq, Structural)]
pub enum AuthKind {
    /// A local provider that needs no sign-in.
    NoSignIn,
    ApiKey,
    CodexOAuth,
    GithubCopilotDevice,
    KimiOAuth,
    XaiOAuth,
    BearerCredential,
    /// Ollama's device key, managed by Ollama outside this application.
    OllamaDeviceKey,
}

/// The short description of a sign-in kind shown in pickers.
pub open spec fn kind_summary(kind: AuthKind) -> Seq<char> {
    match kind {
        AuthKind::NoSignIn => "local \u{b7} no sign-in"@,
        AuthKind::ApiKey => "API key"@,
        AuthKind::OllamaDeviceKey => "device sign-in"@,
        _ => "browser sign-in"@,
    }
}

/// See `kind_summary`.
pub fn auth_kind_summary(kind: AuthKind) -> (r: &'static str)
    ensures
        r@ == kind_summary(kind),
{
    match kind {
        AuthKind::NoSignIn => "local \u{b7} no sign-in",
        AuthKind::ApiKey => "API key",
        AuthKind::OllamaDeviceKey => "device sign-in",
        AuthKind::CodexOAuth => "browser sign-in",
        AuthKind::GithubCopilotDevice => "browser sign-in",
        AuthKind::KimiOAuth => "browser sign-in",
        AuthKind::XaiOAuth => "browser sign-in",
        AuthKind::BearerCredential => "browser sign-in",
    }
}

/// A provider's summary: the one way it signs in, or how many there are.
pub open spec fn provider_summary(kinds: Seq<AuthKind>) -> Seq<char> {
    if kinds.len() == 1 {
        kind_summary(kinds[0])
    } else {
        decimal(kinds.len()) + " connection options"@
    }
}

/// See `provider_summary`.
pub fn auth_summary(kinds: &Vec<AuthKind>) -> (r: String)
    ensures
        r@ == provider_summary(kinds@),
{
    let mut out: Vec<char> = Vec::new();
    if kinds.len() == 1 {
        extend_chars(&mut out, auth_kind_summary(kinds[0]));
    } else {
        push_decimal(&mut out, kinds.len() as u64);
        extend_chars(&mut out, " connection options");
    }
    string_of(&out)
}

/// `text` left-aligned in a field `width` characters wide, as `{:<width}` formats it.
pub open spec fn padded(text: Seq<char>, width: nat) -> Seq<char> {
    if text.len() >= width {
        text
    } else {
        text + Seq::new((width - text.len()) as nat, |i: int| ' ')
    }
}

/// A picker row: `label` padded to `width`, a space, then `detail`.
pub open spec fn row_text(label: Seq<char>, width: nat, detail: Seq<char>) -> Seq<char> {
    padded(label, width) + seq![' '] + detail
}

/// See `row_text`.
pub fn picker_row(label: &str, width: usize, detail: &str) -> (r: String)
    ensures
        r@ == row_text(label@, width as nat, detail@),
{
    let mut out: Vec<char> = Vec::new();
    extend_chars(&mut out, label);
    let n = out.len();
    if n < width {
        let mut k: usize = n;
        while k < width
            invariant
                n <= k <= width,
                n == label@.len(),
                out@ == label@ + Seq::new((k - n) as nat, |i: int| ' '),
            decreases width - k,
        {
            out.push(' ');
            k += 1;
            assert(out@ =~= label@ + Seq::new((k - n) as nat, |i: int| ' '));
        }
    } else {
        assert(out@ == label@);
    }
    out.push(' ');
    extend_chars(&mut out, detail);
    string_of(&out)
}

/// Width of the provider name column in the connect picker.
pub const PROVIDER_COLUMN: usize = 22;

/// Width of the sign-in label column in the authentication picker.
pub const AUTH_COLUMN: usize = 28;

/// The label of a connection: provider, a middle dot, the sign-in label.
pub open spec fn connection_label_text(provider: Seq<char>, login_label: Seq<char>) -> Seq<char> {
    provider + " \u{b7} "@ + login_label
}

/// See `connection_label_text`.
pub fn connection_label(provider: &str, login_label: &str) -> (r: String)
    ensures
        r@ == connection_label_text(provider@, login_label@),
{
    let mut out: Vec<char> = Vec::new();
    extend_chars(&mut out, provider);
    extend_chars(&mut out, " \u{b7} ");
    extend_chars(&mut out, login_label);
    string_of(&out)
}

/// One authentication mode of one provider, with whether credentials for it
/// are saved in this application's store.
#[derive(Clone, Debug)]
pub struct AuthModeEntry {
    pub auth_id: String,
    pub provider: String,
    pub login_label: String,
    pub kind: AuthKind,
    pub stored: bool,
}

/// A saved connection the user may remove.
#[derive(Clone, Debug, PartialEq, Eq)]
pub struct StoredConnection {
    pub auth_id: String,
    pub label: String,
}

/// Credentials of this kind live in this application's keyring: not local
/// providers and not Ollama's externally managed device key.
pub open spec fn removable(kind: AuthKind) -> bool {
    kind != AuthKind::NoSignIn && kind != AuthKind::OllamaDeviceKey
}

/// The removable, stored entries of `modes`, in order.
pub open spec fn stored_of(modes: Seq<AuthModeEntry>) -> Seq<(Seq<char>, Seq<char>)>
    decreases modes.len(),
{
    if modes.len() == 0 {
        Seq::empty()
    } else {
        let m = modes.last();
        stored_of(modes.drop_last()) + if removable(m.kind) && m.stored {
            seq![(m.auth_id@, connection_label_text(m.provider@, m.login_label@))]
        } else {
            Seq::empty()
        }
    }
}

/// A connection as plain values.
pub open spec fn connection_views(s: Seq<StoredConnection>) -> Seq<(Seq<char>, Seq<char>)> {
    s.map_values(|c: StoredConnection| (c.auth_id@, c.label@))
}

/// The connections the disconnect picker offers (see `stored_of`).
pub fn stored_connections(modes: &Vec<AuthModeEntry>) -> (r: Vec<StoredConnection>)
    ensures
        connection_views(r@) == stored_of(modes@),
{
    let mut r: Vec<StoredConnection> = Vec::new();
    let mut k: usize = 0;
    while k < modes.len()
        invariant
            k <= modes@.len(),
            connection_views(r@) == stored_of(modes@.take(k as int)),
        decreases modes.len() - k,
    {
        let m = &modes[k];
        let ghost before = r@;
        assert(modes@.take(k + 1).drop_last() =~= modes@.take(k as int));
        if m.kind != AuthKind::NoSignIn && m.kind != AuthKind::OllamaDeviceKey && m.stored {
            let label = connection_label(m.provider.as_str(), m.login_label.as_str());
            r.push(StoredConnection { auth_id: m.auth_id.clone(), label });
            assert(connection_views(r@) =~= connection_views(before).push(
                (m.auth_id@, connection_label_text(m.provider@, m.login_label@)),
            ));
        } else {
            assert(r@ == before);
        }
        k += 1;
    }
    assert(modes@.take(modes@.len() as int) =~= modes@);
    r
}

/// What the user is told after connecting: whether sign-in was needed or
/// credentials were saved, that an environment credential still wins, and
/// why model discovery failed, if it did.
pub open spec fn login_message_text(
    kind: AuthKind,
    provider: Seq<char>,
    login_label: Seq<char>,
    environment_override: bool,
    discovery_error: Option<Seq<char>>,
) -> Seq<char> {
    let first = match kind {
        AuthKind::NoSignIn => provider + " does not require sign-in."@,
        AuthKind::OllamaDeviceKey => "Ollama Cloud device setup acknowledged. Approval is managed by Ollama; slide-builder cannot confirm completion."@,
        _ => "Saved credentials for "@ + provider + " \u{b7} "@ + login_label + "."@,
    };
    let with_env = if environment_override {
        first + " An environment credential still takes precedence."@
    } else {
        first
    };
    match discovery_error {
        Some(e) => with_env + " Model discovery failed: "@ + e,
        None => with_env,
    }
}

/// See `login_message_text`.
pub fn login_message(
    kind: AuthKind,
    provider: &str,
    login_label: &str,
    environment_override: bool,
    discovery_error: Option<&str>,
) -> (r: String)
    ensures
        r@ == login_message_text(
            kind,
            provider@,
            login_label@,
            environment_override,
            match discovery_error {
                Some(e) => Some(e@),
                None => None,
            },
        ),
{
    let mut out: Vec<char> = Vec::new();
    match kind {
        AuthKind::NoSignIn => {
            extend_chars(&mut out, provider);
            extend_chars(&mut out, " does not require sign-in.");
        },
        AuthKind::OllamaDeviceKey => {
            extend_chars(
                &mut out,
                "Ollama Cloud device setup acknowledged. Approval is managed by Ollama; slide-builder cannot confirm completion.",
            );
        },
        _ => {
            extend_chars(&mut out, "Saved credentials for ");
            extend_chars(&mut out, provider);
            extend_chars(&mut out, " \u{b7} ");
            extend_chars(&mut out, login_label);
            extend_chars(&mut out, ".");
        },
    }
    if environment_override {
        extend_chars(&mut out, " An environment credential still takes precedence.");
    }
    match discovery_error {
        Some(e) => {
            extend_chars(&mut out, " Model discovery failed: ");
            extend_chars(&mut out, e);
        },
        None => {},
    }
    string_of(&out)
}

/// Told when nothing can be disconnected.
pub const NO_SAVED_CONNECTIONS: &'static str = "No saved connections to remove. Environment credentials and Ollama device sign-in are managed outside slide-builder.";

/// What the user is told after removing a connection.
pub open spec fn logout_message_text(removed: bool, label: Seq<char>, environment_override: bool) -> Seq<char> {
    let first = if removed {
        "Removed saved credentials for "@ + label + "."@
    } else {
        "No saved credentials remain for "@ + label + "."@
    };
    if environment_override {
        first + " An environment credential remains active."@
    } else {
        first
    }
}

/// See `logout_message_text`.
pub fn logout_message(removed: bool, label: &str, environment_override: bool) -> (r: String)
    ensures
        r@ == logout_message_text(removed, label@, environment_override),
{
    let mut out: Vec<char> = Vec::new();
    if removed {
        extend_chars(&mut out, "Removed saved credentials for ");
    } else {
        extend_chars(&mut out, "No saved credentials remain for ");
    }
    extend_chars(&mut out, label);
    extend_chars(&mut out, ".");
    if environment_override {
        extend_chars(&mut out, " An environment credential remains active.");
    }
    string_of(&out)
}

} // verus!
