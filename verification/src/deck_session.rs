//! The decisions of the interactive deck session: what each user command
//! does to the session and which outside work (the agent, the renderer, the
//! import workflow, the transcript) it asks for. The interface runs the loop
//! and performs the actions.
use crate::design_selection::{activation_context, activation_notice, activation_notice_text, activation_text, DesignOrigin};
use crate::text::{extend_chars, string_of};
use vstd::prelude::*;

verus! {

broadcast use vstd::string::group_string_axioms;

/// What the session knows between commands.
#[derive(Clone, Debug)]
pub struct TuiState {
    /// The agent or an import is running.
    pub run_active: bool,
    /// The design import workflow has an import in progress.
    pub import_active: bool,
    /// A renderer was found at start-up.
    pub renderer_available: bool,
    /// The name of the selected design, empty when none.
    pub design_name: String,
    /// Design guidelines owed to the agent with the next message.
    pub pending_design_context: Option<String>,
    /// Where the import picker opens.
    pub import_directory: String,
    /// The configured browser path, `auto` to search for one.
    pub browser_path: String,
}

/// A user command, with what the interface read for it.
#[derive(Clone, Debug)]
pub enum TuiCommand {
    SendMessage { text: String, attach_active_slide: bool },
    CancelRun,
    RequestRender,
    /// A design package chosen in the picker was loaded.
    DesignLoaded { name: String, path: String, guidelines: String },
    /// A design package chosen in the picker could not be loaded.
    DesignLoadFailed { error: String },
    OpenImportPicker,
    /// A template was chosen for import; `parent` is its directory.
    ImportDesign { source: String, parent: Option<String> },
    /// The configuration was saved; `changed` when it differs from the running one.
    ConfigurationSaved { changed: bool },
    ConfigurationSaveFailed { error: String },
}

/// Outside work the session asks for.
#[derive(Clone, Debug, PartialEq, Eq)]
pub enum TuiAction {
    SendToAgent { text: String, attach_active_slide: bool },
    CancelImport,
    CancelAgent,
    QueueRender,
    RendererUnavailable(String),
    SystemMessage(String),
    OpenImportPicker { start_directory: String },
    StartImport { source: String, configured_browser: Option<String> },
}

/// `TuiState` as plain values.
pub ghost struct TuiStateView {
    pub run_active: bool,
    pub import_active: bool,
    pub renderer_available: bool,
    pub design_name: Seq<char>,
    pub pending_design_context: Option<Seq<char>>,
    pub import_directory: Seq<char>,
    pub browser_path: Seq<char>,
}

/// `TuiCommand` as plain values.
pub ghost enum TuiCommandView {
    SendMessage { text: Seq<char>, attach_active_slide: bool },
    CancelRun,
    RequestRender,
    DesignLoaded { name: Seq<char>, path: Seq<char>, guidelines: Seq<char> },
    DesignLoadFailed { error: Seq<char> },
    OpenImportPicker,
    ImportDesign { source: Seq<char>, parent: Option<Seq<char>> },
    ConfigurationSaved { changed: bool },
    ConfigurationSaveFailed { error: Seq<char> },
}

/// `TuiAction` as plain values.
pub ghost enum TuiActionView {
    SendToAgent { text: Seq<char>, attach_active_slide: bool },
    CancelImport,
    CancelAgent,
    QueueRender,
    RendererUnavailable(Seq<char>),
    SystemMessage(Seq<char>),
    OpenImportPicker { start_directory: Seq<char> },
    StartImport { source: Seq<char>, configured_browser: Option<Seq<char>> },
}

/// An optional text as plain values.
pub open spec fn opt_view(o: Option<String>) -> Option<Seq<char>> {
    match o {
        Some(s) => Some(s@),
        None => None,
    }
}

/// See `TuiStateView`.
pub open spec fn state_view(s: TuiState) -> TuiStateView {
    TuiStateView {
        run_active: s.run_active,
        import_active: s.import_active,
        renderer_available: s.renderer_available,
        design_name: s.design_name@,
        pending_design_context: opt_view(s.pending_design_context),
        import_directory: s.import_directory@,
        browser_path: s.browser_path@,
    }
}

/// See `TuiCommandView`.
pub open spec fn command_view(c: TuiCommand) -> TuiCommandView {
    match c {
        TuiCommand::SendMessage { text, attach_active_slide } => TuiCommandView::SendMessage { text: text@, attach_active_slide },
        TuiCommand::CancelRun => TuiCommandView::CancelRun,
        TuiCommand::RequestRender => TuiCommandView::RequestRender,
        TuiCommand::DesignLoaded { name, path, guidelines } => TuiCommandView::DesignLoaded {
            name: name@,
            path: path@,
            guidelines: guidelines@,
        },
        TuiCommand::DesignLoadFailed { error } => TuiCommandView::DesignLoadFailed { error: error@ },
        TuiCommand::OpenImportPicker => TuiCommandView::OpenImportPicker,
        TuiCommand::ImportDesign { source, parent } => TuiCommandView::ImportDesign { source: source@, parent: opt_view(parent) },
        TuiCommand::ConfigurationSaved { changed } => TuiCommandView::ConfigurationSaved { changed },
        TuiCommand::ConfigurationSaveFailed { error } => TuiCommandView::ConfigurationSaveFailed { error: error@ },
    }
}

/// See `TuiActionView`.
pub open spec fn action_view(a: TuiAction) -> TuiActionView {
    match a {
        TuiAction::SendToAgent { text, attach_active_slide } => TuiActionView::SendToAgent { text: text@, attach_active_slide },
        TuiAction::CancelImport => TuiActionView::CancelImport,
        TuiAction::CancelAgent => TuiActionView::CancelAgent,
        TuiAction::QueueRender => TuiActionView::QueueRender,
        TuiAction::RendererUnavailable(m) => TuiActionView::RendererUnavailable(m@),
        TuiAction::SystemMessage(m) => TuiActionView::SystemMessage(m@),
        TuiAction::OpenImportPicker { start_directory } => TuiActionView::OpenImportPicker { start_directory: start_directory@ },
        TuiAction::StartImport { source, configured_browser } => TuiActionView::StartImport {
            source: source@,
            configured_browser: opt_view(configured_browser),
        },
    }
}

/// The actions as plain values.
pub open spec fn action_views(s: Seq<TuiAction>) -> Seq<TuiActionView> {
    s.map_values(|a: TuiAction| action_view(a))
}

/// Told when an import is asked for while the agent or an import runs.
pub const BUSY_MESSAGE: &'static str = "Finish the current operation before importing a design.";

/// Told when no renderer was found.
pub const NO_RENDERER_MESSAGE: &'static str = "No supported Chromium renderer was found";

/// The next session state and the outside work for a command:
/// - a message goes to the agent with any pending design guidelines in front;
/// - cancelling stops a running import, else the agent's run;
/// - a render is queued when a renderer exists, else the user is told;
/// - a loaded design becomes the selection and its guidelines are owed to the agent;
/// - an import starts only when nothing runs, with the configured browser unless it is `auto`;
/// - a saved configuration asks for a restart when it changed.
pub open spec fn tui_transition(s: TuiStateView, c: TuiCommandView) -> (TuiStateView, Seq<TuiActionView>) {
    match c {
        TuiCommandView::SendMessage { text, attach_active_slide } => {
            let full = match s.pending_design_context {
                Some(context) => context + text,
                None => text,
            };
            (
                TuiStateView { pending_design_context: None, ..s },
                seq![TuiActionView::SendToAgent { text: full, attach_active_slide }],
            )
        },
        TuiCommandView::CancelRun => (
            s,
            seq![if s.import_active { TuiActionView::CancelImport } else { TuiActionView::CancelAgent }],
        ),
        TuiCommandView::RequestRender => (
            s,
            seq![
                if s.renderer_available {
                    TuiActionView::QueueRender
                } else {
                    TuiActionView::RendererUnavailable(NO_RENDERER_MESSAGE@)
                },
            ],
        ),
        TuiCommandView::DesignLoaded { name, path, guidelines } => (
            TuiStateView {
                design_name: name,
                pending_design_context: Some(activation_text(DesignOrigin::Picked, name, path, guidelines)),
                ..s
            },
            seq![TuiActionView::SystemMessage(activation_notice_text(DesignOrigin::Picked, name))],
        ),
        TuiCommandView::DesignLoadFailed { error } => (
            s,
            seq![TuiActionView::SystemMessage("Could not load design package: "@ + error)],
        ),
        TuiCommandView::OpenImportPicker => (
            s,
            seq![
                if s.run_active || s.import_active {
                    TuiActionView::SystemMessage(BUSY_MESSAGE@)
                } else {
                    TuiActionView::OpenImportPicker { start_directory: s.import_directory }
                },
            ],
        ),
        TuiCommandView::ImportDesign { source, parent } => {
            let s1 = match parent {
                Some(p) => TuiStateView { import_directory: p, ..s },
                None => s,
            };
            if s1.run_active || s1.import_active {
                (s1, seq![TuiActionView::SystemMessage(BUSY_MESSAGE@)])
            } else {
                (
                    TuiStateView { run_active: true, ..s1 },
                    seq![
                        TuiActionView::StartImport {
                            source,
                            configured_browser: if s1.browser_path == "auto"@ { None } else { Some(s1.browser_path) },
                        },
                    ],
                )
            }
        },
        TuiCommandView::ConfigurationSaved { changed } => (
            s,
            seq![
                TuiActionView::SystemMessage(
                    if changed {
                        "Configuration saved. Restart slide-builder to apply the changes."@
                    } else {
                        "Configuration saved."@
                    },
                ),
            ],
        ),
        TuiCommandView::ConfigurationSaveFailed { error } => (
            s,
            seq![TuiActionView::SystemMessage("Could not save configuration: "@ + error)],
        ),
    }
}

fn text_of(parts: &[&str]) -> (r: String)
    ensures
        r@ == parts_text(parts@),
{
    let mut out: Vec<char> = Vec::new();
    let mut k: usize = 0;
    while k < parts.len()
        invariant
            k <= parts@.len(),
            out@ == parts_text(parts@.take(k as int)),
        decreases parts.len() - k,
    {
        extend_chars(&mut out, parts[k]);
        assert(parts@.take(k + 1).drop_last() =~= parts@.take(k as int));
        k += 1;
    }
    assert(parts@.take(k as int) =~= parts@);
    string_of(&out)
}

/// The texts of `parts`, concatenated.
pub open spec fn parts_text(parts: Seq<&str>) -> Seq<char>
    decreases parts.len(),
{
    if parts.len() == 0 {
        Seq::empty()
    } else {
        parts_text(parts.drop_last()) + parts.last()@
    }
}

/// One step of the session (see `tui_transition`).
pub fn tui_step(state: TuiState, command: TuiCommand) -> (r: (TuiState, Vec<TuiAction>))
    ensures
        (state_view(r.0), action_views(r.1@)) == tui_transition(state_view(state), command_view(command)),
{
    let mut s = state;
    let ghost s0 = state_view(s);
    let action = match command {
        TuiCommand::SendMessage { text, attach_active_slide } => {
            let full = match s.pending_design_context.take() {
                Some(context) => text_of(&[context.as_str(), text.as_str()]),
                None => text,
            };
            proof {
                reveal_with_fuel(parts_text, 3);
            }
            TuiAction::SendToAgent { text: full, attach_active_slide }
        },
        TuiCommand::CancelRun => if s.import_active {
            TuiAction::CancelImport
        } else {
            TuiAction::CancelAgent
        },
        TuiCommand::RequestRender => if s.renderer_available {
            TuiAction::QueueRender
        } else {
            TuiAction::RendererUnavailable(NO_RENDERER_MESSAGE.to_owned())
        },
        TuiCommand::DesignLoaded { name, path, guidelines } => {
            let context = activation_context(DesignOrigin::Picked, name.as_str(), path.as_str(), guidelines.as_str());
            let notice = activation_notice(DesignOrigin::Picked, name.as_str());
            s.design_name = name;
            s.pending_design_context = Some(context);
            TuiAction::SystemMessage(notice)
        },
        TuiCommand::DesignLoadFailed { error } => {
            proof {
                reveal_with_fuel(parts_text, 3);
            }
            TuiAction::SystemMessage(text_of(&["Could not load design package: ", error.as_str()]))
        },
        TuiCommand::OpenImportPicker => if s.run_active || s.import_active {
            TuiAction::SystemMessage(BUSY_MESSAGE.to_owned())
        } else {
            TuiAction::OpenImportPicker { start_directory: s.import_directory.clone() }
        },
        TuiCommand::ImportDesign { source, parent } => {
            match parent {
                Some(p) => {
                    s.import_directory = p;
                },
                None => {},
            }
            if s.run_active || s.import_active {
                TuiAction::SystemMessage(BUSY_MESSAGE.to_owned())
            } else {
                s.run_active = true;
                let browser = crate::text::chars_of(s.browser_path.as_str());
                let configured_browser = if crate::text::eq_str(&browser, "auto") {
                    None
                } else {
                    Some(s.browser_path.clone())
                };
                TuiAction::StartImport { source, configured_browser }
            }
        },
        TuiCommand::ConfigurationSaved { changed } => TuiAction::SystemMessage(
            if changed {
                "Configuration saved. Restart slide-builder to apply the changes.".to_owned()
            } else {
                "Configuration saved.".to_owned()
            },
        ),
        TuiCommand::ConfigurationSaveFailed { error } => {
            proof {
                reveal_with_fuel(parts_text, 3);
            }
            TuiAction::SystemMessage(text_of(&["Could not save configuration: ", error.as_str()]))
        },
    };
    let actions = vec![action];
    assert(action_views(actions@) =~= seq![action_view(action)]);
    (s, actions)
}

} // verus!
