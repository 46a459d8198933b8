//! What slide-builder reports to Herdr: input ownership first, then activity,
//! then the outcome of the last finished activity.
use crate::integrations::herdr::HerdrState;
use vstd::prelude::*;

verus! {

/// The dialog on screen, as far as status reporting cares.
#[derive(Clone, Copy, Debug, PartialEq, Eq, Structural)]
pub enum DialogKind {
    /// No dialog is open.
    Closed,
    /// A tool waits for approval.
    Approval,
    /// The agent asked a question.
    Questionnaire,
    /// Any other dialog (pickers, setup, configuration, palette, help).
    Other,
}

/// Events whose outcome the idle status remembers.
#[derive(Clone, Copy, Debug, PartialEq, Eq, Structural)]
pub enum StatusEvent {
    RunFinished,
    RunCancelled,
    RunFailed,
    ExportSucceeded,
    ExportFailed,
    ImportCompleted,
    ImportFailed,
    ImportCancelled,
    /// Any event without an outcome.
    Other,
}

/// What the application is doing when the status is read.
#[derive(Clone, Copy, Debug)]
pub struct StatusInputs {
    pub dialog: DialogKind,
    pub fullscreen: bool,
    pub import_running: bool,
    pub run_active: bool,
    pub export_active: bool,
}

/// The outcome text of an event, if it has one.
pub open spec fn outcome_of(e: StatusEvent) -> Option<Seq<char>> {
    match e {
        StatusEvent::RunFinished => Some("Deck editing finished"@),
        StatusEvent::RunCancelled => Some("Deck editing cancelled"@),
        StatusEvent::RunFailed => Some("Deck editing failed; see conversation"@),
        StatusEvent::ExportSucceeded => Some("PDF exported"@),
        StatusEvent::ExportFailed => Some("PDF export failed; see conversation"@),
        StatusEvent::ImportCompleted => Some("Design imported"@),
        StatusEvent::ImportFailed => Some("Design import failed; see conversation"@),
        StatusEvent::ImportCancelled => Some("Design import cancelled"@),
        StatusEvent::Other => None,
    }
}

/// The status and message for `inputs` given the remembered outcome, and
/// whether the outcome is forgotten (when an activity runs).
pub open spec fn status_of(inputs: StatusInputs, outcome: Option<Seq<char>>) -> (HerdrState, Seq<char>, bool) {
    match inputs.dialog {
        DialogKind::Approval => (HerdrState::Blocked, "Waiting for tool approval"@, false),
        DialogKind::Questionnaire => (HerdrState::Blocked, "Waiting for an answer"@, false),
        DialogKind::Other => (HerdrState::Blocked, "Close the dialog to return to the deck"@, false),
        DialogKind::Closed => if inputs.fullscreen {
            (HerdrState::Blocked, "Presenting slides; Escape returns to the deck"@, false)
        } else if inputs.import_running {
            (HerdrState::Working, "Importing design"@, true)
        } else if inputs.run_active {
            (HerdrState::Working, "Editing deck"@, true)
        } else if inputs.export_active {
            (HerdrState::Working, "Exporting PDF"@, true)
        } else {
            (HerdrState::Idle, match outcome {
                Some(o) => o,
                None => "Ready for a prompt"@,
            }, false)
        },
    }
}

/// The status reported to Herdr, with the outcome of the last finished activity.
#[derive(Clone, Copy, Debug)]
pub struct Status {
    outcome: Option<&'static str>,
}

impl Status {
    /// The remembered outcome.
    pub closed spec fn outcome(&self) -> Option<Seq<char>> {
        match self.outcome {
            Some(o) => Some(o@),
            None => None,
        }
    }

    /// No outcome yet.
    pub fn new() -> (s: Status)
        ensures
            s.outcome() is None,
    {
        Status { outcome: None }
    }

    /// Remembers the outcome of a finished activity; other events change nothing.
    pub fn observe(&mut self, event: StatusEvent)
        ensures
            final(self).outcome() == match outcome_of(event) {
                Some(o) => Some(o),
                None => old(self).outcome(),
            },
    {
        let o: Option<&'static str> = match event {
            StatusEvent::RunFinished => Some("Deck editing finished"),
            StatusEvent::RunCancelled => Some("Deck editing cancelled"),
            StatusEvent::RunFailed => Some("Deck editing failed; see conversation"),
            StatusEvent::ExportSucceeded => Some("PDF exported"),
            StatusEvent::ExportFailed => Some("PDF export failed; see conversation"),
            StatusEvent::ImportCompleted => Some("Design imported"),
            StatusEvent::ImportFailed => Some("Design import failed; see conversation"),
            StatusEvent::ImportCancelled => Some("Design import cancelled"),
            StatusEvent::Other => None,
        };
        if o.is_some() {
            self.outcome = o;
        }
    }

    /// The state and message to report: a dialog that needs the user blocks
    /// even while work runs; presenting blocks; running work is reported and
    /// clears the remembered outcome; otherwise idle with that outcome.
    pub fn current(&mut self, inputs: StatusInputs) -> (r: (HerdrState, &'static str))
        ensures
            r.0 == status_of(inputs, old(self).outcome()).0,
            r.1@ == status_of(inputs, old(self).outcome()).1,
            final(self).outcome() == if status_of(inputs, old(self).outcome()).2 {
                None
            } else {
                old(self).outcome()
            },
    {
        match inputs.dialog {
            DialogKind::Approval => {
                return (HerdrState::Blocked, "Waiting for tool approval");
            },
            DialogKind::Questionnaire => {
                return (HerdrState::Blocked, "Waiting for an answer");
            },
            DialogKind::Other => {
                return (HerdrState::Blocked, "Close the dialog to return to the deck");
            },
            DialogKind::Closed => {},
        }
        if inputs.fullscreen {
            return (HerdrState::Blocked, "Presenting slides; Escape returns to the deck");
        }
        let activity: Option<&'static str> = if inputs.import_running {
            Some("Importing design")
        } else if inputs.run_active {
            Some("Editing deck")
        } else if inputs.export_active {
            Some("Exporting PDF")
        } else {
            None
        };
        match activity {
            Some(m) => {
                self.outcome = None;
                (HerdrState::Working, m)
            },
            None => match self.outcome {
                Some(o) => (HerdrState::Idle, o),
                None => (HerdrState::Idle, "Ready for a prompt"),
            },
        }
    }
}

} // verus!
