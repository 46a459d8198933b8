//! The design-import workflow as seen by the interface: its stages, the
//! events it reports, and the decisions taken after each asynchronous step.
use crate::design_import::{DesignImportPreparationStage, DesignImportPublicationStage};
use vstd::prelude::*;

verus! {

/// What the interface asks to import.
#[derive(Clone, Debug)]
pub struct DesignImportRequest {
    pub source: String,
    pub cache_dir: String,
    pub packages_dir: String,
    pub configured_browser: Option<String>,
    /// Capture timeout of each preview, in milliseconds.
    pub render_timeout_ms: u64,
    pub provider: String,
    pub model: String,
}

/// Stages shown while an import runs.
#[derive(Clone, Copy, Debug, PartialEq, Eq, Structural)]
pub enum DesignImportWorkflowStage {
    Validating,
    Copying,
    Extracting,
    RenderingPreviews,
    Analyzing,
    ValidatingPackage,
    Publishing,
}

/// Events reported to the interface.
#[derive(Clone, Debug, PartialEq, Eq)]
pub enum DesignImportWorkflowEvent {
    Stage(DesignImportWorkflowStage),
    Completed { package_name: String, package_path: String },
    Failed(String),
    Cancelled,
}

/// The workflow stage of a preparation stage.
pub open spec fn preparation_stage(stage: DesignImportPreparationStage) -> DesignImportWorkflowStage {
    match stage {
        DesignImportPreparationStage::Validating => DesignImportWorkflowStage::Validating,
        DesignImportPreparationStage::Copying => DesignImportWorkflowStage::Copying,
        DesignImportPreparationStage::Extracting => DesignImportWorkflowStage::Extracting,
        DesignImportPreparationStage::RenderingPreviews => DesignImportWorkflowStage::RenderingPreviews,
    }
}

/// The workflow stage of a publication stage.
pub open spec fn publication_stage(stage: DesignImportPublicationStage) -> DesignImportWorkflowStage {
    match stage {
        DesignImportPublicationStage::ValidatingPackage => DesignImportWorkflowStage::ValidatingPackage,
        DesignImportPublicationStage::Publishing => DesignImportWorkflowStage::Publishing,
    }
}

/// The workflow stage of a preparation stage.
pub fn map_preparation(stage: DesignImportPreparationStage) -> (r: DesignImportWorkflowStage)
    ensures
        r == preparation_stage(stage),
{
    match stage {
        DesignImportPreparationStage::Validating => DesignImportWorkflowStage::Validating,
        DesignImportPreparationStage::Copying => DesignImportWorkflowStage::Copying,
        DesignImportPreparationStage::Extracting => DesignImportWorkflowStage::Extracting,
        DesignImportPreparationStage::RenderingPreviews => DesignImportWorkflowStage::RenderingPreviews,
    }
}

/// The workflow stage of a publication stage.
pub fn map_publication(stage: DesignImportPublicationStage) -> (r: DesignImportWorkflowStage)
    ensures
        r == publication_stage(stage),
{
    match stage {
        DesignImportPublicationStage::ValidatingPackage => DesignImportWorkflowStage::ValidatingPackage,
        DesignImportPublicationStage::Publishing => DesignImportWorkflowStage::Publishing,
    }
}

/// Where a running import stands.
#[derive(Clone, Copy, Debug, PartialEq, Eq, Structural)]
pub enum ImportPhase {
    Preparing,
    CreatingImporter,
    Analyzing,
    Publishing,
    Finished,
}

/// What an asynchronous step of the import came back with.
#[derive(Clone, Debug, PartialEq, Eq)]
pub enum ImportProgress {
    Prepared,
    PreparationFailed(String),
    ImporterReady,
    ImporterFailed(String),
    AnalysisCompleted,
    AnalysisCancelled,
    AnalysisFailed(String),
    Published { package_name: String, package_path: String },
    PublicationFailed(String),
}

/// What the workflow runner must do next, in order.
#[derive(Clone, Debug, PartialEq, Eq)]
pub enum ImportAction {
    Report(DesignImportWorkflowEvent),
    /// Remove the job directory of the prepared import.
    Discard,
    /// Remove a package that was published after cancellation.
    RemovePackage(String),
    CreateImporter,
    RunImporter,
    Publish,
}

/// A failure is reported as cancellation once the user cancelled.
pub open spec fn failure_event(cancelled: bool, message: String) -> DesignImportWorkflowEvent {
    if cancelled {
        DesignImportWorkflowEvent::Cancelled
    } else {
        DesignImportWorkflowEvent::Failed(message)
    }
}

/// The next phase and actions after `progress` arrives in `phase`, given
/// whether the user has cancelled. Progress that does not belong to the
/// phase changes nothing.
pub open spec fn import_transition(phase: ImportPhase, cancelled: bool, progress: ImportProgress) -> (ImportPhase, Seq<ImportAction>) {
    match (phase, progress) {
        (ImportPhase::Preparing, ImportProgress::PreparationFailed(m)) => (
            ImportPhase::Finished,
            seq![ImportAction::Report(failure_event(cancelled, m))],
        ),
        (ImportPhase::Preparing, ImportProgress::Prepared) => if cancelled {
            (ImportPhase::Finished, seq![ImportAction::Discard, ImportAction::Report(DesignImportWorkflowEvent::Cancelled)])
        } else {
            (
                ImportPhase::CreatingImporter,
                seq![
                    ImportAction::Report(DesignImportWorkflowEvent::Stage(DesignImportWorkflowStage::Analyzing)),
                    ImportAction::CreateImporter,
                ],
            )
        },
        (ImportPhase::CreatingImporter, ImportProgress::ImporterFailed(m)) => (
            ImportPhase::Finished,
            seq![ImportAction::Discard, ImportAction::Report(failure_event(cancelled, m))],
        ),
        (ImportPhase::CreatingImporter, ImportProgress::ImporterReady) => if cancelled {
            (ImportPhase::Finished, seq![ImportAction::Discard, ImportAction::Report(DesignImportWorkflowEvent::Cancelled)])
        } else {
            (ImportPhase::Analyzing, seq![ImportAction::RunImporter])
        },
        (ImportPhase::Analyzing, ImportProgress::AnalysisCompleted) => if cancelled {
            (ImportPhase::Finished, seq![ImportAction::Discard, ImportAction::Report(DesignImportWorkflowEvent::Cancelled)])
        } else {
            (ImportPhase::Publishing, seq![ImportAction::Publish])
        },
        (ImportPhase::Analyzing, ImportProgress::AnalysisCancelled) => (
            ImportPhase::Finished,
            seq![ImportAction::Discard, ImportAction::Report(DesignImportWorkflowEvent::Cancelled)],
        ),
        (ImportPhase::Analyzing, ImportProgress::AnalysisFailed(m)) => (
            ImportPhase::Finished,
            seq![ImportAction::Discard, ImportAction::Report(failure_event(cancelled, m))],
        ),
        (ImportPhase::Publishing, ImportProgress::Published { package_name, package_path }) => if cancelled {
            (
                ImportPhase::Finished,
                seq![ImportAction::RemovePackage(package_path), ImportAction::Report(DesignImportWorkflowEvent::Cancelled)],
            )
        } else {
            (
                ImportPhase::Finished,
                seq![ImportAction::Report(DesignImportWorkflowEvent::Completed { package_name, package_path })],
            )
        },
        (ImportPhase::Publishing, ImportProgress::PublicationFailed(m)) => (
            ImportPhase::Finished,
            seq![ImportAction::Discard, ImportAction::Report(failure_event(cancelled, m))],
        ),
        (p, _) => (p, Seq::empty()),
    }
}

fn failure(cancelled: bool, message: String) -> (r: ImportAction)
    ensures
        r == ImportAction::Report(failure_event(cancelled, message)),
{
    if cancelled {
        ImportAction::Report(DesignImportWorkflowEvent::Cancelled)
    } else {
        ImportAction::Report(DesignImportWorkflowEvent::Failed(message))
    }
}

/// See `import_transition`.
pub fn import_step(phase: ImportPhase, cancelled: bool, progress: ImportProgress) -> (r: (ImportPhase, Vec<ImportAction>))
    ensures
        r.0 == import_transition(phase, cancelled, progress).0,
        r.1@ == import_transition(phase, cancelled, progress).1,
{
    let cancel_actions = vec![ImportAction::Discard, ImportAction::Report(DesignImportWorkflowEvent::Cancelled)];
    match (phase, progress) {
        (ImportPhase::Preparing, ImportProgress::PreparationFailed(m)) => (ImportPhase::Finished, vec![failure(cancelled, m)]),
        (ImportPhase::Preparing, ImportProgress::Prepared) => if cancelled {
            (ImportPhase::Finished, cancel_actions)
        } else {
            (
                ImportPhase::CreatingImporter,
                vec![
                    ImportAction::Report(DesignImportWorkflowEvent::Stage(DesignImportWorkflowStage::Analyzing)),
                    ImportAction::CreateImporter,
                ],
            )
        },
        (ImportPhase::CreatingImporter, ImportProgress::ImporterFailed(m)) => (
            ImportPhase::Finished,
            vec![ImportAction::Discard, failure(cancelled, m)],
        ),
        (ImportPhase::CreatingImporter, ImportProgress::ImporterReady) => if cancelled {
            (ImportPhase::Finished, cancel_actions)
        } else {
            (ImportPhase::Analyzing, vec![ImportAction::RunImporter])
        },
        (ImportPhase::Analyzing, ImportProgress::AnalysisCompleted) => if cancelled {
            (ImportPhase::Finished, cancel_actions)
        } else {
            (ImportPhase::Publishing, vec![ImportAction::Publish])
        },
        (ImportPhase::Analyzing, ImportProgress::AnalysisCancelled) => (ImportPhase::Finished, cancel_actions),
        (ImportPhase::Analyzing, ImportProgress::AnalysisFailed(m)) => (
            ImportPhase::Finished,
            vec![ImportAction::Discard, failure(cancelled, m)],
        ),
        (ImportPhase::Publishing, ImportProgress::Published { package_name, package_path }) => if cancelled {
            (
                ImportPhase::Finished,
                vec![ImportAction::RemovePackage(package_path), ImportAction::Report(DesignImportWorkflowEvent::Cancelled)],
            )
        } else {
            (
                ImportPhase::Finished,
                vec![ImportAction::Report(DesignImportWorkflowEvent::Completed { package_name, package_path })],
            )
        },
        (ImportPhase::Publishing, ImportProgress::PublicationFailed(m)) => (
            ImportPhase::Finished,
            vec![ImportAction::Discard, failure(cancelled, m)],
        ),
        (p, _) => (p, Vec::new()),
    }
}

/// The stage event reported for progress, unless the user has cancelled.
pub fn stage_event(cancelled: bool, stage: DesignImportWorkflowStage) -> (r: Option<DesignImportWorkflowEvent>)
    ensures
        cancelled ==> r is None,
        !cancelled ==> r == Some(DesignImportWorkflowEvent::Stage(stage)),
{
    if cancelled {
        None
    } else {
        Some(DesignImportWorkflowEvent::Stage(stage))
    }
}

/// Once the user has cancelled, no step reports a completed import.
pub proof fn lemma_cancelled_import_never_completes(phase: ImportPhase, progress: ImportProgress)
    ensures
        forall|k: int|
            0 <= k < import_transition(phase, true, progress).1.len() ==> !(#[trigger] import_transition(phase, true, progress).1[k] matches ImportAction::Report(
                DesignImportWorkflowEvent::Completed { .. },
            )),
{
}

/// The coarse progress shown to the user during an import.
#[derive(Clone, Copy, Debug, PartialEq, Eq, Structural)]
pub enum ImportDisplayStage {
    Reading,
    Analyzing,
    Building,
    Installing,
}

/// Validation and copying read the template; extraction, previews and the
/// agent's analysis analyze it; checking the package builds it; publishing
/// installs it.
pub open spec fn display_stage_of(stage: DesignImportWorkflowStage) -> ImportDisplayStage {
    match stage {
        DesignImportWorkflowStage::Validating | DesignImportWorkflowStage::Copying => ImportDisplayStage::Reading,
        DesignImportWorkflowStage::Extracting | DesignImportWorkflowStage::RenderingPreviews
        | DesignImportWorkflowStage::Analyzing => ImportDisplayStage::Analyzing,
        DesignImportWorkflowStage::ValidatingPackage => ImportDisplayStage::Building,
        DesignImportWorkflowStage::Publishing => ImportDisplayStage::Installing,
    }
}

/// See `display_stage_of`.
pub fn display_stage(stage: DesignImportWorkflowStage) -> (r: ImportDisplayStage)
    ensures
        r == display_stage_of(stage),
{
    match stage {
        DesignImportWorkflowStage::Validating => ImportDisplayStage::Reading,
        DesignImportWorkflowStage::Copying => ImportDisplayStage::Reading,
        DesignImportWorkflowStage::Extracting => ImportDisplayStage::Analyzing,
        DesignImportWorkflowStage::RenderingPreviews => ImportDisplayStage::Analyzing,
        DesignImportWorkflowStage::Analyzing => ImportDisplayStage::Analyzing,
        DesignImportWorkflowStage::ValidatingPackage => ImportDisplayStage::Building,
        DesignImportWorkflowStage::Publishing => ImportDisplayStage::Installing,
    }
}

/// A second import was started while one is running.
#[derive(Clone, Copy, Debug, PartialEq, Eq, Structural)]
pub enum WorkflowError {
    AlreadyActive,
}

impl WorkflowError {
    /// The message shown for the error.
    pub fn message(&self) -> (r: &'static str)
        ensures
            r@ == "a design import is already active"@,
    {
        "a design import is already active"
    }
}

/// Whether an import runs and whether the user cancelled it. At most one
/// import runs at a time; the runner reports progress through `import_step`
/// with `is_cancelled` and calls `finish` when the import ends.
#[derive(Clone, Copy, Debug, PartialEq, Eq, Structural)]
pub struct DesignImportWorkflow {
    active: bool,
    cancelled: bool,
}

impl DesignImportWorkflow {
    /// Whether an import runs.
    pub closed spec fn active(&self) -> bool {
        self.active
    }

    /// Whether the running (or last) import was cancelled.
    pub closed spec fn cancel_requested(&self) -> bool {
        self.cancelled
    }

    /// No import running.
    pub fn new() -> (w: DesignImportWorkflow)
        ensures
            !w.active(),
            !w.cancel_requested(),
    {
        DesignImportWorkflow { active: false, cancelled: false }
    }

    /// Whether an import runs.
    pub fn is_active(&self) -> (r: bool)
        ensures
            r == self.active(),
    {
        self.active
    }

    /// Whether the user cancelled the import.
    pub fn is_cancelled(&self) -> (r: bool)
        ensures
            r == self.cancel_requested(),
    {
        self.cancelled
    }

    /// Starts an import unless one is running; a new import is not cancelled.
    pub fn start(&mut self) -> (r: Result<(), WorkflowError>)
        ensures
            old(self).active() ==> r == Err::<(), WorkflowError>(WorkflowError::AlreadyActive) && *final(self) == *old(self),
            !old(self).active() ==> r is Ok && final(self).active() && !final(self).cancel_requested(),
    {
        if self.active {
            return Err(WorkflowError::AlreadyActive);
        }
        self.active = true;
        self.cancelled = false;
        Ok(())
    }

    /// Cancels the running import; `false`, with nothing changed, when none
    /// runs. The caller then cancels the agent's analysis, if it started.
    pub fn cancel(&mut self) -> (r: bool)
        ensures
            r == old(self).active(),
            final(self).active() == old(self).active(),
            final(self).cancel_requested() == (old(self).cancel_requested() || old(self).active()),
    {
        if !self.active {
            return false;
        }
        self.cancelled = true;
        true
    }

    /// The import ended, however it ended.
    pub fn finish(&mut self)
        ensures
            !final(self).active(),
            final(self).cancel_requested() == old(self).cancel_requested(),
    {
        self.active = false;
    }
}

} // verus!
