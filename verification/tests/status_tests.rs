use slide_builder::herdr_status::{DialogKind, Status, StatusEvent, StatusInputs};
use slide_builder::integrations::herdr::HerdrState;

fn idle_inputs() -> StatusInputs {
    StatusInputs {
        dialog: DialogKind::Closed,
        fullscreen: false,
        import_running: false,
        run_active: false,
        export_active: false,
    }
}

fn apply(status: &mut Status, inputs: StatusInputs, event: StatusEvent) -> (HerdrState, &'static str) {
    status.observe(event);
    status.current(inputs)
}

#[test]
fn prompt_approval_and_completion_follow_app_input_ownership() {
    let mut inputs = idle_inputs();
    let mut status = Status::new();
    assert_eq!(status.current(inputs), (HerdrState::Idle, "Ready for a prompt"));
    // Sending a prompt starts a run.
    inputs.run_active = true;
    assert_eq!(status.current(inputs), (HerdrState::Working, "Editing deck"));
    // A tool asks for approval while the run is active.
    inputs.dialog = DialogKind::Approval;
    assert_eq!(
        apply(&mut status, inputs, StatusEvent::Other),
        (HerdrState::Blocked, "Waiting for tool approval")
    );
    // Approving closes the dialog; the run goes on.
    inputs.dialog = DialogKind::Closed;
    assert_eq!(status.current(inputs), (HerdrState::Working, "Editing deck"));
    inputs.run_active = false;
    assert_eq!(
        apply(&mut status, inputs, StatusEvent::RunFinished),
        (HerdrState::Idle, "Deck editing finished")
    );
    // A preview refresh is no activity of the composer.
    assert_eq!(
        apply(&mut status, inputs, StatusEvent::Other),
        (HerdrState::Idle, "Deck editing finished")
    );
}

#[test]
fn failures_and_cancellation_return_to_ready_without_leaking_details() {
    for (event, message) in [
        (StatusEvent::RunFailed, "Deck editing failed; see conversation"),
        (StatusEvent::RunCancelled, "Deck editing cancelled"),
    ] {
        let mut inputs = idle_inputs();
        let mut status = Status::new();
        assert_eq!(apply(&mut status, inputs, event), (HerdrState::Idle, message));
        inputs.run_active = true;
        assert_eq!(status.current(inputs), (HerdrState::Working, "Editing deck"));
    }
}

#[test]
fn export_import_and_dialogs_take_precedence_over_idle() {
    let mut inputs = idle_inputs();
    inputs.export_active = true;
    let mut status = Status::new();
    assert_eq!(status.current(inputs), (HerdrState::Working, "Exporting PDF"));
    assert_eq!(
        apply(&mut status, inputs, StatusEvent::RunFinished),
        (HerdrState::Working, "Exporting PDF")
    );
    inputs.export_active = false;
    assert_eq!(
        apply(&mut status, inputs, StatusEvent::ExportSucceeded),
        (HerdrState::Idle, "PDF exported")
    );
    inputs.import_running = true;
    assert_eq!(
        apply(&mut status, inputs, StatusEvent::Other),
        (HerdrState::Working, "Importing design")
    );
    inputs.import_running = false;
    assert_eq!(
        apply(&mut status, inputs, StatusEvent::ImportCancelled),
        (HerdrState::Idle, "Design import cancelled")
    );
    inputs.dialog = DialogKind::Other;
    assert_eq!(status.current(inputs).0, HerdrState::Blocked);
    inputs.dialog = DialogKind::Closed;
    assert_eq!(status.current(inputs).0, HerdrState::Idle);
    inputs.fullscreen = true;
    assert_eq!(status.current(inputs).0, HerdrState::Blocked);
}

#[test]
fn questionnaire_blocks_and_running_work_clears_the_outcome() {
    let mut inputs = idle_inputs();
    let mut status = Status::new();
    status.observe(StatusEvent::ImportFailed);
    inputs.dialog = DialogKind::Questionnaire;
    assert_eq!(status.current(inputs), (HerdrState::Blocked, "Waiting for an answer"));
    inputs.dialog = DialogKind::Closed;
    assert_eq!(status.current(inputs), (HerdrState::Idle, "Design import failed; see conversation"));
    inputs.run_active = true;
    assert_eq!(status.current(inputs), (HerdrState::Working, "Editing deck"));
    inputs.run_active = false;
    assert_eq!(status.current(inputs), (HerdrState::Idle, "Ready for a prompt"));
}
