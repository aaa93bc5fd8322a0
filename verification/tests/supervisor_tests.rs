use uefi_run::exit_code_or_default;
use uefi_run::Action;
use uefi_run::Event;
use uefi_run::supervisor::KillOutcome;
use uefi_run::Phase;
use uefi_run::Supervisor;
use uefi_run::SupervisorError;

/// Drives the machine over a fixed script of poll outcomes and a kill
/// outcome, and reports the protocol's result together with how many
/// termination requests were issued.
fn drive(
    polls: &[(Option<i32>, bool)],
    kill: KillOutcome,
) -> (Option<Result<i32, SupervisorError>>, usize) {
    let mut sup = Supervisor::new();
    let mut polls = polls.iter();
    let mut terminations = 0;
    loop {
        match sup.next_action() {
            Action::Poll { timeout_ms: _ } => {
                let (exit, cancelled) = *polls.next().expect("script exhausted");
                sup.observe(Event::Polled { exit, cancelled });
            }
            Action::Terminate => {
                terminations += 1;
                sup.observe(Event::Terminated { outcome: kill });
            }
            Action::Stop => return (sup.outcome(), terminations),
        }
    }
}

#[test]
fn exit_in_first_poll_window_never_terminates() {
    // Scenario: the process exits with code 3 inside the first poll call.
    let (outcome, terminations) = drive(&[(Some(3), false)], KillOutcome::Delivered);
    assert_eq!(outcome, Some(Ok(3)));
    assert_eq!(terminations, 0);
}

#[test]
fn exit_beats_simultaneous_cancellation() {
    let (outcome, terminations) = drive(&[(None, false), (Some(7), true)], KillOutcome::Delivered);
    assert_eq!(outcome, Some(Ok(7)));
    assert_eq!(terminations, 0);
}

#[test]
fn cancellation_with_graceful_exit_never_terminates() {
    // Cancellation observed, but the process leaves within the grace period.
    let (outcome, terminations) = drive(&[(None, true), (Some(0), true)], KillOutcome::Delivered);
    assert_eq!(outcome, Some(Ok(0)));
    assert_eq!(terminations, 0);
}

#[test]
fn ignored_grace_periods_terminate_exactly_once() {
    // Cancellation signalled, both grace periods ignored: one termination
    // request, then the final poll's code is authoritative.
    let polls = [(None, false), (None, false), (None, true), (None, true), (Some(137), true)];
    let (outcome, terminations) = drive(&polls, KillOutcome::Delivered);
    assert_eq!(outcome, Some(Ok(137)));
    assert_eq!(terminations, 1);
}

#[test]
fn failed_termination_is_fatal() {
    let polls = [(None, true), (None, true)];
    let (outcome, terminations) = drive(&polls, KillOutcome::Refused);
    assert_eq!(outcome, Some(Err(SupervisorError::Termination)));
    assert_eq!(terminations, 1);
}

#[test]
fn no_exit_after_final_wait_is_surfaced() {
    let polls = [(None, true), (None, true), (None, true)];
    let (outcome, terminations) = drive(&polls, KillOutcome::Delivered);
    assert_eq!(outcome, Some(Err(SupervisorError::NoExit)));
    assert_eq!(terminations, 1);
}

#[test]
fn wait_poll_is_bounded_and_grace_polls_are_longer() {
    let mut sup = Supervisor::new();
    assert_eq!(sup.next_action(), Action::Poll { timeout_ms: 500 });
    sup.observe(Event::Polled { exit: None, cancelled: false });
    assert_eq!(sup.next_action(), Action::Poll { timeout_ms: 500 });
    sup.observe(Event::Polled { exit: None, cancelled: true });
    assert_eq!(sup.phase(), Phase::Grace);
    assert_eq!(sup.next_action(), Action::Poll { timeout_ms: 1000 });
    sup.observe(Event::Polled { exit: None, cancelled: true });
    assert_eq!(sup.phase(), Phase::Kill);
    assert_eq!(sup.next_action(), Action::Terminate);
    sup.observe(Event::Terminated { outcome: KillOutcome::AlreadyGone });
    assert_eq!(sup.phase(), Phase::FinalWait);
    assert_eq!(sup.next_action(), Action::Poll { timeout_ms: 1000 });
    sup.observe(Event::Polled { exit: Some(0), cancelled: true });
    assert_eq!(sup.phase(), Phase::Exited(0));
    assert_eq!(sup.outcome(), Some(Ok(0)));
}

#[test]
fn running_machine_has_no_outcome() {
    let sup = Supervisor::new();
    assert_eq!(sup.outcome(), None);
    assert_eq!(sup.phase(), Phase::Waiting);
}

#[test]
fn missing_status_code_defaults_to_zero() {
    assert_eq!(exit_code_or_default(None, true), Some(0));
    assert_eq!(exit_code_or_default(Some(3), true), Some(3));
    assert_eq!(exit_code_or_default(None, false), None);
}
