//! The process supervisor's escalation protocol, modelled as a state machine.
//!
//! The supervisor drives an already-spawned virtual-machine process through
//! four phases: a bounded wait loop, a grace period once cancellation is
//! observed, a forced termination, and a final authoritative wait.  The
//! machine itself is pure: it consumes events (the outcome of a bounded poll,
//! or the outcome of a termination request) and yields the next action to
//! perform.  The caller performs the actions (which block and do I/O) and
//! feeds the outcomes back in.

use vstd::prelude::*;

verus! {

/// How long a single poll in the wait phase may block, in milliseconds.
/// Bounds the latency of honoring a cancellation request without busy-spinning.
pub const WAIT_POLL_MS: u64 = 500;

/// How long each of the two grace-period polls may block, in milliseconds.
pub const GRACE_POLL_MS: u64 = 1000;

/// A fatal supervision failure.
#[derive(Clone, Copy, Debug, PartialEq, Eq, Structural)]
pub enum SupervisorError {
    /// Forced termination failed for a reason other than "already exited".
    Termination,
    /// The process produced no exit code even after forced termination and
    /// the final wait: an internal-invariant violation, surfaced, never
    /// silently ignored.
    NoExit,
}

/// The phase the supervision protocol is in.
///
/// Phases only ever move forward; an exited process is never resurrected.
#[derive(Clone, Copy, Debug, PartialEq, Eq, Structural)]
pub enum Phase {
    /// Polling with a short timeout until exit or cancellation.
    Waiting,
    /// Cancellation was observed; one grace-period poll before escalating.
    Grace,
    /// Both waits expired; forced termination is due.
    Kill,
    /// Termination was requested; one final authoritative poll.
    FinalWait,
    /// Terminal: the process exited with this code.
    Exited(i32),
    /// Terminal: supervision failed fatally.
    Failed(SupervisorError),
}

/// What the caller must do next.
#[derive(Clone, Copy, Debug, PartialEq, Eq, Structural)]
pub enum Action {
    /// Block up to `timeout_ms` milliseconds waiting for the process to exit.
    Poll { timeout_ms: u64 },
    /// Request forced termination of the process.
    Terminate,
    /// The protocol is over; stop driving the machine.
    Stop,
}

/// How a termination request came back.
#[derive(Clone, Copy, Debug, PartialEq, Eq, Structural)]
pub enum KillOutcome {
    /// The request was delivered.
    Delivered,
    /// The process no longer exists.  Termination is idempotent, so this
    /// counts as success, not as a failure.
    AlreadyGone,
    /// The request failed for any other reason: fatal.
    Refused,
}

/// The outcome of the action the caller just performed.
#[derive(Clone, Copy, Debug, PartialEq, Eq, Structural)]
pub enum Event {
    /// A poll returned: `exit` is the exit code if the process has exited,
    /// and `cancelled` is the cancellation flag as read after the poll.
    Polled { exit: Option<i32>, cancelled: bool },
    /// A termination request returned with this outcome.
    Terminated { outcome: KillOutcome },
}

/// Whether a phase is terminal: once reached, the machine never leaves it.
pub open spec fn is_terminal(p: Phase) -> bool {
    p is Exited || p is Failed
}

/// The action owed in each phase.
pub open spec fn action_in(p: Phase) -> Action {
    match p {
        Phase::Waiting => Action::Poll { timeout_ms: WAIT_POLL_MS },
        Phase::Grace => Action::Poll { timeout_ms: GRACE_POLL_MS },
        Phase::Kill => Action::Terminate,
        Phase::FinalWait => Action::Poll { timeout_ms: GRACE_POLL_MS },
        Phase::Exited(_) => Action::Stop,
        Phase::Failed(_) => Action::Stop,
    }
}

/// Whether `ev` is a possible outcome of the action owed in phase `p`.
pub open spec fn event_fits(p: Phase, ev: Event) -> bool {
    match action_in(p) {
        Action::Poll { .. } => ev is Polled,
        Action::Terminate => ev is Terminated,
        Action::Stop => false,
    }
}

/// The transition relation of the escalation protocol.
///
/// - In `Waiting`, an exit ends the protocol with that code; a timeout with
///   the cancellation flag clear polls again; a timeout with the flag set
///   moves to the grace period.
/// - In `Grace`, an exit ends the protocol; a timeout escalates to `Kill`.
/// - In `Kill`, a successful (or "already gone") termination moves to the
///   final wait; any other failure is fatal.
/// - In `FinalWait`, an exit ends the protocol; a timeout is the fatal
///   invariant violation `NoExit`.
pub open spec fn next_phase(p: Phase, ev: Event) -> Phase {
    match (p, ev) {
        (Phase::Waiting, Event::Polled { exit, cancelled }) => match exit {
            Some(code) => Phase::Exited(code),
            None => if cancelled {
                Phase::Grace
            } else {
                Phase::Waiting
            },
        },
        (Phase::Grace, Event::Polled { exit, .. }) => match exit {
            Some(code) => Phase::Exited(code),
            None => Phase::Kill,
        },
        (Phase::Kill, Event::Terminated { outcome }) => match outcome {
            KillOutcome::Delivered => Phase::FinalWait,
            KillOutcome::AlreadyGone => Phase::FinalWait,
            KillOutcome::Refused => Phase::Failed(SupervisorError::Termination),
        },
        (Phase::FinalWait, Event::Polled { exit, .. }) => match exit {
            Some(code) => Phase::Exited(code),
            None => Phase::Failed(SupervisorError::NoExit),
        },
        (_, _) => p,
    }
}

/// The escalation protocol as a value: feed it events, perform the actions.
pub struct Supervisor {
    pub phase: Phase,
}

impl Supervisor {
    /// A fresh supervisor for a process that was just spawned.
    pub fn new() -> (s: Supervisor)
        ensures
            s.phase == Phase::Waiting,
    {
        Supervisor { phase: Phase::Waiting }
    }

    /// The phase the machine is currently in.
    pub fn phase(&self) -> (p: Phase)
        ensures
            p == self.phase,
    {
        self.phase
    }

    /// The action the caller must perform next.
    pub fn next_action(&self) -> (a: Action)
        ensures
            a == action_in(self.phase),
    {
        match self.phase {
            Phase::Waiting => Action::Poll { timeout_ms: WAIT_POLL_MS },
            Phase::Grace => Action::Poll { timeout_ms: GRACE_POLL_MS },
            Phase::Kill => Action::Terminate,
            Phase::FinalWait => Action::Poll { timeout_ms: GRACE_POLL_MS },
            Phase::Exited(_) => Action::Stop,
            Phase::Failed(_) => Action::Stop,
        }
    }

    /// Feed back the outcome of the action that was just performed.
    pub fn observe(&mut self, ev: Event)
        requires
            event_fits(old(self).phase, ev),
        ensures
            final(self).phase == next_phase(old(self).phase, ev),
    {
        let p = self.phase;
        self.phase = match (p, ev) {
            (Phase::Waiting, Event::Polled { exit, cancelled }) => match exit {
                Some(code) => Phase::Exited(code),
                None => if cancelled {
                    Phase::Grace
                } else {
                    Phase::Waiting
                },
            },
            (Phase::Grace, Event::Polled { exit, .. }) => match exit {
                Some(code) => Phase::Exited(code),
                None => Phase::Kill,
            },
            (Phase::Kill, Event::Terminated { outcome }) => match outcome {
                KillOutcome::Delivered => Phase::FinalWait,
                KillOutcome::AlreadyGone => Phase::FinalWait,
                KillOutcome::Refused => Phase::Failed(SupervisorError::Termination),
            },
            (Phase::FinalWait, Event::Polled { exit, .. }) => match exit {
                Some(code) => Phase::Exited(code),
                None => Phase::Failed(SupervisorError::NoExit),
            },
            (_, _) => p,
        };
    }

    /// The protocol's result, once the machine has reached a terminal phase.
    pub fn outcome(&self) -> (r: Option<Result<i32, SupervisorError>>)
        ensures
            r == match self.phase {
                Phase::Exited(code) => Some(Result::<i32, SupervisorError>::Ok(code)),
                Phase::Failed(e) => Some(Result::<i32, SupervisorError>::Err(e)),
                _ => None::<Result<i32, SupervisorError>>,
            },
    {
        match self.phase {
            Phase::Exited(code) => Some(Ok(code)),
            Phase::Failed(e) => Some(Err(e)),
            _ => None,
        }
    }
}

/// The phase reached after consuming the events of `evs` in order, starting
/// from `p`.
pub open spec fn run_phases(p: Phase, evs: Seq<Event>) -> Phase
    decreases evs.len(),
{
    if evs.len() == 0 {
        p
    } else {
        run_phases(next_phase(p, evs[0]), evs.skip(1))
    }
}

/// How many termination requests are issued while consuming the events of
/// `evs` in order, starting from `p`: a termination request is performed
/// exactly when its outcome — a `Terminated` event — is consumed in the
/// `Kill` phase.
pub open spec fn terminations_in(p: Phase, evs: Seq<Event>) -> nat
    decreases evs.len(),
{
    if evs.len() == 0 {
        0
    } else {
        (if p is Kill && evs[0] is Terminated {
            1nat
        } else {
            0nat
        }) + terminations_in(next_phase(p, evs[0]), evs.skip(1))
    }
}

/// How far along the escalation a phase is.  Transitions never move backward.
pub open spec fn phase_rank(p: Phase) -> nat {
    match p {
        Phase::Waiting => 0,
        Phase::Grace => 1,
        Phase::Kill => 2,
        Phase::FinalWait => 3,
        Phase::Exited(_) => 4,
        Phase::Failed(_) => 4,
    }
}

/// Law: the protocol only ever escalates.  A single transition never lowers
/// the rank of the phase, and leaving `Kill` always reaches rank 3 or more,
/// so `Kill` is never re-entered.
pub proof fn lemma_phase_monotone(p: Phase, ev: Event)
    ensures
        phase_rank(next_phase(p, ev)) >= phase_rank(p),
        p is Kill && ev is Terminated ==> phase_rank(next_phase(p, ev)) >= 3,
{
}

/// Law: a terminal phase absorbs every event; the protocol never resurrects
/// an exited process nor forgets a failure.
pub proof fn lemma_terminal_absorbs(p: Phase, evs: Seq<Event>)
    requires
        is_terminal(p),
    ensures
        run_phases(p, evs) == p,
        terminations_in(p, evs) == 0,
    decreases evs.len(),
{
    if evs.len() > 0 {
        lemma_terminal_absorbs(p, evs.skip(1));
    }
}

/// Once the escalation has passed the `Kill` phase, no further termination
/// request is ever issued.
pub proof fn lemma_no_terminations_past_kill(p: Phase, evs: Seq<Event>)
    requires
        phase_rank(p) >= 3,
    ensures
        terminations_in(p, evs) == 0,
    decreases evs.len(),
{
    if evs.len() > 0 {
        lemma_phase_monotone(p, evs[0]);
        lemma_no_terminations_past_kill(next_phase(p, evs[0]), evs.skip(1));
    }
}

/// Law: along any run of the protocol, whatever the process and the
/// cancellation flag do, termination is requested at most once.
pub proof fn lemma_terminate_at_most_once(p: Phase, evs: Seq<Event>)
    ensures
        terminations_in(p, evs) <= 1,
    decreases evs.len(),
{
    if evs.len() > 0 {
        let q = next_phase(p, evs[0]);
        if p is Kill && evs[0] is Terminated {
            lemma_phase_monotone(p, evs[0]);
            lemma_no_terminations_past_kill(q, evs.skip(1));
        } else {
            lemma_terminate_at_most_once(q, evs.skip(1));
        }
    }
}

/// Consuming a run one event at a time.
proof fn lemma_run_cons(p: Phase, e: Event, rest: Seq<Event>)
    ensures
        run_phases(p, seq![e] + rest) == run_phases(next_phase(p, e), rest),
        terminations_in(p, seq![e] + rest) == (if p is Kill && e is Terminated {
            1nat
        } else {
            0nat
        }) + terminations_in(next_phase(p, e), rest),
{
    let evs = seq![e] + rest;
    assert(evs[0] == e);
    assert(evs.skip(1) =~= rest);
}

/// Law: if the process exits within the first poll window, the escalation
/// ends immediately with that exit code and termination is never requested,
/// whatever would have happened afterwards.
pub proof fn lemma_exit_in_first_poll(code: i32, cancelled: bool, rest: Seq<Event>)
    ensures
        run_phases(
            Phase::Waiting,
            seq![Event::Polled { exit: Some(code), cancelled }] + rest,
        ) == Phase::Exited(code),
        terminations_in(
            Phase::Waiting,
            seq![Event::Polled { exit: Some(code), cancelled }] + rest,
        ) == 0,
{
    let e = Event::Polled { exit: Some(code), cancelled };
    lemma_run_cons(Phase::Waiting, e, rest);
    lemma_terminal_absorbs(Phase::Exited(code), rest);
}

/// The events of a run in which the process stays alive and uncancelled for
/// `quiet` polls, cancellation is then observed, the process ignores both
/// grace periods, termination is delivered (or finds the process already
/// gone), and the final poll reports `exit`.
pub open spec fn ignored_cancellation_run(
    quiet: nat,
    flag: bool,
    kill: KillOutcome,
    exit: Option<i32>,
) -> Seq<Event> {
    Seq::new(quiet, |i: int| Event::Polled { exit: None, cancelled: false }) + seq![
        Event::Polled { exit: None, cancelled: true },
        Event::Polled { exit: None, cancelled: flag },
        Event::Terminated { outcome: kill },
        Event::Polled { exit, cancelled: flag },
    ]
}

/// Law: if cancellation is signalled and the process ignores both grace
/// periods, termination is requested exactly once, and the run ends either
/// with the exit code the final authoritative poll reports or, if even that
/// poll reports none, with the explicit `NoExit` failure — never silently.
pub proof fn lemma_cancelled_escalates(quiet: nat, flag: bool, kill: KillOutcome, exit: Option<i32>)
    requires
        kill !== KillOutcome::Refused,
    ensures
        terminations_in(Phase::Waiting, ignored_cancellation_run(quiet, flag, kill, exit)) == 1,
        run_phases(Phase::Waiting, ignored_cancellation_run(quiet, flag, kill, exit)) == match exit {
            Some(code) => Phase::Exited(code),
            None => Phase::Failed(SupervisorError::NoExit),
        },
    decreases quiet,
{
    let evs = ignored_cancellation_run(quiet, flag, kill, exit);
    if quiet > 0 {
        let idle = Event::Polled { exit: None, cancelled: false };
        assert(evs =~= seq![idle] + ignored_cancellation_run((quiet - 1) as nat, flag, kill, exit));
        lemma_run_cons(Phase::Waiting, idle, ignored_cancellation_run((quiet - 1) as nat, flag, kill, exit));
        lemma_cancelled_escalates((quiet - 1) as nat, flag, kill, exit);
    } else {
        let e1 = Event::Polled { exit: None, cancelled: true };
        let e2 = Event::Polled { exit: None, cancelled: flag };
        let e3 = Event::Terminated { outcome: kill };
        let e4 = Event::Polled { exit, cancelled: flag };
        assert(evs =~= seq![e1] + (seq![e2] + (seq![e3] + (seq![e4] + Seq::<Event>::empty()))));
        lemma_run_cons(Phase::Waiting, e1, seq![e2] + (seq![e3] + (seq![e4] + Seq::<Event>::empty())));
        lemma_run_cons(Phase::Grace, e2, seq![e3] + (seq![e4] + Seq::<Event>::empty()));
        lemma_run_cons(Phase::Kill, e3, seq![e4] + Seq::<Event>::empty());
        lemma_run_cons(Phase::FinalWait, e4, Seq::<Event>::empty());
    }
}

/// The exit code a poll reports: the status' own code, or 0 when the
/// underlying exit status carries none (for example when the process was
/// itself ended by a signal).
pub fn exit_code_or_default(code: Option<i32>, exited: bool) -> (r: Option<i32>)
    ensures
        r == if exited {
            Some(
                match code {
                    Some(c) => c,
                    None => 0,
                },
            )
        } else {
            None::<i32>
        },
{
    if exited {
        match code {
            Some(c) => Some(c),
            None => Some(0),
        }
    } else {
        None
    }
}

} // verus!
