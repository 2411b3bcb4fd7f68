//! The supervised task loop as a state machine: setup strictly precedes the
//! first iteration; each iteration signals liveness, then runs one analyzer
//! invocation to completion; any exit of the analyzer is a normal outcome and
//! the loop repeats; only an expansion error, a process-start failure or a
//! setup failure stops the task. The surrounding runtime performs the outside
//! work (directory pulls, the liveness signal, the process spawn) and feeds
//! each outcome back as an event.

use vstd::prelude::*;

use crate::config::Config;
use crate::expand::ExpandError;

verus! {

/// Why a task stopped. There is no normal terminal success state: the loop
/// runs until externally stopped.
#[derive(Debug, Clone)]
pub enum TaskError {
    /// A directory pull or executable-marking failure during startup,
    /// with the underlying cause.
    Setup(String),
    /// A required placeholder had no binding at evaluation time. A broken
    /// template would fail identically on every future iteration, so the
    /// task ends rather than retry.
    Expansion(ExpandError),
    /// The analyzer subprocess could not be created; carries the resolved
    /// executable path for diagnosis.
    ProcessStart(String),
}

/// How one analyzer run ended. The loop inspects neither the code nor the
/// kind: every outcome of a started process is normal.
#[derive(Debug, Clone)]
pub enum ExitOutcome {
    Exited(i32),
    Killed,
}

/// What the outside work reported back for one step of the loop.
#[derive(Debug, Clone)]
pub enum TaskEvent {
    SetupOk,
    SetupFailed(String),
    AliveSent,
    Finished(ExitOutcome),
    StartFailed(String),
    ExpandFailed(ExpandError),
}

/// Where the loop stands.
#[derive(Debug, Clone)]
pub enum TaskState {
    /// Pulling directories; no analysis has started.
    SettingUp,
    /// About to signal liveness for the next iteration.
    Beating,
    /// About to expand and run one analyzer invocation.
    Running,
    /// Terminated fatally.
    Stopped(TaskError),
}

/// What the surrounding runtime must do next in a given state.
#[derive(Clone, Copy, PartialEq, Eq, Structural, Debug)]
pub enum TaskAction {
    /// Run the setup sequence (see `setup_actions`) and report the outcome.
    PerformSetup,
    /// Emit one liveness signal.
    SignalAlive,
    /// Build the invocation for this iteration, run it to completion, and
    /// report how it ended.
    RunAnalyzer,
    /// Surface the stopping error; the task is over.
    Halt,
}

/// One step of the setup sequence.
#[derive(Clone, Copy, PartialEq, Eq, Structural, Debug)]
pub enum SetupAction {
    PullCrashes,
    PullTools,
    MarkToolsExecutable,
}

/// The transition relation of the loop. An event that cannot arise in the
/// given state leaves the state unchanged; a stopped task stays stopped.
pub open spec fn advance_spec(s: TaskState, e: TaskEvent) -> TaskState {
    match (s, e) {
        (TaskState::SettingUp, TaskEvent::SetupOk) => TaskState::Beating,
        (TaskState::SettingUp, TaskEvent::SetupFailed(msg)) => TaskState::Stopped(
            TaskError::Setup(msg),
        ),
        (TaskState::Beating, TaskEvent::AliveSent) => TaskState::Running,
        (TaskState::Running, TaskEvent::Finished(_)) => TaskState::Beating,
        (TaskState::Running, TaskEvent::StartFailed(path)) => TaskState::Stopped(
            TaskError::ProcessStart(path),
        ),
        (TaskState::Running, TaskEvent::ExpandFailed(err)) => TaskState::Stopped(
            TaskError::Expansion(err),
        ),
        (other, _) => other,
    }
}

/// The action owed in each state.
pub open spec fn action_spec(s: TaskState) -> TaskAction {
    match s {
        TaskState::SettingUp => TaskAction::PerformSetup,
        TaskState::Beating => TaskAction::SignalAlive,
        TaskState::Running => TaskAction::RunAnalyzer,
        TaskState::Stopped(_) => TaskAction::Halt,
    }
}

/// The state a task starts in.
pub fn initial_state() -> (s: TaskState)
    ensures
        s == TaskState::SettingUp,
{
    TaskState::SettingUp
}

/// Advances the loop by one observed event.
pub fn advance(s: TaskState, e: TaskEvent) -> (r: TaskState)
    ensures
        r == advance_spec(s, e),
{
    match (s, e) {
        (TaskState::SettingUp, TaskEvent::SetupOk) => TaskState::Beating,
        (TaskState::SettingUp, TaskEvent::SetupFailed(msg)) => TaskState::Stopped(
            TaskError::Setup(msg),
        ),
        (TaskState::Beating, TaskEvent::AliveSent) => TaskState::Running,
        (TaskState::Running, TaskEvent::Finished(_)) => TaskState::Beating,
        (TaskState::Running, TaskEvent::StartFailed(path)) => TaskState::Stopped(
            TaskError::ProcessStart(path),
        ),
        (TaskState::Running, TaskEvent::ExpandFailed(err)) => TaskState::Stopped(
            TaskError::Expansion(err),
        ),
        (other, _) => other,
    }
}

/// The action owed in the given state.
pub fn action_of(s: &TaskState) -> (a: TaskAction)
    ensures
        a == action_spec(*s),
{
    match s {
        TaskState::SettingUp => TaskAction::PerformSetup,
        TaskState::Beating => TaskAction::SignalAlive,
        TaskState::Running => TaskAction::RunAnalyzer,
        TaskState::Stopped(_) => TaskAction::Halt,
    }
}

/// The setup sequence of a configuration, in order.
pub open spec fn setup_actions_spec(c: Config) -> Seq<SetupAction> {
    if c.tools is Some {
        seq![SetupAction::PullCrashes, SetupAction::PullTools, SetupAction::MarkToolsExecutable]
    } else {
        seq![SetupAction::PullCrashes]
    }
}

/// The setup steps a task performs before its first iteration, in order:
/// pull the crashes directory; then, exactly when a tools directory is
/// configured, pull it and mark its contents executable.
pub fn setup_actions(c: &Config) -> (v: Vec<SetupAction>)
    ensures
        v@ == setup_actions_spec(*c),
{
    let mut v: Vec<SetupAction> = Vec::new();
    v.push(SetupAction::PullCrashes);
    if c.tools.is_some() {
        v.push(SetupAction::PullTools);
        v.push(SetupAction::MarkToolsExecutable);
    }
    proof {
        assert(v@ =~= setup_actions_spec(*c));
    }
    v
}

/// The state after the first `i` events, starting from `SettingUp`.
pub open spec fn state_at(es: Seq<TaskEvent>, i: int) -> TaskState
    decreases i,
{
    if i <= 0 {
        TaskState::SettingUp
    } else {
        advance_spec(state_at(es, i - 1), es[i - 1])
    }
}

/// Whether an event can arise in a state: the runtime reports setup outcomes
/// while setting up, the liveness signal while beating, and run outcomes
/// while running; a stopped task does no further outside work.
pub open spec fn event_fits(s: TaskState, e: TaskEvent) -> bool {
    match (s, e) {
        (TaskState::SettingUp, TaskEvent::SetupOk) => true,
        (TaskState::SettingUp, TaskEvent::SetupFailed(_)) => true,
        (TaskState::Beating, TaskEvent::AliveSent) => true,
        (TaskState::Running, TaskEvent::Finished(_)) => true,
        (TaskState::Running, TaskEvent::StartFailed(_)) => true,
        (TaskState::Running, TaskEvent::ExpandFailed(_)) => true,
        _ => false,
    }
}

/// An event history the runtime can actually produce: each event fits the
/// state the loop was in when it arose.
pub open spec fn events_fit(es: Seq<TaskEvent>) -> bool {
    forall|i: int| 0 <= i < es.len() ==> #[trigger] event_fits(state_at(es, i), es[i])
}

/// Setup completed at step `j`.
pub open spec fn setup_completed_at(es: Seq<TaskEvent>, j: int) -> bool {
    es[j] == TaskEvent::SetupOk && state_at(es, j) == TaskState::SettingUp
}

/// Any exit of the analyzer, whatever its code and whether it was killed, is
/// tolerated: the loop proceeds to the next iteration.
pub proof fn lemma_any_exit_tolerated(o: ExitOutcome)
    ensures
        advance_spec(TaskState::Running, TaskEvent::Finished(o)) == TaskState::Beating,
{
}

/// The next state never depends on which exit outcome the analyzer produced.
pub proof fn lemma_exit_code_ignored(s: TaskState, o1: ExitOutcome, o2: ExitOutcome)
    ensures
        advance_spec(s, TaskEvent::Finished(o1)) == advance_spec(s, TaskEvent::Finished(o2)),
{
}

/// A process-start failure is fatal: the loop stops, carrying the resolved
/// executable path, rather than skipping the iteration.
pub proof fn lemma_start_failure_fatal(path: String)
    ensures
        advance_spec(TaskState::Running, TaskEvent::StartFailed(path)) == TaskState::Stopped(
            TaskError::ProcessStart(path),
        ),
{
}

/// A stopped task stays stopped: no event resumes it, so nothing more is
/// signalled or run after a fatal error.
pub proof fn lemma_stopped_absorbing(err: TaskError, e: TaskEvent)
    ensures
        advance_spec(TaskState::Stopped(err), e) == TaskState::Stopped(err),
{
}

/// While the loop is still setting up, it has been setting up the whole time:
/// no state before it is anything else.
pub proof fn lemma_setup_is_prefix(es: Seq<TaskEvent>, i: int, k: int)
    requires
        0 <= k <= i,
        state_at(es, i) == TaskState::SettingUp,
    ensures
        state_at(es, k) == TaskState::SettingUp,
    decreases i,
{
    if k < i {
        assert(state_at(es, i - 1) is SettingUp);
        lemma_setup_is_prefix(es, i - 1, k);
    }
}

/// Within an iteration, liveness signaling precedes the spawn: the loop is
/// `Running` only immediately after the liveness signal was sent while
/// `Beating`.
pub proof fn lemma_alive_precedes_run(es: Seq<TaskEvent>, i: int)
    requires
        events_fit(es),
        0 <= i <= es.len(),
        state_at(es, i) == TaskState::Running,
    ensures
        i >= 1,
        state_at(es, i - 1) == TaskState::Beating,
        es[i - 1] == TaskEvent::AliveSent,
{
    assert(event_fits(state_at(es, i - 1), es[i - 1]));
}

/// A spawn's completion strictly precedes the next liveness signal: the loop
/// beats only at the start, right after setup, or right after one analyzer
/// run finished.
pub proof fn lemma_beat_follows_run(es: Seq<TaskEvent>, i: int)
    requires
        events_fit(es),
        0 < i <= es.len(),
        state_at(es, i) == TaskState::Beating,
    ensures
        es[i - 1] == TaskEvent::SetupOk || es[i - 1] is Finished,
        es[i - 1] is Finished ==> state_at(es, i - 1) == TaskState::Running,
        es[i - 1] == TaskEvent::SetupOk ==> state_at(es, i - 1) == TaskState::SettingUp,
{
    assert(event_fits(state_at(es, i - 1), es[i - 1]));
}

/// Setup strictly precedes every iteration: whenever the loop beats or runs,
/// there was an earlier step at which setup completed, and the loop had done
/// nothing but set up until then.
pub proof fn lemma_setup_precedes_run(es: Seq<TaskEvent>, i: int)
    requires
        events_fit(es),
        0 <= i <= es.len(),
        state_at(es, i) == TaskState::Beating || state_at(es, i) == TaskState::Running,
    ensures
        exists|j: int| 0 <= j < i && #[trigger] setup_completed_at(es, j),
    decreases i,
{
    let sp = state_at(es, i - 1);
    assert(event_fits(sp, es[i - 1]));
    if sp == TaskState::SettingUp {
        assert(setup_completed_at(es, i - 1));
    } else {
        lemma_setup_precedes_run(es, i - 1);
        let j0 = choose|j: int| 0 <= j < i - 1 && #[trigger] setup_completed_at(es, j);
        assert(setup_completed_at(es, j0));
    }
}

/// Iteration independence: two event histories that differ only in how each
/// analyzer run ended drive the loop through the same states, so no
/// iteration's behaviour depends on an earlier iteration's exit code.
pub proof fn lemma_iterations_independent(es1: Seq<TaskEvent>, es2: Seq<TaskEvent>, i: int)
    requires
        es1.len() == es2.len(),
        forall|k: int|
            0 <= k < es1.len() ==> #[trigger] event_similar(es1[k], es2[k]),
        0 <= i <= es1.len(),
    ensures
        state_at(es1, i) == state_at(es2, i),
    decreases i,
{
    if i > 0 {
        lemma_iterations_independent(es1, es2, i - 1);
        assert(event_similar(es1[i - 1], es2[i - 1]));
    }
}

/// Two events are alike up to the analyzer's exit outcome.
pub open spec fn event_similar(a: TaskEvent, b: TaskEvent) -> bool {
    match (a, b) {
        (TaskEvent::Finished(_), TaskEvent::Finished(_)) => true,
        _ => a == b,
    }
}

} // verus!
