use crash_repro::config::{CommonConfig, Config, SyncedDir};
use crash_repro::invocation::prepare_invocation;
use crash_repro::machine::{
    action_of, advance, initial_state, setup_actions, ExitOutcome, SetupAction, TaskAction,
    TaskError, TaskEvent, TaskState,
};

fn dbg_config(tools: Option<SyncedDir>) -> Config {
    Config {
        analyzer_exe: "dbg".to_string(),
        analyzer_options: vec!["-i".to_string(), "{input_path}".to_string()],
        analyzer_env: Vec::new(),
        target_exe: "/setup/fuzz.exe".to_string(),
        target_options: Vec::new(),
        crashes: SyncedDir { local_path: "/work/crashes".to_string(), remote_path: None },
        input: "/work/input.bin".to_string(),
        tools,
        common: CommonConfig {
            setup_dir: "/setup".to_string(),
            job_id: "job-17".to_string(),
            task_id: "task-4".to_string(),
            microsoft_telemetry_key: None,
            instance_telemetry_key: None,
        },
    }
}

#[test]
fn setup_sequence_without_tools() {
    let config = dbg_config(None);
    let actions = setup_actions(&config);
    assert_eq!(actions, vec![SetupAction::PullCrashes]);
}

#[test]
fn setup_sequence_with_tools_pulls_then_marks_executable() {
    let tools = SyncedDir { local_path: "/work/tools".to_string(), remote_path: None };
    let config = dbg_config(Some(tools));
    let actions = setup_actions(&config);
    assert_eq!(
        actions,
        vec![SetupAction::PullCrashes, SetupAction::PullTools, SetupAction::MarkToolsExecutable]
    );
}

#[test]
fn setup_strictly_precedes_the_first_liveness_signal() {
    let state = initial_state();
    assert_eq!(action_of(&state), TaskAction::PerformSetup);
    let state = advance(state, TaskEvent::SetupOk);
    assert_eq!(action_of(&state), TaskAction::SignalAlive);
    let state = advance(state, TaskEvent::AliveSent);
    assert_eq!(action_of(&state), TaskAction::RunAnalyzer);
}

#[test]
fn setup_failure_aborts_before_any_analysis() {
    let state = initial_state();
    let state = advance(state, TaskEvent::SetupFailed("pull failed".to_string()));
    assert_eq!(action_of(&state), TaskAction::Halt);
    match state {
        TaskState::Stopped(TaskError::Setup(msg)) => assert_eq!(msg, "pull failed"),
        _ => panic!("expected a fatal setup error"),
    }
}

#[test]
fn any_exit_outcome_continues_the_loop() {
    let outcomes = vec![
        ExitOutcome::Exited(0),
        ExitOutcome::Exited(1),
        ExitOutcome::Exited(137),
        ExitOutcome::Exited(-1),
        ExitOutcome::Killed,
    ];
    for outcome in outcomes {
        let mut state = initial_state();
        state = advance(state, TaskEvent::SetupOk);
        state = advance(state, TaskEvent::AliveSent);
        assert_eq!(action_of(&state), TaskAction::RunAnalyzer);
        state = advance(state, TaskEvent::Finished(outcome));
        assert_eq!(action_of(&state), TaskAction::SignalAlive);
    }
}

#[test]
fn start_failure_terminates_with_the_resolved_path() {
    let mut state = initial_state();
    state = advance(state, TaskEvent::SetupOk);
    state = advance(state, TaskEvent::AliveSent);
    state = advance(state, TaskEvent::StartFailed("dbg".to_string()));
    assert_eq!(action_of(&state), TaskAction::Halt);
    match &state {
        TaskState::Stopped(TaskError::ProcessStart(path)) => assert_eq!(path, "dbg"),
        _ => panic!("expected a fatal process-start error"),
    }
    // A stopped task stays stopped: nothing is skipped and nothing resumes.
    let state = advance(state, TaskEvent::Finished(ExitOutcome::Exited(0)));
    assert_eq!(action_of(&state), TaskAction::Halt);
    let state = advance(state, TaskEvent::AliveSent);
    assert_eq!(action_of(&state), TaskAction::Halt);
}

#[test]
fn expansion_failure_terminates_naming_the_placeholder() {
    let config = dbg_config(None);
    let mut with_tools_reference = config;
    with_tools_reference.analyzer_options = vec!["{tools_dir}/helper".to_string()];
    let err = prepare_invocation(&with_tools_reference).unwrap_err();

    let mut state = initial_state();
    state = advance(state, TaskEvent::SetupOk);
    state = advance(state, TaskEvent::AliveSent);
    state = advance(state, TaskEvent::ExpandFailed(err));
    assert_eq!(action_of(&state), TaskAction::Halt);
    match state {
        TaskState::Stopped(TaskError::Expansion(e)) => assert_eq!(e.placeholder, "tools_dir"),
        _ => panic!("expected a fatal expansion error"),
    }
}

#[test]
fn repeated_iterations_run_one_identical_invocation_each() {
    let config = dbg_config(None);
    let exit_codes = vec![0, 1, 137, -1];
    let mut state = initial_state();
    assert_eq!(action_of(&state), TaskAction::PerformSetup);
    state = advance(state, TaskEvent::SetupOk);

    let mut alive_signals: usize = 0;
    let mut runs: Vec<(String, Vec<String>)> = Vec::new();
    for code in exit_codes {
        assert_eq!(action_of(&state), TaskAction::SignalAlive);
        alive_signals += 1;
        state = advance(state, TaskEvent::AliveSent);

        assert_eq!(action_of(&state), TaskAction::RunAnalyzer);
        let inv = prepare_invocation(&config).unwrap();
        runs.push((inv.program, inv.arguments));
        state = advance(state, TaskEvent::Finished(ExitOutcome::Exited(code)));
    }

    // Each repetition produced one liveness signal followed by one full run,
    // and every run was `dbg -i /work/input.bin`, whatever the previous
    // iteration's exit code was.
    assert_eq!(alive_signals, runs.len());
    for (program, arguments) in runs {
        assert_eq!(program, "dbg");
        assert_eq!(arguments, vec!["-i", "/work/input.bin"]);
    }
    // The loop is still going: no terminal success state exists.
    assert_eq!(action_of(&state), TaskAction::SignalAlive);
}
