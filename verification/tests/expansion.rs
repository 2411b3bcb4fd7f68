use crash_repro::config::{CommonConfig, Config, EnvVar, RemoteLocation, SyncedDir};
use crash_repro::invocation::{build_expander, join_with_spaces, prepare_invocation};

fn base_config() -> Config {
    Config {
        analyzer_exe: "dbg".to_string(),
        analyzer_options: vec!["-i".to_string(), "{input_path}".to_string()],
        analyzer_env: Vec::new(),
        target_exe: "/setup/fuzz.exe".to_string(),
        target_options: vec!["--fast".to_string(), "--deep".to_string()],
        crashes: SyncedDir { local_path: "/work/crashes".to_string(), remote_path: None },
        input: "/work/input.bin".to_string(),
        tools: None,
        common: CommonConfig {
            setup_dir: "/setup".to_string(),
            job_id: "job-17".to_string(),
            task_id: "task-4".to_string(),
            microsoft_telemetry_key: None,
            instance_telemetry_key: None,
        },
    }
}

#[test]
fn literal_template_unchanged() {
    let ex = build_expander(&base_config());
    let out = ex.evaluate_value("plain text, no placeholders").unwrap();
    assert_eq!(out, "plain text, no placeholders");
}

#[test]
fn empty_template_stays_empty() {
    let ex = build_expander(&base_config());
    assert_eq!(ex.evaluate_value("").unwrap(), "");
}

#[test]
fn input_path_placeholder_resolves() {
    let ex = build_expander(&base_config());
    assert_eq!(ex.evaluate_value("{input_path}").unwrap(), "/work/input.bin");
}

#[test]
fn placeholders_mix_with_literal_text() {
    let ex = build_expander(&base_config());
    let out = ex.evaluate_value("run {target_exe} on {input_path}!").unwrap();
    assert_eq!(out, "run /setup/fuzz.exe on /work/input.bin!");
}

#[test]
fn identity_placeholders_resolve() {
    let ex = build_expander(&base_config());
    assert_eq!(ex.evaluate_value("{setup_dir}").unwrap(), "/setup");
    assert_eq!(ex.evaluate_value("{job_id}").unwrap(), "job-17");
    assert_eq!(ex.evaluate_value("{task_id}").unwrap(), "task-4");
}

#[test]
fn option_lists_join_with_spaces() {
    let ex = build_expander(&base_config());
    assert_eq!(ex.evaluate_value("{target_options}").unwrap(), "--fast --deep");
    assert_eq!(ex.evaluate_value("{analyzer_options}").unwrap(), "-i {input_path}");
}

#[test]
fn join_of_empty_and_single_lists() {
    assert_eq!(join_with_spaces(&Vec::new()), "");
    assert_eq!(join_with_spaces(&vec!["only".to_string()]), "only");
    assert_eq!(join_with_spaces(&vec!["a".to_string(), "b".to_string(), "c".to_string()]), "a b c");
}

#[test]
fn missing_placeholder_is_named_in_the_error() {
    let ex = build_expander(&base_config());
    let err = ex.evaluate_value("{no_such_binding}").unwrap_err();
    assert_eq!(err.placeholder, "no_such_binding");
}

#[test]
fn unclosed_brace_is_ordinary_text() {
    let ex = build_expander(&base_config());
    assert_eq!(ex.evaluate_value("a{bc").unwrap(), "a{bc");
    assert_eq!(ex.evaluate_value("}{").unwrap(), "}{");
}

#[test]
fn tools_placeholder_fails_without_tools_directory() {
    let config = base_config();
    assert!(config.tools.is_none());
    let ex = build_expander(&config);
    let err = ex.evaluate_value("{tools_dir}").unwrap_err();
    assert_eq!(err.placeholder, "tools_dir");
}

#[test]
fn tools_placeholder_yields_local_path_when_present() {
    let mut config = base_config();
    config.tools = Some(SyncedDir { local_path: "/work/tools".to_string(), remote_path: None });
    let ex = build_expander(&config);
    assert_eq!(ex.evaluate_value("{tools_dir}").unwrap(), "/work/tools");
}

#[test]
fn telemetry_placeholders_are_optional() {
    let mut config = base_config();
    let ex = build_expander(&config);
    assert_eq!(ex.evaluate_value("{microsoft_telemetry_key}").unwrap_err().placeholder, "microsoft_telemetry_key");
    assert_eq!(ex.evaluate_value("{instance_telemetry_key}").unwrap_err().placeholder, "instance_telemetry_key");

    config.common.microsoft_telemetry_key = Some("ms-key".to_string());
    config.common.instance_telemetry_key = Some("instance-key".to_string());
    let ex = build_expander(&config);
    assert_eq!(ex.evaluate_value("{microsoft_telemetry_key}").unwrap(), "ms-key");
    assert_eq!(ex.evaluate_value("{instance_telemetry_key}").unwrap(), "instance-key");
}

#[test]
fn crashes_account_and_container_come_from_the_remote_location() {
    let mut config = base_config();
    let ex = build_expander(&config);
    assert_eq!(ex.evaluate_value("{crashes_account}").unwrap_err().placeholder, "crashes_account");
    assert_eq!(ex.evaluate_value("{crashes_container}").unwrap_err().placeholder, "crashes_container");

    config.crashes.remote_path = Some(RemoteLocation {
        account: Some("fuzzstore".to_string()),
        container: Some("crashes-7".to_string()),
    });
    let ex = build_expander(&config);
    assert_eq!(ex.evaluate_value("{crashes_account}").unwrap(), "fuzzstore");
    assert_eq!(ex.evaluate_value("{crashes_container}").unwrap(), "crashes-7");
}

#[test]
fn substituted_values_are_not_rescanned() {
    // Substitution is single-pass: a bound value that itself looks like a
    // placeholder reference is inserted literally.
    let mut config = base_config();
    config.input = "{job_id}".to_string();
    let ex = build_expander(&config);
    assert_eq!(ex.evaluate_value("{input_path}").unwrap(), "{job_id}");
}

#[test]
fn empty_placeholder_name_has_no_binding() {
    let ex = build_expander(&base_config());
    let err = ex.evaluate_value("{}").unwrap_err();
    assert_eq!(err.placeholder, "");
}

#[test]
fn expansion_is_deterministic() {
    let config = base_config();
    let ex = build_expander(&config);
    let templates = [
        "{analyzer_exe} {target_options} {input_path}",
        "-i={input_path}",
        "no placeholders",
        "{job_id}/{task_id}",
    ];
    for t in templates {
        let first = ex.evaluate_value(t).unwrap();
        let second = ex.evaluate_value(t).unwrap();
        assert_eq!(first, second);
        let again = build_expander(&config).evaluate_value(t).unwrap();
        assert_eq!(first, again);
    }
}

#[test]
fn list_expansion_preserves_order() {
    let ex = build_expander(&base_config());
    let templates = vec![
        "-i".to_string(),
        "{input_path}".to_string(),
        "--target={target_exe}".to_string(),
    ];
    let out = ex.evaluate(&templates).unwrap();
    assert_eq!(out, vec!["-i", "/work/input.bin", "--target=/setup/fuzz.exe"]);
}

#[test]
fn list_expansion_fails_on_the_first_missing_placeholder() {
    let ex = build_expander(&base_config());
    let templates = vec![
        "fine".to_string(),
        "{first_missing}".to_string(),
        "{second_missing}".to_string(),
    ];
    let err = ex.evaluate(&templates).unwrap_err();
    assert_eq!(err.placeholder, "first_missing");
}

#[test]
fn invocation_resolves_program_arguments_and_environment() {
    let mut config = base_config();
    config.analyzer_env = vec![
        EnvVar { name: "ASAN_OPTIONS".to_string(), value: "log_path={setup_dir}/asan".to_string() },
        EnvVar { name: "REPRO".to_string(), value: "{input_path}".to_string() },
    ];
    let inv = prepare_invocation(&config).unwrap();
    assert_eq!(inv.program, "dbg");
    assert_eq!(inv.arguments, vec!["-i", "/work/input.bin"]);
    assert_eq!(inv.environment.len(), 2);
    assert_eq!(inv.environment[0].name, "ASAN_OPTIONS");
    assert_eq!(inv.environment[0].value, "log_path=/setup/asan");
    assert_eq!(inv.environment[1].name, "REPRO");
    assert_eq!(inv.environment[1].value, "/work/input.bin");
}

#[test]
fn invocation_clears_the_logging_variable() {
    let inv = prepare_invocation(&base_config()).unwrap();
    assert_eq!(inv.cleared_env, vec!["RUST_LOG"]);
}

#[test]
fn analyzer_executable_is_itself_a_template() {
    let mut config = base_config();
    config.tools = Some(SyncedDir { local_path: "/work/tools".to_string(), remote_path: None });
    config.analyzer_exe = "{tools_dir}/dbg".to_string();
    let inv = prepare_invocation(&config).unwrap();
    assert_eq!(inv.program, "/work/tools/dbg");
}

#[test]
fn invocation_fails_with_the_missing_placeholder() {
    let mut config = base_config();
    config.analyzer_options = vec!["{tools_dir}/scripts".to_string()];
    let err = prepare_invocation(&config).unwrap_err();
    assert_eq!(err.placeholder, "tools_dir");
}

#[test]
fn well_formedness_checks_executables_and_env_keys() {
    let config = base_config();
    assert!(config.is_well_formed());

    let mut empty_exe = base_config();
    empty_exe.analyzer_exe = String::new();
    assert!(!empty_exe.is_well_formed());

    let mut empty_target = base_config();
    empty_target.target_exe = String::new();
    assert!(!empty_target.is_well_formed());

    let mut dup_env = base_config();
    dup_env.analyzer_env = vec![
        EnvVar { name: "A".to_string(), value: "1".to_string() },
        EnvVar { name: "B".to_string(), value: "2".to_string() },
        EnvVar { name: "A".to_string(), value: "3".to_string() },
    ];
    assert!(!dup_env.is_well_formed());
}
