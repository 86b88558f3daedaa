use rmake_support::{
    Environment, EnvironmentVariable, PathFragment, ResolveError, RmakeSupportContext, ShellOutput,
    ShellTape,
};

fn lit(text: &str) -> PathFragment {
    PathFragment::Str(text.to_string())
}

fn var(name: &str) -> PathFragment {
    PathFragment::ExpandEnvVar(vec![lit(name)])
}

#[test]
fn literal_sequence_concatenates() {
    let scx = RmakeSupportContext::from_environment(Environment::new());
    let mut tape = ShellTape::new();
    let frags = vec![lit("a"), lit("/"), lit("b")];
    let resolved = scx.resolve_env_var_fragments(&frags, &mut tape).unwrap();
    assert_eq!(resolved, "a/b");
}

#[test]
fn empty_fragment_sequence_resolves_empty() {
    let scx = RmakeSupportContext::from_environment(Environment::new());
    let mut tape = ShellTape::new();
    let frags: Vec<PathFragment> = vec![];
    let resolved = scx.resolve_env_var_fragments(&frags, &mut tape).unwrap();
    assert_eq!(resolved, "");
}

#[test]
fn unset_variable_resolves_empty() {
    let scx = RmakeSupportContext::from_environment(Environment::new());
    let mut tape = ShellTape::new();
    let resolved = scx.resolve_env_var("NO_SUCH_VARIABLE", &mut tape).unwrap();
    assert_eq!(resolved, "");
}

#[test]
fn unset_variable_resolves_empty_in_seeded_environment() {
    let scx = RmakeSupportContext::init();
    let mut tape = ShellTape::new();
    let resolved = scx.resolve_env_var("NO_SUCH_VARIABLE", &mut tape).unwrap();
    assert_eq!(resolved, "");
}

#[test]
fn indirection_round_trip() {
    let mut env = Environment::new();
    env.set("A".to_string(), EnvironmentVariable::Static("B".to_string()));
    env.set("B".to_string(), EnvironmentVariable::Static("value".to_string()));
    let scx = RmakeSupportContext::from_environment(env);
    let mut tape = ShellTape::new();
    let frags = vec![PathFragment::ExpandEnvVar(vec![var("A")])];
    let resolved = scx.resolve_env_var_fragments(&frags, &mut tape).unwrap();
    assert_eq!(resolved, "value");
}

#[test]
fn swapping_different_fragments_changes_output() {
    let scx = RmakeSupportContext::from_environment(Environment::new());
    let mut tape = ShellTape::new();
    let frags = vec![lit("ab"), lit("c")];
    let swapped = vec![lit("c"), lit("ab")];
    let first = scx.resolve_env_var_fragments(&frags, &mut tape).unwrap();
    let second = scx.resolve_env_var_fragments(&swapped, &mut tape).unwrap();
    assert_eq!(first, "abc");
    assert_eq!(second, "cab");
    assert_ne!(first, second);
}

#[test]
fn swapping_identical_fragments_preserves_output() {
    let scx = RmakeSupportContext::from_environment(Environment::new());
    let mut tape = ShellTape::new();
    let frags = vec![lit("x"), lit("y"), lit("x")];
    let swapped = vec![lit("x"), lit("y"), lit("x")];
    let first = scx.resolve_env_var_fragments(&frags, &mut tape).unwrap();
    let second = scx.resolve_env_var_fragments(&swapped, &mut tape).unwrap();
    assert_eq!(first, second);
}

#[test]
fn dynamic_variable_from_three_static_parts() {
    let mut env = Environment::new();
    env.set("T".to_string(), EnvironmentVariable::Static("tmp".to_string()));
    env.set("H".to_string(), EnvironmentVariable::Static("host".to_string()));
    env.set(
        "D".to_string(),
        EnvironmentVariable::Dynamic(vec![var("T"), lit(":"), var("H")]),
    );
    let scx = RmakeSupportContext::from_environment(env);
    let mut tape = ShellTape::new();
    let resolved = scx.resolve_env_var("D", &mut tape).unwrap();
    assert_eq!(resolved, "tmp:host");
}

#[test]
fn shell_substitution_uses_recorded_stdout() {
    let scx = RmakeSupportContext::from_environment(Environment::new());
    let mut tape = ShellTape::new();
    tape.push(ShellOutput {
        success: true,
        stdout: "probed".to_string(),
        stderr: String::new(),
    });
    let frags = vec![lit("<"), PathFragment::ExpandShell(vec![lit("mycmd")]), lit(">")];
    let resolved = scx.resolve_env_var_fragments(&frags, &mut tape).unwrap();
    assert_eq!(resolved, "<probed>");
}

#[test]
fn shell_substitution_without_recorded_outcome_is_pending() {
    let scx = RmakeSupportContext::from_environment(Environment::new());
    let mut tape = ShellTape::new();
    let frags = vec![PathFragment::ExpandShell(vec![lit("mycmd")])];
    match scx.resolve_env_var_fragments(&frags, &mut tape) {
        Err(ResolveError::ShellPending(cmd)) => assert_eq!(cmd, "mycmd"),
        _ => panic!("expected a pending shell command"),
    }
}

#[test]
fn shell_failure_by_status_yields_no_value() {
    let scx = RmakeSupportContext::from_environment(Environment::new());
    let mut tape = ShellTape::new();
    tape.push(ShellOutput {
        success: false,
        stdout: "garbage".to_string(),
        stderr: String::new(),
    });
    let frags = vec![lit("keep:"), PathFragment::ExpandShell(vec![lit("mycmd")])];
    match scx.resolve_env_var_fragments(&frags, &mut tape) {
        Err(ResolveError::ShellFailed(cmd)) => assert_eq!(cmd, "mycmd"),
        Ok(partial) => panic!("a failed command must not resolve, got {:?}", partial),
        Err(other) => panic!("unexpected error {:?}", other),
    }
}

#[test]
fn shell_failure_by_stderr_yields_no_value() {
    let scx = RmakeSupportContext::from_environment(Environment::new());
    let mut tape = ShellTape::new();
    tape.push(ShellOutput {
        success: true,
        stdout: "garbage".to_string(),
        stderr: "warning".to_string(),
    });
    let frags = vec![PathFragment::ExpandShell(vec![lit("mycmd")])];
    assert!(matches!(
        scx.resolve_env_var_fragments(&frags, &mut tape),
        Err(ResolveError::ShellFailed(_))
    ));
}

#[test]
fn shell_pending_then_recorded_outcome_resolves_on_replay() {
    let scx = RmakeSupportContext::from_environment(Environment::new());
    let mut tape = ShellTape::new();
    let frags = vec![PathFragment::ExpandShell(vec![lit("mycmd")])];
    let pending = scx.resolve_env_var_fragments(&frags, &mut tape);
    assert!(matches!(pending, Err(ResolveError::ShellPending(_))));
    tape.push(ShellOutput {
        success: true,
        stdout: "answer".to_string(),
        stderr: String::new(),
    });
    tape.rewind();
    let resolved = scx.resolve_env_var_fragments(&frags, &mut tape).unwrap();
    assert_eq!(resolved, "answer");
}

#[test]
fn cyclic_variable_is_reported() {
    let mut env = Environment::new();
    env.set("X".to_string(), EnvironmentVariable::Dynamic(vec![var("X")]));
    let scx = RmakeSupportContext::from_environment(env);
    let mut tape = ShellTape::new();
    match scx.resolve_env_var("X", &mut tape) {
        Err(ResolveError::CyclicVariable(name)) => assert_eq!(name, "X"),
        _ => panic!("expected a cyclic-resolution error"),
    }
}

#[test]
fn indirect_cycle_is_reported() {
    let mut env = Environment::new();
    env.set("P".to_string(), EnvironmentVariable::Dynamic(vec![var("Q")]));
    env.set("Q".to_string(), EnvironmentVariable::Dynamic(vec![var("P")]));
    let scx = RmakeSupportContext::from_environment(env);
    let mut tape = ShellTape::new();
    assert!(matches!(
        scx.resolve_env_var("P", &mut tape),
        Err(ResolveError::CyclicVariable(_))
    ));
}

#[test]
fn repeated_use_of_one_variable_is_no_cycle() {
    let mut env = Environment::new();
    env.set("T".to_string(), EnvironmentVariable::Static("t".to_string()));
    env.set(
        "D".to_string(),
        EnvironmentVariable::Dynamic(vec![var("T"), var("T")]),
    );
    let scx = RmakeSupportContext::from_environment(env);
    let mut tape = ShellTape::new();
    assert_eq!(scx.resolve_env_var("D", &mut tape).unwrap(), "tt");
}

#[test]
fn environment_set_replaces_earlier_binding() {
    let mut env = Environment::new();
    env.set("K".to_string(), EnvironmentVariable::Static("one".to_string()));
    env.set("K".to_string(), EnvironmentVariable::Static("two".to_string()));
    let scx = RmakeSupportContext::from_environment(env);
    let mut tape = ShellTape::new();
    assert_eq!(scx.resolve_env_var("K", &mut tape).unwrap(), "two");
}

#[test]
fn seeded_environment_static_variables() {
    let scx = RmakeSupportContext::init();
    let mut tape = ShellTape::new();
    assert_eq!(scx.resolve_env_var("TMPDIR", &mut tape).unwrap(), "TMPDIR_PLACEHOLDER");
    assert_eq!(
        scx.resolve_env_var("HOST_RPATH_DIR", &mut tape).unwrap(),
        "HOST_RPATH_DIR_PLACEHOLDER"
    );
    assert_eq!(scx.resolve_env_var("LD_LIB_PATH_ENVVAR", &mut tape).unwrap(), "LD_LIB_PATH");
    assert_eq!(
        scx.resolve_env_var("LD_LIB_PATH", &mut tape).unwrap(),
        "LD_LIB_PATH_PLACEHOLDER"
    );
}

#[test]
fn seeded_search_path_assembles_through_indirection() {
    let scx = RmakeSupportContext::init();
    let mut tape = ShellTape::new();
    let resolved = scx.resolve_env_var("HOST_RPATH_ENV", &mut tape).unwrap();
    assert_eq!(
        resolved,
        "TMPDIR_PLACEHOLDER:HOST_RPATH_DIR_PLACEHOLDER:LD_LIB_PATH_PLACEHOLDER"
    );
}

#[test]
fn shell_outcomes_are_consumed_in_order() {
    let scx = RmakeSupportContext::from_environment(Environment::new());
    let mut tape = ShellTape::new();
    tape.push(ShellOutput {
        success: true,
        stdout: "first".to_string(),
        stderr: String::new(),
    });
    tape.push(ShellOutput {
        success: true,
        stdout: "second".to_string(),
        stderr: String::new(),
    });
    let frags = vec![
        PathFragment::ExpandShell(vec![lit("one")]),
        lit("-"),
        PathFragment::ExpandShell(vec![lit("two")]),
    ];
    let resolved = scx.resolve_env_var_fragments(&frags, &mut tape).unwrap();
    assert_eq!(resolved, "first-second");
}
