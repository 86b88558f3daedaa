use rmake_support::{
    CompileError, CrateType, EmitKind, Environment, EnvironmentVariable, PathFragment,
    RmakeSupportContext, RustcBuilder, ShellTape,
};

fn lit(text: &str) -> PathFragment {
    PathFragment::Str(text.to_string())
}

fn var(name: &str) -> PathFragment {
    PathFragment::ExpandEnvVar(vec![lit(name)])
}

#[test]
fn crate_type_names() {
    assert_eq!(CrateType::Lib.as_str(), "lib");
    assert_eq!(CrateType::Bin.as_str(), "bin");
}

#[test]
fn compile_without_current_dir_is_rejected() {
    let scx = RmakeSupportContext::init();
    let mut tape = ShellTape::new();
    let builder = RustcBuilder::new().path(vec![lit("main.rs")]);
    match builder.compile(&scx, &mut tape) {
        Err(CompileError::MissingCurrentDir) => {},
        _ => panic!("expected the missing working directory to be rejected"),
    }
    assert_eq!(tape.next, 0);
}

#[test]
fn compile_without_path_is_rejected() {
    let scx = RmakeSupportContext::init();
    let mut tape = ShellTape::new();
    let builder = RustcBuilder::new().current_dir(vec![lit(".")]);
    match builder.compile(&scx, &mut tape) {
        Err(CompileError::MissingPath) => {},
        _ => panic!("expected the missing input path to be rejected"),
    }
    assert_eq!(tape.next, 0);
}

#[test]
fn compile_with_nothing_set_is_rejected() {
    let scx = RmakeSupportContext::init();
    let mut tape = ShellTape::new();
    assert!(matches!(
        RustcBuilder::new().compile(&scx, &mut tape),
        Err(CompileError::MissingCurrentDir)
    ));
}

#[test]
fn minimal_invocation_has_input_as_final_argument() {
    let scx = RmakeSupportContext::from_environment(Environment::new());
    let mut tape = ShellTape::new();
    let invocation = RustcBuilder::new()
        .current_dir(vec![lit(".")])
        .path(vec![lit("main.rs")])
        .compile(&scx, &mut tape)
        .unwrap();
    assert_eq!(invocation.current_dir, ".");
    assert_eq!(invocation.args, vec!["+nightly".to_string(), "main.rs".to_string()]);
}

#[test]
fn extern_flag_appears_exactly_once() {
    let scx = RmakeSupportContext::from_environment(Environment::new());
    let mut tape = ShellTape::new();
    let invocation = RustcBuilder::new()
        .current_dir(vec![lit(".")])
        .extern_dep("stable".to_string(), vec![lit("/tmp/libstable.rmeta")])
        .path(vec![lit("main.rs")])
        .compile(&scx, &mut tape)
        .unwrap();
    let flag_count = invocation.args.iter().filter(|a| a.as_str() == "--extern").count();
    assert_eq!(flag_count, 1);
    assert_eq!(
        invocation.args,
        vec![
            "+nightly".to_string(),
            "--extern".to_string(),
            "stable=/tmp/libstable.rmeta".to_string(),
            "main.rs".to_string(),
        ]
    );
}

#[test]
fn extern_with_same_name_replaces_path() {
    let scx = RmakeSupportContext::from_environment(Environment::new());
    let mut tape = ShellTape::new();
    let invocation = RustcBuilder::new()
        .current_dir(vec![lit(".")])
        .extern_dep("dep".to_string(), vec![lit("/old.rmeta")])
        .extern_dep("dep".to_string(), vec![lit("/new.rmeta")])
        .path(vec![lit("main.rs")])
        .compile(&scx, &mut tape)
        .unwrap();
    let flag_count = invocation.args.iter().filter(|a| a.as_str() == "--extern").count();
    assert_eq!(flag_count, 1);
    assert!(invocation.args.contains(&"dep=/new.rmeta".to_string()));
    assert!(!invocation.args.contains(&"dep=/old.rmeta".to_string()));
}

#[test]
fn emit_requests_are_deduplicated() {
    let scx = RmakeSupportContext::from_environment(Environment::new());
    let mut tape = ShellTape::new();
    let invocation = RustcBuilder::new()
        .current_dir(vec![lit(".")])
        .emit(EmitKind::Metadata)
        .emit(EmitKind::Metadata)
        .path(vec![lit("main.rs")])
        .compile(&scx, &mut tape)
        .unwrap();
    let emit_count = invocation.args.iter().filter(|a| a.as_str() == "--emit").count();
    assert_eq!(emit_count, 1);
    assert!(invocation.args.contains(&"metadata".to_string()));
}

#[test]
fn crate_type_adds_flag_pair() {
    let scx = RmakeSupportContext::from_environment(Environment::new());
    let mut tape = ShellTape::new();
    let invocation = RustcBuilder::new()
        .current_dir(vec![lit(".")])
        .crate_type(CrateType::Lib)
        .path(vec![lit("main.rs")])
        .compile(&scx, &mut tape)
        .unwrap();
    assert_eq!(
        invocation.args,
        vec![
            "+nightly".to_string(),
            "--crate-type".to_string(),
            "lib".to_string(),
            "main.rs".to_string(),
        ]
    );
}

#[test]
fn full_invocation_resolves_fragments_through_environment() {
    let scx = RmakeSupportContext::init();
    let mut tape = ShellTape::new();
    let invocation = RustcBuilder::new()
        .current_dir(vec![var("TMPDIR")])
        .emit(EmitKind::Metadata)
        .crate_type(CrateType::Lib)
        .extern_dep("stable".to_string(), vec![var("TMPDIR"), lit("/libstable.rmeta")])
        .path(vec![lit("stable.rs")])
        .compile(&scx, &mut tape)
        .unwrap();
    assert_eq!(invocation.current_dir, "TMPDIR_PLACEHOLDER");
    assert_eq!(
        invocation.args,
        vec![
            "+nightly".to_string(),
            "--emit".to_string(),
            "metadata".to_string(),
            "--crate-type".to_string(),
            "lib".to_string(),
            "--extern".to_string(),
            "stable=TMPDIR_PLACEHOLDER/libstable.rmeta".to_string(),
            "stable.rs".to_string(),
        ]
    );
}

#[test]
fn compile_propagates_resolution_failures() {
    let mut env = Environment::new();
    env.set("LOOP".to_string(), EnvironmentVariable::Dynamic(vec![var("LOOP")]));
    let scx = RmakeSupportContext::from_environment(env);
    let mut tape = ShellTape::new();
    let result = RustcBuilder::new()
        .current_dir(vec![var("LOOP")])
        .path(vec![lit("main.rs")])
        .compile(&scx, &mut tape);
    assert!(matches!(result, Err(CompileError::Resolve(_))));
}
