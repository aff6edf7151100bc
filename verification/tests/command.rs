use test_runner::command::{CargoOptions, TargetKind, TestCommand, TestTarget, TestToolKind};

fn strings(items: &[&str]) -> Vec<String> {
    let mut v = Vec::new();
    for s in items {
        v.push(String::from(*s));
    }
    v
}

#[test]
fn workspace_default_invocation() {
    let cmd = TestCommand::new(
        TestToolKind::CargoTest,
        None,
        &CargoOptions::default(),
        "/proj",
        &TestTarget::Workspace,
    );
    assert_eq!(
        cmd.args,
        strings(&[
            "test",
            "--workspace",
            "--no-fail-fast",
            "--manifest-path",
            "/proj/Cargo.toml",
            "--",
            "-Z",
            "unstable-options",
            "--format=json",
        ])
    );
    assert_eq!(cmd.env, vec![(String::from("RUSTC_BOOTSTRAP"), String::from("1"))]);
}

#[test]
fn builder_is_deterministic() {
    let options = CargoOptions {
        cargo_args: strings(&["--release"]),
        extra_test_bin_args: strings(&["--nocapture"]),
    };
    let target = TestTarget::Package {
        package: String::from("pkg"),
        target: String::from("tgt"),
        kind: TargetKind::Named(String::from("bin")),
    };
    let a = TestCommand::new(TestToolKind::CargoTest, Some("mod::f"), &options, "/r", &target);
    let b = TestCommand::new(TestToolKind::CargoTest, Some("mod::f"), &options, "/r", &target);
    assert_eq!(a.args, b.args);
    assert_eq!(a.env, b.env);
}

#[test]
fn library_target_omits_name() {
    let target = TestTarget::Package {
        package: String::from("pkg"),
        target: String::from("tgt"),
        kind: TargetKind::Library,
    };
    let cmd = TestCommand::new(
        TestToolKind::CargoTest,
        None,
        &CargoOptions::default(),
        "/r",
        &target,
    );
    assert_eq!(&cmd.args[..4], &strings(&["test", "--package", "pkg", "--lib"])[..]);
    assert!(!cmd.args.contains(&String::from("tgt")));
}

#[test]
fn other_target_omits_kind_and_name() {
    let target = TestTarget::Package {
        package: String::from("pkg"),
        target: String::from("tgt"),
        kind: TargetKind::Other,
    };
    let cmd = TestCommand::new(
        TestToolKind::CargoTest,
        None,
        &CargoOptions::default(),
        "/r",
        &target,
    );
    assert_eq!(&cmd.args[..3], &strings(&["test", "--package", "pkg"])[..]);
    assert_eq!(cmd.args[3], "--no-fail-fast");
    assert!(!cmd.args.contains(&String::from("tgt")));
}

#[test]
fn named_target_emits_kind_flag_then_name() {
    let target = TestTarget::Package {
        package: String::from("pkg"),
        target: String::from("mybin"),
        kind: TargetKind::Named(String::from("bin")),
    };
    let cmd = TestCommand::new(
        TestToolKind::CargoTest,
        None,
        &CargoOptions::default(),
        "/r",
        &target,
    );
    assert_eq!(&cmd.args[..5], &strings(&["test", "--package", "pkg", "--bin", "mybin"])[..]);
}

#[test]
fn filter_and_extra_args_are_placed_after_separator() {
    let options = CargoOptions {
        cargo_args: strings(&["--release"]),
        extra_test_bin_args: strings(&["--nocapture"]),
    };
    let cmd = TestCommand::new(
        TestToolKind::CargoTest,
        Some("mod::f"),
        &options,
        "/r",
        &TestTarget::Workspace,
    );
    assert_eq!(
        cmd.args,
        strings(&[
            "test",
            "--workspace",
            "--no-fail-fast",
            "--manifest-path",
            "/r/Cargo.toml",
            "--release",
            "--",
            "mod::f",
            "-Z",
            "unstable-options",
            "--format=json",
            "--nocapture",
        ])
    );
}

#[test]
fn nextest_invocation_with_filter() {
    let cmd = TestCommand::new(
        TestToolKind::CargoNextest,
        Some("test(mod)"),
        &CargoOptions::default(),
        "/r",
        &TestTarget::Workspace,
    );
    assert_eq!(
        cmd.args,
        strings(&[
            "nextest",
            "run",
            "-E",
            "test(mod)",
            "--no-fail-fast",
            "--manifest-path",
            "/r/Cargo.toml",
            "--message-format",
            "libtest-json",
            "--",
        ])
    );
    assert_eq!(
        cmd.env,
        vec![
            (String::from("RUSTC_BOOTSTRAP"), String::from("1")),
            (String::from("NEXTEST_EXPERIMENTAL_LIBTEST_JSON"), String::from("1")),
        ]
    );
}

#[test]
fn nextest_without_filter_has_no_selector_flag() {
    let cmd = TestCommand::new(
        TestToolKind::CargoNextest,
        None,
        &CargoOptions::default(),
        "/r",
        &TestTarget::Workspace,
    );
    assert_eq!(cmd.args[0], "nextest");
    assert_eq!(cmd.args[1], "run");
    assert_eq!(cmd.args[2], "--no-fail-fast");
    assert!(!cmd.args.contains(&String::from("-E")));
}
