//! Building the exact invocation of the external test driver.
//!
//! The builder is a pure data transform: from the chosen driver, the
//! test scope, an optional filter and the pass-through options it
//! produces the full argument vector and the extra environment
//! variables, and nothing else.  Spawn-time failures belong to the
//! process-supervision collaborator outside the library.

use vstd::prelude::*;

verus! {

use vstd::string::StringExecFns;

/// Which external test driver is invoked.
#[derive(Debug, Clone, Copy)]
pub enum TestToolKind {
    CargoTest,
    CargoNextest,
}

/// The kind of build target tests are taken from: the package's one
/// library, a kind the driver cannot address (silently omitted), or a
/// kind that needs an explicit flag and target name (binaries,
/// examples, benchmarks and the like).
#[derive(Debug, Clone)]
pub enum TargetKind {
    Library,
    Other,
    Named(String),
}

/// The selection of tests to execute: the whole workspace, or one
/// package's build target.
#[derive(Debug, Clone)]
pub enum TestTarget {
    Workspace,
    Package { package: String, target: String, kind: TargetKind },
}

/// Pass-through configuration, applied verbatim to the built command:
/// driver arguments, and extra arguments handed on to the test binary
/// itself.
#[derive(Debug, Clone, Default)]
pub struct CargoOptions {
    pub cargo_args: Vec<String>,
    pub extra_test_bin_args: Vec<String>,
}

/// The full description of one driver invocation: the argument vector
/// and the environment variables the driver needs on top of the
/// caller's own.
#[derive(Debug, Clone)]
pub struct TestCommand {
    pub env: Vec<(String, String)>,
    pub args: Vec<String>,
}

/// Mathematical model of a [`TargetKind`].
pub enum KindModel {
    Library,
    Other,
    Named(Seq<char>),
}

/// Mathematical model of a [`TestTarget`].
pub enum ScopeModel {
    Workspace,
    Package { package: Seq<char>, target: Seq<char>, kind: KindModel },
}

impl View for TargetKind {
    type V = KindModel;

    open spec fn view(&self) -> KindModel {
        match self {
            TargetKind::Library => KindModel::Library,
            TargetKind::Other => KindModel::Other,
            TargetKind::Named(k) => KindModel::Named(k@),
        }
    }
}

impl View for TestTarget {
    type V = ScopeModel;

    open spec fn view(&self) -> ScopeModel {
        match self {
            TestTarget::Workspace => ScopeModel::Workspace,
            TestTarget::Package { package, target, kind } => ScopeModel::Package {
                package: package@,
                target: target@,
                kind: kind@,
            },
        }
    }
}

/// The views of a vector of strings, in order.
pub open spec fn views_of(v: Seq<String>) -> Seq<Seq<char>> {
    Seq::new(v.len(), |i: int| v[i]@)
}

/// The views of a vector of environment entries, in order.
pub open spec fn env_views(v: Seq<(String, String)>) -> Seq<(Seq<char>, Seq<char>)> {
    Seq::new(v.len(), |i: int| (v[i].0@, v[i].1@))
}

pub open spec fn path_view(path: Option<&str>) -> Option<Seq<char>> {
    match path {
        Some(p) => Some(p@),
        None => None,
    }
}

/// The arguments selecting a package's build target: nothing for the
/// one library, nothing for a kind the driver cannot address, and the
/// kind flag followed by the target name otherwise.
pub open spec fn kind_args(kind: KindModel, target: Seq<char>) -> Seq<Seq<char>> {
    match kind {
        KindModel::Library => seq!["--lib"@],
        KindModel::Other => Seq::empty(),
        KindModel::Named(k) => seq!["--"@ + k, target],
    }
}

/// The arguments selecting the test scope.
pub open spec fn scope_args(scope: ScopeModel) -> Seq<Seq<char>> {
    match scope {
        ScopeModel::Workspace => seq!["--workspace"@],
        ScopeModel::Package { package, target, kind } => seq!["--package"@, package] + kind_args(
            kind,
            target,
        ),
    }
}

/// The alternate driver's filter selector.
pub open spec fn filter_args(path: Option<Seq<char>>) -> Seq<Seq<char>> {
    match path {
        Some(p) => seq!["-E"@, p],
        None => Seq::empty(),
    }
}

/// The subcommand and scope part of the argument vector.
pub open spec fn head_args(tool: TestToolKind, path: Option<Seq<char>>, scope: ScopeModel) -> Seq<
    Seq<char>,
> {
    match tool {
        TestToolKind::CargoTest => seq!["test"@] + scope_args(scope),
        TestToolKind::CargoNextest => seq!["nextest"@, "run"@] + filter_args(path),
    }
}

/// The part shared by both drivers: run everything rather than stop at
/// the first failure, name the manifest under the project root, then
/// the caller's own driver arguments verbatim.
pub open spec fn common_args(root: Seq<char>, cargo_args: Seq<Seq<char>>) -> Seq<Seq<char>> {
    seq!["--no-fail-fast"@, "--manifest-path"@, root + "/Cargo.toml"@] + cargo_args
}

/// The driver-specific suffix: after the separator, the optional filter,
/// the flags selecting structured output, and the extra test-binary
/// arguments; or the alternate driver's message-format selection.
pub open spec fn tail_args(tool: TestToolKind, path: Option<Seq<char>>, extra: Seq<Seq<char>>) -> Seq<
    Seq<char>,
> {
    match tool {
        TestToolKind::CargoTest => seq!["--"@] + (match path {
            Some(p) => seq![p],
            None => Seq::empty(),
        }) + seq!["-Z"@, "unstable-options"@, "--format=json"@] + extra,
        TestToolKind::CargoNextest => seq!["--message-format"@, "libtest-json"@, "--"@],
    }
}

/// The whole argument vector of one invocation.
pub open spec fn args_spec(
    tool: TestToolKind,
    path: Option<Seq<char>>,
    cargo_args: Seq<Seq<char>>,
    extra: Seq<Seq<char>>,
    root: Seq<char>,
    scope: ScopeModel,
) -> Seq<Seq<char>> {
    head_args(tool, path, scope) + common_args(root, cargo_args) + tail_args(tool, path, extra)
}

/// The environment variables of one invocation: the flag enabling the
/// unstable structured output, and for the alternate driver the flag
/// enabling its experimental event stream.
pub open spec fn env_spec(tool: TestToolKind) -> Seq<(Seq<char>, Seq<char>)> {
    match tool {
        TestToolKind::CargoTest => seq![("RUSTC_BOOTSTRAP"@, "1"@)],
        TestToolKind::CargoNextest => seq![
            ("RUSTC_BOOTSTRAP"@, "1"@),
            ("NEXTEST_EXPERIMENTAL_LIBTEST_JSON"@, "1"@),
        ],
    }
}

fn push_all(dst: &mut Vec<String>, src: &Vec<String>)
    ensures
        final(dst)@ == old(dst)@ + src@,
{
    let mut i: usize = 0;
    proof {
        assert(dst@ =~= old(dst)@ + src@.take(0));
    }
    while i < src.len()
        invariant
            i <= src.len(),
            dst@ == old(dst)@ + src@.take(i as int),
        decreases src.len() - i,
    {
        dst.push(src[i].clone());
        proof {
            assert(dst@ =~= old(dst)@ + src@.take(i as int + 1));
        }
        i = i + 1;
    }
    proof {
        assert(src@.take(src@.len() as int) =~= src@);
    }
}

impl TestCommand {
    /// Builds the invocation for one run: a pure transform of its
    /// inputs, so identical inputs always yield the identical command.
    pub fn new(
        test_tool: TestToolKind,
        path: Option<&str>,
        options: &CargoOptions,
        root: &str,
        test_target: &TestTarget,
    ) -> (cmd: TestCommand)
        ensures
            views_of(cmd.args@) == args_spec(
                test_tool,
                path_view(path),
                views_of(options.cargo_args@),
                views_of(options.extra_test_bin_args@),
                root@,
                test_target@,
            ),
            env_views(cmd.env@) == env_spec(test_tool),
    {
        let mut env: Vec<(String, String)> = Vec::new();
        env.push((String::from_str("RUSTC_BOOTSTRAP"), String::from_str("1")));
        let mut args: Vec<String> = Vec::new();
        match test_tool {
            TestToolKind::CargoTest => {
                args.push(String::from_str("test"));
                match test_target {
                    TestTarget::Package { package, target, kind } => {
                        args.push(String::from_str("--package"));
                        args.push(package.clone());
                        match kind {
                            TargetKind::Library => {
                                args.push(String::from_str("--lib"));
                            },
                            TargetKind::Other => {},
                            TargetKind::Named(k) => {
                                args.push(String::from_str("--").concat(k.as_str()));
                                args.push(target.clone());
                            },
                        }
                    },
                    TestTarget::Workspace => {
                        args.push(String::from_str("--workspace"));
                    },
                }
            },
            TestToolKind::CargoNextest => {
                env.push(
                    (String::from_str("NEXTEST_EXPERIMENTAL_LIBTEST_JSON"), String::from_str("1")),
                );
                args.push(String::from_str("nextest"));
                args.push(String::from_str("run"));
                if let Some(dsl) = path {
                    args.push(String::from_str("-E"));
                    args.push(dsl.to_owned());
                }
            },
        }
        let ghost gh = head_args(test_tool, path_view(path), test_target@);
        proof {
            assert(views_of(args@) =~~= gh);
            assert(env_views(env@) =~~= env_spec(test_tool));
        }
        args.push(String::from_str("--no-fail-fast"));
        args.push(String::from_str("--manifest-path"));
        args.push(root.to_owned().concat("/Cargo.toml"));
        push_all(&mut args, &options.cargo_args);
        let ghost gc = common_args(root@, views_of(options.cargo_args@));
        proof {
            assert(views_of(args@) =~~= gh + gc);
        }
        match test_tool {
            TestToolKind::CargoTest => {
                args.push(String::from_str("--"));
                if let Some(p) = path {
                    args.push(p.to_owned());
                }
                args.push(String::from_str("-Z"));
                args.push(String::from_str("unstable-options"));
                args.push(String::from_str("--format=json"));
                push_all(&mut args, &options.extra_test_bin_args);
            },
            TestToolKind::CargoNextest => {
                args.push(String::from_str("--message-format"));
                args.push(String::from_str("libtest-json"));
                args.push(String::from_str("--"));
            },
        }
        proof {
            assert(views_of(args@) =~~= gh + gc + tail_args(
                test_tool,
                path_view(path),
                views_of(options.extra_test_bin_args@),
            ));
        }
        TestCommand { env, args }
    }
}

// ---------------------------------------------------------------------
// Stated properties of the builder
// ---------------------------------------------------------------------

/// The builder is deterministic: for any two runs whose driver, filter,
/// options, root and scope agree, the argument vectors agree.
pub proof fn lemma_builder_deterministic(
    tool1: TestToolKind,
    path1: Option<Seq<char>>,
    cargo_args1: Seq<Seq<char>>,
    extra1: Seq<Seq<char>>,
    root1: Seq<char>,
    scope1: ScopeModel,
    tool2: TestToolKind,
    path2: Option<Seq<char>>,
    cargo_args2: Seq<Seq<char>>,
    extra2: Seq<Seq<char>>,
    root2: Seq<char>,
    scope2: ScopeModel,
)
    requires
        tool1 == tool2,
        path1 == path2,
        cargo_args1 == cargo_args2,
        extra1 == extra2,
        root1 == root2,
        scope1 == scope2,
    ensures
        args_spec(tool1, path1, cargo_args1, extra1, root1, scope1) == args_spec(
            tool2,
            path2,
            cargo_args2,
            extra2,
            root2,
            scope2,
        ),
        env_spec(tool1) == env_spec(tool2),
{
}

/// A library target needs no trailing name: its package selector is
/// followed by the library flag alone.
pub proof fn lemma_scope_library_omits_name(package: Seq<char>, target: Seq<char>)
    ensures
        scope_args(ScopeModel::Package { package, target, kind: KindModel::Library })
            == seq!["--package"@, package, "--lib"@],
{
    assert(seq!["--package"@, package] + seq!["--lib"@] =~= seq!["--package"@, package, "--lib"@]);
}

/// A target kind the driver cannot address is silently omitted: neither
/// a kind flag nor a target name is emitted.
pub proof fn lemma_scope_other_omits_kind_and_name(package: Seq<char>, target: Seq<char>)
    ensures
        scope_args(ScopeModel::Package { package, target, kind: KindModel::Other })
            == seq!["--package"@, package],
{
    assert(seq!["--package"@, package] + Seq::<Seq<char>>::empty() =~= seq![
        "--package"@,
        package,
    ]);
}

/// An explicitly named kind emits its kind flag followed by the target
/// name.
pub proof fn lemma_scope_named_emits_kind_and_name(
    kind: Seq<char>,
    package: Seq<char>,
    target: Seq<char>,
)
    ensures
        scope_args(ScopeModel::Package { package, target, kind: KindModel::Named(kind) })
            == seq!["--package"@, package, "--"@ + kind, target],
{
    assert(seq!["--package"@, package] + seq!["--"@ + kind, target] =~= seq![
        "--package"@,
        package,
        "--"@ + kind,
        target,
    ]);
}

} // verus!
