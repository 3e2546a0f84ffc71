//! The argument vector of a build-tool run.

use vstd::prelude::*;
use crate::environment::Environment;
use crate::options::Options;
use crate::phase::Phase;

verus! {

/// The build tool's name as characters: what the `CARGO` variable holds
/// where it is set, else `cargo`.
pub open spec fn cargo_bin_of(env: Environment) -> Seq<char> {
    match env.cargo {
        Some(path) => path@,
        None => "cargo"@,
    }
}

/// The subcommand of a phase and, for the phases that only build, the flag
/// that has the tests built too.
pub open spec fn phase_arguments(phase: Phase) -> Seq<Seq<char>> {
    if phase == Phase::Test {
        seq![phase.subcommand()]
    } else {
        seq![phase.subcommand(), "--tests"@]
    }
}

/// The arguments that say how much of the workspace a run covers: one
/// package by its name, or all of it.
pub open spec fn scope_arguments(package_name: Option<Seq<char>>) -> Seq<Seq<char>> {
    match package_name {
        Some(name) => seq!["--package"@, name],
        None => seq!["--workspace"@],
    }
}

/// The caller's extra arguments that a phase gets: those for every run and,
/// in the test phase, those for tests behind them.
pub open spec fn extra_arguments(
    phase: Phase,
    every_run: Seq<Seq<char>>,
    tests_only: Seq<Seq<char>>,
) -> Seq<Seq<char>> {
    if phase == Phase::Test {
        every_run + tests_only
    } else {
        every_run
    }
}

/// The whole argument vector: the build tool, the phase, the scope, and the
/// caller's extra arguments.
pub open spec fn argv_of(
    cargo_bin: Seq<char>,
    package_name: Option<Seq<char>>,
    phase: Phase,
    every_run: Seq<Seq<char>>,
    tests_only: Seq<Seq<char>>,
) -> Seq<Seq<char>> {
    seq![cargo_bin] + phase_arguments(phase) + scope_arguments(package_name) + extra_arguments(
        phase,
        every_run,
        tests_only,
    )
}

/// The name of the build tool's binary.
///
/// Run as a subcommand of the build tool, which is the usual case, the
/// `CARGO` variable says how to call back into it, so that the same
/// toolchain is used.
pub fn cargo_bin(env: &Environment) -> (bin: String)
    ensures
        bin@ == cargo_bin_of(*env),
{
    match &env.cargo {
        Some(path) => path.clone(),
        None => "cargo".to_owned(),
    }
}

/// Puts copies of the strings of `more` behind those of `args`.
fn push_all(args: &mut Vec<String>, more: &Vec<String>)
    ensures
        final(args).deep_view() == old(args).deep_view() + more.deep_view(),
{
    let ghost before = args.deep_view();
    let mut i: usize = 0;
    while i < more.len()
        invariant
            i <= more.len(),
            args.deep_view() == before + more.deep_view().take(i as int),
        decreases more.len() - i,
    {
        let ghost so_far = args.deep_view();
        args.push(more[i].clone());
        proof {
            assert(args.deep_view() =~= so_far.push(more[i as int]@));
            assert(more.deep_view().take(i + 1) =~= more.deep_view().take(i as int).push(
                more[i as int]@,
            ));
        }
        i += 1;
    }
    proof {
        assert(more.deep_view().take(more.len() as int) =~= more.deep_view());
    }
}

/// The argument vector for a check, build or test run of the build tool,
/// with the build tool's binary itself in front.
///
/// With a package name the run covers that package, else the whole
/// workspace. Nothing is checked about the names and arguments handed in.
pub fn cargo_argv(
    env: &Environment,
    package_name: Option<&str>,
    phase: Phase,
    options: &Options,
) -> (argv: Vec<String>)
    ensures
        argv.deep_view() == argv_of(
            cargo_bin_of(*env),
            package_name.deep_view(),
            phase,
            options.additional_cargo_args.deep_view(),
            options.additional_cargo_test_args.deep_view(),
        ),
{
    let mut cargo_args: Vec<String> = Vec::new();
    cargo_args.push(cargo_bin(env));
    cargo_args.push(phase.name().to_owned());
    if phase == Phase::Check || phase == Phase::Build {
        cargo_args.push("--tests".to_owned());
    }
    proof {
        assert(cargo_args.deep_view() =~= seq![cargo_bin_of(*env)] + phase_arguments(phase));
    }
    let ghost head = cargo_args.deep_view();
    match package_name {
        Some(name) => {
            cargo_args.push("--package".to_owned());
            cargo_args.push(name.to_owned());
        },
        None => {
            cargo_args.push("--workspace".to_owned());
        },
    }
    proof {
        assert(cargo_args.deep_view() =~= head + scope_arguments(package_name.deep_view()));
    }
    let ghost scoped = cargo_args.deep_view();
    push_all(&mut cargo_args, &options.additional_cargo_args);
    if phase == Phase::Test {
        push_all(&mut cargo_args, &options.additional_cargo_test_args);
    }
    proof {
        assert(cargo_args.deep_view() =~= scoped + extra_arguments(
            phase,
            options.additional_cargo_args.deep_view(),
            options.additional_cargo_test_args.deep_view(),
        ));
    }
    cargo_args
}

/// The strings of an argument vector that the caller chose: the build
/// tool's name, the package name where there is one, and the extra
/// arguments that the phase gets.
pub open spec fn caller_arguments(
    cargo_bin: Seq<char>,
    package_name: Option<Seq<char>>,
    phase: Phase,
    every_run: Seq<Seq<char>>,
    tests_only: Seq<Seq<char>>,
) -> Seq<Seq<char>> {
    seq![cargo_bin] + (match package_name {
        Some(name) => seq![name],
        None => Seq::<Seq<char>>::empty(),
    }) + extra_arguments(phase, every_run, tests_only)
}

/// An argument vector holds both the flag for the whole workspace and the
/// flag for one package.
pub open spec fn has_both_scopes(argv: Seq<Seq<char>>) -> bool {
    argv.contains("--workspace"@) && argv.contains("--package"@)
}

/// A concatenation holds a value exactly when one of its parts does.
proof fn lemma_contains_in_parts<A>(front: Seq<A>, back: Seq<A>, x: A)
    ensures
        (front + back).contains(x) <==> front.contains(x) || back.contains(x),
{
    let whole = front + back;
    if whole.contains(x) {
        let i = choose|i: int| 0 <= i < whole.len() && whole[i] == x;
        if i < front.len() {
            assert(front[i] == x);
        } else {
            assert(back[i - front.len()] == x);
        }
    }
    if front.contains(x) {
        let i = choose|i: int| 0 <= i < front.len() && front[i] == x;
        assert(whole[i] == x);
    }
    if back.contains(x) {
        let i = choose|i: int| 0 <= i < back.len() && back[i] == x;
        assert(whole[front.len() + i] == x);
    }
}

/// The library writes one scope, at a fixed place: behind the build tool
/// and the phase's arguments stands the flag for one package, with its
/// name, or the flag for the whole workspace.
pub proof fn lemma_scope_position(
    cargo_bin: Seq<char>,
    package_name: Option<Seq<char>>,
    phase: Phase,
    every_run: Seq<Seq<char>>,
    tests_only: Seq<Seq<char>>,
)
    ensures
        ({
            let argv = argv_of(cargo_bin, package_name, phase, every_run, tests_only);
            let at: int = 1 + phase_arguments(phase).len() as int;
            &&& argv[0] == cargo_bin
            &&& argv[1] == phase.subcommand()
            &&& at < argv.len()
            &&& argv[at] == scope_arguments(package_name)[0]
            &&& match package_name {
                Some(name) => argv[at] == "--package"@ && argv[at + 1] == name,
                None => argv[at] == "--workspace"@,
            }
            &&& argv.skip(at + scope_arguments(package_name).len()) == extra_arguments(
                phase,
                every_run,
                tests_only,
            )
        }),
{
    let argv = argv_of(cargo_bin, package_name, phase, every_run, tests_only);
    let at: int = 1 + phase_arguments(phase).len() as int;
    assert(argv.skip(at + scope_arguments(package_name).len()) =~= extra_arguments(
        phase,
        every_run,
        tests_only,
    ));
}

/// An argument vector holds both scope flags exactly when the caller's own
/// strings bring in the one that the library did not write: the flag for the
/// whole workspace where a package is named, the flag for one package where
/// none is.
pub proof fn lemma_both_scopes_only_from_caller(
    cargo_bin: Seq<char>,
    package_name: Option<Seq<char>>,
    phase: Phase,
    every_run: Seq<Seq<char>>,
    tests_only: Seq<Seq<char>>,
)
    ensures
        has_both_scopes(argv_of(cargo_bin, package_name, phase, every_run, tests_only)) <==> ({
            let chosen = caller_arguments(cargo_bin, package_name, phase, every_run, tests_only);
            match package_name {
                Some(_) => chosen.contains("--workspace"@),
                None => chosen.contains("--package"@),
            }
        }),
{
    reveal_strlit("check");
    reveal_strlit("build");
    reveal_strlit("test");
    reveal_strlit("--tests");
    reveal_strlit("--workspace");
    reveal_strlit("--package");
    let workspace = "--workspace"@;
    let package = "--package"@;
    let tool = seq![cargo_bin];
    let phase_part = phase_arguments(phase);
    let scope_part = scope_arguments(package_name);
    let extra = extra_arguments(phase, every_run, tests_only);
    let named = match package_name {
        Some(name) => seq![name],
        None => Seq::<Seq<char>>::empty(),
    };
    lemma_contains_in_parts(tool, phase_part, workspace);
    lemma_contains_in_parts(tool + phase_part, scope_part, workspace);
    lemma_contains_in_parts(tool + phase_part + scope_part, extra, workspace);
    lemma_contains_in_parts(tool, phase_part, package);
    lemma_contains_in_parts(tool + phase_part, scope_part, package);
    lemma_contains_in_parts(tool + phase_part + scope_part, extra, package);
    lemma_contains_in_parts(tool, named, workspace);
    lemma_contains_in_parts(tool + named, extra, workspace);
    lemma_contains_in_parts(tool, named, package);
    lemma_contains_in_parts(tool + named, extra, package);
    assert(!phase_part.contains(workspace) && !phase_part.contains(package)) by {
        assert forall|i: int| 0 <= i < phase_part.len() implies phase_part[i].len() != 11
            && phase_part[i].len() != 9 by {}
    }
    match package_name {
        Some(name) => {
            assert(scope_part[0] == package);
            assert(scope_part.contains(package));
            assert(scope_part.contains(workspace) <==> name == workspace) by {
                assert(scope_part.len() == 2 && scope_part[1] == name);
                assert(package.len() == 9 && workspace.len() == 11);
                if scope_part.contains(workspace) {
                    let i = choose|i: int| 0 <= i < scope_part.len() && scope_part[i] == workspace;
                    assert(i == 1);
                }
                if name == workspace {
                    assert(scope_part[1] == workspace);
                }
            }
            assert(named.contains(workspace) <==> name == workspace) by {
                assert(named.len() == 1 && named[0] == name);
                if named.contains(workspace) {
                    let i = choose|i: int| 0 <= i < named.len() && named[i] == workspace;
                    assert(i == 0);
                }
                if name == workspace {
                    assert(named[0] == workspace);
                }
            }
        },
        None => {
            assert(scope_part[0] == workspace);
            assert(scope_part.contains(workspace));
            assert(!scope_part.contains(package)) by {
                assert(scope_part.len() == 1);
                assert(package.len() == 9 && workspace.len() == 11);
            }
            assert(!named.contains(package));
        },
    }
}

/// Where the caller's own strings do not bring in the other scope, an
/// argument vector never holds both the flag for the whole workspace and
/// the flag for one package.
pub proof fn lemma_one_scope(
    cargo_bin: Seq<char>,
    package_name: Option<Seq<char>>,
    phase: Phase,
    every_run: Seq<Seq<char>>,
    tests_only: Seq<Seq<char>>,
)
    requires
        package_name is Some ==> !caller_arguments(
            cargo_bin,
            package_name,
            phase,
            every_run,
            tests_only,
        ).contains("--workspace"@),
        package_name is None ==> !caller_arguments(
            cargo_bin,
            package_name,
            phase,
            every_run,
            tests_only,
        ).contains("--package"@),
    ensures
        !has_both_scopes(argv_of(cargo_bin, package_name, phase, every_run, tests_only)),
{
    lemma_both_scopes_only_from_caller(cargo_bin, package_name, phase, every_run, tests_only);
}

} // verus!
