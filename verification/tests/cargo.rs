use cargo_driver::argv::{cargo_argv, cargo_bin};
use cargo_driver::environment::Environment;
use cargo_driver::locate::{
    locate_cargo_toml, locate_project, CargoTool, LocateError, LocateReply, LocateRequest,
    OutputProblem, SearchStage,
};
use cargo_driver::options::Options;
use cargo_driver::phase::Phase;

#[test]
fn generate_cargo_args_for_baseline_with_default_options() {
    let env = Environment::default();
    let options = Options::default();
    assert_eq!(
        cargo_argv(&env, None, Phase::Check, &options)[1..],
        ["check", "--tests", "--workspace"]
    );
    assert_eq!(
        cargo_argv(&env, None, Phase::Build, &options)[1..],
        ["build", "--tests", "--workspace"]
    );
    assert_eq!(
        cargo_argv(&env, None, Phase::Test, &options)[1..],
        ["test", "--workspace"]
    );
}

#[test]
fn generate_cargo_args_with_additional_cargo_test_args_and_package_name() {
    let env = Environment::default();
    let mut options = Options::default();
    let package_name = "cargo-mutants-testdata-something";
    options
        .additional_cargo_test_args
        .extend(["--lib", "--no-fail-fast"].iter().map(|s| s.to_string()));
    assert_eq!(
        cargo_argv(&env, Some(package_name), Phase::Check, &options)[1..],
        ["check", "--tests", "--package", package_name]
    );
    assert_eq!(
        cargo_argv(&env, Some(package_name), Phase::Build, &options)[1..],
        ["build", "--tests", "--package", package_name]
    );
    assert_eq!(
        cargo_argv(&env, Some(package_name), Phase::Test, &options)[1..],
        ["test", "--package", package_name, "--lib", "--no-fail-fast"]
    );
}

#[test]
fn generate_cargo_args_with_additional_cargo_args_and_test_args() {
    let env = Environment::default();
    let mut options = Options::default();
    options
        .additional_cargo_test_args
        .extend(["--lib", "--no-fail-fast"].iter().map(|s| s.to_string()));
    options
        .additional_cargo_args
        .extend(["--release".to_owned()]);
    assert_eq!(
        cargo_argv(&env, None, Phase::Check, &options)[1..],
        ["check", "--tests", "--workspace", "--release"]
    );
    assert_eq!(
        cargo_argv(&env, None, Phase::Build, &options)[1..],
        ["build", "--tests", "--workspace", "--release"]
    );
    assert_eq!(
        cargo_argv(&env, None, Phase::Test, &options)[1..],
        [
            "test",
            "--workspace",
            "--release",
            "--lib",
            "--no-fail-fast"
        ]
    );
}

/// Runs a search from `path` to its end, with the replies given.
fn search_from(path: &str, is_dir: bool, output: Option<&str>) -> Result<String, LocateError> {
    let (mut search, first) = CargoTool {}.find_root(&Environment::default(), path);
    match first {
        LocateRequest::CheckDirectory { path: asked } => assert_eq!(asked, path),
        other => panic!("the search did not begin with the directory: {:?}", other),
    }
    let mut request = search.step(LocateReply::IsDirectory(is_dir));
    loop {
        request = match request {
            LocateRequest::CheckDirectory { .. } => panic!("the directory was asked for twice"),
            LocateRequest::RunCommand { argv, dir } => {
                assert_eq!(argv, ["cargo", "locate-project"]);
                assert_eq!(dir, path);
                match output {
                    Some(text) => search.step(LocateReply::CommandOutput(text.to_owned())),
                    None => search.step(LocateReply::CommandFailed),
                }
            }
            LocateRequest::Finish(found) => {
                assert_eq!(search.stage, SearchStage::Finished);
                return found.map(|located| located.root);
            }
        }
    }
}

#[test]
fn error_opening_outside_of_crate() {
    // At the top of the file system the build tool finds no manifest and fails.
    search_from("/", true, None).unwrap_err();
}

#[test]
fn subdirectory_of_crate_leads_to_the_crate_root() {
    let root = search_from(
        "testdata/tree/factorial/src",
        true,
        Some("{\"root\":\"/home/user/testdata/tree/factorial/Cargo.toml\"}\n"),
    )
    .expect("open source tree from subdirectory");
    assert_eq!(root, "/home/user/testdata/tree/factorial");
    assert!(root.ends_with("factorial"));
}

#[test]
fn root_of_a_path_that_is_no_directory_is_a_usage_error() {
    assert_eq!(
        search_from("/no/such/place", false, Some("{\"root\":\"/x/Cargo.toml\"}")),
        Err(LocateError::NotADirectory)
    );
    assert_eq!(
        search_from("Cargo.toml", false, None),
        Err(LocateError::NotADirectory)
    );
}

#[test]
fn failing_build_tool_is_an_external_tool_failure() {
    assert_eq!(
        search_from("/tmp", true, None),
        Err(LocateError::ExternalToolFailure)
    );
}

#[test]
fn reply_out_of_turn_ends_the_search() {
    let (mut search, _) = CargoTool {}.find_root(&Environment::default(), "/tmp");
    match search.step(LocateReply::CommandFailed) {
        LocateRequest::Finish(Err(LocateError::OutOfTurn)) => {}
        other => panic!("unexpected request {:?}", other),
    }
    assert_eq!(search.stage, SearchStage::Finished);
    match search.step(LocateReply::IsDirectory(true)) {
        LocateRequest::Finish(Err(LocateError::OutOfTurn)) => {}
        other => panic!("unexpected request {:?}", other),
    }
}

#[test]
fn search_asks_the_build_tool_named_by_the_environment() {
    let env = Environment {
        cargo: Some("/opt/toolchain/bin/cargo".to_owned()),
        cargo_encoded_rustflags: None,
        rustflags: None,
    };
    let (mut search, _) = CargoTool {}.find_root(&env, "/work/tree");
    assert_eq!(search.stage, SearchStage::CheckingDirectory);
    match search.step(LocateReply::IsDirectory(true)) {
        LocateRequest::RunCommand { argv, dir } => {
            assert_eq!(argv, ["/opt/toolchain/bin/cargo", "locate-project"]);
            assert_eq!(dir, "/work/tree");
        }
        other => panic!("unexpected request {:?}", other),
    }
    assert_eq!(search.stage, SearchStage::Locating);
}

#[test]
fn locate_cargo_toml_reads_the_root_field() {
    assert_eq!(
        locate_cargo_toml("{\"root\":\"/home/user/project/Cargo.toml\"}"),
        Ok("/home/user/project/Cargo.toml".to_owned())
    );
    assert_eq!(
        locate_cargo_toml("  { \"other\": 1, \"root\": \"a b/Cargo.toml\" }\n"),
        Ok("a b/Cargo.toml".to_owned())
    );
}

#[test]
fn locate_cargo_toml_rejects_text_that_is_not_json() {
    for text in ["", "not json", "{\"root\":", "{\"root\":\"/x/Cargo.toml\"} trailing"] {
        assert_eq!(
            locate_cargo_toml(text),
            Err(LocateError::ParseError(OutputProblem::Malformed))
        );
    }
}

#[test]
fn locate_cargo_toml_rejects_json_without_a_root_string() {
    for text in [
        "{}",
        "{\"Root\":\"/x/Cargo.toml\"}",
        "{\"root\":17}",
        "{\"root\":null}",
        "{\"root\":{\"root\":\"/x/Cargo.toml\"}}",
        "[\"root\"]",
        "\"root\"",
        "null",
    ] {
        assert_eq!(
            locate_cargo_toml(text),
            Err(LocateError::ParseError(OutputProblem::NoRoot))
        );
    }
}

#[test]
fn locate_project_gives_the_manifest_and_its_directory() {
    let located = locate_project("{\"root\":\"/home/user/project/Cargo.toml\"}").unwrap();
    assert_eq!(located.cargo_toml, "/home/user/project/Cargo.toml");
    assert_eq!(located.root, "/home/user/project");
    let located = locate_project("{\"root\":\"Cargo.toml\"}").unwrap();
    assert_eq!(located.cargo_toml, "Cargo.toml");
    assert_eq!(located.root, "");
}

#[test]
fn locate_project_rejects_a_root_without_parent() {
    for text in ["{\"root\":\"/\"}", "{\"root\":\"\"}"] {
        assert_eq!(
            locate_project(text).map(|located| located.root),
            Err(LocateError::ParseError(OutputProblem::NoParent))
        );
    }
}

#[test]
fn locate_errors_describe_themselves() {
    assert_eq!(LocateError::NotADirectory.description(), "not a directory");
    assert_eq!(
        LocateError::ExternalToolFailure.description(),
        "run cargo locate-project"
    );
    assert_eq!(
        LocateError::ParseError(OutputProblem::Malformed).description(),
        "parse cargo locate-project output"
    );
    assert_eq!(
        LocateError::ParseError(OutputProblem::NoRoot).description(),
        "cargo locate-project output has no root"
    );
    assert_eq!(
        LocateError::ParseError(OutputProblem::NoParent).description(),
        "cargo locate-project root has no parent"
    );
    assert_eq!(
        LocateError::OutOfTurn.description(),
        "reply does not answer the request"
    );
}

#[test]
fn cargo_bin_is_cargo_unless_the_environment_names_another() {
    assert_eq!(cargo_bin(&Environment::default()), "cargo");
    let env = Environment {
        cargo: Some("/usr/local/bin/cargo-nightly".to_owned()),
        cargo_encoded_rustflags: None,
        rustflags: None,
    };
    assert_eq!(cargo_bin(&env), "/usr/local/bin/cargo-nightly");
    assert_eq!(
        cargo_argv(&env, None, Phase::Test, &Options::default()),
        ["/usr/local/bin/cargo-nightly", "test", "--workspace"]
    );
}

#[test]
fn argv_examples() {
    let env = Environment::default();
    assert_eq!(
        cargo_argv(&env, None, Phase::Check, &Options::default()),
        ["cargo", "check", "--tests", "--workspace"]
    );
    let with_test_args = Options {
        additional_cargo_args: vec![],
        additional_cargo_test_args: vec!["--lib".to_owned(), "--no-fail-fast".to_owned()],
    };
    assert_eq!(
        cargo_argv(&env, Some("pkg"), Phase::Test, &with_test_args),
        ["cargo", "test", "--package", "pkg", "--lib", "--no-fail-fast"]
    );
    let release = Options {
        additional_cargo_args: vec!["--release".to_owned()],
        additional_cargo_test_args: vec![],
    };
    assert_eq!(
        cargo_argv(&env, None, Phase::Build, &release),
        ["cargo", "build", "--tests", "--workspace", "--release"]
    );
}

#[test]
fn argv_holds_one_scope_for_every_phase_and_package() {
    let env = Environment::default();
    let options = Options {
        additional_cargo_args: vec!["--release".to_owned(), "--offline".to_owned()],
        additional_cargo_test_args: vec!["--".to_owned(), "--nocapture".to_owned()],
    };
    for phase in [Phase::Check, Phase::Build, Phase::Test] {
        for package in [None, Some("one"), Some("")] {
            let argv = cargo_argv(&env, package, phase, &options);
            let workspace = argv.iter().any(|a| a == "--workspace");
            let scoped = argv.iter().any(|a| a == "--package");
            assert_ne!(workspace, scoped);
            assert_eq!(scoped, package.is_some());
            assert_eq!(argv, cargo_argv(&env, package, phase, &options));
            assert_eq!(argv[0], "cargo");
            assert_eq!(argv[1], phase.name());
        }
    }
}

#[test]
fn argv_passes_arguments_on_as_they_are() {
    let env = Environment::default();
    let options = Options {
        additional_cargo_args: vec!["--workspace".to_owned(), "".to_owned(), "a b".to_owned()],
        additional_cargo_test_args: vec!["never".to_owned()],
    };
    assert_eq!(
        cargo_argv(&env, Some("--package"), Phase::Check, &options),
        ["cargo", "check", "--tests", "--package", "--package", "--workspace", "", "a b"]
    );
}

#[test]
fn phase_names() {
    assert_eq!(Phase::Check.name(), "check");
    assert_eq!(Phase::Build.name(), "build");
    assert_eq!(Phase::Test.name(), "test");
}
