//! Finding the root of the project that encloses a path.
//!
//! The build tool knows where the enclosing manifest is, and the directory
//! that holds the manifest is the root. Asking it takes a look at the file
//! system and a run of a command, and both are the caller's to make: a
//! [`RootSearch`] says what to do next, is told what came of it, and ends
//! with the root or with the reason why there is none.

use vstd::prelude::*;
use crate::argv::{cargo_bin, cargo_bin_of};
use crate::environment::Environment;
use crate::json::{json_document, json_member, json_text, member, parse, text_of};
use crate::paths::{parent, path_parent};

verus! {

/// What is wrong with the text that the build tool printed.
#[derive(Clone, Copy, Debug, PartialEq, Eq, Structural)]
pub enum OutputProblem {
    /// It is not JSON.
    Malformed,
    /// It is JSON, yet holds no string under `root`.
    NoRoot,
    /// The path under `root` has no parent directory.
    NoParent,
}

/// Why no root was found.
#[derive(Clone, Copy, Debug, PartialEq, Eq, Structural)]
pub enum LocateError {
    /// The path to start from is not an existing directory.
    NotADirectory,
    /// The build tool could not be run, or did not succeed.
    ExternalToolFailure,
    /// The build tool's output is not what is expected of it.
    ParseError(OutputProblem),
    /// The search was told something that it had not asked for.
    OutOfTurn,
}

impl LocateError {
    /// A few words on the error, as characters.
    pub open spec fn words(self) -> Seq<char> {
        match self {
            LocateError::NotADirectory => "not a directory"@,
            LocateError::ExternalToolFailure => "run cargo locate-project"@,
            LocateError::ParseError(OutputProblem::Malformed) => "parse cargo locate-project output"@,
            LocateError::ParseError(OutputProblem::NoRoot) => "cargo locate-project output has no root"@,
            LocateError::ParseError(OutputProblem::NoParent) => "cargo locate-project root has no parent"@,
            LocateError::OutOfTurn => "reply does not answer the request"@,
        }
    }

    /// A few words on the error, for a message.
    pub fn description(&self) -> (text: &'static str)
        ensures
            text@ == self.words(),
    {
        match self {
            LocateError::NotADirectory => "not a directory",
            LocateError::ExternalToolFailure => "run cargo locate-project",
            LocateError::ParseError(OutputProblem::Malformed) => "parse cargo locate-project output",
            LocateError::ParseError(OutputProblem::NoRoot) => "cargo locate-project output has no root",
            LocateError::ParseError(OutputProblem::NoParent) => "cargo locate-project root has no parent",
            LocateError::OutOfTurn => "reply does not answer the request",
        }
    }
}

/// A project that was found.
#[derive(Clone, Debug)]
pub struct Located {
    /// The path of the project's manifest, as the build tool gave it.
    pub cargo_toml: String,
    /// The directory that holds the manifest.
    pub root: String,
}

/// What the caller of a search has to do next.
#[derive(Debug)]
pub enum LocateRequest {
    /// Find out whether `path` is an existing directory, and reply with
    /// [`LocateReply::IsDirectory`].
    CheckDirectory { path: String },
    /// Run `argv` in the directory `dir` and reply with its standard output,
    /// or with [`LocateReply::CommandFailed`].
    RunCommand { argv: Vec<String>, dir: String },
    /// Nothing more: the search has ended.
    Finish(Result<Located, LocateError>),
}

/// What the caller found out.
#[derive(Clone, Debug)]
pub enum LocateReply {
    /// Whether the path is an existing directory.
    IsDirectory(bool),
    /// The command ran and succeeded, and this is what it printed.
    CommandOutput(String),
    /// The command could not be run, or did not succeed.
    CommandFailed,
}

/// How far a search has come.
#[derive(Clone, Copy, Debug, PartialEq, Eq, Structural)]
pub enum SearchStage {
    /// It waits to hear whether the path is a directory.
    CheckingDirectory,
    /// It waits for the build tool's output.
    Locating,
    /// It has ended.
    Finished,
}

/// A search for the root that encloses a path.
#[derive(Clone, Debug)]
pub struct RootSearch {
    /// How far the search has come.
    pub stage: SearchStage,
    /// The build tool's binary.
    pub cargo_bin: String,
    /// The path to start from.
    pub path: String,
}

/// The string under `root` in the JSON text `output`, or what is wrong with
/// the text.
pub open spec fn manifest_in(output: Seq<char>) -> Result<Seq<char>, LocateError> {
    match json_document(output) {
        None => Err(LocateError::ParseError(OutputProblem::Malformed)),
        Some(document) => root_field(json_text(json_member(document, "root"@))),
    }
}

/// The manifest's path, given what stands under `root`: a string or nothing.
pub open spec fn root_field(field: Option<Seq<char>>) -> Result<Seq<char>, LocateError> {
    match field {
        Some(cargo_toml) => Ok(cargo_toml),
        None => Err(LocateError::ParseError(OutputProblem::NoRoot)),
    }
}

/// The root's path, given the parent of the manifest's path, if it has one.
pub open spec fn root_dir(parent: Option<Seq<char>>) -> Result<Seq<char>, LocateError> {
    match parent {
        Some(root) => Ok(root),
        None => Err(LocateError::ParseError(OutputProblem::NoParent)),
    }
}

/// The manifest and the root that the build tool's output leads to, both as
/// characters, or what is wrong with the output.
pub open spec fn project_in(output: Seq<char>) -> Result<(Seq<char>, Seq<char>), LocateError> {
    match manifest_in(output) {
        Err(error) => Err(error),
        Ok(cargo_toml) => match root_dir(path_parent(cargo_toml)) {
            Err(error) => Err(error),
            Ok(root) => Ok((cargo_toml, root)),
        },
    }
}

/// The characters of a search's result.
pub open spec fn located_view(found: Result<Located, LocateError>) -> Result<
    (Seq<char>, Seq<char>),
    LocateError,
> {
    match found {
        Ok(located) => Ok((located.cargo_toml@, located.root@)),
        Err(error) => Err(error),
    }
}

/// The manifest's path, given what the output holds under `root`.
pub fn cargo_toml_from_field(field: Option<String>) -> (found: Result<String, LocateError>)
    ensures
        match found {
            Ok(cargo_toml) => root_field(field.deep_view()) == Ok::<Seq<char>, LocateError>(
                cargo_toml@,
            ),
            Err(error) => root_field(field.deep_view()) == Err::<Seq<char>, LocateError>(error),
        },
{
    match field {
        Some(cargo_toml) => Ok(cargo_toml),
        None => Err(LocateError::ParseError(OutputProblem::NoRoot)),
    }
}

/// The project, given the manifest's path and its parent, if it has one.
pub fn project_from_parent(cargo_toml: String, parent: Option<String>) -> (found: Result<
    Located,
    LocateError,
>)
    ensures
        match found {
            Ok(located) => located.cargo_toml@ == cargo_toml@ && root_dir(parent.deep_view())
                == Ok::<Seq<char>, LocateError>(located.root@),
            Err(error) => root_dir(parent.deep_view()) == Err::<Seq<char>, LocateError>(error),
        },
{
    match parent {
        Some(root) => Ok(Located { cargo_toml, root }),
        None => Err(LocateError::ParseError(OutputProblem::NoParent)),
    }
}

/// The path of the manifest that the build tool named: `output` is what
/// `cargo locate-project` printed, JSON with the path as a string under
/// `root`.
pub fn locate_cargo_toml(output: &str) -> (found: Result<String, LocateError>)
    ensures
        match found {
            Ok(cargo_toml) => manifest_in(output@) == Ok::<Seq<char>, LocateError>(cargo_toml@),
            Err(error) => manifest_in(output@) == Err::<Seq<char>, LocateError>(error),
        },
{
    match parse(output) {
        Err(_) => Err(LocateError::ParseError(OutputProblem::Malformed)),
        Ok(document) => cargo_toml_from_field(text_of(member(&document, "root"))),
    }
}

/// The project that the build tool named in `output`: the manifest, and the
/// directory that holds it.
pub fn locate_project(output: &str) -> (found: Result<Located, LocateError>)
    ensures
        located_view(found) == project_in(output@),
{
    match locate_cargo_toml(output) {
        Err(error) => Err(error),
        Ok(cargo_toml) => {
            let above = parent(cargo_toml.as_str());
            project_from_parent(cargo_toml, above)
        },
    }
}

/// The build tool, as the one that knows where projects are.
#[derive(Clone, Copy, Debug)]
pub struct CargoTool {}

impl CargoTool {
    /// Begins the search for the root of the project that encloses `path`.
    /// The first thing to find out is whether `path` is a directory.
    pub fn find_root(&self, env: &Environment, path: &str) -> (begun: (RootSearch, LocateRequest))
        ensures
            begun.0.stage == SearchStage::CheckingDirectory,
            begun.0.cargo_bin@ == cargo_bin_of(*env),
            begun.0.path@ == path@,
            begun.1 matches LocateRequest::CheckDirectory { path: asked } && asked@ == path@,
    {
        let search = RootSearch {
            stage: SearchStage::CheckingDirectory,
            cargo_bin: cargo_bin(env),
            path: path.to_owned(),
        };
        (search, LocateRequest::CheckDirectory { path: path.to_owned() })
    }
}

impl RootSearch {
    /// Takes the reply to the last request and says what to do next.
    ///
    /// A path that is no directory ends the search at once: the build tool
    /// is not run. Where it is one, the build tool is asked for the
    /// enclosing manifest, in that directory. Its output then decides. A
    /// reply that does not answer the last request ends the search too.
    pub fn step(&mut self, reply: LocateReply) -> (request: LocateRequest)
        ensures
            final(self).cargo_bin@ == old(self).cargo_bin@,
            final(self).path@ == old(self).path@,
            match (old(self).stage, reply) {
                (SearchStage::CheckingDirectory, LocateReply::IsDirectory(false)) => {
                    &&& final(self).stage == SearchStage::Finished
                    &&& request == LocateRequest::Finish(Err(LocateError::NotADirectory))
                },
                (SearchStage::CheckingDirectory, LocateReply::IsDirectory(true)) => {
                    &&& final(self).stage == SearchStage::Locating
                    &&& request matches LocateRequest::RunCommand { argv, dir }
                    &&& argv.deep_view() == seq![old(self).cargo_bin@, "locate-project"@]
                    &&& dir@ == old(self).path@
                },
                (SearchStage::Locating, LocateReply::CommandOutput(output)) => {
                    &&& final(self).stage == SearchStage::Finished
                    &&& request matches LocateRequest::Finish(found)
                    &&& located_view(found) == project_in(output@)
                },
                (SearchStage::Locating, LocateReply::CommandFailed) => {
                    &&& final(self).stage == SearchStage::Finished
                    &&& request == LocateRequest::Finish(Err(LocateError::ExternalToolFailure))
                },
                _ => {
                    &&& final(self).stage == SearchStage::Finished
                    &&& request == LocateRequest::Finish(Err(LocateError::OutOfTurn))
                },
            },
    {
        let stage = self.stage;
        self.stage = SearchStage::Finished;
        match (stage, reply) {
            (SearchStage::CheckingDirectory, LocateReply::IsDirectory(is_dir)) => {
                if is_dir {
                    self.stage = SearchStage::Locating;
                    let mut argv: Vec<String> = Vec::new();
                    argv.push(self.cargo_bin.clone());
                    argv.push("locate-project".to_owned());
                    proof {
                        assert(argv.deep_view() =~= seq![self.cargo_bin@, "locate-project"@]);
                    }
                    LocateRequest::RunCommand { argv, dir: self.path.clone() }
                } else {
                    LocateRequest::Finish(Err(LocateError::NotADirectory))
                }
            },
            (SearchStage::Locating, LocateReply::CommandOutput(output)) => {
                LocateRequest::Finish(locate_project(output.as_str()))
            },
            (SearchStage::Locating, LocateReply::CommandFailed) => {
                LocateRequest::Finish(Err(LocateError::ExternalToolFailure))
            },
            _ => LocateRequest::Finish(Err(LocateError::OutOfTurn)),
        }
    }
}

} // verus!
