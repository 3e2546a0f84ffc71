//! Driving the build tool for a mutation-testing run: which arguments and
//! compiler flags a build-tool invocation gets, where a project's root is,
//! which source files of a workspace are open to mutation, and how a running
//! child is supervised.
//!
//! The library performs no input or output of its own. Whatever has to be
//! read from the host (environment variables, a directory test, a command's
//! output, the state of a child process) is handed in as a plain value, and
//! whatever has to be done is handed back as a value that says so.

pub mod argv;
pub mod discovery;
pub mod environment;
pub mod flags;
pub mod json;
pub mod locate;
pub mod options;
pub mod paths;
pub mod phase;
pub mod sorted;
pub mod source;
pub mod summary;
pub mod supervisor;
pub mod text;
