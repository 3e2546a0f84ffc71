//! The caller's settings for build-tool runs.

use vstd::prelude::*;

verus! {

/// Extra arguments for the build tool. They are handed on as they are, in
/// their order, behind the arguments that the library itself writes.
#[derive(Clone, Debug)]
pub struct Options {
    /// Arguments for every run of the build tool.
    pub additional_cargo_args: Vec<String>,
    /// Arguments for runs of the test phase only, behind the others.
    pub additional_cargo_test_args: Vec<String>,
}

impl Default for Options {
    /// No extra arguments.
    fn default() -> (options: Options)
        ensures
            options.additional_cargo_args@.len() == 0,
            options.additional_cargo_test_args@.len() == 0,
    {
        Options { additional_cargo_args: Vec::new(), additional_cargo_test_args: Vec::new() }
    }
}

} // verus!
