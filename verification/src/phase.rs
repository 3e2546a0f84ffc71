//! The phases of a build-tool run.

use vstd::prelude::*;

verus! {

/// What the build tool is asked to do with the tree.
#[derive(Clone, Copy, Debug, PartialEq, Eq, Structural)]
pub enum Phase {
    /// Type-check the tree and its tests.
    Check,
    /// Build the tree and its tests.
    Build,
    /// Build and run the tests.
    Test,
}

impl Phase {
    /// The subcommand that selects this phase, as characters.
    pub open spec fn subcommand(self) -> Seq<char> {
        match self {
            Phase::Check => "check"@,
            Phase::Build => "build"@,
            Phase::Test => "test"@,
        }
    }

    /// The build tool's subcommand for this phase.
    pub fn name(&self) -> (name: &'static str)
        ensures
            name@ == self.subcommand(),
    {
        match self {
            Phase::Check => "check",
            Phase::Build => "build",
            Phase::Test => "test",
        }
    }
}

} // verus!
