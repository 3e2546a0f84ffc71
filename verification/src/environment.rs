//! The values of the environment that steer a run.

use vstd::prelude::*;

verus! {

/// What the caller read from the process environment, one field for each
/// variable that matters. A variable that is not set is `None`.
#[derive(Clone, Debug)]
pub struct Environment {
    /// `CARGO`: the build tool to call back into.
    pub cargo: Option<String>,
    /// `CARGO_ENCODED_RUSTFLAGS`: compiler flags, one field per flag, the
    /// fields parted by the delimiter character.
    pub cargo_encoded_rustflags: Option<String>,
    /// `RUSTFLAGS`: compiler flags parted by spaces.
    pub rustflags: Option<String>,
}

impl Environment {
    /// An environment in which none of the variables is set.
    pub fn new() -> (env: Environment)
        ensures
            env.cargo is None,
            env.cargo_encoded_rustflags is None,
            env.rustflags is None,
    {
        Environment { cargo: None, cargo_encoded_rustflags: None, rustflags: None }
    }
}

impl Default for Environment {
    fn default() -> (env: Environment)
        ensures
            env.cargo is None,
            env.cargo_encoded_rustflags is None,
            env.rustflags is None,
    {
        Environment::new()
    }
}

} // verus!
