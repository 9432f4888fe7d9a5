//! Process configuration, constructed once at startup and threaded
//! through explicitly. Nothing is currently read from the environment, so
//! the check always passes.

use vstd::prelude::*;

verus! {

/// The process configuration.
#[derive(Debug, Clone, Copy, PartialEq, Eq)]
pub struct Config {}

impl Config {
    /// Build the configuration. Nothing can be missing yet.
    pub fn init() -> (r: Result<Config, String>)
        ensures
            r is Ok,
    {
        Ok(Config {})
    }

    /// Whether the configuration is usable.
    pub fn check(&self) -> (r: bool)
        ensures
            r,
    {
        true
    }
}

} // verus!
