//! The configuration of the service.

use vstd::prelude::*;

verus! {

/// The settings read at startup. None are defined yet.
#[derive(Clone, Copy, Debug, PartialEq, Eq, Structural)]
pub struct Config {}

impl Config {
    /// The configuration with every setting at its default.
    pub fn new() -> (config: Config)
        ensures
            config == (Config {  }),
    {
        Config {  }
    }
}

} // verus!
