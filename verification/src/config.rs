//! Run configuration.  It currently carries no fields; reading one from a
//! YAML file is plain deserialization and lives outside the library.

use vstd::prelude::*;

verus! {

/// The run configuration.
pub struct Config {}

impl Default for Config {
    /// The empty configuration.
    fn default() -> (r: Config)
        ensures
            r == (Config {  }),
    {
        Config {  }
    }
}

} // verus!
