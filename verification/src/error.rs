//! Configuration errors, reported before any work begins.

use vstd::prelude::*;

verus! {

/// Names the configuration parameter that was rejected.
#[derive(Clone, Copy, Debug, PartialEq, Eq, Structural)]
pub enum ConfigError {
    /// The modulus is 0 or 1, so no residue other than 0 exists.
    InvalidModulus,
    /// The base is 0 or 1, so bytes at different positions cannot be told apart.
    InvalidBase,
    /// A pool of zero workers was asked for.
    InvalidThreadCount,
}

} // verus!
