//! Configuration errors raised when the simulation is built from
//! parameters it cannot make progress with.

use vstd::prelude::*;

verus! {

/// Why a configuration was rejected at construction time.
#[derive(Copy, Clone, Debug, PartialEq, Eq, Structural)]
pub enum ConfigError {
    /// The grid has a non-positive width or height.
    ZeroSizedGrid,
    /// The grid is too small to hold the initial snake.
    GridTooSmall,
    /// A timer interval of zero milliseconds would fire forever.
    NonPositiveInterval,
}

} // verus!
