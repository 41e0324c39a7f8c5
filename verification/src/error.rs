//! Failure taxonomy of the host runtime.
//!
//! Every variant is fatal for the run: the embedding attempts no mid-run
//! recovery, restart of the whole process is the only recovery mechanism.

use vstd::prelude::*;

verus! {

/// A fatal condition raised by the host runtime.
#[derive(Clone, Copy, Debug, PartialEq, Eq, Structural)]
pub enum FatalError {
    /// The module cannot be parsed or instantiated, a required export is
    /// missing, or an export has a mismatched signature.
    Configuration,
    /// Guest memory could not be grown far enough to reserve the host
    /// pixel-buffer region.
    ResourceExhaustion,
    /// The guest broke the pixel-buffer protocol: a returned or requested
    /// offset does not leave room for one whole pixel buffer in memory.
    BoundsViolation,
    /// A guest call trapped.
    GuestTrap,
}

impl FatalError {
    /// A short human-readable name for the condition.
    pub fn describe(&self) -> (s: &'static str)
    {
        match self {
            FatalError::Configuration => "configuration error",
            FatalError::ResourceExhaustion => "resource exhaustion",
            FatalError::BoundsViolation => "pixel buffer bounds violation",
            FatalError::GuestTrap => "guest call trapped",
        }
    }
}

} // verus!
