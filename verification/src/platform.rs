//! Which operating system a decision is made for.

use vstd::prelude::*;

verus! {

/// The platforms that differ in what they allow.
#[derive(Clone, Copy, Debug, PartialEq, Eq, Structural)]
pub enum Os {
    Windows,
    MacOs,
    /// Linux and everything else.
    Other,
}

} // verus!
