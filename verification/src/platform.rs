//! The operating system the application runs on.

use vstd::prelude::*;

verus! {

/// The platforms whose behaviour differs. Everything that is neither macOS nor
/// Linux is treated alike.
#[derive(Clone, Copy, Debug, PartialEq, Eq, Structural)]
pub enum Platform {
    MacOs,
    Linux,
    Other,
}

} // verus!
