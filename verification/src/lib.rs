//! The logic of a desktop monitor utility: which display is the primary one,
//! and what it takes to make another display primary.
//!
//! All attached monitors share one virtual-desktop coordinate space, and the
//! monitor whose top-left corner sits at the origin is the primary one.
//! Reassigning the primary monitor therefore translates the whole layout so
//! that the chosen monitor lands at the origin. The [`reassign`] module holds
//! the verified core of that operation: the planner that turns a snapshot of
//! the attached monitors into the exact batch of staged position writes the
//! operating system must commit, the model of the layout such a commit leaves
//! behind, and the laws that the reassignment obeys. The [`monitor`] module
//! holds the monitor snapshot the planner consumes, and [`query`] the small
//! computations of enumeration: rectangle bounds to a pixel size, a refresh
//! rate to millihertz, and the content of a nul-terminated wide device name.
//!
//! Everything that talks to the operating system — enumeration, display-mode
//! reads, the staging and commit calls — lives outside this library and hands
//! it plain values.

pub mod monitor;
pub mod query;
pub mod reassign;

use vstd::prelude::*;

verus! {

/// Baseline DPI against which monitor scale factors are measured: a monitor
/// reporting this DPI has a scale factor of exactly one.
pub const BASE_DPI: u32 = 96;

/// True exactly when every bit of `flag` is set in `bitset`.
pub fn has_flag(bitset: u32, flag: u32) -> (r: bool)
    ensures
        r == (bitset & flag == flag),
{
    bitset & flag == flag
}

} // verus!
