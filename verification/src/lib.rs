//! Control library for a tiling window-manager daemon: it reconciles the
//! daemon's live set of virtual desktops ("spaces") against a canonical
//! labeled topology, and maps logical workspace selectors and directional
//! window operations to the exact command sequences the daemon understands.
//!
//! The library itself performs no I/O: callers query the daemon, hand the
//! resulting snapshot in, and execute the commands the library plans.

use vstd::prelude::*;

pub mod command;
pub mod error;
pub mod model;
pub mod nav;
pub mod orchestrate;
pub mod planner;
pub mod reconcile;
pub mod protocol;
pub mod text;

verus! {

/// Number of user-addressable workspaces (labels `s1` .. `s10`).
pub const NUM_SPACES: u32 = 10;

} // verus!
