//! Errors the planning and navigation logic itself can raise. Transport
//! failures and daemon error texts never enter the library: callers keep
//! those and only ask the library whether a given daemon error is benign
//! for the command that produced it.

use vstd::prelude::*;

verus! {

#[derive(Debug, Clone, Copy, PartialEq, Eq, Structural)]
pub enum Error {
    /// The snapshot reports a display count the labeling schemes do not
    /// cover (zero, or more than three).
    UnsupportedDisplayCount(u32),
    /// No space in the snapshot has focus.
    NoFocusedSpace,
    /// The focused space's label is not of the form `s<k>`.
    UnlabeledFocusedSpace,
    /// The persisted recent-label cursor exceeds the current space count.
    RecentOutOfRange { recent: u32, spaces: u32 },
    /// A command needed the persisted cursor and none was supplied.
    SidecarMissing,
    /// A message payload does not fit the 32-bit length prefix.
    MessageTooLong,
    /// A selector argument is not a keyword and not a label number in
    /// range.
    InvalidSpaceArg,
}

} // verus!
