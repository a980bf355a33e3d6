//! The commands the planner and navigator issue, the exact token sequence
//! each one puts on the wire, and the single table of daemon error texts
//! that are expected and swallowed rather than surfaced.

use vstd::prelude::*;
use vstd::string::StringExecFns;
use crate::text::{spec_contains, spec_dec_digits, str_contains, u32_to_string};

verus! {

/// A direction for a window operation.
#[derive(Debug, Clone, Copy, PartialEq, Eq, Structural)]
pub enum WindowArg {
    North,
    East,
    South,
    West,
}

impl WindowArg {
    pub fn as_str(&self) -> (r: &'static str)
        ensures
            *self is North ==> r@ == "north"@,
            *self is East ==> r@ == "east"@,
            *self is South ==> r@ == "south"@,
            *self is West ==> r@ == "west"@,
    {
        match *self {
            WindowArg::North => "north",
            WindowArg::East => "east",
            WindowArg::South => "south",
            WindowArg::West => "west",
        }
    }
}

/// A window operation.
#[derive(Debug, Clone, Copy, PartialEq, Eq, Structural)]
pub enum WindowOp {
    Focus,
    Swap,
    Warp,
}

impl WindowOp {
    pub fn as_str(&self) -> (r: &'static str)
        ensures
            *self is Focus ==> r@ == "--focus"@,
            *self is Swap ==> r@ == "--swap"@,
            *self is Warp ==> r@ == "--warp"@,
    {
        match *self {
            WindowOp::Focus => "--focus",
            WindowOp::Swap => "--swap",
            WindowOp::Warp => "--warp",
        }
    }
}

/// The spec-level token list of a direction.
pub open spec fn spec_dir_str(d: WindowArg) -> Seq<char> {
    match d {
        WindowArg::North => "north"@,
        WindowArg::East => "east"@,
        WindowArg::South => "south"@,
        WindowArg::West => "west"@,
    }
}

/// The spec-level flag of a window operation.
pub open spec fn spec_op_str(op: WindowOp) -> Seq<char> {
    match op {
        WindowOp::Focus => "--focus"@,
        WindowOp::Swap => "--swap"@,
        WindowOp::Warp => "--warp"@,
    }
}

/// One request to the daemon (or, for `Sleep`, a pause between requests
/// during the settle pass).
#[derive(Debug, Clone, PartialEq, Eq)]
pub enum Command {
    /// `space --focus <selector>`: focus a space by OS index or by label.
    FocusSpace { selector: String },
    /// `space --layout <bsp|stack>` on the focused space.
    SetLayout { bsp: bool },
    /// `space <index> --label <label>`.
    LabelSpace { index: u32, label: String },
    /// `space --create`.
    CreateSpace,
    /// `space <index> --destroy`.
    DestroySpace { index: u32 },
    /// `space <index> --display <display>`.
    MoveSpaceToDisplay { space_index: u32, display_index: u32 },
    /// `window <id> --space <label>`: send a window to a labeled space.
    MoveWindowToSpace { window_id: u32, label: String },
    /// `window <op> <direction>`: the native directional operation.
    NativeWindowOp { op: WindowOp, direction: WindowArg },
    /// `window <op> <id>`: the operation against a concrete window.
    WindowOpOnWindow { op: WindowOp, window_id: u32 },
    /// `window --space <label>`: send the focused window to a labeled space.
    SendFocusedWindowToSpace { label: String },
    /// Wait this long before the next request (settle pass only).
    Sleep { millis: u32 },
}

impl Command {
    /// The exact token sequence this command puts on the wire (`Sleep`
    /// sends nothing).
    pub open spec fn spec_tokens(&self) -> Seq<Seq<char>> {
        match *self {
            Command::FocusSpace { selector } => seq!["space"@, "--focus"@, selector@],
            Command::SetLayout { bsp } => seq![
                "space"@,
                "--layout"@,
                if bsp {
                    "bsp"@
                } else {
                    "stack"@
                },
            ],
            Command::LabelSpace { index, label } => seq![
                "space"@,
                spec_dec_digits(index as nat),
                "--label"@,
                label@,
            ],
            Command::CreateSpace => seq!["space"@, "--create"@],
            Command::DestroySpace { index } => seq![
                "space"@,
                spec_dec_digits(index as nat),
                "--destroy"@,
            ],
            Command::MoveSpaceToDisplay { space_index, display_index } => seq![
                "space"@,
                spec_dec_digits(space_index as nat),
                "--display"@,
                spec_dec_digits(display_index as nat),
            ],
            Command::MoveWindowToSpace { window_id, label } => seq![
                "window"@,
                spec_dec_digits(window_id as nat),
                "--space"@,
                label@,
            ],
            Command::NativeWindowOp { op, direction } => seq![
                "window"@,
                spec_op_str(op),
                spec_dir_str(direction),
            ],
            Command::WindowOpOnWindow { op, window_id } => seq![
                "window"@,
                spec_op_str(op),
                spec_dec_digits(window_id as nat),
            ],
            Command::SendFocusedWindowToSpace { label } => seq![
                "window"@,
                "--space"@,
                label@,
            ],
            Command::Sleep { .. } => Seq::empty(),
        }
    }

    /// Which daemon error texts this command is allowed to swallow: the
    /// no-op replies the daemon gives when the requested state already
    /// holds, and, for window moves during reconciliation, the replies
    /// that signal a vanished window or a temporarily absent label.
    pub open spec fn spec_benign(&self, err: Seq<char>) -> bool {
        match *self {
            Command::FocusSpace { .. } => spec_contains(
                err,
                "cannot focus an already focused space."@,
            ),
            Command::MoveSpaceToDisplay { .. } => spec_contains(
                err,
                "acting space is already located on the given display."@,
            ),
            Command::MoveWindowToSpace { .. } => spec_contains(
                err,
                "could not locate the window to act on!"@,
            ) || spec_contains(err, "is not a valid option for SPACE_SEL"@),
            _ => false,
        }
    }

    /// Build the token sequence to send for this command.
    pub fn tokens(&self) -> (r: Vec<String>)
        ensures
            r.deep_view() == self.spec_tokens(),
    {
        let mut v: Vec<String> = Vec::new();
        match self {
            Command::FocusSpace { selector } => {
                v.push(String::from_str("space"));
                v.push(String::from_str("--focus"));
                v.push(selector.clone());
            },
            Command::SetLayout { bsp } => {
                v.push(String::from_str("space"));
                v.push(String::from_str("--layout"));
                if *bsp {
                    v.push(String::from_str("bsp"));
                } else {
                    v.push(String::from_str("stack"));
                }
            },
            Command::LabelSpace { index, label } => {
                v.push(String::from_str("space"));
                v.push(u32_to_string(*index));
                v.push(String::from_str("--label"));
                v.push(label.clone());
            },
            Command::CreateSpace => {
                v.push(String::from_str("space"));
                v.push(String::from_str("--create"));
            },
            Command::DestroySpace { index } => {
                v.push(String::from_str("space"));
                v.push(u32_to_string(*index));
                v.push(String::from_str("--destroy"));
            },
            Command::MoveSpaceToDisplay { space_index, display_index } => {
                v.push(String::from_str("space"));
                v.push(u32_to_string(*space_index));
                v.push(String::from_str("--display"));
                v.push(u32_to_string(*display_index));
            },
            Command::MoveWindowToSpace { window_id, label } => {
                v.push(String::from_str("window"));
                v.push(u32_to_string(*window_id));
                v.push(String::from_str("--space"));
                v.push(label.clone());
            },
            Command::NativeWindowOp { op, direction } => {
                v.push(String::from_str("window"));
                v.push(String::from_str(op.as_str()));
                v.push(String::from_str(direction.as_str()));
            },
            Command::WindowOpOnWindow { op, window_id } => {
                v.push(String::from_str("window"));
                v.push(String::from_str(op.as_str()));
                v.push(u32_to_string(*window_id));
            },
            Command::SendFocusedWindowToSpace { label } => {
                v.push(String::from_str("window"));
                v.push(String::from_str("--space"));
                v.push(label.clone());
            },
            Command::Sleep { .. } => {},
        }
        proof {
            assert(v.deep_view() =~= self.spec_tokens());
        }
        v
    }

    /// Decide whether a daemon error text for this command is expected and
    /// may be swallowed.
    pub fn benign(&self, err: &str) -> (r: bool)
        ensures
            r == self.spec_benign(err@),
    {
        match self {
            Command::FocusSpace { .. } => str_contains(
                err,
                "cannot focus an already focused space.",
            ),
            Command::MoveSpaceToDisplay { .. } => str_contains(
                err,
                "acting space is already located on the given display.",
            ),
            Command::MoveWindowToSpace { .. } => {
                if str_contains(err, "could not locate the window to act on!") {
                    true
                } else {
                    str_contains(err, "is not a valid option for SPACE_SEL")
                }
            },
            _ => false,
        }
    }
}

} // verus!
