//! The navigator: it maps logical workspace selectors to label indices,
//! plans the one or two focus commands that move each display to its half
//! of a composite desktop, and plans the fallback for directional window
//! operations that run off the edge of a display.

use vstd::prelude::*;
use vstd::wrapping::u32_specs;
use crate::NUM_SPACES;
use crate::command::{Command, WindowArg, WindowOp};
use crate::error::Error;
use crate::model::{
    Space, YabaiStates, spec_first_focused, spec_first_with_label, spec_has_focused,
    spec_has_label, spec_needs_restore,
};
use crate::planner::spec_extra_displays;
use crate::text::{
    label_for, parse_u32, spec_contains, spec_label, spec_label_index, spec_parse_u32,
    str_contains, str_eq,
};

verus! {

/// A workspace selector, as given on the command line.
#[derive(Debug, Clone, Copy, PartialEq, Eq, Structural)]
pub enum SpaceArg {
    Next,
    Prev,
    Recent,
    Extra,
    Space(u32),
}

/// What `parse_space_arg` yields: one of the keyword selectors, or a
/// literal label index in `1..=NUM_SPACES`.
pub open spec fn spec_space_arg(s: Seq<char>) -> Option<SpaceArg> {
    if s == "next"@ {
        Some(SpaceArg::Next)
    } else if s == "prev"@ {
        Some(SpaceArg::Prev)
    } else if s == "recent"@ {
        Some(SpaceArg::Recent)
    } else if s == "extra"@ {
        Some(SpaceArg::Extra)
    } else {
        match spec_parse_u32(s) {
            Some(k) => if 1 <= k && k <= NUM_SPACES {
                Some(SpaceArg::Space(k))
            } else {
                None
            },
            None => None,
        }
    }
}

/// Parse a selector argument. Invalid arguments and out-of-range numbers
/// are rejected before any command is planned.
pub fn parse_space_arg(src: &str) -> (r: Result<SpaceArg, Error>)
    ensures
        r matches Ok(a) ==> spec_space_arg(src@) == Some(a),
        r is Err <==> spec_space_arg(src@) is None,
        r matches Err(e) ==> e == Error::InvalidSpaceArg,
{
    if str_eq(src, "next") {
        Ok(SpaceArg::Next)
    } else if str_eq(src, "prev") {
        Ok(SpaceArg::Prev)
    } else if str_eq(src, "recent") {
        Ok(SpaceArg::Recent)
    } else if str_eq(src, "extra") {
        Ok(SpaceArg::Extra)
    } else {
        match parse_u32(src) {
            Some(k) => {
                if 1 <= k && k <= NUM_SPACES {
                    Ok(SpaceArg::Space(k))
                } else {
                    Err(Error::InvalidSpaceArg)
                }
            },
            None => Err(Error::InvalidSpaceArg),
        }
    }
}

/// The snapshot calls for a restore before any navigation: the OS spawned
/// an unlabeled native-fullscreen space.
pub fn needs_restore(s: &YabaiStates) -> (r: bool)
    ensures
        r == spec_needs_restore(s.spaces@),
{
    match s.find_unlabeled_space() {
        Some(_) => true,
        None => false,
    }
}

/// The paging step: the two main displays page together, so selectors move
/// by two labels when more than one display is present.
pub open spec fn spec_step(d: int) -> u32 {
    if d >= 2 {
        2u32
    } else {
        1u32
    }
}

/// The pair partner of label index `l`: the other half of its composite
/// desktop (with the arithmetic wrapping as 32-bit unsigned, as the label
/// indices themselves do).
pub open spec fn spec_pair_partner(l: u32) -> u32 {
    if l % 2 == 0 {
        u32_specs::wrapping_sub(l, 1)
    } else {
        u32_specs::wrapping_add(l, 1)
    }
}

/// The label index a selector designates, given the focused label index
/// `f`, the display count `d`, the space count `count`, and the persisted
/// cursor (read only for `Recent`, and `Some` on every path that reaches
/// the formula).
pub open spec fn spec_target_label(
    arg: SpaceArg,
    f: u32,
    d: int,
    count: u32,
    cursor: Option<u32>,
) -> u32 {
    match arg {
        SpaceArg::Recent => cursor->0,
        SpaceArg::Next => {
            let l = f + spec_step(d);
            if l > NUM_SPACES {
                (l % (NUM_SPACES as int)) as u32
            } else {
                (l) as u32
            }
        },
        SpaceArg::Prev => {
            let st = spec_step(d);
            if f <= st {
                u32_specs::wrapping_sub(
                    u32_specs::wrapping_sub(
                        u32_specs::wrapping_sub(count, 1),
                        spec_extra_displays(d) as u32,
                    ),
                    (st - f) as u32,
                )
            } else {
                (f - st) as u32
            }
        },
        SpaceArg::Extra => (NUM_SPACES + 1) as u32,
        SpaceArg::Space(k) => k,
    }
}

/// `c` focuses the space labeled `s<l>`.
pub open spec fn spec_is_focus_label(c: Command, l: u32) -> bool {
    c matches Command::FocusSpace { selector } && selector@ == spec_label(l)
}

/// The first space labeled `l` is visible.
pub open spec fn spec_first_labeled_visible(spaces: Seq<Space>, l: Seq<char>) -> bool {
    exists|k: int| #[trigger] spec_first_with_label(spaces, l, k) && spaces[k].is_visible
}

/// The focus commands for target label `target` when the focused label is
/// `f`: with one display, focus the target; with two or three, first bring
/// the pair partner's display over — unless the partner is absent, already
/// focused, or already visible — then focus the target.
pub open spec fn spec_focus_cmds_ok(
    cmds: Seq<Command>,
    spaces: Seq<Space>,
    target: u32,
    f: u32,
    d: int,
) -> bool {
    if d == 1 {
        cmds.len() == 1 && spec_is_focus_label(cmds[0], target)
    } else {
        let p = spec_pair_partner(target);
        if spec_has_label(spaces, spec_label(p)) && f != p && !spec_first_labeled_visible(
            spaces,
            spec_label(p),
        ) {
            &&& cmds.len() == 2
            &&& spec_is_focus_label(cmds[0], p)
            &&& spec_is_focus_label(cmds[1], target)
        } else {
            cmds.len() == 1 && spec_is_focus_label(cmds[0], target)
        }
    }
}

/// A planned `focus-space`: the commands to run, the label index they
/// focus, and the cursor to persist afterwards (the previously focused
/// label, so that `Recent` toggles between the two most recent spaces).
#[derive(Debug)]
pub struct FocusPlan {
    pub commands: Vec<Command>,
    pub target: u32,
    pub new_cursor: u32,
}

/// The successful outcome of `plan_focus_space`, at the first focused
/// position `k`: the focused label parses as `s<f>`, the cursor to persist
/// is `f`, the target follows the selector formula, and the commands focus
/// the target (and first its pair partner, where one is due).
pub open spec fn spec_focus_plan_ok(
    spaces: Seq<Space>,
    d: int,
    count: u32,
    arg: SpaceArg,
    cursor: Option<u32>,
    k: int,
    p: FocusPlan,
) -> bool {
    spec_label_index(spaces[k].label@) matches Some(f) && {
        &&& p.new_cursor == f
        &&& p.target == spec_target_label(arg, f, d, count, cursor)
        &&& spec_focus_cmds_ok(p.commands@, spaces, p.target, f, d)
    }
}

/// The first focused space exists and its label parses as `s<f>`.
pub open spec fn spec_focused_labeled(spaces: Seq<Space>) -> bool {
    exists|k: int|
        #[trigger] spec_first_focused(spaces, k) && spec_label_index(spaces[k].label@) is Some
}

/// Plan a `focus-space` command: compute the target label index from the
/// selector and plan the focus commands. The cursor is the persisted
/// recent-label value, if the caller had one; only `Recent` reads it.
pub fn plan_focus_space(s: &YabaiStates, arg: SpaceArg, cursor: Option<u32>) -> (r: Result<
    FocusPlan,
    Error,
>)
    requires
        s.displays@.len() <= u32::MAX,
        s.spaces@.len() <= u32::MAX,
    ensures
        r matches Ok(p) ==> exists|k: int|
            #[trigger] spec_first_focused(s.spaces@, k) && spec_focus_plan_ok(
                s.spaces@,
                s.displays@.len() as int,
                s.spaces@.len() as u32,
                arg,
                cursor,
                k,
                p,
            ),
        (r == Err::<FocusPlan, Error>(Error::NoFocusedSpace)) <==> !spec_has_focused(s.spaces@),
        (r == Err::<FocusPlan, Error>(Error::UnlabeledFocusedSpace)) <==> (spec_has_focused(
            s.spaces@,
        ) && !spec_focused_labeled(s.spaces@)),
        (r == Err::<FocusPlan, Error>(Error::SidecarMissing)) <==> (spec_focused_labeled(s.spaces@)
            && arg is Recent && cursor is None),
        (r == Err::<FocusPlan, Error>(
            Error::RecentOutOfRange { recent: cursor->0, spaces: s.spaces@.len() as u32 },
        )) <==> (spec_focused_labeled(s.spaces@) && arg is Recent && (cursor matches Some(c) && c
            > s.spaces@.len())),
        (r == Err::<FocusPlan, Error>(Error::UnsupportedDisplayCount(s.displays@.len() as u32)))
            <==> (spec_focused_labeled(s.spaces@) && (arg is Recent ==> (cursor matches Some(c)
            && c <= s.spaces@.len())) && (s.displays@.len() == 0 || s.displays@.len() > 3)),
        r is Err <==> (!spec_focused_labeled(s.spaces@) || (arg is Recent && (cursor is None
            || (cursor matches Some(c) && c > s.spaces@.len()))) || s.displays@.len() == 0
            || s.displays@.len() > 3),
{
    let d = s.num_displays();
    let count = s.num_spaces();
    let focused = match s.focused_space() {
        None => { return Err(Error::NoFocusedSpace); },
        Some(f) => f,
    };
    let f = match focused.label_index() {
        None => { return Err(Error::UnlabeledFocusedSpace); },
        Some(f) => f,
    };
    proof {
        let k = choose|k: int|
            #[trigger] spec_first_focused(s.spaces@, k) && *focused == s.spaces@[k];
        assert(spec_focused_labeled(s.spaces@));
        assert forall|k2: int| spec_first_focused(s.spaces@, k2) implies k2 == k by {}
    }
    let step: u32 = if d >= 2 {
        2
    } else {
        1
    };
    let target: u32 = match arg {
        SpaceArg::Recent => {
            match cursor {
                None => { return Err(Error::SidecarMissing); },
                Some(c) => {
                    if c > count {
                        return Err(Error::RecentOutOfRange { recent: c, spaces: count });
                    }
                    c
                },
            }
        },
        SpaceArg::Next => {
            let l: u64 = f as u64 + step as u64;
            if l > NUM_SPACES as u64 {
                (l % NUM_SPACES as u64) as u32
            } else {
                l as u32
            }
        },
        SpaceArg::Prev => {
            if f <= step {
                let extra: u32 = if d > 2 {
                    d - 2
                } else {
                    0
                };
                count.wrapping_sub(1).wrapping_sub(extra).wrapping_sub(step - f)
            } else {
                f - step
            }
        },
        SpaceArg::Extra => NUM_SPACES + 1,
        SpaceArg::Space(k) => k,
    };
    if d == 0 || d > 3 {
        return Err(Error::UnsupportedDisplayCount(d));
    }
    assert(target == spec_target_label(arg, f, s.displays@.len() as int, count, cursor));
    let mut commands: Vec<Command> = Vec::new();
    if d == 1 {
        commands.push(Command::FocusSpace { selector: label_for(target) });
    } else {
        let partner: u32 = if target % 2 == 0 {
            target.wrapping_sub(1)
        } else {
            target.wrapping_add(1)
        };
        let mut focus_partner = false;
        match s.find_space_by_label_index(partner) {
            None => {},
            Some(nb) => {
                if f != partner && !nb.is_visible {
                    focus_partner = true;
                }
            },
        }
        if focus_partner {
            commands.push(Command::FocusSpace { selector: label_for(partner) });
        }
        commands.push(Command::FocusSpace { selector: label_for(target) });
    }
    Ok(FocusPlan { commands, target, new_cursor: f })
}

/// What a failed native directional operation may do next.
#[derive(Debug, Clone, PartialEq, Eq)]
pub enum WindowFallback {
    /// The daemon's error was not one of the two expected texts (or the
    /// direction was vertical, or the pair partner is absent): surface the
    /// original error unchanged.
    Surface,
    /// Run these commands instead.
    Commands(Vec<Command>),
}

/// The daemon error texts after which a horizontal operation falls through
/// to the neighbor space: no managed window further in that direction, or
/// no selected window at all (an empty space).
pub open spec fn spec_dirward_error(err: Seq<char>, dir: WindowArg) -> bool {
    ||| (dir is East && spec_contains(err, "could not locate a eastward managed window."@))
    ||| (dir is West && spec_contains(err, "could not locate a westward managed window."@))
    ||| spec_contains(err, "could not locate the selected window."@)
}

/// The window the fallback acts on: the neighbor's first (east) or last
/// (west) window — but the daemon's first-window and last-window fields
/// can be stale, so a window of zero, or one no longer in the neighbor's
/// window list, falls back to the focused space's own first or last.
pub open spec fn spec_stale_pick(nb: Space, foc: Space, dir: WindowArg) -> u32 {
    let cand = if dir is East {
        nb.first_window
    } else {
        nb.last_window
    };
    if cand == 0 || !nb.windows@.contains(cand) {
        if dir is East {
            foc.first_window
        } else {
            foc.last_window
        }
    } else {
        cand
    }
}

/// The first focused space's label parses, and the pair partner of its
/// label index is carried by no space.
pub open spec fn spec_partner_absent(spaces: Seq<Space>) -> bool {
    exists|k: int|
        #[trigger] spec_first_focused(spaces, k) && (spec_label_index(spaces[k].label@)
            matches Some(f) && !spec_has_label(spaces, spec_label(spec_pair_partner(f))))
}

/// The fallback commands, at the first focused position `k` (and, for more
/// than one display, the first position `kn` of the pair partner's space).
pub open spec fn spec_wf_cmds_ok(
    cmds: Seq<Command>,
    spaces: Seq<Space>,
    d: int,
    op: WindowOp,
    dir: WindowArg,
) -> bool {
    if d == 1 {
        exists|k: int|
            #[trigger] spec_first_focused(spaces, k) && {
                let wid = if dir is East {
                    spaces[k].first_window
                } else {
                    spaces[k].last_window
                };
                cmds =~= seq![Command::WindowOpOnWindow { op, window_id: wid }]
            }
    } else {
        exists|k: int|
            #[trigger] spec_first_focused(spaces, k) && (spec_label_index(spaces[k].label@)
                matches Some(f) && exists|kn: int|
                #[trigger] spec_first_with_label(spaces, spec_label(spec_pair_partner(f)), kn) && {
                    let nb = spaces[kn];
                    let foc = spaces[k];
                    if op is Focus {
                        cmds =~= seq![
                            Command::WindowOpOnWindow {
                                op,
                                window_id: spec_stale_pick(nb, foc, dir),
                            },
                        ]
                    } else {
                        &&& cmds.len() == 2
                        &&& if nb.windows@.len() == 0 {
                            cmds[0] matches Command::SendFocusedWindowToSpace { label } && label@
                                == nb.label@
                        } else {
                            cmds[0] == (Command::WindowOpOnWindow {
                                op,
                                window_id: if dir is East {
                                    nb.first_window
                                } else {
                                    nb.last_window
                                },
                            })
                        }
                        &&& (cmds[1] matches Command::FocusSpace { selector } && selector@
                            == nb.label@)
                    }
                })
    }
}

/// Plan what a failed native directional operation does next. `err` is the
/// daemon's error text for the native attempt. Vertical directions and
/// unexpected errors surface; horizontal ones fall through to the pair
/// partner (or, with one display, wrap within the focused space).
pub fn plan_window_fallback(
    s: &YabaiStates,
    op: WindowOp,
    direction: WindowArg,
    err: &str,
) -> (r: Result<WindowFallback, Error>)
    requires
        s.displays@.len() <= u32::MAX,
        s.spaces@.len() <= u32::MAX,
    ensures
        (r matches Ok(w) && w is Surface) <==> ((direction is North || direction is South) || (
        !spec_dirward_error(err@, direction)) || (2 <= s.displays@.len() <= 3
            && spec_dirward_error(err@, direction) && spec_partner_absent(s.spaces@))),
        (r == Err::<WindowFallback, Error>(Error::NoFocusedSpace)) <==> ((direction is East
            || direction is West) && spec_dirward_error(err@, direction) && 1 <= s.displays@.len()
            <= 3 && !spec_has_focused(s.spaces@)),
        (r == Err::<WindowFallback, Error>(Error::UnlabeledFocusedSpace)) <==> ((direction is East
            || direction is West) && spec_dirward_error(err@, direction) && 2 <= s.displays@.len()
            <= 3 && spec_has_focused(s.spaces@) && !spec_focused_labeled(s.spaces@)),
        (r == Err::<WindowFallback, Error>(Error::UnsupportedDisplayCount(
            s.displays@.len() as u32,
        ))) <==> ((direction is East || direction is West) && spec_dirward_error(err@, direction)
            && (s.displays@.len() == 0 || s.displays@.len() > 3)),
        r matches Ok(w) ==> (w matches WindowFallback::Commands(cmds) ==> spec_wf_cmds_ok(
            cmds@,
            s.spaces@,
            s.displays@.len() as int,
            op,
            direction,
        )),
        r is Err <==> ((direction is East || direction is West) && spec_dirward_error(
            err@,
            direction,
        ) && (s.displays@.len() == 0 || s.displays@.len() > 3 || !spec_has_focused(s.spaces@) || (2
            <= s.displays@.len() <= 3 && !spec_focused_labeled(s.spaces@)))),
{
    let horizontal = match direction {
        WindowArg::East => true,
        WindowArg::West => true,
        _ => false,
    };
    if !horizontal {
        return Ok(WindowFallback::Surface);
    }
    let mut expected = match direction {
        WindowArg::East => str_contains(err, "could not locate a eastward managed window."),
        _ => str_contains(err, "could not locate a westward managed window."),
    };
    if !expected {
        expected = str_contains(err, "could not locate the selected window.");
    }
    if !expected {
        return Ok(WindowFallback::Surface);
    }
    let d = s.num_displays();
    if d == 0 || d > 3 {
        return Err(Error::UnsupportedDisplayCount(d));
    }
    let focused = match s.focused_space() {
        None => { return Err(Error::NoFocusedSpace); },
        Some(f) => f,
    };
    proof {
        let k = choose|k: int|
            #[trigger] spec_first_focused(s.spaces@, k) && *focused == s.spaces@[k];
        assert forall|k2: int| spec_first_focused(s.spaces@, k2) implies k2 == k by {}
    }
    if d == 1 {
        let wid = match direction {
            WindowArg::East => focused.first_window,
            _ => focused.last_window,
        };
        let mut cmds: Vec<Command> = Vec::new();
        cmds.push(Command::WindowOpOnWindow { op, window_id: wid });
        return Ok(WindowFallback::Commands(cmds));
    }
    let f = match focused.label_index() {
        None => { return Err(Error::UnlabeledFocusedSpace); },
        Some(f) => f,
    };
    let partner: u32 = if f % 2 == 0 {
        f.wrapping_sub(1)
    } else {
        f.wrapping_add(1)
    };
    let nb = match s.find_space_by_label_index(partner) {
        None => { return Ok(WindowFallback::Surface); },
        Some(nb) => nb,
    };
    proof {
        let kn = choose|kn: int|
            #[trigger] spec_first_with_label(s.spaces@, spec_label(partner), kn) && *nb
                == s.spaces@[kn];
        assert forall|k2: int|
            spec_first_with_label(s.spaces@, spec_label(partner), k2) implies k2 == kn by {}
    }
    let mut cmds: Vec<Command> = Vec::new();
    match op {
        WindowOp::Focus => {
            let cand = match direction {
                WindowArg::East => nb.first_window,
                _ => nb.last_window,
            };
            let stale = if cand == 0 {
                true
            } else {
                nb.find_window_id(&cand).is_none()
            };
            let wid = if stale {
                match direction {
                    WindowArg::East => focused.first_window,
                    _ => focused.last_window,
                }
            } else {
                cand
            };
            cmds.push(Command::WindowOpOnWindow { op, window_id: wid });
            proof {
                let k = choose|k: int|
                    #[trigger] spec_first_focused(s.spaces@, k) && *focused == s.spaces@[k];
                let kn = choose|kn: int|
                    #[trigger] spec_first_with_label(s.spaces@, spec_label(partner), kn) && *nb
                        == s.spaces@[kn];
                assert(partner == spec_pair_partner(f));
                assert(wid == spec_stale_pick(s.spaces@[kn], s.spaces@[k], direction));
                assert(cmds@ =~= seq![Command::WindowOpOnWindow { op, window_id: wid }]);
                assert(spec_wf_cmds_ok(
                    cmds@,
                    s.spaces@,
                    s.displays@.len() as int,
                    op,
                    direction,
                ));
            }
        },
        _ => {
            if nb.windows.len() == 0 {
                cmds.push(Command::SendFocusedWindowToSpace { label: nb.label.clone() });
            } else {
                let cand = match direction {
                    WindowArg::East => nb.first_window,
                    _ => nb.last_window,
                };
                cmds.push(Command::WindowOpOnWindow { op, window_id: cand });
            }
            cmds.push(Command::FocusSpace { selector: nb.label.clone() });
            proof {
                let k = choose|k: int|
                    #[trigger] spec_first_focused(s.spaces@, k) && *focused == s.spaces@[k];
                let kn = choose|kn: int|
                    #[trigger] spec_first_with_label(s.spaces@, spec_label(partner), kn) && *nb
                        == s.spaces@[kn];
                assert(partner == spec_pair_partner(f));
                assert(cmds@.len() == 2);
                assert(cmds@[1] matches Command::FocusSpace { selector } && selector@
                    == s.spaces@[kn].label@);
                assert(spec_wf_cmds_ok(
                    cmds@,
                    s.spaces@,
                    s.displays@.len() as int,
                    op,
                    direction,
                ));
            }
        },
    }
    Ok(WindowFallback::Commands(cmds))
}

/// Recent-cursor toggling: a successful `focus-space <b>` planned from a
/// snapshot focused on label `a` persists `a` as the cursor, and a
/// `focus-space recent` planned afterwards with that cursor targets `a`
/// again — and persists the label focused in between, so two `recent` in a
/// row toggle between the two most recent labels.
pub proof fn lemma_recent_toggles(
    first: Seq<Space>,
    d1: int,
    count1: u32,
    arg: SpaceArg,
    cursor1: Option<u32>,
    k1: int,
    p1: FocusPlan,
    second: Seq<Space>,
    d2: int,
    count2: u32,
    k2: int,
    p2: FocusPlan,
    a: u32,
)
    requires
        spec_first_focused(first, k1),
        spec_label_index(first[k1].label@) == Some(a),
        spec_focus_plan_ok(first, d1, count1, arg, cursor1, k1, p1),
        spec_first_focused(second, k2),
        spec_focus_plan_ok(second, d2, count2, SpaceArg::Recent, Some(p1.new_cursor), k2, p2),
    ensures
        p1.new_cursor == a,
        p2.target == a,
        spec_label_index(second[k2].label@) matches Some(b) && p2.new_cursor == b,
{
}

} // verus!
