//! The restore control loop as a state machine. The driver queries the
//! daemon for a fresh snapshot, hands it to `step`, executes the commands
//! it returns, and repeats until the session is done; the daemon is
//! re-queried after every phase rather than trusting in-memory projections.
//! The reconciliation phase runs twice: the daemon occasionally ignores a
//! window move right after a display change, and the second pass is the
//! workaround.

use vstd::prelude::*;
use crate::command::Command;
use crate::error::Error;
use crate::model::{YabaiStates, spec_has_focused};
use crate::planner::{
    plan_converge, plan_even_spaces, plan_labels, plan_settle, spec_converge_cmds, spec_even_moves,
    spec_labels_plan_ok, spec_settle_plan_ok, spec_target_count,
};
use crate::reconcile::{plan_reconcile, spec_reconcile_complete, spec_reconcile_sound};

verus! {

/// The phases of a restore, in order: settle the daemon's window lists,
/// even out and converge the space count, relabel, then reconcile windows
/// twice.
#[derive(Debug, Clone, Copy, PartialEq, Eq, Structural)]
pub enum RestorePhase {
    Settle,
    Count,
    Labels,
    Reconcile { second: bool },
    Done,
}

/// One restore in progress.
#[derive(Debug, Clone, Copy, PartialEq, Eq, Structural)]
pub struct RestoreSession {
    pub phase: RestorePhase,
}

/// The phase that follows `p`.
pub open spec fn spec_next_phase(p: RestorePhase) -> RestorePhase {
    match p {
        RestorePhase::Settle => RestorePhase::Count,
        RestorePhase::Count => RestorePhase::Labels,
        RestorePhase::Labels => RestorePhase::Reconcile { second: false },
        RestorePhase::Reconcile { second } => if second {
            RestorePhase::Done
        } else {
            RestorePhase::Reconcile { second: true }
        },
        RestorePhase::Done => RestorePhase::Done,
    }
}

impl RestoreSession {
    /// Begin a restore.
    pub fn new() -> (r: RestoreSession)
        ensures
            r.phase is Settle,
    {
        RestoreSession { phase: RestorePhase::Settle }
    }

    /// The session has finished and the driver should persist the latest
    /// snapshot.
    pub fn done(&self) -> (r: bool)
        ensures
            r == (self.phase is Done),
    {
        match self.phase {
            RestorePhase::Done => true,
            _ => false,
        }
    }

    /// Advance one phase: given a fresh snapshot (and the previously
    /// persisted one, if the driver had any), return the follow-up session
    /// and the commands of this phase. Fails exactly when the settle phase
    /// finds no focused space, or when the count or label phase sees an
    /// unsupported display count.
    pub fn step(&self, s: &YabaiStates, prev: Option<&YabaiStates>) -> (r: Result<
        (RestoreSession, Vec<Command>),
        Error,
    >)
        requires
            s.displays@.len() <= u32::MAX,
            s.spaces@.len() <= u32::MAX,
        ensures
            r matches Ok(t) ==> t.0.phase == spec_next_phase(self.phase),
            r matches Ok(t) ==> match self.phase {
                RestorePhase::Settle => exists|f: int|
                    #[trigger] crate::model::spec_first_focused(s.spaces@, f)
                        && spec_settle_plan_ok(t.1@, s.spaces@, s.displays@.len() as int, f),
                RestorePhase::Count => 1 <= s.displays@.len() <= 3 && t.1@ == spec_even_moves(
                    s.displays@.len() as int,
                ) + spec_converge_cmds(
                    s.spaces@.len() as int,
                    spec_target_count(s.displays@.len() as int),
                ) + spec_even_moves(s.displays@.len() as int),
                RestorePhase::Labels => 1 <= s.displays@.len() <= 3 && spec_labels_plan_ok(
                    t.1@,
                    s.spaces@.len() as int,
                    s.displays@.len() as int,
                ),
                RestorePhase::Reconcile { .. } => match prev {
                    Some(p) => spec_reconcile_sound(t.1@, s.spaces@, p.spaces@)
                        && spec_reconcile_complete(t.1@, s.spaces@, p.spaces@),
                    None => t.1@.len() == 0,
                },
                RestorePhase::Done => t.1@.len() == 0,
            },
            r is Err <==> ((self.phase is Settle && !spec_has_focused(s.spaces@)) || ((
            self.phase is Count || self.phase is Labels) && (s.displays@.len() == 0
                || s.displays@.len() > 3))),
            r matches Err(e) ==> (self.phase is Settle ==> e == Error::NoFocusedSpace) && (
            !(self.phase is Settle) ==> e == Error::UnsupportedDisplayCount(
                s.displays@.len() as u32,
            )),
    {
        match self.phase {
            RestorePhase::Settle => {
                let cmds = plan_settle(s)?;
                Ok((RestoreSession { phase: RestorePhase::Count }, cmds))
            },
            RestorePhase::Count => {
                let mut cmds = plan_even_spaces(s)?;
                let mut converge = plan_converge(s)?;
                let mut again = plan_even_spaces(s)?;
                let ghost parts = (cmds@, converge@, again@);
                cmds.append(&mut converge);
                cmds.append(&mut again);
                proof {
                    assert(cmds@ =~= parts.0 + parts.1 + parts.2);
                }
                Ok((RestoreSession { phase: RestorePhase::Labels }, cmds))
            },
            RestorePhase::Labels => {
                let cmds = plan_labels(s)?;
                Ok((RestoreSession { phase: RestorePhase::Reconcile { second: false } }, cmds))
            },
            RestorePhase::Reconcile { second } => {
                let cmds = match prev {
                    Some(p) => plan_reconcile(s, p),
                    None => Vec::new(),
                };
                let next = if second {
                    RestorePhase::Done
                } else {
                    RestorePhase::Reconcile { second: true }
                };
                Ok((RestoreSession { phase: next }, cmds))
            },
            RestorePhase::Done => Ok((RestoreSession { phase: RestorePhase::Done }, Vec::new())),
        }
    }
}

} // verus!
