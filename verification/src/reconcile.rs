//! Window reconciliation: the moves that bring every window recorded in
//! the previously persisted snapshot back to the space carrying its prior
//! label. Windows on the reserved desktop are sent to `s1`; windows that
//! are already in place, or whose recorded label is empty, are left alone.

use vstd::prelude::*;
use vstd::string::StrSliceExecFns;
use vstd::string::StringExecFns;
use crate::command::Command;
use crate::model::{Space, YabaiStates, spec_window_in_labeled_space};
use crate::text::str_eq;

verus! {

/// Where a window recorded under label `l` is sent: windows of the
/// reserved desktop go to `s1`, all others back to their own label.
pub open spec fn spec_remap(l: Seq<char>) -> Seq<char> {
    if l == "reserved"@ {
        "s1"@
    } else {
        l
    }
}

/// The move `(w, l)` is what reconciliation owes the window at position
/// `j` of the space at position `k` of the previous snapshot.
pub open spec fn spec_move_justified(
    cur: Seq<Space>,
    prev: Seq<Space>,
    w: u32,
    l: Seq<char>,
    k: int,
    j: int,
) -> bool {
    &&& 0 <= k < prev.len()
    &&& 0 <= j < prev[k].windows@.len()
    &&& prev[k].windows@[j] == w
    &&& if prev[k].label@ == "reserved"@ {
        l == "s1"@
    } else {
        &&& l == prev[k].label@
        &&& l.len() > 0
        &&& !spec_window_in_labeled_space(cur, l, w)
    }
}

/// Every command of the plan is a window move that some position of the
/// previous snapshot calls for.
pub open spec fn spec_reconcile_sound(plan: Seq<Command>, cur: Seq<Space>, prev: Seq<Space>) -> bool {
    forall|m: int|
        0 <= m < plan.len() ==> ((#[trigger] plan[m]) matches Command::MoveWindowToSpace {
            window_id,
            label,
        } && exists|k: int, j: int|
            #[trigger] spec_move_justified(cur, prev, window_id, label@, k, j))
}

/// Position `m` of the plan moves window `w` to label `l`.
pub open spec fn spec_plan_moves(plan: Seq<Command>, m: int, w: u32, l: Seq<char>) -> bool {
    &&& 0 <= m < plan.len()
    &&& (plan[m] matches Command::MoveWindowToSpace { window_id, label } && window_id == w
        && label@ == l)
}

/// The plan moves window `w` to label `l` somewhere.
pub open spec fn spec_plan_has_move(plan: Seq<Command>, w: u32, l: Seq<char>) -> bool {
    exists|m: int| #[trigger] spec_plan_moves(plan, m, w, l)
}

/// Every move the previous snapshot calls for is in the plan: windows
/// recorded on the reserved desktop are sent to `s1`, and every window
/// recorded under a non-empty label and not already present in the
/// current space of that label is sent back to it.
pub open spec fn spec_reconcile_complete(
    plan: Seq<Command>,
    cur: Seq<Space>,
    prev: Seq<Space>,
) -> bool {
    forall|k: int, j: int|
        #![trigger prev[k].windows@[j]]
        0 <= k < prev.len() && 0 <= j < prev[k].windows@.len() ==> {
            let w = prev[k].windows@[j];
            let l = prev[k].label@;
            &&& (l == "reserved"@ ==> spec_plan_has_move(plan, w, "s1"@))
            &&& (l != "reserved"@ && l.len() > 0 && !spec_window_in_labeled_space(cur, l, w)
                ==> spec_plan_has_move(plan, w, l))
        }
}

/// Compute the reconciliation moves for the current snapshot, given the
/// previously persisted one.
pub fn plan_reconcile(cur: &YabaiStates, prev: &YabaiStates) -> (r: Vec<Command>)
    ensures
        spec_reconcile_sound(r@, cur.spaces@, prev.spaces@),
        spec_reconcile_complete(r@, cur.spaces@, prev.spaces@),
{
    let mut plan: Vec<Command> = Vec::new();
    let nk = prev.spaces.len();
    let mut k: usize = 0;
    while k < nk
        invariant
            0 <= k <= nk,
            nk == prev.spaces@.len(),
            spec_reconcile_sound(plan@, cur.spaces@, prev.spaces@),
            forall|k2: int, j2: int|
                #![trigger prev.spaces@[k2].windows@[j2]]
                0 <= k2 < k && 0 <= j2 < prev.spaces@[k2].windows@.len() ==> {
                    let w = prev.spaces@[k2].windows@[j2];
                    let l = prev.spaces@[k2].label@;
                    &&& (l == "reserved"@ ==> spec_plan_has_move(plan@, w, "s1"@))
                    &&& (l != "reserved"@ && l.len() > 0 && !spec_window_in_labeled_space(
                        cur.spaces@,
                        l,
                        w,
                    ) ==> spec_plan_has_move(plan@, w, l))
                },
        decreases nk - k,
    {
        let sp = &prev.spaces[k];
        let reserved = str_eq(sp.label.as_str(), "reserved");
        let empty = sp.label.as_str().unicode_len() == 0;
        let nj = sp.windows.len();
        let mut j: usize = 0;
        while j < nj
            invariant
                0 <= j <= nj,
                0 <= k < nk,
                nk == prev.spaces@.len(),
                nj == prev.spaces@[k as int].windows@.len(),
                *sp == prev.spaces@[k as int],
                reserved == (sp.label@ == "reserved"@),
                empty == (sp.label@.len() == 0),
                spec_reconcile_sound(plan@, cur.spaces@, prev.spaces@),
                forall|k2: int, j2: int|
                    #![trigger prev.spaces@[k2].windows@[j2]]
                    0 <= k2 < k && 0 <= j2 < prev.spaces@[k2].windows@.len() ==> {
                        let w = prev.spaces@[k2].windows@[j2];
                        let l = prev.spaces@[k2].label@;
                        &&& (l == "reserved"@ ==> spec_plan_has_move(plan@, w, "s1"@))
                        &&& (l != "reserved"@ && l.len() > 0 && !spec_window_in_labeled_space(
                            cur.spaces@,
                            l,
                            w,
                        ) ==> spec_plan_has_move(plan@, w, l))
                    },
                forall|j2: int|
                    #![trigger prev.spaces@[k as int].windows@[j2]]
                    0 <= j2 < j ==> {
                        let w = prev.spaces@[k as int].windows@[j2];
                        let l = prev.spaces@[k as int].label@;
                        &&& (l == "reserved"@ ==> spec_plan_has_move(plan@, w, "s1"@))
                        &&& (l != "reserved"@ && l.len() > 0 && !spec_window_in_labeled_space(
                            cur.spaces@,
                            l,
                            w,
                        ) ==> spec_plan_has_move(plan@, w, l))
                    },
            decreases nj - j,
        {
            let w = sp.windows[j];
            let ghost prevplan = plan@;
            if reserved {
                plan.push(Command::MoveWindowToSpace {
                    window_id: w,
                    label: String::from_str("s1"),
                });
                proof {
                    assert(forall|m: int|
                        0 <= m < prevplan.len() ==> #[trigger] plan@[m] == prevplan[m]);
                    assert(spec_move_justified(
                        cur.spaces@,
                        prev.spaces@,
                        w,
                        "s1"@,
                        k as int,
                        j as int,
                    ));
                    assert(spec_plan_moves(plan@, prevplan.len() as int, w, "s1"@));
                    assert(spec_plan_has_move(plan@, w, "s1"@));
                }
            } else if !empty {
                let present = cur.find_window_id_in_space(sp.label.as_str(), &w);
                if present.is_none() {
                    plan.push(Command::MoveWindowToSpace { window_id: w, label: sp.label.clone() });
                    proof {
                        assert(forall|m: int|
                            0 <= m < prevplan.len() ==> #[trigger] plan@[m] == prevplan[m]);
                        assert(spec_move_justified(
                            cur.spaces@,
                            prev.spaces@,
                            w,
                            sp.label@,
                            k as int,
                            j as int,
                        ));
                        assert(spec_plan_moves(plan@, prevplan.len() as int, w, sp.label@));
                        assert(spec_plan_has_move(plan@, w, sp.label@));
                    }
                }
            }
            proof {
                assert(forall|m: int|
                    0 <= m < prevplan.len() ==> #[trigger] plan@[m] == prevplan[m]);
                assert forall|w2: u32, l2: Seq<char>|
                    spec_plan_has_move(prevplan, w2, l2) implies #[trigger] spec_plan_has_move(
                    plan@,
                    w2,
                    l2,
                ) by {
                    let m = choose|m: int| #[trigger] spec_plan_moves(prevplan, m, w2, l2);
                    assert(plan@[m] == prevplan[m]);
                    assert(spec_plan_moves(plan@, m, w2, l2));
                }
            }
            j = j + 1;
        }
        k = k + 1;
    }
    plan
}

/// Window lists are disjoint: no window is listed by two positions.
pub open spec fn spec_windows_disjoint(spaces: Seq<Space>) -> bool {
    forall|k1: int, j1: int, k2: int, j2: int|
        #![trigger spaces[k1].windows@[j1], spaces[k2].windows@[j2]]
        0 <= k1 < spaces.len() && 0 <= j1 < spaces[k1].windows@.len() && 0 <= k2 < spaces.len()
            && 0 <= j2 < spaces[k2].windows@.len() && spaces[k1].windows@[j1]
            == spaces[k2].windows@[j2] ==> k1 == k2 && j1 == j2
}

/// Position `k` lists window `w`.
pub open spec fn spec_lists_window(spaces: Seq<Space>, k: int, w: u32) -> bool {
    0 <= k < spaces.len() && spaces[k].windows@.contains(w)
}

/// The label each listed window sits under, as a map from window ids to
/// labels.
pub open spec fn spec_window_label_map(spaces: Seq<Space>) -> Map<u32, Seq<char>> {
    Map::new(
        |w: u32| exists|k: int| #[trigger] spec_lists_window(spaces, k, w),
        |w: u32| spaces[choose|k: int| #[trigger] spec_lists_window(spaces, k, w)].label@,
    )
}

/// The window-to-label assignment after the daemon executes the plan's
/// moves in order, on windows it still has; a move of a vanished window is
/// swallowed and changes nothing.
pub open spec fn spec_apply_moves(a: Map<u32, Seq<char>>, plan: Seq<Command>) -> Map<
    u32,
    Seq<char>,
>
    decreases plan.len(),
{
    if plan.len() == 0 {
        a
    } else {
        let rest = spec_apply_moves(a, plan.drop_last());
        match plan.last() {
            Command::MoveWindowToSpace { window_id, label } => if rest.dom().contains(window_id) {
                rest.insert(window_id, label@)
            } else {
                rest
            },
            _ => rest,
        }
    }
}

/// Applying moves never adds or removes windows.
pub proof fn lemma_apply_moves_dom(a: Map<u32, Seq<char>>, plan: Seq<Command>)
    ensures
        spec_apply_moves(a, plan).dom() == a.dom(),
    decreases plan.len(),
{
    if plan.len() > 0 {
        lemma_apply_moves_dom(a, plan.drop_last());
        assert(spec_apply_moves(a, plan).dom() =~= a.dom());
    }
}

/// A window no command moves keeps its assignment.
pub proof fn lemma_apply_moves_untouched(a: Map<u32, Seq<char>>, plan: Seq<Command>, w: u32)
    requires
        forall|m: int|
            0 <= m < plan.len() ==> !((#[trigger] plan[m]) matches Command::MoveWindowToSpace {
                window_id,
                ..
            } && window_id == w),
        a.dom().contains(w),
    ensures
        spec_apply_moves(a, plan).dom().contains(w),
        spec_apply_moves(a, plan)[w] == a[w],
    decreases plan.len(),
{
    lemma_apply_moves_dom(a, plan);
    if plan.len() > 0 {
        assert(plan[plan.len() - 1] == plan.last());
        lemma_apply_moves_untouched(a, plan.drop_last(), w);
    }
}

/// A window that is moved at least once, and only ever to `l`, ends up
/// assigned `l`.
pub proof fn lemma_apply_moves_all_to(a: Map<u32, Seq<char>>, plan: Seq<Command>, w: u32, l: Seq<char>)
    requires
        exists|m: int| #[trigger] spec_plan_moves(plan, m, w, l),
        forall|m: int|
            0 <= m < plan.len() ==> ((#[trigger] plan[m]) matches Command::MoveWindowToSpace {
                window_id,
                label,
            } ==> (window_id == w ==> label@ == l)),
        a.dom().contains(w),
    ensures
        spec_apply_moves(a, plan).dom().contains(w),
        spec_apply_moves(a, plan)[w] == l,
    decreases plan.len(),
{
    lemma_apply_moves_dom(a, plan);
    let m = choose|m: int| #[trigger] spec_plan_moves(plan, m, w, l);
    lemma_apply_moves_dom(a, plan.drop_last());
    if m == plan.len() - 1 {
        assert(plan.last() == plan[m]);
    } else {
        assert(spec_plan_moves(plan.drop_last(), m, w, l)) by {
            assert(plan.drop_last()[m] == plan[m]);
        }
        assert forall|m2: int| 0 <= m2 < plan.drop_last().len() implies ((
        #[trigger] plan.drop_last()[m2]) matches Command::MoveWindowToSpace { window_id, label }
            ==> (window_id == w ==> label@ == l)) by {
            assert(plan.drop_last()[m2] == plan[m2]);
        }
        lemma_apply_moves_all_to(a, plan.drop_last(), w, l);
        assert(plan[plan.len() - 1] == plan.last());
    }
}

/// Window preservation: for a window the daemon still has, listed at
/// position `j` of the space at position `k` of the previous snapshot
/// under a non-empty label, executing the reconciliation plan leaves it
/// assigned that same label — with windows of the reserved desktop
/// remapped to `s1`.
pub proof fn lemma_window_preservation(
    cur: Seq<Space>,
    prev: Seq<Space>,
    plan: Seq<Command>,
    w: u32,
    k: int,
    j: int,
)
    requires
        spec_reconcile_sound(plan, cur, prev),
        spec_reconcile_complete(plan, cur, prev),
        spec_windows_disjoint(prev),
        spec_windows_disjoint(cur),
        0 <= k < prev.len(),
        0 <= j < prev[k].windows@.len(),
        prev[k].windows@[j] == w,
        prev[k].label@.len() > 0,
        spec_window_label_map(cur).dom().contains(w),
    ensures
        spec_apply_moves(spec_window_label_map(cur), plan).dom().contains(w),
        spec_apply_moves(spec_window_label_map(cur), plan)[w] == spec_remap(prev[k].label@),
{
    let a = spec_window_label_map(cur);
    let l = prev[k].label@;
    assert forall|m: int|
        0 <= m < plan.len() && ((#[trigger] plan[m]) matches Command::MoveWindowToSpace {
            window_id,
            ..
        } && window_id == w) implies (plan[m] matches Command::MoveWindowToSpace {
        window_id,
        label,
    } && window_id == w && label@ == spec_remap(l)) by {
        let wid = plan[m]->MoveWindowToSpace_window_id;
        let lab = plan[m]->MoveWindowToSpace_label;
        let (k2, j2) = choose|k2: int, j2: int|
            #[trigger] spec_move_justified(cur, prev, wid, lab@, k2, j2);
        assert(prev[k2].windows@[j2] == w && prev[k].windows@[j] == w);
        assert(k2 == k && j2 == j);
    };
    if l == "reserved"@ {
        assert(spec_plan_has_move(plan, w, "s1"@));
        lemma_apply_moves_all_to(a, plan, w, "s1"@);
    } else if !crate::model::spec_window_in_labeled_space(cur, l, w) {
        assert(spec_plan_has_move(plan, w, l));
        lemma_apply_moves_all_to(a, plan, w, l);
    } else {
        assert forall|m: int| 0 <= m < plan.len() implies !((#[trigger] plan[m])
            matches Command::MoveWindowToSpace { window_id, .. } && window_id == w) by {
            if plan[m] matches Command::MoveWindowToSpace { window_id, label } && window_id == w {
                let wid = plan[m]->MoveWindowToSpace_window_id;
                let lab = plan[m]->MoveWindowToSpace_label;
                let (k2, j2) = choose|k2: int, j2: int|
                    #[trigger] spec_move_justified(cur, prev, wid, lab@, k2, j2);
                assert(k2 == k && j2 == j);
            }
        };
        lemma_apply_moves_untouched(a, plan, w);
        let kn = choose|kn: int|
            #[trigger] crate::model::spec_first_with_label(cur, l, kn) && cur[kn].windows@.contains(
                w,
            );
        assert(spec_lists_window(cur, kn, w));
        let kc = choose|kc: int| #[trigger] spec_lists_window(cur, kc, w);
        assert(cur[kc].windows@.contains(w));
        let jn = choose|jn: int| 0 <= jn < cur[kn].windows@.len() && cur[kn].windows@[jn] == w;
        let jc = choose|jc: int| 0 <= jc < cur[kc].windows@.len() && cur[kc].windows@[jc] == w;
        assert(kc == kn);
        assert(a[w] == l);
    }
}

} // verus!
