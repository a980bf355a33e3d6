//! The topology planner: from a snapshot it computes the command sequences
//! that drive the daemon toward the canonical labeled topology — settle,
//! redistribute across displays, converge the space count, and relabel.

use vstd::prelude::*;
use crate::NUM_SPACES;
use crate::command::Command;
use crate::error::Error;
use crate::model::{Space, YabaiStates};
use crate::text::{label_for, spec_dec_digits, spec_label, spec_label_index};

verus! {

/// Displays beyond the second, each hosting one isolated space.
pub open spec fn spec_extra_displays(d: int) -> int {
    if d > 2 {
        d - 2
    } else {
        0
    }
}

/// The canonical space count: the labeled workspaces, the reserved first
/// desktop, and one solitary space per display beyond the second.
pub open spec fn spec_target_count(d: int) -> int {
    NUM_SPACES + 1 + spec_extra_displays(d)
}

/// The label index the scheme assigns to the space at position `i`
/// (OS index `i + 1`), for display count `d`.
///
/// For one display the labels follow the OS order. For two or three, the
/// labels interleave so that the pairs `(s1,s2), (s3,s4), ...` straddle
/// the two main displays and form composite desktops.
pub open spec fn spec_scheme_label(d: int, i: int) -> int {
    if d == 1 {
        i
    } else if i <= NUM_SPACES / 2 {
        2 * i
    } else if i <= NUM_SPACES {
        (i - NUM_SPACES / 2) * 2 - 1
    } else {
        NUM_SPACES + 1
    }
}

/// The display that the space at position `i` belongs on.
pub open spec fn spec_target_display(d: int, i: int) -> int {
    if d == 1 {
        1
    } else if i <= NUM_SPACES / 2 {
        1
    } else if i <= NUM_SPACES {
        2
    } else {
        3
    }
}

/// A canonical snapshot for display count `d`: the right number of spaces,
/// the first labeled `reserved`, every other space labeled by the scheme,
/// and every space on its canonical display.
pub open spec fn spec_canonical(spaces: Seq<Space>, d: int) -> bool {
    &&& spaces.len() == spec_target_count(d)
    &&& spaces[0].label@ == "reserved"@
    &&& forall|i: int|
        1 <= i < spaces.len() ==> (#[trigger] spaces[i]).label@ == spec_label(
            spec_scheme_label(d, i) as u32,
        )
    &&& forall|i: int|
        0 <= i < spaces.len() ==> (#[trigger] spaces[i]).display == spec_target_display(d, i)
}

/// The moves that evenly split the spaces among the displays: nothing for
/// one display; for two or three, the first half of the labeled spaces to
/// display 1 and the second half to display 2, plus the solitary space to
/// display 3 when there is one.
pub open spec fn spec_even_moves(d: int) -> Seq<Command> {
    if d == 1 {
        Seq::empty()
    } else {
        Seq::new(
            NUM_SPACES as nat,
            |k: int|
                Command::MoveSpaceToDisplay {
                    space_index: (k + 2) as u32,
                    display_index: if k + 1 <= NUM_SPACES / 2 {
                        1u32
                    } else {
                        2u32
                    },
                },
        ) + if d > 2 {
            seq![
                Command::MoveSpaceToDisplay { space_index: (NUM_SPACES + 2) as u32, display_index: 3u32 },
            ]
        } else {
            Seq::empty()
        }
    }
}

/// The creations or destructions that bring the space count to the target:
/// create while below it, destroy the space just past it while above it
/// (the daemon renumbers after each destroy).
pub open spec fn spec_converge_cmds(count: int, t: int) -> Seq<Command> {
    if count < t {
        Seq::new((t - count) as nat, |k: int| Command::CreateSpace)
    } else {
        Seq::new((count - t) as nat, |k: int| Command::DestroySpace { index: (t + 1) as u32 })
    }
}

/// What the settle plan holds at position `k`: the plan visits the spaces
/// in order, three entries per space — focus it, pause, set the layout.
pub open spec fn spec_settle_entry_ok(c: Command, spaces: Seq<Space>, d: int, k: int) -> bool {
    if k % 3 == 0 {
        c matches Command::FocusSpace { selector } && selector@ == spec_dec_digits(
            spaces[k / 3].index as nat,
        )
    } else if k % 3 == 1 {
        c == (Command::Sleep { millis: 250u32 })
    } else {
        c == (Command::SetLayout { bsp: d > 1 })
    }
}

/// The settle pass: focus every space in turn with a pause, set the layout
/// each time, and finally refocus the space that held focus (position `f`,
/// the first focused space).
pub open spec fn spec_settle_plan_ok(plan: Seq<Command>, spaces: Seq<Space>, d: int, f: int) -> bool {
    &&& plan.len() == 3 * spaces.len() + 1
    &&& forall|k: int|
        0 <= k < 3 * spaces.len() ==> spec_settle_entry_ok(#[trigger] plan[k], spaces, d, k)
    &&& (plan[plan.len() - 1] matches Command::FocusSpace { selector } && selector@
        == spec_dec_digits(spaces[f].index as nat))
}

/// The label plan: position 0 (OS index 1) is labeled `reserved`, every
/// further position by the scheme for the display count.
pub open spec fn spec_labels_plan_ok(plan: Seq<Command>, count: int, d: int) -> bool {
    &&& plan.len() == (if count <= 1 {
        1int
    } else {
        count
    })
    &&& (plan[0] matches Command::LabelSpace { index, label } && index == 1 && label@
        == "reserved"@)
    &&& forall|i: int|
        1 <= i < count ==> (#[trigger] plan[i] matches Command::LabelSpace { index, label }
            && index == i + 1 && label@ == spec_label(spec_scheme_label(d, i) as u32))
}

/// Plan the even split of spaces across displays. Fails exactly when the
/// display count is unsupported (zero, or more than three).
pub fn plan_even_spaces(s: &YabaiStates) -> (r: Result<Vec<Command>, Error>)
    requires
        s.displays@.len() <= u32::MAX,
    ensures
        r matches Ok(c) ==> 1 <= s.displays@.len() <= 3 && c@ == spec_even_moves(
            s.displays@.len() as int,
        ),
        r is Err <==> (s.displays@.len() == 0 || s.displays@.len() > 3),
        r matches Err(e) ==> e == Error::UnsupportedDisplayCount(s.displays@.len() as u32),
{
    let d = s.num_displays();
    if d == 0 || d > 3 {
        return Err(Error::UnsupportedDisplayCount(d));
    }
    let mut cmds: Vec<Command> = Vec::new();
    if d == 1 {
        proof {
            assert(cmds@ =~= spec_even_moves(1));
        }
        return Ok(cmds);
    }
    let ghost base = Seq::new(
        NUM_SPACES as nat,
        |k: int|
            Command::MoveSpaceToDisplay {
                space_index: (k + 2) as u32,
                display_index: if k + 1 <= NUM_SPACES / 2 {
                    1u32
                } else {
                    2u32
                },
            },
    );
    let mut i: u32 = 1;
    while i <= NUM_SPACES
        invariant
            1 <= i <= NUM_SPACES + 1,
            cmds@ =~= base.take(i - 1),
            base == Seq::new(
                NUM_SPACES as nat,
                |k: int|
                    Command::MoveSpaceToDisplay {
                        space_index: (k + 2) as u32,
                        display_index: if k + 1 <= NUM_SPACES / 2 {
                            1u32
                        } else {
                            2u32
                        },
                    },
            ),
        decreases NUM_SPACES + 1 - i,
    {
        if i <= NUM_SPACES / 2 {
            cmds.push(Command::MoveSpaceToDisplay { space_index: i + 1, display_index: 1 });
        } else {
            cmds.push(Command::MoveSpaceToDisplay { space_index: i + 1, display_index: 2 });
        }
        proof {
            assert(base[i - 1] == (Command::MoveSpaceToDisplay {
                space_index: (i + 1) as u32,
                display_index: if i <= NUM_SPACES / 2 {
                    1u32
                } else {
                    2u32
                },
            }));
            assert(cmds@ =~= base.take(i as int));
        }
        i = i + 1;
    }
    proof {
        assert(base.take(NUM_SPACES as int) =~= base);
    }
    if d > 2 {
        cmds.push(Command::MoveSpaceToDisplay { space_index: NUM_SPACES + 2, display_index: 3 });
    }
    proof {
        assert(cmds@ =~= spec_even_moves(s.displays@.len() as int));
    }
    Ok(cmds)
}

/// Plan the creations or destructions that converge the space count to
/// the target for the display count.
pub fn plan_converge(s: &YabaiStates) -> (r: Result<Vec<Command>, Error>)
    requires
        s.displays@.len() <= u32::MAX,
        s.spaces@.len() <= u32::MAX,
    ensures
        r matches Ok(c) ==> 1 <= s.displays@.len() <= 3 && c@ == spec_converge_cmds(
            s.spaces@.len() as int,
            spec_target_count(s.displays@.len() as int),
        ),
        r is Err <==> (s.displays@.len() == 0 || s.displays@.len() > 3),
        r matches Err(e) ==> e == Error::UnsupportedDisplayCount(s.displays@.len() as u32),
{
    let d = s.num_displays();
    if d == 0 || d > 3 {
        return Err(Error::UnsupportedDisplayCount(d));
    }
    let extra: u32 = if d > 2 {
        d - 2
    } else {
        0
    };
    let t: u32 = NUM_SPACES + 1 + extra;
    let count = s.num_spaces();
    let ghost goal = spec_converge_cmds(
        s.spaces@.len() as int,
        spec_target_count(s.displays@.len() as int),
    );
    let mut cmds: Vec<Command> = Vec::new();
    if count < t {
        let mut k: u32 = count;
        while k < t
            invariant
                count <= k <= t,
                count < t,
                goal == spec_converge_cmds(count as int, t as int),
                cmds@ =~= goal.take(k - count),
            decreases t - k,
        {
            cmds.push(Command::CreateSpace);
            proof {
                assert(cmds@ =~= goal.take(k + 1 - count));
            }
            k = k + 1;
        }
    } else {
        let mut k: u32 = t;
        while k < count
            invariant
                t <= k <= count,
                t <= count,
                t == spec_target_count(s.displays@.len() as int),
                goal == spec_converge_cmds(count as int, t as int),
                cmds@ =~= goal.take(k - t),
            decreases count - k,
        {
            cmds.push(Command::DestroySpace { index: t + 1 });
            proof {
                assert(cmds@ =~= goal.take(k + 1 - t));
            }
            k = k + 1;
        }
    }
    proof {
        assert(cmds@ =~= goal);
    }
    Ok(cmds)
}

/// Plan the settle pass. After a daemon reload the window membership of
/// non-visible spaces is stale until each has been focused once, so every
/// space is focused in turn with a pause, the layout is (re)applied, and
/// the originally focused space is focused again. Fails exactly when no
/// space has focus.
pub fn plan_settle(s: &YabaiStates) -> (r: Result<Vec<Command>, Error>)
    requires
        s.displays@.len() <= u32::MAX,
        s.spaces@.len() <= u32::MAX,
    ensures
        r matches Ok(c) ==> exists|f: int|
            #[trigger] crate::model::spec_first_focused(s.spaces@, f) && spec_settle_plan_ok(
                c@,
                s.spaces@,
                s.displays@.len() as int,
                f,
            ),
        r is Err <==> !crate::model::spec_has_focused(s.spaces@),
        r matches Err(e) ==> e == Error::NoFocusedSpace,
{
    let focused = match s.focused_space() {
        None => { return Err(Error::NoFocusedSpace); },
        Some(f) => f,
    };
    let focused_index = focused.index;
    let bsp = s.displays.len() > 1;
    let n = s.spaces.len();
    let mut cmds: Vec<Command> = Vec::new();
    let mut i: usize = 0;
    while i < n
        invariant
            0 <= i <= n,
            n == s.spaces@.len(),
            cmds@.len() == 3 * i,
            bsp == (s.displays@.len() > 1),
            forall|k: int|
                0 <= k < 3 * i ==> spec_settle_entry_ok(
                    #[trigger] cmds@[k],
                    s.spaces@,
                    s.displays@.len() as int,
                    k,
                ),
        decreases n - i,
    {
        let ghost prev = cmds@;
        let sel = crate::text::u32_to_string(s.spaces[i].index);
        let ghost c1 = (Command::FocusSpace { selector: sel });
        cmds.push(Command::FocusSpace { selector: sel });
        cmds.push(Command::Sleep { millis: 250 });
        cmds.push(Command::SetLayout { bsp });
        proof {
            assert(forall|k: int| 0 <= k < 3 * i ==> #[trigger] cmds@[k] == prev[k]);
            assert(cmds@[3 * (i as int)] == c1);
            assert(spec_settle_entry_ok(cmds@[3 * (i as int)], s.spaces@, s.displays@.len() as int, 3 * (i as int)));
            assert(spec_settle_entry_ok(cmds@[3 * (i as int) + 1], s.spaces@, s.displays@.len() as int, 3 * (i as int) + 1));
            assert(spec_settle_entry_ok(cmds@[3 * (i as int) + 2], s.spaces@, s.displays@.len() as int, 3 * (i as int) + 2));
            assert forall|k: int| 0 <= k < 3 * (i + 1) implies spec_settle_entry_ok(
                #[trigger] cmds@[k],
                s.spaces@,
                s.displays@.len() as int,
                k,
            ) by {
                if k < 3 * i {
                    assert(cmds@[k] == prev[k]);
                }
            }
        }
        i = i + 1;
    }
    let ghost prev = cmds@;
    let sel = crate::text::u32_to_string(focused_index);
    cmds.push(Command::FocusSpace { selector: sel });
    proof {
        let f = choose|f: int|
            #[trigger] crate::model::spec_first_focused(s.spaces@, f) && *focused == s.spaces@[f];
        assert(forall|k: int| 0 <= k < 3 * s.spaces@.len() ==> #[trigger] cmds@[k] == prev[k]);
        assert(*focused == s.spaces@[f]);
        assert(focused_index == s.spaces@[f].index);
        assert(cmds@.len() == 3 * s.spaces@.len() + 1);
        assert(cmds@[cmds@.len() - 1] matches Command::FocusSpace { selector } && selector@
            == spec_dec_digits(s.spaces@[f].index as nat));
        assert(spec_settle_plan_ok(cmds@, s.spaces@, s.displays@.len() as int, f));
    }
    Ok(cmds)
}

/// Plan the labeling of every space: OS index 1 as `reserved`, the rest by
/// the scheme for the display count. Fails exactly when the display count
/// is unsupported.
pub fn plan_labels(s: &YabaiStates) -> (r: Result<Vec<Command>, Error>)
    requires
        s.displays@.len() <= u32::MAX,
        s.spaces@.len() <= u32::MAX,
    ensures
        r matches Ok(c) ==> 1 <= s.displays@.len() <= 3 && spec_labels_plan_ok(
            c@,
            s.spaces@.len() as int,
            s.displays@.len() as int,
        ),
        r is Err <==> (s.displays@.len() == 0 || s.displays@.len() > 3),
        r matches Err(e) ==> e == Error::UnsupportedDisplayCount(s.displays@.len() as u32),
{
    let d = s.num_displays();
    if d == 0 || d > 3 {
        return Err(Error::UnsupportedDisplayCount(d));
    }
    let count = s.num_spaces();
    let mut cmds: Vec<Command> = Vec::new();
    let reserved = crate::text::reserved_label();
    cmds.push(Command::LabelSpace { index: 1, label: reserved });
    let mut i: u32 = 1;
    while i < count
        invariant
            1 <= i,
            count > 1 ==> i <= count,
            count <= 1 ==> i == 1,
            count == s.spaces@.len(),
            count <= u32::MAX,
            d == s.displays@.len(),
            1 <= d <= 3,
            cmds@.len() == i,
            (cmds@[0] matches Command::LabelSpace { index, label } && index == 1 && label@
                == "reserved"@),
            forall|j: int|
                1 <= j < i ==> (#[trigger] cmds@[j] matches Command::LabelSpace { index, label }
                    && index == j + 1 && label@ == spec_label(spec_scheme_label(d as int, j) as u32)),
        decreases count - i,
    {
        let label = if d == 1 {
            label_for(i)
        } else if i <= NUM_SPACES / 2 {
            label_for(2 * i)
        } else if i <= NUM_SPACES {
            label_for((i - NUM_SPACES / 2) * 2 - 1)
        } else {
            label_for(NUM_SPACES + 1)
        };
        let ghost prev = cmds@;
        cmds.push(Command::LabelSpace { index: i + 1, label });
        proof {
            assert(forall|j: int| 0 <= j < i ==> #[trigger] cmds@[j] == prev[j]);
            assert(cmds@[i as int] matches Command::LabelSpace { index, label } && index == i + 1
                && label@ == spec_label(spec_scheme_label(d as int, i as int) as u32));
        }
        i = i + 1;
    }
    proof {
        assert(cmds@.len() == i as int);
        assert(i as int == (if s.spaces@.len() as int <= 1 {
            1int
        } else {
            s.spaces@.len() as int
        }));
        assert(spec_labels_plan_ok(cmds@, s.spaces@.len() as int, d as int));
    }
    Ok(cmds)
}

/// The scheme sends each position to a label index in range: positions
/// `1 .. target` map into `1 ..= NUM_SPACES + extras`.
pub proof fn lemma_scheme_range(d: int, i: int)
    requires
        1 <= d <= 3,
        1 <= i < spec_target_count(d),
    ensures
        1 <= spec_scheme_label(d, i) <= NUM_SPACES + spec_extra_displays(d),
{
}

/// The scheme is injective on the positions `1 .. target`.
pub proof fn lemma_scheme_injective(d: int, i1: int, i2: int)
    requires
        1 <= d <= 3,
        1 <= i1 < spec_target_count(d),
        1 <= i2 < spec_target_count(d),
        spec_scheme_label(d, i1) == spec_scheme_label(d, i2),
    ensures
        i1 == i2,
{
}

/// The scheme reaches every label index in `1 ..= NUM_SPACES + extras`
/// from some position in `1 .. target`.
pub proof fn lemma_scheme_surjective(d: int, l: int)
    requires
        1 <= d <= 3,
        1 <= l <= NUM_SPACES + spec_extra_displays(d),
    ensures
        exists|i: int|
            1 <= i < spec_target_count(d) && #[trigger] spec_scheme_label(d, i) == l,
{
    if d == 1 {
        assert(spec_scheme_label(d, l) == l);
    } else if l == NUM_SPACES + 1 {
        assert(spec_scheme_label(d, (NUM_SPACES + 1) as int) == l);
    } else if l % 2 == 0 {
        assert(spec_scheme_label(d, l / 2) == l);
    } else {
        assert(spec_scheme_label(d, (l + 1) / 2 + NUM_SPACES / 2) == l);
    }
}

/// Two distinct label strings `s<k>` come from two distinct indices, since
/// parsing recovers the index.
pub proof fn lemma_spec_label_injective(l1: u32, l2: u32)
    requires
        spec_label(l1) == spec_label(l2),
    ensures
        l1 == l2,
{
    crate::text::lemma_label_round_trip(l1);
    crate::text::lemma_label_round_trip(l2);
}

/// No label `s<k>` is the label `reserved`.
pub proof fn lemma_label_not_reserved(l: u32)
    ensures
        spec_label(l) != "reserved"@,
{
    reveal_strlit("reserved");
    crate::text::lemma_dec_digits_shape(l as nat);
    assert(spec_label(l)[0] == 's');
    assert("reserved"@[0] == 'r');
}

/// The label bijection of a canonical snapshot: `reserved` appears exactly
/// once (on the first space), every label index in `1 ..= NUM_SPACES +
/// extras` appears on exactly one space, and no space carries any other
/// label.
pub proof fn lemma_label_bijection(spaces: Seq<Space>, d: int)
    requires
        1 <= d <= 3,
        spec_canonical(spaces, d),
    ensures
        spaces[0].label@ == "reserved"@,
        forall|i: int| 1 <= i < spaces.len() ==> (#[trigger] spaces[i]).label@ != "reserved"@,
        forall|i: int|
            1 <= i < spaces.len() ==> {
                let li = spec_label_index((#[trigger] spaces[i]).label@);
                li matches Some(l) && 1 <= l <= NUM_SPACES + spec_extra_displays(d)
            },
        forall|l: u32|
            #![trigger spec_label(l)]
            1 <= l <= NUM_SPACES + spec_extra_displays(d) ==> exists|i: int|
                1 <= i < spaces.len() && (#[trigger] spaces[i]).label@ == spec_label(l),
        forall|i1: int, i2: int|
            1 <= i1 < spaces.len() && 1 <= i2 < spaces.len() && (#[trigger] spaces[i1]).label@
                == (#[trigger] spaces[i2]).label@ ==> i1 == i2,
{
    assert forall|i: int| 1 <= i < spaces.len() implies (#[trigger] spaces[i]).label@
        != "reserved"@ by {
        lemma_scheme_range(d, i);
        lemma_label_not_reserved(spec_scheme_label(d, i) as u32);
    }
    assert forall|i: int| 1 <= i < spaces.len() implies {
        let li = spec_label_index((#[trigger] spaces[i]).label@);
        li matches Some(l) && 1 <= l <= NUM_SPACES + spec_extra_displays(d)
    } by {
        lemma_scheme_range(d, i);
        crate::text::lemma_label_round_trip(spec_scheme_label(d, i) as u32);
    }
    assert forall|l: u32|
        #![trigger spec_label(l)]
        1 <= l <= NUM_SPACES + spec_extra_displays(d) implies exists|i: int|
        1 <= i < spaces.len() && (#[trigger] spaces[i]).label@ == spec_label(l) by {
        lemma_scheme_surjective(d, l as int);
        let i = choose|i: int|
            1 <= i < spec_target_count(d) && #[trigger] spec_scheme_label(d, i) == l;
        assert(spaces[i].label@ == spec_label(l));
    }
    assert forall|i1: int, i2: int|
        1 <= i1 < spaces.len() && 1 <= i2 < spaces.len() && (#[trigger] spaces[i1]).label@
            == (#[trigger] spaces[i2]).label@ implies i1 == i2 by {
        lemma_scheme_range(d, i1);
        lemma_scheme_range(d, i2);
        lemma_spec_label_injective(spec_scheme_label(d, i1) as u32, spec_scheme_label(d, i2) as u32);
        lemma_scheme_injective(d, i1, i2);
    }
}

/// After the count phase has converged the space count, a snapshot whose
/// labels and displays took on what the label plan and the even moves
/// commanded is canonical.
pub proof fn lemma_restore_reaches_canonical(
    after: Seq<Space>,
    plan: Seq<Command>,
    d: int,
)
    requires
        1 <= d <= 3,
        after.len() == spec_target_count(d),
        spec_labels_plan_ok(plan, after.len() as int, d),
        // every label command took effect on the space at its OS index
        forall|i: int|
            0 <= i < plan.len() ==> (#[trigger] plan[i] matches Command::LabelSpace {
                index,
                label,
            } ==> after[index - 1].label@ == label@),
        // the reserved first space sits on the first display
        after[0].display == 1,
        // with one display every space is on it
        d == 1 ==> forall|i: int| 0 <= i < after.len() ==> (#[trigger] after[i]).display == 1,
        // every even-split move took effect
        d >= 2 ==> forall|m: int|
            0 <= m < spec_even_moves(d).len() ==> (#[trigger] spec_even_moves(d)[m]
                matches Command::MoveSpaceToDisplay { space_index, display_index }
                ==> after[space_index - 1].display == display_index),
    ensures
        spec_canonical(after, d),
{
    assert(plan.len() == after.len());
    assert(plan[0] matches Command::LabelSpace { index, label } && index == 1 && label@
        == "reserved"@);
    assert(after[0].label@ == "reserved"@);
    assert forall|i: int| 1 <= i < after.len() implies (#[trigger] after[i]).label@ == spec_label(
        spec_scheme_label(d, i) as u32,
    ) by {
        assert(plan[i] matches Command::LabelSpace { index, label } && index == i + 1 && label@
            == spec_label(spec_scheme_label(d, i) as u32));
    }
    assert forall|i: int| 0 <= i < after.len() implies (#[trigger] after[i]).display
        == spec_target_display(d, i) by {
        if d >= 2 && 1 <= i <= NUM_SPACES {
            let base = Seq::new(
                NUM_SPACES as nat,
                |k: int|
                    Command::MoveSpaceToDisplay {
                        space_index: (k + 2) as u32,
                        display_index: if k + 1 <= NUM_SPACES / 2 {
                            1u32
                        } else {
                            2u32
                        },
                    },
            );
            assert(spec_even_moves(d)[i - 1] == base[i - 1]);
            assert(spec_even_moves(d)[i - 1] matches Command::MoveSpaceToDisplay {
                space_index,
                display_index,
            } && space_index == i + 1 && display_index == spec_target_display(d, i));
        } else if d >= 2 && i == NUM_SPACES + 1 {
            assert(d == 3);
            assert(spec_even_moves(d).len() == NUM_SPACES + 1);
            assert(spec_even_moves(d)[NUM_SPACES as int] matches Command::MoveSpaceToDisplay {
                space_index,
                display_index,
            } && space_index == NUM_SPACES + 2 && display_index == 3);
        }
    }
}

/// Restoring a canonical snapshot plans no change: the count phase has
/// nothing to create or destroy, every even-split move targets the display
/// its space already occupies, every label command re-writes the label its
/// space already carries, and — once the reserved desktop is empty —
/// reconciliation of the snapshot against itself plans no window move.
pub proof fn lemma_restore_idempotent(
    spaces: Seq<Space>,
    d: int,
    labels_plan: Seq<Command>,
    rec_plan: Seq<Command>,
)
    requires
        1 <= d <= 3,
        spec_canonical(spaces, d),
        spaces[0].windows@.len() == 0,
        spec_labels_plan_ok(labels_plan, spaces.len() as int, d),
        crate::reconcile::spec_reconcile_sound(rec_plan, spaces, spaces),
    ensures
        spec_converge_cmds(spaces.len() as int, spec_target_count(d)).len() == 0,
        forall|i: int|
            0 <= i < labels_plan.len() ==> (#[trigger] labels_plan[i]
                matches Command::LabelSpace { index, label } && label@ == spaces[index
                - 1].label@),
        forall|m: int|
            0 <= m < spec_even_moves(d).len() ==> (#[trigger] spec_even_moves(d)[m]
                matches Command::MoveSpaceToDisplay { space_index, display_index } && spaces[
            space_index - 1].display == display_index),
        rec_plan.len() == 0,
{
    lemma_label_bijection(spaces, d);
    assert(labels_plan.len() == spaces.len());
    assert forall|i: int| 0 <= i < labels_plan.len() implies (#[trigger] labels_plan[i]
        matches Command::LabelSpace { index, label } && label@ == spaces[index - 1].label@) by {
        if i == 0 {
            assert(labels_plan[0] matches Command::LabelSpace { index, label } && index == 1
                && label@ == "reserved"@);
        } else {
            assert(labels_plan[i] matches Command::LabelSpace { index, label } && index == i + 1
                && label@ == spec_label(spec_scheme_label(d, i) as u32));
        }
    }
    assert forall|m: int| 0 <= m < spec_even_moves(d).len() implies (#[trigger] spec_even_moves(
        d,
    )[m] matches Command::MoveSpaceToDisplay { space_index, display_index } && spaces[space_index
        - 1].display == display_index) by {
        if d >= 2 {
            let base = Seq::new(
                NUM_SPACES as nat,
                |k: int|
                    Command::MoveSpaceToDisplay {
                        space_index: (k + 2) as u32,
                        display_index: if k + 1 <= NUM_SPACES / 2 {
                            1u32
                        } else {
                            2u32
                        },
                    },
            );
            if m < NUM_SPACES {
                assert(spec_even_moves(d)[m] == base[m]);
            }
        }
    }
    if rec_plan.len() > 0 {
        let m = 0int;
        assert(rec_plan[m] matches Command::MoveWindowToSpace { window_id, label }
            && exists|k: int, j: int|
            #[trigger] crate::reconcile::spec_move_justified(
                spaces,
                spaces,
                window_id,
                label@,
                k,
                j,
            ));
        assert(false) by {
            let wid = rec_plan[m]->MoveWindowToSpace_window_id;
            let lab = rec_plan[m]->MoveWindowToSpace_label;
            let (k, j) = choose|k: int, j: int|
                #[trigger] crate::reconcile::spec_move_justified(
                    spaces,
                    spaces,
                    wid,
                    lab@,
                    k,
                    j,
                );
            if spaces[k].label@ == "reserved"@ {
                assert(k == 0);
            } else {
                assert(crate::model::spec_first_with_label(spaces, spaces[k].label@, k));
                assert(crate::model::spec_window_in_labeled_space(
                    spaces,
                    spaces[k].label@,
                    wid,
                ));
            }
        }
    }
}

} // verus!
