use yabaictl::command::Command;
use yabaictl::error::Error;
use yabaictl::model::{Display, Space, YabaiStates};
use yabaictl::planner::{plan_converge, plan_even_spaces, plan_labels, plan_settle};

fn plan_space(index: u32, label: &str, display: u32, has_focus: bool) -> Space {
    Space {
        id: 100 + index,
        uuid: String::new(),
        index,
        label: String::from(label),
        space_type: String::from("bsp"),
        display,
        windows: Vec::new(),
        first_window: 0,
        last_window: 0,
        has_focus,
        is_visible: false,
        is_native_fullscreen: false,
    }
}

fn plan_snapshot(spaces: Vec<Space>, num_displays: u32) -> YabaiStates {
    let mut displays = Vec::new();
    let mut i = 1;
    while i <= num_displays {
        displays.push(Display { id: i, uuid: String::new(), index: i, spaces: Vec::new() });
        i += 1;
    }
    YabaiStates { spaces, displays, windows: Vec::new() }
}

fn scrambled_13(num_displays: u32) -> YabaiStates {
    // 13 spaces with mixed labels, including two empty ones.
    let labels = ["s4", "", "reserved", "s1", "s9", "", "s2", "s2", "s7", "s10", "s3", "s5", "s6"];
    let mut spaces = Vec::new();
    for (i, l) in labels.iter().enumerate() {
        spaces.push(plan_space(i as u32 + 1, l, 1, i == 0));
    }
    plan_snapshot(spaces, num_displays)
}

#[test]
fn cold_restore_scrambled_labels_converges_count() {
    // 13 spaces, two displays: the target is 11 spaces, so the plan
    // destroys the space at OS index 12 twice (the daemon renumbers
    // after each destroy).
    let s = scrambled_13(2);
    let plan = plan_converge(&s).unwrap();
    assert_eq!(plan, vec![
        Command::DestroySpace { index: 12 },
        Command::DestroySpace { index: 12 },
    ]);
}

#[test]
fn cold_restore_labels_for_two_displays() {
    // after the count phase the snapshot has 11 spaces; the label plan
    // yields reserved, s2, s4, s6, s8, s10, s1, s3, s5, s7, s9 on OS
    // indices 1..=11.
    let mut spaces = Vec::new();
    for i in 1..=11u32 {
        spaces.push(plan_space(i, "whatever", 1, i == 1));
    }
    let s = plan_snapshot(spaces, 2);
    let plan = plan_labels(&s).unwrap();
    let want = ["reserved", "s2", "s4", "s6", "s8", "s10", "s1", "s3", "s5", "s7", "s9"];
    assert_eq!(plan.len(), 11);
    for (i, w) in want.iter().enumerate() {
        match &plan[i] {
            Command::LabelSpace { index, label } => {
                assert_eq!(*index, i as u32 + 1);
                assert_eq!(label, w);
            }
            other => panic!("unexpected command {:?}", other),
        }
    }
}

#[test]
fn even_split_is_six_five() {
    // two displays: OS indices 2..=6 go to display 1 (with the reserved
    // space that stays there, six in all) and 7..=11 to display 2.
    let s = scrambled_13(2);
    let plan = plan_even_spaces(&s).unwrap();
    assert_eq!(plan.len(), 10);
    for (k, cmd) in plan.iter().enumerate() {
        let idx = k as u32 + 2;
        let want_display = if idx <= 6 { 1 } else { 2 };
        assert_eq!(
            *cmd,
            Command::MoveSpaceToDisplay { space_index: idx, display_index: want_display }
        );
    }
}

#[test]
fn third_display_gets_the_extra_space() {
    let s = scrambled_13(3);
    let plan = plan_even_spaces(&s).unwrap();
    assert_eq!(plan.len(), 11);
    assert_eq!(plan[10], Command::MoveSpaceToDisplay { space_index: 12, display_index: 3 });
    let conv = plan_converge(&s).unwrap();
    // three displays: the target is 12 spaces, one destroy at index 13.
    assert_eq!(conv, vec![Command::DestroySpace { index: 13 }]);
}

#[test]
fn converge_creates_when_below_target() {
    let mut spaces = Vec::new();
    for i in 1..=4u32 {
        spaces.push(plan_space(i, "", 1, i == 1));
    }
    let s = plan_snapshot(spaces, 1);
    let plan = plan_converge(&s).unwrap();
    assert_eq!(plan.len(), 7);
    assert!(plan.iter().all(|c| *c == Command::CreateSpace));
}

#[test]
fn display_count_change_is_handled_by_next_restore() {
    // a snapshot that is canonical for two displays, reported with one
    // display after an unplug: the same 11 spaces are simply relabeled in
    // OS order, and nothing is created or destroyed.
    let two_display_labels =
        ["reserved", "s2", "s4", "s6", "s8", "s10", "s1", "s3", "s5", "s7", "s9"];
    let mut spaces = Vec::new();
    for (i, l) in two_display_labels.iter().enumerate() {
        spaces.push(plan_space(i as u32 + 1, l, 1, i == 0));
    }
    let s = plan_snapshot(spaces, 1);
    assert_eq!(plan_converge(&s).unwrap(), Vec::new());
    assert_eq!(plan_even_spaces(&s).unwrap(), Vec::new());
    let plan = plan_labels(&s).unwrap();
    let want = ["reserved", "s1", "s2", "s3", "s4", "s5", "s6", "s7", "s8", "s9", "s10"];
    for (i, w) in want.iter().enumerate() {
        match &plan[i] {
            Command::LabelSpace { index, label } => {
                assert_eq!(*index, i as u32 + 1);
                assert_eq!(label, w);
            }
            other => panic!("unexpected command {:?}", other),
        }
    }
}

#[test]
fn restore_of_canonical_snapshot_plans_no_change() {
    // labels already canonical for one display: every planned label
    // rewrites what the space already carries.
    let labels = ["reserved", "s1", "s2", "s3", "s4", "s5", "s6", "s7", "s8", "s9", "s10"];
    let mut spaces = Vec::new();
    for (i, l) in labels.iter().enumerate() {
        spaces.push(plan_space(i as u32 + 1, l, 1, i == 0));
    }
    let s = plan_snapshot(spaces, 1);
    assert_eq!(plan_converge(&s).unwrap(), Vec::new());
    let plan = plan_labels(&s).unwrap();
    for (i, cmd) in plan.iter().enumerate() {
        match cmd {
            Command::LabelSpace { index, label } => {
                assert_eq!(*index, i as u32 + 1);
                assert_eq!(label, &s.spaces[i].label);
            }
            other => panic!("unexpected command {:?}", other),
        }
    }
}

#[test]
fn settle_plan_visits_every_space_and_refocuses() {
    let mut spaces = Vec::new();
    for i in 1..=3u32 {
        spaces.push(plan_space(i, "s1", 1, i == 2));
    }
    let s = plan_snapshot(spaces, 2);
    let plan = plan_settle(&s).unwrap();
    assert_eq!(plan.len(), 10);
    for i in 0..3usize {
        assert_eq!(
            plan[3 * i],
            Command::FocusSpace { selector: (i + 1).to_string() }
        );
        assert_eq!(plan[3 * i + 1], Command::Sleep { millis: 250 });
        assert_eq!(plan[3 * i + 2], Command::SetLayout { bsp: true });
    }
    // the focused space (OS index 2) is focused again at the end
    assert_eq!(plan[9], Command::FocusSpace { selector: String::from("2") });
}

#[test]
fn settle_uses_stack_layout_for_one_display() {
    let s = plan_snapshot(vec![plan_space(1, "reserved", 1, true)], 1);
    let plan = plan_settle(&s).unwrap();
    assert_eq!(plan[2], Command::SetLayout { bsp: false });
}

#[test]
fn planner_errors_on_unsupported_display_count() {
    let s = scrambled_13(4);
    assert_eq!(plan_even_spaces(&s).unwrap_err(), Error::UnsupportedDisplayCount(4));
    assert_eq!(plan_converge(&s).unwrap_err(), Error::UnsupportedDisplayCount(4));
    assert_eq!(plan_labels(&s).unwrap_err(), Error::UnsupportedDisplayCount(4));
    let none = plan_snapshot(vec![plan_space(1, "reserved", 1, true)], 0);
    assert_eq!(plan_labels(&none).unwrap_err(), Error::UnsupportedDisplayCount(0));
}

#[test]
fn settle_errors_without_a_focused_space() {
    let s = plan_snapshot(vec![plan_space(1, "reserved", 1, false)], 1);
    assert_eq!(plan_settle(&s).unwrap_err(), Error::NoFocusedSpace);
}
