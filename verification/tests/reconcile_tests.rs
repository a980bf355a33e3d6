use yabaictl::command::Command;
use yabaictl::model::{Display, Space, YabaiStates};
use yabaictl::reconcile::plan_reconcile;

fn rec_space(index: u32, label: &str, windows: Vec<u32>) -> Space {
    Space {
        id: 300 + index,
        uuid: String::new(),
        index,
        label: String::from(label),
        space_type: String::from("bsp"),
        display: 1,
        windows,
        first_window: 0,
        last_window: 0,
        has_focus: index == 1,
        is_visible: false,
        is_native_fullscreen: false,
    }
}

fn rec_snapshot(spaces: Vec<Space>) -> YabaiStates {
    YabaiStates {
        spaces,
        displays: vec![Display { id: 1, uuid: String::new(), index: 1, spaces: Vec::new() }],
        windows: Vec::new(),
    }
}

#[test]
fn reserved_windows_go_to_s1() {
    let prev = rec_snapshot(vec![rec_space(1, "reserved", vec![7, 8])]);
    let cur = rec_snapshot(vec![rec_space(1, "reserved", vec![7, 8])]);
    let plan = plan_reconcile(&cur, &prev);
    assert_eq!(plan, vec![
        Command::MoveWindowToSpace { window_id: 7, label: String::from("s1") },
        Command::MoveWindowToSpace { window_id: 8, label: String::from("s1") },
    ]);
}

#[test]
fn window_already_in_place_is_left_alone() {
    let prev = rec_snapshot(vec![rec_space(1, "s3", vec![7])]);
    let cur = rec_snapshot(vec![rec_space(1, "s3", vec![7])]);
    assert_eq!(plan_reconcile(&cur, &prev), Vec::new());
}

#[test]
fn displaced_window_is_moved_back() {
    let prev = rec_snapshot(vec![rec_space(1, "s3", vec![7]), rec_space(2, "s5", vec![9])]);
    // in the current snapshot, window 7 drifted to s5
    let cur = rec_snapshot(vec![rec_space(1, "s3", vec![]), rec_space(2, "s5", vec![9, 7])]);
    let plan = plan_reconcile(&cur, &prev);
    assert_eq!(plan, vec![
        Command::MoveWindowToSpace { window_id: 7, label: String::from("s3") },
    ]);
}

#[test]
fn vanished_window_is_still_commanded() {
    // the window is gone from the current snapshot; the move is planned
    // anyway and the daemon's complaint is swallowed as benign.
    let prev = rec_snapshot(vec![rec_space(1, "s3", vec![7])]);
    let cur = rec_snapshot(vec![rec_space(1, "s3", vec![])]);
    let plan = plan_reconcile(&cur, &prev);
    assert_eq!(plan.len(), 1);
    assert!(plan[0].benign("could not locate the window to act on!"));
    assert!(plan[0].benign("acting label is not a valid option for SPACE_SEL"));
    assert!(!plan[0].benign("connection refused"));
}

#[test]
fn windows_of_unlabeled_spaces_are_skipped() {
    let prev = rec_snapshot(vec![rec_space(1, "", vec![7])]);
    let cur = rec_snapshot(vec![rec_space(1, "", vec![])]);
    assert_eq!(plan_reconcile(&cur, &prev), Vec::new());
}

#[test]
fn label_match_is_exact() {
    // a window recorded under s1 is not "in place" on a space labeled s10
    let prev = rec_snapshot(vec![rec_space(1, "s1", vec![7])]);
    let cur = rec_snapshot(vec![rec_space(1, "s10", vec![7])]);
    let plan = plan_reconcile(&cur, &prev);
    assert_eq!(plan, vec![
        Command::MoveWindowToSpace { window_id: 7, label: String::from("s1") },
    ]);
}
