use yabaictl::command::Command;
use yabaictl::model::{Display, Space, YabaiStates};
use yabaictl::orchestrate::{RestorePhase, RestoreSession};

fn sess_space(index: u32, label: &str, windows: Vec<u32>, has_focus: bool) -> Space {
    Space {
        id: 400 + index,
        uuid: String::new(),
        index,
        label: String::from(label),
        space_type: String::from("bsp"),
        display: 1,
        windows,
        first_window: 0,
        last_window: 0,
        has_focus,
        is_visible: false,
        is_native_fullscreen: false,
    }
}

fn sess_snapshot(spaces: Vec<Space>, num_displays: u32) -> YabaiStates {
    let mut displays = Vec::new();
    let mut i = 1;
    while i <= num_displays {
        displays.push(Display { id: i, uuid: String::new(), index: i, spaces: Vec::new() });
        i += 1;
    }
    YabaiStates { spaces, displays, windows: Vec::new() }
}

#[test]
fn restore_session_runs_all_phases_in_order() {
    // a small live state: three spaces on one display, no prior snapshot
    let s = sess_snapshot(
        vec![
            sess_space(1, "reserved", vec![], true),
            sess_space(2, "s1", vec![], false),
            sess_space(3, "", vec![], false),
        ],
        1,
    );
    let sess = RestoreSession::new();
    assert!(!sess.done());

    // settle: focus each of the three spaces with a pause and layout, then
    // refocus the first
    let (sess, cmds) = sess.step(&s, None).unwrap();
    assert_eq!(cmds.len(), 10);
    assert_eq!(cmds[0], Command::FocusSpace { selector: String::from("1") });
    assert_eq!(cmds[1], Command::Sleep { millis: 250 });
    assert_eq!(cmds[2], Command::SetLayout { bsp: false });
    assert_eq!(cmds[9], Command::FocusSpace { selector: String::from("1") });
    assert_eq!(sess.phase, RestorePhase::Count);

    // count: one display plans no moves; 3 spaces grow to 11
    let (sess, cmds) = sess.step(&s, None).unwrap();
    assert_eq!(cmds.len(), 8);
    assert!(cmds.iter().all(|c| *c == Command::CreateSpace));
    assert_eq!(sess.phase, RestorePhase::Labels);

    // labels: reserved then s1, s2 for what this snapshot has
    let (sess, cmds) = sess.step(&s, None).unwrap();
    assert_eq!(cmds, vec![
        Command::LabelSpace { index: 1, label: String::from("reserved") },
        Command::LabelSpace { index: 2, label: String::from("s1") },
        Command::LabelSpace { index: 3, label: String::from("s2") },
    ]);
    assert_eq!(sess.phase, RestorePhase::Reconcile { second: false });

    // reconciliation runs twice; with no prior snapshot it plans nothing
    let (sess, cmds) = sess.step(&s, None).unwrap();
    assert_eq!(cmds, Vec::new());
    assert_eq!(sess.phase, RestorePhase::Reconcile { second: true });
    let (sess, cmds) = sess.step(&s, None).unwrap();
    assert_eq!(cmds, Vec::new());
    assert_eq!(sess.phase, RestorePhase::Done);
    assert!(sess.done());
}

#[test]
fn restore_session_reconciles_against_the_prior_snapshot() {
    let cur = sess_snapshot(
        vec![sess_space(1, "reserved", vec![], true), sess_space(2, "s1", vec![], false)],
        1,
    );
    let prev = sess_snapshot(
        vec![sess_space(1, "reserved", vec![], true), sess_space(2, "s1", vec![5], false)],
        1,
    );
    let sess = RestoreSession { phase: RestorePhase::Reconcile { second: false } };
    let (sess, cmds) = sess.step(&cur, Some(&prev)).unwrap();
    assert_eq!(cmds, vec![
        Command::MoveWindowToSpace { window_id: 5, label: String::from("s1") },
    ]);
    let (sess, cmds) = sess.step(&cur, Some(&prev)).unwrap();
    assert_eq!(cmds.len(), 1);
    assert!(sess.done());
}
