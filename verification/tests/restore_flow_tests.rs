use yabaictl::command::Command;
use yabaictl::model::{Display, Space, YabaiStates};
use yabaictl::nav::{needs_restore, plan_focus_space, SpaceArg};
use yabaictl::orchestrate::{RestorePhase, RestoreSession};

fn flow_space(index: u32, label: &str, display: u32, has_focus: bool) -> Space {
    Space {
        id: 500 + index,
        uuid: String::new(),
        index,
        label: String::from(label),
        space_type: String::from("bsp"),
        display,
        windows: Vec::new(),
        first_window: 0,
        last_window: 0,
        has_focus,
        is_visible: false,
        is_native_fullscreen: false,
    }
}

fn flow_snapshot(spaces: Vec<Space>, num_displays: u32) -> YabaiStates {
    let mut displays = Vec::new();
    let mut i = 1;
    while i <= num_displays {
        displays.push(Display { id: i, uuid: String::new(), index: i, spaces: Vec::new() });
        i += 1;
    }
    YabaiStates { spaces, displays, windows: Vec::new() }
}

// apply the commands a compliant daemon would act on to a snapshot:
// labels take effect on the space at the commanded OS index, destroys
// remove it (the daemon renumbers), space moves change the display.
fn apply_to_model(s: &mut YabaiStates, cmds: &[Command]) {
    for cmd in cmds {
        match cmd {
            Command::LabelSpace { index, label } => {
                let i = *index as usize - 1;
                s.spaces[i].label = label.clone();
            }
            Command::DestroySpace { index } => {
                let i = *index as usize - 1;
                s.spaces.remove(i);
                for (k, sp) in s.spaces.iter_mut().enumerate() {
                    sp.index = k as u32 + 1;
                }
            }
            Command::MoveSpaceToDisplay { space_index, display_index } => {
                let i = *space_index as usize - 1;
                if i < s.spaces.len() {
                    s.spaces[i].display = *display_index;
                }
            }
            _ => {}
        }
    }
}

#[test]
fn fullscreen_space_restores_before_focusing() {
    // a native-fullscreen space with an empty label exists: any navigation
    // command must restore first, and only then focus the requested label.
    let mut spaces = vec![flow_space(1, "reserved", 1, false)];
    let two_display_labels = ["s2", "s4", "s6", "s8", "s10", "s1", "s3", "s5", "s7", "s9"];
    for (i, l) in two_display_labels.iter().enumerate() {
        let d = if i < 5 { 1 } else { 2 };
        spaces.push(flow_space(i as u32 + 2, l, d, *l == "s2"));
    }
    let mut fullscreen = flow_space(12, "", 2, false);
    fullscreen.is_native_fullscreen = true;
    spaces.push(fullscreen);
    let mut live = flow_snapshot(spaces, 2);

    assert!(needs_restore(&live));

    let mut sess = RestoreSession::new();
    while !sess.done() {
        let (next, cmds) = sess.step(&live, None).unwrap();
        apply_to_model(&mut live, &cmds);
        sess = next;
    }
    assert_eq!(sess.phase, RestorePhase::Done);

    // the canonical form holds again: 11 spaces, the scheme's labels, and
    // nothing asks for another restore
    assert!(!needs_restore(&live));
    assert_eq!(live.spaces.len(), 11);
    let want = ["reserved", "s2", "s4", "s6", "s8", "s10", "s1", "s3", "s5", "s7", "s9"];
    for (i, w) in want.iter().enumerate() {
        assert_eq!(live.spaces[i].label, *w);
    }
    for (i, sp) in live.spaces.iter().enumerate() {
        let want_display = if i < 6 { 1 } else { 2 };
        assert_eq!(sp.display, want_display);
    }

    // then the navigation command proceeds: focus lands on s3 (with its
    // pair partner s4 brought over first)
    let plan = plan_focus_space(&live, SpaceArg::Space(3), None).unwrap();
    assert_eq!(plan.target, 3);
    assert_eq!(plan.commands, vec![
        Command::FocusSpace { selector: String::from("s4") },
        Command::FocusSpace { selector: String::from("s3") },
    ]);
}

#[test]
fn restore_twice_plans_the_same_canonical_state() {
    // idempotence against the scripted model: a second full restore leaves
    // the model exactly where the first one put it.
    let labels = ["s5", "", "reserved", "s1", "s9", "s2", "s2", "s7", "s10", "s3", "s8", "s6"];
    let mut spaces = Vec::new();
    for (i, l) in labels.iter().enumerate() {
        spaces.push(flow_space(i as u32 + 1, l, 1, i == 0));
    }
    let mut live = flow_snapshot(spaces, 2);

    let mut sess = RestoreSession::new();
    while !sess.done() {
        let (next, cmds) = sess.step(&live, None).unwrap();
        apply_to_model(&mut live, &cmds);
        sess = next;
    }
    let after_first: Vec<(u32, String, u32)> =
        live.spaces.iter().map(|sp| (sp.index, sp.label.clone(), sp.display)).collect();

    let mut sess = RestoreSession::new();
    while !sess.done() {
        let (next, cmds) = sess.step(&live, None).unwrap();
        apply_to_model(&mut live, &cmds);
        sess = next;
    }
    let after_second: Vec<(u32, String, u32)> =
        live.spaces.iter().map(|sp| (sp.index, sp.label.clone(), sp.display)).collect();
    assert_eq!(after_first, after_second);
}
