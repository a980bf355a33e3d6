use yabaictl::command::{Command, WindowArg, WindowOp};

#[test]
fn token_vectors_match_the_wire_format() {
    let c = Command::FocusSpace { selector: String::from("s3") };
    assert_eq!(c.tokens(), vec!["space", "--focus", "s3"]);
    let c = Command::SetLayout { bsp: true };
    assert_eq!(c.tokens(), vec!["space", "--layout", "bsp"]);
    let c = Command::SetLayout { bsp: false };
    assert_eq!(c.tokens(), vec!["space", "--layout", "stack"]);
    let c = Command::LabelSpace { index: 4, label: String::from("s6") };
    assert_eq!(c.tokens(), vec!["space", "4", "--label", "s6"]);
    let c = Command::CreateSpace;
    assert_eq!(c.tokens(), vec!["space", "--create"]);
    let c = Command::DestroySpace { index: 12 };
    assert_eq!(c.tokens(), vec!["space", "12", "--destroy"]);
    let c = Command::MoveSpaceToDisplay { space_index: 7, display_index: 2 };
    assert_eq!(c.tokens(), vec!["space", "7", "--display", "2"]);
    let c = Command::MoveWindowToSpace { window_id: 42, label: String::from("s1") };
    assert_eq!(c.tokens(), vec!["window", "42", "--space", "s1"]);
    let c = Command::NativeWindowOp { op: WindowOp::Warp, direction: WindowArg::East };
    assert_eq!(c.tokens(), vec!["window", "--warp", "east"]);
    let c = Command::WindowOpOnWindow { op: WindowOp::Focus, window_id: 9 };
    assert_eq!(c.tokens(), vec!["window", "--focus", "9"]);
    let c = Command::SendFocusedWindowToSpace { label: String::from("s4") };
    assert_eq!(c.tokens(), vec!["window", "--space", "s4"]);
    let c = Command::Sleep { millis: 250 };
    assert_eq!(c.tokens(), Vec::<String>::new());
}

#[test]
fn direction_and_op_names() {
    assert_eq!(WindowArg::North.as_str(), "north");
    assert_eq!(WindowArg::East.as_str(), "east");
    assert_eq!(WindowArg::South.as_str(), "south");
    assert_eq!(WindowArg::West.as_str(), "west");
    assert_eq!(WindowOp::Focus.as_str(), "--focus");
    assert_eq!(WindowOp::Swap.as_str(), "--swap");
    assert_eq!(WindowOp::Warp.as_str(), "--warp");
}

#[test]
fn benign_error_table() {
    let focus = Command::FocusSpace { selector: String::from("s1") };
    assert!(focus.benign("yabai: cannot focus an already focused space."));
    assert!(!focus.benign("could not locate the window to act on!"));

    let mv = Command::MoveSpaceToDisplay { space_index: 2, display_index: 1 };
    assert!(mv.benign("acting space is already located on the given display."));
    assert!(!mv.benign("cannot focus an already focused space."));

    let wmv = Command::MoveWindowToSpace { window_id: 1, label: String::from("s1") };
    assert!(wmv.benign("could not locate the window to act on!"));
    assert!(wmv.benign("value 's12' is not a valid option for SPACE_SEL"));
    assert!(!wmv.benign("acting space is already located on the given display."));

    // commands with no expected failures swallow nothing
    let create = Command::CreateSpace;
    assert!(!create.benign("cannot focus an already focused space."));
    let native = Command::NativeWindowOp { op: WindowOp::Focus, direction: WindowArg::East };
    assert!(!native.benign("could not locate a eastward managed window."));
}
