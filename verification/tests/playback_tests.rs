use action_script::compile::compile;
use action_script::keys::{Key, MouseButton};
use action_script::playback::{Playback, SinkCommand, StepEvent};

#[test]
fn greet_scenario_plays_back() {
    let reg = compile("greet:\ntype hello\nwait 100\nend").unwrap();
    let (cmds, done) = Playback::run_bounded(&reg, "greet", 100).unwrap();
    assert!(done);
    assert_eq!(
        cmds,
        vec![
            SinkCommand::TypeText(String::from("hello")),
            SinkCommand::Sleep(100),
        ]
    );
}

#[test]
fn move_up_issues_negative_y_offset() {
    let reg = compile("m:\nmove up 20\nend").unwrap();
    let (cmds, done) = Playback::run_bounded(&reg, "m", 100).unwrap();
    assert!(done);
    assert_eq!(cmds, vec![SinkCommand::MoveRel { dx: 0, dy: -20 }]);
}

#[test]
fn all_four_directions_follow_the_sign_convention() {
    let reg = compile("m:\nmove up 3\nmove down 4\nmove left 5\nmove right 6\nend").unwrap();
    let (cmds, _) = Playback::run_bounded(&reg, "m", 100).unwrap();
    assert_eq!(
        cmds,
        vec![
            SinkCommand::MoveRel { dx: 0, dy: -3 },
            SinkCommand::MoveRel { dx: 0, dy: 4 },
            SinkCommand::MoveRel { dx: -5, dy: 0 },
            SinkCommand::MoveRel { dx: 6, dy: 0 },
        ]
    );
}

#[test]
fn hold_plays_press_sleep_release() {
    let reg = compile("combo:\nhold mouse left 50\nend").unwrap();
    let (cmds, done) = Playback::run_bounded(&reg, "combo", 100).unwrap();
    assert!(done);
    assert_eq!(
        cmds,
        vec![
            SinkCommand::ButtonDown(MouseButton::Left),
            SinkCommand::Sleep(50),
            SinkCommand::ButtonUp(MouseButton::Left),
        ]
    );
}

#[test]
fn invocation_completes_before_the_next_instruction() {
    let src = "a:\npress x\nb\npress y\nend\nb:\nwait 5\nend";
    let reg = compile(src).unwrap();
    let (cmds, done) = Playback::run_bounded(&reg, "a", 100).unwrap();
    assert!(done);
    assert_eq!(
        cmds,
        vec![
            SinkCommand::KeyDown(Key::Layout('x')),
            SinkCommand::Sleep(5),
            SinkCommand::KeyDown(Key::Layout('y')),
        ]
    );
}

#[test]
fn self_invocation_never_finishes() {
    let reg = compile("forever:\nforever\nend").unwrap();
    let (cmds, done) = Playback::run_bounded(&reg, "forever", 1000).unwrap();
    assert!(!done);
    assert_eq!(cmds, vec![]);
}

#[test]
fn playback_of_missing_macro_is_a_lookup_miss() {
    let reg = compile("greet:\ntype hi\nend").unwrap();
    assert!(Playback::run_bounded(&reg, "nope", 100).is_none());
    assert!(Playback::start(&reg, "nope").is_none());
}

#[test]
fn stepping_reports_each_event_in_order() {
    let reg = compile("greet:\ntype hello\nwait 100\nend").unwrap();
    let mut pb = Playback::start(&reg, "greet").unwrap();
    assert!(pb.running());
    assert_eq!(
        pb.step(&reg),
        StepEvent::Do(SinkCommand::TypeText(String::from("hello")))
    );
    assert_eq!(pb.step(&reg), StepEvent::Do(SinkCommand::Sleep(100)));
    assert_eq!(pb.step(&reg), StepEvent::Finished);
    assert!(!pb.running());
    assert_eq!(pb.step(&reg), StepEvent::Finished);
}

#[test]
fn key_events_map_to_down_and_up() {
    let reg = compile("k:\npress ctrl\nrelease ctrl\npress mouse right\nrelease mouse right\nend")
        .unwrap();
    let (cmds, _) = Playback::run_bounded(&reg, "k", 100).unwrap();
    assert_eq!(
        cmds,
        vec![
            SinkCommand::KeyDown(Key::Control),
            SinkCommand::KeyUp(Key::Control),
            SinkCommand::ButtonDown(MouseButton::Right),
            SinkCommand::ButtonUp(MouseButton::Right),
        ]
    );
}
