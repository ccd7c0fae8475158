use garterm::config::Action;
use garterm::control::{effect_of_action, effect_of_command, Effect};
use garterm::ipc::{parse_focused_pid, pid_from_socket_name, socket_file_name, Command, Response};
use garterm::pty::PtySize;
use garterm::render::color::indexed_color;
use garterm::text::parse_usize;
use garterm::ui::{Direction, SplitDirection};

#[test]
fn split_command_direction_names() {
    let cmd = Command::Split { direction: "Vertical".to_string(), cwd: None, startup_cmd: Some("top".into()) };
    match effect_of_command(&cmd) {
        Ok(Effect::Split { direction, cwd, startup_cmd }) => {
            assert_eq!(direction, SplitDirection::Vertical);
            assert_eq!(cwd, None);
            assert_eq!(startup_cmd, Some("top".to_string()));
        },
        other => panic!("unexpected {:?}", other),
    }
}

#[test]
fn invalid_direction_error() {
    let cmd = Command::Split { direction: "diagonal".to_string(), cwd: None, startup_cmd: None };
    assert_eq!(effect_of_command(&cmd).unwrap_err(), "Invalid direction: diagonal");
    let cmd = Command::FocusPaneDirection { direction: "sideways".to_string() };
    assert_eq!(effect_of_command(&cmd).unwrap_err(), "Invalid direction: sideways");
    let cmd = Command::FocusPaneDirection { direction: "UP".to_string() };
    assert!(matches!(effect_of_command(&cmd), Ok(Effect::Focus(Direction::Up))));
}

#[test]
fn not_implemented_error() {
    let cmd = Command::NewWindow { cwd: None, program: None };
    assert_eq!(effect_of_command(&cmd).unwrap_err(), "Not implemented");
    let cmd = Command::ResizePane { direction: "left".into(), amount: 3 };
    assert_eq!(effect_of_command(&cmd).unwrap_err(), "Not implemented");
}

#[test]
fn simple_commands() {
    assert!(matches!(effect_of_command(&Command::Ping), Ok(Effect::Nothing)));
    assert!(matches!(effect_of_command(&Command::SwitchTab { index: 3 }), Ok(Effect::SwitchTab(3))));
    match effect_of_command(&Command::SendText { text: "é\n".into() }) {
        Ok(Effect::Send(bytes)) => assert_eq!(bytes, "é\n".as_bytes().to_vec()),
        other => panic!("unexpected {:?}", other),
    }
}

#[test]
fn action_effects() {
    assert!(matches!(effect_of_action(&Action::ScrollPageUp, 24, 1000), Effect::ScrollUp(23)));
    assert!(matches!(effect_of_action(&Action::Copy, 24, 1000), Effect::CopySelection));
    assert!(matches!(effect_of_action(&Action::ScrollToTop, 24, 1000), Effect::ScrollUp(1000)));
    assert!(matches!(effect_of_action(&Action::SplitHorizontal, 24, 0), Effect::Split { direction: SplitDirection::Horizontal, .. }));
}

#[test]
fn responses() {
    let ok = Response::ok();
    assert!(ok.success);
    assert!(ok.message.is_none());
    let err = Response::error("boom".to_string());
    assert!(!err.success);
    assert_eq!(err.message, Some("boom".to_string()));
}

#[test]
fn socket_names() {
    assert_eq!(socket_file_name(4242), "garterm-4242.sock");
    assert_eq!(pid_from_socket_name("garterm-4242.sock"), Some(4242));
    assert_eq!(pid_from_socket_name("garterm-x.sock"), None);
    assert_eq!(pid_from_socket_name("other-1.sock"), None);
    assert_eq!(parse_focused_pid("  77\n"), Some(77));
    assert_eq!(parse_focused_pid("seventy"), None);
}

#[test]
fn numbers() {
    assert_eq!(parse_usize("42"), Some(42));
    assert_eq!(parse_usize("+7"), Some(7));
    assert_eq!(parse_usize(""), None);
    assert_eq!(parse_usize("4a"), None);
}

#[test]
fn indexed_palette() {
    assert_eq!(indexed_color(3), None);
    assert_eq!(indexed_color(16), Some((0, 0, 0)));
    assert_eq!(indexed_color(196), Some((255, 0, 0)));
    assert_eq!(indexed_color(232), Some((8, 8, 8)));
    assert_eq!(indexed_color(255), Some((238, 238, 238)));
}

#[test]
fn pty_size_cuts_to_16_bits() {
    let s = PtySize::for_pane(80, 24, 640, 70000);
    assert_eq!((s.cols, s.rows, s.pixel_width, s.pixel_height), (80, 24, 640, 70000u32 as u16));
}

use garterm::config::runtime::{Session, SessionSplit, SessionTab, TerminalCommand};
use garterm::config::Modifiers;
use garterm::control::{effect_of_lua_command, lua_focus_direction, lua_split_direction, session_plan, shortcut_effect};
use garterm::input::Key;
use garterm::ui::PaneId;

#[test]
fn lua_directions() {
    assert_eq!(lua_split_direction("H"), SplitDirection::Horizontal);
    assert_eq!(lua_split_direction("horizontal"), SplitDirection::Horizontal);
    assert_eq!(lua_split_direction("sideways"), SplitDirection::Vertical);
    assert_eq!(lua_focus_direction("Left"), Direction::Left);
    assert_eq!(lua_focus_direction("nowhere"), Direction::Right);
}

#[test]
fn lua_commands() {
    let e = effect_of_lua_command(&TerminalCommand::NewTab { cwd: Some("~/src".into()), cmd: None, title: Some("T".into()) });
    match e {
        Effect::NewTab { cwd, startup_cmd, title } => {
            assert_eq!(cwd, Some("~/src".to_string()));
            assert_eq!(startup_cmd, None);
            assert_eq!(title, Some("T".to_string()));
        },
        other => panic!("unexpected {:?}", other),
    }
    match effect_of_lua_command(&TerminalCommand::SendText { pane_id: Some(4), text: "ls\n".into() }) {
        Effect::SendToPane(PaneId(4), bytes) => assert_eq!(bytes, b"ls\n".to_vec()),
        other => panic!("unexpected {:?}", other),
    }
    assert!(matches!(effect_of_lua_command(&TerminalCommand::FocusTab { index: 2 }), Effect::SwitchTab(2)));
    assert!(matches!(effect_of_lua_command(&TerminalCommand::FocusPane { pane_id: 7 }), Effect::FocusPane(PaneId(7))));
}

#[test]
fn session_plan_order() {
    let session = Session {
        name: "webdev".into(),
        tabs: vec![
            SessionTab {
                title: Some("Frontend".into()),
                cwd: Some("/app".into()),
                cmd: Some("npm run dev".into()),
                splits: vec![SessionSplit { direction: "h".into(), cwd: None, cmd: Some("npm test".into()) }],
            },
            SessionTab { title: None, cwd: None, cmd: None, splits: vec![] },
        ],
    };
    let plan = session_plan(&session);
    assert_eq!(plan.len(), 4);
    assert!(matches!(&plan[0], Effect::NewTab { title: Some(t), .. } if t == "Frontend"));
    assert!(matches!(&plan[1], Effect::Split { direction: SplitDirection::Horizontal, startup_cmd: Some(c), .. } if c == "npm test"));
    assert!(matches!(&plan[2], Effect::NewTab { title: None, cwd: None, startup_cmd: None }));
    assert!(matches!(&plan[3], Effect::SwitchTab(1)));
}

#[test]
fn alt_shortcuts() {
    let alt = Modifiers::alt();
    assert!(matches!(shortcut_effect(&Key::Char('3'), &alt), Some(Effect::SwitchTab(3))));
    assert!(matches!(shortcut_effect(&Key::Char(']'), &alt), Some(Effect::NextTab)));
    assert!(matches!(shortcut_effect(&Key::Char('['), &alt), Some(Effect::PrevTab)));
    assert!(shortcut_effect(&Key::Char('0'), &alt).is_none());
    assert!(shortcut_effect(&Key::Char('3'), &Modifiers::ctrl_alt()).is_none());
    assert!(shortcut_effect(&Key::Up, &alt).is_none());
}

use garterm::control::resize_delta;

#[test]
fn resize_deltas() {
    assert_eq!(resize_delta(Direction::Left, 5), -50);
    assert_eq!(resize_delta(Direction::Right, 5), 50);
    assert_eq!(resize_delta(Direction::Down, 0), 10);
    assert_eq!(resize_delta(Direction::Up, u32::MAX), -1_000_000);
}

use garterm::control::{loop_step, render_due};

#[test]
fn loop_stops_without_tabs_and_relayouts_after_closes() {
    let s = loop_step(true, false, true);
    assert!(!s.running && !s.relayout);
    let s = loop_step(true, true, true);
    assert!(s.running && s.relayout);
    let s = loop_step(true, true, false);
    assert!(s.running && !s.relayout);
    assert!(render_due(false, false));
    assert!(!render_due(true, false));
    assert!(render_due(true, true));
}
