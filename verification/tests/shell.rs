use rust_paint::paint::WindowAction;
use rust_paint::shell::{ElementState, Key, Shell, WindowEvent};

fn key(key: Key, state: ElementState) -> WindowEvent {
    WindowEvent::KeyboardInput { key, state }
}

#[test]
fn new_shell_has_command_key_up() {
    assert!(!Shell::new().cmd_pressed());
}

#[test]
fn closed_window_quits() {
    let mut shell = Shell::new();
    assert_eq!(shell.handle_event(WindowEvent::Closed, false), WindowAction::Quit);
    assert!(!shell.cmd_pressed());
}

#[test]
fn q_alone_does_nothing() {
    let mut shell = Shell::new();
    assert_eq!(
        shell.handle_event(key(Key::Q, ElementState::Pressed), false),
        WindowAction::Nothing
    );
}

#[test]
fn q_with_control_quits() {
    let mut shell = Shell::new();
    assert_eq!(
        shell.handle_event(key(Key::Q, ElementState::Pressed), true),
        WindowAction::Quit
    );
}

#[test]
fn q_released_with_control_does_nothing() {
    let mut shell = Shell::new();
    assert_eq!(
        shell.handle_event(key(Key::Q, ElementState::Released), true),
        WindowAction::Nothing
    );
}

#[test]
fn q_with_command_key_held_quits() {
    let mut shell = Shell::new();
    assert_eq!(
        shell.handle_event(key(Key::LWin, ElementState::Pressed), false),
        WindowAction::Nothing
    );
    assert!(shell.cmd_pressed());
    assert_eq!(
        shell.handle_event(key(Key::Q, ElementState::Pressed), false),
        WindowAction::Quit
    );
}

#[test]
fn q_after_command_key_release_does_nothing() {
    let mut shell = Shell::new();
    shell.handle_event(key(Key::LWin, ElementState::Pressed), false);
    assert_eq!(
        shell.handle_event(key(Key::LWin, ElementState::Released), false),
        WindowAction::Nothing
    );
    assert!(!shell.cmd_pressed());
    assert_eq!(
        shell.handle_event(key(Key::Q, ElementState::Pressed), false),
        WindowAction::Nothing
    );
}

#[test]
fn escape_is_left_to_the_widgets() {
    let mut shell = Shell::new();
    assert_eq!(
        shell.handle_event(key(Key::Escape, ElementState::Pressed), true),
        WindowAction::Nothing
    );
}

#[test]
fn other_events_keep_the_command_key() {
    let mut shell = Shell::new();
    shell.handle_event(key(Key::LWin, ElementState::Pressed), false);
    assert_eq!(shell.handle_event(WindowEvent::Other, true), WindowAction::Nothing);
    assert_eq!(
        shell.handle_event(key(Key::Other, ElementState::Released), false),
        WindowAction::Nothing
    );
    assert_eq!(
        shell.handle_event(key(Key::Escape, ElementState::Released), false),
        WindowAction::Nothing
    );
    assert!(shell.cmd_pressed());
}
