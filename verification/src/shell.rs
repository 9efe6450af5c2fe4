//! The window's own events: when the program is to quit.
//!
//! The program quits when its window is closed and on Q with the control
//! or the command key held. The control key's state comes with each event;
//! the command key is followed here, from its own presses and releases.

use crate::paint::paint_window::WindowAction;
use vstd::prelude::*;

verus! {

/// The keys that the shell tells apart.
#[derive(Copy, Clone, Debug, PartialEq, Eq, Structural)]
pub enum Key {
    Escape,
    Q,
    /// The left command key.
    LWin,
    /// Any other key.
    Other,
}

/// Whether a key went down or up.
#[derive(Copy, Clone, Debug, PartialEq, Eq, Structural)]
pub enum ElementState {
    Pressed,
    Released,
}

/// A window event, as far as the shell tells events apart.
#[derive(Copy, Clone, Debug, PartialEq, Eq, Structural)]
pub enum WindowEvent {
    /// The window was closed.
    Closed,
    /// A key went down or up.
    KeyboardInput { key: Key, state: ElementState },
    /// Any other event.
    Other,
}

/// What an event asks of the program: to quit when the window was closed,
/// and when Q went down with the control or the command key held; nothing
/// otherwise. Escape is left to the widgets.
pub open spec fn action_of(event: WindowEvent, ctrl_down: bool, cmd_pressed: bool) -> WindowAction {
    match event {
        WindowEvent::Closed => WindowAction::Quit,
        WindowEvent::KeyboardInput { key: Key::Q, state: ElementState::Pressed } => if ctrl_down
            || cmd_pressed {
            WindowAction::Quit
        } else {
            WindowAction::Nothing
        },
        _ => WindowAction::Nothing,
    }
}

/// Whether the command key is held after an event: its own presses and
/// releases say so, and no other event changes it.
pub open spec fn cmd_after(event: WindowEvent, cmd_pressed: bool) -> bool {
    match event {
        WindowEvent::KeyboardInput { key: Key::LWin, state: ElementState::Pressed } => true,
        WindowEvent::KeyboardInput { key: Key::LWin, state: ElementState::Released } => false,
        _ => cmd_pressed,
    }
}

/// What the shell keeps between events: whether the command key is held.
pub struct Shell {
    cmd_pressed: bool,
}

impl View for Shell {
    type V = bool;

    closed spec fn view(&self) -> bool {
        self.cmd_pressed
    }
}

impl Shell {
    /// A shell with the command key up.
    pub fn new() -> (shell: Self)
        ensures
            !shell@,
    {
        Shell { cmd_pressed: false }
    }

    /// Whether the command key is held.
    pub fn cmd_pressed(&self) -> (held: bool)
        ensures
            held == self@,
    {
        self.cmd_pressed
    }

    /// Takes one window event, with the control key's state at that event,
    /// and says what it asks of the program.
    pub fn handle_event(&mut self, event: WindowEvent, ctrl_down: bool) -> (action: WindowAction)
        ensures
            action == action_of(event, ctrl_down, old(self)@),
            final(self)@ == cmd_after(event, old(self)@),
    {
        match event {
            WindowEvent::Closed => WindowAction::Quit,
            WindowEvent::KeyboardInput { key, state } => {
                match (key, state) {
                    (Key::Q, ElementState::Pressed) => {
                        if ctrl_down || self.cmd_pressed {
                            WindowAction::Quit
                        } else {
                            WindowAction::Nothing
                        }
                    },
                    (Key::LWin, ElementState::Pressed) => {
                        self.cmd_pressed = true;
                        WindowAction::Nothing
                    },
                    (Key::LWin, ElementState::Released) => {
                        self.cmd_pressed = false;
                        WindowAction::Nothing
                    },
                    _ => WindowAction::Nothing,
                }
            },
            WindowEvent::Other => WindowAction::Nothing,
        }
    }
}

} // verus!
