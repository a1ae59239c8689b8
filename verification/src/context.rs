//! What a window event asks of the viewer.
//!
//! The event loop hands in each event as it comes and carries out the action
//! that comes back; nothing here touches a window.

use vstd::prelude::*;
use crate::camera::Direction;

verus! {

/// The keys that the viewer tells apart.
#[derive(Clone, Copy, Debug, PartialEq, Eq, Structural)]
pub enum Key {
    Escape,
    W,
    A,
    S,
    D,
    Other,
}

/// A window event, as far as the viewer reads it.
#[derive(Clone, Copy, Debug, PartialEq, Eq, Structural)]
pub enum Event {
    /// The window was closed.
    Closed,
    /// A key went down.
    KeyPressed(Key),
    /// The pointer moved to a place in the window.
    MouseMoved(i32, i32),
    /// Anything else.
    Other,
}

/// What the event loop is to do.
#[derive(Clone, Copy, Debug, PartialEq, Eq)]
pub enum Action {
    /// Leave the loop.
    Quit,
    /// Move the camera one step.
    Move(Direction),
    /// Put the pointer back at the centre of the window; `offset` is how far
    /// from it the pointer was.
    Recenter { center: (i32, i32), offset: (i64, i64) },
    /// Nothing.
    Idle,
}

/// The action that a key asks for.
pub open spec fn key_action(key: Key) -> Action {
    match key {
        Key::Escape => Action::Quit,
        Key::W => Action::Move(Direction::Up),
        Key::A => Action::Move(Direction::Left),
        Key::S => Action::Move(Direction::Down),
        Key::D => Action::Move(Direction::Right),
        Key::Other => Action::Idle,
    }
}

/// The action that a pointer at `at` asks for in a window of size `dim`.
pub open spec fn mouse_action(at: (i32, i32), dim: (u32, u32)) -> Action {
    let center = ((dim.0 / 2) as i32, (dim.1 / 2) as i32);
    let offset = ((at.0 - center.0) as i64, (at.1 - center.1) as i64);
    if offset.0 == 0 && offset.1 == 0 {
        Action::Idle
    } else {
        Action::Recenter { center, offset }
    }
}

/// The action that an event asks for in a window of size `dim`.
pub open spec fn event_action(event: Event, dim: (u32, u32)) -> Action {
    match event {
        Event::Closed => Action::Quit,
        Event::KeyPressed(key) => key_action(key),
        Event::MouseMoved(x, y) => mouse_action((x, y), dim),
        Event::Other => Action::Idle,
    }
}

impl Action {
    /// Whether the event loop goes on after the action: after all but
    /// `Quit`.
    pub fn keeps_running(&self) -> (b: bool)
        ensures
            b == (*self != Action::Quit),
    {
        match self {
            Action::Quit => false,
            _ => true,
        }
    }
}

/// Escape leaves the loop; W, A, S and D move the camera up, left, down and
/// right; other keys do nothing.
pub fn handle_keyboard(key: Key) -> (a: Action)
    ensures
        a == key_action(key),
{
    match key {
        Key::Escape => Action::Quit,
        Key::W => Action::Move(Direction::Up),
        Key::A => Action::Move(Direction::Left),
        Key::S => Action::Move(Direction::Down),
        Key::D => Action::Move(Direction::Right),
        Key::Other => Action::Idle,
    }
}

/// A pointer away from the centre of the window is put back there.
pub fn handle_mouse(at: (i32, i32), dim: (u32, u32)) -> (a: Action)
    ensures
        a == mouse_action(at, dim),
{
    let center = ((dim.0 / 2) as i32, (dim.1 / 2) as i32);
    let offset = (at.0 as i64 - center.0 as i64, at.1 as i64 - center.1 as i64);
    if offset.0 == 0 && offset.1 == 0 {
        Action::Idle
    } else {
        Action::Recenter { center, offset }
    }
}

/// Reads one event.
pub fn handle_input(event: Event, dim: (u32, u32)) -> (a: Action)
    ensures
        a == event_action(event, dim),
{
    match event {
        Event::Closed => Action::Quit,
        Event::KeyPressed(key) => handle_keyboard(key),
        Event::MouseMoved(x, y) => handle_mouse((x, y), dim),
        Event::Other => Action::Idle,
    }
}

} // verus!
