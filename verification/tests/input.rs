use rust_opengl::camera::{Axis, Direction};
use rust_opengl::context::{handle_input, handle_keyboard, handle_mouse, Action, Event, Key};

#[test]
fn escape_quits_and_letters_move() {
    assert_eq!(handle_keyboard(Key::Escape), Action::Quit);
    assert_eq!(handle_keyboard(Key::W), Action::Move(Direction::Up));
    assert_eq!(handle_keyboard(Key::A), Action::Move(Direction::Left));
    assert_eq!(handle_keyboard(Key::S), Action::Move(Direction::Down));
    assert_eq!(handle_keyboard(Key::D), Action::Move(Direction::Right));
    assert_eq!(handle_keyboard(Key::Other), Action::Idle);
}

#[test]
fn pointer_is_put_back_at_the_centre() {
    assert_eq!(handle_mouse((400, 300), (800, 600)), Action::Idle);
    assert_eq!(
        handle_mouse((410, 295), (800, 600)),
        Action::Recenter { center: (400, 300), offset: (10, -5) }
    );
    assert_eq!(
        handle_mouse((0, 0), (801, 601)),
        Action::Recenter { center: (400, 300), offset: (-400, -300) }
    );
    assert_eq!(handle_mouse((0, 0), (1, 1)), Action::Idle);
    assert_eq!(
        handle_mouse((i32::MIN, i32::MAX), (u32::MAX, 0)),
        Action::Recenter {
            center: (i32::MAX, 0),
            offset: (i32::MIN as i64 - i32::MAX as i64, i32::MAX as i64),
        }
    );
}

#[test]
fn events_are_read_by_their_kind() {
    let dim = (800, 600);
    assert_eq!(handle_input(Event::Closed, dim), Action::Quit);
    assert_eq!(handle_input(Event::KeyPressed(Key::Escape), dim), Action::Quit);
    assert_eq!(handle_input(Event::KeyPressed(Key::S), dim), Action::Move(Direction::Down));
    assert_eq!(handle_input(Event::MouseMoved(400, 300), dim), Action::Idle);
    assert_eq!(
        handle_input(Event::MouseMoved(401, 300), dim),
        Action::Recenter { center: (400, 300), offset: (1, 0) }
    );
    assert_eq!(handle_input(Event::Other, dim), Action::Idle);
}

#[test]
fn only_quit_ends_the_loop() {
    assert!(!Action::Quit.keeps_running());
    assert!(Action::Idle.keeps_running());
    assert!(Action::Move(Direction::Up).keeps_running());
    assert!(Action::Recenter { center: (0, 0), offset: (1, 1) }.keeps_running());
}

#[test]
fn directions_have_an_axis_and_a_sense() {
    assert_eq!(Direction::Up.axis(), Axis::Dir);
    assert_eq!(Direction::Down.axis(), Axis::Dir);
    assert_eq!(Direction::Left.axis(), Axis::Right);
    assert_eq!(Direction::Right.axis(), Axis::Right);
    assert!(Direction::Up.adds());
    assert!(!Direction::Down.adds());
    assert!(Direction::Left.adds());
    assert!(!Direction::Right.adds());
}
