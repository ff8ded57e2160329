use rust_engine::input::{mouse_code_to_id, Input, InputEvent, MouseButton};

#[test]
fn key_edges() {
    let mut input = Input::new();
    assert!(!input.get_key(10));
    input.process_events(&InputEvent::Key { code: Some(10), pressed: true });
    assert!(input.get_key(10));
    assert!(input.get_key_down(10));
    assert!(!input.get_key_up(10));
    input.start_event_proc();
    assert!(input.get_key(10));
    assert!(!input.get_key_down(10));
    input.process_events(&InputEvent::Key { code: Some(10), pressed: false });
    assert!(!input.get_key(10));
    assert!(input.get_key_up(10));
    input.start_event_proc();
    assert!(!input.get_key_up(10));
}

#[test]
fn last_key_code_and_unknown_key() {
    let mut input = Input::new();
    input.process_events(&InputEvent::Key { code: Some(160), pressed: true });
    assert!(input.get_key_down(160));
    input.process_events(&InputEvent::Key { code: None, pressed: true });
    input.process_events(&InputEvent::Other);
    assert!(!input.get_key(0));
}

#[test]
fn mouse_edges() {
    let mut input = Input::new();
    input.process_events(&InputEvent::Mouse { button: MouseButton::Right, pressed: true });
    assert!(input.get_mouse(MouseButton::Right));
    assert!(input.get_mouse_down(MouseButton::Right));
    assert!(!input.get_mouse(MouseButton::Left));
    input.start_event_proc();
    input.process_events(&InputEvent::Mouse { button: MouseButton::Right, pressed: false });
    assert!(input.get_mouse_up(MouseButton::Right));
    assert!(!input.get_mouse_down(MouseButton::Right));
}

#[test]
fn mouse_slots() {
    assert_eq!(mouse_code_to_id(MouseButton::Left), 0);
    assert_eq!(mouse_code_to_id(MouseButton::Right), 1);
    assert_eq!(mouse_code_to_id(MouseButton::Middle), 2);
    assert_eq!(mouse_code_to_id(MouseButton::Other(31)), 31);
    let mut input = Input::new();
    input.process_events(&InputEvent::Mouse { button: MouseButton::Other(31), pressed: true });
    assert!(input.get_mouse(MouseButton::Other(31)));
}
