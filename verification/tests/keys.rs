use cargo_gui::keys::{event_message, Key, WindowEvent};
use cargo_gui::message::{Msg, Place};

fn press(key: Key, control: bool, shift: bool, captured: bool) -> Option<Msg> {
    event_message(WindowEvent::KeyPressed { key, control, shift, captured })
}

fn letter(c: &str) -> Key {
    Key::Character(c.to_string())
}

#[test]
fn control_and_letter_open_the_panel() {
    assert!(matches!(press(letter("f"), true, false, true), Some(Msg::OpenInlineFind)));
    assert!(matches!(press(letter("h"), true, false, false), Some(Msg::OpenInlineReplace)));
    assert!(press(letter("f"), true, true, false).is_none());
    assert!(press(letter("f"), false, false, false).is_none());
    assert!(press(letter("g"), true, false, false).is_none());
    assert!(press(letter(""), true, false, false).is_none());
}

#[test]
fn escape_closes_the_panel() {
    assert!(matches!(press(Key::Escape, false, false, true), Some(Msg::CloseInlineFind)));
    assert!(matches!(press(Key::Escape, true, true, false), Some(Msg::CloseInlineFind)));
}

#[test]
fn enter_goes_back_with_shift_only() {
    assert!(matches!(press(Key::Enter, false, true, true), Some(Msg::FindPrev)));
    assert!(press(Key::Enter, false, false, false).is_none());
    assert!(press(Key::Enter, true, true, false).is_none());
}

#[test]
fn arrows_step_unless_used_elsewhere() {
    assert!(matches!(press(Key::ArrowDown, false, false, false), Some(Msg::FindNext)));
    assert!(matches!(press(Key::PageDown, false, false, false), Some(Msg::FindNext)));
    assert!(matches!(press(Key::ArrowUp, false, false, false), Some(Msg::FindPrev)));
    assert!(matches!(press(Key::PageUp, false, false, false), Some(Msg::FindPrev)));
    assert!(press(Key::ArrowDown, false, false, true).is_none());
    assert!(press(Key::ArrowUp, true, false, false).is_none());
    assert!(press(Key::PageUp, false, true, false).is_none());
    assert!(press(Key::Other, false, false, false).is_none());
}

#[test]
fn mouse_and_close_button() {
    let place = Place { point: iced::Point::new(3.0, 4.0) };
    match event_message(WindowEvent::MouseMoved(place)) {
        Some(Msg::MouseMoved(p)) => assert_eq!(p.point, iced::Point::new(3.0, 4.0)),
        _ => panic!("the mouse moved"),
    }
    assert!(matches!(event_message(WindowEvent::CloseRequested), Some(Msg::Quit)));
}
