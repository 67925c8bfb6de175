//! What keys and other events of the window ask for.

use vstd::prelude::*;

use crate::message::{Msg, Place};
use crate::strings::same_text;

verus! {

/// A key of the keyboard.
#[derive(Debug, Clone)]
pub enum Key {
    Character(String),
    Escape,
    Enter,
    ArrowDown,
    ArrowUp,
    PageDown,
    PageUp,
    Other,
}

/// Something that happened in the window.
#[derive(Debug, Clone)]
pub enum WindowEvent {
    MouseMoved(Place),
    /// A key was pressed, with or without the control and the shift key;
    /// `captured` tells that a widget has used it.
    KeyPressed { key: Key, control: bool, shift: bool, captured: bool },
    CloseRequested,
}

/// What a key asks for.
pub open spec fn key_message(key: Key, control: bool, shift: bool, captured: bool) -> Option<Msg> {
    match key {
        Key::Character(c) if control && !shift && c@ == "f"@ => Some(Msg::OpenInlineFind),
        Key::Character(c) if control && !shift && c@ == "h"@ => Some(Msg::OpenInlineReplace),
        Key::Escape => Some(Msg::CloseInlineFind),
        Key::Enter if shift && !control => Some(Msg::FindPrev),
        Key::ArrowDown if !control && !shift && !captured => Some(Msg::FindNext),
        Key::PageDown if !control && !shift && !captured => Some(Msg::FindNext),
        Key::ArrowUp if !control && !shift && !captured => Some(Msg::FindPrev),
        Key::PageUp if !control && !shift && !captured => Some(Msg::FindPrev),
        _ => None,
    }
}

/// What an event asks for: the keys that open, close and move the find panel,
/// the place of the mouse, and leaving.
pub fn event_message(event: WindowEvent) -> (r: Option<Msg>)
    ensures
        r == match event {
            WindowEvent::MouseMoved(place) => Some(Msg::MouseMoved(place)),
            WindowEvent::KeyPressed { key, control, shift, captured } => key_message(
                key,
                control,
                shift,
                captured,
            ),
            WindowEvent::CloseRequested => Some(Msg::Quit),
        },
{
    match event {
        WindowEvent::MouseMoved(place) => Some(Msg::MouseMoved(place)),
        WindowEvent::CloseRequested => Some(Msg::Quit),
        WindowEvent::KeyPressed { key, control, shift, captured } => match &key {
            Key::Character(c) => {
                proof {
                    reveal_strlit("f");
                    reveal_strlit("h");
                    assert("f"@[0] != "h"@[0]);
                }
                if control && !shift && same_text(c.as_str(), "f") {
                    Some(Msg::OpenInlineFind)
                } else if control && !shift && same_text(c.as_str(), "h") {
                    Some(Msg::OpenInlineReplace)
                } else {
                    None
                }
            },
            Key::Escape => Some(Msg::CloseInlineFind),
            Key::Enter => if shift && !control {
                Some(Msg::FindPrev)
            } else {
                None
            },
            Key::ArrowDown | Key::PageDown => if !control && !shift && !captured {
                Some(Msg::FindNext)
            } else {
                None
            },
            Key::ArrowUp | Key::PageUp => if !control && !shift && !captured {
                Some(Msg::FindPrev)
            } else {
                None
            },
            Key::Other => None,
        },
    }
}

} // verus!
