//! Input events received as JSON from the user interface: the decisions
//! that turn their action and button names into platform input events.
//! (Pointer coordinates and scroll deltas are floating point and stay with
//! the caller, which injects the events.)
use vstd::prelude::*;
use crate::platform::{KeyEvent, KeyModifiers, MouseAction, MouseButton, PlatformError};

verus! {

/// Keyboard event from the user interface.
#[derive(Debug, Clone)]
pub struct KeyboardEventJson {
    /// Key code (USB HID usage code or platform virtual key)
    pub key_code: u32,
    /// "press" or "release"
    pub action: String,
    /// Modifier flags
    pub shift: bool,
    pub control: bool,
    pub alt: bool,
    pub meta: bool,
}

/// An `ApiError` with the given text.
pub open spec fn api_error(e: PlatformError, m: Seq<char>) -> bool {
    e matches PlatformError::ApiError(s) && s@ == m
}

/// An `ApiError` whose text is `prefix` followed by `name`.
fn api_error_named(prefix: &str, name: &str) -> (e: PlatformError)
    ensures
        api_error(e, prefix@ + name@),
{
    let mut s = String::from_str(prefix);
    s.append(name);
    PlatformError::ApiError(s)
}

/// The key event that a keyboard event stands for: "press" presses the
/// key, "release" releases it, with the modifiers as given; any other
/// action is an `ApiError` naming it.
pub fn keyboard_key_event(event: &KeyboardEventJson) -> (r: Result<KeyEvent, PlatformError>)
    ensures
        event.action@ == "press"@ || event.action@ == "release"@ ==> (r matches Ok(k) && {
            &&& k.key_code == event.key_code
            &&& k.pressed == (event.action@ == "press"@)
            &&& k.modifiers.shift == event.shift && k.modifiers.control == event.control
            &&& k.modifiers.alt == event.alt && k.modifiers.meta == event.meta
        }),
        !(event.action@ == "press"@ || event.action@ == "release"@) ==> (r matches Err(e) && api_error(
            e,
            "unknown keyboard action: "@ + event.action@,
        )),
{
    let pressed = if crate::text::str_equal(event.action.as_str(), "press") {
        true
    } else if crate::text::str_equal(event.action.as_str(), "release") {
        false
    } else {
        return Err(api_error_named("unknown keyboard action: ", event.action.as_str()));
    };
    Ok(
        KeyEvent {
            key_code: event.key_code,
            pressed,
            modifiers: KeyModifiers {
                shift: event.shift,
                control: event.control,
                alt: event.alt,
                meta: event.meta,
            },
        },
    )
}

/// The mouse button that a name stands for: none or "left" is the left
/// button, "right" and "middle" the others; any other name is an
/// `ApiError` naming it.
pub fn parse_mouse_button(button: Option<&str>) -> (r: Result<MouseButton, PlatformError>)
    ensures
        match button {
            None => r == Ok::<MouseButton, PlatformError>(MouseButton::Left),
            Some(b) => if b@ == "left"@ {
                r == Ok::<MouseButton, PlatformError>(MouseButton::Left)
            } else if b@ == "right"@ {
                r == Ok::<MouseButton, PlatformError>(MouseButton::Right)
            } else if b@ == "middle"@ {
                r == Ok::<MouseButton, PlatformError>(MouseButton::Middle)
            } else {
                r matches Err(e) && api_error(e, "unknown mouse button: "@ + b@)
            },
        },
{
    match button {
        None => Ok(MouseButton::Left),
        Some(b) => {
            if crate::text::str_equal(b, "left") {
                Ok(MouseButton::Left)
            } else if crate::text::str_equal(b, "right") {
                Ok(MouseButton::Right)
            } else if crate::text::str_equal(b, "middle") {
                Ok(MouseButton::Middle)
            } else {
                Err(api_error_named("unknown mouse button: ", b))
            }
        },
    }
}

/// The button of a parse result (meaningful when it succeeded).
pub open spec fn parsed_button(button: Option<Seq<char>>) -> Option<MouseButton> {
    match button {
        None => Some(MouseButton::Left),
        Some(b) => if b == "left"@ {
            Some(MouseButton::Left)
        } else if b == "right"@ {
            Some(MouseButton::Right)
        } else if b == "middle"@ {
            Some(MouseButton::Middle)
        } else {
            None
        },
    }
}

/// The view of an optional name.
pub open spec fn name_view(button: Option<&str>) -> Option<Seq<char>> {
    match button {
        None => None,
        Some(b) => Some(b@),
    }
}

/// The mouse actions, in order, that a mouse event with the given action
/// and button names stands for: "move" moves; "click" presses then
/// releases the button; "double_click", "press" and "release" act with the
/// button. An unknown action, or a button name that is not known for an
/// action that takes one, is an `ApiError`.
pub fn mouse_actions(action: &str, button: Option<&str>) -> (r: Result<Vec<MouseAction>, PlatformError>)
    ensures
        action@ == "move"@ ==> (r matches Ok(v) && v@ == seq![MouseAction::Move]),
        action@ != "move"@ && action@ != "click"@ && action@ != "double_click"@ && action@ != "press"@
            && action@ != "release"@ ==> (r matches Err(e) && api_error(e, "unknown mouse action: "@ + action@)),
        (action@ == "click"@ || action@ == "double_click"@ || action@ == "press"@ || action@ == "release"@)
            ==> match parsed_button(name_view(button)) {
            None => r matches Err(e) && api_error(e, "unknown mouse button: "@ + name_view(button)->Some_0),
            Some(b) => r matches Ok(v) && v@ == (if action@ == "click"@ {
                seq![MouseAction::Press(b), MouseAction::Release(b)]
            } else if action@ == "double_click"@ {
                seq![MouseAction::DoubleClick(b)]
            } else if action@ == "press"@ {
                seq![MouseAction::Press(b)]
            } else {
                seq![MouseAction::Release(b)]
            }),
        },
{
    proof {
        reveal_strlit("move");
        reveal_strlit("click");
        reveal_strlit("double_click");
        reveal_strlit("press");
        reveal_strlit("release");
        assert("move"@.len() == 4);
        assert("click"@.len() == 5 && "press"@.len() == 5);
        assert("release"@.len() == 7);
        assert("double_click"@.len() == 12);
    }
    let mut v: Vec<MouseAction> = Vec::new();
    if crate::text::str_equal(action, "move") {
        v.push(MouseAction::Move);
        return Ok(v);
    }
    let known = crate::text::str_equal(action, "click") || crate::text::str_equal(action, "double_click")
        || crate::text::str_equal(action, "press") || crate::text::str_equal(action, "release");
    if !known {
        return Err(api_error_named("unknown mouse action: ", action));
    }
    let b = match parse_mouse_button(button) {
        Ok(b) => b,
        Err(e) => {
            return Err(e);
        },
    };
    if crate::text::str_equal(action, "click") {
        v.push(MouseAction::Press(b));
        v.push(MouseAction::Release(b));
    } else if crate::text::str_equal(action, "double_click") {
        v.push(MouseAction::DoubleClick(b));
    } else if crate::text::str_equal(action, "press") {
        v.push(MouseAction::Press(b));
    } else {
        v.push(MouseAction::Release(b));
    }
    proof {
        assert(v@ =~= (if action@ == "click"@ {
            seq![MouseAction::Press(b), MouseAction::Release(b)]
        } else if action@ == "double_click"@ {
            seq![MouseAction::DoubleClick(b)]
        } else if action@ == "press"@ {
            seq![MouseAction::Press(b)]
        } else {
            seq![MouseAction::Release(b)]
        }));
    }
    Ok(v)
}

} // verus!
