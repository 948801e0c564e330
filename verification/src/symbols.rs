//! The symbols of a mapping: what sets it off, what it injects, and in which
//! direction.

use vstd::prelude::*;
use crate::error::{ConfigError, ConfigErrorView};
use crate::keycodes::{
    device_name, is_digit_or_arrow, string_to_keycode, trigger_key_for, TriggerKey,
};
use crate::keys::{key_for, string_to_key, OutputKey};
use crate::text::same_text;

verus! {

/// A button of the mouse.
#[derive(Clone, Copy, Debug, PartialEq, Eq, Structural)]
pub enum MouseButton {
    Left,
    Right,
}

/// What sets a mapping off.
#[derive(Clone, Copy, Debug, PartialEq, Eq, Structural)]
pub enum Trigger {
    Button(MouseButton),
    Key(TriggerKey),
}

/// What a step injects.
#[derive(Clone, Copy, Debug, PartialEq, Eq, Structural)]
pub enum Target {
    Button(MouseButton),
    Key(OutputKey),
}

/// Whether a step presses, releases, or does both in turn.
#[derive(Clone, Copy, Debug, PartialEq, Eq, Structural)]
pub enum Direction {
    Press,
    Release,
    Click,
}

/// The button that a name stands for: `LeftMouse` or `RightMouse`.
pub open spec fn button_for(name: Seq<char>) -> Option<MouseButton> {
    if name == "LeftMouse"@ {
        Some(MouseButton::Left)
    } else if name == "RightMouse"@ {
        Some(MouseButton::Right)
    } else {
        None
    }
}

/// The trigger that a name stands for: a button of the mouse, else a key of
/// the keyboard, else none.
pub open spec fn trigger_for(name: Seq<char>) -> Option<Trigger> {
    match button_for(name) {
        Some(button) => Some(Trigger::Button(button)),
        None => match trigger_key_for(name) {
            Some(key) => Some(Trigger::Key(key)),
            None => None,
        },
    }
}

/// The target that a name stands for: a button of the mouse, else a key to
/// inject, else none.
pub open spec fn target_for(name: Seq<char>) -> Option<Target> {
    match button_for(name) {
        Some(button) => Some(Target::Button(button)),
        None => match key_for(name) {
            Some(key) => Some(Target::Key(key)),
            None => None,
        },
    }
}

/// The direction that a word stands for: `Press`, `Release`, and a click for
/// every other word.
pub open spec fn direction_for(word: Seq<char>) -> Direction {
    if word == "Press"@ {
        Direction::Press
    } else if word == "Release"@ {
        Direction::Release
    } else {
        Direction::Click
    }
}

/// Translates the name of a mouse button.
pub fn string_to_button(s: &str) -> (button: Option<MouseButton>)
    ensures
        button == button_for(s@),
{
    if same_text(s, "LeftMouse") {
        Some(MouseButton::Left)
    } else if same_text(s, "RightMouse") {
        Some(MouseButton::Right)
    } else {
        None
    }
}

/// Translates the name of a trigger: a button of the mouse or a key of the
/// keyboard. A name that stands for neither is refused, and the error
/// carries it.
pub fn string_to_trigger(s: &str) -> (r: Result<Trigger, ConfigError>)
    ensures
        match r {
            Ok(trigger) => trigger_for(s@) == Some(trigger),
            Err(error) => trigger_for(s@).is_none() && error@
                == ConfigErrorView::UnsupportedSymbol(s@),
        },
        button_for(s@).is_some() || is_digit_or_arrow(device_name(s@)) ==> r.is_ok(),
{
    match string_to_button(s) {
        Some(button) => Ok(Trigger::Button(button)),
        None => match string_to_keycode(s) {
            Ok(key) => Ok(Trigger::Key(key)),
            Err(error) => Err(error),
        },
    }
}

/// Translates the name of a target: a button of the mouse or a key to
/// inject. A name that stands for neither is refused, and the error carries
/// it.
pub fn string_to_target(s: &str) -> (r: Result<Target, ConfigError>)
    ensures
        match r {
            Ok(target) => target_for(s@) == Some(target),
            Err(error) => target_for(s@).is_none() && error@
                == ConfigErrorView::UnsupportedSymbol(s@),
        },
{
    match string_to_button(s) {
        Some(button) => Ok(Target::Button(button)),
        None => match string_to_key(s) {
            Ok(key) => Ok(Target::Key(key)),
            Err(error) => Err(error),
        },
    }
}

/// Translates the word for a direction. Every word but `Press` and `Release`
/// means a click.
pub fn parse_direction(s: &str) -> (direction: Direction)
    ensures
        direction == direction_for(s@),
{
    if same_text(s, "Press") {
        Direction::Press
    } else if same_text(s, "Release") {
        Direction::Release
    } else {
        Direction::Click
    }
}

} // verus!
