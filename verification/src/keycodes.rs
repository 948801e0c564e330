//! The keys that the device-state provider reports, and the names by which a
//! mapping refers to them.

use vstd::prelude::*;
use crate::error::{ConfigError, ConfigErrorView};
use crate::text::same_text;

verus! {

/// A key of the keyboard as the device-state provider reports it: the number
/// of its variant in `device_query::Keycode`, counted from zero in the order
/// of declaration.
#[derive(Clone, Copy, Debug, PartialEq, Eq, Structural)]
pub struct TriggerKey {
    pub code: u16,
}

/// The number of the variant of `device_query::Keycode` that
/// `device_query::Keycode::from_str` returns for a name, or `None` where it
/// returns an error.
pub uninterp spec fn keycode_number(name: Seq<char>) -> Option<u16>;

/// The name under which the device-state provider knows a key: a digit and
/// the four arrows are written in a mapping otherwise than the provider
/// writes them; every other name is the provider's own.
pub open spec fn device_name(name: Seq<char>) -> Seq<char> {
    if name == "0"@ {
        "Key0"@
    } else if name == "1"@ {
        "Key1"@
    } else if name == "2"@ {
        "Key2"@
    } else if name == "3"@ {
        "Key3"@
    } else if name == "4"@ {
        "Key4"@
    } else if name == "5"@ {
        "Key5"@
    } else if name == "6"@ {
        "Key6"@
    } else if name == "7"@ {
        "Key7"@
    } else if name == "8"@ {
        "Key8"@
    } else if name == "9"@ {
        "Key9"@
    } else if name == "UpArrow"@ {
        "Up"@
    } else if name == "DownArrow"@ {
        "Down"@
    } else if name == "LeftArrow"@ {
        "Left"@
    } else if name == "RightArrow"@ {
        "Right"@
    } else {
        name
    }
}

/// Whether a name is one of the provider's own names for a digit or an arrow.
pub open spec fn is_digit_or_arrow(name: Seq<char>) -> bool {
    name == "Key0"@ || name == "Key1"@ || name == "Key2"@ || name == "Key3"@ || name == "Key4"@
        || name == "Key5"@ || name == "Key6"@ || name == "Key7"@ || name == "Key8"@ || name
        == "Key9"@ || name == "Up"@ || name == "Down"@ || name == "Left"@ || name == "Right"@
}

/// The key that a trigger name stands for, if it stands for one.
pub open spec fn trigger_key_for(name: Seq<char>) -> Option<TriggerKey> {
    match keycode_number(device_name(name)) {
        Some(code) => Some(TriggerKey { code }),
        None => None,
    }
}

/// Calls `device_query::Keycode::from_str` and hands back the number of the
/// variant it returned, or `None` for its error. The contract names that
/// number, and claims of it only that the provider's names for the digits and
/// the arrows are among those the function parses.
#[verifier::external_body]
fn parse_keycode(name: &str) -> (code: Option<u16>)
    ensures
        code == keycode_number(name@),
        is_digit_or_arrow(name@) ==> code.is_some(),
{
    match <device_query::Keycode as std::str::FromStr>::from_str(name) {
        Ok(keycode) => Some(keycode as u16),
        Err(_) => None,
    }
}

/// Rewrites a name of a mapping into the device-state provider's name.
pub fn canonical_name<'a>(name: &'a str) -> (canonical: &'a str)
    ensures
        canonical@ == device_name(name@),
{
    if same_text(name, "0") {
        "Key0"
    } else if same_text(name, "1") {
        "Key1"
    } else if same_text(name, "2") {
        "Key2"
    } else if same_text(name, "3") {
        "Key3"
    } else if same_text(name, "4") {
        "Key4"
    } else if same_text(name, "5") {
        "Key5"
    } else if same_text(name, "6") {
        "Key6"
    } else if same_text(name, "7") {
        "Key7"
    } else if same_text(name, "8") {
        "Key8"
    } else if same_text(name, "9") {
        "Key9"
    } else if same_text(name, "UpArrow") {
        "Up"
    } else if same_text(name, "DownArrow") {
        "Down"
    } else if same_text(name, "LeftArrow") {
        "Left"
    } else if same_text(name, "RightArrow") {
        "Right"
    } else {
        name
    }
}

/// Turns what the provider made of a name into the translator's answer: the
/// key with the given number, or the error that carries the name.
pub fn keycode_from_number(name: &str, number: Option<u16>) -> (r: Result<TriggerKey, ConfigError>)
    ensures
        match number {
            Some(code) => r == Ok::<TriggerKey, ConfigError>(TriggerKey { code }),
            None => r matches Err(error) && error@ == ConfigErrorView::UnsupportedSymbol(name@),
        },
{
    match number {
        Some(code) => Ok(TriggerKey { code }),
        None => Err(ConfigError::unsupported(name)),
    }
}

/// Translates the name of a trigger into the key to watch.
///
/// The digits `0` to `9` and `UpArrow`, `DownArrow`, `LeftArrow`,
/// `RightArrow` always translate. Any other name translates where the
/// device-state provider knows it. Every other name is refused, and the error
/// carries it.
pub fn string_to_keycode(s: &str) -> (r: Result<TriggerKey, ConfigError>)
    ensures
        match r {
            Ok(key) => trigger_key_for(s@) == Some(key),
            Err(error) => trigger_key_for(s@).is_none() && error@
                == ConfigErrorView::UnsupportedSymbol(s@),
        },
        is_digit_or_arrow(device_name(s@)) ==> r.is_ok(),
{
    let canonical = canonical_name(s);
    let number: Option<u16> = parse_keycode(canonical);
    keycode_from_number(s, number)
}

} // verus!
