//! The keys that can be injected, and the names by which a mapping refers to
//! them.

use vstd::prelude::*;
use crate::error::{ConfigError, ConfigErrorView};
use crate::text::same_text;

verus! {

/// A key that the injection sink can press, release or click.
#[derive(Clone, Copy, Debug, PartialEq, Eq, Structural)]
pub enum OutputKey {
    Alt,
    Backspace,
    CapsLock,
    Control,
    LControl,
    Delete,
    DownArrow,
    End,
    Escape,
    F1,
    F2,
    F3,
    F4,
    F5,
    F6,
    F7,
    F8,
    F9,
    F10,
    F11,
    F12,
    F13,
    F14,
    F15,
    F16,
    F17,
    F18,
    F19,
    F20,
    Help,
    Home,
    LeftArrow,
    MediaNextTrack,
    MediaPlayPause,
    MediaPrevTrack,
    PageDown,
    PageUp,
    RControl,
    Return,
    RightArrow,
    RShift,
    Shift,
    LShift,
    Space,
    Tab,
    UpArrow,
    VolumeDown,
    VolumeUp,
    VolumeMute,
    Meta,
    /// The key that types the given character.
    Unicode(char),
}

/// The key that a name of the table stands for, if the table holds the name.
/// `Enter`, `Up`, `Super` and `Windows` are second names of `Return`,
/// `UpArrow` and `Command`.
pub open spec fn named_key(name: Seq<char>) -> Option<OutputKey> {
    if name == "Alt"@ {
        Some(OutputKey::Alt)
    } else if name == "Backspace"@ {
        Some(OutputKey::Backspace)
    } else if name == "CapsLock"@ {
        Some(OutputKey::CapsLock)
    } else if name == "Control"@ {
        Some(OutputKey::Control)
    } else if name == "LControl"@ {
        Some(OutputKey::LControl)
    } else if name == "Delete"@ {
        Some(OutputKey::Delete)
    } else if name == "DownArrow"@ {
        Some(OutputKey::DownArrow)
    } else if name == "End"@ {
        Some(OutputKey::End)
    } else if name == "Escape"@ {
        Some(OutputKey::Escape)
    } else if name == "F1"@ {
        Some(OutputKey::F1)
    } else if name == "F2"@ {
        Some(OutputKey::F2)
    } else if name == "F3"@ {
        Some(OutputKey::F3)
    } else if name == "F4"@ {
        Some(OutputKey::F4)
    } else if name == "F5"@ {
        Some(OutputKey::F5)
    } else if name == "F6"@ {
        Some(OutputKey::F6)
    } else if name == "F7"@ {
        Some(OutputKey::F7)
    } else if name == "F8"@ {
        Some(OutputKey::F8)
    } else if name == "F9"@ {
        Some(OutputKey::F9)
    } else if name == "F10"@ {
        Some(OutputKey::F10)
    } else if name == "F11"@ {
        Some(OutputKey::F11)
    } else if name == "F12"@ {
        Some(OutputKey::F12)
    } else if name == "F13"@ {
        Some(OutputKey::F13)
    } else if name == "F14"@ {
        Some(OutputKey::F14)
    } else if name == "F15"@ {
        Some(OutputKey::F15)
    } else if name == "F16"@ {
        Some(OutputKey::F16)
    } else if name == "F17"@ {
        Some(OutputKey::F17)
    } else if name == "F18"@ {
        Some(OutputKey::F18)
    } else if name == "F19"@ {
        Some(OutputKey::F19)
    } else if name == "F20"@ {
        Some(OutputKey::F20)
    } else if name == "Help"@ {
        Some(OutputKey::Help)
    } else if name == "Home"@ {
        Some(OutputKey::Home)
    } else if name == "LeftArrow"@ {
        Some(OutputKey::LeftArrow)
    } else if name == "MediaNextTrack"@ {
        Some(OutputKey::MediaNextTrack)
    } else if name == "MediaPlayPause"@ {
        Some(OutputKey::MediaPlayPause)
    } else if name == "MediaPrevTrack"@ {
        Some(OutputKey::MediaPrevTrack)
    } else if name == "PageDown"@ {
        Some(OutputKey::PageDown)
    } else if name == "PageUp"@ {
        Some(OutputKey::PageUp)
    } else if name == "RControl"@ {
        Some(OutputKey::RControl)
    } else if name == "Return"@ {
        Some(OutputKey::Return)
    } else if name == "Enter"@ {
        Some(OutputKey::Return)
    } else if name == "RightArrow"@ {
        Some(OutputKey::RightArrow)
    } else if name == "RShift"@ {
        Some(OutputKey::RShift)
    } else if name == "Shift"@ {
        Some(OutputKey::Shift)
    } else if name == "LShift"@ {
        Some(OutputKey::LShift)
    } else if name == "Space"@ {
        Some(OutputKey::Space)
    } else if name == "Tab"@ {
        Some(OutputKey::Tab)
    } else if name == "UpArrow"@ {
        Some(OutputKey::UpArrow)
    } else if name == "Up"@ {
        Some(OutputKey::UpArrow)
    } else if name == "VolumeDown"@ {
        Some(OutputKey::VolumeDown)
    } else if name == "VolumeUp"@ {
        Some(OutputKey::VolumeUp)
    } else if name == "VolumeMute"@ {
        Some(OutputKey::VolumeMute)
    } else if name == "Command"@ {
        Some(OutputKey::Meta)
    } else if name == "Super"@ {
        Some(OutputKey::Meta)
    } else if name == "Windows"@ {
        Some(OutputKey::Meta)
    } else {
        None
    }
}

/// Looks a name up in the table of named keys.
pub fn lookup_named_key(name: &str) -> (key: Option<OutputKey>)
    ensures
        key == named_key(name@),
{
    if same_text(name, "Alt") {
        Some(OutputKey::Alt)
    } else if same_text(name, "Backspace") {
        Some(OutputKey::Backspace)
    } else if same_text(name, "CapsLock") {
        Some(OutputKey::CapsLock)
    } else if same_text(name, "Control") {
        Some(OutputKey::Control)
    } else if same_text(name, "LControl") {
        Some(OutputKey::LControl)
    } else if same_text(name, "Delete") {
        Some(OutputKey::Delete)
    } else if same_text(name, "DownArrow") {
        Some(OutputKey::DownArrow)
    } else if same_text(name, "End") {
        Some(OutputKey::End)
    } else if same_text(name, "Escape") {
        Some(OutputKey::Escape)
    } else if same_text(name, "F1") {
        Some(OutputKey::F1)
    } else if same_text(name, "F2") {
        Some(OutputKey::F2)
    } else if same_text(name, "F3") {
        Some(OutputKey::F3)
    } else if same_text(name, "F4") {
        Some(OutputKey::F4)
    } else if same_text(name, "F5") {
        Some(OutputKey::F5)
    } else if same_text(name, "F6") {
        Some(OutputKey::F6)
    } else if same_text(name, "F7") {
        Some(OutputKey::F7)
    } else if same_text(name, "F8") {
        Some(OutputKey::F8)
    } else if same_text(name, "F9") {
        Some(OutputKey::F9)
    } else if same_text(name, "F10") {
        Some(OutputKey::F10)
    } else if same_text(name, "F11") {
        Some(OutputKey::F11)
    } else if same_text(name, "F12") {
        Some(OutputKey::F12)
    } else if same_text(name, "F13") {
        Some(OutputKey::F13)
    } else if same_text(name, "F14") {
        Some(OutputKey::F14)
    } else if same_text(name, "F15") {
        Some(OutputKey::F15)
    } else if same_text(name, "F16") {
        Some(OutputKey::F16)
    } else if same_text(name, "F17") {
        Some(OutputKey::F17)
    } else if same_text(name, "F18") {
        Some(OutputKey::F18)
    } else if same_text(name, "F19") {
        Some(OutputKey::F19)
    } else if same_text(name, "F20") {
        Some(OutputKey::F20)
    } else if same_text(name, "Help") {
        Some(OutputKey::Help)
    } else if same_text(name, "Home") {
        Some(OutputKey::Home)
    } else if same_text(name, "LeftArrow") {
        Some(OutputKey::LeftArrow)
    } else if same_text(name, "MediaNextTrack") {
        Some(OutputKey::MediaNextTrack)
    } else if same_text(name, "MediaPlayPause") {
        Some(OutputKey::MediaPlayPause)
    } else if same_text(name, "MediaPrevTrack") {
        Some(OutputKey::MediaPrevTrack)
    } else if same_text(name, "PageDown") {
        Some(OutputKey::PageDown)
    } else if same_text(name, "PageUp") {
        Some(OutputKey::PageUp)
    } else if same_text(name, "RControl") {
        Some(OutputKey::RControl)
    } else if same_text(name, "Return") {
        Some(OutputKey::Return)
    } else if same_text(name, "Enter") {
        Some(OutputKey::Return)
    } else if same_text(name, "RightArrow") {
        Some(OutputKey::RightArrow)
    } else if same_text(name, "RShift") {
        Some(OutputKey::RShift)
    } else if same_text(name, "Shift") {
        Some(OutputKey::Shift)
    } else if same_text(name, "LShift") {
        Some(OutputKey::LShift)
    } else if same_text(name, "Space") {
        Some(OutputKey::Space)
    } else if same_text(name, "Tab") {
        Some(OutputKey::Tab)
    } else if same_text(name, "UpArrow") {
        Some(OutputKey::UpArrow)
    } else if same_text(name, "Up") {
        Some(OutputKey::UpArrow)
    } else if same_text(name, "VolumeDown") {
        Some(OutputKey::VolumeDown)
    } else if same_text(name, "VolumeUp") {
        Some(OutputKey::VolumeUp)
    } else if same_text(name, "VolumeMute") {
        Some(OutputKey::VolumeMute)
    } else if same_text(name, "Command") {
        Some(OutputKey::Meta)
    } else if same_text(name, "Super") {
        Some(OutputKey::Meta)
    } else if same_text(name, "Windows") {
        Some(OutputKey::Meta)
    } else {
        None
    }
}

/// Whether a character is printable: any character that is not a control
/// character (U+0000 to U+001F and U+007F to U+009F).
pub open spec fn is_printable(c: char) -> bool {
    !(c as u32 <= 0x1F || 0x7F <= c as u32 <= 0x9F)
}

/// The key that a target name stands for: the key of the table where the
/// table holds the name, else the key that types the name where the name is a
/// single printable character, else none.
pub open spec fn key_for(name: Seq<char>) -> Option<OutputKey> {
    match named_key(name) {
        Some(key) => Some(key),
        None => if name.len() == 1 && is_printable(name[0]) {
            Some(OutputKey::Unicode(name[0]))
        } else {
            None
        },
    }
}

/// Whether a character is printable.
pub fn printable(c: char) -> (yes: bool)
    ensures
        yes == is_printable(c),
{
    let code: u32 = c as u32;
    !(code <= 0x1F || (0x7F <= code && code <= 0x9F))
}

/// The first character of a string that has one.
pub fn string_to_char(s: &str) -> (c: char)
    requires
        s@.len() > 0,
    ensures
        c == s@[0],
{
    s.get_char(0)
}

/// Translates the name of a target into the key to inject.
///
/// A name of the table gives its key. Any other name that is one printable
/// character gives the key that types it. Every other name is refused, and
/// the error carries it.
pub fn string_to_key(s: &str) -> (r: Result<OutputKey, ConfigError>)
    ensures
        match r {
            Ok(key) => key_for(s@) == Some(key),
            Err(error) => key_for(s@).is_none() && error@ == ConfigErrorView::UnsupportedSymbol(
                s@,
            ),
        },
{
    match lookup_named_key(s) {
        Some(key) => Ok(key),
        None => {
            if s.unicode_len() == 1 {
                let c: char = string_to_char(s);
                if printable(c) {
                    return Ok(OutputKey::Unicode(c));
                }
            }
            Err(ConfigError::unsupported(s))
        },
    }
}

/// Every name of the table of named keys translates, and to the key that the
/// table gives it.
pub proof fn lemma_named_keys_translate(name: Seq<char>)
    requires
        named_key(name).is_some(),
    ensures
        key_for(name) == named_key(name),
{
}

/// A name of one printable character that the table does not hold translates
/// to the key that types the character.
pub proof fn lemma_single_character_is_literal(name: Seq<char>)
    requires
        name.len() == 1,
        is_printable(name[0]),
        named_key(name).is_none(),
    ensures
        key_for(name) == Some(OutputKey::Unicode(name[0])),
{
}

/// Every name of the table of named keys has at least two characters, so
/// that no single character is shadowed by a name.
pub proof fn lemma_named_keys_are_longer(name: Seq<char>)
    requires
        named_key(name).is_some(),
    ensures
        name.len() >= 2,
{
    reveal_strlit("Alt");
    reveal_strlit("Backspace");
    reveal_strlit("CapsLock");
    reveal_strlit("Control");
    reveal_strlit("LControl");
    reveal_strlit("Delete");
    reveal_strlit("DownArrow");
    reveal_strlit("End");
    reveal_strlit("Escape");
    reveal_strlit("F1");
    reveal_strlit("F2");
    reveal_strlit("F3");
    reveal_strlit("F4");
    reveal_strlit("F5");
    reveal_strlit("F6");
    reveal_strlit("F7");
    reveal_strlit("F8");
    reveal_strlit("F9");
    reveal_strlit("F10");
    reveal_strlit("F11");
    reveal_strlit("F12");
    reveal_strlit("F13");
    reveal_strlit("F14");
    reveal_strlit("F15");
    reveal_strlit("F16");
    reveal_strlit("F17");
    reveal_strlit("F18");
    reveal_strlit("F19");
    reveal_strlit("F20");
    reveal_strlit("Help");
    reveal_strlit("Home");
    reveal_strlit("LeftArrow");
    reveal_strlit("MediaNextTrack");
    reveal_strlit("MediaPlayPause");
    reveal_strlit("MediaPrevTrack");
    reveal_strlit("PageDown");
    reveal_strlit("PageUp");
    reveal_strlit("RControl");
    reveal_strlit("Return");
    reveal_strlit("Enter");
    reveal_strlit("RightArrow");
    reveal_strlit("RShift");
    reveal_strlit("Shift");
    reveal_strlit("LShift");
    reveal_strlit("Space");
    reveal_strlit("Tab");
    reveal_strlit("UpArrow");
    reveal_strlit("Up");
    reveal_strlit("VolumeDown");
    reveal_strlit("VolumeUp");
    reveal_strlit("VolumeMute");
    reveal_strlit("Command");
    reveal_strlit("Super");
    reveal_strlit("Windows");
}

/// Every single printable character translates to the key that types it.
pub proof fn lemma_printable_character_is_literal(c: char)
    requires
        is_printable(c),
    ensures
        key_for(seq![c]) == Some(OutputKey::Unicode(c)),
{
    if named_key(seq![c]).is_some() {
        lemma_named_keys_are_longer(seq![c]);
    }
}

} // verus!
