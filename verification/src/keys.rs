//! The keys that a binding can emulate, the names by which a configuration
//! refers to them, and the names under which the automation library knows
//! them.

use vstd::prelude::*;
use vstd::string::*;
use crate::text::{hex_upper_text, push_hex_upper, same_text};

verus! {

/// A key of the keyboard.
#[derive(Clone, Copy, Debug, PartialEq, Eq, Structural)]
pub enum Key {
    /// alt key (option key on a Mac)
    Alt,
    /// backspace key
    Backspace,
    /// caps lock key
    CapsLock,
    /// control key
    Control,
    /// delete key
    Delete,
    /// down arrow key
    DownArrow,
    /// end key
    End,
    /// escape key
    Escape,
    /// F1 key
    F1,
    /// F10 key
    F10,
    /// F11 key
    F11,
    /// F12 key
    F12,
    /// F13 key
    F13,
    /// F14 key
    F14,
    /// F15 key
    F15,
    /// F16 key
    F16,
    /// F17 key
    F17,
    /// F18 key
    F18,
    /// F19 key
    F19,
    /// F20 key
    F20,
    /// F21 key
    F21,
    /// F22 key
    F22,
    /// F23 key
    F23,
    /// F24 key
    F24,
    /// F2 key
    F2,
    /// F3 key
    F3,
    /// F4 key
    F4,
    /// F5 key
    F5,
    /// F6 key
    F6,
    /// F7 key
    F7,
    /// F8 key
    F8,
    /// F9 key
    F9,
    /// home key
    Home,
    /// left arrow key
    LeftArrow,
    /// meta key (also known as "windows", "super" and "command")
    Meta,
    /// left super key
    SuperL,
    /// right super key
    SuperR,
    /// left hyper key
    HyperL,
    /// right hyper key
    HyperR,
    /// option key on a Mac (alt key elsewhere)
    Option,
    /// page down key
    PageDown,
    /// page up key
    PageUp,
    /// return key
    Return,
    /// right arrow key
    RightArrow,
    /// shift key
    Shift,
    /// space key
    Space,
    /// tab key (tabulator)
    Tab,
    /// up arrow key
    UpArrow,
    /// a key that depends on the keyboard layout
    Layout(char),
    /// a raw keycode
    Raw(u16),
}

/// The key that a configuration means by `name`, if it means one.  Every
/// key but a layout-dependent or raw one has a name; the super and hyper
/// keys have several.
pub open spec fn key_of_name(name: Seq<char>) -> Option<Key> {
    if name == "Alt"@ {
        Some(Key::Alt)
    } else if name == "Backspace"@ {
        Some(Key::Backspace)
    } else if name == "CapsLock"@ {
        Some(Key::CapsLock)
    } else if name == "Control"@ {
        Some(Key::Control)
    } else if name == "Delete"@ {
        Some(Key::Delete)
    } else if name == "DownArrow"@ {
        Some(Key::DownArrow)
    } else if name == "End"@ {
        Some(Key::End)
    } else if name == "Escape"@ {
        Some(Key::Escape)
    } else if name == "F1"@ {
        Some(Key::F1)
    } else if name == "F10"@ {
        Some(Key::F10)
    } else if name == "F11"@ {
        Some(Key::F11)
    } else if name == "F12"@ {
        Some(Key::F12)
    } else if name == "F13"@ {
        Some(Key::F13)
    } else if name == "F14"@ {
        Some(Key::F14)
    } else if name == "F15"@ {
        Some(Key::F15)
    } else if name == "F16"@ {
        Some(Key::F16)
    } else if name == "F17"@ {
        Some(Key::F17)
    } else if name == "F18"@ {
        Some(Key::F18)
    } else if name == "F19"@ {
        Some(Key::F19)
    } else if name == "F20"@ {
        Some(Key::F20)
    } else if name == "F21"@ {
        Some(Key::F21)
    } else if name == "F22"@ {
        Some(Key::F22)
    } else if name == "F23"@ {
        Some(Key::F23)
    } else if name == "F24"@ {
        Some(Key::F24)
    } else if name == "F2"@ {
        Some(Key::F2)
    } else if name == "F3"@ {
        Some(Key::F3)
    } else if name == "F4"@ {
        Some(Key::F4)
    } else if name == "F5"@ {
        Some(Key::F5)
    } else if name == "F6"@ {
        Some(Key::F6)
    } else if name == "F7"@ {
        Some(Key::F7)
    } else if name == "F8"@ {
        Some(Key::F8)
    } else if name == "F9"@ {
        Some(Key::F9)
    } else if name == "Home"@ {
        Some(Key::Home)
    } else if name == "LeftArrow"@ {
        Some(Key::LeftArrow)
    } else if name == "Meta"@ {
        Some(Key::Meta)
    } else if name == "Super_L"@ || name == "SuperL"@ || name == "Super"@ {
        Some(Key::SuperL)
    } else if name == "Super_R"@ || name == "SuperR"@ {
        Some(Key::SuperR)
    } else if name == "Hyper_L"@ || name == "HyperL"@ || name == "Hyper"@ {
        Some(Key::HyperL)
    } else if name == "Hyper_R"@ || name == "HyperR"@ {
        Some(Key::HyperR)
    } else if name == "Option"@ {
        Some(Key::Option)
    } else if name == "PageDown"@ {
        Some(Key::PageDown)
    } else if name == "PageUp"@ {
        Some(Key::PageUp)
    } else if name == "Return"@ {
        Some(Key::Return)
    } else if name == "RightArrow"@ {
        Some(Key::RightArrow)
    } else if name == "Shift"@ {
        Some(Key::Shift)
    } else if name == "Space"@ {
        Some(Key::Space)
    } else if name == "Tab"@ {
        Some(Key::Tab)
    } else if name == "UpArrow"@ {
        Some(Key::UpArrow)
    } else {
        None
    }
}

/// The name under which a configuration knows the key, if it has one.
pub open spec fn name_of_key(key: Key) -> Option<Seq<char>> {
    match key {
        Key::Alt => Some("Alt"@),
        Key::Backspace => Some("Backspace"@),
        Key::CapsLock => Some("CapsLock"@),
        Key::Control => Some("Control"@),
        Key::Delete => Some("Delete"@),
        Key::DownArrow => Some("DownArrow"@),
        Key::End => Some("End"@),
        Key::Escape => Some("Escape"@),
        Key::F1 => Some("F1"@),
        Key::F10 => Some("F10"@),
        Key::F11 => Some("F11"@),
        Key::F12 => Some("F12"@),
        Key::F13 => Some("F13"@),
        Key::F14 => Some("F14"@),
        Key::F15 => Some("F15"@),
        Key::F16 => Some("F16"@),
        Key::F17 => Some("F17"@),
        Key::F18 => Some("F18"@),
        Key::F19 => Some("F19"@),
        Key::F20 => Some("F20"@),
        Key::F21 => Some("F21"@),
        Key::F22 => Some("F22"@),
        Key::F23 => Some("F23"@),
        Key::F24 => Some("F24"@),
        Key::F2 => Some("F2"@),
        Key::F3 => Some("F3"@),
        Key::F4 => Some("F4"@),
        Key::F5 => Some("F5"@),
        Key::F6 => Some("F6"@),
        Key::F7 => Some("F7"@),
        Key::F8 => Some("F8"@),
        Key::F9 => Some("F9"@),
        Key::Home => Some("Home"@),
        Key::LeftArrow => Some("LeftArrow"@),
        Key::Meta => Some("Meta"@),
        Key::SuperL => Some("Super_L"@),
        Key::SuperR => Some("Super_R"@),
        Key::HyperL => Some("Hyper_L"@),
        Key::HyperR => Some("Hyper_R"@),
        Key::Option => Some("Option"@),
        Key::PageDown => Some("PageDown"@),
        Key::PageUp => Some("PageUp"@),
        Key::Return => Some("Return"@),
        Key::RightArrow => Some("RightArrow"@),
        Key::Shift => Some("Shift"@),
        Key::Space => Some("Space"@),
        Key::Tab => Some("Tab"@),
        Key::UpArrow => Some("UpArrow"@),
        Key::Layout(_) => None,
        Key::Raw(_) => None,
    }
}

/// The name under which the automation library knows the key: a table for
/// the named keys, and the letter U followed by the code point in
/// hexadecimal for a layout-dependent key.  A raw keycode has none.
pub open spec fn keysym_of_key(key: Key) -> Option<Seq<char>> {
    match key {
        Key::Alt => Some("Alt"@),
        Key::Backspace => Some("BackSpace"@),
        Key::CapsLock => Some("CapsLock"@),
        Key::Control => Some("Control"@),
        Key::Delete => Some("Delete"@),
        Key::DownArrow => Some("Down"@),
        Key::End => Some("End"@),
        Key::Escape => Some("Escape"@),
        Key::F1 => Some("F1"@),
        Key::F10 => Some("F10"@),
        Key::F11 => Some("F11"@),
        Key::F12 => Some("F12"@),
        Key::F2 => Some("F2"@),
        Key::F3 => Some("F3"@),
        Key::F4 => Some("F4"@),
        Key::F5 => Some("F5"@),
        Key::F6 => Some("F6"@),
        Key::F7 => Some("F7"@),
        Key::F8 => Some("F8"@),
        Key::F9 => Some("F9"@),
        Key::Home => Some("Home"@),
        Key::LeftArrow => Some("Left"@),
        Key::Meta => Some("Meta"@),
        Key::Option => Some("Option"@),
        Key::PageDown => Some("PageDown"@),
        Key::PageUp => Some("PageUp"@),
        Key::Return => Some("Return"@),
        Key::RightArrow => Some("Right"@),
        Key::Shift => Some("Shift"@),
        Key::Space => Some("space"@),
        Key::Tab => Some("Tab"@),
        Key::UpArrow => Some("Up"@),
        Key::F13 => Some("F13"@),
        Key::F14 => Some("F14"@),
        Key::F15 => Some("F15"@),
        Key::F16 => Some("F16"@),
        Key::F17 => Some("F17"@),
        Key::F18 => Some("F18"@),
        Key::F19 => Some("F19"@),
        Key::F20 => Some("F20"@),
        Key::F21 => Some("F21"@),
        Key::F22 => Some("F22"@),
        Key::F23 => Some("F23"@),
        Key::F24 => Some("F24"@),
        Key::SuperL => Some("Super_L"@),
        Key::SuperR => Some("Super_R"@),
        Key::HyperL => Some("Hyper_L"@),
        Key::HyperR => Some("Hyper_R"@),
        Key::Layout(c) => Some("U"@ + hex_upper_text(c as nat)),
        Key::Raw(_) => None,
    }
}

impl Key {
    /// Reads a key from the name that a configuration gives it.
    pub fn from_name(name: &str) -> (key: Option<Key>)
        ensures
            key == key_of_name(name@),
    {
        if same_text(name, "Alt") {
            Some(Key::Alt)
        } else if same_text(name, "Backspace") {
            Some(Key::Backspace)
        } else if same_text(name, "CapsLock") {
            Some(Key::CapsLock)
        } else if same_text(name, "Control") {
            Some(Key::Control)
        } else if same_text(name, "Delete") {
            Some(Key::Delete)
        } else if same_text(name, "DownArrow") {
            Some(Key::DownArrow)
        } else if same_text(name, "End") {
            Some(Key::End)
        } else if same_text(name, "Escape") {
            Some(Key::Escape)
        } else if same_text(name, "F1") {
            Some(Key::F1)
        } else if same_text(name, "F10") {
            Some(Key::F10)
        } else if same_text(name, "F11") {
            Some(Key::F11)
        } else if same_text(name, "F12") {
            Some(Key::F12)
        } else if same_text(name, "F13") {
            Some(Key::F13)
        } else if same_text(name, "F14") {
            Some(Key::F14)
        } else if same_text(name, "F15") {
            Some(Key::F15)
        } else if same_text(name, "F16") {
            Some(Key::F16)
        } else if same_text(name, "F17") {
            Some(Key::F17)
        } else if same_text(name, "F18") {
            Some(Key::F18)
        } else if same_text(name, "F19") {
            Some(Key::F19)
        } else if same_text(name, "F20") {
            Some(Key::F20)
        } else if same_text(name, "F21") {
            Some(Key::F21)
        } else if same_text(name, "F22") {
            Some(Key::F22)
        } else if same_text(name, "F23") {
            Some(Key::F23)
        } else if same_text(name, "F24") {
            Some(Key::F24)
        } else if same_text(name, "F2") {
            Some(Key::F2)
        } else if same_text(name, "F3") {
            Some(Key::F3)
        } else if same_text(name, "F4") {
            Some(Key::F4)
        } else if same_text(name, "F5") {
            Some(Key::F5)
        } else if same_text(name, "F6") {
            Some(Key::F6)
        } else if same_text(name, "F7") {
            Some(Key::F7)
        } else if same_text(name, "F8") {
            Some(Key::F8)
        } else if same_text(name, "F9") {
            Some(Key::F9)
        } else if same_text(name, "Home") {
            Some(Key::Home)
        } else if same_text(name, "LeftArrow") {
            Some(Key::LeftArrow)
        } else if same_text(name, "Meta") {
            Some(Key::Meta)
        } else if same_text(name, "Super_L") || same_text(name, "SuperL") || same_text(name, "Super") {
            Some(Key::SuperL)
        } else if same_text(name, "Super_R") || same_text(name, "SuperR") {
            Some(Key::SuperR)
        } else if same_text(name, "Hyper_L") || same_text(name, "HyperL") || same_text(name, "Hyper") {
            Some(Key::HyperL)
        } else if same_text(name, "Hyper_R") || same_text(name, "HyperR") {
            Some(Key::HyperR)
        } else if same_text(name, "Option") {
            Some(Key::Option)
        } else if same_text(name, "PageDown") {
            Some(Key::PageDown)
        } else if same_text(name, "PageUp") {
            Some(Key::PageUp)
        } else if same_text(name, "Return") {
            Some(Key::Return)
        } else if same_text(name, "RightArrow") {
            Some(Key::RightArrow)
        } else if same_text(name, "Shift") {
            Some(Key::Shift)
        } else if same_text(name, "Space") {
            Some(Key::Space)
        } else if same_text(name, "Tab") {
            Some(Key::Tab)
        } else if same_text(name, "UpArrow") {
            Some(Key::UpArrow)
        } else {
            None
        }
    }

    /// The name under which a configuration knows the key, if it has one.
    pub fn name(&self) -> (name: Option<&'static str>)
        ensures
            name is Some == name_of_key(*self) is Some,
            name matches Some(text) ==> name_of_key(*self) == Some(text@),
    {
        match self {
            Key::Alt => Some("Alt"),
            Key::Backspace => Some("Backspace"),
            Key::CapsLock => Some("CapsLock"),
            Key::Control => Some("Control"),
            Key::Delete => Some("Delete"),
            Key::DownArrow => Some("DownArrow"),
            Key::End => Some("End"),
            Key::Escape => Some("Escape"),
            Key::F1 => Some("F1"),
            Key::F10 => Some("F10"),
            Key::F11 => Some("F11"),
            Key::F12 => Some("F12"),
            Key::F13 => Some("F13"),
            Key::F14 => Some("F14"),
            Key::F15 => Some("F15"),
            Key::F16 => Some("F16"),
            Key::F17 => Some("F17"),
            Key::F18 => Some("F18"),
            Key::F19 => Some("F19"),
            Key::F20 => Some("F20"),
            Key::F21 => Some("F21"),
            Key::F22 => Some("F22"),
            Key::F23 => Some("F23"),
            Key::F24 => Some("F24"),
            Key::F2 => Some("F2"),
            Key::F3 => Some("F3"),
            Key::F4 => Some("F4"),
            Key::F5 => Some("F5"),
            Key::F6 => Some("F6"),
            Key::F7 => Some("F7"),
            Key::F8 => Some("F8"),
            Key::F9 => Some("F9"),
            Key::Home => Some("Home"),
            Key::LeftArrow => Some("LeftArrow"),
            Key::Meta => Some("Meta"),
            Key::SuperL => Some("Super_L"),
            Key::SuperR => Some("Super_R"),
            Key::HyperL => Some("Hyper_L"),
            Key::HyperR => Some("Hyper_R"),
            Key::Option => Some("Option"),
            Key::PageDown => Some("PageDown"),
            Key::PageUp => Some("PageUp"),
            Key::Return => Some("Return"),
            Key::RightArrow => Some("RightArrow"),
            Key::Shift => Some("Shift"),
            Key::Space => Some("Space"),
            Key::Tab => Some("Tab"),
            Key::UpArrow => Some("UpArrow"),
            Key::Layout(_) => None,
            Key::Raw(_) => None,
        }
    }
}

/// The name under which the automation library knows the key, if it has
/// one.
pub fn keysequence(key: Key) -> (keysym: Option<String>)
    ensures
        keysym is Some == keysym_of_key(key) is Some,
        keysym matches Some(text) ==> keysym_of_key(key) == Some(text@),
{
    let name: &'static str = match key {
        Key::Alt => "Alt",
        Key::Backspace => "BackSpace",
        Key::CapsLock => "CapsLock",
        Key::Control => "Control",
        Key::Delete => "Delete",
        Key::DownArrow => "Down",
        Key::End => "End",
        Key::Escape => "Escape",
        Key::F1 => "F1",
        Key::F10 => "F10",
        Key::F11 => "F11",
        Key::F12 => "F12",
        Key::F2 => "F2",
        Key::F3 => "F3",
        Key::F4 => "F4",
        Key::F5 => "F5",
        Key::F6 => "F6",
        Key::F7 => "F7",
        Key::F8 => "F8",
        Key::F9 => "F9",
        Key::Home => "Home",
        Key::LeftArrow => "Left",
        Key::Meta => "Meta",
        Key::Option => "Option",
        Key::PageDown => "PageDown",
        Key::PageUp => "PageUp",
        Key::Return => "Return",
        Key::RightArrow => "Right",
        Key::Shift => "Shift",
        Key::Space => "space",
        Key::Tab => "Tab",
        Key::UpArrow => "Up",
        Key::F13 => "F13",
        Key::F14 => "F14",
        Key::F15 => "F15",
        Key::F16 => "F16",
        Key::F17 => "F17",
        Key::F18 => "F18",
        Key::F19 => "F19",
        Key::F20 => "F20",
        Key::F21 => "F21",
        Key::F22 => "F22",
        Key::F23 => "F23",
        Key::F24 => "F24",
        Key::SuperL => "Super_L",
        Key::SuperR => "Super_R",
        Key::HyperL => "Hyper_L",
        Key::HyperR => "Hyper_R",
        Key::Layout(c) => {
            let mut text = String::from_str("U");
            push_hex_upper(&mut text, c as u32);
            return Some(text);
        },
        Key::Raw(_) => {
            return None;
        },
    };
    Some(String::from_str(name))
}

/// The length of a name and four of its characters, with a blank where
/// the name is too short.  No two names of keys agree in all five.
spec fn fingerprint(name: Seq<char>) -> (nat, char, char, char, char) {
    (
        name.len(),
        if name.len() > 1 {
            name[1]
        } else {
            ' '
        },
        if name.len() > 2 {
            name[2]
        } else {
            ' '
        },
        if name.len() > 5 {
            name[5]
        } else {
            ' '
        },
        if name.len() > 6 {
            name[6]
        } else {
            ' '
        },
    )
}

/// The name of a key leads back to the key: reading the name that a
/// configuration knows a key by gives that key.
pub proof fn lemma_name_leads_back(key: Key)
    ensures
        name_of_key(key) matches Some(name) ==> key_of_name(name) == Some(key),
{
    reveal_strlit("Alt");
    reveal_strlit("Backspace");
    reveal_strlit("CapsLock");
    reveal_strlit("Control");
    reveal_strlit("Delete");
    reveal_strlit("DownArrow");
    reveal_strlit("End");
    reveal_strlit("Escape");
    reveal_strlit("F1");
    reveal_strlit("F10");
    reveal_strlit("F11");
    reveal_strlit("F12");
    reveal_strlit("F13");
    reveal_strlit("F14");
    reveal_strlit("F15");
    reveal_strlit("F16");
    reveal_strlit("F17");
    reveal_strlit("F18");
    reveal_strlit("F19");
    reveal_strlit("F20");
    reveal_strlit("F21");
    reveal_strlit("F22");
    reveal_strlit("F23");
    reveal_strlit("F24");
    reveal_strlit("F2");
    reveal_strlit("F3");
    reveal_strlit("F4");
    reveal_strlit("F5");
    reveal_strlit("F6");
    reveal_strlit("F7");
    reveal_strlit("F8");
    reveal_strlit("F9");
    reveal_strlit("Home");
    reveal_strlit("LeftArrow");
    reveal_strlit("Meta");
    reveal_strlit("Super_L");
    reveal_strlit("SuperL");
    reveal_strlit("Super");
    reveal_strlit("Super_R");
    reveal_strlit("SuperR");
    reveal_strlit("Hyper_L");
    reveal_strlit("HyperL");
    reveal_strlit("Hyper");
    reveal_strlit("Hyper_R");
    reveal_strlit("HyperR");
    reveal_strlit("Option");
    reveal_strlit("PageDown");
    reveal_strlit("PageUp");
    reveal_strlit("Return");
    reveal_strlit("RightArrow");
    reveal_strlit("Shift");
    reveal_strlit("Space");
    reveal_strlit("Tab");
    reveal_strlit("UpArrow");
    assert(fingerprint("Alt"@) == (3nat, 'l', 't', ' ', ' '));
    assert(fingerprint("Backspace"@) == (9nat, 'a', 'c', 'p', 'a'));
    assert(fingerprint("CapsLock"@) == (8nat, 'a', 'p', 'o', 'c'));
    assert(fingerprint("Control"@) == (7nat, 'o', 'n', 'o', 'l'));
    assert(fingerprint("Delete"@) == (6nat, 'e', 'l', 'e', ' '));
    assert(fingerprint("DownArrow"@) == (9nat, 'o', 'w', 'r', 'r'));
    assert(fingerprint("End"@) == (3nat, 'n', 'd', ' ', ' '));
    assert(fingerprint("Escape"@) == (6nat, 's', 'c', 'e', ' '));
    assert(fingerprint("F1"@) == (2nat, '1', ' ', ' ', ' '));
    assert(fingerprint("F10"@) == (3nat, '1', '0', ' ', ' '));
    assert(fingerprint("F11"@) == (3nat, '1', '1', ' ', ' '));
    assert(fingerprint("F12"@) == (3nat, '1', '2', ' ', ' '));
    assert(fingerprint("F13"@) == (3nat, '1', '3', ' ', ' '));
    assert(fingerprint("F14"@) == (3nat, '1', '4', ' ', ' '));
    assert(fingerprint("F15"@) == (3nat, '1', '5', ' ', ' '));
    assert(fingerprint("F16"@) == (3nat, '1', '6', ' ', ' '));
    assert(fingerprint("F17"@) == (3nat, '1', '7', ' ', ' '));
    assert(fingerprint("F18"@) == (3nat, '1', '8', ' ', ' '));
    assert(fingerprint("F19"@) == (3nat, '1', '9', ' ', ' '));
    assert(fingerprint("F20"@) == (3nat, '2', '0', ' ', ' '));
    assert(fingerprint("F21"@) == (3nat, '2', '1', ' ', ' '));
    assert(fingerprint("F22"@) == (3nat, '2', '2', ' ', ' '));
    assert(fingerprint("F23"@) == (3nat, '2', '3', ' ', ' '));
    assert(fingerprint("F24"@) == (3nat, '2', '4', ' ', ' '));
    assert(fingerprint("F2"@) == (2nat, '2', ' ', ' ', ' '));
    assert(fingerprint("F3"@) == (2nat, '3', ' ', ' ', ' '));
    assert(fingerprint("F4"@) == (2nat, '4', ' ', ' ', ' '));
    assert(fingerprint("F5"@) == (2nat, '5', ' ', ' ', ' '));
    assert(fingerprint("F6"@) == (2nat, '6', ' ', ' ', ' '));
    assert(fingerprint("F7"@) == (2nat, '7', ' ', ' ', ' '));
    assert(fingerprint("F8"@) == (2nat, '8', ' ', ' ', ' '));
    assert(fingerprint("F9"@) == (2nat, '9', ' ', ' ', ' '));
    assert(fingerprint("Home"@) == (4nat, 'o', 'm', ' ', ' '));
    assert(fingerprint("LeftArrow"@) == (9nat, 'e', 'f', 'r', 'r'));
    assert(fingerprint("Meta"@) == (4nat, 'e', 't', ' ', ' '));
    assert(fingerprint("Super_L"@) == (7nat, 'u', 'p', '_', 'L'));
    assert(fingerprint("SuperL"@) == (6nat, 'u', 'p', 'L', ' '));
    assert(fingerprint("Super"@) == (5nat, 'u', 'p', ' ', ' '));
    assert(fingerprint("Super_R"@) == (7nat, 'u', 'p', '_', 'R'));
    assert(fingerprint("SuperR"@) == (6nat, 'u', 'p', 'R', ' '));
    assert(fingerprint("Hyper_L"@) == (7nat, 'y', 'p', '_', 'L'));
    assert(fingerprint("HyperL"@) == (6nat, 'y', 'p', 'L', ' '));
    assert(fingerprint("Hyper"@) == (5nat, 'y', 'p', ' ', ' '));
    assert(fingerprint("Hyper_R"@) == (7nat, 'y', 'p', '_', 'R'));
    assert(fingerprint("HyperR"@) == (6nat, 'y', 'p', 'R', ' '));
    assert(fingerprint("Option"@) == (6nat, 'p', 't', 'n', ' '));
    assert(fingerprint("PageDown"@) == (8nat, 'a', 'g', 'o', 'w'));
    assert(fingerprint("PageUp"@) == (6nat, 'a', 'g', 'p', ' '));
    assert(fingerprint("Return"@) == (6nat, 'e', 't', 'n', ' '));
    assert(fingerprint("RightArrow"@) == (10nat, 'i', 'g', 'A', 'r'));
    assert(fingerprint("Shift"@) == (5nat, 'h', 'i', ' ', ' '));
    assert(fingerprint("Space"@) == (5nat, 'p', 'a', ' ', ' '));
    assert(fingerprint("Tab"@) == (3nat, 'a', 'b', ' ', ' '));
    assert(fingerprint("UpArrow"@) == (7nat, 'p', 'A', 'o', 'w'));
}

} // verus!
