//! Key decoding for the interactive front-ends: the escape sequences a
//! terminal sends, mapped to named keys.

use crate::strutil::str_eq;
use vstd::prelude::*;
use vstd::string::StrSliceExecFns;

verus! {

#[derive(Debug, Clone, PartialEq)]
pub enum Key {
    Enter,
    Tab,
    BackTab,
    Delete,
    Up,
    Left,
    Right,
    Down,
    SelectUp,
    SelectLeft,
    SelectDown,
    SelectRight,
    TotalLeft,
    TotalRight,
    NextUp,
    NextLeft,
    NextRight,
    NextDown,
    Interrupt,
    Eof,
    Char(char),
    MultiChar(String),
}

/// The model of a decoded key: a character run by its characters.
pub enum SpecKey {
    Enter,
    Tab,
    BackTab,
    Delete,
    Up,
    Left,
    Right,
    Down,
    SelectUp,
    SelectLeft,
    SelectDown,
    SelectRight,
    TotalLeft,
    TotalRight,
    NextUp,
    NextLeft,
    NextRight,
    NextDown,
    Interrupt,
    Eof,
    Char(char),
    MultiChar(Seq<char>),
}

impl View for Key {
    type V = SpecKey;

    open spec fn view(&self) -> SpecKey {
        match self {
            Key::Enter => SpecKey::Enter,
            Key::Tab => SpecKey::Tab,
            Key::BackTab => SpecKey::BackTab,
            Key::Delete => SpecKey::Delete,
            Key::Up => SpecKey::Up,
            Key::Left => SpecKey::Left,
            Key::Right => SpecKey::Right,
            Key::Down => SpecKey::Down,
            Key::SelectUp => SpecKey::SelectUp,
            Key::SelectLeft => SpecKey::SelectLeft,
            Key::SelectDown => SpecKey::SelectDown,
            Key::SelectRight => SpecKey::SelectRight,
            Key::TotalLeft => SpecKey::TotalLeft,
            Key::TotalRight => SpecKey::TotalRight,
            Key::NextUp => SpecKey::NextUp,
            Key::NextLeft => SpecKey::NextLeft,
            Key::NextRight => SpecKey::NextRight,
            Key::NextDown => SpecKey::NextDown,
            Key::Interrupt => SpecKey::Interrupt,
            Key::Eof => SpecKey::Eof,
            Key::Char(c) => SpecKey::Char(*c),
            Key::MultiChar(s) => SpecKey::MultiChar(s@),
        }
    }
}

/// The key a terminal input sequence denotes; anything unrecognised is
/// a plain character or a character run.
pub open spec fn spec_key_of(s: Seq<char>) -> SpecKey {
    if s == "\r"@ {
        SpecKey::Enter
    } else if s == "\t"@ {
        SpecKey::Tab
    } else if s == "\u{1b}[Z"@ {
        SpecKey::BackTab
    } else if s == "\u{7f}"@ {
        SpecKey::Delete
    } else if s == "\u{1b}[A"@ {
        SpecKey::Up
    } else if s == "\u{1b}[B"@ {
        SpecKey::Left
    } else if s == "\u{1b}[C"@ {
        SpecKey::Right
    } else if s == "\u{1b}[D"@ {
        SpecKey::Down
    } else if s == "\u{1b}[1;2A"@ {
        SpecKey::SelectUp
    } else if s == "\u{1b}[1;2B"@ {
        SpecKey::SelectLeft
    } else if s == "\u{1b}[1;2C"@ {
        SpecKey::SelectRight
    } else if s == "\u{1b}[1;2D"@ {
        SpecKey::SelectDown
    } else if s == "\u{1}"@ {
        SpecKey::TotalLeft
    } else if s == "\u{5}"@ {
        SpecKey::TotalRight
    } else if s == "\u{1b}[1;3A"@ {
        SpecKey::NextUp
    } else if s == "\u{1b}[1;3B"@ {
        SpecKey::NextDown
    } else if s == "\u{1b}b"@ {
        SpecKey::NextLeft
    } else if s == "\u{1b}f"@ {
        SpecKey::NextRight
    } else if s == "\u{3}"@ {
        SpecKey::Interrupt
    } else if s == "\u{4}"@ {
        SpecKey::Eof
    } else if s.len() == 1 {
        SpecKey::Char(s[0])
    } else {
        SpecKey::MultiChar(s)
    }
}

impl Key {
    /// Decodes one terminal input sequence.
    pub fn decode(key: &str) -> (r: Key)
        ensures
            r@ == spec_key_of(key@),
    {
        if str_eq(key, "\r") {
            Key::Enter
        } else if str_eq(key, "\t") {
            Key::Tab
        } else if str_eq(key, "\u{1b}[Z") {
            Key::BackTab
        } else if str_eq(key, "\u{7f}") {
            Key::Delete
        } else if str_eq(key, "\u{1b}[A") {
            Key::Up
        } else if str_eq(key, "\u{1b}[B") {
            Key::Left
        } else if str_eq(key, "\u{1b}[C") {
            Key::Right
        } else if str_eq(key, "\u{1b}[D") {
            Key::Down
        } else if str_eq(key, "\u{1b}[1;2A") {
            Key::SelectUp
        } else if str_eq(key, "\u{1b}[1;2B") {
            Key::SelectLeft
        } else if str_eq(key, "\u{1b}[1;2C") {
            Key::SelectRight
        } else if str_eq(key, "\u{1b}[1;2D") {
            Key::SelectDown
        } else if str_eq(key, "\u{1}") {
            Key::TotalLeft
        } else if str_eq(key, "\u{5}") {
            Key::TotalRight
        } else if str_eq(key, "\u{1b}[1;3A") {
            Key::NextUp
        } else if str_eq(key, "\u{1b}[1;3B") {
            Key::NextDown
        } else if str_eq(key, "\u{1b}b") {
            Key::NextLeft
        } else if str_eq(key, "\u{1b}f") {
            Key::NextRight
        } else if str_eq(key, "\u{3}") {
            Key::Interrupt
        } else if str_eq(key, "\u{4}") {
            Key::Eof
        } else if key.unicode_len() == 1 {
            Key::Char(key.get_char(0))
        } else {
            Key::MultiChar(key.to_owned())
        }
    }
}

impl<'a> From<&'a str> for Key {
    fn from(key: &str) -> (r: Self) {
        Key::decode(key)
    }
}

// `From` defers to `decode`, whose contract is exact over the model; a
// `Key` value itself cannot be assembled in spec code (its character-run
// variant holds a `String`), so the conversion trait claims nothing.
impl<'a> vstd::std_specs::convert::FromSpecImpl<&'a str> for Key {
    open spec fn obeys_from_spec() -> bool {
        false
    }

    open spec fn from_spec(key: &'a str) -> Key {
        vstd::pervasive::arbitrary()
    }
}

} // verus!
