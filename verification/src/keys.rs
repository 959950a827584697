//! The terminal-neutral key model that every input router of the library
//! reads: a key code plus the modifier keys held with it.
use vstd::prelude::*;

verus! {

/// A key code, independent of the terminal backend that produced it.
#[derive(Clone, Copy, Debug, PartialEq, Eq, Structural)]
pub enum KeyCode {
    Backspace,
    Enter,
    Esc,
    Left,
    Right,
    Up,
    Down,
    Tab,
    Char(char),
}

/// The modifier keys held while a key was pressed.
#[derive(Clone, Copy, Debug, PartialEq, Eq, Structural)]
pub struct KeyModifiers {
    pub shift: bool,
    pub control: bool,
    pub alt: bool,
}

impl KeyModifiers {
    /// No modifier held.
    pub fn none() -> (m: KeyModifiers)
        ensures
            !m.shift && !m.control && !m.alt,
    {
        KeyModifiers { shift: false, control: false, alt: false }
    }

    /// Only Control held.
    pub fn control() -> (m: KeyModifiers)
        ensures
            !m.shift && m.control && !m.alt,
    {
        KeyModifiers { shift: false, control: true, alt: false }
    }

    /// Only Shift held.
    pub fn shift() -> (m: KeyModifiers)
        ensures
            m.shift && !m.control && !m.alt,
    {
        KeyModifiers { shift: true, control: false, alt: false }
    }

    /// Only Alt held.
    pub fn alt() -> (m: KeyModifiers)
        ensures
            !m.shift && !m.control && m.alt,
    {
        KeyModifiers { shift: false, control: false, alt: true }
    }

    /// The modifiers held in either set.
    pub fn union(self, other: KeyModifiers) -> (m: KeyModifiers)
        ensures
            m.shift == (self.shift || other.shift),
            m.control == (self.control || other.control),
            m.alt == (self.alt || other.alt),
    {
        KeyModifiers {
            shift: self.shift || other.shift,
            control: self.control || other.control,
            alt: self.alt || other.alt,
        }
    }

    /// Whether every modifier of `other` is held in `self`.
    pub fn contains(self, other: KeyModifiers) -> (b: bool)
        ensures
            b == ((other.shift ==> self.shift) && (other.control ==> self.control) && (other.alt
                ==> self.alt)),
    {
        (!other.shift || self.shift) && (!other.control || self.control) && (!other.alt
            || self.alt)
    }
}

/// The modifier set with nothing held.
pub open spec fn no_modifiers() -> KeyModifiers {
    KeyModifiers { shift: false, control: false, alt: false }
}

/// A pressed key.
#[derive(Clone, Copy, Debug, PartialEq, Eq, Structural)]
pub struct Key {
    pub code: KeyCode,
    pub modifiers: KeyModifiers,
}

impl Key {
    /// A key pressed without modifiers.
    pub fn k(code: KeyCode) -> (key: Key)
        ensures
            key == (Key { code, modifiers: no_modifiers() }),
    {
        Key { code, modifiers: KeyModifiers::none() }
    }

    /// A character pressed without modifiers.
    pub fn c(character: char) -> (key: Key)
        ensures
            key == (Key { code: KeyCode::Char(character), modifiers: no_modifiers() }),
    {
        Key { code: KeyCode::Char(character), modifiers: KeyModifiers::none() }
    }

    /// A character pressed with Control.
    pub fn ctrl(character: char) -> (key: Key)
        ensures
            key.code == KeyCode::Char(character),
            key.modifiers == (KeyModifiers { shift: false, control: true, alt: false }),
    {
        Key { code: KeyCode::Char(character), modifiers: KeyModifiers::control() }
    }

    /// A key with the given code and modifiers.
    pub fn new(code: KeyCode, modifiers: KeyModifiers) -> (key: Key)
        ensures
            key.code == code,
            key.modifiers == modifiers,
    {
        Key { code, modifiers }
    }
}

/// `key` is the plain (unmodified) key `code`.
pub open spec fn is_plain(key: Key, code: KeyCode) -> bool {
    key == (Key { code, modifiers: no_modifiers() })
}

/// Tests whether `key` is `code` pressed with no modifier.
pub fn key_is(key: &Key, code: KeyCode) -> (b: bool)
    ensures
        b == is_plain(*key, code),
{
    *key == Key::k(code)
}

} // verus!
