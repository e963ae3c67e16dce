//! Keys, modifiers and hotkeys as plain values.
//!
//! What a key code means is a property of the keyboard layout, so a key carries
//! its classification with it, and whoever reads the hardware fills it in.

use vstd::prelude::*;

use crate::collections::Key;

verus! {

/// The modifier bits of an input event.
#[derive(Debug, Clone, Copy, PartialEq, Eq, Hash, Structural)]
pub struct CGEventFlags {
    pub bits: u64,
}

impl CGEventFlags {
    /// Every bit of `flag` is set.
    pub open spec fn has(self, flag: CGEventFlags) -> bool {
        self.bits & flag.bits == flag.bits
    }

    pub fn empty() -> (f: CGEventFlags)
        ensures
            f.bits == 0,
    {
        CGEventFlags { bits: 0 }
    }

    pub fn contains(self, flag: CGEventFlags) -> (b: bool)
        ensures
            b == self.has(flag),
    {
        self.bits & flag.bits == flag.bits
    }
}

/// Key code of F3, which opens the system's window overview.
pub const KEY_F3: u16 = 99;

/// Key code of the up arrow.
pub const KEY_ARROW_UP: u16 = 126;

/// A physical key.
#[derive(Debug, Clone, Copy, PartialEq, Eq, Hash, Structural)]
pub struct KeyCode {
    pub code: u16,
    /// The key is a modifier key.
    pub modifier: bool,
    /// The event flag that reports the key, if one does.
    pub flag: Option<CGEventFlags>,
}

impl View for KeyCode {
    type V = KeyCode;

    open spec fn view(&self) -> KeyCode {
        *self
    }
}

impl Key for KeyCode {
    fn same(&self, other: &Self) -> (b: bool) {
        *self == *other
    }
}

pub fn is_modifier_key(key_code: KeyCode) -> (b: bool)
    ensures
        b == key_code.modifier,
{
    key_code.modifier
}

pub fn modifier_flag_for_key(key_code: KeyCode) -> (flag: Option<CGEventFlags>)
    ensures
        flag == key_code.flag,
{
    key_code.flag
}

/// A set of modifiers, sides told apart. A binding that accepts either side has
/// both.
#[derive(Debug, Clone, Copy, PartialEq, Eq, Hash, Structural)]
pub struct Modifiers {
    pub shift_left: bool,
    pub shift_right: bool,
    pub control_left: bool,
    pub control_right: bool,
    pub alt_left: bool,
    pub alt_right: bool,
    pub meta_left: bool,
    pub meta_right: bool,
}

impl Modifiers {
    pub open spec fn none() -> Modifiers {
        Modifiers {
            shift_left: false,
            shift_right: false,
            control_left: false,
            control_right: false,
            alt_left: false,
            alt_right: false,
            meta_left: false,
            meta_right: false,
        }
    }

    pub fn empty() -> (m: Modifiers)
        ensures
            m == Self::none(),
    {
        Modifiers {
            shift_left: false,
            shift_right: false,
            control_left: false,
            control_right: false,
            alt_left: false,
            alt_right: false,
            meta_left: false,
            meta_right: false,
        }
    }
}

/// A key together with the modifiers held down with it.
#[derive(Debug, Clone, Copy, PartialEq, Eq, Hash, Structural)]
pub struct Hotkey {
    pub modifiers: Modifiers,
    pub key_code: KeyCode,
}

impl Hotkey {
    pub fn new(modifiers: Modifiers, key_code: KeyCode) -> (h: Hotkey)
        ensures
            h == (Hotkey { modifiers, key_code }),
    {
        Hotkey { modifiers, key_code }
    }
}

} // verus!
