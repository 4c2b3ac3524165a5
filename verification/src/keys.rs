//! Keystrokes as the screens see them, and the one decision they share: whether a
//! keystroke submits the single-line field it lands in.

use vstd::prelude::*;
use crate::text::str_eq;

verus! {

/// Which modifier keys are held.
#[derive(Clone, Copy, Debug, PartialEq, Eq, Structural)]
pub struct Modifiers {
    pub control: bool,
    pub alt: bool,
    pub shift: bool,
    /// The platform key (Command, Super).
    pub platform: bool,
    pub function: bool,
}

impl Modifiers {
    /// No modifier held.
    pub fn none() -> (m: Modifiers)
        ensures
            !m.control && !m.alt && !m.shift && !m.platform && !m.function,
    {
        Modifiers { control: false, alt: false, shift: false, platform: false, function: false }
    }

    /// Only Control held.
    pub fn control() -> (m: Modifiers)
        ensures
            m.control && !m.alt && !m.shift && !m.platform && !m.function,
    {
        Modifiers { control: true, ..Modifiers::none() }
    }

    /// Only Alt held.
    pub fn alt() -> (m: Modifiers)
        ensures
            !m.control && m.alt && !m.shift && !m.platform && !m.function,
    {
        Modifiers { alt: true, ..Modifiers::none() }
    }

    /// Only Shift held.
    pub fn shift() -> (m: Modifiers)
        ensures
            !m.control && !m.alt && m.shift && !m.platform && !m.function,
    {
        Modifiers { shift: true, ..Modifiers::none() }
    }

    /// Only the platform (Command) key held.
    pub fn command() -> (m: Modifiers)
        ensures
            !m.control && !m.alt && !m.shift && m.platform && !m.function,
    {
        Modifiers { platform: true, ..Modifiers::none() }
    }
}

/// A key press: the key's name and the modifiers held with it.
#[derive(Clone, Debug, PartialEq, Eq)]
pub struct Keystroke {
    pub modifiers: Modifiers,
    pub key: String,
    /// The character the press types, if any.
    pub key_char: Option<String>,
}

/// Whether a keystroke submits the single-line field it lands in: a plain Enter, with
/// no modifier at all — a modified Enter belongs to whatever else listens for it.
pub fn is_field_submit(keystroke: &Keystroke) -> (b: bool)
    ensures
        b == (keystroke.key@ == "enter"@ && !keystroke.modifiers.control
            && !keystroke.modifiers.alt && !keystroke.modifiers.shift
            && !keystroke.modifiers.platform && !keystroke.modifiers.function),
{
    let m = &keystroke.modifiers;
    str_eq(keystroke.key.as_str(), "enter") && !m.control && !m.alt && !m.shift && !m.platform
        && !m.function
}

} // verus!
