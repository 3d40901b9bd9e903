//! Key events as the input framework delivers them: an X11 keysym, the
//! modifier state, and whether it is a press or a release.

use vstd::prelude::*;

verus! {

/// An X11 keysym value.
#[derive(Debug, Clone, Copy, PartialEq, Eq, Structural)]
pub struct Keysym(pub u32);

/// Keysym codes of the keys the engine acts on.
pub const BACKSPACE: u32 = 0xff08;
pub const TAB: u32 = 0xff09;
pub const RETURN: u32 = 0xff0d;
pub const ESCAPE: u32 = 0xff1b;
pub const HENKAN: u32 = 0xff23;
pub const HOME: u32 = 0xff50;
pub const LEFT: u32 = 0xff51;
pub const UP: u32 = 0xff52;
pub const RIGHT: u32 = 0xff53;
pub const DOWN: u32 = 0xff54;
pub const END: u32 = 0xff57;
pub const DELETE: u32 = 0xffff;
pub const SPACE: u32 = 0x0020;
pub const KEY_K: u32 = 0x006b;
pub const KEY_K_UPPER: u32 = 0x004b;
pub const KEY_L: u32 = 0x006c;
pub const KEY_L_UPPER: u32 = 0x004c;
pub const KEY_I: u32 = 0x0069;
pub const KEY_I_UPPER: u32 = 0x0049;
pub const KEY_J: u32 = 0x006a;
pub const KEY_J_UPPER: u32 = 0x004a;
pub const KEY_R: u32 = 0x0072;
pub const KEY_R_UPPER: u32 = 0x0052;
pub const KEY_T: u32 = 0x0074;
pub const KEY_T_UPPER: u32 = 0x0054;
pub const KEY_V: u32 = 0x0076;
pub const KEY_V_UPPER: u32 = 0x0056;

/// Modifier-only keys: Shift, Control, Caps/Shift Lock, Meta, Alt, Super
/// and Hyper, left and right.
pub open spec fn is_modifier_code(code: u32) -> bool {
    0xffe1 <= code <= 0xffee
}

/// The keys that switch back to Hiragana: right Alt, Meta, Super and Hyper,
/// and the JIS 変換 key.
pub open spec fn is_mode_toggle_code(code: u32) -> bool {
    code == 0xffea || code == 0xffe8 || code == 0xffec || code == 0xffee || code == 0xff23
}

/// The keysyms of printable ASCII, space included, which equal their code
/// points.
pub open spec fn is_printable_code(code: u32) -> bool {
    0x20 <= code <= 0x7e
}

impl Keysym {
    /// Whether this is a modifier-only key.
    pub fn is_modifier(&self) -> (r: bool)
        ensures
            r == is_modifier_code(self.0),
    {
        0xffe1 <= self.0 && self.0 <= 0xffee
    }

    /// Whether this is a key that switches back to Hiragana.
    pub fn is_mode_toggle_key(&self) -> (r: bool)
        ensures
            r == is_mode_toggle_code(self.0),
    {
        self.0 == 0xffea || self.0 == 0xffe8 || self.0 == 0xffec || self.0 == 0xffee || self.0
            == 0xff23
    }
}

/// Modifier state carried by a key event.
#[derive(Debug, Clone, Copy, PartialEq, Eq, Structural)]
pub struct KeyModifiers {
    pub shift_key: bool,
    pub control_key: bool,
    pub alt_key: bool,
    pub super_key: bool,
}

impl KeyModifiers {
    /// No modifier held.
    pub fn new() -> (m: Self)
        ensures
            !m.shift_key && !m.control_key && !m.alt_key && !m.super_key,
    {
        KeyModifiers { shift_key: false, control_key: false, alt_key: false, super_key: false }
    }

    /// The same modifiers with Shift set to `on`.
    pub fn with_shift(self, on: bool) -> (m: Self)
        ensures
            m == (KeyModifiers { shift_key: on, ..self }),
    {
        KeyModifiers { shift_key: on, ..self }
    }

    /// The same modifiers with Control set to `on`.
    pub fn with_control(self, on: bool) -> (m: Self)
        ensures
            m == (KeyModifiers { control_key: on, ..self }),
    {
        KeyModifiers { control_key: on, ..self }
    }

    /// Whether any modifier is held.
    pub fn any(&self) -> (r: bool)
        ensures
            r == (self.shift_key || self.control_key || self.alt_key || self.super_key),
    {
        self.shift_key || self.control_key || self.alt_key || self.super_key
    }
}

impl Default for KeyModifiers {
    fn default() -> (m: Self)
        ensures
            !m.shift_key && !m.control_key && !m.alt_key && !m.super_key,
    {
        KeyModifiers::new()
    }
}

/// A key press or release.
#[derive(Debug, Clone, Copy)]
pub struct KeyEvent {
    pub keysym: Keysym,
    pub modifiers: KeyModifiers,
    pub is_press: bool,
}

/// The character a key types, if it is printable ASCII.
pub open spec fn char_of_code(code: u32) -> Option<char> {
    if is_printable_code(code) {
        Some(code as char)
    } else {
        None
    }
}

impl KeyEvent {
    /// An event.
    pub fn new(keysym: Keysym, modifiers: KeyModifiers, is_press: bool) -> (e: Self)
        ensures
            e.keysym == keysym,
            e.modifiers == modifiers,
            e.is_press == is_press,
    {
        KeyEvent { keysym, modifiers, is_press }
    }

    /// A press of `keysym` with no modifier held.
    pub fn press(keysym: Keysym) -> (e: Self)
        ensures
            e.keysym == keysym,
            !e.modifiers.shift_key && !e.modifiers.control_key && !e.modifiers.alt_key
                && !e.modifiers.super_key,
            e.is_press,
    {
        KeyEvent { keysym, modifiers: KeyModifiers::new(), is_press: true }
    }

    /// The character the key types: printable ASCII (space included), as
    /// its keysym is its code point.
    pub fn to_char(&self) -> (r: Option<char>)
        ensures
            r == char_of_code(self.keysym.0),
    {
        if 0x20 <= self.keysym.0 && self.keysym.0 <= 0x7e {
            let b: u8 = self.keysym.0 as u8;
            Some(b as char)
        } else {
            None
        }
    }
}

} // verus!
