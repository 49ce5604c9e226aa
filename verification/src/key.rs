//! The logical keys that the engine reports, whatever device they come from.

use vstd::prelude::*;

verus! {

/// A logical key. Devices map their own codes to these; a code that has no
/// counterpart becomes `Unknown`, which no query ever finds pressed.
#[derive(Debug, Clone, Copy, PartialEq, Eq, Hash, Structural)]
pub enum Key {
    // Letters
    A,
    B,
    C,
    D,
    E,
    F,
    G,
    H,
    I,
    J,
    K,
    L,
    M,
    N,
    O,
    P,
    Q,
    R,
    S,
    T,
    U,
    V,
    W,
    X,
    Y,
    Z,
    // Digits of the top row
    Key0,
    Key1,
    Key2,
    Key3,
    Key4,
    Key5,
    Key6,
    Key7,
    Key8,
    Key9,
    // Function keys
    F1,
    F2,
    F3,
    F4,
    F5,
    F6,
    F7,
    F8,
    F9,
    F10,
    F11,
    F12,
    // Control keys
    Escape,
    Enter,
    Tab,
    Backspace,
    Space,
    // Modifiers
    Shift,
    Ctrl,
    Alt,
    CapsLock,
    // Arrows
    Up,
    Down,
    Left,
    Right,
    // Punctuation
    Minus,
    Equals,
    LeftBracket,
    RightBracket,
    Backslash,
    Semicolon,
    Apostrophe,
    Grave,
    Comma,
    Period,
    Slash,
    // Any code that is not mapped
    Unknown,
}

/// The number of keys other than `Unknown`.
pub const KEY_COUNT: usize = 72;

impl Key {
    /// The position of the key in the order of declaration. Distinct keys have
    /// distinct positions, and only `Unknown` has position `KEY_COUNT`.
    pub open spec fn ordinal(self) -> nat {
        match self {
            Key::A => 0,
            Key::B => 1,
            Key::C => 2,
            Key::D => 3,
            Key::E => 4,
            Key::F => 5,
            Key::G => 6,
            Key::H => 7,
            Key::I => 8,
            Key::J => 9,
            Key::K => 10,
            Key::L => 11,
            Key::M => 12,
            Key::N => 13,
            Key::O => 14,
            Key::P => 15,
            Key::Q => 16,
            Key::R => 17,
            Key::S => 18,
            Key::T => 19,
            Key::U => 20,
            Key::V => 21,
            Key::W => 22,
            Key::X => 23,
            Key::Y => 24,
            Key::Z => 25,
            Key::Key0 => 26,
            Key::Key1 => 27,
            Key::Key2 => 28,
            Key::Key3 => 29,
            Key::Key4 => 30,
            Key::Key5 => 31,
            Key::Key6 => 32,
            Key::Key7 => 33,
            Key::Key8 => 34,
            Key::Key9 => 35,
            Key::F1 => 36,
            Key::F2 => 37,
            Key::F3 => 38,
            Key::F4 => 39,
            Key::F5 => 40,
            Key::F6 => 41,
            Key::F7 => 42,
            Key::F8 => 43,
            Key::F9 => 44,
            Key::F10 => 45,
            Key::F11 => 46,
            Key::F12 => 47,
            Key::Escape => 48,
            Key::Enter => 49,
            Key::Tab => 50,
            Key::Backspace => 51,
            Key::Space => 52,
            Key::Shift => 53,
            Key::Ctrl => 54,
            Key::Alt => 55,
            Key::CapsLock => 56,
            Key::Up => 57,
            Key::Down => 58,
            Key::Left => 59,
            Key::Right => 60,
            Key::Minus => 61,
            Key::Equals => 62,
            Key::LeftBracket => 63,
            Key::RightBracket => 64,
            Key::Backslash => 65,
            Key::Semicolon => 66,
            Key::Apostrophe => 67,
            Key::Grave => 68,
            Key::Comma => 69,
            Key::Period => 70,
            Key::Slash => 71,
            Key::Unknown => 72,
        }
    }

    /// The key's position in the order of declaration.
    pub fn index(self) -> (i: usize)
        ensures
            i == self.ordinal(),
            i <= KEY_COUNT,
            i == KEY_COUNT <==> self == Key::Unknown,
    {
        match self {
            Key::A => 0,
            Key::B => 1,
            Key::C => 2,
            Key::D => 3,
            Key::E => 4,
            Key::F => 5,
            Key::G => 6,
            Key::H => 7,
            Key::I => 8,
            Key::J => 9,
            Key::K => 10,
            Key::L => 11,
            Key::M => 12,
            Key::N => 13,
            Key::O => 14,
            Key::P => 15,
            Key::Q => 16,
            Key::R => 17,
            Key::S => 18,
            Key::T => 19,
            Key::U => 20,
            Key::V => 21,
            Key::W => 22,
            Key::X => 23,
            Key::Y => 24,
            Key::Z => 25,
            Key::Key0 => 26,
            Key::Key1 => 27,
            Key::Key2 => 28,
            Key::Key3 => 29,
            Key::Key4 => 30,
            Key::Key5 => 31,
            Key::Key6 => 32,
            Key::Key7 => 33,
            Key::Key8 => 34,
            Key::Key9 => 35,
            Key::F1 => 36,
            Key::F2 => 37,
            Key::F3 => 38,
            Key::F4 => 39,
            Key::F5 => 40,
            Key::F6 => 41,
            Key::F7 => 42,
            Key::F8 => 43,
            Key::F9 => 44,
            Key::F10 => 45,
            Key::F11 => 46,
            Key::F12 => 47,
            Key::Escape => 48,
            Key::Enter => 49,
            Key::Tab => 50,
            Key::Backspace => 51,
            Key::Space => 52,
            Key::Shift => 53,
            Key::Ctrl => 54,
            Key::Alt => 55,
            Key::CapsLock => 56,
            Key::Up => 57,
            Key::Down => 58,
            Key::Left => 59,
            Key::Right => 60,
            Key::Minus => 61,
            Key::Equals => 62,
            Key::LeftBracket => 63,
            Key::RightBracket => 64,
            Key::Backslash => 65,
            Key::Semicolon => 66,
            Key::Apostrophe => 67,
            Key::Grave => 68,
            Key::Comma => 69,
            Key::Period => 70,
            Key::Slash => 71,
            Key::Unknown => 72,
        }
    }

    /// Whether a character stands for one of the punctuation keys or the
    /// space bar.
    pub open spec fn is_symbol(c: char) -> bool {
        c == ' '
            || c == '-'
            || c == '='
            || c == '['
            || c == ']'
            || c == '\\'
            || c == ';'
            || c == '\''
            || c == '`'
            || c == ','
            || c == '.'
            || c == '/'
    }

    /// The key that types the character `c`: lower-case letters, digits, the
    /// space and the punctuation of the keys above. Any other character gives
    /// `Unknown`.
    pub fn from_char(c: char) -> (k: Key)
        ensures
            'a' <= c <= 'z' ==> k.ordinal() == (c as u32) - ('a' as u32),
            '0' <= c <= '9' ==> k.ordinal() == 26 + ((c as u32) - ('0' as u32)),
            c == ' ' ==> k == Key::Space,
            c == '-' ==> k == Key::Minus,
            c == '=' ==> k == Key::Equals,
            c == '[' ==> k == Key::LeftBracket,
            c == ']' ==> k == Key::RightBracket,
            c == '\\' ==> k == Key::Backslash,
            c == ';' ==> k == Key::Semicolon,
            c == '\'' ==> k == Key::Apostrophe,
            c == '`' ==> k == Key::Grave,
            c == ',' ==> k == Key::Comma,
            c == '.' ==> k == Key::Period,
            c == '/' ==> k == Key::Slash,
            !('a' <= c <= 'z') && !('0' <= c <= '9') && !Self::is_symbol(c) ==> k == Key::Unknown,
    {
        match c {
            'a' => Key::A,
            'b' => Key::B,
            'c' => Key::C,
            'd' => Key::D,
            'e' => Key::E,
            'f' => Key::F,
            'g' => Key::G,
            'h' => Key::H,
            'i' => Key::I,
            'j' => Key::J,
            'k' => Key::K,
            'l' => Key::L,
            'm' => Key::M,
            'n' => Key::N,
            'o' => Key::O,
            'p' => Key::P,
            'q' => Key::Q,
            'r' => Key::R,
            's' => Key::S,
            't' => Key::T,
            'u' => Key::U,
            'v' => Key::V,
            'w' => Key::W,
            'x' => Key::X,
            'y' => Key::Y,
            'z' => Key::Z,
            '0' => Key::Key0,
            '1' => Key::Key1,
            '2' => Key::Key2,
            '3' => Key::Key3,
            '4' => Key::Key4,
            '5' => Key::Key5,
            '6' => Key::Key6,
            '7' => Key::Key7,
            '8' => Key::Key8,
            '9' => Key::Key9,
            ' ' => Key::Space,
            '-' => Key::Minus,
            '=' => Key::Equals,
            '[' => Key::LeftBracket,
            ']' => Key::RightBracket,
            '\\' => Key::Backslash,
            ';' => Key::Semicolon,
            '\'' => Key::Apostrophe,
            '`' => Key::Grave,
            ',' => Key::Comma,
            '.' => Key::Period,
            '/' => Key::Slash,
            _ => Key::Unknown,
        }
    }

    /// The function key with the number `n`, from 1 to 12. Any other number
    /// gives `Unknown`.
    pub fn from_function_number(n: u8) -> (k: Key)
        ensures
            1 <= n <= 12 ==> k.ordinal() == 35 + n,
            !(1 <= n <= 12) ==> k == Key::Unknown,
    {
        match n {
            1 => Key::F1,
            2 => Key::F2,
            3 => Key::F3,
            4 => Key::F4,
            5 => Key::F5,
            6 => Key::F6,
            7 => Key::F7,
            8 => Key::F8,
            9 => Key::F9,
            10 => Key::F10,
            11 => Key::F11,
            12 => Key::F12,
            _ => Key::Unknown,
        }
    }

    /// Distinct keys have distinct positions.
    pub proof fn lemma_ordinal_injective(a: Key, b: Key)
        requires
            a.ordinal() == b.ordinal(),
        ensures
            a == b,
    {
    }
}

} // verus!
