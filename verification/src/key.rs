//! Physical key codes, layout-agnostic key aliases, and chords.

use vstd::prelude::*;

verus! {

/// A physical key as reported by the OS input layer.  The engine gives it no
/// semantics beyond identity; set-like collections use it as a key.
#[derive(Clone, Copy, Debug, PartialEq, Eq, Structural, Hash)]
pub enum KeyCode {
    Alt,
    AltGr,
    Backspace,
    CapsLock,
    ControlLeft,
    ControlRight,
    Delete,
    DownArrow,
    End,
    Escape,
    F1,
    F10,
    F11,
    F12,
    F2,
    F3,
    F4,
    F5,
    F6,
    F7,
    F8,
    F9,
    Home,
    LeftArrow,
    MetaLeft,
    MetaRight,
    PageDown,
    PageUp,
    Return,
    RightArrow,
    ShiftLeft,
    ShiftRight,
    Space,
    Tab,
    UpArrow,
    PrintScreen,
    ScrollLock,
    Pause,
    NumLock,
    BackQuote,
    Num1,
    Num2,
    Num3,
    Num4,
    Num5,
    Num6,
    Num7,
    Num8,
    Num9,
    Num0,
    Minus,
    Equal,
    KeyQ,
    KeyW,
    KeyE,
    KeyR,
    KeyT,
    KeyY,
    KeyU,
    KeyI,
    KeyO,
    KeyP,
    LeftBracket,
    RightBracket,
    KeyA,
    KeyS,
    KeyD,
    KeyF,
    KeyG,
    KeyH,
    KeyJ,
    KeyK,
    KeyL,
    SemiColon,
    Quote,
    BackSlash,
    IntlBackslash,
    KeyZ,
    KeyX,
    KeyC,
    KeyV,
    KeyB,
    KeyN,
    KeyM,
    Comma,
    Dot,
    Slash,
    Insert,
    KpReturn,
    KpMinus,
    KpPlus,
    KpMultiply,
    KpDivide,
    Kp0,
    Kp1,
    Kp2,
    Kp3,
    Kp4,
    Kp5,
    Kp6,
    Kp7,
    Kp8,
    Kp9,
    KpDelete,
    Function,
    Unknown(u32),
}

/// True of the eight keys that act as modifiers in hotkey matching.
pub open spec fn spec_is_modifier(code: KeyCode) -> bool {
    ||| code == KeyCode::ShiftLeft
    ||| code == KeyCode::ShiftRight
    ||| code == KeyCode::ControlLeft
    ||| code == KeyCode::ControlRight
    ||| code == KeyCode::Alt
    ||| code == KeyCode::AltGr
    ||| code == KeyCode::MetaLeft
    ||| code == KeyCode::MetaRight
}

impl KeyCode {
    /// Whether this key is one of the eight modifier keys.
    pub fn is_modifier(&self) -> (r: bool)
        ensures
            r == spec_is_modifier(*self),
    {
        match self {
            KeyCode::ShiftLeft
            | KeyCode::ShiftRight
            | KeyCode::ControlLeft
            | KeyCode::ControlRight
            | KeyCode::Alt
            | KeyCode::AltGr
            | KeyCode::MetaLeft
            | KeyCode::MetaRight => true,
            _ => false,
        }
    }
}

/// An abstract, keyboard-layout-agnostic identifier for a character or
/// function.  Every alias maps to zero, one, or two physical-key matches: a
/// direct match, and/or a dealiased shifted match for symbols not directly
/// addressable.
#[derive(Clone, Copy, Debug, PartialEq, Eq, Structural, Hash)]
pub enum KeyAlias {
    Backquote,
    Backslash,
    BracketLeft,
    BracketRight,
    Comma,
    Digit0,
    Digit1,
    Digit2,
    Digit3,
    Digit4,
    Digit5,
    Digit6,
    Digit7,
    Digit8,
    Digit9,
    Equal,
    KeyA,
    KeyB,
    KeyC,
    KeyD,
    KeyE,
    KeyF,
    KeyG,
    KeyH,
    KeyI,
    KeyJ,
    KeyK,
    KeyL,
    KeyM,
    KeyN,
    KeyO,
    KeyP,
    KeyQ,
    KeyR,
    KeyS,
    KeyT,
    KeyU,
    KeyV,
    KeyW,
    KeyX,
    KeyY,
    KeyZ,
    Minus,
    Period,
    Quote,
    Semicolon,
    Slash,
    AltLeft,
    AltRight,
    Backspace,
    CapsLock,
    ControlLeft,
    ControlRight,
    Enter,
    MetaLeft,
    MetaRight,
    ShiftLeft,
    ShiftRight,
    Space,
    Tab,
    Delete,
    End,
    Home,
    Insert,
    PageDown,
    PageUp,
    ArrowDown,
    ArrowLeft,
    ArrowRight,
    ArrowUp,
    Escape,
    F1,
    F2,
    F3,
    F4,
    F5,
    F6,
    F7,
    F8,
    F9,
    F10,
    F11,
    F12,
    F13,
    F14,
    F15,
    F16,
    F17,
    F18,
    F19,
    F20,
    F21,
    F22,
    F23,
    F24,
    Fn,
    PrintScreen,
    ScrollLock,
    Pause,
    MediaPlayPause,
    MediaTrackNext,
    MediaTrackPrevious,
    AudioVolumeDown,
    AudioVolumeMute,
    AudioVolumeUp,
    Tilde,
    Exclamation,
    At,
    Hash,
    Dollar,
    Percent,
    Caret,
    Ampersand,
    Star,
    ParenLeft,
    ParenRight,
    BraceLeft,
    BraceRight,
    Underscore,
    Plus,
    Pipe,
    Colon,
    QuoteDouble,
    LessThan,
    GreaterThan,
    Question,
}

/// True of the aliases for the ASCII letters, which also match their
/// shift-case variant.
pub open spec fn spec_is_alpha(alias: KeyAlias) -> bool {
    ||| alias == KeyAlias::KeyA
    ||| alias == KeyAlias::KeyB
    ||| alias == KeyAlias::KeyC
    ||| alias == KeyAlias::KeyD
    ||| alias == KeyAlias::KeyE
    ||| alias == KeyAlias::KeyF
    ||| alias == KeyAlias::KeyG
    ||| alias == KeyAlias::KeyH
    ||| alias == KeyAlias::KeyI
    ||| alias == KeyAlias::KeyJ
    ||| alias == KeyAlias::KeyK
    ||| alias == KeyAlias::KeyL
    ||| alias == KeyAlias::KeyM
    ||| alias == KeyAlias::KeyN
    ||| alias == KeyAlias::KeyO
    ||| alias == KeyAlias::KeyP
    ||| alias == KeyAlias::KeyQ
    ||| alias == KeyAlias::KeyR
    ||| alias == KeyAlias::KeyS
    ||| alias == KeyAlias::KeyT
    ||| alias == KeyAlias::KeyU
    ||| alias == KeyAlias::KeyV
    ||| alias == KeyAlias::KeyW
    ||| alias == KeyAlias::KeyX
    ||| alias == KeyAlias::KeyY
    ||| alias == KeyAlias::KeyZ
}

impl KeyAlias {
    /// Whether this alias names an ASCII letter.
    pub fn is_alpha(&self) -> (r: bool)
        ensures
            r == spec_is_alpha(*self),
    {
        match self {
            KeyAlias::KeyA
            | KeyAlias::KeyB
            | KeyAlias::KeyC
            | KeyAlias::KeyD
            | KeyAlias::KeyE
            | KeyAlias::KeyF
            | KeyAlias::KeyG
            | KeyAlias::KeyH
            | KeyAlias::KeyI
            | KeyAlias::KeyJ
            | KeyAlias::KeyK
            | KeyAlias::KeyL
            | KeyAlias::KeyM
            | KeyAlias::KeyN
            | KeyAlias::KeyO
            | KeyAlias::KeyP
            | KeyAlias::KeyQ
            | KeyAlias::KeyR
            | KeyAlias::KeyS
            | KeyAlias::KeyT
            | KeyAlias::KeyU
            | KeyAlias::KeyV
            | KeyAlias::KeyW
            | KeyAlias::KeyX
            | KeyAlias::KeyY
            | KeyAlias::KeyZ => true,
            _ => false,
        }
    }
}

/// A chord: the aliases that must all be held simultaneously to satisfy a
/// binding.  A chord of one alias also matches its natural shift-case
/// variant.
#[derive(Clone, Debug, PartialEq)]
pub struct KeySet {
    pub aliases: Vec<KeyAlias>,
}

impl View for KeySet {
    type V = Seq<KeyAlias>;

    open spec fn view(&self) -> Seq<KeyAlias> {
        self.aliases@
    }
}

impl KeySet {
    /// Builds a chord from the given aliases, in order.
    pub fn new(aliases: Vec<KeyAlias>) -> (r: KeySet)
        ensures
            r@ == aliases@,
    {
        KeySet { aliases }
    }

    /// The constituent aliases, in chord order.
    pub fn aliases(&self) -> (r: &Vec<KeyAlias>)
        ensures
            r@ == self@,
    {
        &self.aliases
    }

    /// The sole alias of a one-alias chord, and `None` for any other chord.
    pub fn get_single(&self) -> (r: Option<KeyAlias>)
        ensures
            r == (if self@.len() == 1 {
                Some(self@[0])
            } else {
                None::<KeyAlias>
            }),
    {
        if self.aliases.len() == 1 {
            Some(self.aliases[0])
        } else {
            None
        }
    }
}

} // verus!
