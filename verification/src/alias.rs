//! The key alias table: the static mapping from layout-agnostic aliases to
//! physical-key matches, and the expansion of a chord into hotkeys.

use vstd::prelude::*;

use crate::hotkey::{spec_fold_code, HotKey};
use crate::key::{spec_is_alpha, KeyAlias, KeyCode, KeySet};

verus! {

/// The direct physical match of an alias, if the alias is directly
/// addressable on the reference layout.
pub open spec fn spec_alias_code(alias: KeyAlias) -> Option<KeyCode> {
    match alias {
        KeyAlias::Backquote => Some(KeyCode::BackQuote),
        KeyAlias::Backslash => Some(KeyCode::BackSlash),
        KeyAlias::BracketLeft => Some(KeyCode::LeftBracket),
        KeyAlias::BracketRight => Some(KeyCode::RightBracket),
        KeyAlias::Comma => Some(KeyCode::Comma),
        KeyAlias::Digit0 => Some(KeyCode::Num0),
        KeyAlias::Digit1 => Some(KeyCode::Num1),
        KeyAlias::Digit2 => Some(KeyCode::Num2),
        KeyAlias::Digit3 => Some(KeyCode::Num3),
        KeyAlias::Digit4 => Some(KeyCode::Num4),
        KeyAlias::Digit5 => Some(KeyCode::Num5),
        KeyAlias::Digit6 => Some(KeyCode::Num6),
        KeyAlias::Digit7 => Some(KeyCode::Num7),
        KeyAlias::Digit8 => Some(KeyCode::Num8),
        KeyAlias::Digit9 => Some(KeyCode::Num9),
        KeyAlias::Equal => Some(KeyCode::Equal),
        KeyAlias::KeyA => Some(KeyCode::KeyA),
        KeyAlias::KeyB => Some(KeyCode::KeyB),
        KeyAlias::KeyC => Some(KeyCode::KeyC),
        KeyAlias::KeyD => Some(KeyCode::KeyD),
        KeyAlias::KeyE => Some(KeyCode::KeyE),
        KeyAlias::KeyF => Some(KeyCode::KeyF),
        KeyAlias::KeyG => Some(KeyCode::KeyG),
        KeyAlias::KeyH => Some(KeyCode::KeyH),
        KeyAlias::KeyI => Some(KeyCode::KeyI),
        KeyAlias::KeyJ => Some(KeyCode::KeyJ),
        KeyAlias::KeyK => Some(KeyCode::KeyK),
        KeyAlias::KeyL => Some(KeyCode::KeyL),
        KeyAlias::KeyM => Some(KeyCode::KeyM),
        KeyAlias::KeyN => Some(KeyCode::KeyN),
        KeyAlias::KeyO => Some(KeyCode::KeyO),
        KeyAlias::KeyP => Some(KeyCode::KeyP),
        KeyAlias::KeyQ => Some(KeyCode::KeyQ),
        KeyAlias::KeyR => Some(KeyCode::KeyR),
        KeyAlias::KeyS => Some(KeyCode::KeyS),
        KeyAlias::KeyT => Some(KeyCode::KeyT),
        KeyAlias::KeyU => Some(KeyCode::KeyU),
        KeyAlias::KeyV => Some(KeyCode::KeyV),
        KeyAlias::KeyW => Some(KeyCode::KeyW),
        KeyAlias::KeyX => Some(KeyCode::KeyX),
        KeyAlias::KeyY => Some(KeyCode::KeyY),
        KeyAlias::KeyZ => Some(KeyCode::KeyZ),
        KeyAlias::Minus => Some(KeyCode::Minus),
        KeyAlias::Period => Some(KeyCode::Dot),
        KeyAlias::Quote => Some(KeyCode::Quote),
        KeyAlias::Semicolon => Some(KeyCode::SemiColon),
        KeyAlias::Slash => Some(KeyCode::Slash),
        KeyAlias::AltLeft => Some(KeyCode::Alt),
        KeyAlias::AltRight => Some(KeyCode::AltGr),
        KeyAlias::Backspace => Some(KeyCode::Backspace),
        KeyAlias::CapsLock => Some(KeyCode::CapsLock),
        KeyAlias::ControlLeft => Some(KeyCode::ControlLeft),
        KeyAlias::ControlRight => Some(KeyCode::ControlRight),
        KeyAlias::Enter => Some(KeyCode::Return),
        KeyAlias::MetaLeft => Some(KeyCode::MetaLeft),
        KeyAlias::MetaRight => Some(KeyCode::MetaRight),
        KeyAlias::ShiftLeft => Some(KeyCode::ShiftLeft),
        KeyAlias::ShiftRight => Some(KeyCode::ShiftRight),
        KeyAlias::Space => Some(KeyCode::Space),
        KeyAlias::Tab => Some(KeyCode::Tab),
        KeyAlias::Delete => Some(KeyCode::Delete),
        KeyAlias::End => Some(KeyCode::End),
        KeyAlias::Home => Some(KeyCode::Home),
        KeyAlias::Insert => Some(KeyCode::Insert),
        KeyAlias::PageDown => Some(KeyCode::PageDown),
        KeyAlias::PageUp => Some(KeyCode::PageUp),
        KeyAlias::ArrowDown => Some(KeyCode::DownArrow),
        KeyAlias::ArrowLeft => Some(KeyCode::LeftArrow),
        KeyAlias::ArrowRight => Some(KeyCode::RightArrow),
        KeyAlias::ArrowUp => Some(KeyCode::UpArrow),
        KeyAlias::Escape => Some(KeyCode::Escape),
        KeyAlias::F1 => Some(KeyCode::F1),
        KeyAlias::F2 => Some(KeyCode::F2),
        KeyAlias::F3 => Some(KeyCode::F3),
        KeyAlias::F4 => Some(KeyCode::F4),
        KeyAlias::F5 => Some(KeyCode::F5),
        KeyAlias::F6 => Some(KeyCode::F6),
        KeyAlias::F7 => Some(KeyCode::F7),
        KeyAlias::F8 => Some(KeyCode::F8),
        KeyAlias::F9 => Some(KeyCode::F9),
        KeyAlias::F10 => Some(KeyCode::F10),
        KeyAlias::F11 => Some(KeyCode::F11),
        KeyAlias::F12 => Some(KeyCode::F12),
        KeyAlias::F13 => Some(KeyCode::Unknown(124)),
        KeyAlias::F14 => Some(KeyCode::Unknown(125)),
        KeyAlias::F15 => Some(KeyCode::Unknown(126)),
        KeyAlias::F16 => Some(KeyCode::Unknown(127)),
        KeyAlias::F17 => Some(KeyCode::Unknown(128)),
        KeyAlias::F18 => Some(KeyCode::Unknown(129)),
        KeyAlias::F19 => Some(KeyCode::Unknown(130)),
        KeyAlias::F20 => Some(KeyCode::Unknown(131)),
        KeyAlias::F21 => Some(KeyCode::Unknown(132)),
        KeyAlias::F22 => Some(KeyCode::Unknown(133)),
        KeyAlias::F23 => Some(KeyCode::Unknown(134)),
        KeyAlias::F24 => Some(KeyCode::Unknown(135)),
        KeyAlias::Fn => Some(KeyCode::Function),
        KeyAlias::PrintScreen => Some(KeyCode::PrintScreen),
        KeyAlias::ScrollLock => Some(KeyCode::ScrollLock),
        KeyAlias::Pause => Some(KeyCode::Pause),
        KeyAlias::MediaPlayPause => Some(KeyCode::Unknown(179)),
        KeyAlias::MediaTrackNext => Some(KeyCode::Unknown(176)),
        KeyAlias::MediaTrackPrevious => Some(KeyCode::Unknown(177)),
        KeyAlias::AudioVolumeDown => Some(KeyCode::Unknown(174)),
        KeyAlias::AudioVolumeMute => Some(KeyCode::Unknown(173)),
        KeyAlias::AudioVolumeUp => Some(KeyCode::Unknown(175)),
        _ => None,
    }
}

/// The dealiased match of a shifted symbol: the physical key that produces
/// the symbol when shift is held.
pub open spec fn spec_dealias_code(alias: KeyAlias) -> Option<KeyCode> {
    match alias {
        KeyAlias::Tilde => Some(KeyCode::Num0),
        KeyAlias::Exclamation => Some(KeyCode::Num1),
        KeyAlias::At => Some(KeyCode::Num2),
        KeyAlias::Hash => Some(KeyCode::Num3),
        KeyAlias::Dollar => Some(KeyCode::Num4),
        KeyAlias::Percent => Some(KeyCode::Num5),
        KeyAlias::Caret => Some(KeyCode::Num6),
        KeyAlias::Ampersand => Some(KeyCode::Num7),
        KeyAlias::Star => Some(KeyCode::Num8),
        KeyAlias::ParenLeft => Some(KeyCode::Num9),
        KeyAlias::ParenRight => Some(KeyCode::Num0),
        KeyAlias::BraceLeft => Some(KeyCode::LeftBracket),
        KeyAlias::BraceRight => Some(KeyCode::RightBracket),
        KeyAlias::Underscore => Some(KeyCode::Minus),
        KeyAlias::Plus => Some(KeyCode::Equal),
        KeyAlias::Pipe => Some(KeyCode::BackSlash),
        KeyAlias::Colon => Some(KeyCode::SemiColon),
        KeyAlias::QuoteDouble => Some(KeyCode::Quote),
        KeyAlias::LessThan => Some(KeyCode::Comma),
        KeyAlias::GreaterThan => Some(KeyCode::Dot),
        KeyAlias::Question => Some(KeyCode::Slash),
        _ => None,
    }
}

/// The direct physical match of an alias, or `None` for an alias with no OS
/// mapping, which is silently unbound.
pub fn key_alias_to_code(alias: KeyAlias) -> (r: Option<KeyCode>)
    ensures
        r == spec_alias_code(alias),
{
    match alias {
        KeyAlias::Backquote => Some(KeyCode::BackQuote),
        KeyAlias::Backslash => Some(KeyCode::BackSlash),
        KeyAlias::BracketLeft => Some(KeyCode::LeftBracket),
        KeyAlias::BracketRight => Some(KeyCode::RightBracket),
        KeyAlias::Comma => Some(KeyCode::Comma),
        KeyAlias::Digit0 => Some(KeyCode::Num0),
        KeyAlias::Digit1 => Some(KeyCode::Num1),
        KeyAlias::Digit2 => Some(KeyCode::Num2),
        KeyAlias::Digit3 => Some(KeyCode::Num3),
        KeyAlias::Digit4 => Some(KeyCode::Num4),
        KeyAlias::Digit5 => Some(KeyCode::Num5),
        KeyAlias::Digit6 => Some(KeyCode::Num6),
        KeyAlias::Digit7 => Some(KeyCode::Num7),
        KeyAlias::Digit8 => Some(KeyCode::Num8),
        KeyAlias::Digit9 => Some(KeyCode::Num9),
        KeyAlias::Equal => Some(KeyCode::Equal),
        KeyAlias::KeyA => Some(KeyCode::KeyA),
        KeyAlias::KeyB => Some(KeyCode::KeyB),
        KeyAlias::KeyC => Some(KeyCode::KeyC),
        KeyAlias::KeyD => Some(KeyCode::KeyD),
        KeyAlias::KeyE => Some(KeyCode::KeyE),
        KeyAlias::KeyF => Some(KeyCode::KeyF),
        KeyAlias::KeyG => Some(KeyCode::KeyG),
        KeyAlias::KeyH => Some(KeyCode::KeyH),
        KeyAlias::KeyI => Some(KeyCode::KeyI),
        KeyAlias::KeyJ => Some(KeyCode::KeyJ),
        KeyAlias::KeyK => Some(KeyCode::KeyK),
        KeyAlias::KeyL => Some(KeyCode::KeyL),
        KeyAlias::KeyM => Some(KeyCode::KeyM),
        KeyAlias::KeyN => Some(KeyCode::KeyN),
        KeyAlias::KeyO => Some(KeyCode::KeyO),
        KeyAlias::KeyP => Some(KeyCode::KeyP),
        KeyAlias::KeyQ => Some(KeyCode::KeyQ),
        KeyAlias::KeyR => Some(KeyCode::KeyR),
        KeyAlias::KeyS => Some(KeyCode::KeyS),
        KeyAlias::KeyT => Some(KeyCode::KeyT),
        KeyAlias::KeyU => Some(KeyCode::KeyU),
        KeyAlias::KeyV => Some(KeyCode::KeyV),
        KeyAlias::KeyW => Some(KeyCode::KeyW),
        KeyAlias::KeyX => Some(KeyCode::KeyX),
        KeyAlias::KeyY => Some(KeyCode::KeyY),
        KeyAlias::KeyZ => Some(KeyCode::KeyZ),
        KeyAlias::Minus => Some(KeyCode::Minus),
        KeyAlias::Period => Some(KeyCode::Dot),
        KeyAlias::Quote => Some(KeyCode::Quote),
        KeyAlias::Semicolon => Some(KeyCode::SemiColon),
        KeyAlias::Slash => Some(KeyCode::Slash),
        KeyAlias::AltLeft => Some(KeyCode::Alt),
        KeyAlias::AltRight => Some(KeyCode::AltGr),
        KeyAlias::Backspace => Some(KeyCode::Backspace),
        KeyAlias::CapsLock => Some(KeyCode::CapsLock),
        KeyAlias::ControlLeft => Some(KeyCode::ControlLeft),
        KeyAlias::ControlRight => Some(KeyCode::ControlRight),
        KeyAlias::Enter => Some(KeyCode::Return),
        KeyAlias::MetaLeft => Some(KeyCode::MetaLeft),
        KeyAlias::MetaRight => Some(KeyCode::MetaRight),
        KeyAlias::ShiftLeft => Some(KeyCode::ShiftLeft),
        KeyAlias::ShiftRight => Some(KeyCode::ShiftRight),
        KeyAlias::Space => Some(KeyCode::Space),
        KeyAlias::Tab => Some(KeyCode::Tab),
        KeyAlias::Delete => Some(KeyCode::Delete),
        KeyAlias::End => Some(KeyCode::End),
        KeyAlias::Home => Some(KeyCode::Home),
        KeyAlias::Insert => Some(KeyCode::Insert),
        KeyAlias::PageDown => Some(KeyCode::PageDown),
        KeyAlias::PageUp => Some(KeyCode::PageUp),
        KeyAlias::ArrowDown => Some(KeyCode::DownArrow),
        KeyAlias::ArrowLeft => Some(KeyCode::LeftArrow),
        KeyAlias::ArrowRight => Some(KeyCode::RightArrow),
        KeyAlias::ArrowUp => Some(KeyCode::UpArrow),
        KeyAlias::Escape => Some(KeyCode::Escape),
        KeyAlias::F1 => Some(KeyCode::F1),
        KeyAlias::F2 => Some(KeyCode::F2),
        KeyAlias::F3 => Some(KeyCode::F3),
        KeyAlias::F4 => Some(KeyCode::F4),
        KeyAlias::F5 => Some(KeyCode::F5),
        KeyAlias::F6 => Some(KeyCode::F6),
        KeyAlias::F7 => Some(KeyCode::F7),
        KeyAlias::F8 => Some(KeyCode::F8),
        KeyAlias::F9 => Some(KeyCode::F9),
        KeyAlias::F10 => Some(KeyCode::F10),
        KeyAlias::F11 => Some(KeyCode::F11),
        KeyAlias::F12 => Some(KeyCode::F12),
        KeyAlias::F13 => Some(KeyCode::Unknown(124)),
        KeyAlias::F14 => Some(KeyCode::Unknown(125)),
        KeyAlias::F15 => Some(KeyCode::Unknown(126)),
        KeyAlias::F16 => Some(KeyCode::Unknown(127)),
        KeyAlias::F17 => Some(KeyCode::Unknown(128)),
        KeyAlias::F18 => Some(KeyCode::Unknown(129)),
        KeyAlias::F19 => Some(KeyCode::Unknown(130)),
        KeyAlias::F20 => Some(KeyCode::Unknown(131)),
        KeyAlias::F21 => Some(KeyCode::Unknown(132)),
        KeyAlias::F22 => Some(KeyCode::Unknown(133)),
        KeyAlias::F23 => Some(KeyCode::Unknown(134)),
        KeyAlias::F24 => Some(KeyCode::Unknown(135)),
        KeyAlias::Fn => Some(KeyCode::Function),
        KeyAlias::PrintScreen => Some(KeyCode::PrintScreen),
        KeyAlias::ScrollLock => Some(KeyCode::ScrollLock),
        KeyAlias::Pause => Some(KeyCode::Pause),
        KeyAlias::MediaPlayPause => Some(KeyCode::Unknown(179)),
        KeyAlias::MediaTrackNext => Some(KeyCode::Unknown(176)),
        KeyAlias::MediaTrackPrevious => Some(KeyCode::Unknown(177)),
        KeyAlias::AudioVolumeDown => Some(KeyCode::Unknown(174)),
        KeyAlias::AudioVolumeMute => Some(KeyCode::Unknown(173)),
        KeyAlias::AudioVolumeUp => Some(KeyCode::Unknown(175)),
        _ => None,
    }
}

/// The dealiased shifted match of an alias, or `None` for an alias that is
/// not a shifted symbol.
pub fn dealias_code(alias: KeyAlias) -> (r: Option<KeyCode>)
    ensures
        r == spec_dealias_code(alias),
{
    match alias {
        KeyAlias::Tilde => Some(KeyCode::Num0),
        KeyAlias::Exclamation => Some(KeyCode::Num1),
        KeyAlias::At => Some(KeyCode::Num2),
        KeyAlias::Hash => Some(KeyCode::Num3),
        KeyAlias::Dollar => Some(KeyCode::Num4),
        KeyAlias::Percent => Some(KeyCode::Num5),
        KeyAlias::Caret => Some(KeyCode::Num6),
        KeyAlias::Ampersand => Some(KeyCode::Num7),
        KeyAlias::Star => Some(KeyCode::Num8),
        KeyAlias::ParenLeft => Some(KeyCode::Num9),
        KeyAlias::ParenRight => Some(KeyCode::Num0),
        KeyAlias::BraceLeft => Some(KeyCode::LeftBracket),
        KeyAlias::BraceRight => Some(KeyCode::RightBracket),
        KeyAlias::Underscore => Some(KeyCode::Minus),
        KeyAlias::Plus => Some(KeyCode::Equal),
        KeyAlias::Pipe => Some(KeyCode::BackSlash),
        KeyAlias::Colon => Some(KeyCode::SemiColon),
        KeyAlias::QuoteDouble => Some(KeyCode::Quote),
        KeyAlias::LessThan => Some(KeyCode::Comma),
        KeyAlias::GreaterThan => Some(KeyCode::Dot),
        KeyAlias::Question => Some(KeyCode::Slash),
        _ => None,
    }
}

/// A hotkey on `code` with no modifier flags.
pub open spec fn spec_plain_hotkey(code: KeyCode) -> HotKey {
    HotKey { code, shift: false, ctrl: false, alt: false, meta: false }
}

/// A hotkey on `code` with only the shift flag set.
pub open spec fn spec_shift_hotkey(code: KeyCode) -> HotKey {
    HotKey { code, shift: true, ctrl: false, alt: false, meta: false }
}

/// Folding every mapped alias of a chord into one hotkey, in chord order.
pub open spec fn spec_fold_chord(aliases: Seq<KeyAlias>, h: HotKey) -> HotKey
    decreases aliases.len(),
{
    if aliases.len() == 0 {
        h
    } else {
        let h1 = match spec_alias_code(aliases[0]) {
            Some(code) => spec_fold_code(h, code),
            None => h,
        };
        spec_fold_chord(aliases.drop_first(), h1)
    }
}

/// The hotkeys a chord resolves to.  A one-alias chord yields its direct
/// match, the shift-variant of a letter, and the dealiased shifted match of
/// a symbol; any other chord folds its aliases into a single hotkey.
pub open spec fn spec_alias_hotkeys(aliases: Seq<KeyAlias>) -> Seq<HotKey> {
    if aliases.len() == 1 {
        let a = aliases[0];
        (match spec_alias_code(a) {
            Some(code) => seq![spec_plain_hotkey(code)] + (if spec_is_alpha(a) {
                seq![spec_shift_hotkey(code)]
            } else {
                Seq::empty()
            }),
            None => Seq::empty(),
        }) + (match spec_dealias_code(a) {
            Some(code) => seq![spec_shift_hotkey(code)],
            None => Seq::empty(),
        })
    } else {
        seq![spec_fold_chord(aliases, spec_plain_hotkey(KeyCode::Unknown(0)))]
    }
}

/// Resolves a chord to the hotkeys it matches.  An alias with no OS mapping
/// contributes nothing: a chord of only unmapped aliases yields no match
/// (or, for a multi-alias chord, the default hotkey), never an error.
pub fn alias_hotkeys(combo: &KeySet) -> (r: Vec<HotKey>)
    ensures
        r@ == spec_alias_hotkeys(combo@),
{
    let mut hotkeys: Vec<HotKey> = Vec::new();
    if let Some(alias) = combo.get_single() {
        if let Some(code) = key_alias_to_code(alias) {
            hotkeys.push(HotKey { code, ..Default::default() });
            if alias.is_alpha() {
                hotkeys.push(HotKey { code, shift: true, ..Default::default() });
            }
        }
        if let Some(code) = dealias_code(alias) {
            hotkeys.push(HotKey { code, shift: true, ..Default::default() });
        }
        assert(hotkeys@ =~= spec_alias_hotkeys(combo@));
    } else {
        let mut hotkey = HotKey::default();
        let aliases = combo.aliases();
        let ghost all = combo@;
        assert(all.subrange(0, all.len() as int) =~= all);
        let mut i: usize = 0;
        while i < aliases.len()
            invariant
                0 <= i <= all.len(),
                aliases@ == all,
                all.len() != 1,
                spec_fold_chord(all, spec_plain_hotkey(KeyCode::Unknown(0))) == spec_fold_chord(
                    all.subrange(i as int, all.len() as int),
                    hotkey,
                ),
            decreases all.len() - i,
        {
            let ghost rest = all.subrange(i as int, all.len() as int);
            if let Some(code) = key_alias_to_code(aliases[i]) {
                hotkey.insert(code);
            }
            assert(rest.drop_first() == all.subrange(i + 1, all.len() as int));
            i = i + 1;
        }
        hotkeys.push(hotkey);
        assert(hotkeys@ =~= spec_alias_hotkeys(combo@));
    }
    hotkeys
}

/// Every letter alias resolves to exactly its bare physical match followed
/// by the shift-variant of the same code.
pub proof fn lemma_alpha_alias_round_trip(a: KeyAlias)
    requires
        spec_is_alpha(a),
    ensures
        spec_alias_code(a) is Some,
        spec_dealias_code(a) is None,
        spec_alias_hotkeys(seq![a]) =~= seq![
            spec_plain_hotkey(spec_alias_code(a).unwrap()),
            spec_shift_hotkey(spec_alias_code(a).unwrap()),
        ],
{
}

/// A shifted-symbol alias with no direct match resolves to exactly its
/// dealiased shifted entry and no bare match.
pub proof fn lemma_dealiased_symbol(a: KeyAlias)
    requires
        spec_alias_code(a) is None,
        spec_dealias_code(a) is Some,
    ensures
        spec_alias_hotkeys(seq![a]) =~= seq![spec_shift_hotkey(spec_dealias_code(a).unwrap())],
{
}

} // verus!
