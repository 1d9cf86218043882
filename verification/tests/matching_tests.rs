//! Hotkey matching and alias resolution.

use keylayers::alias::{alias_hotkeys, dealias_code, key_alias_to_code};
use keylayers::hotkey::HotKey;
use keylayers::key::{KeyAlias, KeyCode, KeySet};

fn plain(code: KeyCode) -> HotKey {
    HotKey { code, shift: false, ctrl: false, alt: false, meta: false }
}

fn shifted(code: KeyCode) -> HotKey {
    HotKey { code, shift: true, ctrl: false, alt: false, meta: false }
}

#[test]
fn alpha_alias_resolves_to_bare_and_shift_variant() {
    let hotkeys = alias_hotkeys(&KeySet::new(vec![KeyAlias::KeyA]));
    assert_eq!(hotkeys, vec![plain(KeyCode::KeyA), shifted(KeyCode::KeyA)]);
}

#[test]
fn exclamation_resolves_to_dealiased_shift_digit1_only() {
    assert_eq!(key_alias_to_code(KeyAlias::Exclamation), None);
    assert_eq!(dealias_code(KeyAlias::Exclamation), Some(KeyCode::Num1));
    let hotkeys = alias_hotkeys(&KeySet::new(vec![KeyAlias::Exclamation]));
    assert_eq!(hotkeys, vec![shifted(KeyCode::Num1)]);
}

#[test]
fn digit_alias_resolves_to_bare_match_only() {
    let hotkeys = alias_hotkeys(&KeySet::new(vec![KeyAlias::Digit3]));
    assert_eq!(hotkeys, vec![plain(KeyCode::Num3)]);
}

#[test]
fn modifier_chord_folds_into_one_hotkey() {
    let hotkeys = alias_hotkeys(&KeySet::new(vec![KeyAlias::ControlLeft, KeyAlias::KeyC]));
    assert_eq!(
        hotkeys,
        vec![HotKey { code: KeyCode::KeyC, shift: false, ctrl: true, alt: false, meta: false }]
    );
}

#[test]
fn empty_chord_folds_to_default_hotkey() {
    let hotkeys = alias_hotkeys(&KeySet::new(vec![]));
    assert_eq!(hotkeys, vec![HotKey::default()]);
}

#[test]
fn relevant_keys_cover_code_and_required_modifier_pairs() {
    let keys = shifted(KeyCode::KeyA).relevant_keys();
    assert_eq!(keys, vec![KeyCode::KeyA, KeyCode::ShiftLeft, KeyCode::ShiftRight]);
    let keys = plain(KeyCode::KeyA).relevant_keys();
    assert_eq!(keys, vec![KeyCode::KeyA]);
}

#[test]
fn relevant_keys_skip_a_modifier_equal_to_the_code() {
    let keys = shifted(KeyCode::ShiftLeft).relevant_keys();
    assert_eq!(keys, vec![KeyCode::ShiftLeft, KeyCode::ShiftRight]);
}

#[test]
fn shift_chord_pressed_iff_code_and_some_shift_held() {
    let hk = shifted(KeyCode::KeyA);
    assert!(!hk.is_pressed(&vec![KeyCode::KeyA]));
    assert!(hk.is_pressed(&vec![KeyCode::KeyA, KeyCode::ShiftLeft]));
    assert!(hk.is_pressed(&vec![KeyCode::ShiftRight, KeyCode::KeyA]));
    assert!(!hk.is_pressed(&vec![KeyCode::ShiftLeft]));
}

#[test]
fn extraneous_modifier_vetoes_the_match() {
    let hk = shifted(KeyCode::KeyA);
    assert!(!hk.is_pressed(&vec![KeyCode::KeyA, KeyCode::ShiftLeft, KeyCode::ControlLeft]));
    let bare = plain(KeyCode::KeyA);
    assert!(!bare.is_pressed(&vec![KeyCode::KeyA, KeyCode::ShiftLeft]));
}

#[test]
fn toggling_an_unrelated_key_never_flips_the_match() {
    let hk = shifted(KeyCode::KeyA);
    let held = vec![KeyCode::KeyA, KeyCode::ShiftLeft];
    let with_unrelated = vec![KeyCode::KeyA, KeyCode::ShiftLeft, KeyCode::Space];
    assert_eq!(hk.is_pressed(&held), hk.is_pressed(&with_unrelated));
    let hk2 = plain(KeyCode::KeyQ);
    assert_eq!(hk2.is_pressed(&held), hk2.is_pressed(&with_unrelated));
}

#[test]
fn modifier_as_primary_code_is_exempt_from_its_own_check() {
    let hk = HotKey { code: KeyCode::ShiftLeft, shift: false, ctrl: false, alt: false, meta: false };
    assert!(hk.is_pressed(&vec![KeyCode::ShiftLeft]));
}

#[test]
fn fold_code_sets_modifier_flags_and_primary_code() {
    let mut hk = HotKey::default();
    hk.insert(KeyCode::ShiftRight);
    hk.insert(KeyCode::AltGr);
    hk.insert(KeyCode::KeyZ);
    assert_eq!(
        hk,
        HotKey { code: KeyCode::KeyZ, shift: true, ctrl: false, alt: true, meta: false }
    );
}

#[test]
fn is_alpha_marks_exactly_the_letters() {
    assert!(KeyAlias::KeyA.is_alpha());
    assert!(KeyAlias::KeyZ.is_alpha());
    assert!(!KeyAlias::Digit1.is_alpha());
    assert!(!KeyAlias::Exclamation.is_alpha());
}

#[test]
fn function_key_aliases_map_to_extended_codes() {
    assert_eq!(key_alias_to_code(KeyAlias::F13), Some(KeyCode::Unknown(124)));
    assert_eq!(key_alias_to_code(KeyAlias::F24), Some(KeyCode::Unknown(135)));
    assert_eq!(key_alias_to_code(KeyAlias::Fn), Some(KeyCode::Function));
}

#[test]
fn get_single_distinguishes_chords() {
    assert_eq!(KeySet::new(vec![KeyAlias::KeyA]).get_single(), Some(KeyAlias::KeyA));
    assert_eq!(KeySet::new(vec![KeyAlias::KeyA, KeyAlias::KeyB]).get_single(), None);
    assert_eq!(KeySet::new(vec![]).get_single(), None);
}
