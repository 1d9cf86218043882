//! A hotkey: one primary physical key plus modifier flags, with a
//! containment test against the set of currently-held physical keys.

use vstd::prelude::*;

use crate::key::{spec_is_modifier, KeyCode};
use crate::util::no_dup;

verus! {

/// A physical code plus modifier flags.  Equality is structural.
#[derive(Clone, Copy, Debug, PartialEq, Eq, Structural, Hash)]
pub struct HotKey {
    pub code: KeyCode,
    pub shift: bool,
    pub ctrl: bool,
    pub alt: bool,
    pub meta: bool,
}

impl Default for HotKey {
    /// An unknown key with no modifier flags.
    fn default() -> (r: Self)
        ensures
            r == (HotKey {
                code: KeyCode::Unknown(0),
                shift: false,
                ctrl: false,
                alt: false,
                meta: false,
            }),
    {
        HotKey { code: KeyCode::Unknown(0), shift: false, ctrl: false, alt: false, meta: false }
    }
}

/// One modifier check of the pressed test: the flag must agree with whether
/// either key of the modifier pair is held, except when the primary code is
/// itself one of the pair, which is exempt so that a modifier cannot veto
/// itself.
pub open spec fn spec_mods_match(
    code: KeyCode,
    want: bool,
    m1: KeyCode,
    m2: KeyCode,
    keys: Set<KeyCode>,
) -> bool {
    code == m1 || code == m2 || want == (keys.contains(m1) || keys.contains(m2))
}

/// The hotkey is pressed: its primary code is held, and each modifier pair
/// agrees with its flag.
pub open spec fn spec_is_pressed(h: HotKey, keys: Set<KeyCode>) -> bool {
    &&& keys.contains(h.code)
    &&& spec_mods_match(h.code, h.shift, KeyCode::ShiftLeft, KeyCode::ShiftRight, keys)
    &&& spec_mods_match(h.code, h.ctrl, KeyCode::ControlLeft, KeyCode::ControlRight, keys)
    &&& spec_mods_match(h.code, h.alt, KeyCode::Alt, KeyCode::AltGr, keys)
    &&& spec_mods_match(h.code, h.meta, KeyCode::MetaLeft, KeyCode::MetaRight, keys)
}

/// The keys a modifier pair contributes to the relevant-key list: both keys
/// of the pair when the flag is set, skipping one equal to the primary code.
pub open spec fn spec_mod_pair_keys(want: bool, m1: KeyCode, m2: KeyCode, code: KeyCode) -> Seq<
    KeyCode,
> {
    if want {
        (if m1 == code {
            Seq::empty()
        } else {
            seq![m1]
        }) + (if m2 == code {
            Seq::empty()
        } else {
            seq![m2]
        })
    } else {
        Seq::empty()
    }
}

/// The keys whose transitions can change this hotkey's pressed status
/// through its primary code or a required modifier pair, in list order.
pub open spec fn spec_relevant_keys(h: HotKey) -> Seq<KeyCode> {
    seq![h.code] + spec_mod_pair_keys(h.shift, KeyCode::ShiftLeft, KeyCode::ShiftRight, h.code)
        + spec_mod_pair_keys(h.ctrl, KeyCode::ControlLeft, KeyCode::ControlRight, h.code)
        + spec_mod_pair_keys(h.alt, KeyCode::Alt, KeyCode::AltGr, h.code) + spec_mod_pair_keys(
        h.meta,
        KeyCode::MetaLeft,
        KeyCode::MetaRight,
        h.code,
    )
}

/// Folding one physical code into a chord hotkey: a modifier key sets its
/// flag, any other key becomes the primary code.
pub open spec fn spec_fold_code(h: HotKey, code: KeyCode) -> HotKey {
    if code == KeyCode::ShiftLeft || code == KeyCode::ShiftRight {
        HotKey { shift: true, ..h }
    } else if code == KeyCode::ControlLeft || code == KeyCode::ControlRight {
        HotKey { ctrl: true, ..h }
    } else if code == KeyCode::Alt || code == KeyCode::AltGr {
        HotKey { alt: true, ..h }
    } else if code == KeyCode::MetaLeft || code == KeyCode::MetaRight {
        HotKey { meta: true, ..h }
    } else {
        HotKey { code, ..h }
    }
}

/// Appends the keys a modifier pair contributes to a relevant-key list.
fn push_mod_pair(keys: &mut Vec<KeyCode>, want: bool, m1: KeyCode, m2: KeyCode, code: KeyCode)
    ensures
        final(keys)@ == old(keys)@ + spec_mod_pair_keys(want, m1, m2, code),
{
    let ghost pre = keys@;
    if want {
        if code != m1 {
            keys.push(m1);
        }
        if code != m2 {
            keys.push(m2);
        }
    }
    assert(keys@ =~= pre + spec_mod_pair_keys(want, m1, m2, code));
}

/// The relevant-key list of a hotkey never repeats a key.
proof fn lemma_relevant_keys_no_dup(h: HotKey)
    ensures
        no_dup(spec_relevant_keys(h)),
{
}

impl HotKey {
    /// The physical keys whose transitions are relevant to this hotkey, in a
    /// fixed order and without duplicates.
    pub fn relevant_keys(&self) -> (r: Vec<KeyCode>)
        ensures
            r@ == spec_relevant_keys(*self),
            no_dup(r@),
    {
        let mut keys: Vec<KeyCode> = Vec::new();
        keys.push(self.code);
        assert(keys@ =~= seq![self.code]);
        push_mod_pair(&mut keys, self.shift, KeyCode::ShiftLeft, KeyCode::ShiftRight, self.code);
        push_mod_pair(
            &mut keys,
            self.ctrl,
            KeyCode::ControlLeft,
            KeyCode::ControlRight,
            self.code,
        );
        push_mod_pair(&mut keys, self.alt, KeyCode::Alt, KeyCode::AltGr, self.code);
        push_mod_pair(&mut keys, self.meta, KeyCode::MetaLeft, KeyCode::MetaRight, self.code);
        proof {
            lemma_relevant_keys_no_dup(*self);
        }
        keys
    }

    /// Folds one physical code of a chord into the hotkey.
    pub fn insert(&mut self, code: KeyCode)
        ensures
            *final(self) == spec_fold_code(*old(self), code),
    {
        match code {
            KeyCode::ShiftLeft | KeyCode::ShiftRight => self.shift = true,
            KeyCode::ControlLeft | KeyCode::ControlRight => self.ctrl = true,
            KeyCode::Alt | KeyCode::AltGr => self.alt = true,
            KeyCode::MetaLeft | KeyCode::MetaRight => self.meta = true,
            _ => self.code = code,
        }
    }

    /// Whether the modifier pair `m1`/`m2` vetoes the pressed test.
    fn is_missing_mod(
        code: KeyCode,
        want_mod: bool,
        m1: KeyCode,
        m2: KeyCode,
        pressed_keys: &Vec<KeyCode>,
    ) -> (r: bool)
        ensures
            r == !spec_mods_match(code, want_mod, m1, m2, pressed_keys@.to_set()),
    {
        let any_mod_pressed = crate::util::contains_code(pressed_keys, m1)
            || crate::util::contains_code(pressed_keys, m2);
        code != m1 && code != m2 && want_mod != any_mod_pressed
    }

    /// The containment test: whether this hotkey counts as pressed given the
    /// held-key set.
    pub fn is_pressed(&self, keys: &Vec<KeyCode>) -> (r: bool)
        ensures
            r == spec_is_pressed(*self, keys@.to_set()),
    {
        if !crate::util::contains_code(keys, self.code) {
            return false;
        }
        if Self::is_missing_mod(
            self.code,
            self.shift,
            KeyCode::ShiftLeft,
            KeyCode::ShiftRight,
            keys,
        ) {
            return false;
        }
        if Self::is_missing_mod(
            self.code,
            self.ctrl,
            KeyCode::ControlLeft,
            KeyCode::ControlRight,
            keys,
        ) {
            return false;
        }
        if Self::is_missing_mod(self.code, self.alt, KeyCode::Alt, KeyCode::AltGr, keys) {
            return false;
        }
        if Self::is_missing_mod(self.code, self.meta, KeyCode::MetaLeft, KeyCode::MetaRight, keys) {
            return false;
        }
        true
    }
}

/// For a hotkey that wants shift (and no other modifier) on a non-modifier
/// primary code, the pressed test is exactly: the primary code is held, some
/// shift key is held, and no control, alt, or meta key is held.
pub proof fn lemma_shift_chord_pressed(h: HotKey, keys: Set<KeyCode>)
    requires
        h.shift,
        !h.ctrl,
        !h.alt,
        !h.meta,
        !spec_is_modifier(h.code),
    ensures
        spec_is_pressed(h, keys) <==> {
            &&& keys.contains(h.code)
            &&& keys.contains(KeyCode::ShiftLeft) || keys.contains(KeyCode::ShiftRight)
            &&& !keys.contains(KeyCode::ControlLeft)
            &&& !keys.contains(KeyCode::ControlRight)
            &&& !keys.contains(KeyCode::Alt)
            &&& !keys.contains(KeyCode::AltGr)
            &&& !keys.contains(KeyCode::MetaLeft)
            &&& !keys.contains(KeyCode::MetaRight)
        },
{
}

/// The pressed test reads nothing but the held state of the hotkey's own
/// primary code and of the eight modifier keys: two held-key sets that
/// agree on those nine keys give the same answer.
pub proof fn lemma_pressed_depends_only_on_relevant(h: HotKey, k1: Set<KeyCode>, k2: Set<KeyCode>)
    requires
        k1.contains(h.code) == k2.contains(h.code),
        k1.contains(KeyCode::ShiftLeft) == k2.contains(KeyCode::ShiftLeft),
        k1.contains(KeyCode::ShiftRight) == k2.contains(KeyCode::ShiftRight),
        k1.contains(KeyCode::ControlLeft) == k2.contains(KeyCode::ControlLeft),
        k1.contains(KeyCode::ControlRight) == k2.contains(KeyCode::ControlRight),
        k1.contains(KeyCode::Alt) == k2.contains(KeyCode::Alt),
        k1.contains(KeyCode::AltGr) == k2.contains(KeyCode::AltGr),
        k1.contains(KeyCode::MetaLeft) == k2.contains(KeyCode::MetaLeft),
        k1.contains(KeyCode::MetaRight) == k2.contains(KeyCode::MetaRight),
    ensures
        spec_is_pressed(h, k1) == spec_is_pressed(h, k2),
{
}

/// Toggling a key that is neither a hotkey's primary code nor any modifier
/// key never changes that hotkey's pressed status.
pub proof fn lemma_unrelated_key_no_flip(h: HotKey, keys: Set<KeyCode>, k: KeyCode)
    requires
        k != h.code,
        !spec_is_modifier(k),
    ensures
        spec_is_pressed(h, keys.insert(k)) == spec_is_pressed(h, keys),
        spec_is_pressed(h, keys.remove(k)) == spec_is_pressed(h, keys),
{
}

} // verus!
