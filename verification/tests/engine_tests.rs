//! The input state engine: reload, occlusion, and the end-to-end scenario.

use keylayers::binding::{Binding, BoundSwitch};
use keylayers::engine::InputState;
use keylayers::key::{KeyAlias, KeyCode, KeySet};
use keylayers::combo::Combo;
use keylayers::layer::Layer;
use keylayers::layout::Layout;
use keylayers::{InputUpdate, SwitchSlot};

fn s(x: &str) -> String {
    x.to_owned()
}

fn binding(aliases: Vec<KeyAlias>, target: Option<&str>) -> Binding {
    Binding { input: KeySet::new(aliases), display: None, layer: target.map(s) }
}

fn bound(slots: Vec<(SwitchSlot, Binding)>) -> BoundSwitch {
    BoundSwitch { slots }
}

fn layer(switches: Vec<(&str, BoundSwitch)>) -> Layer {
    Layer::new(switches.into_iter().map(|(id, b)| (s(id), b)).collect()).unwrap()
}

fn layout(default: &str, layers: Vec<(&str, Layer)>) -> Layout {
    Layout::new(
        Vec::new(),
        Vec::new(),
        s(default),
        layers.into_iter().map(|(id, l)| (s(id), l)).collect(),
    )
    .unwrap()
}

#[test]
fn reload_emits_exactly_one_activation_of_the_default_layer() {
    let mut engine = InputState::new();
    let lo = layout(
        "base",
        vec![(
            "base",
            layer(vec![(
                "a",
                bound(vec![(SwitchSlot::Tap, binding(vec![KeyAlias::KeyA], None))]),
            )]),
        )],
    );
    let updates = engine.update_bindings(&lo);
    assert_eq!(updates, vec![InputUpdate::LayerActivate(s("base"))]);
}

#[test]
fn press_and_release_of_a_bound_switch() {
    let mut engine = InputState::new();
    let lo = layout(
        "base",
        vec![(
            "base",
            layer(vec![(
                "a",
                bound(vec![(SwitchSlot::Tap, binding(vec![KeyAlias::KeyA], None))]),
            )]),
        )],
    );
    engine.update_bindings(&lo);
    let updates = engine.handle(KeyCode::KeyA, true);
    assert_eq!(updates, vec![InputUpdate::SwitchPressed(s("a"), Some(SwitchSlot::Tap))]);
    assert_eq!(engine.active_switches, vec![s("a")]);
    let updates = engine.handle(KeyCode::KeyA, false);
    assert_eq!(updates, vec![InputUpdate::SwitchReleased(s("a"))]);
    assert!(engine.active_switches.is_empty());
}

#[test]
fn unbound_key_emits_nothing() {
    let mut engine = InputState::new();
    let lo = layout(
        "base",
        vec![(
            "base",
            layer(vec![(
                "a",
                bound(vec![(SwitchSlot::Tap, binding(vec![KeyAlias::KeyA], None))]),
            )]),
        )],
    );
    engine.update_bindings(&lo);
    let updates = engine.handle(KeyCode::KeyQ, true);
    assert!(updates.is_empty());
}

/// Layers ordered [base, nav, sym]; `nav` binds switch x and `sym` does
/// not.  With nav and sym active, pressing x's hotkey triggers nav's
/// binding: sym does not own x and thus does not block it, while nav,
/// higher than base and owning x, wins.  The slots tell the bindings
/// apart: base binds x at Tap, nav at Hold.
#[test]
fn occlusion_highest_active_owner_wins() {
    let mut engine = InputState::new();
    let lo = layout(
        "base",
        vec![
            (
                "base",
                layer(vec![(
                    "x",
                    bound(vec![(SwitchSlot::Tap, binding(vec![KeyAlias::KeyX], None))]),
                )]),
            ),
            (
                "nav",
                layer(vec![(
                    "x",
                    bound(vec![(SwitchSlot::Hold, binding(vec![KeyAlias::KeyX], None))]),
                )]),
            ),
            (
                "sym",
                layer(vec![(
                    "y",
                    bound(vec![(SwitchSlot::Tap, binding(vec![KeyAlias::KeyY], None))]),
                )]),
            ),
        ],
    );
    engine.update_bindings(&lo);
    engine.active_layers = vec![s("base"), s("nav"), s("sym")];
    let updates = engine.handle(KeyCode::KeyX, true);
    assert_eq!(updates, vec![InputUpdate::SwitchPressed(s("x"), Some(SwitchSlot::Hold))]);
}

/// The same layers, but sym also binds switch x: with all active, x
/// resolves to sym's binding, and nav's binding for x never fires.  Sym's
/// binding declares a target layer, so its activation marks it out.
#[test]
fn occlusion_higher_binder_blocks_lower_owner() {
    let mut engine = InputState::new();
    let lo = layout(
        "base",
        vec![
            (
                "base",
                layer(vec![(
                    "x",
                    bound(vec![(SwitchSlot::Tap, binding(vec![KeyAlias::KeyX], None))]),
                )]),
            ),
            (
                "nav",
                layer(vec![(
                    "x",
                    bound(vec![(SwitchSlot::Hold, binding(vec![KeyAlias::KeyX], None))]),
                )]),
            ),
            (
                "sym",
                layer(vec![(
                    "x",
                    bound(vec![(SwitchSlot::Tap, binding(vec![KeyAlias::KeyX], Some("extra")))]),
                )]),
            ),
        ],
    );
    engine.update_bindings(&lo);
    engine.active_layers = vec![s("base"), s("nav"), s("sym")];
    let updates = engine.handle(KeyCode::KeyX, true);
    assert_eq!(
        updates,
        vec![
            InputUpdate::LayerActivate(s("extra")),
            InputUpdate::SwitchPressed(s("x"), Some(SwitchSlot::Tap)),
        ]
    );
}

/// A combo is owned by no layer: its explicit layer restriction alone
/// filters it.
#[test]
fn combo_triggers_only_on_a_restricted_layer() {
    let mut engine = InputState::new();
    let base = layer(vec![(
        "a",
        bound(vec![(SwitchSlot::Tap, binding(vec![KeyAlias::KeyA], None))]),
    )]);
    let nav = layer(vec![]);
    let combo = Combo {
        id: s("boom"),
        layers: vec![s("nav")],
        input: KeySet::new(vec![KeyAlias::KeyB]),
        input_layer: None,
    };
    let lo = Layout::new(
        Vec::new(),
        vec![combo],
        s("base"),
        vec![(s("base"), base), (s("nav"), nav)],
    )
    .unwrap();
    engine.update_bindings(&lo);
    let updates = engine.handle(KeyCode::KeyB, true);
    assert!(updates.is_empty());
    engine.handle(KeyCode::KeyB, false);
    engine.active_layers = vec![s("base"), s("nav")];
    let updates = engine.handle(KeyCode::KeyB, true);
    assert_eq!(updates, vec![InputUpdate::SwitchPressed(s("boom"), None)]);
}

/// A chord of modifier aliases plus one key folds into a single hotkey
/// requiring all of them held.
#[test]
fn chord_binding_requires_all_keys_held() {
    let mut engine = InputState::new();
    let lo = layout(
        "base",
        vec![(
            "base",
            layer(vec![(
                "copy",
                bound(vec![(
                    SwitchSlot::Tap,
                    binding(vec![KeyAlias::ControlLeft, KeyAlias::KeyC], None),
                )]),
            )]),
        )],
    );
    engine.update_bindings(&lo);
    // The primary key alone does not satisfy the chord.
    let updates = engine.handle(KeyCode::KeyC, true);
    assert!(updates.is_empty());
    // Adding the modifier completes it.
    let updates = engine.handle(KeyCode::ControlLeft, true);
    assert_eq!(updates, vec![InputUpdate::SwitchPressed(s("copy"), Some(SwitchSlot::Tap))]);
    // Dropping the modifier releases it.
    let updates = engine.handle(KeyCode::ControlLeft, false);
    assert_eq!(updates, vec![InputUpdate::SwitchReleased(s("copy"))]);
}

/// A combo that declares a target layer activates it while held.
#[test]
fn combo_with_target_layer_activates_it() {
    let mut engine = InputState::new();
    let base = layer(vec![]);
    let combo = Combo {
        id: s("boost"),
        layers: Vec::new(),
        input: KeySet::new(vec![KeyAlias::KeyB]),
        input_layer: Some(s("turbo")),
    };
    let lo = Layout::new(Vec::new(), vec![combo], s("base"), vec![(s("base"), base)]).unwrap();
    engine.update_bindings(&lo);
    let updates = engine.handle(KeyCode::KeyB, true);
    assert_eq!(
        updates,
        vec![InputUpdate::LayerActivate(s("turbo")), InputUpdate::SwitchPressed(s("boost"), None)]
    );
    assert!(engine.active_layers.contains(&s("turbo")));
    let updates = engine.handle(KeyCode::KeyB, false);
    assert_eq!(
        updates,
        vec![InputUpdate::LayerDeactivate(s("turbo")), InputUpdate::SwitchReleased(s("boost"))]
    );
    assert!(!engine.active_layers.contains(&s("turbo")));
}

/// The default layer is always active and cannot be deactivated by a
/// hotkey: releasing a binding whose target layer is the default layer
/// emits no deactivation and leaves it active.
#[test]
fn default_layer_cannot_be_deactivated_by_a_hotkey() {
    let mut engine = InputState::new();
    let lo = layout(
        "base",
        vec![(
            "base",
            layer(vec![(
                "boost",
                bound(vec![(SwitchSlot::Hold, binding(vec![KeyAlias::KeyB], Some("base")))]),
            )]),
        )],
    );
    engine.update_bindings(&lo);
    let updates = engine.handle(KeyCode::KeyB, true);
    assert_eq!(
        updates,
        vec![
            InputUpdate::LayerActivate(s("base")),
            InputUpdate::SwitchPressed(s("boost"), Some(SwitchSlot::Hold)),
        ]
    );
    assert_eq!(engine.active_layers, vec![s("base")]);
    let updates = engine.handle(KeyCode::KeyB, false);
    assert_eq!(updates, vec![InputUpdate::SwitchReleased(s("boost"))]);
    assert_eq!(engine.active_layers, vec![s("base")]);
}

/// A configuration reload mid-sequence never releases a switch of the old
/// layout and always re-activates the new default layer.
#[test]
fn reload_mid_sequence_is_atomic() {
    let mut engine = InputState::new();
    let lo1 = layout(
        "base",
        vec![(
            "base",
            layer(vec![(
                "a",
                bound(vec![(SwitchSlot::Tap, binding(vec![KeyAlias::KeyA], None))]),
            )]),
        )],
    );
    engine.update_bindings(&lo1);
    engine.handle(KeyCode::KeyA, true);
    assert_eq!(engine.active_switches, vec![s("a")]);
    let lo2 = layout(
        "main",
        vec![(
            "main",
            layer(vec![(
                "z",
                bound(vec![(SwitchSlot::Tap, binding(vec![KeyAlias::KeyZ], None))]),
            )]),
        )],
    );
    let updates = engine.update_bindings(&lo2);
    assert_eq!(updates, vec![InputUpdate::LayerActivate(s("main"))]);
    assert!(updates.iter().all(|u| !matches!(u, InputUpdate::SwitchReleased(_))));
    assert!(engine.active_switches.is_empty());
    assert_eq!(engine.active_layers, vec![s("main")]);
    assert!(engine.pressed_keys.is_empty());
    let updates = engine.handle(KeyCode::KeyA, false);
    assert!(updates.is_empty());
}

/// The end-to-end scenario: a base layer binds switch "a" to the letter
/// alias, and holding shift activates a layer that rebinds "a" (the same
/// chord, displayed differently).  The full faithful update streams are
/// asserted, including the shifted-variant press that fires while the
/// shift layer is not yet active.
#[test]
fn end_to_end_shift_layer_scenario() {
    let mut engine = InputState::new();
    let base = layer(vec![
        (
            "a",
            bound(vec![(
                SwitchSlot::Tap,
                Binding {
                    input: KeySet::new(vec![KeyAlias::KeyA]),
                    display: Some(keylayers::binding::BindingDisplay::Text(s("A"))),
                    layer: None,
                },
            )]),
        ),
        (
            "shiftkey",
            bound(vec![(
                SwitchSlot::Hold,
                binding(vec![KeyAlias::ShiftLeft], Some("shift")),
            )]),
        ),
    ]);
    let shift = layer(vec![(
        "a",
        bound(vec![(
            SwitchSlot::Tap,
            Binding {
                input: KeySet::new(vec![KeyAlias::KeyA]),
                display: Some(keylayers::binding::BindingDisplay::Text(s("B"))),
                layer: None,
            },
        )]),
    )]);
    let lo = layout("base", vec![("base", base), ("shift", shift)]);
    let updates = engine.update_bindings(&lo);
    assert_eq!(updates, vec![InputUpdate::LayerActivate(s("base"))]);

    // Press A: the bare hotkey matches; only base's binding is eligible.
    let updates = engine.handle(KeyCode::KeyA, true);
    assert_eq!(updates, vec![InputUpdate::SwitchPressed(s("a"), Some(SwitchSlot::Tap))]);

    // Press Shift while A is held: the shifted variant of base's binding
    // fires first (the shift layer is not active yet when eligibility is
    // decided), then the shift layer activates.
    let updates = engine.handle(KeyCode::ShiftLeft, true);
    assert_eq!(
        updates,
        vec![
            InputUpdate::SwitchPressed(s("a"), Some(SwitchSlot::Tap)),
            InputUpdate::LayerActivate(s("shift")),
            InputUpdate::SwitchPressed(s("shiftkey"), Some(SwitchSlot::Hold)),
        ]
    );
    assert!(engine.active_layers.contains(&s("shift")));

    // Release A: both of its hotkeys flip back, and a release fires for
    // every binding they carry.
    let updates = engine.handle(KeyCode::KeyA, false);
    assert_eq!(
        updates,
        vec![
            InputUpdate::SwitchReleased(s("a")),
            InputUpdate::SwitchReleased(s("a")),
            InputUpdate::SwitchReleased(s("a")),
            InputUpdate::SwitchReleased(s("a")),
        ]
    );

    // Press A again with the shift layer active: the shift layer now owns
    // "a" and blocks base's binding; its own binding (displaying "B")
    // fires.
    let updates = engine.handle(KeyCode::KeyA, true);
    assert_eq!(updates, vec![InputUpdate::SwitchPressed(s("a"), Some(SwitchSlot::Tap))]);

    // Release Shift: the shifted variant releases, then the shift layer
    // deactivates.
    let updates = engine.handle(KeyCode::ShiftLeft, false);
    assert_eq!(
        updates,
        vec![
            InputUpdate::SwitchReleased(s("a")),
            InputUpdate::SwitchReleased(s("a")),
            InputUpdate::LayerDeactivate(s("shift")),
            InputUpdate::SwitchReleased(s("shiftkey")),
        ]
    );
    assert!(!engine.active_layers.contains(&s("shift")));
}
