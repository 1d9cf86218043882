//! Layout validation, lookups, display resolution, and serialized names.

use keylayers::binding::{Binding, BindingDisplay, BoundSwitch};
use keylayers::combo::Combo;
use keylayers::display::{combo_visible, visible_binding};
use keylayers::key::{KeyAlias, KeySet};
use keylayers::layer::Layer;
use keylayers::layout::{InvalidLayout, Layout};
use keylayers::switch::{Side, Switch};
use keylayers::window::{WindowAnchor, WindowPosition};
use keylayers::SwitchSlot;

fn s(x: &str) -> String {
    x.to_owned()
}

fn binding(aliases: Vec<KeyAlias>) -> Binding {
    Binding { input: KeySet::new(aliases), display: None, layer: None }
}

fn bound_tap(aliases: Vec<KeyAlias>) -> BoundSwitch {
    BoundSwitch { slots: vec![(SwitchSlot::Tap, binding(aliases))] }
}

fn simple_layer(switch: &str, aliases: Vec<KeyAlias>) -> Layer {
    Layer::new(vec![(s(switch), bound_tap(aliases))]).unwrap()
}

#[test]
fn layout_accepts_a_well_formed_configuration() {
    let lo = Layout::new(
        vec![(s("a"), Switch { side: Some(Side::Left) })],
        Vec::new(),
        s("base"),
        vec![(s("base"), simple_layer("a", vec![KeyAlias::KeyA]))],
    )
    .unwrap();
    assert_eq!(lo.default_layer(), &s("base"));
    assert_eq!(lo.layer_order(), &vec![s("base")]);
    assert!(lo.get_layer("base").is_some());
    assert!(lo.get_layer("nav").is_none());
}

#[test]
fn layout_rejects_a_duplicate_switch_id() {
    let r = Layout::new(
        vec![(s("a"), Switch { side: None }), (s("a"), Switch { side: None })],
        Vec::new(),
        s("base"),
        vec![(s("base"), simple_layer("a", vec![KeyAlias::KeyA]))],
    );
    assert_eq!(r.unwrap_err(), InvalidLayout::DuplicateSwitchId);
}

#[test]
fn layout_rejects_a_duplicate_layer_id() {
    let r = Layout::new(
        Vec::new(),
        Vec::new(),
        s("base"),
        vec![
            (s("base"), simple_layer("a", vec![KeyAlias::KeyA])),
            (s("base"), simple_layer("b", vec![KeyAlias::KeyB])),
        ],
    );
    assert_eq!(r.unwrap_err(), InvalidLayout::DuplicateLayerId);
}

#[test]
fn layout_rejects_an_unknown_default_layer() {
    let r = Layout::new(
        Vec::new(),
        Vec::new(),
        s("missing"),
        vec![(s("base"), simple_layer("a", vec![KeyAlias::KeyA]))],
    );
    assert_eq!(r.unwrap_err(), InvalidLayout::UnknownDefaultLayer);
}

#[test]
fn layer_rejects_a_duplicate_bound_switch() {
    let r = Layer::new(vec![
        (s("a"), bound_tap(vec![KeyAlias::KeyA])),
        (s("a"), bound_tap(vec![KeyAlias::KeyB])),
    ]);
    assert!(matches!(r.unwrap_err(), InvalidLayout::DuplicateBoundSwitch));
}

#[test]
fn layer_rejects_a_duplicate_slot() {
    let r = Layer::new(vec![(
        s("a"),
        BoundSwitch {
            slots: vec![
                (SwitchSlot::Tap, binding(vec![KeyAlias::KeyA])),
                (SwitchSlot::Tap, binding(vec![KeyAlias::KeyB])),
            ],
        },
    )]);
    assert!(matches!(r.unwrap_err(), InvalidLayout::DuplicateSlot));
}

#[test]
fn layout_rejects_an_ill_formed_layer_built_by_hand() {
    let bad = Layer {
        bindings: vec![
            (s("a"), bound_tap(vec![KeyAlias::KeyA])),
            (s("a"), bound_tap(vec![KeyAlias::KeyB])),
        ],
    };
    let r = Layout::new(Vec::new(), Vec::new(), s("base"), vec![(s("base"), bad)]);
    assert_eq!(r.unwrap_err(), InvalidLayout::InvalidLayer);
}

#[test]
fn layer_lookup_finds_the_bound_switch() {
    let l = simple_layer("a", vec![KeyAlias::KeyA]);
    assert!(l.get_binding("a").is_some());
    assert!(l.get_binding("b").is_none());
    assert_eq!(l.bindings().len(), 1);
}

#[test]
fn display_shows_the_highest_active_layer_binding() {
    let lo = Layout::new(
        Vec::new(),
        Vec::new(),
        s("base"),
        vec![
            (s("base"), simple_layer("a", vec![KeyAlias::KeyA])),
            (s("nav"), simple_layer("a", vec![KeyAlias::KeyB])),
        ],
    )
    .unwrap();
    // Only the base layer is active: its binding shows.
    let r = visible_binding(&lo, &vec![s("base")], &s("a"));
    let (layer_id, _) = r.unwrap();
    assert_eq!(layer_id, &s("base"));
    // With nav active too, nav's binding shows.
    let r = visible_binding(&lo, &vec![s("base"), s("nav")], &s("a"));
    let (layer_id, _) = r.unwrap();
    assert_eq!(layer_id, &s("nav"));
    // An unbound switch shows nothing.
    assert!(visible_binding(&lo, &vec![s("base")], &s("z")).is_none());
}

#[test]
fn combo_visibility_follows_its_layer_restriction() {
    let unrestricted = Combo {
        id: s("c1"),
        layers: Vec::new(),
        input: KeySet::new(vec![KeyAlias::KeyC]),
        input_layer: None,
    };
    let restricted = Combo {
        id: s("c2"),
        layers: vec![s("nav")],
        input: KeySet::new(vec![KeyAlias::KeyD]),
        input_layer: None,
    };
    assert!(combo_visible(&unrestricted, &vec![s("base")]));
    assert!(!combo_visible(&restricted, &vec![s("base")]));
    assert!(combo_visible(&restricted, &vec![s("base"), s("nav")]));
}

#[test]
fn display_kinds_classify_and_reject() {
    let d = BindingDisplay::from_kind(None, s("A")).unwrap();
    assert_eq!(d, BindingDisplay::Text(s("A")));
    let d = BindingDisplay::from_kind(Some(&s("IconBootstrap")), s("gear")).unwrap();
    assert_eq!(d, BindingDisplay::IconBootstrap(s("gear")));
    let d = BindingDisplay::from_kind(Some(&s("IconCustom")), s("glyph")).unwrap();
    assert_eq!(d, BindingDisplay::IconCustom(s("glyph")));
    let e = BindingDisplay::from_kind(Some(&s("IconOther")), s("x")).unwrap_err();
    assert_eq!(e.0, s("IconOther"));
}

#[test]
fn side_names_parse_and_print() {
    assert_eq!(Side::parse("left").unwrap(), Side::Left);
    assert_eq!(Side::parse("right").unwrap(), Side::Right);
    assert_eq!(Side::parse("Left").unwrap(), Side::Left);
    assert_eq!(Side::parse("RIGHT").unwrap(), Side::Right);
    assert_eq!(Side::parse("rIgHt").unwrap(), Side::Right);
    assert_eq!(Side::Left.name(), s("left"));
    assert_eq!(Side::Right.name(), s("right"));
    let e = Side::parse("middle").unwrap_err();
    assert_eq!(e.0, s("middle"));
}

#[test]
fn anchor_names_parse_and_print() {
    assert_eq!(WindowAnchor::parse("TopLeft").unwrap(), WindowAnchor::TopLeft);
    assert_eq!(WindowAnchor::parse("CenterRight").unwrap(), WindowAnchor::CenterRight);
    assert_eq!(WindowAnchor::BottomCenter.name(), s("BottomCenter"));
    let e = WindowAnchor::parse("Middle").unwrap_err();
    assert_eq!(e.0, s("Middle"));
    assert_eq!(WindowAnchor::default(), WindowAnchor::Center);
}

#[test]
fn anchor_name_round_trips_for_every_anchor() {
    let anchors = vec![
        WindowAnchor::TopLeft,
        WindowAnchor::TopCenter,
        WindowAnchor::TopRight,
        WindowAnchor::BottomLeft,
        WindowAnchor::BottomCenter,
        WindowAnchor::BottomRight,
        WindowAnchor::CenterLeft,
        WindowAnchor::Center,
        WindowAnchor::CenterRight,
    ];
    for a in anchors {
        assert_eq!(WindowAnchor::parse(a.name().as_str()).unwrap(), a);
    }
}

#[test]
fn window_position_default_is_centered() {
    let p = WindowPosition::default();
    assert_eq!(p.monitor, 0);
    assert_eq!(p.anchor, WindowAnchor::Center);
    assert_eq!(p.offset, (0, 0));
}
