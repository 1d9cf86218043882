//! A key-binding resolution engine.
//!
//! The library ingests physical key transitions, matches them against
//! configured multi-key hotkeys, resolves which logical switch or combo each
//! hotkey activates given a stack of overlapping input layers, and emits an
//! ordered stream of semantic input-state changes.  A separate consumer
//! applies a minimum-visible-duration debounce to release events for display.

use vstd::prelude::*;

pub mod alias;
pub mod binding;
pub mod combo;
pub mod debounce;
pub mod display;
pub mod engine;
pub mod hotkey;
pub mod key;
pub mod layer;
pub mod layout;
pub mod logrec;
pub mod switch;
pub mod tables;
pub mod util;
pub mod window;

verus! {

/// The two binding roles a single switch can expose simultaneously.
#[derive(Clone, Copy, Debug, PartialEq, Eq, Structural, Hash)]
pub enum SwitchSlot {
    Tap,
    Hold,
}

/// One semantic input-state change, emitted by the engine in resolution order.
#[derive(Clone, Debug, PartialEq)]
pub enum InputUpdate {
    LayerActivate(String),
    LayerDeactivate(String),
    SwitchPressed(String, Option<SwitchSlot>),
    SwitchReleased(String),
}

/// The spec-level shape of an [`InputUpdate`], with identifiers as character
/// sequences.
#[verifier::ext_equal]
pub enum UpdateView {
    LayerActivate(Seq<char>),
    LayerDeactivate(Seq<char>),
    SwitchPressed(Seq<char>, Option<SwitchSlot>),
    SwitchReleased(Seq<char>),
}

impl View for InputUpdate {
    type V = UpdateView;

    open spec fn view(&self) -> UpdateView {
        match self {
            InputUpdate::LayerActivate(l) => UpdateView::LayerActivate(l@),
            InputUpdate::LayerDeactivate(l) => UpdateView::LayerDeactivate(l@),
            InputUpdate::SwitchPressed(s, slot) => UpdateView::SwitchPressed(s@, *slot),
            InputUpdate::SwitchReleased(s) => UpdateView::SwitchReleased(s@),
        }
    }
}

} // verus!
