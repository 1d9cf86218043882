//! Combos: bindings not owned by any single layer, optionally restricted to
//! a set of layers.

use vstd::prelude::*;

use crate::key::KeySet;

verus! {

/// A combo binding.  The drawing metadata of a combo (its screen position,
/// label, and link paths) is presentation data kept by the drawing layer;
/// the engine reads only the identifier, the layer restriction, and the
/// input chord.
#[derive(Clone, Debug, PartialEq)]
pub struct Combo {
    /// Unique identifier within the layout.
    pub id: String,
    /// The layers this combo is shown and allowed on; empty means all.
    pub layers: Vec<String>,
    /// The chord that triggers the combo.
    pub input: KeySet,
    /// The layer the combo activates while held, if any.
    pub input_layer: Option<String>,
}

} // verus!
