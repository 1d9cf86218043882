//! The layout: switches, combos, and the ordered stack of layers.

use vstd::prelude::*;

use crate::combo::Combo;
use crate::layer::Layer;
use crate::switch::Switch;
use crate::util::{assoc_keys, assoc_lookup, no_dup, str_seq, string_keys_unique};

verus! {

/// Why a layout was rejected.
#[derive(Clone, Copy, Debug, PartialEq, Eq, Structural)]
pub enum InvalidLayout {
    /// Two switches share an identifier.
    DuplicateSwitchId,
    /// Two layers share an identifier.
    DuplicateLayerId,
    /// A layer binds the same switch twice.
    DuplicateBoundSwitch,
    /// A bound switch binds the same slot twice.
    DuplicateSlot,
    /// A layer is not well-formed.
    InvalidLayer,
    /// The default layer is not among the layers.
    UnknownDefaultLayer,
}

/// A full layout.  The default layer is always a member of the layer order;
/// a higher index in the order means higher priority.
#[derive(Clone, Debug, PartialEq)]
pub struct Layout {
    pub switches: Vec<(String, Switch)>,
    pub combos: Vec<Combo>,
    pub default_layer: String,
    pub layer_order: Vec<String>,
    pub layers: Vec<(String, Layer)>,
}

impl Layout {
    /// Identifiers are unique, the layer order lists exactly the layers,
    /// the default layer is among them, and each layer is well-formed.
    pub open spec fn wf(&self) -> bool {
        &&& no_dup(assoc_keys(self.switches@))
        &&& no_dup(assoc_keys(self.layers@))
        &&& str_seq(self.layer_order@) == assoc_keys(self.layers@)
        &&& assoc_keys(self.layers@).contains(self.default_layer@)
        &&& forall|i: int| 0 <= i < self.layers@.len() ==> self.layers@[i].1.wf()
    }

    /// Builds a layout, deriving the layer order from the listed order of
    /// the layers.  Succeeds exactly when identifiers are unique, every
    /// layer is well-formed, and the default layer is among the layers; the
    /// previous configuration is untouched on failure.
    pub fn new(
        switches: Vec<(String, Switch)>,
        combos: Vec<Combo>,
        default_layer: String,
        layers: Vec<(String, Layer)>,
    ) -> (r: Result<Layout, InvalidLayout>)
        ensures
            r is Ok <==> {
                &&& no_dup(assoc_keys(switches@))
                &&& no_dup(assoc_keys(layers@))
                &&& forall|i: int| 0 <= i < layers@.len() ==> layers@[i].1.wf()
                &&& assoc_keys(layers@).contains(default_layer@)
            },
            match r {
                Ok(l) => {
                    &&& l.wf()
                    &&& l.switches@ == switches@
                    &&& l.combos@ == combos@
                    &&& l.default_layer@ == default_layer@
                    &&& l.layers@ == layers@
                    &&& str_seq(l.layer_order@) == assoc_keys(layers@)
                },
                Err(e) => match e {
                    InvalidLayout::DuplicateSwitchId => !no_dup(assoc_keys(switches@)),
                    InvalidLayout::DuplicateLayerId => !no_dup(assoc_keys(layers@)),
                    InvalidLayout::InvalidLayer => exists|i: int|
                        0 <= i < layers@.len() && !layers@[i].1.wf(),
                    InvalidLayout::UnknownDefaultLayer => !assoc_keys(layers@).contains(
                        default_layer@,
                    ),
                    _ => false,
                },
            },
    {
        if !string_keys_unique(&switches) {
            return Err(InvalidLayout::DuplicateSwitchId);
        }
        if !string_keys_unique(&layers) {
            return Err(InvalidLayout::DuplicateLayerId);
        }
        let mut i: usize = 0;
        while i < layers.len()
            invariant
                0 <= i <= layers@.len(),
                forall|j: int| 0 <= j < i ==> layers@[j].1.wf(),
            decreases layers@.len() - i,
        {
            if !layers[i].1.check() {
                return Err(InvalidLayout::InvalidLayer);
            }
            i = i + 1;
        }
        let mut layer_order: Vec<String> = Vec::new();
        let mut k: usize = 0;
        while k < layers.len()
            invariant
                0 <= k <= layers@.len(),
                layer_order@.len() == k,
                forall|j: int| 0 <= j < k ==> layer_order@[j]@ == layers@[j].0@,
            decreases layers@.len() - k,
        {
            layer_order.push(layers[k].0.clone());
            k = k + 1;
        }
        assert(str_seq(layer_order@) =~= assoc_keys(layers@));
        let mut found = false;
        let mut n: usize = 0;
        while n < layer_order.len()
            invariant
                0 <= n <= layer_order@.len(),
                str_seq(layer_order@) == assoc_keys(layers@),
                found <==> exists|j: int| 0 <= j < n && str_seq(layer_order@)[j] == default_layer@,
            decreases layer_order@.len() - n,
        {
            assert(str_seq(layer_order@)[n as int] == layer_order@[n as int]@);
            if crate::util::str_eq(layer_order[n].as_str(), default_layer.as_str()) {
                found = true;
            }
            n = n + 1;
        }
        if !found {
            assert(!assoc_keys(layers@).contains(default_layer@));
            return Err(InvalidLayout::UnknownDefaultLayer);
        }
        Ok(Layout { switches, combos, default_layer, layer_order, layers })
    }

    /// The identifier of the always-active default layer.
    pub fn default_layer(&self) -> (r: &String)
        ensures
            r@ == self.default_layer@,
    {
        &self.default_layer
    }

    /// The switches of the layout, with their drawing data.
    pub fn switches(&self) -> (r: &Vec<(String, Switch)>)
        ensures
            r@ == self.switches@,
    {
        &self.switches
    }

    /// The combos of the layout.
    pub fn combos(&self) -> (r: &Vec<Combo>)
        ensures
            r@ == self.combos@,
    {
        &self.combos
    }

    /// The layer with the given identifier, if any.
    pub fn get_layer(&self, id: &str) -> (r: Option<&Layer>)
        ensures
            match r {
                Some(l) => assoc_lookup(self.layers@, id@) == Some(*l),
                None => assoc_lookup(self.layers@, id@) is None,
            },
    {
        crate::util::assoc_get(&self.layers, id)
    }

    /// The layer identifiers, lowest priority first.
    pub fn layer_order(&self) -> (r: &Vec<String>)
        ensures
            r@ == self.layer_order@,
    {
        &self.layer_order
    }

    /// The layers of the layout, in priority order.
    pub fn layers(&self) -> (r: &Vec<(String, Layer)>)
        ensures
            r@ == self.layers@,
    {
        &self.layers
    }
}

} // verus!
