//! Display resolution: which layer's binding a switch shows, and which
//! combos are shown, given the active layers.
//!
//! Unlike triggering, display uses no occlusion: the highest-priority
//! active layer that binds a switch simply wins.

use vstd::prelude::*;

use crate::binding::BoundSwitch;
use crate::combo::Combo;
use crate::engine::spec_combo_allowed;
use crate::layer::Layer;
use crate::layout::Layout;
use crate::util::{assoc_lookup, contains_string, str_seq};

verus! {

/// The display scan: walk the layer order from highest to lowest priority
/// and show the first active layer that binds the switch.
pub open spec fn spec_visible_scan(
    order: Seq<Seq<char>>,
    active: Set<Seq<char>>,
    layers: Seq<(String, Layer)>,
    switch_id: Seq<char>,
) -> Option<(Seq<char>, BoundSwitch)>
    decreases order.len(),
{
    if order.len() == 0 {
        None
    } else {
        let top = order.last();
        if active.contains(top) {
            match assoc_lookup(layers, top) {
                Some(layer) => match assoc_lookup(layer.bindings@, switch_id) {
                    Some(b) => Some((top, b)),
                    None => spec_visible_scan(order.drop_last(), active, layers, switch_id),
                },
                None => spec_visible_scan(order.drop_last(), active, layers, switch_id),
            }
        } else {
            spec_visible_scan(order.drop_last(), active, layers, switch_id)
        }
    }
}

/// The layer and binding a switch displays: the highest-priority active
/// layer that binds it, or nothing when no active layer does.
pub fn visible_binding<'a>(
    layout: &'a Layout,
    active_layers: &Vec<String>,
    switch_id: &String,
) -> (r: Option<(&'a String, &'a BoundSwitch)>)
    ensures
        match r {
            Some(p) => spec_visible_scan(
                str_seq(layout.layer_order@),
                str_seq(active_layers@).to_set(),
                layout.layers@,
                switch_id@,
            ) == Some((p.0@, *p.1)),
            None => spec_visible_scan(
                str_seq(layout.layer_order@),
                str_seq(active_layers@).to_set(),
                layout.layers@,
                switch_id@,
            ) is None,
        },
{
    let ghost order = str_seq(layout.layer_order@);
    let ghost active = str_seq(active_layers@).to_set();
    assert(order.take(order.len() as int) =~= order);
    let mut idx: usize = layout.layer_order.len();
    while idx > 0
        invariant
            0 <= idx <= order.len(),
            order == str_seq(layout.layer_order@),
            active == str_seq(active_layers@).to_set(),
            spec_visible_scan(order, active, layout.layers@, switch_id@) == spec_visible_scan(
                order.take(idx as int),
                active,
                layout.layers@,
                switch_id@,
            ),
        decreases idx,
    {
        idx = idx - 1;
        let ghost scanned = order.take(idx + 1);
        assert(scanned.last() == order[idx as int]);
        assert(scanned.drop_last() =~= order.take(idx as int));
        assert(order[idx as int] == layout.layer_order@[idx as int]@);
        let layer_id = &layout.layer_order[idx];
        if contains_string(active_layers, layer_id) {
            assert(active.contains(order[idx as int]));
            match layout.get_layer(layer_id.as_str()) {
                Some(layer) => {
                    match layer.get_binding(switch_id.as_str()) {
                        Some(bindings) => {
                            return Some((layer_id, bindings));
                        },
                        None => {},
                    }
                },
                None => {},
            }
        }
    }
    assert(order.take(0) =~= Seq::<Seq<char>>::empty());
    None
}

/// Whether a combo is shown: its layer restriction is empty or names an
/// active layer.
pub fn combo_visible(combo: &Combo, active_layers: &Vec<String>) -> (r: bool)
    ensures
        r == spec_combo_allowed(str_seq(combo.layers@), str_seq(active_layers@).to_set()),
{
    if combo.layers.len() == 0 {
        return true;
    }
    let mut i: usize = 0;
    while i < combo.layers.len()
        invariant
            0 <= i <= combo.layers@.len(),
            forall|j: int|
                0 <= j < i ==> !str_seq(active_layers@).to_set().contains(
                    str_seq(combo.layers@)[j],
                ),
        decreases combo.layers@.len() - i,
    {
        assert(str_seq(combo.layers@)[i as int] == combo.layers@[i as int]@);
        if contains_string(active_layers, &combo.layers[i]) {
            assert(str_seq(active_layers@).to_set().contains(str_seq(combo.layers@)[i as int]));
            return true;
        }
        i = i + 1;
    }
    false
}

} // verus!
