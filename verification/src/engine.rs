//! The input state engine: the concurrency core's state and transitions.
//!
//! The engine owns the pressed-key set, the pressed-hotkey set, the
//! active-layer set, and the active-switch set, together with the two
//! binding tables derived from the layout.  It consumes raw key
//! transitions and produces ordered update events; the caller guards it
//! with one exclusive lock and emits the returned updates after release.

use vstd::prelude::*;

use crate::alias::{alias_hotkeys, spec_alias_hotkeys};
use crate::hotkey::{spec_is_pressed, spec_relevant_keys, HotKey};
use crate::key::KeyCode;
use crate::tables::{
    get_binding_table, get_key_table, hotkey_binding_entries, key_hotkey_entries, mm_insert,
    BindingView, InputBinding,
};
use crate::util::{
    assoc_map, contains_hotkey, contains_string, no_dup, no_dup_str, set_insert_code,
    set_insert_hotkey, set_insert_string, set_remove_code, set_remove_hotkey, set_remove_string,
    str_seq,
};
use crate::binding::{Binding, BoundSwitch};
use crate::combo::Combo;
use crate::layer::Layer;
use crate::layout::Layout;
use crate::{InputUpdate, SwitchSlot, UpdateView};

verus! {

/// The engine-private input state.  Constructed empty at startup, reset in
/// full on every configuration reload, and mutated incrementally on every
/// physical key transition.
pub struct InputState {
    pub layer_order: Vec<String>,
    pub layer_switches: Vec<(String, Vec<String>)>,
    pub key_to_relevant_hotkeys: multimap::MultiMap<KeyCode, HotKey>,
    pub hotkey_bindings: multimap::MultiMap<HotKey, InputBinding>,
    pub pressed_keys: Vec<KeyCode>,
    pub pressed_hotkeys: Vec<HotKey>,
    pub default_layer: String,
    pub active_layers: Vec<String>,
    pub active_switches: Vec<String>,
}

impl InputState {
    /// The layer identifiers in priority order, lowest first.
    pub open spec fn order(&self) -> Seq<Seq<char>> {
        str_seq(self.layer_order@)
    }

    /// The switches each layer binds.
    pub open spec fn layer_switch_map(&self) -> Map<Seq<char>, Set<Seq<char>>> {
        Map::new(
            |k: Seq<char>| assoc_map(self.layer_switches@).contains_key(k),
            |k: Seq<char>| str_seq(assoc_map(self.layer_switches@)[k]@).to_set(),
        )
    }

    /// The currently held physical keys.
    pub open spec fn keys_set(&self) -> Set<KeyCode> {
        self.pressed_keys@.to_set()
    }

    /// The currently pressed hotkeys.
    pub open spec fn hotkeys_set(&self) -> Set<HotKey> {
        self.pressed_hotkeys@.to_set()
    }

    /// The currently active layers.
    pub open spec fn active(&self) -> Set<Seq<char>> {
        str_seq(self.active_layers@).to_set()
    }

    /// The currently active switches.
    pub open spec fn switches_set(&self) -> Set<Seq<char>> {
        str_seq(self.active_switches@).to_set()
    }

    /// The key-to-hotkey table.
    pub open spec fn key_table(&self) -> Map<KeyCode, Seq<HotKey>> {
        key_hotkey_entries(self.key_to_relevant_hotkeys)
    }

    /// The hotkey-to-binding table.
    pub open spec fn binding_table(&self) -> Map<HotKey, Seq<BindingView>> {
        hotkey_binding_entries(self.hotkey_bindings)
    }

    /// The duplicate-free representation invariant of the four sets.
    pub open spec fn wf(&self) -> bool {
        &&& no_dup(self.pressed_keys@)
        &&& no_dup(self.pressed_hotkeys@)
        &&& no_dup_str(self.active_layers@)
        &&& no_dup_str(self.active_switches@)
    }

    /// An empty engine: no tables, nothing pressed, nothing active.
    pub fn new() -> (r: InputState)
        ensures
            r.wf(),
            r.order().len() == 0,
            r.layer_switches@.len() == 0,
            r.key_table() == Map::<KeyCode, Seq<HotKey>>::empty(),
            r.binding_table() == Map::<HotKey, Seq<BindingView>>::empty(),
            r.keys_set() == Set::<KeyCode>::empty(),
            r.hotkeys_set() == Set::<HotKey>::empty(),
            r.default_layer@ == Seq::<char>::empty(),
            r.active() == Set::<Seq<char>>::empty(),
            r.switches_set() == Set::<Seq<char>>::empty(),
    {
        let r = InputState {
            layer_order: Vec::new(),
            layer_switches: Vec::new(),
            key_to_relevant_hotkeys: crate::tables::new_key_table(),
            hotkey_bindings: crate::tables::new_binding_table(),
            pressed_keys: Vec::new(),
            pressed_hotkeys: Vec::new(),
            default_layer: String::new(),
            active_layers: Vec::new(),
            active_switches: Vec::new(),
        };
        assert(r.keys_set() =~= Set::<KeyCode>::empty());
        assert(r.hotkeys_set() =~= Set::<HotKey>::empty());
        assert(r.active() =~= Set::<Seq<char>>::empty());
        assert(r.switches_set() =~= Set::<Seq<char>>::empty());
        r
    }
}

/// A combo binding is eligible when its explicit layer restriction is empty
/// or names an active layer.
pub open spec fn spec_combo_allowed(filter: Seq<Seq<char>>, active: Set<Seq<char>>) -> bool {
    filter.len() == 0 || exists|i: int| 0 <= i < filter.len() && active.contains(filter[i])
}

/// The priority scan: walk the layer order from highest to lowest
/// priority, skipping inactive layers.  The first active layer that owns
/// the binding allows it; before that, any active layer that binds the
/// same switch blocks it; a binding whose owner is never reached cannot
/// trigger.
pub open spec fn spec_scan_layers(
    order: Seq<Seq<char>>,
    active: Set<Seq<char>>,
    lsw: Map<Seq<char>, Set<Seq<char>>>,
    owners: Seq<Seq<char>>,
    switch_id: Seq<char>,
) -> bool
    decreases order.len(),
{
    if order.len() == 0 {
        false
    } else {
        let top = order.last();
        if active.contains(top) {
            if owners.contains(top) {
                true
            } else if lsw.contains_key(top) && lsw[top].contains(switch_id) {
                false
            } else {
                spec_scan_layers(order.drop_last(), active, lsw, owners, switch_id)
            }
        } else {
            spec_scan_layers(order.drop_last(), active, lsw, owners, switch_id)
        }
    }
}

/// The occlusion rule: a layer binding passes the priority scan; a combo
/// bypasses ownership and is only filtered by its layer restriction.
pub open spec fn spec_can_trigger(
    order: Seq<Seq<char>>,
    active: Set<Seq<char>>,
    lsw: Map<Seq<char>, Set<Seq<char>>>,
    b: BindingView,
) -> bool {
    if b.layer_ids.len() == 0 {
        spec_combo_allowed(b.layer_filter, active)
    } else {
        spec_scan_layers(order, active, lsw, b.layer_ids, b.switch_id)
    }
}

impl InputState {
    /// Whether a binding context is eligible to trigger under the current
    /// active layers, by the occlusion rule.
    pub fn can_trigger(&self, binding: &InputBinding) -> (r: bool)
        ensures
            r == spec_can_trigger(self.order(), self.active(), self.layer_switch_map(), binding@),
    {
        if binding.layer_ids.len() == 0 {
            if binding.layer_filter.len() == 0 {
                return true;
            }
            let mut i: usize = 0;
            while i < binding.layer_filter.len()
                invariant
                    0 <= i <= binding.layer_filter@.len(),
                    binding.layer_ids@.len() == 0,
                    forall|j: int|
                        0 <= j < i ==> !str_seq(self.active_layers@).to_set().contains(
                            str_seq(binding.layer_filter@)[j],
                        ),
                decreases binding.layer_filter@.len() - i,
            {
                assert(str_seq(binding.layer_filter@)[i as int] == binding.layer_filter@[i as int]@);
                if contains_string(&self.active_layers, &binding.layer_filter[i]) {
                    assert(self.active().contains(str_seq(binding.layer_filter@)[i as int]));
                    assert(spec_combo_allowed(str_seq(binding.layer_filter@), self.active()));
                    return true;
                }
                i = i + 1;
            }
            return false;
        }
        let ghost order = self.order();
        let ghost active = self.active();
        let ghost lsw = self.layer_switch_map();
        let ghost owners = str_seq(binding.layer_ids@);
        let ghost switch_id = binding.switch_id@;
        assert(order.take(order.len() as int) =~= order);
        let mut idx: usize = self.layer_order.len();
        while idx > 0
            invariant
                0 <= idx <= order.len(),
                binding.layer_ids@.len() > 0,
                order == self.order(),
                active == self.active(),
                lsw == self.layer_switch_map(),
                owners == str_seq(binding.layer_ids@),
                switch_id == binding.switch_id@,
                spec_scan_layers(order, active, lsw, owners, switch_id) == spec_scan_layers(
                    order.take(idx as int),
                    active,
                    lsw,
                    owners,
                    switch_id,
                ),
            decreases idx,
        {
            idx = idx - 1;
            let ghost scanned = order.take(idx + 1);
            assert(scanned.last() == order[idx as int]);
            assert(scanned.drop_last() =~= order.take(idx as int));
            assert(order[idx as int] == self.layer_order@[idx as int]@);
            let layer_id = &self.layer_order[idx];
            if contains_string(&self.active_layers, layer_id) {
                assert(active.contains(order[idx as int]));
                if contains_string(&binding.layer_ids, layer_id) {
                    return true;
                }
                match crate::util::assoc_get(&self.layer_switches, layer_id.as_str()) {
                    Some(bound_switches) => {
                        if contains_string(bound_switches, &binding.switch_id) {
                            assert(lsw.contains_key(order[idx as int]));
                            assert(lsw[order[idx as int]].contains(switch_id));
                            return false;
                        }
                        assert(!(lsw.contains_key(order[idx as int]) && lsw[order[idx as int]].contains(
                            switch_id,
                        )));
                    },
                    None => {
                        assert(!lsw.contains_key(order[idx as int]));
                    },
                }
            }
        }
        assert(order.take(0) =~= Seq::<Seq<char>>::empty());
        false
    }
}


/// Registering one hotkey under each of its relevant physical keys.
pub open spec fn spec_add_codes(
    kt: Map<KeyCode, Seq<HotKey>>,
    codes: Seq<KeyCode>,
    h: HotKey,
) -> Map<KeyCode, Seq<HotKey>>
    decreases codes.len(),
{
    if codes.len() == 0 {
        kt
    } else {
        spec_add_codes(mm_insert(kt, codes[0], h), codes.drop_first(), h)
    }
}

/// Registering a binding context under each of its hotkeys, and each
/// hotkey under its relevant keys, in resolution order.
pub open spec fn spec_add_hotkeys(
    kt: Map<KeyCode, Seq<HotKey>>,
    bt: Map<HotKey, Seq<BindingView>>,
    hotkeys: Seq<HotKey>,
    b: BindingView,
) -> (Map<KeyCode, Seq<HotKey>>, Map<HotKey, Seq<BindingView>>)
    decreases hotkeys.len(),
{
    if hotkeys.len() == 0 {
        (kt, bt)
    } else {
        let h = hotkeys[0];
        let kt1 = spec_add_codes(kt, spec_relevant_keys(h), h);
        let bt1 = mm_insert(bt, h, b);
        spec_add_hotkeys(kt1, bt1, hotkeys.drop_first(), b)
    }
}

/// The table growth one binding context causes: its chord is resolved to
/// hotkeys, and each is registered in both tables.
pub open spec fn spec_insert_binding_tables(
    kt: Map<KeyCode, Seq<HotKey>>,
    bt: Map<HotKey, Seq<BindingView>>,
    b: BindingView,
) -> (Map<KeyCode, Seq<HotKey>>, Map<HotKey, Seq<BindingView>>) {
    spec_add_hotkeys(kt, bt, spec_alias_hotkeys(b.key), b)
}

impl InputState {
    /// Registers one binding context: resolves its chord to hotkeys and
    /// records each in the key table and the binding table.
    fn insert_binding(&mut self, input_binding: InputBinding)
        ensures
            (final(self).key_table(), final(self).binding_table()) == spec_insert_binding_tables(
                old(self).key_table(),
                old(self).binding_table(),
                input_binding@,
            ),
            final(self).layer_order@ == old(self).layer_order@,
            final(self).layer_switches@ == old(self).layer_switches@,
            final(self).pressed_keys@ == old(self).pressed_keys@,
            final(self).pressed_hotkeys@ == old(self).pressed_hotkeys@,
            final(self).default_layer@ == old(self).default_layer@,
            final(self).active_layers@ == old(self).active_layers@,
            final(self).active_switches@ == old(self).active_switches@,
    {
        let ghost bv = input_binding@;
        let ghost kt0 = self.key_table();
        let ghost bt0 = self.binding_table();
        let hotkeys = alias_hotkeys(&input_binding.key);
        let ghost hks = hotkeys@;
        assert(hks.subrange(0, hks.len() as int) =~= hks);
        let mut hi: usize = 0;
        while hi < hotkeys.len()
            invariant
                0 <= hi <= hks.len(),
                hotkeys@ == hks,
                input_binding@ == bv,
                spec_add_hotkeys(kt0, bt0, hks, bv) == spec_add_hotkeys(
                    self.key_table(),
                    self.binding_table(),
                    hks.subrange(hi as int, hks.len() as int),
                    bv,
                ),
                self.layer_order@ == old(self).layer_order@,
                self.layer_switches@ == old(self).layer_switches@,
                self.pressed_keys@ == old(self).pressed_keys@,
                self.pressed_hotkeys@ == old(self).pressed_hotkeys@,
                self.default_layer@ == old(self).default_layer@,
                self.active_layers@ == old(self).active_layers@,
                self.active_switches@ == old(self).active_switches@,
            decreases hks.len() - hi,
        {
            let ghost rest = hks.subrange(hi as int, hks.len() as int);
            assert(rest.drop_first() == hks.subrange(hi + 1, hks.len() as int));
            let h = hotkeys[hi];
            let relevant = h.relevant_keys();
            let ghost rel = relevant@;
            let ghost kth = self.key_table();
            let ghost bth = self.binding_table();
            assert(rel.subrange(0, rel.len() as int) =~= rel);
            let mut ci: usize = 0;
            while ci < relevant.len()
                invariant
                    0 <= ci <= rel.len(),
                    relevant@ == rel,
                    rel == spec_relevant_keys(h),
                    spec_add_codes(kth, rel, h) == spec_add_codes(
                        self.key_table(),
                        rel.subrange(ci as int, rel.len() as int),
                        h,
                    ),
                    self.binding_table() == bth,
                    self.layer_order@ == old(self).layer_order@,
                    self.layer_switches@ == old(self).layer_switches@,
                    self.pressed_keys@ == old(self).pressed_keys@,
                    self.pressed_hotkeys@ == old(self).pressed_hotkeys@,
                    self.default_layer@ == old(self).default_layer@,
                    self.active_layers@ == old(self).active_layers@,
                    self.active_switches@ == old(self).active_switches@,
                decreases rel.len() - ci,
            {
                let ghost crest = rel.subrange(ci as int, rel.len() as int);
                assert(crest.drop_first() == rel.subrange(ci + 1, rel.len() as int));
                crate::tables::insert_key_table(&mut self.key_to_relevant_hotkeys, relevant[ci], h);
                ci = ci + 1;
            }
            crate::tables::insert_binding_table(&mut self.hotkey_bindings, h, input_binding.clone());
            hi = hi + 1;
        }
        assert(hks.subrange(hks.len() as int, hks.len() as int).len() == 0);
    }
}


/// The binding context of one switch slot of one layer.
pub open spec fn spec_slot_binding_view(
    layer_id: Seq<char>,
    switch_id: Seq<char>,
    slot: SwitchSlot,
    b: Binding,
) -> BindingView {
    BindingView {
        layer_ids: seq![layer_id],
        switch_id,
        slot: Some(slot),
        target_layer: match b.layer {
            Some(t) => Some(t@),
            None => None,
        },
        layer_filter: Seq::empty(),
        key: b.input@,
    }
}

/// The binding context of a combo: owned by no layer, filtered by its
/// explicit layer restriction.
pub open spec fn spec_combo_binding_view(c: Combo) -> BindingView {
    BindingView {
        layer_ids: Seq::empty(),
        switch_id: c.id@,
        slot: None,
        target_layer: match c.input_layer {
            Some(t) => Some(t@),
            None => None,
        },
        layer_filter: str_seq(c.layers@),
        key: c.input@,
    }
}

/// Folding the slots of one bound switch into the tables.
pub open spec fn spec_add_slots(
    kt: Map<KeyCode, Seq<HotKey>>,
    bt: Map<HotKey, Seq<BindingView>>,
    layer_id: Seq<char>,
    switch_id: Seq<char>,
    slots: Seq<(SwitchSlot, Binding)>,
) -> (Map<KeyCode, Seq<HotKey>>, Map<HotKey, Seq<BindingView>>)
    decreases slots.len(),
{
    if slots.len() == 0 {
        (kt, bt)
    } else {
        let r = spec_insert_binding_tables(
            kt,
            bt,
            spec_slot_binding_view(layer_id, switch_id, slots[0].0, slots[0].1),
        );
        spec_add_slots(r.0, r.1, layer_id, switch_id, slots.drop_first())
    }
}

/// Folding the bound switches of one layer into the tables.
pub open spec fn spec_add_switches(
    kt: Map<KeyCode, Seq<HotKey>>,
    bt: Map<HotKey, Seq<BindingView>>,
    layer_id: Seq<char>,
    switches: Seq<(String, BoundSwitch)>,
) -> (Map<KeyCode, Seq<HotKey>>, Map<HotKey, Seq<BindingView>>)
    decreases switches.len(),
{
    if switches.len() == 0 {
        (kt, bt)
    } else {
        let r = spec_add_slots(kt, bt, layer_id, switches[0].0@, switches[0].1.slots@);
        spec_add_switches(r.0, r.1, layer_id, switches.drop_first())
    }
}

/// Folding the layers of a layout into the tables.
pub open spec fn spec_add_layers(
    kt: Map<KeyCode, Seq<HotKey>>,
    bt: Map<HotKey, Seq<BindingView>>,
    layers: Seq<(String, Layer)>,
) -> (Map<KeyCode, Seq<HotKey>>, Map<HotKey, Seq<BindingView>>)
    decreases layers.len(),
{
    if layers.len() == 0 {
        (kt, bt)
    } else {
        let r = spec_add_switches(kt, bt, layers[0].0@, layers[0].1.bindings@);
        spec_add_layers(r.0, r.1, layers.drop_first())
    }
}

/// Folding the combos of a layout into the tables.
pub open spec fn spec_add_combos(
    kt: Map<KeyCode, Seq<HotKey>>,
    bt: Map<HotKey, Seq<BindingView>>,
    combos: Seq<Combo>,
) -> (Map<KeyCode, Seq<HotKey>>, Map<HotKey, Seq<BindingView>>)
    decreases combos.len(),
{
    if combos.len() == 0 {
        (kt, bt)
    } else {
        let r = spec_insert_binding_tables(kt, bt, spec_combo_binding_view(combos[0]));
        spec_add_combos(r.0, r.1, combos.drop_first())
    }
}

/// The tables a layout builds from empty: every layer binding, then every
/// combo, in listed order.
pub open spec fn spec_layout_tables(layout: Layout) -> (
    Map<KeyCode, Seq<HotKey>>,
    Map<HotKey, Seq<BindingView>>,
) {
    let r = spec_add_layers(
        Map::<KeyCode, Seq<HotKey>>::empty(),
        Map::<HotKey, Seq<BindingView>>::empty(),
        layout.layers@,
    );
    spec_add_combos(r.0, r.1, layout.combos@)
}


impl InputState {
    /// Registers every layer binding and every combo of a layout in the
    /// tables, in listed order.
    fn insert_hotkeys(&mut self, layout: &Layout)
        ensures
            (final(self).key_table(), final(self).binding_table()) == ({
                let r = spec_add_layers(
                    old(self).key_table(),
                    old(self).binding_table(),
                    layout.layers@,
                );
                spec_add_combos(r.0, r.1, layout.combos@)
            }),
            final(self).layer_order@ == old(self).layer_order@,
            final(self).layer_switches@ == old(self).layer_switches@,
            final(self).pressed_keys@ == old(self).pressed_keys@,
            final(self).pressed_hotkeys@ == old(self).pressed_hotkeys@,
            final(self).default_layer@ == old(self).default_layer@,
            final(self).active_layers@ == old(self).active_layers@,
            final(self).active_switches@ == old(self).active_switches@,
    {
        let ghost kt0 = self.key_table();
        let ghost bt0 = self.binding_table();
        let ghost lays = layout.layers@;
        assert(lays.subrange(0, lays.len() as int) =~= lays);
        let mut li: usize = 0;
        while li < layout.layers.len()
            invariant
                0 <= li <= lays.len(),
                layout.layers@ == lays,
                spec_add_layers(kt0, bt0, lays) == spec_add_layers(
                    self.key_table(),
                    self.binding_table(),
                    lays.subrange(li as int, lays.len() as int),
                ),
                self.layer_order@ == old(self).layer_order@,
                self.layer_switches@ == old(self).layer_switches@,
                self.pressed_keys@ == old(self).pressed_keys@,
                self.pressed_hotkeys@ == old(self).pressed_hotkeys@,
                self.default_layer@ == old(self).default_layer@,
                self.active_layers@ == old(self).active_layers@,
                self.active_switches@ == old(self).active_switches@,
            decreases lays.len() - li,
        {
            let ghost lrest = lays.subrange(li as int, lays.len() as int);
            assert(lrest.drop_first() == lays.subrange(li + 1, lays.len() as int));
            let ghost lid = lays[li as int].0@;
            let ghost sws = lays[li as int].1.bindings@;
            let ghost ktl = self.key_table();
            let ghost btl = self.binding_table();
            assert(sws.subrange(0, sws.len() as int) =~= sws);
            let mut si: usize = 0;
            while si < layout.layers[li].1.bindings.len()
                invariant
                    0 <= si <= sws.len(),
                    0 <= li < lays.len(),
                    layout.layers@ == lays,
                    lid == lays[li as int].0@,
                    sws == lays[li as int].1.bindings@,
                    spec_add_switches(ktl, btl, lid, sws) == spec_add_switches(
                        self.key_table(),
                        self.binding_table(),
                        lid,
                        sws.subrange(si as int, sws.len() as int),
                    ),
                    self.layer_order@ == old(self).layer_order@,
                    self.layer_switches@ == old(self).layer_switches@,
                    self.pressed_keys@ == old(self).pressed_keys@,
                    self.pressed_hotkeys@ == old(self).pressed_hotkeys@,
                    self.default_layer@ == old(self).default_layer@,
                    self.active_layers@ == old(self).active_layers@,
                    self.active_switches@ == old(self).active_switches@,
                decreases sws.len() - si,
            {
                let ghost srest = sws.subrange(si as int, sws.len() as int);
                assert(srest.drop_first() == sws.subrange(si + 1, sws.len() as int));
                let ghost swid = sws[si as int].0@;
                let ghost slots = sws[si as int].1.slots@;
                let ghost kts = self.key_table();
                let ghost bts = self.binding_table();
                assert(slots.subrange(0, slots.len() as int) =~= slots);
                let mut bi: usize = 0;
                while bi < layout.layers[li].1.bindings[si].1.slots.len()
                    invariant
                        0 <= bi <= slots.len(),
                        0 <= li < lays.len(),
                        0 <= si < sws.len(),
                        layout.layers@ == lays,
                        lid == lays[li as int].0@,
                        sws == lays[li as int].1.bindings@,
                        swid == sws[si as int].0@,
                        slots == sws[si as int].1.slots@,
                        spec_add_slots(kts, bts, lid, swid, slots) == spec_add_slots(
                            self.key_table(),
                            self.binding_table(),
                            lid,
                            swid,
                            slots.subrange(bi as int, slots.len() as int),
                        ),
                        self.layer_order@ == old(self).layer_order@,
                        self.layer_switches@ == old(self).layer_switches@,
                        self.pressed_keys@ == old(self).pressed_keys@,
                        self.pressed_hotkeys@ == old(self).pressed_hotkeys@,
                        self.default_layer@ == old(self).default_layer@,
                        self.active_layers@ == old(self).active_layers@,
                        self.active_switches@ == old(self).active_switches@,
                    decreases slots.len() - bi,
                {
                    let ghost brest = slots.subrange(bi as int, slots.len() as int);
                    assert(brest.drop_first() == slots.subrange(bi + 1, slots.len() as int));
                    let layer_pair = &layout.layers[li];
                    let switch_pair = &layer_pair.1.bindings[si];
                    let slot_pair = &switch_pair.1.slots[bi];
                    let mut lids: Vec<String> = Vec::new();
                    lids.push(layer_pair.0.clone());
                    let b = InputBinding {
                        layer_ids: lids,
                        switch_id: switch_pair.0.clone(),
                        slot: Some(slot_pair.0),
                        target_layer: crate::util::clone_string_opt(&slot_pair.1.layer),
                        layer_filter: Vec::new(),
                        key: crate::key::KeySet { aliases: slot_pair.1.input.aliases.clone() },
                    };
                    assert(b@ =~= spec_slot_binding_view(
                        lid,
                        swid,
                        slots[bi as int].0,
                        slots[bi as int].1,
                    )) by {
                        assert(str_seq(b.layer_ids@) =~= seq![lid]);
                        assert(b.key@ =~= slots[bi as int].1.input@);
                    }
                    self.insert_binding(b);
                    bi = bi + 1;
                }
                si = si + 1;
            }
            li = li + 1;
        }
        let ghost kt1 = self.key_table();
        let ghost bt1 = self.binding_table();
        assert((kt1, bt1) == spec_add_layers(kt0, bt0, lays));
        let ghost combos = layout.combos@;
        assert(combos.subrange(0, combos.len() as int) =~= combos);
        let mut ci: usize = 0;
        while ci < layout.combos.len()
            invariant
                0 <= ci <= combos.len(),
                layout.combos@ == combos,
                spec_add_combos(kt1, bt1, combos) == spec_add_combos(
                    self.key_table(),
                    self.binding_table(),
                    combos.subrange(ci as int, combos.len() as int),
                ),
                self.layer_order@ == old(self).layer_order@,
                self.layer_switches@ == old(self).layer_switches@,
                self.pressed_keys@ == old(self).pressed_keys@,
                self.pressed_hotkeys@ == old(self).pressed_hotkeys@,
                self.default_layer@ == old(self).default_layer@,
                self.active_layers@ == old(self).active_layers@,
                self.active_switches@ == old(self).active_switches@,
            decreases combos.len() - ci,
        {
            let ghost crest = combos.subrange(ci as int, combos.len() as int);
            assert(crest.drop_first() == combos.subrange(ci + 1, combos.len() as int));
            let combo = &layout.combos[ci];
            let b = InputBinding {
                layer_ids: Vec::new(),
                switch_id: combo.id.clone(),
                slot: None,
                target_layer: crate::util::clone_string_opt(&combo.input_layer),
                layer_filter: crate::util::clone_string_vec(&combo.layers),
                key: crate::key::KeySet { aliases: combo.input.aliases.clone() },
            };
            assert(b@ =~= spec_combo_binding_view(combos[ci as int])) by {
                assert(str_seq(b.layer_ids@) =~= Seq::<Seq<char>>::empty());
                assert(b.key@ =~= combos[ci as int].input@);
            }
            self.insert_binding(b);
            ci = ci + 1;
        }
    }
}


/// The views of a sequence of updates.
pub open spec fn upd_views(s: Seq<InputUpdate>) -> Seq<UpdateView> {
    s.map_values(|u: InputUpdate| u@)
}

impl InputState {
    /// Replaces every derived table from a freshly loaded layout and resets
    /// the input state: the default layer becomes the only active layer, no
    /// switch is active, nothing is pressed, and both tables are rebuilt
    /// from scratch so that no stale entry survives.  Returns the bootstrap
    /// update stream: exactly one activation of the new default layer.
    pub fn update_bindings(&mut self, layout: &Layout) -> (updates: Vec<InputUpdate>)
        ensures
            final(self).wf(),
            final(self).default_layer@ == layout.default_layer@,
            final(self).active() == Set::<Seq<char>>::empty().insert(layout.default_layer@),
            final(self).switches_set() == Set::<Seq<char>>::empty(),
            final(self).keys_set() == Set::<KeyCode>::empty(),
            final(self).hotkeys_set() == Set::<HotKey>::empty(),
            final(self).order() == str_seq(layout.layer_order@),
            final(self).layer_switches@.len() == layout.layers@.len(),
            forall|i: int|
                0 <= i < layout.layers@.len() ==> (#[trigger] final(self).layer_switches@[i]).0@
                    == layout.layers@[i].0@ && str_seq(final(self).layer_switches@[i].1@)
                    == crate::util::assoc_keys(layout.layers@[i].1.bindings@),
            (final(self).key_table(), final(self).binding_table()) == spec_layout_tables(*layout),
            upd_views(updates@) == seq![UpdateView::LayerActivate(layout.default_layer@)],
    {
        self.default_layer = layout.default_layer.clone();
        self.active_layers = Vec::new();
        self.active_layers.push(layout.default_layer.clone());
        assert(str_seq(self.active_layers@) =~= seq![layout.default_layer@]);
        assert(str_seq(self.active_layers@).to_set() =~= Set::<Seq<char>>::empty().insert(
            layout.default_layer@,
        )) by {
            assert(str_seq(self.active_layers@).contains(layout.default_layer@)) by {
                assert(str_seq(self.active_layers@)[0] == layout.default_layer@);
            }
            assert forall|x: Seq<char>|
                str_seq(self.active_layers@).to_set().contains(x) implies Set::<Seq<
                char,
            >>::empty().insert(layout.default_layer@).contains(x) by {
                let i = choose|i: int|
                    0 <= i < str_seq(self.active_layers@).len() && str_seq(self.active_layers@)[i]
                        == x;
                assert(x == layout.default_layer@);
            }
        }
        self.active_switches = Vec::new();
        assert(str_seq(self.active_switches@) =~= Seq::<Seq<char>>::empty());
        assert(str_seq(self.active_switches@).to_set() =~= Set::<Seq<char>>::empty());
        self.layer_order = crate::util::clone_string_vec(&layout.layer_order);
        self.layer_switches = Vec::new();
        let ghost lays = layout.layers@;
        let mut li: usize = 0;
        while li < layout.layers.len()
            invariant
                0 <= li <= lays.len(),
                layout.layers@ == lays,
                self.layer_switches@.len() == li,
                forall|i: int|
                    0 <= i < li ==> (#[trigger] self.layer_switches@[i]).0@ == lays[i].0@
                        && str_seq(self.layer_switches@[i].1@) == crate::util::assoc_keys(
                        lays[i].1.bindings@,
                    ),
                self.default_layer@ == layout.default_layer@,
                self.active_layers@.len() == 1,
                self.active_layers@[0]@ == layout.default_layer@,
                self.active_switches@.len() == 0,
                str_seq(self.layer_order@) == str_seq(layout.layer_order@),
            decreases lays.len() - li,
        {
            let layer_pair = &layout.layers[li];
            let mut ids: Vec<String> = Vec::new();
            let ghost bnds = lays[li as int].1.bindings@;
            let mut bi: usize = 0;
            while bi < layer_pair.1.bindings.len()
                invariant
                    0 <= bi <= bnds.len(),
                    0 <= li < lays.len(),
                    layout.layers@ == lays,
                    bnds == lays[li as int].1.bindings@,
                    layer_pair.1.bindings@ == bnds,
                    ids@.len() == bi,
                    forall|j: int| 0 <= j < bi ==> ids@[j]@ == bnds[j].0@,
                decreases bnds.len() - bi,
            {
                ids.push(layer_pair.1.bindings[bi].0.clone());
                bi = bi + 1;
            }
            assert(str_seq(ids@) =~= crate::util::assoc_keys(bnds));
            self.layer_switches.push((layer_pair.0.clone(), ids));
            li = li + 1;
        }
        assert(str_seq(self.active_layers@) =~= seq![layout.default_layer@]);
        assert(str_seq(self.active_layers@).to_set() =~= Set::<Seq<char>>::empty().insert(
            layout.default_layer@,
        )) by {
            assert(str_seq(self.active_layers@).contains(layout.default_layer@)) by {
                assert(str_seq(self.active_layers@)[0] == layout.default_layer@);
            }
            assert forall|x: Seq<char>|
                str_seq(self.active_layers@).to_set().contains(x) implies Set::<Seq<
                char,
            >>::empty().insert(layout.default_layer@).contains(x) by {
                let i = choose|i: int|
                    0 <= i < str_seq(self.active_layers@).len() && str_seq(self.active_layers@)[i]
                        == x;
                assert(x == layout.default_layer@);
            }
        }
        assert(str_seq(self.active_switches@) =~= Seq::<Seq<char>>::empty());
        assert(str_seq(self.active_switches@).to_set() =~= Set::<Seq<char>>::empty());
        crate::tables::clear_key_table(&mut self.key_to_relevant_hotkeys);
        crate::tables::clear_binding_table(&mut self.hotkey_bindings);
        self.pressed_keys = Vec::new();
        self.pressed_hotkeys = Vec::new();
        assert(self.pressed_keys@.to_set() =~= Set::<KeyCode>::empty());
        assert(self.pressed_hotkeys@.to_set() =~= Set::<HotKey>::empty());
        self.insert_hotkeys(layout);
        let mut updates: Vec<InputUpdate> = Vec::new();
        updates.push(InputUpdate::LayerActivate(layout.default_layer.clone()));
        assert(upd_views(updates@) =~= seq![UpdateView::LayerActivate(layout.default_layer@)]);
        updates
    }
}

/// A configuration reload is atomic for consumers: the bootstrap stream it
/// returns re-activates the new default layer and never releases a switch,
/// so no release can name a switch that the new layout lacks.
pub proof fn lemma_reload_emits_no_release(updates: Seq<UpdateView>, default_layer: Seq<char>)
    requires
        updates == seq![UpdateView::LayerActivate(default_layer)],
    ensures
        forall|i: int| 0 <= i < updates.len() ==> !(#[trigger] updates[i] is SwitchReleased),
        exists|i: int|
            0 <= i < updates.len() && #[trigger] updates[i] == UpdateView::LayerActivate(
                default_layer,
            ),
{
    assert(updates[0] == UpdateView::LayerActivate(default_layer));
}


/// The held-key set after one physical transition.
pub open spec fn spec_upd_keys(keys: Set<KeyCode>, key: KeyCode, press: bool) -> Set<KeyCode> {
    if press {
        keys.insert(key)
    } else {
        keys.remove(key)
    }
}

/// The hotkeys relevant to one physical key, in table order.
pub open spec fn spec_relevant_of(kt: Map<KeyCode, Seq<HotKey>>, key: KeyCode) -> Seq<HotKey> {
    if kt.contains_key(key) {
        kt[key]
    } else {
        Seq::empty()
    }
}

/// The pressed-hotkey set after re-evaluating each relevant hotkey against
/// the new held-key set, in list order.
pub open spec fn spec_flip_set(
    relevant: Seq<HotKey>,
    keys: Set<KeyCode>,
    ph: Set<HotKey>,
) -> Set<HotKey>
    decreases relevant.len(),
{
    if relevant.len() == 0 {
        ph
    } else {
        let h = relevant[0];
        let ph1 = if spec_is_pressed(h, keys) {
            ph.insert(h)
        } else {
            ph.remove(h)
        };
        spec_flip_set(relevant.drop_first(), keys, ph1)
    }
}

/// The hotkeys whose pressed status flips, in list order; a hotkey listed
/// twice flips at most once.
pub open spec fn spec_changed(
    relevant: Seq<HotKey>,
    keys: Set<KeyCode>,
    ph: Set<HotKey>,
) -> Seq<HotKey>
    decreases relevant.len(),
{
    if relevant.len() == 0 {
        Seq::empty()
    } else {
        let h = relevant[0];
        let now = spec_is_pressed(h, keys);
        let flipped = now != ph.contains(h);
        let ph1 = if now {
            ph.insert(h)
        } else {
            ph.remove(h)
        };
        (if flipped {
            seq![h]
        } else {
            Seq::empty()
        }) + spec_changed(relevant.drop_first(), keys, ph1)
    }
}

/// The updates one binding context emits for one status flip: on an
/// eligible press, its layer activation (if any) then its switch press; on
/// a release, its layer deactivation then its switch release; an occluded
/// press emits nothing.  The default layer is always active and cannot be
/// deactivated by a hotkey, so a release whose target layer is the default
/// layer emits no deactivation.
pub open spec fn spec_binding_updates(
    b: BindingView,
    pressed: bool,
    can: bool,
    default_layer: Seq<char>,
) -> Seq<UpdateView> {
    if pressed && can {
        (match b.target_layer {
            Some(t) => seq![UpdateView::LayerActivate(t)],
            None => Seq::empty(),
        }) + seq![UpdateView::SwitchPressed(b.switch_id, b.slot)]
    } else if !pressed {
        (match b.target_layer {
            Some(t) => if t == default_layer {
                Seq::empty()
            } else {
                seq![UpdateView::LayerDeactivate(t)]
            },
            None => Seq::empty(),
        }) + seq![UpdateView::SwitchReleased(b.switch_id)]
    } else {
        Seq::empty()
    }
}

/// The updates of the binding contexts of one hotkey, in table order,
/// resolved against the pre-event active layers.
pub open spec fn spec_bindings_updates(
    bs: Seq<BindingView>,
    pressed: bool,
    order: Seq<Seq<char>>,
    active: Set<Seq<char>>,
    lsw: Map<Seq<char>, Set<Seq<char>>>,
    default_layer: Seq<char>,
) -> Seq<UpdateView>
    decreases bs.len(),
{
    if bs.len() == 0 {
        Seq::empty()
    } else {
        spec_binding_updates(
            bs[0],
            pressed,
            spec_can_trigger(order, active, lsw, bs[0]),
            default_layer,
        ) + spec_bindings_updates(bs.drop_first(), pressed, order, active, lsw, default_layer)
    }
}

/// The updates of every flipped hotkey, in flip order.
pub open spec fn spec_changed_updates(
    changed: Seq<HotKey>,
    ph2: Set<HotKey>,
    bt: Map<HotKey, Seq<BindingView>>,
    order: Seq<Seq<char>>,
    active: Set<Seq<char>>,
    lsw: Map<Seq<char>, Set<Seq<char>>>,
    default_layer: Seq<char>,
) -> Seq<UpdateView>
    decreases changed.len(),
{
    if changed.len() == 0 {
        Seq::empty()
    } else {
        let h = changed[0];
        (if bt.contains_key(h) {
            spec_bindings_updates(bt[h], ph2.contains(h), order, active, lsw, default_layer)
        } else {
            Seq::empty()
        }) + spec_changed_updates(changed.drop_first(), ph2, bt, order, active, lsw, default_layer)
    }
}

/// The active-layer set after applying an update stream in order.
pub open spec fn spec_apply_layers(us: Seq<UpdateView>, act: Set<Seq<char>>) -> Set<Seq<char>>
    decreases us.len(),
{
    if us.len() == 0 {
        act
    } else {
        let act1 = match us[0] {
            UpdateView::LayerActivate(l) => act.insert(l),
            UpdateView::LayerDeactivate(l) => act.remove(l),
            _ => act,
        };
        spec_apply_layers(us.drop_first(), act1)
    }
}

/// The active-switch set after applying an update stream in order.
pub open spec fn spec_apply_switches(us: Seq<UpdateView>, sw: Set<Seq<char>>) -> Set<Seq<char>>
    decreases us.len(),
{
    if us.len() == 0 {
        sw
    } else {
        let sw1 = match us[0] {
            UpdateView::SwitchPressed(id, _) => sw.insert(id),
            UpdateView::SwitchReleased(id) => sw.remove(id),
            _ => sw,
        };
        spec_apply_switches(us.drop_first(), sw1)
    }
}


/// Appends one update, extending the view sequence by its view.
fn push_update(updates: &mut Vec<InputUpdate>, u: InputUpdate)
    ensures
        upd_views(final(updates)@) == upd_views(old(updates)@).push(u@),
{
    let ghost pre = upd_views(updates@);
    let ghost uv = u@;
    updates.push(u);
    assert(upd_views(updates@) =~= pre.push(uv));
}

impl InputState {
    /// Handles one physical key transition: updates the held-key set,
    /// re-evaluates every hotkey relevant to the key, resolves each flipped
    /// hotkey's bindings under the occlusion rule against the pre-event
    /// active layers, applies the resulting updates in emission order, and
    /// returns them for the caller to emit after releasing its lock.
    ///
    /// The default layer is always active and cannot be deactivated by a
    /// hotkey: a release whose target layer is the default layer emits no
    /// deactivation, so the default layer, once active, stays active.
    pub fn handle(&mut self, key: KeyCode, press: bool) -> (updates: Vec<InputUpdate>)
        requires
            old(self).wf(),
        ensures
            final(self).wf(),
            final(self).layer_order@ == old(self).layer_order@,
            final(self).layer_switches@ == old(self).layer_switches@,
            final(self).default_layer@ == old(self).default_layer@,
            final(self).key_table() == old(self).key_table(),
            final(self).binding_table() == old(self).binding_table(),
            final(self).keys_set() == spec_upd_keys(old(self).keys_set(), key, press),
            final(self).hotkeys_set() == spec_flip_set(
                spec_relevant_of(old(self).key_table(), key),
                spec_upd_keys(old(self).keys_set(), key, press),
                old(self).hotkeys_set(),
            ),
            upd_views(updates@) == spec_changed_updates(
                spec_changed(
                    spec_relevant_of(old(self).key_table(), key),
                    spec_upd_keys(old(self).keys_set(), key, press),
                    old(self).hotkeys_set(),
                ),
                final(self).hotkeys_set(),
                old(self).binding_table(),
                old(self).order(),
                old(self).active(),
                old(self).layer_switch_map(),
                old(self).default_layer@,
            ),
            final(self).active() == spec_apply_layers(upd_views(updates@), old(self).active()),
            old(self).active().contains(old(self).default_layer@) ==> final(self).active().contains(
                old(self).default_layer@,
            ),
            final(self).switches_set() == spec_apply_switches(
                upd_views(updates@),
                old(self).switches_set(),
            ),
    {
        broadcast use vstd::seq::Seq::lemma_push_to_set_commute;

        let ghost keys0 = self.keys_set();
        if press {
            crate::util::set_insert_code(&mut self.pressed_keys, key);
            assert(self.pressed_keys@.to_set() =~= spec_upd_keys(keys0, key, press)) by {
                if keys0.contains(key) {
                }
            }
        } else {
            crate::util::set_remove_code(&mut self.pressed_keys, key);
        }
        let ghost nks = self.keys_set();
        assert(nks == spec_upd_keys(keys0, key, press));

        let relevant = match get_key_table(&self.key_to_relevant_hotkeys, &key) {
            Some(v) => v,
            None => Vec::new(),
        };
        let ghost rel = relevant@;
        assert(rel == spec_relevant_of(self.key_table(), key));
        assert(rel.subrange(0, rel.len() as int) =~= rel);

        let ghost ph0 = self.hotkeys_set();
        let mut changed: Vec<HotKey> = Vec::new();
        let mut i: usize = 0;
        while i < relevant.len()
            invariant
                0 <= i <= rel.len(),
                relevant@ == rel,
                no_dup(self.pressed_hotkeys@),
                no_dup(self.pressed_keys@),
                self.pressed_keys@.to_set() == nks,
                spec_flip_set(rel, nks, ph0) == spec_flip_set(
                    rel.subrange(i as int, rel.len() as int),
                    nks,
                    self.hotkeys_set(),
                ),
                spec_changed(rel, nks, ph0) == changed@ + spec_changed(
                    rel.subrange(i as int, rel.len() as int),
                    nks,
                    self.hotkeys_set(),
                ),
                self.layer_order@ == old(self).layer_order@,
                self.layer_switches@ == old(self).layer_switches@,
                self.default_layer@ == old(self).default_layer@,
                self.key_table() == old(self).key_table(),
                self.binding_table() == old(self).binding_table(),
                self.active_layers@ == old(self).active_layers@,
                self.active_switches@ == old(self).active_switches@,
            decreases rel.len() - i,
        {
            let ghost rest = rel.subrange(i as int, rel.len() as int);
            assert(rest.drop_first() == rel.subrange(i + 1, rel.len() as int));
            let ghost phi = self.hotkeys_set();
            let ghost chi = changed@;
            let h = relevant[i];
            let now_pressed = h.is_pressed(&self.pressed_keys);
            assert(now_pressed == spec_is_pressed(h, nks));
            if now_pressed {
                let added = crate::util::set_insert_hotkey(&mut self.pressed_hotkeys, h);
                if added {
                    changed.push(h);
                }
                assert(self.hotkeys_set() =~= phi.insert(h)) by {
                    broadcast use vstd::seq::Seq::lemma_push_to_set_commute;

                    if !added {
                        assert(phi.contains(h));
                    }
                }
                assert(added == (spec_is_pressed(h, nks) != phi.contains(h)));
            } else {
                let removed = crate::util::set_remove_hotkey(&mut self.pressed_hotkeys, h);
                if removed {
                    changed.push(h);
                }
                assert(self.hotkeys_set() =~= phi.remove(h));
                assert(removed == (spec_is_pressed(h, nks) != phi.contains(h)));
            }
            assert(changed@ =~= chi + (if spec_is_pressed(h, nks) != phi.contains(h) {
                seq![h]
            } else {
                Seq::empty()
            }));
            assert(spec_changed(rel, nks, ph0) == changed@ + spec_changed(
                rel.subrange(i + 1, rel.len() as int),
                nks,
                self.hotkeys_set(),
            )) by {
                assert(spec_changed(rest, nks, phi) == (if spec_is_pressed(h, nks) != phi.contains(
                    h,
                ) {
                    seq![h]
                } else {
                    Seq::empty()
                }) + spec_changed(rest.drop_first(), nks, self.hotkeys_set()));
                assert(chi + ((if spec_is_pressed(h, nks) != phi.contains(h) {
                    seq![h]
                } else {
                    Seq::empty()
                }) + spec_changed(rest.drop_first(), nks, self.hotkeys_set())) =~= changed@
                    + spec_changed(rest.drop_first(), nks, self.hotkeys_set()));
            }
            i = i + 1;
        }
        assert(rel.subrange(rel.len() as int, rel.len() as int).len() == 0);
        let ghost ph2 = self.hotkeys_set();
        assert(ph2 == spec_flip_set(rel, nks, ph0));
        let ghost ch = spec_changed(rel, nks, ph0);
        assert(ch == changed@ + Seq::<HotKey>::empty());
        assert(changed@ =~= ch);

        let ghost bt0 = self.binding_table();
        let ghost order0 = self.order();
        let ghost active0 = self.active();
        let ghost lsw0 = self.layer_switch_map();
        let ghost d0 = self.default_layer@;
        let mut updates: Vec<InputUpdate> = Vec::new();
        assert(ch.subrange(0, ch.len() as int) =~= ch);
        assert(upd_views(updates@) =~= Seq::<UpdateView>::empty());
        let mut c: usize = 0;
        while c < changed.len()
            invariant
                0 <= c <= ch.len(),
                changed@ == ch,
                no_dup(self.pressed_hotkeys@),
                no_dup(self.pressed_keys@),
                self.pressed_keys@.to_set() == nks,
                self.hotkeys_set() == ph2,
                spec_changed_updates(ch, ph2, bt0, order0, active0, lsw0, d0) == upd_views(
                    updates@,
                ) + spec_changed_updates(
                    ch.subrange(c as int, ch.len() as int),
                    ph2,
                    bt0,
                    order0,
                    active0,
                    lsw0,
                    d0,
                ),
                self.layer_order@ == old(self).layer_order@,
                self.layer_switches@ == old(self).layer_switches@,
                self.default_layer@ == old(self).default_layer@,
                d0 == self.default_layer@,
                self.key_table() == old(self).key_table(),
                self.binding_table() == bt0,
                self.active_layers@ == old(self).active_layers@,
                self.active_switches@ == old(self).active_switches@,
                order0 == self.order(),
                active0 == self.active(),
                lsw0 == self.layer_switch_map(),
            decreases ch.len() - c,
        {
            let ghost crest = ch.subrange(c as int, ch.len() as int);
            assert(crest.drop_first() == ch.subrange(c + 1, ch.len() as int));
            let h = changed[c];
            let pressed = contains_hotkey(&self.pressed_hotkeys, h);
            assert(pressed == ph2.contains(h));
            match get_binding_table(&self.hotkey_bindings, &h) {
                Some(bindings) => {
                    let ghost bs = bindings@.map_values(|b: InputBinding| b@);
                    assert(bs == bt0[h]);
                    assert(bs.subrange(0, bs.len() as int) =~= bs);
                    let ghost ups_c = upd_views(updates@);
                    let mut bi: usize = 0;
                    while bi < bindings.len()
                        invariant
                            0 <= bi <= bs.len(),
                            bindings@.map_values(|b: InputBinding| b@) == bs,
                            pressed == ph2.contains(h),
                            no_dup(self.pressed_hotkeys@),
                            no_dup(self.pressed_keys@),
                            self.pressed_keys@.to_set() == nks,
                            self.hotkeys_set() == ph2,
                            upd_views(updates@) == ups_c + spec_bindings_updates(
                                bs.subrange(0, bi as int),
                                pressed,
                                order0,
                                active0,
                                lsw0,
                                d0,
                            ),
                            spec_bindings_updates(bs, pressed, order0, active0, lsw0, d0)
                                == spec_bindings_updates(
                                bs.subrange(0, bi as int),
                                pressed,
                                order0,
                                active0,
                                lsw0,
                                d0,
                            ) + spec_bindings_updates(
                                bs.subrange(bi as int, bs.len() as int),
                                pressed,
                                order0,
                                active0,
                                lsw0,
                                d0,
                            ),
                            self.layer_order@ == old(self).layer_order@,
                            self.layer_switches@ == old(self).layer_switches@,
                            self.default_layer@ == old(self).default_layer@,
                            d0 == self.default_layer@,
                            self.key_table() == old(self).key_table(),
                            self.binding_table() == bt0,
                            self.active_layers@ == old(self).active_layers@,
                            self.active_switches@ == old(self).active_switches@,
                            order0 == self.order(),
                            active0 == self.active(),
                            lsw0 == self.layer_switch_map(),
                        decreases bs.len() - bi,
                    {
                        let ghost brest = bs.subrange(bi as int, bs.len() as int);
                        assert(brest.drop_first() == bs.subrange(bi + 1, bs.len() as int));
                        assert(brest[0] == bs[bi as int]);
                        assert(bs[bi as int] == bindings@[bi as int]@);
                        let ghost ups_b = upd_views(updates@);
                        let b = &bindings[bi];
                        let ghost can = spec_can_trigger(order0, active0, lsw0, b@);
                        if pressed {
                            if self.can_trigger(b) {
                                match &b.target_layer {
                                    Some(t) => {
                                        push_update(
                                            &mut updates,
                                            InputUpdate::LayerActivate(t.clone()),
                                        );
                                    },
                                    None => {},
                                }
                                push_update(
                                    &mut updates,
                                    InputUpdate::SwitchPressed(b.switch_id.clone(), b.slot),
                                );
                                assert(upd_views(updates@) =~= ups_b + spec_binding_updates(
                                    bs[bi as int],
                                    pressed,
                                    can,
                                    d0,
                                ));
                            } else {
                                assert(upd_views(updates@) =~= ups_b + spec_binding_updates(
                                    bs[bi as int],
                                    pressed,
                                    can,
                                    d0,
                                ));
                            }
                        } else {
                            match &b.target_layer {
                                Some(t) => {
                                    if !crate::util::str_eq(
                                        t.as_str(),
                                        self.default_layer.as_str(),
                                    ) {
                                        push_update(
                                            &mut updates,
                                            InputUpdate::LayerDeactivate(t.clone()),
                                        );
                                    }
                                },
                                None => {},
                            }
                            push_update(
                                &mut updates,
                                InputUpdate::SwitchReleased(b.switch_id.clone()),
                            );
                            assert(upd_views(updates@) =~= ups_b + spec_binding_updates(
                                bs[bi as int],
                                pressed,
                                can,
                                d0,
                            ));
                        }
                        proof {
                            assert(bs.subrange(0, bi + 1).drop_last() =~= bs.subrange(
                                0,
                                bi as int,
                            ));
                            lemma_bindings_updates_snoc(
                                bs,
                                bi as int,
                                pressed,
                                order0,
                                active0,
                                lsw0,
                                d0,
                            );
                        }
                        bi = bi + 1;
                    }
                    assert(bs.subrange(0, bs.len() as int) =~= bs);
                    assert(bs.subrange(bs.len() as int, bs.len() as int).len() == 0);
                    assert(upd_views(updates@) == ups_c + spec_bindings_updates(
                        bs,
                        pressed,
                        order0,
                        active0,
                        lsw0,
                        d0,
                    ));
                },
                None => {
                    assert(!bt0.contains_key(h));
                },
            }
            c = c + 1;
        }
        assert(ch.subrange(ch.len() as int, ch.len() as int).len() == 0);
        let ghost ups = upd_views(updates@);
        assert(ups == spec_changed_updates(ch, ph2, bt0, order0, active0, lsw0, d0));

        assert(ups.subrange(0, ups.len() as int) =~= ups);
        let ghost act0 = self.active();
        let ghost sw0 = self.switches_set();
        let mut u: usize = 0;
        while u < updates.len()
            invariant
                0 <= u <= ups.len(),
                upd_views(updates@) == ups,
                updates@.len() == ups.len(),
                no_dup(self.pressed_hotkeys@),
                no_dup(self.pressed_keys@),
                no_dup_str(self.active_layers@),
                no_dup_str(self.active_switches@),
                self.pressed_keys@.to_set() == nks,
                self.hotkeys_set() == ph2,
                spec_apply_layers(ups, act0) == spec_apply_layers(
                    ups.subrange(u as int, ups.len() as int),
                    self.active(),
                ),
                spec_apply_switches(ups, sw0) == spec_apply_switches(
                    ups.subrange(u as int, ups.len() as int),
                    self.switches_set(),
                ),
                self.layer_order@ == old(self).layer_order@,
                self.layer_switches@ == old(self).layer_switches@,
                self.default_layer@ == old(self).default_layer@,
                self.key_table() == old(self).key_table(),
                self.binding_table() == bt0,
            decreases ups.len() - u,
        {
            let ghost urest = ups.subrange(u as int, ups.len() as int);
            assert(urest.drop_first() == ups.subrange(u + 1, ups.len() as int));
            assert(urest[0] == ups[u as int]);
            assert(ups[u as int] == updates@[u as int]@);
            let ghost acti = self.active();
            let ghost swi = self.switches_set();
            match &updates[u] {
                InputUpdate::LayerActivate(l) => {
                    let ghost lv = l@;
                    crate::util::set_insert_string(&mut self.active_layers, l.clone());
                    assert(self.active() =~= acti.insert(lv)) by {
                        broadcast use vstd::seq::Seq::lemma_push_to_set_commute;

                    }
                },
                InputUpdate::LayerDeactivate(l) => {
                    crate::util::set_remove_string(&mut self.active_layers, l);
                },
                InputUpdate::SwitchPressed(id, _slot) => {
                    let ghost iv = id@;
                    crate::util::set_insert_string(&mut self.active_switches, id.clone());
                    assert(self.switches_set() =~= swi.insert(iv)) by {
                        broadcast use vstd::seq::Seq::lemma_push_to_set_commute;

                    }
                },
                InputUpdate::SwitchReleased(id) => {
                    crate::util::set_remove_string(&mut self.active_switches, id);
                },
            }
            u = u + 1;
        }
        assert(ups.subrange(ups.len() as int, ups.len() as int).len() == 0);
        proof {
            if act0.contains(d0) {
                lemma_changed_updates_no_default_deactivate(ch, ph2, bt0, order0, active0, lsw0, d0);
                lemma_apply_layers_keeps_layer(ups, act0, d0);
            }
        }
        updates
    }
}

/// Appending one binding's updates extends the prefix fold by one step.
proof fn lemma_bindings_updates_snoc(
    bs: Seq<BindingView>,
    i: int,
    pressed: bool,
    order: Seq<Seq<char>>,
    active: Set<Seq<char>>,
    lsw: Map<Seq<char>, Set<Seq<char>>>,
    d: Seq<char>,
)
    requires
        0 <= i < bs.len(),
    ensures
        spec_bindings_updates(bs.subrange(0, i + 1), pressed, order, active, lsw, d)
            == spec_bindings_updates(bs.subrange(0, i), pressed, order, active, lsw, d)
            + spec_binding_updates(
            bs[i],
            pressed,
            spec_can_trigger(order, active, lsw, bs[i]),
            d,
        ),
    decreases i,
{
    if i == 0 {
        assert(bs.subrange(0, 1).drop_first() =~= bs.subrange(0, 0));
        assert(bs.subrange(0, 1)[0] == bs[0]);
        assert(spec_bindings_updates(bs.subrange(0, 0), pressed, order, active, lsw, d)
            == Seq::<UpdateView>::empty());
        assert(spec_bindings_updates(bs.subrange(0, 1), pressed, order, active, lsw, d)
            =~= spec_binding_updates(
            bs[0],
            pressed,
            spec_can_trigger(order, active, lsw, bs[0]),
            d,
        ));
        assert(Seq::<UpdateView>::empty() + spec_binding_updates(
            bs[0],
            pressed,
            spec_can_trigger(order, active, lsw, bs[0]),
            d,
        ) =~= spec_binding_updates(bs[0], pressed, spec_can_trigger(order, active, lsw, bs[0]), d));
    } else {
        lemma_bindings_updates_snoc(bs.drop_first(), i - 1, pressed, order, active, lsw, d);
        assert(bs.subrange(0, i + 1).drop_first() =~= bs.drop_first().subrange(0, i));
        assert(bs.subrange(0, i).drop_first() =~= bs.drop_first().subrange(0, i - 1));
        assert(bs.subrange(0, i + 1)[0] == bs[0]);
        assert(bs.subrange(0, i)[0] == bs[0]);
        assert(bs.drop_first()[i - 1] == bs[i]);
        let a = spec_binding_updates(
            bs[0],
            pressed,
            spec_can_trigger(order, active, lsw, bs[0]),
            d,
        );
        let p = spec_bindings_updates(
            bs.drop_first().subrange(0, i - 1),
            pressed,
            order,
            active,
            lsw,
            d,
        );
        let q = spec_binding_updates(bs[i], pressed, spec_can_trigger(order, active, lsw, bs[i]), d);
        assert(spec_bindings_updates(bs.subrange(0, i + 1), pressed, order, active, lsw, d) == a + (
        p + q));
        assert(spec_bindings_updates(bs.subrange(0, i), pressed, order, active, lsw, d) == a + p);
        assert(a + (p + q) =~= (a + p) + q);
    }
}



/// Whether an update deactivates the given layer.
pub open spec fn spec_deactivates(u: UpdateView, layer: Seq<char>) -> bool {
    match u {
        UpdateView::LayerDeactivate(l) => l == layer,
        _ => false,
    }
}

/// No update one binding emits deactivates the default layer.
proof fn lemma_binding_updates_no_default_deactivate(
    b: BindingView,
    pressed: bool,
    can: bool,
    d: Seq<char>,
)
    ensures
        forall|i: int|
            0 <= i < spec_binding_updates(b, pressed, can, d).len() ==> !spec_deactivates(
                #[trigger] spec_binding_updates(b, pressed, can, d)[i],
                d,
            ),
{
}

/// No update the bindings of one hotkey emit deactivates the default
/// layer.
proof fn lemma_bindings_updates_no_default_deactivate(
    bs: Seq<BindingView>,
    pressed: bool,
    order: Seq<Seq<char>>,
    active: Set<Seq<char>>,
    lsw: Map<Seq<char>, Set<Seq<char>>>,
    d: Seq<char>,
)
    ensures
        forall|i: int|
            0 <= i < spec_bindings_updates(bs, pressed, order, active, lsw, d).len()
                ==> !spec_deactivates(
                #[trigger] spec_bindings_updates(bs, pressed, order, active, lsw, d)[i],
                d,
            ),
    decreases bs.len(),
{
    if bs.len() > 0 {
        let can = spec_can_trigger(order, active, lsw, bs[0]);
        let a = spec_binding_updates(bs[0], pressed, can, d);
        let rest = spec_bindings_updates(bs.drop_first(), pressed, order, active, lsw, d);
        lemma_binding_updates_no_default_deactivate(bs[0], pressed, can, d);
        lemma_bindings_updates_no_default_deactivate(bs.drop_first(), pressed, order, active, lsw, d);
        assert forall|i: int|
            0 <= i < spec_bindings_updates(bs, pressed, order, active, lsw, d).len()
                implies !spec_deactivates(
            #[trigger] spec_bindings_updates(bs, pressed, order, active, lsw, d)[i],
            d,
        ) by {
            if i < a.len() {
                assert(spec_bindings_updates(bs, pressed, order, active, lsw, d)[i] == a[i]);
            } else {
                assert(spec_bindings_updates(bs, pressed, order, active, lsw, d)[i] == rest[i
                    - a.len()]);
            }
        }
    }
}

/// No update the flipped hotkeys emit deactivates the default layer.
proof fn lemma_changed_updates_no_default_deactivate(
    changed: Seq<HotKey>,
    ph2: Set<HotKey>,
    bt: Map<HotKey, Seq<BindingView>>,
    order: Seq<Seq<char>>,
    active: Set<Seq<char>>,
    lsw: Map<Seq<char>, Set<Seq<char>>>,
    d: Seq<char>,
)
    ensures
        forall|i: int|
            0 <= i < spec_changed_updates(changed, ph2, bt, order, active, lsw, d).len()
                ==> !spec_deactivates(
                #[trigger] spec_changed_updates(changed, ph2, bt, order, active, lsw, d)[i],
                d,
            ),
    decreases changed.len(),
{
    if changed.len() > 0 {
        let h = changed[0];
        let a = if bt.contains_key(h) {
            spec_bindings_updates(bt[h], ph2.contains(h), order, active, lsw, d)
        } else {
            Seq::<UpdateView>::empty()
        };
        let rest = spec_changed_updates(changed.drop_first(), ph2, bt, order, active, lsw, d);
        if bt.contains_key(h) {
            lemma_bindings_updates_no_default_deactivate(
                bt[h],
                ph2.contains(h),
                order,
                active,
                lsw,
                d,
            );
        }
        lemma_changed_updates_no_default_deactivate(
            changed.drop_first(),
            ph2,
            bt,
            order,
            active,
            lsw,
            d,
        );
        assert forall|i: int|
            0 <= i < spec_changed_updates(changed, ph2, bt, order, active, lsw, d).len()
                implies !spec_deactivates(
            #[trigger] spec_changed_updates(changed, ph2, bt, order, active, lsw, d)[i],
            d,
        ) by {
            if i < a.len() {
                assert(spec_changed_updates(changed, ph2, bt, order, active, lsw, d)[i] == a[i]);
            } else {
                assert(spec_changed_updates(changed, ph2, bt, order, active, lsw, d)[i] == rest[i
                    - a.len()]);
            }
        }
    }
}

/// A layer that no update of a stream deactivates stays in the active set
/// once it is there: in particular, the always-active default layer.
pub proof fn lemma_apply_layers_keeps_layer(us: Seq<UpdateView>, act: Set<Seq<char>>, d: Seq<char>)
    requires
        act.contains(d),
        forall|i: int| 0 <= i < us.len() ==> !spec_deactivates(#[trigger] us[i], d),
    ensures
        spec_apply_layers(us, act).contains(d),
    decreases us.len(),
{
    if us.len() > 0 {
        let act1 = match us[0] {
            UpdateView::LayerActivate(l) => act.insert(l),
            UpdateView::LayerDeactivate(l) => act.remove(l),
            _ => act,
        };
        assert(!spec_deactivates(us[0], d));
        assert(act1.contains(d));
        assert(forall|j: int| 0 <= j < us.drop_first().len() ==> us.drop_first()[j] == us[j + 1]);
        lemma_apply_layers_keeps_layer(us.drop_first(), act1, d);
    }
}


/// The switch identifier an update names, if it names one.
pub open spec fn spec_named_switch(u: UpdateView) -> Option<Seq<char>> {
    match u {
        UpdateView::SwitchPressed(id, _) => Some(id),
        UpdateView::SwitchReleased(id) => Some(id),
        _ => None,
    }
}

/// The switch and combo identifiers a layout binds.
pub open spec fn spec_layout_binding_ids(layout: Layout) -> Set<Seq<char>> {
    Set::new(
        |id: Seq<char>|
            {
                ||| exists|i: int, j: int|
                    0 <= i < layout.layers@.len() && 0 <= j < layout.layers@[i].1.bindings@.len()
                        && (#[trigger] layout.layers@[i].1.bindings@[j]).0@ == id
                ||| exists|i: int|
                    0 <= i < layout.combos@.len() && (#[trigger] layout.combos@[i]).id@ == id
            },
    )
}

/// Every binding context of the table names an identifier of the set.
pub open spec fn spec_table_ids_within(
    bt: Map<HotKey, Seq<BindingView>>,
    ids: Set<Seq<char>>,
) -> bool {
    forall|h: HotKey, j: int|
        bt.contains_key(h) && 0 <= j < bt[h].len() ==> ids.contains(
            (#[trigger] bt[h][j]).switch_id,
        )
}

/// A multimap insertion of a context with a known identifier keeps the
/// table within the set.
proof fn lemma_mm_insert_ids(
    bt: Map<HotKey, Seq<BindingView>>,
    h: HotKey,
    b: BindingView,
    ids: Set<Seq<char>>,
)
    requires
        spec_table_ids_within(bt, ids),
        ids.contains(b.switch_id),
    ensures
        spec_table_ids_within(mm_insert(bt, h, b), ids),
{
    let bt1 = mm_insert(bt, h, b);
    assert forall|h2: HotKey, j: int|
        bt1.contains_key(h2) && 0 <= j < bt1[h2].len() implies ids.contains(
        (#[trigger] bt1[h2][j]).switch_id,
    ) by {
        if h2 == h {
            if bt.contains_key(h) {
                if j < bt[h].len() {
                    assert(bt1[h2][j] == bt[h][j]);
                } else {
                    assert(bt1[h2][j] == b);
                }
            } else {
                assert(bt1[h2][j] == b);
            }
        } else {
            assert(bt1[h2][j] == bt[h2][j]);
        }
    }
}

/// Registering one binding context under its hotkeys keeps the table
/// within the set.
proof fn lemma_add_hotkeys_ids(
    kt: Map<KeyCode, Seq<HotKey>>,
    bt: Map<HotKey, Seq<BindingView>>,
    hotkeys: Seq<HotKey>,
    b: BindingView,
    ids: Set<Seq<char>>,
)
    requires
        spec_table_ids_within(bt, ids),
        ids.contains(b.switch_id),
    ensures
        spec_table_ids_within(spec_add_hotkeys(kt, bt, hotkeys, b).1, ids),
    decreases hotkeys.len(),
{
    if hotkeys.len() > 0 {
        let h = hotkeys[0];
        let kt1 = spec_add_codes(kt, spec_relevant_keys(h), h);
        let bt1 = mm_insert(bt, h, b);
        lemma_mm_insert_ids(bt, h, b, ids);
        lemma_add_hotkeys_ids(kt1, bt1, hotkeys.drop_first(), b, ids);
    }
}

/// Folding the slots of one bound switch keeps the table within the set.
proof fn lemma_add_slots_ids(
    kt: Map<KeyCode, Seq<HotKey>>,
    bt: Map<HotKey, Seq<BindingView>>,
    layer_id: Seq<char>,
    switch_id: Seq<char>,
    slots: Seq<(SwitchSlot, Binding)>,
    ids: Set<Seq<char>>,
)
    requires
        spec_table_ids_within(bt, ids),
        ids.contains(switch_id),
    ensures
        spec_table_ids_within(spec_add_slots(kt, bt, layer_id, switch_id, slots).1, ids),
    decreases slots.len(),
{
    if slots.len() > 0 {
        let bv = spec_slot_binding_view(layer_id, switch_id, slots[0].0, slots[0].1);
        let r = spec_insert_binding_tables(kt, bt, bv);
        lemma_add_hotkeys_ids(kt, bt, spec_alias_hotkeys(bv.key), bv, ids);
        lemma_add_slots_ids(r.0, r.1, layer_id, switch_id, slots.drop_first(), ids);
    }
}

/// Folding the bound switches of one layer keeps the table within the set.
proof fn lemma_add_switches_ids(
    kt: Map<KeyCode, Seq<HotKey>>,
    bt: Map<HotKey, Seq<BindingView>>,
    layer_id: Seq<char>,
    switches: Seq<(String, BoundSwitch)>,
    ids: Set<Seq<char>>,
)
    requires
        spec_table_ids_within(bt, ids),
        forall|j: int| 0 <= j < switches.len() ==> ids.contains((#[trigger] switches[j]).0@),
    ensures
        spec_table_ids_within(spec_add_switches(kt, bt, layer_id, switches).1, ids),
    decreases switches.len(),
{
    if switches.len() > 0 {
        let r = spec_add_slots(kt, bt, layer_id, switches[0].0@, switches[0].1.slots@);
        lemma_add_slots_ids(kt, bt, layer_id, switches[0].0@, switches[0].1.slots@, ids);
        assert(forall|j: int|
            0 <= j < switches.drop_first().len() ==> (#[trigger] switches.drop_first()[j])
                == switches[j + 1]);
        lemma_add_switches_ids(r.0, r.1, layer_id, switches.drop_first(), ids);
    }
}

/// Folding the layers keeps the table within the set.
proof fn lemma_add_layers_ids(
    kt: Map<KeyCode, Seq<HotKey>>,
    bt: Map<HotKey, Seq<BindingView>>,
    layers: Seq<(String, Layer)>,
    ids: Set<Seq<char>>,
)
    requires
        spec_table_ids_within(bt, ids),
        forall|i: int, j: int|
            0 <= i < layers.len() && 0 <= j < layers[i].1.bindings@.len() ==> ids.contains(
                (#[trigger] layers[i].1.bindings@[j]).0@,
            ),
    ensures
        spec_table_ids_within(spec_add_layers(kt, bt, layers).1, ids),
    decreases layers.len(),
{
    if layers.len() > 0 {
        let r = spec_add_switches(kt, bt, layers[0].0@, layers[0].1.bindings@);
        assert(forall|j: int|
            0 <= j < layers[0].1.bindings@.len() ==> ids.contains(
                (#[trigger] layers[0].1.bindings@[j]).0@,
            ));
        lemma_add_switches_ids(kt, bt, layers[0].0@, layers[0].1.bindings@, ids);
        assert(forall|i: int|
            0 <= i < layers.drop_first().len() ==> (#[trigger] layers.drop_first()[i]) == layers[i
                + 1]);
        lemma_add_layers_ids(r.0, r.1, layers.drop_first(), ids);
    }
}

/// Folding the combos keeps the table within the set.
proof fn lemma_add_combos_ids(
    kt: Map<KeyCode, Seq<HotKey>>,
    bt: Map<HotKey, Seq<BindingView>>,
    combos: Seq<Combo>,
    ids: Set<Seq<char>>,
)
    requires
        spec_table_ids_within(bt, ids),
        forall|i: int| 0 <= i < combos.len() ==> ids.contains((#[trigger] combos[i]).id@),
    ensures
        spec_table_ids_within(spec_add_combos(kt, bt, combos).1, ids),
    decreases combos.len(),
{
    if combos.len() > 0 {
        let bv = spec_combo_binding_view(combos[0]);
        let r = spec_insert_binding_tables(kt, bt, bv);
        lemma_add_hotkeys_ids(kt, bt, spec_alias_hotkeys(bv.key), bv, ids);
        assert(forall|i: int|
            0 <= i < combos.drop_first().len() ==> (#[trigger] combos.drop_first()[i]) == combos[i
                + 1]);
        lemma_add_combos_ids(r.0, r.1, combos.drop_first(), ids);
    }
}

/// The binding table a layout builds holds only the layout's own switch
/// and combo identifiers.
pub proof fn lemma_layout_tables_ids(layout: Layout)
    ensures
        spec_table_ids_within(spec_layout_tables(layout).1, spec_layout_binding_ids(layout)),
{
    let ids = spec_layout_binding_ids(layout);
    let empty_kt = Map::<KeyCode, Seq<HotKey>>::empty();
    let empty_bt = Map::<HotKey, Seq<BindingView>>::empty();
    assert(spec_table_ids_within(empty_bt, ids));
    assert forall|i: int, j: int|
        0 <= i < layout.layers@.len() && 0 <= j
            < layout.layers@[i].1.bindings@.len() implies ids.contains(
        (#[trigger] layout.layers@[i].1.bindings@[j]).0@,
    ) by {
        let id = layout.layers@[i].1.bindings@[j].0@;
        assert((#[trigger] layout.layers@[i].1.bindings@[j]).0@ == id);
        assert(exists|a: int, b: int|
            0 <= a < layout.layers@.len() && 0 <= b < layout.layers@[a].1.bindings@.len()
                && (#[trigger] layout.layers@[a].1.bindings@[b]).0@ == id);
    }
    lemma_add_layers_ids(empty_kt, empty_bt, layout.layers@, ids);
    let r = spec_add_layers(empty_kt, empty_bt, layout.layers@);
    assert forall|i: int| 0 <= i < layout.combos@.len() implies ids.contains(
        (#[trigger] layout.combos@[i]).id@,
    ) by {
        let id = layout.combos@[i].id@;
        assert((#[trigger] layout.combos@[i]).id@ == id);
        assert(exists|a: int|
            0 <= a < layout.combos@.len() && (#[trigger] layout.combos@[a]).id@ == id);
    }
    lemma_add_combos_ids(r.0, r.1, layout.combos@, ids);
}

/// Every switch identifier one binding's updates name is the binding's
/// own.
proof fn lemma_binding_updates_ids(
    b: BindingView,
    pressed: bool,
    can: bool,
    d: Seq<char>,
    ids: Set<Seq<char>>,
)
    requires
        ids.contains(b.switch_id),
    ensures
        forall|i: int|
            0 <= i < spec_binding_updates(b, pressed, can, d).len() ==> (match spec_named_switch(
                #[trigger] spec_binding_updates(b, pressed, can, d)[i],
            ) {
                Some(id) => ids.contains(id),
                None => true,
            }),
{
}

/// Every switch identifier the updates of one hotkey name comes from its
/// binding contexts.
proof fn lemma_bindings_updates_ids(
    bs: Seq<BindingView>,
    pressed: bool,
    order: Seq<Seq<char>>,
    active: Set<Seq<char>>,
    lsw: Map<Seq<char>, Set<Seq<char>>>,
    d: Seq<char>,
    ids: Set<Seq<char>>,
)
    requires
        forall|j: int| 0 <= j < bs.len() ==> ids.contains((#[trigger] bs[j]).switch_id),
    ensures
        forall|i: int|
            0 <= i < spec_bindings_updates(bs, pressed, order, active, lsw, d).len() ==> (
            match spec_named_switch(
                #[trigger] spec_bindings_updates(bs, pressed, order, active, lsw, d)[i],
            ) {
                Some(id) => ids.contains(id),
                None => true,
            }),
    decreases bs.len(),
{
    if bs.len() > 0 {
        let can = spec_can_trigger(order, active, lsw, bs[0]);
        let a = spec_binding_updates(bs[0], pressed, can, d);
        let rest = spec_bindings_updates(bs.drop_first(), pressed, order, active, lsw, d);
        lemma_binding_updates_ids(bs[0], pressed, can, d, ids);
        assert(forall|j: int|
            0 <= j < bs.drop_first().len() ==> (#[trigger] bs.drop_first()[j]) == bs[j + 1]);
        lemma_bindings_updates_ids(bs.drop_first(), pressed, order, active, lsw, d, ids);
        assert forall|i: int|
            0 <= i < spec_bindings_updates(bs, pressed, order, active, lsw, d).len() implies (
        match spec_named_switch(
            #[trigger] spec_bindings_updates(bs, pressed, order, active, lsw, d)[i],
        ) {
            Some(id) => ids.contains(id),
            None => true,
        }) by {
            if i < a.len() {
                assert(spec_bindings_updates(bs, pressed, order, active, lsw, d)[i] == a[i]);
            } else {
                assert(spec_bindings_updates(bs, pressed, order, active, lsw, d)[i] == rest[i
                    - a.len()]);
            }
        }
    }
}

/// Every switch identifier an update stream names comes from the binding
/// table it was resolved against.
pub proof fn lemma_changed_updates_ids(
    changed: Seq<HotKey>,
    ph2: Set<HotKey>,
    bt: Map<HotKey, Seq<BindingView>>,
    order: Seq<Seq<char>>,
    active: Set<Seq<char>>,
    lsw: Map<Seq<char>, Set<Seq<char>>>,
    d: Seq<char>,
    ids: Set<Seq<char>>,
)
    requires
        spec_table_ids_within(bt, ids),
    ensures
        forall|i: int|
            0 <= i < spec_changed_updates(changed, ph2, bt, order, active, lsw, d).len() ==> (
            match spec_named_switch(
                #[trigger] spec_changed_updates(changed, ph2, bt, order, active, lsw, d)[i],
            ) {
                Some(id) => ids.contains(id),
                None => true,
            }),
    decreases changed.len(),
{
    if changed.len() > 0 {
        let h = changed[0];
        let a = if bt.contains_key(h) {
            spec_bindings_updates(bt[h], ph2.contains(h), order, active, lsw, d)
        } else {
            Seq::<UpdateView>::empty()
        };
        let rest = spec_changed_updates(changed.drop_first(), ph2, bt, order, active, lsw, d);
        if bt.contains_key(h) {
            assert(forall|j: int|
                0 <= j < bt[h].len() ==> ids.contains((#[trigger] bt[h][j]).switch_id));
            lemma_bindings_updates_ids(bt[h], ph2.contains(h), order, active, lsw, d, ids);
        }
        lemma_changed_updates_ids(changed.drop_first(), ph2, bt, order, active, lsw, d, ids);
        assert forall|i: int|
            0 <= i < spec_changed_updates(changed, ph2, bt, order, active, lsw, d).len() implies (
        match spec_named_switch(
            #[trigger] spec_changed_updates(changed, ph2, bt, order, active, lsw, d)[i],
        ) {
            Some(id) => ids.contains(id),
            None => true,
        }) by {
            if i < a.len() {
                assert(spec_changed_updates(changed, ph2, bt, order, active, lsw, d)[i] == a[i]);
            } else {
                assert(spec_changed_updates(changed, ph2, bt, order, active, lsw, d)[i] == rest[i
                    - a.len()]);
            }
        }
    }
}

/// Reload atomicity, the identifier half: after a reload the binding
/// table derives solely from the new layout, so every press or release a
/// later transition emits names a switch or combo the new layout binds —
/// no release can name a switch identifier that does not exist in it.
pub proof fn lemma_reload_bounds_emitted_ids(
    layout: Layout,
    changed: Seq<HotKey>,
    ph2: Set<HotKey>,
    order: Seq<Seq<char>>,
    active: Set<Seq<char>>,
    lsw: Map<Seq<char>, Set<Seq<char>>>,
    d: Seq<char>,
)
    ensures
        forall|i: int|
            0 <= i < spec_changed_updates(
                changed,
                ph2,
                spec_layout_tables(layout).1,
                order,
                active,
                lsw,
                d,
            ).len() ==> (match spec_named_switch(
                #[trigger] spec_changed_updates(
                    changed,
                    ph2,
                    spec_layout_tables(layout).1,
                    order,
                    active,
                    lsw,
                    d,
                )[i],
            ) {
                Some(id) => spec_layout_binding_ids(layout).contains(id),
                None => true,
            }),
{
    lemma_layout_tables_ids(layout);
    lemma_changed_updates_ids(
        changed,
        ph2,
        spec_layout_tables(layout).1,
        order,
        active,
        lsw,
        d,
        spec_layout_binding_ids(layout),
    );
}


/// The rebind scenario's resolution step, generalized over identifiers:
/// a base layer and a higher shift layer both bind the same switch with
/// the same hotkey; with the shift layer active, a press of that hotkey
/// resolves to the shift layer's binding alone — the shift layer, owning
/// the switch, occludes the base layer's binding, which does not fire —
/// and the emitted stream is exactly one press of the switch.
pub proof fn lemma_shift_layer_rebind_resolution(
    base: Seq<char>,
    shift: Seq<char>,
    switch_id: Seq<char>,
    h: HotKey,
    b_base: BindingView,
    b_shift: BindingView,
    ph2: Set<HotKey>,
    bt: Map<HotKey, Seq<BindingView>>,
    active: Set<Seq<char>>,
    lsw: Map<Seq<char>, Set<Seq<char>>>,
    d: Seq<char>,
)
    requires
        base != shift,
        b_base.layer_ids == seq![base],
        b_base.switch_id == switch_id,
        b_shift.layer_ids == seq![shift],
        b_shift.switch_id == switch_id,
        b_shift.slot == Some(SwitchSlot::Tap),
        b_shift.target_layer is None,
        bt.contains_key(h),
        bt[h] == seq![b_base, b_shift],
        ph2.contains(h),
        active.contains(shift),
        lsw.contains_key(shift),
        lsw[shift].contains(switch_id),
    ensures
        spec_changed_updates(seq![h], ph2, bt, seq![base, shift], active, lsw, d) == seq![
            UpdateView::SwitchPressed(switch_id, Some(SwitchSlot::Tap)),
        ],
{
    let order = seq![base, shift];
    let bs = seq![b_base, b_shift];
    assert(order.last() == shift);
    assert(order.drop_last() =~= seq![base]);

    // The base layer's binding is occluded: the shift layer is active,
    // does not own it, and binds the same switch.
    assert(!b_base.layer_ids.contains(shift)) by {
        if b_base.layer_ids.contains(shift) {
            let k = choose|k: int|
                0 <= k < b_base.layer_ids.len() && b_base.layer_ids[k] == shift;
            assert(b_base.layer_ids[0] == base);
        }
    }
    assert(!spec_can_trigger(order, active, lsw, b_base));

    // The shift layer's binding is owned by the first active layer
    // scanned, so it triggers.
    assert(b_shift.layer_ids.contains(shift)) by {
        assert(b_shift.layer_ids[0] == shift);
    }
    assert(spec_can_trigger(order, active, lsw, b_shift));

    // The emitted stream is the shift binding's press alone.
    let ub = spec_binding_updates(b_base, true, false, d);
    let us = spec_binding_updates(
        b_shift,
        true,
        true,
        d,
    );
    assert(ub =~= Seq::<UpdateView>::empty());
    assert(us =~= seq![UpdateView::SwitchPressed(switch_id, Some(SwitchSlot::Tap))]);
    assert(bs[0] == b_base);
    assert(bs.drop_first() =~= seq![b_shift]);
    assert(seq![b_shift][0] == b_shift);
    assert(seq![b_shift].drop_first() =~= Seq::<BindingView>::empty());
    assert(spec_bindings_updates(Seq::<BindingView>::empty(), true, order, active, lsw, d)
        =~= Seq::<UpdateView>::empty());
    assert(spec_bindings_updates(seq![b_shift], true, order, active, lsw, d) =~= us);
    assert(spec_bindings_updates(bs, true, order, active, lsw, d) == ub + spec_bindings_updates(
        seq![b_shift],
        true,
        order,
        active,
        lsw,
        d,
    ));
    assert(spec_bindings_updates(bs, true, order, active, lsw, d) =~= seq![
        UpdateView::SwitchPressed(switch_id, Some(SwitchSlot::Tap)),
    ]);
    assert(seq![h].drop_first() =~= Seq::<HotKey>::empty());
    assert(seq![h][0] == h);
    assert(spec_changed_updates(Seq::<HotKey>::empty(), ph2, bt, order, active, lsw, d)
        =~= Seq::<UpdateView>::empty());
    assert(spec_changed_updates(seq![h], ph2, bt, order, active, lsw, d)
        == spec_bindings_updates(bs, true, order, active, lsw, d) + spec_changed_updates(
        Seq::<HotKey>::empty(),
        ph2,
        bt,
        order,
        active,
        lsw,
        d,
    ));
    assert(spec_changed_updates(seq![h], ph2, bt, order, active, lsw, d) =~= seq![
        UpdateView::SwitchPressed(switch_id, Some(SwitchSlot::Tap)),
    ]);
}


/// The rebind scenario's activation step, generalized over identifiers: a
/// binding on the active base layer that targets the (not yet active)
/// shift layer resolves, when its hotkey is pressed, to the layer
/// activation followed by the switch press.
pub proof fn lemma_layer_activation_resolution(
    base: Seq<char>,
    shift: Seq<char>,
    switch_id: Seq<char>,
    h: HotKey,
    b: BindingView,
    ph2: Set<HotKey>,
    bt: Map<HotKey, Seq<BindingView>>,
    active: Set<Seq<char>>,
    lsw: Map<Seq<char>, Set<Seq<char>>>,
    d: Seq<char>,
)
    requires
        b.layer_ids == seq![base],
        b.switch_id == switch_id,
        b.slot == Some(SwitchSlot::Hold),
        b.target_layer == Some(shift),
        bt.contains_key(h),
        bt[h] == seq![b],
        ph2.contains(h),
        active.contains(base),
        !active.contains(shift),
    ensures
        spec_changed_updates(seq![h], ph2, bt, seq![base, shift], active, lsw, d) == seq![
            UpdateView::LayerActivate(shift),
            UpdateView::SwitchPressed(switch_id, Some(SwitchSlot::Hold)),
        ],
{
    let order = seq![base, shift];
    let bs = seq![b];
    assert(order.last() == shift);
    assert(order.drop_last() =~= seq![base]);
    assert(seq![base].last() == base);
    assert(b.layer_ids.contains(base)) by {
        assert(b.layer_ids[0] == base);
    }
    assert(spec_can_trigger(order, active, lsw, b)) by {
        assert(spec_scan_layers(seq![base], active, lsw, b.layer_ids, switch_id));
    }
    let ub = spec_binding_updates(b, true, true, d);
    assert(ub =~= seq![
        UpdateView::LayerActivate(shift),
        UpdateView::SwitchPressed(switch_id, Some(SwitchSlot::Hold)),
    ]);
    assert(bs[0] == b);
    assert(bs.drop_first() =~= Seq::<BindingView>::empty());
    assert(spec_bindings_updates(Seq::<BindingView>::empty(), true, order, active, lsw, d)
        =~= Seq::<UpdateView>::empty());
    assert(spec_bindings_updates(bs, true, order, active, lsw, d) =~= ub);
    assert(seq![h].drop_first() =~= Seq::<HotKey>::empty());
    assert(seq![h][0] == h);
    assert(spec_changed_updates(Seq::<HotKey>::empty(), ph2, bt, order, active, lsw, d)
        =~= Seq::<UpdateView>::empty());
    assert(spec_changed_updates(seq![h], ph2, bt, order, active, lsw, d)
        == spec_bindings_updates(bs, true, order, active, lsw, d) + spec_changed_updates(
        Seq::<HotKey>::empty(),
        ph2,
        bt,
        order,
        active,
        lsw,
        d,
    ));
    assert(spec_changed_updates(seq![h], ph2, bt, order, active, lsw, d) =~= seq![
        UpdateView::LayerActivate(shift),
        UpdateView::SwitchPressed(switch_id, Some(SwitchSlot::Hold)),
    ]);
}

/// Layer occlusion, the winning side: if some active layer at priority
/// index `i` owns the binding, and no active layer of higher priority
/// either owns it or binds the same switch, then the binding may trigger.
pub proof fn lemma_occlusion_allows(
    order: Seq<Seq<char>>,
    active: Set<Seq<char>>,
    lsw: Map<Seq<char>, Set<Seq<char>>>,
    owners: Seq<Seq<char>>,
    switch_id: Seq<char>,
    i: int,
)
    requires
        0 <= i < order.len(),
        active.contains(order[i]),
        owners.contains(order[i]),
        forall|j: int|
            i < j < order.len() && active.contains(#[trigger] order[j]) ==> !owners.contains(
                order[j],
            ) && !(lsw.contains_key(order[j]) && lsw[order[j]].contains(switch_id)),
    ensures
        spec_scan_layers(order, active, lsw, owners, switch_id),
    decreases order.len(),
{
    let top = order.last();
    if i == order.len() - 1 {
    } else {
        assert(order.drop_last()[i] == order[i]);
        assert(forall|j: int|
            i < j < order.drop_last().len() && active.contains(
                #[trigger] order.drop_last()[j],
            ) ==> !owners.contains(order.drop_last()[j]) && !(lsw.contains_key(
                order.drop_last()[j],
            ) && lsw[order.drop_last()[j]].contains(switch_id)));
        lemma_occlusion_allows(order.drop_last(), active, lsw, owners, switch_id, i);
    }
}

/// Layer occlusion, the blocking side: if some active layer at priority
/// index `j` does not own the binding but binds the same switch, and no
/// active layer of higher priority owns the binding or binds the switch,
/// then the binding cannot trigger.
pub proof fn lemma_occlusion_blocks(
    order: Seq<Seq<char>>,
    active: Set<Seq<char>>,
    lsw: Map<Seq<char>, Set<Seq<char>>>,
    owners: Seq<Seq<char>>,
    switch_id: Seq<char>,
    j: int,
)
    requires
        0 <= j < order.len(),
        active.contains(order[j]),
        !owners.contains(order[j]),
        lsw.contains_key(order[j]),
        lsw[order[j]].contains(switch_id),
        forall|k: int|
            j < k < order.len() && active.contains(#[trigger] order[k]) ==> !owners.contains(
                order[k],
            ) && !(lsw.contains_key(order[k]) && lsw[order[k]].contains(switch_id)),
    ensures
        !spec_scan_layers(order, active, lsw, owners, switch_id),
    decreases order.len(),
{
    let top = order.last();
    if j == order.len() - 1 {
    } else {
        assert(order.drop_last()[j] == order[j]);
        assert(forall|k: int|
            j < k < order.drop_last().len() && active.contains(
                #[trigger] order.drop_last()[k],
            ) ==> !owners.contains(order.drop_last()[k]) && !(lsw.contains_key(
                order.drop_last()[k],
            ) && lsw[order.drop_last()[k]].contains(switch_id)));
        lemma_occlusion_blocks(order.drop_last(), active, lsw, owners, switch_id, j);
    }
}

} // verus!
