//! The binding tables: two multimaps of the `multimap` crate, one from
//! physical key to the hotkeys it is relevant to, one from hotkey to the
//! binding contexts it triggers.  The multimaps are held behind trusted
//! declarations; everything stated of them is what the crate's source
//! shows of `new`, `insert`, `get_vec`, and `clear`.

use vstd::prelude::*;

use crate::hotkey::HotKey;
use crate::key::{KeyCode, KeySet};
use crate::util::{clone_string_opt, clone_string_vec, str_seq};
use crate::SwitchSlot;

verus! {

#[verifier::external_type_specification]
#[verifier::external_body]
#[verifier::reject_recursive_types(K)]
#[verifier::reject_recursive_types(V)]
#[verifier::reject_recursive_types(S)]
pub struct ExMultiMap<K, V, S>(multimap::MultiMap<K, V, S>);

/// One binding context of the binding table: the owning layers (empty for a
/// combo), the switch or combo it triggers, its slot, the layer it
/// activates while held, the layer restriction of a combo, and the input
/// chord it came from.
#[derive(Debug)]
pub struct InputBinding {
    pub layer_ids: Vec<String>,
    pub switch_id: String,
    pub slot: Option<SwitchSlot>,
    pub target_layer: Option<String>,
    pub layer_filter: Vec<String>,
    pub key: KeySet,
}

/// The spec-level shape of an [`InputBinding`], with identifiers as
/// character sequences.
#[verifier::ext_equal]
pub struct BindingView {
    pub layer_ids: Seq<Seq<char>>,
    pub switch_id: Seq<char>,
    pub slot: Option<SwitchSlot>,
    pub target_layer: Option<Seq<char>>,
    pub layer_filter: Seq<Seq<char>>,
    pub key: Seq<crate::key::KeyAlias>,
}

impl View for InputBinding {
    type V = BindingView;

    open spec fn view(&self) -> BindingView {
        BindingView {
            layer_ids: str_seq(self.layer_ids@),
            switch_id: self.switch_id@,
            slot: self.slot,
            target_layer: match self.target_layer {
                Some(t) => Some(t@),
                None => None,
            },
            layer_filter: str_seq(self.layer_filter@),
            key: self.key@,
        }
    }
}

impl Clone for InputBinding {
    fn clone(&self) -> (r: Self)
        ensures
            r@ == self@,
    {
        let r = InputBinding {
            layer_ids: clone_string_vec(&self.layer_ids),
            switch_id: self.switch_id.clone(),
            slot: self.slot,
            target_layer: clone_string_opt(&self.target_layer),
            layer_filter: clone_string_vec(&self.layer_filter),
            key: KeySet { aliases: self.key.aliases.clone() },
        };
        assert(r.key@ =~= self.key@);
        assert(r@ == self@);
        r
    }
}

/// What the key table holds: for each physical key, the hotkeys whose
/// pressed status its transitions can flip, in insertion order.
pub uninterp spec fn key_hotkey_entries(m: multimap::MultiMap<KeyCode, HotKey>) -> Map<
    KeyCode,
    Seq<HotKey>,
>;

/// What the binding table holds: for each hotkey, the binding contexts it
/// triggers, in insertion order.
pub uninterp spec fn hotkey_binding_entries(m: multimap::MultiMap<HotKey, InputBinding>) -> Map<
    HotKey,
    Seq<BindingView>,
>;

/// The key table holds no entries.
pub open spec fn key_table_empty(m: multimap::MultiMap<KeyCode, HotKey>) -> bool {
    key_hotkey_entries(m) == Map::<KeyCode, Seq<HotKey>>::empty()
}

/// The binding table holds no entries.
pub open spec fn binding_table_empty(m: multimap::MultiMap<HotKey, InputBinding>) -> bool {
    hotkey_binding_entries(m) == Map::<HotKey, Seq<BindingView>>::empty()
}

/// One multimap insertion at the contents level: the value is appended to
/// the key's list, which is created when absent.
pub open spec fn mm_insert<K, V>(m: Map<K, Seq<V>>, k: K, v: V) -> Map<K, Seq<V>> {
    if m.contains_key(k) {
        m.insert(k, m[k].push(v))
    } else {
        m.insert(k, seq![v])
    }
}

/// Relies on `multimap::MultiMap::new`: the new multimap holds no entries.
#[verifier::external_body]
pub fn new_key_table() -> (r: multimap::MultiMap<KeyCode, HotKey>)
    ensures
        key_table_empty(r),
{
    multimap::MultiMap::new()
}

/// Relies on `multimap::MultiMap::clear`: every entry is removed.
#[verifier::external_body]
pub fn clear_key_table(m: &mut multimap::MultiMap<KeyCode, HotKey>)
    ensures
        key_table_empty(*final(m)),
{
    m.clear()
}

/// Relies on `multimap::MultiMap::insert`: the value is pushed onto the
/// key's list, which is created when the key is absent.
#[verifier::external_body]
pub fn insert_key_table(m: &mut multimap::MultiMap<KeyCode, HotKey>, k: KeyCode, v: HotKey)
    ensures
        key_hotkey_entries(*final(m)) == mm_insert(key_hotkey_entries(*old(m)), k, v),
{
    m.insert(k, v)
}

/// Relies on `multimap::MultiMap::get_vec`: the key's list when the key is
/// present, and `None` otherwise.
#[verifier::external_body]
pub fn get_key_table(m: &multimap::MultiMap<KeyCode, HotKey>, k: &KeyCode) -> (r: Option<
    Vec<HotKey>,
>)
    ensures
        match r {
            Some(v) => key_hotkey_entries(*m).contains_key(*k) && v@ == key_hotkey_entries(*m)[*k],
            None => !key_hotkey_entries(*m).contains_key(*k),
        },
{
    m.get_vec(k).cloned()
}

/// Relies on `multimap::MultiMap::new`: the new multimap holds no entries.
#[verifier::external_body]
pub fn new_binding_table() -> (r: multimap::MultiMap<HotKey, InputBinding>)
    ensures
        binding_table_empty(r),
{
    multimap::MultiMap::new()
}

/// Relies on `multimap::MultiMap::clear`: every entry is removed.
#[verifier::external_body]
pub fn clear_binding_table(m: &mut multimap::MultiMap<HotKey, InputBinding>)
    ensures
        binding_table_empty(*final(m)),
{
    m.clear()
}

/// Relies on `multimap::MultiMap::insert`: the value is pushed onto the
/// key's list, which is created when the key is absent.
#[verifier::external_body]
pub fn insert_binding_table(
    m: &mut multimap::MultiMap<HotKey, InputBinding>,
    k: HotKey,
    v: InputBinding,
)
    ensures
        hotkey_binding_entries(*final(m)) == mm_insert(hotkey_binding_entries(*old(m)), k, v@),
{
    m.insert(k, v)
}

/// Relies on `multimap::MultiMap::get_vec`: the key's list when the key is
/// present, and `None` otherwise.
#[verifier::external_body]
pub fn get_binding_table(m: &multimap::MultiMap<HotKey, InputBinding>, k: &HotKey) -> (r: Option<
    Vec<InputBinding>,
>)
    ensures
        match r {
            Some(v) => hotkey_binding_entries(*m).contains_key(*k) && v@.map_values(
                |b: InputBinding| b@,
            ) == hotkey_binding_entries(*m)[*k],
            None => !hotkey_binding_entries(*m).contains_key(*k),
        },
{
    m.get_vec(k).cloned()
}

} // verus!
