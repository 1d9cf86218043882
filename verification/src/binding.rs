//! Bindings: the chord, display label, and optional target layer a switch
//! slot is bound to.

use vstd::prelude::*;

use crate::key::KeySet;
use crate::util::no_dup;
use crate::SwitchSlot;

verus! {

/// How a binding is drawn on the overlay; irrelevant to matching.
#[derive(Clone, Debug, PartialEq)]
pub enum BindingDisplay {
    Text(String),
    IconBootstrap(String),
    IconCustom(String),
}

/// A display kind identifier that is neither `IconBootstrap` nor
/// `IconCustom`.
#[derive(Clone, Debug)]
pub struct InvalidBindingDisplay(pub String);

impl BindingDisplay {
    /// Classifies a display value by its kind identifier: no kind means
    /// plain text, the two icon kinds name their icon sets, and any other
    /// kind is rejected with the identifier it carried.
    pub fn from_kind(kind: Option<&String>, value: String) -> (r: Result<
        BindingDisplay,
        InvalidBindingDisplay,
    >)
        ensures
            match kind {
                None => r matches Ok(d) && d matches BindingDisplay::Text(v) && v@ == value@,
                Some(k) => {
                    if k@ == "IconBootstrap"@ {
                        r matches Ok(d) && d matches BindingDisplay::IconBootstrap(v) && v@
                            == value@
                    } else if k@ == "IconCustom"@ {
                        r matches Ok(d) && d matches BindingDisplay::IconCustom(v) && v@ == value@
                    } else {
                        r matches Err(e) && e.0@ == k@
                    }
                },
            },
    {
        match kind {
            None => Ok(BindingDisplay::Text(value)),
            Some(k) => {
                if crate::util::str_eq(k.as_str(), "IconBootstrap") {
                    Ok(BindingDisplay::IconBootstrap(value))
                } else if crate::util::str_eq(k.as_str(), "IconCustom") {
                    Ok(BindingDisplay::IconCustom(value))
                } else {
                    Err(InvalidBindingDisplay(k.clone()))
                }
            },
        }
    }
}

/// One binding: the input chord, an optional display label, and an optional
/// layer that the binding activates while held.
#[derive(Clone, Debug, PartialEq)]
pub struct Binding {
    pub input: KeySet,
    pub display: Option<BindingDisplay>,
    pub layer: Option<String>,
}

/// The bindings of one switch, keyed by slot.
#[derive(Clone, Debug, PartialEq)]
pub struct BoundSwitch {
    pub slots: Vec<(SwitchSlot, Binding)>,
}

/// The slots of a bound switch, in listed order.
pub open spec fn spec_slot_keys(slots: Seq<(SwitchSlot, Binding)>) -> Seq<SwitchSlot> {
    slots.map_values(|p: (SwitchSlot, Binding)| p.0)
}

impl BoundSwitch {
    /// Each slot is bound at most once.
    pub open spec fn wf(&self) -> bool {
        no_dup(spec_slot_keys(self.slots@))
    }

    /// A bound switch with no slots.
    pub fn new() -> (r: BoundSwitch)
        ensures
            r.slots@.len() == 0,
            r.wf(),
    {
        BoundSwitch { slots: Vec::new() }
    }

    /// Whether each slot is bound at most once.
    pub fn check(&self) -> (r: bool)
        ensures
            r == self.wf(),
    {
        let mut i: usize = 0;
        while i < self.slots.len()
            invariant
                0 <= i <= self.slots@.len(),
                forall|a: int, b: int|
                    0 <= a < b < i ==> spec_slot_keys(self.slots@)[a] != spec_slot_keys(
                        self.slots@,
                    )[b],
            decreases self.slots@.len() - i,
        {
            let mut j: usize = 0;
            while j < i
                invariant
                    0 <= j <= i < self.slots@.len(),
                    forall|a: int, b: int|
                        0 <= a < b < i ==> spec_slot_keys(self.slots@)[a] != spec_slot_keys(
                            self.slots@,
                        )[b],
                    forall|a: int|
                        0 <= a < j ==> spec_slot_keys(self.slots@)[a] != spec_slot_keys(
                            self.slots@,
                        )[i as int],
                decreases i - j,
            {
                assert(spec_slot_keys(self.slots@)[j as int] == self.slots@[j as int].0);
                assert(spec_slot_keys(self.slots@)[i as int] == self.slots@[i as int].0);
                if self.slots[j].0 == self.slots[i].0 {
                    return false;
                }
                j = j + 1;
            }
            i = i + 1;
        }
        true
    }
}

} // verus!
