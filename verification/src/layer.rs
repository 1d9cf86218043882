//! A layer: a named set of switch bindings.

use vstd::prelude::*;

use crate::binding::BoundSwitch;
use crate::util::{assoc_keys, assoc_lookup, no_dup, string_keys_unique};

verus! {

/// A named, priority-ordered set of switch bindings; multiple layers may be
/// active concurrently.
#[derive(Clone, Debug, PartialEq)]
pub struct Layer {
    pub bindings: Vec<(String, BoundSwitch)>,
}

impl Layer {
    /// Each switch is bound at most once, and each bound switch is
    /// well-formed.
    pub open spec fn wf(&self) -> bool {
        &&& no_dup(assoc_keys(self.bindings@))
        &&& forall|i: int| 0 <= i < self.bindings@.len() ==> self.bindings@[i].1.wf()
    }

    /// The switches this layer binds, with their bindings.
    pub open spec fn spec_bindings(&self) -> Seq<(String, BoundSwitch)> {
        self.bindings@
    }

    /// Builds a layer from per-switch bindings; rejected when a switch
    /// occurs twice or a bound switch repeats a slot.
    pub fn new(bindings: Vec<(String, BoundSwitch)>) -> (r: Result<Layer, crate::layout::InvalidLayout>)
        ensures
            match r {
                Ok(layer) => layer.wf() && layer.spec_bindings() == bindings@,
                Err(e) => {
                    ||| !no_dup(assoc_keys(bindings@)) && e is DuplicateBoundSwitch
                    ||| (exists|i: int|
                        0 <= i < bindings@.len() && !bindings@[i].1.wf()) && e is DuplicateSlot
                },
            },
    {
        if !string_keys_unique(&bindings) {
            return Err(crate::layout::InvalidLayout::DuplicateBoundSwitch);
        }
        let mut i: usize = 0;
        while i < bindings.len()
            invariant
                0 <= i <= bindings@.len(),
                forall|j: int| 0 <= j < i ==> bindings@[j].1.wf(),
                no_dup(assoc_keys(bindings@)),
            decreases bindings@.len() - i,
        {
            if !bindings[i].1.check() {
                return Err(crate::layout::InvalidLayout::DuplicateSlot);
            }
            i = i + 1;
        }
        Ok(Layer { bindings })
    }

    /// The switch-to-binding entries of this layer.
    pub fn bindings(&self) -> (r: &Vec<(String, BoundSwitch)>)
        ensures
            r@ == self.spec_bindings(),
    {
        &self.bindings
    }

    /// Whether this layer is well-formed.
    pub fn check(&self) -> (r: bool)
        ensures
            r == self.wf(),
    {
        if !string_keys_unique(&self.bindings) {
            return false;
        }
        let mut i: usize = 0;
        while i < self.bindings.len()
            invariant
                0 <= i <= self.bindings@.len(),
                forall|j: int| 0 <= j < i ==> self.bindings@[j].1.wf(),
                no_dup(assoc_keys(self.bindings@)),
            decreases self.bindings@.len() - i,
        {
            if !self.bindings[i].1.check() {
                return false;
            }
            i = i + 1;
        }
        true
    }

    /// The binding of one switch, if this layer binds it.
    pub fn get_binding(&self, switch: &str) -> (r: Option<&BoundSwitch>)
        ensures
            match r {
                Some(b) => assoc_lookup(self.spec_bindings(), switch@) == Some(*b),
                None => assoc_lookup(self.spec_bindings(), switch@) is None,
            },
    {
        crate::util::assoc_get(&self.bindings, switch)
    }
}

} // verus!
