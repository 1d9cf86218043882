//! The update consumer: applies the engine's ordered update stream to a
//! display state, holding each released switch visible for a minimum
//! duration.
//!
//! A release arriving before the minimum visible duration has elapsed is
//! deferred: the caller schedules a synthetic release that carries the
//! press timestamp it observed, and at fire time the timestamp is checked
//! against the recorded press, so a stale timer never erases a newer
//! press.

use vstd::prelude::*;

use crate::util::{no_dup, str_eq, str_seq};
use crate::{InputUpdate, SwitchSlot};

verus! {

/// The minimum time a pressed switch stays visible, in milliseconds.
pub const MIN_VISIBLE_MS: u64 = 100;

/// One switch currently shown active.
pub struct ActiveSwitch {
    pub switch_id: String,
    pub slot: Option<SwitchSlot>,
    pub pressed_at: u64,
}

/// The identifiers of the shown switches, in list order.
pub open spec fn switch_ids(s: Seq<ActiveSwitch>) -> Seq<Seq<char>> {
    s.map_values(|a: ActiveSwitch| a.switch_id@)
}

/// The shown switches as a map from identifier to slot and press time.
pub open spec fn switch_map(s: Seq<ActiveSwitch>) -> Map<Seq<char>, (Option<SwitchSlot>, u64)>
    decreases s.len(),
{
    if s.len() == 0 {
        Map::empty()
    } else {
        switch_map(s.drop_last()).insert(
            s.last().switch_id@,
            (s.last().slot, s.last().pressed_at),
        )
    }
}

/// The time elapsed since a press, saturating at zero.
pub open spec fn spec_elapsed(now: u64, pressed_at: u64) -> u64 {
    if now >= pressed_at {
        (now - pressed_at) as u64
    } else {
        0
    }
}

/// The effect of a deferred release at fire time: the switch disappears
/// only if the recorded press is still the one the timer observed.
pub open spec fn spec_deferred_release(
    m: Map<Seq<char>, (Option<SwitchSlot>, u64)>,
    id: Seq<char>,
    pressed_at: u64,
) -> Map<Seq<char>, (Option<SwitchSlot>, u64)> {
    if m.contains_key(id) && m[id].1 == pressed_at {
        m.remove(id)
    } else {
        m
    }
}

/// What applying one update did.
#[derive(Clone, Copy, Debug, PartialEq, Eq, Structural)]
pub enum ApplyOutcome {
    /// The display state changed immediately.
    Applied,
    /// The release arrived early: the switch stays shown, and a synthetic
    /// release must fire after `delay_ms`, carrying `pressed_at`.
    Deferred { delay_ms: u64, pressed_at: u64 },
    /// A release for a switch that is not shown; nothing changed.
    Ignored,
}

/// The display state the consumer republishes: the active layers and the
/// shown switches with their press times.
pub struct DisplayState {
    pub active_layers: Vec<String>,
    pub active_switches: Vec<ActiveSwitch>,
}

/// The shown-switch map contains an identifier exactly when some list
/// entry carries it.
proof fn lemma_switch_map_contains(s: Seq<ActiveSwitch>, k: Seq<char>)
    ensures
        switch_map(s).contains_key(k) <==> switch_ids(s).contains(k),
    decreases s.len(),
{
    if s.len() > 0 {
        lemma_switch_map_contains(s.drop_last(), k);
        assert(switch_ids(s.drop_last()) =~= switch_ids(s).drop_last());
        if switch_ids(s).contains(k) {
            let i = choose|i: int| 0 <= i < switch_ids(s).len() && switch_ids(s)[i] == k;
            if i < s.len() - 1 {
                assert(switch_ids(s).drop_last()[i] == k);
            }
        }
        if switch_map(s).contains_key(k) && k != s.last().switch_id@ {
            assert(switch_ids(s)[switch_ids(s).len() - 1] == s.last().switch_id@);
        }
        assert(switch_ids(s)[s.len() - 1] == s.last().switch_id@);
    }
}

/// In a duplicate-free list, the map's entry for an identifier is the list
/// entry that carries it.
proof fn lemma_switch_map_index(s: Seq<ActiveSwitch>, i: int)
    requires
        0 <= i < s.len(),
        no_dup(switch_ids(s)),
    ensures
        switch_map(s).contains_key(s[i].switch_id@),
        switch_map(s)[s[i].switch_id@] == (s[i].slot, s[i].pressed_at),
    decreases s.len(),
{
    if i == s.len() - 1 {
    } else {
        assert(switch_ids(s)[i] != switch_ids(s)[s.len() - 1]);
        assert(switch_ids(s)[i] == s[i].switch_id@);
        assert(switch_ids(s)[s.len() - 1] == s.last().switch_id@);
        assert(switch_ids(s.drop_last()) =~= switch_ids(s).drop_last());
        assert(s.drop_last()[i] == s[i]);
        lemma_switch_map_index(s.drop_last(), i);
    }
}

/// Removing one entry of a duplicate-free list removes its key from the
/// map.
proof fn lemma_switch_map_remove(s: Seq<ActiveSwitch>, i: int)
    requires
        0 <= i < s.len(),
        no_dup(switch_ids(s)),
    ensures
        switch_map(s.remove(i)) == switch_map(s).remove(s[i].switch_id@),
    decreases s.len(),
{
    assert(switch_ids(s)[i] == s[i].switch_id@);
    if i == s.len() - 1 {
        assert(s.remove(i) =~= s.drop_last());
        lemma_switch_map_contains(s.drop_last(), s[i].switch_id@);
        assert(!switch_ids(s.drop_last()).contains(s[i].switch_id@)) by {
            assert(switch_ids(s.drop_last()) =~= switch_ids(s).drop_last());
            if switch_ids(s).drop_last().contains(s[i].switch_id@) {
                let j = choose|j: int|
                    0 <= j < s.len() - 1 && switch_ids(s).drop_last()[j] == s[i].switch_id@;
                assert(switch_ids(s)[j] == switch_ids(s)[i]);
            }
        }
        assert(switch_map(s.drop_last()) =~= switch_map(s).remove(s[i].switch_id@));
    } else {
        assert(s.remove(i).drop_last() =~= s.drop_last().remove(i));
        assert(s.remove(i).last() == s.last());
        assert(switch_ids(s.drop_last()) =~= switch_ids(s).drop_last());
        assert(no_dup(switch_ids(s.drop_last())));
        assert(s.drop_last()[i] == s[i]);
        lemma_switch_map_remove(s.drop_last(), i);
        assert(switch_ids(s)[i] != switch_ids(s)[s.len() - 1]);
        assert(s[i].switch_id@ != s.last().switch_id@);
        assert(switch_map(s.drop_last()).remove(s[i].switch_id@).insert(
            s.last().switch_id@,
            (s.last().slot, s.last().pressed_at),
        ) =~= switch_map(s.drop_last()).insert(
            s.last().switch_id@,
            (s.last().slot, s.last().pressed_at),
        ).remove(s[i].switch_id@));
    }
}

impl DisplayState {
    /// No switch is listed twice, and no layer is listed twice.
    pub open spec fn wf(&self) -> bool {
        &&& no_dup(switch_ids(self.active_switches@))
        &&& crate::util::no_dup_str(self.active_layers@)
    }

    /// The active layers as a set.
    pub open spec fn layers(&self) -> Set<Seq<char>> {
        str_seq(self.active_layers@).to_set()
    }

    /// The shown switches as a map.
    pub open spec fn switches(&self) -> Map<Seq<char>, (Option<SwitchSlot>, u64)> {
        switch_map(self.active_switches@)
    }

    /// An empty display state.
    pub fn new() -> (r: DisplayState)
        ensures
            r.wf(),
            r.layers() == Set::<Seq<char>>::empty(),
            r.switches() == Map::<Seq<char>, (Option<SwitchSlot>, u64)>::empty(),
    {
        let r = DisplayState { active_layers: Vec::new(), active_switches: Vec::new() };
        assert(r.layers() =~= Set::<Seq<char>>::empty());
        r
    }

    /// The position of a shown switch in the list, if any.
    fn find_switch(&self, switch_id: &String) -> (r: Option<usize>)
        ensures
            match r {
                Some(i) => 0 <= i < self.active_switches@.len()
                    && switch_ids(self.active_switches@)[i as int] == switch_id@,
                None => !switch_ids(self.active_switches@).contains(switch_id@),
            },
    {
        let mut i: usize = 0;
        while i < self.active_switches.len()
            invariant
                0 <= i <= self.active_switches@.len(),
                forall|j: int| 0 <= j < i ==> switch_ids(self.active_switches@)[j] != switch_id@,
            decreases self.active_switches@.len() - i,
        {
            assert(switch_ids(self.active_switches@)[i as int]
                == self.active_switches@[i as int].switch_id@);
            if str_eq(self.active_switches[i].switch_id.as_str(), switch_id.as_str()) {
                return Some(i);
            }
            i = i + 1;
        }
        None
    }

    /// Applies one update at time `now_ms`.  A layer change or a press
    /// takes effect immediately, a press overwriting any recorded press of
    /// the same switch.  A release removes the switch immediately when the
    /// minimum visible duration has elapsed since the recorded press;
    /// otherwise the switch stays shown and the remaining duration is
    /// returned for the caller to schedule a synthetic release; a release
    /// without a recorded press changes nothing.
    pub fn apply(&mut self, update: &InputUpdate, now_ms: u64) -> (r: ApplyOutcome)
        requires
            old(self).wf(),
        ensures
            final(self).wf(),
            match update {
                InputUpdate::LayerActivate(l) => r == ApplyOutcome::Applied && final(self).layers()
                    == old(self).layers().insert(l@) && final(self).switches() == old(self).switches(),
                InputUpdate::LayerDeactivate(l) => r == ApplyOutcome::Applied && final(self).layers() == old(self).layers().remove(l@) && final(self).switches() == old(self).switches(),
                InputUpdate::SwitchPressed(id, slot) => r == ApplyOutcome::Applied && final(self).layers() == old(self).layers() && final(self).switches() == old(self).switches().insert(id@, (*slot, now_ms)),
                InputUpdate::SwitchReleased(id) => {
                    if !old(self).switches().contains_key(id@) {
                        r == ApplyOutcome::Ignored && final(self).layers() == old(self).layers()
                            && final(self).switches() == old(self).switches()
                    } else {
                        let pressed_at = old(self).switches()[id@].1;
                        let elapsed = spec_elapsed(now_ms, pressed_at);
                        if elapsed >= MIN_VISIBLE_MS {
                            r == ApplyOutcome::Applied && final(self).layers() == old(self).layers() && final(self).switches() == old(self).switches().remove(
                                id@,
                            )
                        } else {
                            r == (ApplyOutcome::Deferred {
                                delay_ms: (MIN_VISIBLE_MS - elapsed) as u64,
                                pressed_at,
                            }) && final(self).layers() == old(self).layers() && final(self).switches() == old(self).switches()
                        }
                    }
                },
            },
    {
        match update {
            InputUpdate::LayerActivate(l) => {
                let ghost lv = l@;
                let ghost pre = self.layers();
                crate::util::set_insert_string(&mut self.active_layers, l.clone());
                assert(self.layers() =~= pre.insert(lv)) by {
                    broadcast use vstd::seq::Seq::lemma_push_to_set_commute;

                }
                ApplyOutcome::Applied
            },
            InputUpdate::LayerDeactivate(l) => {
                crate::util::set_remove_string(&mut self.active_layers, l);
                ApplyOutcome::Applied
            },
            InputUpdate::SwitchPressed(id, slot) => {
                let ghost pre = self.active_switches@;
                let ghost prem = switch_map(pre);
                match self.find_switch(id) {
                    Some(i) => {
                        proof {
                            lemma_switch_map_remove(pre, i as int);
                            crate::util::lemma_remove_unique(switch_ids(pre), i as int);
                        }
                        self.active_switches.remove(i);
                        proof {
                            assert(switch_ids(self.active_switches@) =~= switch_ids(pre).remove(
                                i as int,
                            ));
                            assert(switch_map(self.active_switches@) == prem.remove(id@));
                        }
                    },
                    None => {
                        proof {
                            lemma_switch_map_contains(pre, id@);
                        }
                    },
                }
                let ghost mid = self.active_switches@;
                assert(!switch_ids(mid).contains(id@));
                self.active_switches.push(
                    ActiveSwitch { switch_id: id.clone(), slot: *slot, pressed_at: now_ms },
                );
                assert(self.active_switches@.drop_last() =~= mid);
                assert(switch_ids(self.active_switches@) =~= switch_ids(mid).push(id@));
                assert(no_dup(switch_ids(self.active_switches@))) by {
                    assert(forall|j: int|
                        0 <= j < switch_ids(mid).len() ==> switch_ids(self.active_switches@)[j]
                            == switch_ids(mid)[j]);
                    assert(switch_ids(self.active_switches@)[switch_ids(mid).len() as int] == id@);
                }
                assert(self.switches() == switch_map(mid).insert(id@, (*slot, now_ms)));
                assert(self.switches() =~= prem.insert(id@, (*slot, now_ms)));
                ApplyOutcome::Applied
            },
            InputUpdate::SwitchReleased(id) => {
                let ghost pre = self.active_switches@;
                match self.find_switch(id) {
                    Some(i) => {
                        proof {
                            lemma_switch_map_index(pre, i as int);
                            lemma_switch_map_contains(pre, id@);
                        }
                        let pressed_at = self.active_switches[i].pressed_at;
                        let elapsed = if now_ms >= pressed_at {
                            now_ms - pressed_at
                        } else {
                            0
                        };
                        if elapsed >= MIN_VISIBLE_MS {
                            proof {
                                lemma_switch_map_remove(pre, i as int);
                            }
                            self.active_switches.remove(i);
                            assert(no_dup(switch_ids(self.active_switches@))) by {
                                crate::util::lemma_remove_unique(switch_ids(pre), i as int);
                                assert(switch_ids(self.active_switches@) =~= switch_ids(
                                    pre,
                                ).remove(i as int));
                            }
                            ApplyOutcome::Applied
                        } else {
                            ApplyOutcome::Deferred { delay_ms: MIN_VISIBLE_MS - elapsed, pressed_at }
                        }
                    },
                    None => {
                        proof {
                            lemma_switch_map_contains(pre, id@);
                        }
                        ApplyOutcome::Ignored
                    },
                }
            },
        }
    }

    /// Fires a deferred synthetic release: the switch is removed only if
    /// the recorded press timestamp is still the one the timer observed;
    /// a press that superseded it leaves the state untouched.
    pub fn deferred_release(&mut self, switch_id: &String, pressed_at: u64) -> (removed: bool)
        requires
            old(self).wf(),
        ensures
            final(self).wf(),
            final(self).layers() == old(self).layers(),
            final(self).switches() == spec_deferred_release(
                old(self).switches(),
                switch_id@,
                pressed_at,
            ),
            removed == (old(self).switches().contains_key(switch_id@) && old(self).switches()[switch_id@].1 == pressed_at),
    {
        let ghost pre = self.active_switches@;
        match self.find_switch(switch_id) {
            Some(i) => {
                proof {
                    lemma_switch_map_index(pre, i as int);
                    lemma_switch_map_contains(pre, switch_id@);
                }
                if self.active_switches[i].pressed_at == pressed_at {
                    proof {
                        lemma_switch_map_remove(pre, i as int);
                    }
                    self.active_switches.remove(i);
                    assert(no_dup(switch_ids(self.active_switches@))) by {
                        crate::util::lemma_remove_unique(switch_ids(pre), i as int);
                        assert(switch_ids(self.active_switches@) =~= switch_ids(
                            pre,
                        ).remove(i as int));
                    }
                    true
                } else {
                    false
                }
            },
            None => {
                proof {
                    lemma_switch_map_contains(pre, switch_id@);
                }
                false
            },
        }
    }
}

/// A deferred release fires exactly at the end of the minimum visible
/// duration: when a release arrives before the minimum has elapsed, the
/// returned delay lands the synthetic release at the press time plus the
/// minimum, never earlier.
pub proof fn lemma_deferred_release_not_early(pressed_at: u64, now: u64)
    requires
        pressed_at <= now,
        spec_elapsed(now, pressed_at) < MIN_VISIBLE_MS,
    ensures
        now + (MIN_VISIBLE_MS - spec_elapsed(now, pressed_at)) == pressed_at + MIN_VISIBLE_MS,
{
}

/// A stale deferred release never erases a newer press: once a press at a
/// different time has overwritten the entry, firing the old timer leaves
/// the display state unchanged.
pub proof fn lemma_stale_timer_harmless(
    m: Map<Seq<char>, (Option<SwitchSlot>, u64)>,
    id: Seq<char>,
    slot: Option<SwitchSlot>,
    t_new: u64,
    t_scheduled: u64,
)
    requires
        t_new != t_scheduled,
    ensures
        spec_deferred_release(m.insert(id, (slot, t_new)), id, t_scheduled) == m.insert(
            id,
            (slot, t_new),
        ),
{
}

} // verus!
