//! The encounters of one quest at one location, and the rule that says which of them are open.

use crate::data::encounter_map::EncounterMap;
use crate::data::encounter_type::EncounterType;
use crate::data::quest::{Quest, QuestState, QuestView};
use crate::data::vis::Vis;
use crate::game::quest_id::QuestId;
use crate::global::data::Data;
use vstd::prelude::*;

verus! {

/// One encounter: the quest that must be over before it opens, and how far it is hidden.
#[derive(Clone, Copy, Debug, PartialEq, Eq, Structural)]
pub struct QuestLocationEncounter {
    pub prerequisite: Option<QuestId>,
    pub vis: Vis,
}

/// The encounters of one quest at one location, at most one of each type.
pub type QuestLocation = EncounterMap<QuestLocationEncounter>;

/// Whether the quest that an encounter waits for is over; one that the journal does not hold is not.
pub open spec fn prerequisite_met(prerequisite: Option<QuestId>, quests: Map<u16, QuestView>) -> bool {
    match prerequisite {
        None => true,
        Some(p) => quests.contains_key(p.0) && quests[p.0].state == QuestState::Removed,
    }
}

/// Whether an encounter of the given type is open for a quest in the given state.
pub open spec fn is_active(
    state: QuestState,
    encounter_type: EncounterType,
    prerequisite: Option<QuestId>,
    quests: Map<u16, QuestView>,
) -> bool {
    match state {
        QuestState::NotFound => match encounter_type {
            EncounterType::Unless => true,
            EncounterType::Gain => prerequisite_met(prerequisite, quests),
            EncounterType::When | EncounterType::Complete | EncounterType::Lose => false,
        },
        QuestState::InGame => match encounter_type {
            EncounterType::When | EncounterType::Complete | EncounterType::Lose => true,
            EncounterType::Unless | EncounterType::Gain => false,
        },
        QuestState::Removed => false,
    }
}

/// Whether an encounter is listed at all: always on the map, else only if
/// neither it nor its quest is hidden.
pub open spec fn is_listed(quest_vis: Vis, encounter_vis: Vis, ignore_visibility: bool) -> bool {
    ignore_visibility || (quest_vis == Vis::Visible && encounter_vis == Vis::Visible)
}

/// What the rule says of one encounter type: nothing where the encounter is
/// missing or not listed, else whether it is open.
pub open spec fn active_slot(
    location: QuestLocation,
    encounter_type: EncounterType,
    state: QuestState,
    quest_vis: Vis,
    quests: Map<u16, QuestView>,
    ignore_visibility: bool,
) -> Option<bool> {
    match location.slot(encounter_type) {
        Some(e) => if is_listed(quest_vis, e.vis, ignore_visibility) {
            Some(is_active(state, encounter_type, e.prerequisite, quests))
        } else {
            None
        },
        None => None,
    }
}

impl EncounterMap<QuestLocationEncounter> {
    /// Puts an encounter under its type, in place of the one that was there.
    pub fn insert(&mut self, key: EncounterType, prerequisite: Option<QuestId>, vis: Vis) -> (r: Option<
        QuestLocationEncounter,
    >)
        ensures
            r == old(self).slot(key),
            *final(self) == old(self).with(key, Some(QuestLocationEncounter { prerequisite, vis })),
    {
        self.set(key, Some(QuestLocationEncounter { prerequisite, vis }))
    }

    /// The encounter of a type, to be changed in place.
    pub fn get_mut(&mut self, key: EncounterType) -> (r: Option<&mut QuestLocationEncounter>)
        ensures
            match r {
                Some(e) => old(self).slot(key) == Some(*e) && *final(self) == old(self).with(key, Some(*final(e))),
                None => old(self).slot(key) is None && *final(self) == *old(self),
            },
    {
        match key {
            EncounterType::Unless => match &mut self.unless {
                Some(e) => Some(e),
                None => None,
            },
            EncounterType::Gain => match &mut self.gain {
                Some(e) => Some(e),
                None => None,
            },
            EncounterType::When => match &mut self.when {
                Some(e) => Some(e),
                None => None,
            },
            EncounterType::Complete => match &mut self.complete {
                Some(e) => Some(e),
                None => None,
            },
            EncounterType::Lose => match &mut self.lose {
                Some(e) => Some(e),
                None => None,
            },
        }
    }

    /// Sets how far the encounter of a type is hidden; says whether there is such an encounter.
    pub fn set_vis(&mut self, key: EncounterType, vis: Vis) -> (r: bool)
        ensures
            r == (old(self).slot(key) is Some),
            *final(self) == (match old(self).slot(key) {
                Some(e) => old(self).with(key, Some(QuestLocationEncounter { vis, ..e })),
                None => *old(self),
            }),
    {
        match self.get(key) {
            Some(e) => {
                self.set(key, Some(QuestLocationEncounter { prerequisite: e.prerequisite, vis }));
                true
            },
            None => false,
        }
    }

    /// Whether some encounter has the given level of restriction.
    pub open spec fn has_vis(self, vis: Vis) -> bool {
        exists|k: EncounterType| (#[trigger] self.slot(k)) is Some && self.slot(k)->Some_0.vis == vis
    }

    /// The least restriction among the encounters; `Visible` where there is none.
    pub open spec fn min_vis_spec(self) -> Vis {
        if self.has_vis(Vis::Visible) || self.has_none() {
            Vis::Visible
        } else if self.has_vis(Vis::HiddenThisCampaign) {
            Vis::HiddenThisCampaign
        } else {
            Vis::HiddenForever
        }
    }

    /// The greatest restriction among the encounters; `Visible` where there is none.
    pub open spec fn max_vis_spec(self) -> Vis {
        if self.has_vis(Vis::HiddenForever) {
            Vis::HiddenForever
        } else if self.has_vis(Vis::HiddenThisCampaign) {
            Vis::HiddenThisCampaign
        } else {
            Vis::Visible
        }
    }

    /// Whether some encounter has the given level of restriction.
    pub fn contains_vis(&self, vis: Vis) -> (r: bool)
        ensures
            r == self.has_vis(vis),
    {
        let at = |e: Option<QuestLocationEncounter>| -> (r: bool)
            ensures
                r == (e is Some && e->Some_0.vis == vis),
            {
                match e {
                    Some(e) => e.vis == vis,
                    None => false,
                }
            };
        let r = at(self.unless) || at(self.gain) || at(self.when) || at(self.complete) || at(self.lose);
        proof {
            if r {
                if self.unless is Some && self.unless->Some_0.vis == vis {
                    assert(self.slot(EncounterType::Unless) is Some);
                } else if self.gain is Some && self.gain->Some_0.vis == vis {
                    assert(self.slot(EncounterType::Gain) is Some);
                } else if self.when is Some && self.when->Some_0.vis == vis {
                    assert(self.slot(EncounterType::When) is Some);
                } else if self.complete is Some && self.complete->Some_0.vis == vis {
                    assert(self.slot(EncounterType::Complete) is Some);
                } else {
                    assert(self.slot(EncounterType::Lose) is Some);
                }
            }
        }
        r
    }

    /// The least restriction among the encounters; `Visible` where there is none.
    pub fn min_vis(&self) -> (r: Vis)
        ensures
            r == self.min_vis_spec(),
    {
        if self.contains_vis(Vis::Visible) || self.is_empty() {
            Vis::Visible
        } else if self.contains_vis(Vis::HiddenThisCampaign) {
            Vis::HiddenThisCampaign
        } else {
            Vis::HiddenForever
        }
    }

    /// The greatest restriction among the encounters; `Visible` where there is none.
    pub fn max_vis(&self) -> (r: Vis)
        ensures
            r == self.max_vis_spec(),
    {
        if self.contains_vis(Vis::HiddenForever) {
            Vis::HiddenForever
        } else if self.contains_vis(Vis::HiddenThisCampaign) {
            Vis::HiddenThisCampaign
        } else {
            Vis::Visible
        }
    }

    fn active_entry(&self, key: EncounterType, quest: &Quest, data: &Data, ignore_visibility: bool) -> (r: Option<
        bool,
    >)
        requires
            data.quest.wf(),
        ensures
            r == active_slot(*self, key, quest.state, quest.vis, data@.quest, ignore_visibility),
    {
        match self.get(key) {
            None => None,
            Some(e) => {
                if ignore_visibility || (quest.vis == Vis::Visible && e.vis == Vis::Visible) {
                    let active = match quest.state {
                        QuestState::NotFound => match key {
                            EncounterType::Unless => true,
                            EncounterType::Gain => match e.prerequisite {
                                None => true,
                                Some(p) => match data.quest.get(p.0) {
                                    Some(q) => q.state == QuestState::Removed,
                                    None => false,
                                },
                            },
                            _ => false,
                        },
                        QuestState::InGame => match key {
                            EncounterType::Unless | EncounterType::Gain => false,
                            _ => true,
                        },
                        QuestState::Removed => false,
                    };
                    Some(active)
                } else {
                    None
                }
            },
        }
    }

    /// For each encounter that is listed, whether it is open now.
    pub fn get_active(&self, quest: &Quest, data: &Data, ignore_visibility: bool) -> (r: EncounterMap<bool>)
        requires
            data.quest.wf(),
        ensures
            forall|key: EncounterType| #[trigger]
                r.slot(key) == active_slot(*self, key, quest.state, quest.vis, data@.quest, ignore_visibility),
            !ignore_visibility && quest.vis != Vis::Visible ==> r == EncounterMap::<bool>::empty(),
            self.has_none() ==> r == EncounterMap::<bool>::empty(),
    {
        let r = EncounterMap {
            unless: self.active_entry(EncounterType::Unless, quest, data, ignore_visibility),
            gain: self.active_entry(EncounterType::Gain, quest, data, ignore_visibility),
            when: self.active_entry(EncounterType::When, quest, data, ignore_visibility),
            complete: self.active_entry(EncounterType::Complete, quest, data, ignore_visibility),
            lose: self.active_entry(EncounterType::Lose, quest, data, ignore_visibility),
        };
        proof {
            if self.has_none() {
                assert(self.slot(EncounterType::Unless) is None);
                assert(self.slot(EncounterType::Gain) is None);
                assert(self.slot(EncounterType::When) is None);
                assert(self.slot(EncounterType::Complete) is None);
                assert(self.slot(EncounterType::Lose) is None);
            }
        }
        r
    }
}

} // verus!
