//! What the lists show of a quest: a hint for each location, and the
//! greatest restriction anywhere in it.

use crate::data::encounter_map::EncounterMap;
use crate::data::encounter_type::EncounterType;
use crate::data::quest::{Quest, QuestView, QuestViewMode};
use crate::data::quest_location::{active_slot, QuestLocation};
use crate::data::vis::Vis;
use crate::game::location_id::LocationId;
use crate::game::quest_id::QuestId;
use crate::global::data::Data;
use vstd::prelude::*;

verus! {

/// What a list shows of a quest at one location.
pub struct Hint {
    pub location_id: LocationId,
    pub active: EncounterMap<bool>,
    pub outline: bool,
    pub vis: Vis,
    pub prerequisite: Option<QuestId>,
    pub disabled: bool,
}

/// For each encounter at a location that is listed, whether it is open.
pub open spec fn active_of(location: QuestLocation, q: QuestView, quests: Map<u16, QuestView>, is_map: bool) -> EncounterMap<
    bool,
> {
    EncounterMap {
        unless: active_slot(location, EncounterType::Unless, q.state, q.vis, quests, is_map),
        gain: active_slot(location, EncounterType::Gain, q.state, q.vis, quests, is_map),
        when: active_slot(location, EncounterType::When, q.state, q.vis, quests, is_map),
        complete: active_slot(location, EncounterType::Complete, q.state, q.vis, quests, is_map),
        lose: active_slot(location, EncounterType::Lose, q.state, q.vis, quests, is_map),
    }
}

/// Whether some encounter is open.
pub open spec fn has_open(active: EncounterMap<bool>) -> bool {
    exists|t: EncounterType| #[trigger] active.slot(t) == Some(true)
}

/// The quest that the first encounter from place `from` on waits for, among
/// those that are not open.
pub open spec fn waits_for(location: QuestLocation, active: EncounterMap<bool>, from: int) -> Option<QuestId>
    decreases 5 - from,
{
    if from >= 5 || from < 0 {
        None
    } else {
        let t = EncounterType::at(from);
        if active.slot(t) != Some(true) && location.slot(t) is Some && location.slot(t)->Some_0.prerequisite is Some {
            location.slot(t)->Some_0.prerequisite
        } else {
            waits_for(location, active, from + 1)
        }
    }
}

/// The hint for a location; none where no encounter there is listed.
pub open spec fn hint_at(location: QuestLocation, l: u16, q: QuestView, quests: Map<u16, QuestView>, is_map: bool) -> Option<
    Hint,
> {
    let active = active_of(location, q, quests, is_map);
    if active == EncounterMap::<bool>::empty() {
        None
    } else {
        Some(
            Hint {
                location_id: LocationId(l),
                active,
                outline: !has_open(active),
                vis: location.min_vis_spec(),
                prerequisite: waits_for(location, active, 0),
                disabled: l == 0,
            },
        )
    }
}

/// Whether a list shows the encounters at a location: the to-do list shows
/// all, the list of a location only its own.
pub open spec fn in_mode(mode: QuestViewMode, l: u16) -> bool {
    match mode {
        QuestViewMode::Todo => true,
        QuestViewMode::Location(at) => at.0 == l,
    }
}

/// The hints for the first `n` locations of a quest.
pub open spec fn hints_before(
    encounter: Seq<(u16, QuestLocation)>,
    q: QuestView,
    quests: Map<u16, QuestView>,
    mode: QuestViewMode,
    n: int,
) -> Seq<Hint>
    decreases n,
{
    if n <= 0 {
        Seq::empty()
    } else {
        let before = hints_before(encounter, q, quests, mode, n - 1);
        let hint = hint_at(encounter[n - 1].1, encounter[n - 1].0, q, quests, mode is Location);
        if in_mode(mode, encounter[n - 1].0) && hint is Some {
            before.push(hint->Some_0)
        } else {
            before
        }
    }
}

/// What a list shows of a quest: nothing where the to-do list meets a hidden
/// quest or the list of a location has no hint; else the hints, location by location.
pub open spec fn hints_of(quest: &Quest, quests: Map<u16, QuestView>, mode: QuestViewMode) -> Option<Seq<Hint>> {
    let hints = hints_before(quest.encounter.seq(), quest@, quests, mode, quest.encounter.seq().len() as int);
    if !(mode is Location) && quest.vis != Vis::Visible {
        None
    } else if hints.len() == 0 && mode is Location {
        None
    } else {
        Some(hints)
    }
}

/// Whether a quest or one of its encounters has the given level of restriction.
pub open spec fn restricts(q: QuestView, vis: Vis) -> bool {
    q.vis == vis || exists|l: u16| #[trigger] q.encounter.contains_key(l) && q.encounter[l].has_vis(vis)
}

/// The greatest restriction of a quest and its encounters.
pub open spec fn max_vis_of(q: QuestView) -> Vis {
    if restricts(q, Vis::HiddenForever) {
        Vis::HiddenForever
    } else if restricts(q, Vis::HiddenThisCampaign) {
        Vis::HiddenThisCampaign
    } else {
        Vis::Visible
    }
}

/// Some entry of the locations has a level of restriction exactly when some location of the quest has it.
proof fn lemma_restricting_entry(quest: &Quest, v: Vis)
    requires
        quest.wf(),
    ensures
        (exists|j: int| 0 <= j < quest.encounter.seq().len() && (#[trigger] quest.encounter.seq()[j]).1.has_vis(v))
            == (exists|l: u16| #[trigger] quest@.encounter.contains_key(l) && quest@.encounter[l].has_vis(v)),
{
    quest.encounter.lemma_entries();
    let s = quest.encounter.seq();
    if exists|j: int| 0 <= j < s.len() && (#[trigger] s[j]).1.has_vis(v) {
        let j = choose|j: int| 0 <= j < s.len() && (#[trigger] s[j]).1.has_vis(v);
        assert(quest@.encounter.contains_key(s[j].0));
    }
    if exists|l: u16| #[trigger] quest@.encounter.contains_key(l) && quest@.encounter[l].has_vis(v) {
        let l = choose|l: u16| #[trigger] quest@.encounter.contains_key(l) && quest@.encounter[l].has_vis(v);
        let j = choose|j: int| 0 <= j < s.len() && #[trigger] s[j].0 == l;
        assert(s[j].1.has_vis(v));
    }
}

fn any_open(active: &EncounterMap<bool>) -> (r: bool)
    ensures
        r == has_open(*active),
{
    let open = |e: Option<bool>| -> (r: bool)
        ensures
            r == (e == Some(true)),
        {
            match e {
                Some(b) => b,
                None => false,
            }
        };
    let r = open(active.unless) || open(active.gain) || open(active.when) || open(active.complete) || open(
        active.lose,
    );
    proof {
        if r {
            if active.unless == Some(true) {
                assert(active.slot(EncounterType::Unless) == Some(true));
            } else if active.gain == Some(true) {
                assert(active.slot(EncounterType::Gain) == Some(true));
            } else if active.when == Some(true) {
                assert(active.slot(EncounterType::When) == Some(true));
            } else if active.complete == Some(true) {
                assert(active.slot(EncounterType::Complete) == Some(true));
            } else {
                assert(active.slot(EncounterType::Lose) == Some(true));
            }
        }
    }
    r
}

fn first_waiting(location: &QuestLocation, active: &EncounterMap<bool>) -> (r: Option<QuestId>)
    ensures
        r == waits_for(*location, *active, 0),
{
    let mut i: u8 = 0;
    while i < 5
        invariant
            i <= 5,
            waits_for(*location, *active, 0) == waits_for(*location, *active, i as int),
        decreases 5 - i,
    {
        let t = EncounterType::from_raw(i).unwrap();
        let open = match active.get(t) {
            Some(b) => b,
            None => false,
        };
        if !open {
            match location.get(t) {
                Some(e) => {
                    if e.prerequisite.is_some() {
                        return e.prerequisite;
                    }
                },
                None => {},
            }
        }
        i = i + 1;
    }
    None
}

impl Quest {
    /// What a list shows of the quest.
    pub fn hints(&self, data: &Data, view_mode: QuestViewMode) -> (r: Option<Vec<Hint>>)
        requires
            self.wf(),
            data.quest.wf(),
        ensures
            match hints_of(self, data@.quest, view_mode) {
                Some(hints) => r is Some && r->Some_0@ == hints,
                None => r is None,
            },
    {
        let is_map = match view_mode {
            QuestViewMode::Todo => false,
            QuestViewMode::Location(_) => true,
        };
        if !is_map && self.vis != Vis::Visible {
            return None;
        }
        let mut hints: Vec<Hint> = Vec::new();
        let mut i: usize = 0;
        while i < self.encounter.len()
            invariant
                self.wf(),
                data.quest.wf(),
                is_map == (view_mode is Location),
                i <= self.encounter.seq().len(),
                hints@ == hints_before(self.encounter.seq(), self@, data@.quest, view_mode, i as int),
            decreases self.encounter.seq().len() - i,
        {
            let l = self.encounter.key_at(i);
            let location = self.encounter.value_at(i);
            if view_mode.filter(LocationId(l)) {
                let active = location.get_active(self, data, is_map);
                proof {
                    EncounterMap::lemma_same_slots(active, active_of(*location, self@, data@.quest, is_map));
                }
                if !active.is_empty() {
                    hints.push(
                        Hint {
                            location_id: LocationId(l),
                            active,
                            outline: !any_open(&active),
                            vis: location.min_vis(),
                            prerequisite: first_waiting(location, &active),
                            disabled: l == 0,
                        },
                    );
                }
            }
            i = i + 1;
        }
        if hints.len() == 0 && is_map {
            return None;
        }
        Some(hints)
    }

    /// The greatest restriction of the quest and its encounters.
    pub fn max_vis(&self) -> (r: Vis)
        requires
            self.wf(),
        ensures
            r == max_vis_of(self@),
    {
        let mut forever = self.vis == Vis::HiddenForever;
        let mut campaign = self.vis == Vis::HiddenThisCampaign;
        let mut i: usize = 0;
        while i < self.encounter.len()
            invariant
                self.wf(),
                i <= self.encounter.seq().len(),
                forever == (self.vis == Vis::HiddenForever || exists|j: int|
                    0 <= j < i && (#[trigger] self.encounter.seq()[j]).1.has_vis(Vis::HiddenForever)),
                campaign == (self.vis == Vis::HiddenThisCampaign || exists|j: int|
                    0 <= j < i && (#[trigger] self.encounter.seq()[j]).1.has_vis(Vis::HiddenThisCampaign)),
            decreases self.encounter.seq().len() - i,
        {
            let location = self.encounter.value_at(i);
            let ghost f0 = forever;
            let ghost c0 = campaign;
            if location.contains_vis(Vis::HiddenForever) {
                forever = true;
            }
            if location.contains_vis(Vis::HiddenThisCampaign) {
                campaign = true;
            }
            proof {
                let s = self.encounter.seq();
                if exists|j: int| 0 <= j < i + 1 && (#[trigger] s[j]).1.has_vis(Vis::HiddenForever) {
                    let j = choose|j: int| 0 <= j < i + 1 && (#[trigger] s[j]).1.has_vis(Vis::HiddenForever);
                    if j < i {
                        assert(0 <= j < i && s[j].1.has_vis(Vis::HiddenForever));
                    }
                }
                if exists|j: int| 0 <= j < i + 1 && (#[trigger] s[j]).1.has_vis(Vis::HiddenThisCampaign) {
                    let j = choose|j: int| 0 <= j < i + 1 && (#[trigger] s[j]).1.has_vis(Vis::HiddenThisCampaign);
                    if j < i {
                        assert(0 <= j < i && s[j].1.has_vis(Vis::HiddenThisCampaign));
                    }
                }
                if f0 && self.vis != Vis::HiddenForever {
                    let j = choose|j: int| 0 <= j < i && (#[trigger] s[j]).1.has_vis(Vis::HiddenForever);
                    assert(0 <= j < i + 1 && s[j].1.has_vis(Vis::HiddenForever));
                }
                if c0 && self.vis != Vis::HiddenThisCampaign {
                    let j = choose|j: int| 0 <= j < i && (#[trigger] s[j]).1.has_vis(Vis::HiddenThisCampaign);
                    assert(0 <= j < i + 1 && s[j].1.has_vis(Vis::HiddenThisCampaign));
                }
                if location.has_vis(Vis::HiddenForever) {
                    assert(s[i as int].1.has_vis(Vis::HiddenForever));
                }
                if location.has_vis(Vis::HiddenThisCampaign) {
                    assert(s[i as int].1.has_vis(Vis::HiddenThisCampaign));
                }
            }
            i = i + 1;
        }
        proof {
            lemma_restricting_entry(self, Vis::HiddenForever);
            lemma_restricting_entry(self, Vis::HiddenThisCampaign);
        }
        if forever {
            Vis::HiddenForever
        } else if campaign {
            Vis::HiddenThisCampaign
        } else {
            Vis::Visible
        }
    }
}

} // verus!
