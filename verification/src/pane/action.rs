//! The pane of one quest at one location: what can be done there, and what doing it changes.

use crate::data::encounter_type::EncounterType;
use crate::data::quest::{Quest, QuestState, QuestView};
use crate::data::quest_location::{active_slot, QuestLocation, QuestLocationEncounter};
use crate::data::sub_component::UpdateResults;
use crate::data::vis::Vis;
use crate::game::location_id::LocationId;
use crate::game::msg::MsgKey;
use crate::game::quest_id::QuestId;
use crate::global::data::{Data, Effect};
use vstd::prelude::*;

verus! {

/// What the player asks for in the pane.
pub enum MsgAction {
    Perform(EncounterType),
    Hide(EncounterType, Vis, bool),
    HideQuest(Vis),
    Note(String),
}

/// The pane, turned to one quest at one location.
pub struct PaneAction {
    pub quest_id: QuestId,
    pub location_id: LocationId,
    pub is_map: bool,
}

/// The state of a quest after an encounter of the given type was performed.
pub open spec fn performed(state: QuestState, encounter_type: EncounterType) -> QuestState {
    match encounter_type {
        EncounterType::Unless | EncounterType::When => state,
        EncounterType::Gain => QuestState::InGame,
        EncounterType::Complete | EncounterType::Lose => QuestState::Removed,
    }
}

/// A quest after an encounter of it at a location was given a level of restriction.
pub open spec fn with_encounter_vis(q: QuestView, location: u16, encounter_type: EncounterType, vis: Vis) -> QuestView {
    if q.encounter.contains_key(location) && q.encounter[location].slot(encounter_type) is Some {
        let e = q.encounter[location].slot(encounter_type)->Some_0;
        QuestView {
            encounter: q.encounter.insert(
                location,
                q.encounter[location].with(encounter_type, Some(QuestLocationEncounter { vis, ..e })),
            ),
            ..q
        }
    } else {
        q
    }
}

/// A quest after a message of the pane.
pub open spec fn acted_quest(q: QuestView, location: u16, msg: MsgAction) -> QuestView {
    match msg {
        MsgAction::Perform(encounter_type) => QuestView { state: performed(q.state, encounter_type), ..q },
        MsgAction::Hide(encounter_type, vis, _) => with_encounter_vis(q, location, encounter_type, vis),
        MsgAction::HideQuest(vis) => QuestView { vis, ..q },
        MsgAction::Note(note) => QuestView { note: note@, ..q },
    }
}

/// Whether the pane is left after a message.
pub open spec fn goes_back(msg: MsgAction) -> bool {
    match msg {
        MsgAction::Perform(_) => true,
        MsgAction::Hide(_, _, back) => back,
        MsgAction::HideQuest(_) => true,
        MsgAction::Note(_) => false,
    }
}

/// The quests of a journal after a message of the pane about one of them.
pub open spec fn acted(quests: Map<u16, QuestView>, quest: u16, location: u16, msg: MsgAction) -> Map<
    u16,
    QuestView,
> {
    if quests.contains_key(quest) {
        quests.insert(quest, acted_quest(quests[quest], location, msg))
    } else {
        quests
    }
}

/// The message under the button of an encounter; `Unless` and `When` have no button.
pub open spec fn action_message(encounter_type: EncounterType, state: QuestState, active: bool) -> Option<MsgKey> {
    match encounter_type {
        EncounterType::Unless | EncounterType::When => None,
        EncounterType::Gain => if active {
            Some(MsgKey::ActiGainQuest)
        } else if state != QuestState::NotFound {
            Some(MsgKey::ActiGainQuestFound)
        } else {
            Some(MsgKey::ActiGainQuestNoPre)
        },
        EncounterType::Complete => if active {
            Some(MsgKey::ActiCompleteQuest)
        } else {
            Some(MsgKey::ActiCompleteQuestNo)
        },
        EncounterType::Lose => if active {
            Some(MsgKey::ActiLoseQuest)
        } else {
            Some(MsgKey::ActiLoseQuestNo)
        },
    }
}

pub fn et2msg(encounter_type: EncounterType, quest: &Quest, active: bool) -> (r: Option<MsgKey>)
    ensures
        r == action_message(encounter_type, quest.state, active),
{
    match encounter_type {
        EncounterType::Unless | EncounterType::When => None,
        EncounterType::Gain => {
            if active {
                Some(MsgKey::ActiGainQuest)
            } else if quest.state != QuestState::NotFound {
                Some(MsgKey::ActiGainQuestFound)
            } else {
                Some(MsgKey::ActiGainQuestNoPre)
            }
        },
        EncounterType::Complete => {
            if active {
                Some(MsgKey::ActiCompleteQuest)
            } else {
                Some(MsgKey::ActiCompleteQuestNo)
            }
        },
        EncounterType::Lose => {
            if active {
                Some(MsgKey::ActiLoseQuest)
            } else {
                Some(MsgKey::ActiLoseQuestNo)
            }
        },
    }
}

/// What handling a message makes of the pane and the journal, and what it reports.
pub open spec fn action_updated(
    pane: PaneAction,
    before: Data,
    msg: MsgAction,
    pane_after: PaneAction,
    after: Data,
    r: UpdateResults,
) -> bool {
    &&& after.wf()
    &&& after@.quest == acted(before@.quest, pane.quest_id.0, pane.location_id.0, msg)
    &&& after@.location == before@.location
    &&& after.quest_locale == before.quest_locale
    &&& after.chain_msg@ == (if goes_back(msg) {
        before.chain_msg@.push(Effect::Back)
    } else {
        before.chain_msg@
    })
    &&& pane_after.quest_id == pane.quest_id
    &&& pane_after.location_id == pane.location_id
    &&& pane_after.is_map == pane.is_map
    &&& r == (UpdateResults { render: false, save_game_data: true, save_settings: false })
}

impl PaneAction {
    /// The pane before it was turned to anything.
    pub fn create() -> (r: Self)
        ensures
            r.quest_id == QuestId(1),
            r.location_id == LocationId(0),
            r.is_map,
    {
        PaneAction { quest_id: QuestId::cottage(), location_id: LocationId::prologue(), is_map: true }
    }

    /// Handles a message: changes the quest that the pane is turned to, if the
    /// journal holds it, asks to leave the pane where the message says so, and
    /// asks for the journal to be stored.
    pub fn update(&mut self, data: &mut Data, msg: MsgAction) -> (r: UpdateResults)
        requires
            old(data).wf(),
            msg is Note ==> old(data)@.quest.contains_key(old(self).quest_id.0),
        ensures
            action_updated(*old(self), *old(data), msg, *final(self), *final(data), r),
    {
        let ghost spec_msg = msg;
        let quest_id = self.quest_id;
        let location = self.location_id.0;
        let mut back = true;
        match data.take_quest(quest_id) {
            Some(mut quest) => {
                let ghost before = quest@;
                match msg {
                    MsgAction::Perform(encounter_type) => {
                        match encounter_type {
                            EncounterType::Unless | EncounterType::When => {},
                            EncounterType::Gain => {
                                quest.state = QuestState::InGame;
                            },
                            EncounterType::Complete | EncounterType::Lose => {
                                quest.state = QuestState::Removed;
                            },
                        }
                    },
                    MsgAction::Hide(encounter_type, vis, and_back) => {
                        back = and_back;
                        let found = match quest.encounter.get(location) {
                            Some(l) => Some(*l),
                            None => None,
                        };
                        match found {
                            Some(mut quest_location) => {
                                if quest_location.set_vis(encounter_type, vis) {
                                    quest.encounter.insert(location, quest_location);
                                }
                            },
                            None => {},
                        }
                    },
                    MsgAction::HideQuest(vis) => {
                        quest.vis = vis;
                    },
                    MsgAction::Note(note) => {
                        back = false;
                        quest.note = note;
                    },
                }
                proof {
                    let catalog = &data.quest_locale.catalog;
                    assert(quest@ == acted_quest(before, location, spec_msg));
                    assert forall|l: u16| #[trigger] quest@.encounter.contains_key(l) implies (l as int)
                        < catalog.location_count() && crate::global::data::location_fits(
                        quest@.encounter[l],
                        catalog,
                    ) by {
                        assert(before.encounter.contains_key(l));
                        assert(crate::global::data::location_fits(before.encounter[l], catalog));
                        if quest@.encounter[l] != before.encounter[l] {
                            assert forall|key: EncounterType|
                                (#[trigger] quest@.encounter[l].slot(key)) is Some && quest@.encounter[l].slot(
                                    key,
                                )->Some_0.prerequisite is Some implies quest@.encounter[l].slot(
                                key,
                            )->Some_0.prerequisite->Some_0.known(catalog) by {
                                assert(before.encounter[l].slot(key) is Some);
                            }
                        }
                    }
                }
                data.put_quest(quest_id, quest);
                proof {
                    assert(data@.quest =~= acted(old(data)@.quest, quest_id.0, location, spec_msg));
                }
            },
            None => {
                match msg {
                    MsgAction::Hide(_, _, and_back) => {
                        back = and_back;
                    },
                    _ => {},
                }
                proof {
                    assert(data@.quest =~= old(data)@.quest);
                }
            },
        }
        if back {
            data.chain_msg.push(Effect::Back);
        }
        UpdateResults::save_game_data()
    }

    /// Turns the pane to a quest at a location, if the journal holds the quest
    /// and the quest has encounters there; says whether it did.
    pub fn go(&mut self, data: &Data, quest_id: QuestId, location_id: LocationId, is_map: bool) -> (r: bool)
        requires
            data.wf(),
        ensures
            r == (data@.quest.contains_key(quest_id.0) && data@.quest[quest_id.0].encounter.contains_key(
                location_id.0,
            )),
            r ==> *final(self) == (PaneAction { quest_id, location_id, is_map }),
            !r ==> *final(self) == *old(self),
    {
        match data.quest.get(quest_id.0) {
            Some(q) => {
                if q.encounter.contains_key(location_id.0) {
                    self.quest_id = quest_id;
                    self.location_id = location_id;
                    self.is_map = is_map;
                    return true;
                }
            },
            None => {},
        }
        false
    }
}

/// What the pane shows of one encounter: its type, how far it is hidden,
/// whether it is open, and the message under its button, if it has one.
#[derive(Clone, Copy, Debug, PartialEq, Eq, Structural)]
pub struct ActionEntry {
    pub encounter_type: EncounterType,
    pub vis: Vis,
    pub active: bool,
    pub message: Option<MsgKey>,
}

/// What the pane shows of the encounter of a type, if it shows it.
pub open spec fn entry_of(
    location: QuestLocation,
    encounter_type: EncounterType,
    q: QuestView,
    quests: Map<u16, QuestView>,
    is_map: bool,
) -> Option<ActionEntry> {
    match active_slot(location, encounter_type, q.state, q.vis, quests, is_map) {
        Some(active) => Some(
            ActionEntry {
                encounter_type,
                vis: location.slot(encounter_type)->Some_0.vis,
                active,
                message: action_message(encounter_type, q.state, active),
            },
        ),
        None => None,
    }
}

/// What the pane shows of the first `n` encounter types at a location.
pub open spec fn entries_before(
    location: QuestLocation,
    q: QuestView,
    quests: Map<u16, QuestView>,
    is_map: bool,
    n: int,
) -> Seq<ActionEntry>
    decreases n,
{
    if n <= 0 {
        Seq::empty()
    } else {
        let before = entries_before(location, q, quests, is_map, n - 1);
        match entry_of(location, EncounterType::at(n - 1), q, quests, is_map) {
            Some(entry) => before.push(entry),
            None => before,
        }
    }
}

impl PaneAction {
    /// What the pane shows: an entry for each encounter of its quest at its
    /// location that is listed, in the declared order of the types.
    pub fn entries(&self, data: &Data) -> (r: Vec<ActionEntry>)
        requires
            data.wf(),
            data@.quest.contains_key(self.quest_id.0),
        ensures
            r@ == (if data@.quest[self.quest_id.0].encounter.contains_key(self.location_id.0) {
                entries_before(
                    data@.quest[self.quest_id.0].encounter[self.location_id.0],
                    data@.quest[self.quest_id.0],
                    data@.quest,
                    self.is_map,
                    5,
                )
            } else {
                Seq::<ActionEntry>::empty()
            }),
    {
        let mut entries: Vec<ActionEntry> = Vec::new();
        let quest = match data.quest.get(self.quest_id.0) {
            Some(quest) => quest,
            None => {
                return entries;
            },
        };
        let location = match quest.encounter.get(self.location_id.0) {
            Some(location) => location,
            None => {
                return entries;
            },
        };
        let active = location.get_active(quest, data, self.is_map);
        let mut i: u8 = 0;
        while i < 5
            invariant
                i <= 5,
                forall|key: EncounterType| #[trigger]
                    active.slot(key) == active_slot(*location, key, quest.state, quest.vis, data@.quest, self.is_map),
                entries@ == entries_before(*location, quest@, data@.quest, self.is_map, i as int),
            decreases 5 - i,
        {
            let encounter_type = EncounterType::from_raw(i).unwrap();
            assert(active.slot(encounter_type) == active_slot(
                *location,
                encounter_type,
                quest.state,
                quest.vis,
                data@.quest,
                self.is_map,
            ));
            match active.get(encounter_type) {
                Some(open) => {
                    let vis = match location.get(encounter_type) {
                        Some(e) => e.vis,
                        None => Vis::Visible,
                    };
                    entries.push(
                        ActionEntry {
                            encounter_type,
                            vis,
                            active: open,
                            message: et2msg(encounter_type, quest, open),
                        },
                    );
                },
                None => {},
            }
            i = i + 1;
        }
        entries
    }
}

} // verus!
