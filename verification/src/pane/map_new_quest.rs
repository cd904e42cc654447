//! The pane that adds an encounter to a location: first its type, then its
//! quest, then a note and a prerequisite.

use crate::data::encounter_type::EncounterType;
use crate::data::quest::{Quest, QuestState, QuestView};
use crate::data::quest_location::{QuestLocation, QuestLocationEncounter};
use crate::data::sub_component::UpdateResults;
use crate::data::vis::Vis;
use crate::game::catalog::Catalog;
use crate::game::location_id::LocationId;
use crate::game::quest_id::QuestId;
use crate::global::data::{location_fits, quest_or_blank, Data, Effect};
use crate::pane::action::performed;
use crate::ser::game_data_3::location_or_empty;
use crate::text::{parse_usize, parsed_usize};
use vstd::prelude::*;

verus! {

/// What the player asks for in the pane.
pub enum MsgMapNewQuest {
    SelectEncounterType(EncounterType),
    SelectQuest(QuestId),
    SetPrerequisite(String),
    Save(String),
}

/// The step that the pane is at.
#[derive(Clone, Copy, Debug, PartialEq, Eq, Structural)]
pub enum Page {
    SelectEncounterType,
    SelectQuest,
    NoteAndPrerequisite,
}

/// The pane, with what was chosen so far.
pub struct PaneMapNewQuest {
    pub page: Page,
    pub location_id: LocationId,
    pub encounter_type: EncounterType,
    pub quest_id: QuestId,
    pub prerequisite: Option<QuestId>,
}

/// Whether an encounter of the given type can be added for a quest in the
/// given state: a quest is gained only while it is not found, and completed or
/// lost only while it is in the game.
pub open spec fn allowed(nqt: EncounterType, quest: Option<QuestState>) -> bool {
    match nqt {
        EncounterType::Gain => quest is None || quest == Some(QuestState::NotFound),
        EncounterType::Complete | EncounterType::Lose => quest == Some(QuestState::InGame),
        EncounterType::When | EncounterType::Unless => true,
    }
}

/// The state of a quest of the journal, if the journal holds it.
pub open spec fn state_in(quests: Map<u16, QuestView>, k: u16) -> Option<QuestState> {
    if quests.contains_key(k) {
        Some(quests[k].state)
    } else {
        None
    }
}

pub fn nqt_allow(nqt: EncounterType, data: &Data, quest_id: QuestId) -> (r: bool)
    requires
        data.quest.wf(),
    ensures
        r == allowed(nqt, state_in(data@.quest, quest_id.0)),
{
    let state = match data.quest.get(quest_id.0) {
        Some(q) => Some(q.state),
        None => None,
    };
    match nqt {
        EncounterType::Gain => match state {
            Some(s) => s == QuestState::NotFound,
            None => true,
        },
        EncounterType::Complete | EncounterType::Lose => match state {
            Some(s) => s == QuestState::InGame,
            None => false,
        },
        EncounterType::When | EncounterType::Unless => true,
    }
}

/// The heading of an encounter type.
pub open spec fn head_of(nqt: EncounterType) -> Seq<char> {
    match nqt {
        EncounterType::Gain => "Gain"@,
        EncounterType::Complete => "Complete"@,
        EncounterType::Lose => "Lose"@,
        EncounterType::When => "When"@,
        EncounterType::Unless => "Unless"@,
    }
}

pub fn nqt_head(nqt: EncounterType) -> (r: &'static str)
    ensures
        r@ == head_of(nqt),
{
    match nqt {
        EncounterType::Gain => "Gain",
        EncounterType::Complete => "Complete",
        EncounterType::Lose => "Lose",
        EncounterType::When => "When",
        EncounterType::Unless => "Unless",
    }
}

/// The prerequisite that a chosen text stands for: the quest with the number
/// that the text spells, if the catalog has it.
pub open spec fn chosen_prerequisite(catalog: &Catalog, text: Seq<char>) -> Option<QuestId> {
    match parsed_usize(text) {
        Some(raw) => if (raw as int) < catalog.quest_count() {
            Some(QuestId(raw as u16))
        } else {
            None
        },
        None => None,
    }
}

/// A quest after an encounter was added to it: its state is that after the
/// encounter was performed, its note is the new one, and the encounter stands
/// under its type at the location, not hidden.
pub open spec fn with_new_encounter(
    q: QuestView,
    l: u16,
    encounter_type: EncounterType,
    prerequisite: Option<QuestId>,
    note: Seq<char>,
) -> QuestView {
    QuestView {
        state: performed(q.state, encounter_type),
        encounter: q.encounter.insert(
            l,
            location_or_empty(q.encounter, l).with(
                encounter_type,
                Some(QuestLocationEncounter { prerequisite, vis: Vis::Visible }),
            ),
        ),
        vis: q.vis,
        note,
    }
}

/// What handling a message makes of the pane and the journal, and what it reports.
pub open spec fn new_quest_updated(
    pane: PaneMapNewQuest,
    before: Data,
    msg: MsgMapNewQuest,
    pane_after: PaneMapNewQuest,
    after: Data,
    r: UpdateResults,
) -> bool {
    &&& after.wf()
    &&& pane_after.fits(&after.quest_locale.catalog)
    &&& after.quest_locale == before.quest_locale
    &&& after@.location == before@.location
    &&& match msg {
        MsgMapNewQuest::SelectEncounterType(nqt) => pane_after == (PaneMapNewQuest {
            encounter_type: nqt,
            page: Page::SelectQuest,
            ..pane
        }) && after@ == before@ && after.chain_msg == before.chain_msg && r
            == (UpdateResults { render: true, save_game_data: false, save_settings: false }),
        MsgMapNewQuest::SelectQuest(quest_id) => pane_after == (PaneMapNewQuest {
            quest_id,
            prerequisite: None,
            page: Page::NoteAndPrerequisite,
            ..pane
        }) && after@ == before@ && after.chain_msg == before.chain_msg && r
            == (UpdateResults { render: true, save_game_data: false, save_settings: false }),
        MsgMapNewQuest::SetPrerequisite(text) => pane_after == (PaneMapNewQuest {
            prerequisite: chosen_prerequisite(&before.quest_locale.catalog, text@),
            ..pane
        }) && after@ == before@ && after.chain_msg == before.chain_msg && r
            == (UpdateResults { render: false, save_game_data: false, save_settings: false }),
        MsgMapNewQuest::Save(note) => pane_after == pane && after@.quest == before@.quest.insert(
            pane.quest_id.0,
            with_new_encounter(
                quest_or_blank(before@.quest, pane.quest_id.0),
                pane.location_id.0,
                pane.encounter_type,
                pane.prerequisite,
                note@,
            ),
        ) && after.chain_msg@ == before.chain_msg@.push(Effect::Back) && r == (UpdateResults {
            render: false,
            save_game_data: true,
            save_settings: false,
        }),
    }
}

impl PaneMapNewQuest {
    /// Whether every identifier that the pane holds is one of the catalog.
    pub open spec fn fits(&self, catalog: &Catalog) -> bool {
        &&& self.location_id.known(catalog)
        &&& self.quest_id.known(catalog)
        &&& self.prerequisite is Some ==> self.prerequisite->Some_0.known(catalog)
    }

    /// The pane before it was turned to anything.
    pub fn create() -> (r: Self)
        ensures
            r == (PaneMapNewQuest {
                page: Page::SelectEncounterType,
                location_id: LocationId(0),
                encounter_type: EncounterType::Unless,
                quest_id: QuestId(1),
                prerequisite: None,
            }),
    {
        PaneMapNewQuest {
            page: Page::SelectEncounterType,
            location_id: LocationId::prologue(),
            encounter_type: EncounterType::Unless,
            quest_id: QuestId::cottage(),
            prerequisite: None,
        }
    }

    /// Turns the pane to a location and to its first step.
    pub fn go(&mut self, location_id: LocationId)
        ensures
            *final(self) == (PaneMapNewQuest { location_id, page: Page::SelectEncounterType, ..*old(self) }),
    {
        self.location_id = location_id;
        self.page = Page::SelectEncounterType;
    }

    /// Handles a message. The choices move the pane a step on; saving puts
    /// the encounter into the journal, asks to leave the pane and asks for the
    /// journal to be stored.
    pub fn update(&mut self, data: &mut Data, msg: MsgMapNewQuest) -> (r: UpdateResults)
        requires
            old(data).wf(),
            old(self).fits(&old(data).quest_locale.catalog),
            msg matches MsgMapNewQuest::SelectQuest(q) ==> q.known(&old(data).quest_locale.catalog),
        ensures
            new_quest_updated(*old(self), *old(data), msg, *final(self), *final(data), r),
    {
        match msg {
            MsgMapNewQuest::SelectEncounterType(nqt) => {
                self.encounter_type = nqt;
                self.page = Page::SelectQuest;
                UpdateResults::render()
            },
            MsgMapNewQuest::SelectQuest(quest_id) => {
                self.quest_id = quest_id;
                self.prerequisite = None;
                self.page = Page::NoteAndPrerequisite;
                UpdateResults::render()
            },
            MsgMapNewQuest::SetPrerequisite(prerequisite) => {
                self.prerequisite = match parse_usize(prerequisite.as_str()) {
                    Some(raw) => QuestId::from_raw(raw, &data.quest_locale.catalog),
                    None => None,
                };
                UpdateResults::empty()
            },
            MsgMapNewQuest::Save(note) => {
                let ghost catalog = &data.quest_locale.catalog;
                let mut quest = match data.take_quest(self.quest_id) {
                    Some(q) => q,
                    None => Quest::new(),
                };
                let ghost before = quest@;
                match self.encounter_type {
                    EncounterType::Gain => {
                        quest.state = QuestState::InGame;
                    },
                    EncounterType::Complete | EncounterType::Lose => {
                        quest.state = QuestState::Removed;
                    },
                    EncounterType::When | EncounterType::Unless => {},
                }
                quest.note = note;
                let mut encounters = match quest.encounter.get(self.location_id.0) {
                    Some(l) => *l,
                    None => QuestLocation::new(),
                };
                let ghost base = encounters;
                encounters.insert(self.encounter_type, self.prerequisite, Vis::Visible);
                quest.encounter.insert(self.location_id.0, encounters);
                proof {
                    assert(base == location_or_empty(before.encounter, self.location_id.0));
                    assert(location_fits(base, catalog)) by {
                        if !before.encounter.contains_key(self.location_id.0) {
                            assert forall|key: EncounterType| (#[trigger] base.slot(key)) is None by {}
                        }
                    }
                    assert forall|key: EncounterType|
                        (#[trigger] encounters.slot(key)) is Some && encounters.slot(key)->Some_0.prerequisite is Some
                        implies encounters.slot(key)->Some_0.prerequisite->Some_0.known(catalog) by {
                        if key != self.encounter_type {
                            assert(encounters.slot(key) == base.slot(key));
                        }
                    }
                    assert forall|l: u16| #[trigger] quest@.encounter.contains_key(l) implies (l as int)
                        < catalog.location_count() && location_fits(quest@.encounter[l], catalog) by {
                        if l != self.location_id.0 {
                            assert(before.encounter.contains_key(l));
                        }
                    }
                }
                data.put_quest(self.quest_id, quest);
                proof {
                    assert(data@.quest =~= old(data)@.quest.insert(
                        self.quest_id.0,
                        with_new_encounter(
                            quest_or_blank(old(data)@.quest, self.quest_id.0),
                            self.location_id.0,
                            self.encounter_type,
                            self.prerequisite,
                            note@,
                        ),
                    ));
                }
                data.chain_msg.push(Effect::Back);
                UpdateResults::save_game_data()
            },
        }
    }
}

/// Whether a quest can be the prerequisite of an encounter at a location: it
/// is over, and it can be completed or lost there.
pub open spec fn can_precede(q: QuestView, l: u16) -> bool {
    q.state == QuestState::Removed && q.encounter.contains_key(l) && (q.encounter[l].slot(EncounterType::Complete) is Some
        || q.encounter[l].slot(EncounterType::Lose) is Some)
}

/// Those of the first `n` listed quests that can be the prerequisite of an encounter at a location.
pub open spec fn precede_before(listed: Seq<QuestId>, quests: Map<u16, QuestView>, l: u16, n: int) -> Seq<QuestId>
    decreases n,
{
    if n <= 0 {
        Seq::empty()
    } else if can_precede(quests[listed[n - 1].0], l) {
        precede_before(listed, quests, l, n - 1).push(listed[n - 1])
    } else {
        precede_before(listed, quests, l, n - 1)
    }
}

/// Those of the first `n` quests of a list for which an encounter of a type can be added.
pub open spec fn allowed_before(order: Seq<QuestId>, quests: Map<u16, QuestView>, nqt: EncounterType, n: int) -> Seq<
    QuestId,
>
    decreases n,
{
    if n <= 0 {
        Seq::empty()
    } else if allowed(nqt, state_in(quests, order[n - 1].0)) {
        allowed_before(order, quests, nqt, n - 1).push(order[n - 1])
    } else {
        allowed_before(order, quests, nqt, n - 1)
    }
}

impl PaneMapNewQuest {
    /// The quests that the second step offers: every quest for which an
    /// encounter of the chosen type can be added, in the order of the names.
    pub fn quests(&self, data: &Data) -> (r: Vec<QuestId>)
        requires
            data.wf(),
        ensures
            r@ == allowed_before(
                data.quest_locale.translation@,
                data@.quest,
                self.encounter_type,
                data.quest_locale.translation@.len() as int,
            ),
    {
        let mut r: Vec<QuestId> = Vec::new();
        let mut i: usize = 0;
        while i < data.quest_locale.translation.len()
            invariant
                data.wf(),
                i <= data.quest_locale.translation@.len(),
                r@ == allowed_before(data.quest_locale.translation@, data@.quest, self.encounter_type, i as int),
            decreases data.quest_locale.translation@.len() - i,
        {
            let quest_id = data.quest_locale.translation[i];
            if nqt_allow(self.encounter_type, data, quest_id) {
                r.push(quest_id);
            }
            i = i + 1;
        }
        r
    }

    /// The quests that the third step offers as prerequisite: for an encounter
    /// that gains the quest, the quests that are over and can be completed or
    /// lost at the location, in the order of their names; else none.
    pub fn prerequisites(&self, data: &Data) -> (r: Vec<QuestId>)
        requires
            data.wf(),
        ensures
            r@ == (if self.encounter_type == EncounterType::Gain {
                precede_before(data.listed(), data@.quest, self.location_id.0, data.listed().len() as int)
            } else {
                Seq::<QuestId>::empty()
            }),
    {
        let mut r: Vec<QuestId> = Vec::new();
        if self.encounter_type != EncounterType::Gain {
            return r;
        }
        let quests = data.quest_iter();
        let mut i: usize = 0;
        while i < quests.len()
            invariant
                data.wf(),
                quests@.len() == data.listed().len(),
                forall|j: int|
                    0 <= j < quests@.len() ==> (#[trigger] quests@[j]).0 == data.listed()[j]
                        && data.quest@.contains_key(quests@[j].0.0) && *quests@[j].1 == data.quest@[quests@[j].0.0],
                i <= quests@.len(),
                r@ == precede_before(data.listed(), data@.quest, self.location_id.0, i as int),
            decreases quests@.len() - i,
        {
            let quest = quests[i].1;
            assert(quest@ == data@.quest[data.listed()[i as int].0]);
            if quest.state == QuestState::Removed {
                match quest.encounter.get(self.location_id.0) {
                    Some(location) => {
                        if location.contains_key(EncounterType::Complete) || location.contains_key(EncounterType::Lose) {
                            r.push(quests[i].0);
                        }
                    },
                    None => {},
                }
            }
            i = i + 1;
        }
        r
    }
}

} // verus!
