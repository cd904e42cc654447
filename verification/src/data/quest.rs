//! A quest: where it stands, what is known of it at each location, and a note.

use crate::data::encounter_type::EncounterType;
use crate::data::quest_location::QuestLocation;
use crate::data::vis::Vis;
use crate::game::catalog::Catalog;
use crate::game::location_id::LocationId;
use crate::game::msg::MsgKey;
use crate::game::quest_id::QuestId;
use crate::id_map::IdMap;
use crate::text::str_eq;
use vstd::prelude::*;

verus! {

/// The life of a quest: not yet found, in the game, or over.
#[derive(Clone, Copy, Debug, PartialEq, Eq, Hash, Structural)]
pub enum QuestState {
    NotFound,
    InGame,
    Removed,
}

impl Default for QuestState {
    fn default() -> (r: Self)
        ensures
            r == QuestState::NotFound,
    {
        QuestState::NotFound
    }
}

impl QuestState {
    /// The tag that stands for a state in an exchanged file.
    pub open spec fn csv_tag(self) -> Seq<char> {
        match self {
            QuestState::NotFound => ""@,
            QuestState::InGame => "in-game"@,
            QuestState::Removed => "removed"@,
        }
    }

    /// The state that a tag stands for, if any.
    pub open spec fn from_csv_tag(tag: Seq<char>) -> Option<QuestState> {
        if tag == QuestState::NotFound.csv_tag() {
            Some(QuestState::NotFound)
        } else if tag == QuestState::InGame.csv_tag() {
            Some(QuestState::InGame)
        } else if tag == QuestState::Removed.csv_tag() {
            Some(QuestState::Removed)
        } else {
            None
        }
    }

    /// The message that names the state.
    pub fn text(self) -> (r: MsgKey)
        ensures
            r == (match self {
                QuestState::NotFound => MsgKey::StateNotFound,
                QuestState::InGame => MsgKey::StateInGame,
                QuestState::Removed => MsgKey::StateRemoved,
            }),
    {
        match self {
            QuestState::NotFound => MsgKey::StateNotFound,
            QuestState::InGame => MsgKey::StateInGame,
            QuestState::Removed => MsgKey::StateRemoved,
        }
    }

    pub fn to_csv(self) -> (r: &'static str)
        ensures
            r@ == self.csv_tag(),
    {
        match self {
            QuestState::NotFound => "",
            QuestState::InGame => "in-game",
            QuestState::Removed => "removed",
        }
    }

    pub fn try_from_csv(input: &str) -> (r: Option<QuestState>)
        ensures
            r == QuestState::from_csv_tag(input@),
    {
        if str_eq(input, "") {
            Some(QuestState::NotFound)
        } else if str_eq(input, "in-game") {
            Some(QuestState::InGame)
        } else if str_eq(input, "removed") {
            Some(QuestState::Removed)
        } else {
            None
        }
    }

    /// Each state is read back from its own tag, and a tag stands for one state only.
    pub proof fn lemma_csv_tag_round_trip(s: QuestState)
        ensures
            QuestState::from_csv_tag(s.csv_tag()) == Some(s),
    {
        reveal_strlit("");
        reveal_strlit("in-game");
        reveal_strlit("removed");
        assert(""@.len() == 0);
        assert("in-game"@[0] == 'i');
        assert("removed"@[0] == 'r');
    }
}

/// A quest as the journal holds it.
pub struct Quest {
    pub state: QuestState,
    pub encounter: IdMap<QuestLocation>,
    pub vis: Vis,
    pub note: String,
}

/// What a quest holds, as plain values.
pub struct QuestView {
    pub state: QuestState,
    pub encounter: Map<u16, QuestLocation>,
    pub vis: Vis,
    pub note: Seq<char>,
}

impl QuestView {
    /// The quest of which nothing is known yet.
    pub open spec fn blank() -> QuestView {
        QuestView { state: QuestState::NotFound, encounter: Map::empty(), vis: Vis::Visible, note: Seq::empty() }
    }

    /// Whether some location holds an encounter of the given type.
    pub open spec fn has_encounter_type(self, encounter_type: EncounterType) -> bool {
        exists|l: u16| #[trigger] self.encounter.contains_key(l) && self.encounter[l].slot(encounter_type) is Some
    }

    /// Whether some location holds an encounter of the given type that is not hidden.
    pub open spec fn has_visible_encounter_type(self, encounter_type: EncounterType) -> bool {
        exists|l: u16| #[trigger]
            self.encounter.contains_key(l) && self.encounter[l].slot(encounter_type) is Some
                && self.encounter[l].slot(encounter_type)->Some_0.vis == Vis::Visible
    }
}

impl Default for Quest {
    fn default() -> (r: Self)
        ensures
            r.wf(),
            r@ == QuestView::blank(),
    {
        Quest::new()
    }
}

impl Clone for Quest {
    fn clone(&self) -> (r: Self)
        ensures
            r@ == self@,
            r.wf() == self.wf(),
            r.encounter.seq() == self.encounter.seq(),
    {
        Quest { state: self.state, encounter: self.encounter.duplicate(), vis: self.vis, note: self.note.clone() }
    }
}

impl Quest {
    /// The invariant of the map of locations.
    pub open spec fn wf(&self) -> bool {
        self.encounter.wf()
    }

    pub open spec fn view(&self) -> QuestView {
        QuestView { state: self.state, encounter: self.encounter@, vis: self.vis, note: self.note@ }
    }

    /// The quest of which nothing is known yet.
    pub fn new() -> (r: Self)
        ensures
            r.wf(),
            r@ == QuestView::blank(),
    {
        Quest { state: QuestState::NotFound, encounter: IdMap::new(), vis: Vis::Visible, note: String::new() }
    }

    /// Whether the quest is a keyword; unknown as long as no location lets it be gained.
    pub fn is_keyword(&self, quest_id: QuestId, catalog: &Catalog) -> (r: Option<bool>)
        requires
            self.wf(),
            quest_id.known(catalog),
        ensures
            r == (if self@.has_encounter_type(EncounterType::Gain) {
                Some(catalog.keywords@[quest_id.0 as int])
            } else {
                None
            }),
    {
        let mut i: usize = 0;
        while i < self.encounter.len()
            invariant
                self.wf(),
                quest_id.known(catalog),
                i <= self.encounter.seq().len(),
                forall|j: int| 0 <= j < i ==> (#[trigger] self.encounter.seq()[j]).1.slot(EncounterType::Gain) is None,
            decreases self.encounter.seq().len() - i,
        {
            if self.encounter.value_at(i).contains_key(EncounterType::Gain) {
                proof {
                    self.encounter.lemma_entries();
                    let l = self.encounter.seq()[i as int].0;
                    assert(self@.encounter.contains_key(l));
                }
                return Some(quest_id.is_keyword_raw(catalog));
            }
            i = i + 1;
        }
        proof {
            self.encounter.lemma_entries();
            if self@.has_encounter_type(EncounterType::Gain) {
                let l = choose|l: u16| #[trigger]
                    self@.encounter.contains_key(l) && self@.encounter[l].slot(EncounterType::Gain) is Some;
                let j = choose|j: int| 0 <= j < self.encounter.seq().len() && #[trigger] self.encounter.seq()[j].0 == l;
                assert(self.encounter.seq()[j].1.slot(EncounterType::Gain) is None);
            }
        }
        None
    }

    /// Whether some location holds an encounter of the given type that is not hidden.
    pub fn contains_visible_encounter_type(&self, encounter_type: EncounterType) -> (r: bool)
        requires
            self.wf(),
        ensures
            r == self@.has_visible_encounter_type(encounter_type),
    {
        let mut i: usize = 0;
        while i < self.encounter.len()
            invariant
                self.wf(),
                i <= self.encounter.seq().len(),
                forall|j: int| 0 <= j < i ==> !visible_at((#[trigger] self.encounter.seq()[j]).1, encounter_type),
            decreases self.encounter.seq().len() - i,
        {
            let hit = match self.encounter.value_at(i).get(encounter_type) {
                Some(e) => e.vis == Vis::Visible,
                None => false,
            };
            if hit {
                proof {
                    self.encounter.lemma_entries();
                    let l = self.encounter.seq()[i as int].0;
                    assert(self@.encounter.contains_key(l));
                }
                return true;
            }
            i = i + 1;
        }
        proof {
            self.encounter.lemma_entries();
            if self@.has_visible_encounter_type(encounter_type) {
                let l = choose|l: u16| #[trigger]
                    self@.encounter.contains_key(l) && self@.encounter[l].slot(encounter_type) is Some
                        && self@.encounter[l].slot(encounter_type)->Some_0.vis == Vis::Visible;
                let j = choose|j: int| 0 <= j < self.encounter.seq().len() && #[trigger] self.encounter.seq()[j].0 == l;
                assert(!visible_at(self.encounter.seq()[j].1, encounter_type));
            }
        }
        false
    }
}

/// Whether a location holds an encounter of the given type that is not hidden.
pub open spec fn visible_at(location: QuestLocation, encounter_type: EncounterType) -> bool {
    location.slot(encounter_type) is Some && location.slot(encounter_type)->Some_0.vis == Vis::Visible
}

/// What a list of quests shows: all of them, or those of one location.
#[derive(Clone, Copy, Debug)]
pub enum QuestViewMode {
    Todo,
    Location(LocationId),
}

impl QuestViewMode {
    /// Whether the encounters at a location belong to the list.
    pub fn filter(&self, location_id: LocationId) -> (r: bool)
        ensures
            r == (match *self {
                QuestViewMode::Todo => true,
                QuestViewMode::Location(l) => l == location_id,
            }),
    {
        match self {
            QuestViewMode::Todo => true,
            QuestViewMode::Location(l) => *l == location_id,
        }
    }
}

} // verus!
