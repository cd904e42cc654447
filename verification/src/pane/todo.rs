//! The to-do pane: which quests it lists.

use crate::data::encounter_type::EncounterType;
use crate::data::quest::{Quest, QuestState, QuestView};
use crate::data::sub_component::UpdateResults;
use crate::data::vis::Vis;
use crate::game::catalog::Catalog;
use crate::game::quest_id::QuestId;
use vstd::prelude::*;

verus! {

/// Whether the list holds quests, keywords or both.
#[derive(Clone, Copy, Debug, PartialEq, Eq, Structural)]
pub enum SettingsKeywords {
    OnlyQuests,
    Both,
    OnlyKeywords,
}

/// Which quests the list holds by their progress.
#[derive(Clone, Copy, Debug, PartialEq, Eq, Structural)]
pub enum Typ {
    Active,
    GainWithComplete,
    GainWoComplete,
    Unless,
}

impl Default for SettingsKeywords {
    fn default() -> (r: Self)
        ensures
            r == SettingsKeywords::OnlyQuests,
    {
        SettingsKeywords::OnlyQuests
    }
}

impl Default for Typ {
    fn default() -> (r: Self)
        ensures
            r == Typ::Active,
    {
        Typ::Active
    }
}

/// What the player asks for in the pane.
#[derive(Clone, Copy, Debug)]
pub enum MsgTodo {
    SettingsShowKeywords(SettingsKeywords),
    SettingsTyp(Typ),
    ShowNote(QuestId),
}

/// The pane with its two choices.
#[derive(Clone, Copy, Debug, PartialEq, Eq, Structural)]
pub struct PaneTodo {
    pub show_keywords: SettingsKeywords,
    pub typ: Typ,
}

/// The choices of the pane as they are stored with the settings.
#[derive(Clone, Copy, Debug, PartialEq, Eq, Structural)]
pub struct PaneTodoSer {
    pub show_keywords: SettingsKeywords,
    pub typ: Typ,
}

/// Whether a quest of the given kind passes the choice between quests and
/// keywords; a quest of unknown kind passes every choice.
pub open spec fn kind_passes(keyword: Option<bool>, show: SettingsKeywords) -> bool {
    match keyword {
        None => true,
        Some(false) => show != SettingsKeywords::OnlyKeywords,
        Some(true) => show != SettingsKeywords::OnlyQuests,
    }
}

/// Whether a quest passes the choice by progress.
pub open spec fn progress_passes(q: QuestView, typ: Typ) -> bool {
    match typ {
        Typ::Active => q.state == QuestState::InGame,
        Typ::GainWithComplete => q.state == QuestState::NotFound && q.has_visible_encounter_type(
            EncounterType::Gain,
        ) && q.has_visible_encounter_type(EncounterType::Complete),
        Typ::GainWoComplete => q.state == QuestState::NotFound && q.has_visible_encounter_type(EncounterType::Gain)
            && !q.has_visible_encounter_type(EncounterType::Complete),
        Typ::Unless => q.state == QuestState::NotFound && q.has_visible_encounter_type(EncounterType::Unless),
    }
}

/// The kind of a quest: unknown as long as no location lets it be gained.
pub open spec fn kind_of(q: QuestView, keyword: bool) -> Option<bool> {
    if q.has_encounter_type(EncounterType::Gain) {
        Some(keyword)
    } else {
        None
    }
}

/// Whether the list holds a quest: it passes both choices, is not over, and is not hidden.
pub open spec fn is_listed_todo(pane: PaneTodo, q: QuestView, keyword: bool) -> bool {
    kind_passes(kind_of(q, keyword), pane.show_keywords) && q.state != QuestState::Removed && progress_passes(
        q,
        pane.typ,
    ) && q.vis == Vis::Visible
}

/// What handling a message makes of the pane, and what it reports.
pub open spec fn todo_updated(
    pane: PaneTodo,
    msg: MsgTodo,
    pane_after: PaneTodo,
    r: UpdateResults,
) -> bool {
    &&& match msg {
        MsgTodo::SettingsShowKeywords(show_keywords) => pane_after == (PaneTodo {
            show_keywords,
            ..pane
        }) && r == (UpdateResults { render: true, save_game_data: false, save_settings: true }),
        MsgTodo::SettingsTyp(typ) => pane_after == (PaneTodo { typ, ..pane }) && r
            == (UpdateResults { render: true, save_game_data: false, save_settings: true }),
        MsgTodo::ShowNote(_) => pane_after == pane && r == (UpdateResults {
            render: false,
            save_game_data: false,
            save_settings: false,
        }),
    }
}

impl PaneTodo {
    /// The pane as it starts.
    pub fn create() -> (r: Self)
        ensures
            r == (PaneTodo { show_keywords: SettingsKeywords::OnlyQuests, typ: Typ::Active }),
    {
        PaneTodo { show_keywords: SettingsKeywords::OnlyQuests, typ: Typ::Active }
    }

    pub fn reset_to_new(&mut self)
        ensures
            *final(self) == (PaneTodo { show_keywords: SettingsKeywords::OnlyQuests, typ: Typ::Active }),
    {
        self.show_keywords = SettingsKeywords::OnlyQuests;
        self.typ = Typ::Active;
    }

    /// Handles a message: a choice is taken over, and asks for the settings
    /// to be stored and the pane to be drawn again; looking at a note changes nothing.
    pub fn update(&mut self, msg: MsgTodo) -> (r: UpdateResults)
        ensures
            todo_updated(*old(self), msg, *final(self), r),
    {
        match msg {
            MsgTodo::SettingsShowKeywords(show_keywords) => {
                self.show_keywords = show_keywords;
                UpdateResults::save_settings().union(UpdateResults::render())
            },
            MsgTodo::SettingsTyp(typ) => {
                self.typ = typ;
                UpdateResults::save_settings().union(UpdateResults::render())
            },
            MsgTodo::ShowNote(_) => UpdateResults::empty(),
        }
    }

    /// Whether the list holds a quest.
    pub fn filter(&self, quest_id: QuestId, quest: &Quest, catalog: &Catalog) -> (r: bool)
        requires
            quest.wf(),
            quest_id.known(catalog),
        ensures
            r == is_listed_todo(*self, quest@, catalog.keywords@[quest_id.0 as int]),
    {
        let kind = quest.is_keyword(quest_id, catalog);
        let kind_passes = match kind {
            None => true,
            Some(false) => self.show_keywords != SettingsKeywords::OnlyKeywords,
            Some(true) => self.show_keywords != SettingsKeywords::OnlyQuests,
        };
        if !kind_passes {
            return false;
        }
        if quest.state == QuestState::Removed {
            return false;
        }
        let progress_passes = match self.typ {
            Typ::Active => quest.state == QuestState::InGame,
            Typ::GainWithComplete => quest.state == QuestState::NotFound && quest.contains_visible_encounter_type(
                EncounterType::Gain,
            ) && quest.contains_visible_encounter_type(EncounterType::Complete),
            Typ::GainWoComplete => quest.state == QuestState::NotFound && quest.contains_visible_encounter_type(
                EncounterType::Gain,
            ) && !quest.contains_visible_encounter_type(EncounterType::Complete),
            Typ::Unless => quest.state == QuestState::NotFound && quest.contains_visible_encounter_type(
                EncounterType::Unless,
            ),
        };
        progress_passes && quest.vis == Vis::Visible
    }

    pub fn save(&self) -> (r: PaneTodoSer)
        ensures
            r == (PaneTodoSer { show_keywords: self.show_keywords, typ: self.typ }),
    {
        PaneTodoSer { show_keywords: self.show_keywords, typ: self.typ }
    }

    pub fn load(&mut self, stored: PaneTodoSer)
        ensures
            *final(self) == (PaneTodo { show_keywords: stored.show_keywords, typ: stored.typ }),
    {
        self.show_keywords = stored.show_keywords;
        self.typ = stored.typ;
    }
}

} // verus!
