//! The settings as they are stored: the language of the game and the choices of the panes.

use crate::global::app::App;
use crate::pane::map::PaneMapSer;
use crate::pane::settings::PaneSettingsSer;
use crate::pane::todo::PaneTodoSer;
use vstd::prelude::*;

verus! {

/// The settings as they are stored.
pub struct SerdeSettings {
    pub game_language: String,
    pub quests_is_map: bool,
    pub pane_todo: PaneTodoSer,
    pub pane_map: PaneMapSer,
    pub pane_settings: PaneSettingsSer,
}

impl App {
    /// The settings of the application.
    pub fn save_settings(&self) -> (r: SerdeSettings)
        requires
            self.data.quest_locale.wf(),
        ensures
            r.game_language@ == self.data.quest_locale.catalog.language_code(self.data.quest_locale.language),
            r.quests_is_map == self.quests_is_map,
            r.pane_todo == (PaneTodoSer { show_keywords: self.pane_todo.show_keywords, typ: self.pane_todo.typ }),
            r.pane_map.position == self.pane_map.position,
            r.pane_settings.dark_mode == self.pane_settings.dark_mode,
    {
        let language = self.data.quest_locale.language();
        SerdeSettings {
            game_language: self.data.quest_locale.catalog.language_name(language).to_owned(),
            quests_is_map: self.quests_is_map,
            pane_todo: self.pane_todo.save(),
            pane_map: self.pane_map.save(),
            pane_settings: self.pane_settings.save(),
        }
    }

    /// Takes stored settings over: the language if the catalog knows its
    /// code, the position of the map if the map shows pages there, and the
    /// other choices as they are.
    pub fn load_settings(&mut self, settings: SerdeSettings)
        requires
            old(self).wf(),
        ensures
            final(self).wf(),
            final(self).data@ == old(self).data@,
            final(self).data.quest_locale.catalog == old(self).data.quest_locale.catalog,
            final(self).data.quest_locale.language == (match old(self).data.quest_locale.catalog.language_of_code(
                settings.game_language@,
            ) {
                Some(l) => l,
                None => old(self).data.quest_locale.language,
            }),
            final(self).quests_is_map == settings.quests_is_map,
            final(self).pane_todo.show_keywords == settings.pane_todo.show_keywords,
            final(self).pane_todo.typ == settings.pane_todo.typ,
            final(self).pane_map.position == (if old(self).data.quest_locale.catalog.shows_pages(
                settings.pane_map.position as int,
            ) {
                settings.pane_map.position
            } else {
                old(self).data.quest_locale.catalog.map_default_position
            }),
            final(self).pane_settings.dark_mode == settings.pane_settings.dark_mode,
            final(self).pane_settings.alert == old(self).pane_settings.alert,
            final(self).save_settings == old(self).save_settings,
            final(self).route == old(self).route,
            final(self).pane_action == old(self).pane_action,
            final(self).pane_map_location == old(self).pane_map_location,
            final(self).pane_map_new_quest == old(self).pane_map_new_quest,
    {
        match self.data.quest_locale.catalog.try_language(settings.game_language.as_str()) {
            Some(language) => {
                self.data.quest_locale.set_language(language);
            },
            None => {},
        }
        self.quests_is_map = settings.quests_is_map;
        self.pane_todo.load(settings.pane_todo);
        self.pane_map.load(settings.pane_map, &self.data.quest_locale.catalog);
        self.pane_settings.load(settings.pane_settings);
    }
}

} // verus!
