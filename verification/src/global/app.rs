//! The application: one message is handled to the end, with everything that
//! it sets off, before the next is looked at.

use crate::data::sub_component::UpdateResults;
use crate::game::catalog::Catalog;
use crate::game::location_id::LocationId;
use crate::game::quest_id::QuestId;
use crate::global::data::{cleaned, Data, Effect};
use crate::pane::action::{action_updated, MsgAction, PaneAction};
use crate::pane::edit_quest::{edit_quest_updated, MsgEditQuest, PaneEditQuest};
use crate::pane::map::{map_updated, MsgMap, PaneMap};
use crate::pane::map_location::{location_updated, MsgMapLocation, PaneMapLocation};
use crate::pane::map_new_quest::{new_quest_updated, MsgMapNewQuest, Page, PaneMapNewQuest};
use crate::pane::settings::{settings_updated, MsgSettings, PaneSettings};
use crate::pane::todo::{todo_updated, MsgTodo, PaneTodo, SettingsKeywords, Typ};
use crate::route::Route;
use vstd::prelude::*;

verus! {

/// A message to the application.
pub enum MsgApp {
    MsgTodo(MsgTodo),
    MsgMap(MsgMap),
    MsgLocation(MsgMapLocation),
    MsgNewQuest(MsgMapNewQuest),
    MsgAction(MsgAction),
    MsgSettings(MsgSettings),
    MsgEditQuest(MsgEditQuest),
    Tick,
    Go(Route),
    Back,
    HistoryChanged(Option<Route>),
    ResetToNew,
}

/// What the application asks of its surroundings, in the order in which it is to be done.
#[derive(Clone, Copy, Debug, PartialEq, Eq, Structural)]
pub enum Action {
    Go(Route),
    GoReplace(Route),
    Back,
    StoreSettings,
    StoreGameData,
}

/// The state of the application.
pub struct App {
    pub data: Data,
    pub save_settings: bool,
    pub route: Route,
    pub quests_is_map: bool,
    pub pane_todo: PaneTodo,
    pub pane_map: PaneMap,
    pub pane_map_location: PaneMapLocation,
    pub pane_map_new_quest: PaneMapNewQuest,
    pub pane_action: PaneAction,
    pub pane_edit_quest: PaneEditQuest,
    pub pane_settings: PaneSettings,
}

/// Whether two states differ in nothing but the journal and the panes.
pub open spec fn same_frame(before: App, after: App) -> bool {
    &&& after.save_settings == before.save_settings
    &&& after.route == before.route
    &&& after.quests_is_map == before.quests_is_map
}

/// Whether two states have the same journal.
pub open spec fn same_data(before: App, after: App) -> bool {
    &&& after.data@ == before.data@
    &&& after.data.quest_locale == before.data.quest_locale
    &&& after.data.chain_msg == before.data.chain_msg
}

/// Whether two states have the same panes, but for those that are named;
/// `lists` names the to-do pane and the map pane together.
pub open spec fn same_panes(
    before: App,
    after: App,
    lists: bool,
    location: bool,
    new_quest: bool,
    action: bool,
    edit_quest: bool,
    settings: bool,
) -> bool {
    &&& lists || (after.pane_todo == before.pane_todo && after.pane_map == before.pane_map)
    &&& location || after.pane_map_location == before.pane_map_location
    &&& new_quest || after.pane_map_new_quest == before.pane_map_new_quest
    &&& action || after.pane_action == before.pane_action
    &&& edit_quest || (after.pane_edit_quest.quest_id == before.pane_edit_quest.quest_id
        && after.pane_edit_quest.quest == before.pane_edit_quest.quest
        && after.pane_edit_quest.encounters_to_remove == before.pane_edit_quest.encounters_to_remove)
    &&& settings || (after.pane_settings.alert == before.pane_settings.alert && after.pane_settings.dark_mode
        == before.pane_settings.dark_mode)
}

/// What arriving at a route makes of the application: the route is taken
/// over, the pane that it names is turned to its quest or location, and a
/// route whose quest or location the journal lacks is replaced by the list that it belongs to.
pub open spec fn arrived(before: App, route: Route, after: App, actions: Seq<Action>, r: UpdateResults) -> bool {
    let held = |q: QuestId| before.data@.quest.contains_key(q.0);
    let at = |q: QuestId, l: LocationId| held(q) && before.data@.quest[q.0].encounter.contains_key(l.0);
    &&& same_data(before, after)
    &&& after.save_settings == before.save_settings
    &&& after.route == route
    &&& after.quests_is_map == (match route.on_map() {
        Some(m) => m,
        None => before.quests_is_map,
    })
    &&& match route {
        Route::Info | Route::Todo | Route::MapOverview | Route::Edit | Route::Settings => same_panes(
            before,
            after,
            false,
            false,
            false,
            false,
            false,
            false,
        ) && actions.len() == 0 && r == (UpdateResults { render: true, save_game_data: false, save_settings: false }),
        Route::TodoAction(q, l) => same_panes(before, after, false, false, false, true, false, false) && (if at(
            q,
            l,
        ) {
            after.pane_action == (PaneAction { quest_id: q, location_id: l, is_map: false }) && actions.len() == 0
                && r == (UpdateResults { render: true, save_game_data: false, save_settings: false })
        } else {
            after.pane_action == before.pane_action && actions == seq![Action::GoReplace(Route::Todo)] && r
                == (UpdateResults { render: false, save_game_data: false, save_settings: false })
        }),
        Route::MapLocation(l) => same_panes(before, after, false, true, false, false, false, false)
            && after.pane_map_location.location_id == l && actions.len() == 0 && r == (UpdateResults {
            render: true,
            save_game_data: false,
            save_settings: false,
        }),
        Route::MapAction(l, q) => same_panes(before, after, false, false, false, true, false, false) && (if at(
            q,
            l,
        ) {
            after.pane_action == (PaneAction { quest_id: q, location_id: l, is_map: true }) && actions.len() == 0
                && r == (UpdateResults { render: true, save_game_data: false, save_settings: false })
        } else {
            after.pane_action == before.pane_action && actions == seq![Action::GoReplace(Route::MapLocation(l))]
                && r == (UpdateResults { render: false, save_game_data: false, save_settings: false })
        }),
        Route::MapNewQuest(l) => same_panes(before, after, false, false, true, false, false, false)
            && after.pane_map_new_quest == (PaneMapNewQuest {
            location_id: l,
            page: Page::SelectEncounterType,
            ..before.pane_map_new_quest
        }) && actions.len() == 0 && r == (UpdateResults { render: true, save_game_data: false, save_settings: false }),
        Route::EditQuest(q) => same_panes(before, after, false, false, false, false, true, false)
            && after.pane_edit_quest.encounters_to_remove == before.pane_edit_quest.encounters_to_remove && (if held(
            q,
        ) {
            after.pane_edit_quest.quest_id == q && after.pane_edit_quest.quest@ == before.data@.quest[q.0]
                && actions.len() == 0 && r == (UpdateResults {
                render: true,
                save_game_data: false,
                save_settings: false,
            })
        } else {
            after.pane_edit_quest.quest_id == before.pane_edit_quest.quest_id && after.pane_edit_quest.quest
                == before.pane_edit_quest.quest && actions == seq![Action::GoReplace(Route::Edit)] && r
                == (UpdateResults { render: false, save_game_data: false, save_settings: false })
        }),
    }
}

/// What setting the panes back makes of the application.
pub open spec fn set_back(before: App, after: App) -> bool {
    &&& same_data(before, after)
    &&& after.save_settings == before.save_settings
    &&& after.quests_is_map == before.quests_is_map
    &&& after.route == Route::Todo
    &&& after.pane_todo == (PaneTodo { show_keywords: SettingsKeywords::OnlyQuests, typ: Typ::Active })
    &&& after.pane_map == (PaneMap { position: before.data.quest_locale.catalog.map_default_position })
    &&& same_panes(before, after, true, false, false, false, false, false)
}

/// What handling one message makes of the application, what it asks of the
/// surroundings, and what it reports; what the message sets off is left in the queue.
pub open spec fn stepped(before: App, msg: MsgApp, after: App, actions: Seq<Action>, r: UpdateResults) -> bool {
    &&& after.wf_but_queue()
    &&& after.data.quest_locale.catalog == before.data.quest_locale.catalog
    &&& match msg {
        MsgApp::MsgTodo(m) => todo_updated(before.pane_todo, m, after.pane_todo, r) && after.pane_map
            == before.pane_map && same_frame(before, after) && same_data(before, after) && same_panes(
            before,
            after,
            true,
            false,
            false,
            false,
            false,
            false,
        ) && actions.len() == 0,
        MsgApp::MsgMap(m) => map_updated(before.pane_map, &before.data.quest_locale.catalog, m, after.pane_map, r)
            && after.pane_todo == before.pane_todo && same_frame(before, after) && same_data(before, after)
            && same_panes(before, after, true, false, false, false, false, false) && actions.len() == 0,
        MsgApp::MsgLocation(m) => location_updated(
            before.pane_map_location,
            before.data,
            m,
            after.pane_map_location,
            after.data,
            r,
        ) && same_frame(before, after) && same_panes(before, after, false, true, false, false, false, false)
            && actions.len() == 0,
        MsgApp::MsgNewQuest(m) => new_quest_updated(
            before.pane_map_new_quest,
            before.data,
            m,
            after.pane_map_new_quest,
            after.data,
            r,
        ) && same_frame(before, after) && same_panes(before, after, false, false, true, false, false, false)
            && actions.len() == 0,
        MsgApp::MsgAction(m) => action_updated(before.pane_action, before.data, m, after.pane_action, after.data, r)
            && same_frame(before, after) && same_panes(before, after, false, false, false, true, false, false)
            && actions.len() == 0,
        MsgApp::MsgSettings(m) => settings_updated(
            before.pane_settings,
            before.data,
            m,
            after.pane_settings,
            after.data,
            r,
        ) && same_frame(before, after) && same_panes(before, after, false, false, false, false, false, true)
            && actions.len() == 0,
        MsgApp::MsgEditQuest(m) => edit_quest_updated(
            before.pane_edit_quest,
            before.data,
            m,
            after.pane_edit_quest,
            after.data,
            r,
        ) && same_frame(before, after) && same_panes(before, after, false, false, false, false, true, false)
            && actions.len() == 0,
        MsgApp::Tick => same_data(before, after) && same_panes(
            before,
            after,
            false,
            false,
            false,
            false,
            false,
            false,
        ) && after.route == before.route && after.quests_is_map == before.quests_is_map && !after.save_settings
            && actions == (if before.save_settings {
            seq![Action::StoreSettings]
        } else {
            Seq::<Action>::empty()
        }) && r == (UpdateResults { render: false, save_game_data: false, save_settings: false }),
        MsgApp::Go(route) => same_frame(before, after) && same_data(before, after) && same_panes(
            before,
            after,
            false,
            false,
            false,
            false,
            false,
            false,
        ) && actions == seq![Action::Go(route)] && r == (UpdateResults {
            render: false,
            save_game_data: false,
            save_settings: false,
        }),
        MsgApp::Back => same_frame(before, after) && same_data(before, after) && same_panes(
            before,
            after,
            false,
            false,
            false,
            false,
            false,
            false,
        ) && actions == seq![Action::Back] && r == (UpdateResults {
            render: false,
            save_game_data: false,
            save_settings: false,
        }),
        MsgApp::HistoryChanged(None) => same_frame(before, after) && same_data(before, after) && same_panes(
            before,
            after,
            false,
            false,
            false,
            false,
            false,
            false,
        ) && actions.len() == 0 && r == (UpdateResults { render: false, save_game_data: false, save_settings: false }),
        MsgApp::HistoryChanged(Some(route)) => arrived(before, route, after, actions, r),
        MsgApp::ResetToNew => set_back(before, after) && actions.len() == 0 && r == (UpdateResults {
            render: true,
            save_game_data: false,
            save_settings: false,
        }),
    }
}

/// What the surroundings are asked for the first `n` entries of the queue.
pub open spec fn effect_actions(effects: Seq<Effect>, n: int) -> Seq<Action>
    decreases n,
{
    if n <= 0 {
        Seq::empty()
    } else {
        match effects[n - 1] {
            Effect::Back => effect_actions(effects, n - 1).push(Action::Back),
            Effect::GoEdit => effect_actions(effects, n - 1).push(Action::Go(Route::Edit)),
            Effect::ResetToNew => effect_actions(effects, n - 1),
        }
    }
}

/// What emptying the queue and storing makes of the application after a
/// message was handled: every entry of the queue is worked off in turn, the
/// journal is cleaned up and stored if anything asked for it, and the
/// settings are marked to be stored at the next tick if anything asked for that.
pub open spec fn finished(
    mid: App,
    first: Seq<Action>,
    r: UpdateResults,
    after: App,
    actions: Seq<Action>,
    render: bool,
) -> bool {
    let effects = mid.data.chain_msg@;
    let reset = effects.contains(Effect::ResetToNew);
    &&& after.wf()
    &&& after.data.quest_locale == mid.data.quest_locale
    &&& after.data@ == (if r.save_game_data {
        cleaned(mid.data@)
    } else {
        mid.data@
    })
    &&& after.save_settings == (mid.save_settings || r.save_settings)
    &&& after.quests_is_map == mid.quests_is_map
    &&& after.route == (if reset {
        Route::Todo
    } else {
        mid.route
    })
    &&& after.pane_todo == (if reset {
        PaneTodo { show_keywords: SettingsKeywords::OnlyQuests, typ: Typ::Active }
    } else {
        mid.pane_todo
    })
    &&& after.pane_map == (if reset {
        PaneMap { position: mid.data.quest_locale.catalog.map_default_position }
    } else {
        mid.pane_map
    })
    &&& same_panes(mid, after, true, false, false, false, false, false)
    &&& actions == first + effect_actions(effects, effects.len() as int) + (if r.save_game_data {
        seq![Action::StoreGameData]
    } else {
        Seq::<Action>::empty()
    })
    &&& render == (r.render || reset)
}

impl App {
    /// The invariant but for the queue: the journal and the panes are in
    /// order, and every identifier in the panes is one of the catalog.
    pub open spec fn wf_but_queue(&self) -> bool {
        &&& self.data.wf()
        &&& self.pane_map.wf(&self.data.quest_locale.catalog)
        &&& self.pane_map_location.location_id.known(&self.data.quest_locale.catalog)
        &&& self.pane_map_new_quest.fits(&self.data.quest_locale.catalog)
        &&& self.pane_edit_quest.wf(&self.data.quest_locale.catalog)
    }

    /// The invariant: between two messages the queue is empty.
    pub open spec fn wf(&self) -> bool {
        &&& self.wf_but_queue()
        &&& self.data.chain_msg@.len() == 0
    }

    /// Whether a message can be handled: a note needs its quest, and every
    /// identifier in the message is one of the catalog.
    pub open spec fn accepts(&self, msg: MsgApp) -> bool {
        match msg {
            MsgApp::MsgAction(MsgAction::Note(_)) => self.data@.quest.contains_key(self.pane_action.quest_id.0),
            MsgApp::MsgNewQuest(MsgMapNewQuest::SelectQuest(q)) => q.known(&self.data.quest_locale.catalog),
            MsgApp::HistoryChanged(Some(route)) => route.fits(&self.data.quest_locale.catalog),
            _ => true,
        }
    }

    /// The application as it starts, with a journal that holds the built-in quests.
    pub fn create(catalog: Catalog) -> (r: Self)
        requires
            catalog.wf(),
        ensures
            r.wf(),
            r.data@ == crate::global::data::fresh(),
            r.data.quest_locale.catalog == catalog,
            r.route == Route::Info,
            !r.save_settings,
            !r.quests_is_map,
    {
        let pane_map = PaneMap::create(&catalog);
        App {
            data: Data::new(catalog),
            save_settings: false,
            route: Route::Info,
            quests_is_map: false,
            pane_todo: PaneTodo::create(),
            pane_map,
            pane_map_location: PaneMapLocation::create(),
            pane_map_new_quest: PaneMapNewQuest::create(),
            pane_action: PaneAction::create(),
            pane_edit_quest: PaneEditQuest::create(),
            pane_settings: PaneSettings::create(),
        }
    }

    /// Arrives at a route.
    pub fn history_changed(&mut self, route: Route, actions: &mut Vec<Action>) -> (r: UpdateResults)
        requires
            old(self).wf_but_queue(),
            route.fits(&old(self).data.quest_locale.catalog),
        ensures
            final(self).wf_but_queue(),
            final(self).data.quest_locale.catalog == old(self).data.quest_locale.catalog,
            final(actions)@.len() >= old(actions)@.len(),
            final(actions)@.subrange(0, old(actions)@.len() as int) == old(actions)@,
            arrived(
                *old(self),
                route,
                *final(self),
                final(actions)@.subrange(old(actions)@.len() as int, final(actions)@.len() as int),
                r,
            ),
    {
        let ghost start = actions@;
        self.route = route;
        match route.is_map() {
            Some(m) => {
                self.quests_is_map = m;
            },
            None => {},
        }
        let r = match route {
            Route::Info | Route::Todo | Route::MapOverview | Route::Edit | Route::Settings => UpdateResults::render(),
            Route::TodoAction(q, l) => {
                if self.pane_action.go(&self.data, q, l, false) {
                    UpdateResults::render()
                } else {
                    actions.push(Action::GoReplace(Route::Todo));
                    UpdateResults::empty()
                }
            },
            Route::MapLocation(l) => {
                self.pane_map_location.go(l);
                UpdateResults::render()
            },
            Route::MapAction(l, q) => {
                if self.pane_action.go(&self.data, q, l, true) {
                    UpdateResults::render()
                } else {
                    actions.push(Action::GoReplace(Route::MapLocation(l)));
                    UpdateResults::empty()
                }
            },
            Route::MapNewQuest(l) => {
                self.pane_map_new_quest.go(l);
                UpdateResults::render()
            },
            Route::EditQuest(q) => {
                if self.pane_edit_quest.go(&self.data, q) {
                    UpdateResults::render()
                } else {
                    actions.push(Action::GoReplace(Route::Edit));
                    UpdateResults::empty()
                }
            },
        };
        proof {
            let added = actions@.subrange(start.len() as int, actions@.len() as int);
            assert(actions@.subrange(0, start.len() as int) =~= start);
            if actions@.len() == start.len() {
                assert(added =~= Seq::<Action>::empty());
            } else {
                assert(added =~= seq![actions@[start.len() as int]]);
            }
        }
        r
    }

    /// Handles one message; what it sets off is left in the queue.
    pub fn step(&mut self, msg: MsgApp, actions: &mut Vec<Action>) -> (r: UpdateResults)
        requires
            old(self).wf_but_queue(),
            old(self).accepts(msg),
        ensures
            final(actions)@.len() >= old(actions)@.len(),
            final(actions)@.subrange(0, old(actions)@.len() as int) == old(actions)@,
            stepped(
                *old(self),
                msg,
                *final(self),
                final(actions)@.subrange(old(actions)@.len() as int, final(actions)@.len() as int),
                r,
            ),
    {
        let ghost start = actions@;
        let r = match msg {
            MsgApp::MsgTodo(m) => self.pane_todo.update(m),
            MsgApp::MsgMap(m) => self.pane_map.update(&self.data.quest_locale.catalog, m),
            MsgApp::MsgLocation(m) => self.pane_map_location.update(&mut self.data, m),
            MsgApp::MsgNewQuest(m) => self.pane_map_new_quest.update(&mut self.data, m),
            MsgApp::MsgAction(m) => self.pane_action.update(&mut self.data, m),
            MsgApp::MsgSettings(m) => self.pane_settings.update(&mut self.data, m),
            MsgApp::MsgEditQuest(m) => self.pane_edit_quest.update(&mut self.data, m),
            MsgApp::Tick => {
                if self.save_settings {
                    actions.push(Action::StoreSettings);
                    self.save_settings = false;
                }
                UpdateResults::empty()
            },
            MsgApp::Go(route) => {
                actions.push(Action::Go(route));
                UpdateResults::empty()
            },
            MsgApp::Back => {
                actions.push(Action::Back);
                UpdateResults::empty()
            },
            MsgApp::HistoryChanged(arrived_at) => {
                match arrived_at {
                    Some(route) => self.history_changed(route, actions),
                    None => UpdateResults::empty(),
                }
            },
            MsgApp::ResetToNew => {
                self.pane_todo.reset_to_new();
                self.pane_map.reset_to_new(&self.data.quest_locale.catalog);
                self.route = Route::Todo;
                UpdateResults::render()
            },
        };
        proof {
            let added = actions@.subrange(start.len() as int, actions@.len() as int);
            assert(actions@.subrange(0, start.len() as int) =~= start);
            if actions@.len() == start.len() {
                assert(added =~= Seq::<Action>::empty());
            } else if actions@.len() == start.len() + 1 {
                assert(added =~= seq![actions@[start.len() as int]]);
            }
        }
        r
    }
}

/// What handling a message to the end makes of the application: the message
/// is handled, then the queue is emptied and what was asked for is stored.
pub open spec fn updated(before: App, msg: MsgApp, after: App, actions: Seq<Action>, render: bool) -> bool {
    exists|mid: App, first: Seq<Action>, r: UpdateResults|
        stepped(before, msg, mid, first, r) && finished(mid, first, r, after, actions, render)
}

impl App {
    /// Works off the queue: leaving the pane and going to the list of quests
    /// are asked of the surroundings, and setting the panes back is done.
    fn drain(&mut self, actions: &mut Vec<Action>) -> (reset: bool)
        requires
            old(self).wf_but_queue(),
        ensures
            final(self).wf(),
            final(self).data@ == old(self).data@,
            final(self).data.quest_locale == old(self).data.quest_locale,
            final(self).save_settings == old(self).save_settings,
            final(self).quests_is_map == old(self).quests_is_map,
            reset == old(self).data.chain_msg@.contains(Effect::ResetToNew),
            final(self).route == (if reset {
                Route::Todo
            } else {
                old(self).route
            }),
            final(self).pane_todo == (if reset {
                PaneTodo { show_keywords: SettingsKeywords::OnlyQuests, typ: Typ::Active }
            } else {
                old(self).pane_todo
            }),
            final(self).pane_map == (if reset {
                PaneMap { position: old(self).data.quest_locale.catalog.map_default_position }
            } else {
                old(self).pane_map
            }),
            same_panes(*old(self), *final(self), true, false, false, false, false, false),
            final(actions)@ == old(actions)@ + effect_actions(
                old(self).data.chain_msg@,
                old(self).data.chain_msg@.len() as int,
            ),
    {
        let mut effects: Vec<Effect> = Vec::new();
        std::mem::swap(&mut effects, &mut self.data.chain_msg);
        proof {
            assert(self.data@.quest =~= old(self).data@.quest);
            assert(self.data@.location =~= old(self).data@.location);
            assert(actions@ + effect_actions(effects@, 0) =~= actions@);
        }
        let mut reset = false;
        let mut i: usize = 0;
        while i < effects.len()
            invariant
                effects@ == old(self).data.chain_msg@,
                self.wf(),
                self.data@ == old(self).data@,
                self.data.quest_locale == old(self).data.quest_locale,
                self.save_settings == old(self).save_settings,
                self.quests_is_map == old(self).quests_is_map,
                i <= effects@.len(),
                reset == effects@.subrange(0, i as int).contains(Effect::ResetToNew),
                self.route == (if reset {
                    Route::Todo
                } else {
                    old(self).route
                }),
                self.pane_todo == (if reset {
                    PaneTodo { show_keywords: SettingsKeywords::OnlyQuests, typ: Typ::Active }
                } else {
                    old(self).pane_todo
                }),
                self.pane_map == (if reset {
                    PaneMap { position: old(self).data.quest_locale.catalog.map_default_position }
                } else {
                    old(self).pane_map
                }),
                same_panes(*old(self), *self, true, false, false, false, false, false),
                actions@ == old(actions)@ + effect_actions(effects@, i as int),
            decreases effects@.len() - i,
        {
            let ghost before = actions@;
            let ghost seen = effects@.subrange(0, i as int);
            match effects[i] {
                Effect::Back => {
                    actions.push(Action::Back);
                },
                Effect::GoEdit => {
                    actions.push(Action::Go(Route::Edit));
                },
                Effect::ResetToNew => {
                    self.pane_todo.reset_to_new();
                    self.pane_map.reset_to_new(&self.data.quest_locale.catalog);
                    self.route = Route::Todo;
                    reset = true;
                },
            }
            proof {
                let next = effects@.subrange(0, i as int + 1);
                assert(next =~= seen.push(effects@[i as int]));
                assert(next[i as int] == effects@[i as int]);
                if seen.contains(Effect::ResetToNew) {
                    let j = choose|j: int| 0 <= j < seen.len() && seen[j] == Effect::ResetToNew;
                    assert(next[j] == Effect::ResetToNew);
                }
                if next.contains(Effect::ResetToNew) && effects@[i as int] != Effect::ResetToNew {
                    let j = choose|j: int| 0 <= j < next.len() && next[j] == Effect::ResetToNew;
                    assert(seen[j] == Effect::ResetToNew);
                }
                assert(actions@ =~= old(actions)@ + effect_actions(effects@, i as int + 1));
            }
            i = i + 1;
        }
        assert(effects@.subrange(0, effects@.len() as int) =~= effects@);
        reset
    }

    /// Handles a message to the end: the message itself, then everything in
    /// the queue, then cleaning up and storing where that was asked for.
    /// Hands back what the surroundings are to do, in order, and whether the
    /// site is to be drawn again.
    pub fn update(&mut self, msg: MsgApp) -> (r: (Vec<Action>, bool))
        requires
            old(self).wf(),
            old(self).accepts(msg),
        ensures
            final(self).wf(),
            updated(*old(self), msg, *final(self), r.0@, r.1),
    {
        let mut actions: Vec<Action> = Vec::new();
        let results = self.step(msg, &mut actions);
        let ghost mid = *self;
        let ghost first = actions@;
        assert(first =~= actions@.subrange(0, actions@.len() as int));
        let reset = self.drain(&mut actions);
        if results.save_game_data {
            self.data.cleanup();
            actions.push(Action::StoreGameData);
        }
        if results.save_settings {
            self.save_settings = true;
        }
        let render = results.render || reset;
        proof {
            let effects = mid.data.chain_msg@;
            assert(actions@ =~= first + effect_actions(effects, effects.len() as int) + (if results.save_game_data {
                seq![Action::StoreGameData]
            } else {
                Seq::<Action>::empty()
            }));
            assert(finished(mid, first, results, *self, actions@, render));
        }
        (actions, render)
    }
}

} // verus!
