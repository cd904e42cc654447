use sleeping_journal::data::encounter_type::EncounterType;
use sleeping_journal::data::nav::Nav;
use sleeping_journal::data::quest::{Quest, QuestState};
use sleeping_journal::data::quest_location::QuestLocation;
use sleeping_journal::data::sub_component::UpdateResults;
use sleeping_journal::data::vis::Vis;
use sleeping_journal::game::catalog::{Catalog, Language, Location};
use sleeping_journal::game::game_language::GameLanguage;
use sleeping_journal::game::location_id::LocationId;
use sleeping_journal::game::msg::MsgKey;
use sleeping_journal::game::quest_id::QuestId;
use sleeping_journal::global::app::{Action, App, MsgApp};
use sleeping_journal::global::data::{Data, Effect};
use sleeping_journal::pane::action::{et2msg, MsgAction, PaneAction};
use sleeping_journal::pane::edit_quest::{MsgEditQuest, PaneEditQuest};
use sleeping_journal::pane::map::{note_head, MsgMap, PaneMap, PaneMapSer};
use sleeping_journal::pane::map_location::{MsgMapLocation, PaneMapLocation};
use sleeping_journal::pane::map_new_quest::{nqt_allow, nqt_head, MsgMapNewQuest, Page, PaneMapNewQuest};
use sleeping_journal::pane::settings::{data_url, Alert, MsgSettings, PaneSettings, PaneSettingsSer};
use sleeping_journal::ser::settings::SerdeSettings;
use sleeping_journal::pane::todo::{MsgTodo, PaneTodo, PaneTodoSer, SettingsKeywords, Typ};
use sleeping_journal::route::{route_from, Route, Router};
use sleeping_journal::ser::csv::MyError;

const SAVE: UpdateResults = UpdateResults { render: false, save_game_data: true, save_settings: false };
const NOTHING: UpdateResults = UpdateResults { render: false, save_game_data: false, save_settings: false };
const RENDER: UpdateResults = UpdateResults { render: true, save_game_data: false, save_settings: false };

fn pane_catalog() -> Catalog {
    Catalog {
        languages: vec![
            Language {
                name: "English".to_string(),
                prologue: "Prologue".to_string(),
                quests: vec![
                    "Raid".to_string(),
                    "Cottage".to_string(),
                    "Amulet".to_string(),
                    "Bridge".to_string(),
                ],
            },
            Language {
                name: "Deutsch".to_string(),
                prologue: "Prolog".to_string(),
                quests: vec![
                    "Raubzug".to_string(),
                    "Hütte".to_string(),
                    "Amulett".to_string(),
                    "Brücke".to_string(),
                ],
            },
        ],
        locations: vec![
            Location { name: None, page: None },
            Location { name: Some("2".to_string()), page: Some("3".to_string()) },
            Location { name: Some("5".to_string()), page: Some("3".to_string()) },
        ],
        keywords: vec![false, false, true, false],
        map: vec![None, Some(("3".to_string(), "4".to_string())), Some(("7".to_string(), String::new()))],
        map_default_position: 1,
    }
}

fn encounter(mut quest: Quest, l: u16, t: EncounterType, prerequisite: Option<QuestId>, vis: Vis) -> Quest {
    let mut at = match quest.encounter.get(l) {
        Some(at) => *at,
        None => QuestLocation::new(),
    };
    at.insert(t, prerequisite, vis);
    quest.encounter.insert(l, at);
    quest
}

fn pane_data() -> Data {
    let mut data = Data::new(pane_catalog());
    let amulet = encounter(Quest::new(), 1, EncounterType::Gain, None, Vis::Visible);
    let amulet = encounter(amulet, 1, EncounterType::Complete, None, Vis::Visible);
    data.put_quest(QuestId(2), amulet);
    data
}

fn state(data: &Data, q: u16) -> QuestState {
    data.quest.get(q).unwrap().state
}

#[test]
fn perform_changes_the_state() {
    let cases = [
        (EncounterType::Unless, QuestState::NotFound),
        (EncounterType::When, QuestState::NotFound),
        (EncounterType::Gain, QuestState::InGame),
        (EncounterType::Complete, QuestState::Removed),
        (EncounterType::Lose, QuestState::Removed),
    ];
    for (t, expected) in cases {
        let mut data = pane_data();
        let mut pane = PaneAction { quest_id: QuestId(2), location_id: LocationId(1), is_map: false };
        assert_eq!(pane.update(&mut data, MsgAction::Perform(t)), SAVE);
        assert_eq!(state(&data, 2), expected);
        assert_eq!(data.chain_msg, vec![Effect::Back]);
    }
}

#[test]
fn perform_on_a_missing_quest_changes_nothing() {
    let mut data = pane_data();
    let mut pane = PaneAction { quest_id: QuestId(3), location_id: LocationId(1), is_map: false };
    assert_eq!(pane.update(&mut data, MsgAction::Perform(EncounterType::Gain)), SAVE);
    assert!(data.quest.get(3).is_none());
    assert_eq!(data.chain_msg, vec![Effect::Back]);
}

#[test]
fn hide_sets_the_restriction_of_one_encounter() {
    let mut data = pane_data();
    let mut pane = PaneAction { quest_id: QuestId(2), location_id: LocationId(1), is_map: true };
    assert_eq!(pane.update(&mut data, MsgAction::Hide(EncounterType::Gain, Vis::HiddenForever, false)), SAVE);
    let at = data.quest.get(2).unwrap().encounter.get(1).unwrap();
    assert_eq!(at.get(EncounterType::Gain).unwrap().vis, Vis::HiddenForever);
    assert_eq!(at.get(EncounterType::Complete).unwrap().vis, Vis::Visible);
    assert!(data.chain_msg.is_empty());
    assert_eq!(pane.update(&mut data, MsgAction::Hide(EncounterType::Lose, Vis::HiddenForever, true)), SAVE);
    assert!(!data.quest.get(2).unwrap().encounter.get(1).unwrap().contains_key(EncounterType::Lose));
    assert_eq!(data.chain_msg, vec![Effect::Back]);
}

#[test]
fn hide_quest_and_note() {
    let mut data = pane_data();
    let mut pane = PaneAction { quest_id: QuestId(2), location_id: LocationId(1), is_map: false };
    assert_eq!(pane.update(&mut data, MsgAction::HideQuest(Vis::HiddenThisCampaign)), SAVE);
    assert_eq!(data.quest.get(2).unwrap().vis, Vis::HiddenThisCampaign);
    assert_eq!(data.chain_msg, vec![Effect::Back]);
    assert_eq!(pane.update(&mut data, MsgAction::Note("text".to_string())), SAVE);
    assert_eq!(data.quest.get(2).unwrap().note, "text");
    assert_eq!(data.chain_msg, vec![Effect::Back]);
}

#[test]
fn action_pane_goes_only_where_the_quest_has_encounters() {
    let data = pane_data();
    let mut pane = PaneAction::create();
    assert!(!pane.go(&data, QuestId(2), LocationId(2), true));
    assert!(!pane.go(&data, QuestId(3), LocationId(1), true));
    assert_eq!(pane.quest_id, QuestId(1));
    assert!(pane.go(&data, QuestId(2), LocationId(1), false));
    assert_eq!(pane.quest_id, QuestId(2));
    assert_eq!(pane.location_id, LocationId(1));
    assert!(!pane.is_map);
}

#[test]
fn messages_of_the_buttons() {
    let mut quest = Quest::new();
    assert_eq!(et2msg(EncounterType::Unless, &quest, true), None);
    assert_eq!(et2msg(EncounterType::When, &quest, false), None);
    assert_eq!(et2msg(EncounterType::Gain, &quest, true), Some(MsgKey::ActiGainQuest));
    assert_eq!(et2msg(EncounterType::Gain, &quest, false), Some(MsgKey::ActiGainQuestNoPre));
    quest.state = QuestState::InGame;
    assert_eq!(et2msg(EncounterType::Gain, &quest, false), Some(MsgKey::ActiGainQuestFound));
    assert_eq!(et2msg(EncounterType::Complete, &quest, true), Some(MsgKey::ActiCompleteQuest));
    assert_eq!(et2msg(EncounterType::Complete, &quest, false), Some(MsgKey::ActiCompleteQuestNo));
    assert_eq!(et2msg(EncounterType::Lose, &quest, true), Some(MsgKey::ActiLoseQuest));
    assert_eq!(et2msg(EncounterType::Lose, &quest, false), Some(MsgKey::ActiLoseQuestNo));
}

#[test]
fn new_encounters_are_allowed_by_state() {
    let data = pane_data();
    // quest 2 is not found, quest 0 is in the game, quest 3 is not in the journal
    assert!(nqt_allow(EncounterType::Gain, &data, QuestId(2)));
    assert!(nqt_allow(EncounterType::Gain, &data, QuestId(3)));
    assert!(!nqt_allow(EncounterType::Gain, &data, QuestId(0)));
    assert!(!nqt_allow(EncounterType::Complete, &data, QuestId(2)));
    assert!(!nqt_allow(EncounterType::Lose, &data, QuestId(3)));
    assert!(nqt_allow(EncounterType::Complete, &data, QuestId(0)));
    assert!(nqt_allow(EncounterType::Lose, &data, QuestId(0)));
    assert!(nqt_allow(EncounterType::When, &data, QuestId(3)));
    assert!(nqt_allow(EncounterType::Unless, &data, QuestId(0)));
}

#[test]
fn headings_of_new_encounters() {
    assert_eq!(nqt_head(EncounterType::Gain), "Gain");
    assert_eq!(nqt_head(EncounterType::Complete), "Complete");
    assert_eq!(nqt_head(EncounterType::Lose), "Lose");
    assert_eq!(nqt_head(EncounterType::When), "When");
    assert_eq!(nqt_head(EncounterType::Unless), "Unless");
}

#[test]
fn new_encounter_is_chosen_step_by_step_and_saved() {
    let mut data = pane_data();
    let mut pane = PaneMapNewQuest::create();
    pane.go(LocationId(2));
    assert_eq!(pane.page, Page::SelectEncounterType);
    assert_eq!(pane.update(&mut data, MsgMapNewQuest::SelectEncounterType(EncounterType::Gain)), RENDER);
    assert_eq!(pane.page, Page::SelectQuest);
    assert_eq!(pane.update(&mut data, MsgMapNewQuest::SelectQuest(QuestId(3))), RENDER);
    assert_eq!(pane.page, Page::NoteAndPrerequisite);
    assert_eq!(pane.update(&mut data, MsgMapNewQuest::SetPrerequisite("2".to_string())), NOTHING);
    assert_eq!(pane.prerequisite, Some(QuestId(2)));
    assert_eq!(pane.update(&mut data, MsgMapNewQuest::SetPrerequisite("4".to_string())), NOTHING);
    assert_eq!(pane.prerequisite, None);
    assert_eq!(pane.update(&mut data, MsgMapNewQuest::SetPrerequisite("1".to_string())), NOTHING);
    assert_eq!(pane.update(&mut data, MsgMapNewQuest::SetPrerequisite("".to_string())), NOTHING);
    assert_eq!(pane.prerequisite, None);
    assert_eq!(pane.update(&mut data, MsgMapNewQuest::SetPrerequisite("one".to_string())), NOTHING);
    assert_eq!(pane.prerequisite, None);
    assert_eq!(pane.update(&mut data, MsgMapNewQuest::SetPrerequisite("1".to_string())), NOTHING);
    assert_eq!(pane.prerequisite, Some(QuestId(1)));
    assert_eq!(pane.update(&mut data, MsgMapNewQuest::Save("found it".to_string())), SAVE);
    let bridge = data.quest.get(3).unwrap();
    assert_eq!(bridge.state, QuestState::InGame);
    assert_eq!(bridge.note, "found it");
    let gain = bridge.encounter.get(2).unwrap().get(EncounterType::Gain).unwrap();
    assert_eq!(gain.prerequisite, Some(QuestId(1)));
    assert_eq!(gain.vis, Vis::Visible);
    assert_eq!(data.chain_msg, vec![Effect::Back]);
}

#[test]
fn saving_a_new_encounter_keeps_the_others() {
    let mut data = pane_data();
    let mut pane = PaneMapNewQuest {
        page: Page::NoteAndPrerequisite,
        location_id: LocationId(1),
        encounter_type: EncounterType::When,
        quest_id: QuestId(2),
        prerequisite: None,
    };
    assert_eq!(pane.update(&mut data, MsgMapNewQuest::Save(String::new())), SAVE);
    let amulet = data.quest.get(2).unwrap();
    assert_eq!(amulet.state, QuestState::NotFound);
    assert_eq!(amulet.encounter.get(1).unwrap().len(), 3);
    pane.encounter_type = EncounterType::Lose;
    assert_eq!(pane.update(&mut data, MsgMapNewQuest::Save(String::new())), SAVE);
    assert_eq!(state(&data, 2), QuestState::Removed);
}

#[test]
fn location_note_is_replaced() {
    let mut data = pane_data();
    let mut pane = PaneMapLocation::create();
    pane.go(LocationId(2));
    assert_eq!(pane.update(&mut data, MsgMapLocation::Note("first".to_string())), SAVE);
    assert_eq!(pane.update(&mut data, MsgMapLocation::Note("second".to_string())), SAVE);
    assert_eq!(data.location.get(2).map(|n| n.as_str()), Some("second"));
    assert_eq!(pane.update(&mut data, MsgMapLocation::ViewQuestNote(QuestId(2))), NOTHING);
    assert_eq!(data.location.len(), 1);
}

#[test]
fn edited_copy_is_saved_without_the_marked_encounters() {
    let mut data = pane_data();
    let mut pane = PaneEditQuest::create();
    assert!(!pane.go(&data, QuestId(3)));
    assert!(pane.go(&data, QuestId(2)));
    assert_eq!(pane.update(&mut data, MsgEditQuest::State(QuestState::InGame)), NOTHING);
    assert_eq!(pane.update(&mut data, MsgEditQuest::Vis(Vis::HiddenForever)), NOTHING);
    assert_eq!(
        pane.update(&mut data, MsgEditQuest::EncounterVis(LocationId(1), EncounterType::Gain, Vis::HiddenThisCampaign)),
        NOTHING
    );
    assert_eq!(pane.update(&mut data, MsgEditQuest::KillEncounter(LocationId(1), EncounterType::Complete)), NOTHING);
    assert_eq!(pane.update(&mut data, MsgEditQuest::KillEncounter(LocationId(1), EncounterType::Complete)), NOTHING);
    assert_eq!(pane.update(&mut data, MsgEditQuest::KillEncounter(LocationId(1), EncounterType::Gain)), NOTHING);
    assert_eq!(pane.encounters_to_remove.len(), 2);
    // giving an encounter a restriction takes its mark away
    assert_eq!(
        pane.update(&mut data, MsgEditQuest::EncounterVis(LocationId(1), EncounterType::Gain, Vis::HiddenForever)),
        NOTHING
    );
    assert_eq!(pane.encounters_to_remove, vec![(LocationId(1), EncounterType::Complete)]);
    // nothing reached the journal yet
    assert_eq!(state(&data, 2), QuestState::NotFound);
    assert_eq!(pane.update(&mut data, MsgEditQuest::Save("edited".to_string())), SAVE);
    let amulet = data.quest.get(2).unwrap();
    assert_eq!(amulet.state, QuestState::InGame);
    assert_eq!(amulet.vis, Vis::HiddenForever);
    assert_eq!(amulet.note, "edited");
    let at = amulet.encounter.get(1).unwrap();
    assert_eq!(at.get(EncounterType::Gain).unwrap().vis, Vis::HiddenForever);
    assert!(!at.contains_key(EncounterType::Complete));
    assert_eq!(data.chain_msg, vec![Effect::GoEdit]);
    // the pane keeps what the journal held
    assert_eq!(pane.quest.state, QuestState::NotFound);
    assert_eq!(pane.quest.note, "");
}

#[test]
fn todo_list_filters() {
    let catalog = pane_catalog();
    let mut pane = PaneTodo::create();
    let mut quest = encounter(Quest::new(), 1, EncounterType::Gain, None, Vis::Visible);
    // quest 2 is a keyword, quest 3 is not
    assert!(!pane.filter(QuestId(3), &quest, &catalog));
    quest.state = QuestState::InGame;
    assert!(pane.filter(QuestId(3), &quest, &catalog));
    assert!(!pane.filter(QuestId(2), &quest, &catalog));
    assert_eq!(
        pane.update(MsgTodo::SettingsShowKeywords(SettingsKeywords::OnlyKeywords)),
        UpdateResults { render: true, save_game_data: false, save_settings: true }
    );
    assert!(pane.filter(QuestId(2), &quest, &catalog));
    assert!(!pane.filter(QuestId(3), &quest, &catalog));
    pane.update(MsgTodo::SettingsShowKeywords(SettingsKeywords::Both));
    assert!(pane.filter(QuestId(2), &quest, &catalog));
    assert!(pane.filter(QuestId(3), &quest, &catalog));
    quest.vis = Vis::HiddenThisCampaign;
    assert!(!pane.filter(QuestId(3), &quest, &catalog));
    quest.vis = Vis::Visible;
    quest.state = QuestState::Removed;
    assert!(!pane.filter(QuestId(3), &quest, &catalog));
    // a quest that cannot be gained anywhere passes every choice of kind
    let mut unknown = encounter(Quest::new(), 1, EncounterType::When, None, Vis::Visible);
    unknown.state = QuestState::InGame;
    pane.update(MsgTodo::SettingsShowKeywords(SettingsKeywords::OnlyKeywords));
    assert!(pane.filter(QuestId(3), &unknown, &catalog));
}

#[test]
fn todo_list_filters_by_progress() {
    let catalog = pane_catalog();
    let mut pane = PaneTodo::create();
    let gain = encounter(Quest::new(), 1, EncounterType::Gain, None, Vis::Visible);
    let gain_complete = encounter(gain.clone(), 2, EncounterType::Complete, None, Vis::Visible);
    let gain_hidden_complete = encounter(gain.clone(), 2, EncounterType::Complete, None, Vis::HiddenForever);
    let unless = encounter(Quest::new(), 1, EncounterType::Unless, None, Vis::Visible);
    assert_eq!(
        pane.update(MsgTodo::SettingsTyp(Typ::GainWithComplete)),
        UpdateResults { render: true, save_game_data: false, save_settings: true }
    );
    assert!(pane.filter(QuestId(3), &gain_complete, &catalog));
    assert!(!pane.filter(QuestId(3), &gain, &catalog));
    assert!(!pane.filter(QuestId(3), &gain_hidden_complete, &catalog));
    pane.update(MsgTodo::SettingsTyp(Typ::GainWoComplete));
    assert!(!pane.filter(QuestId(3), &gain_complete, &catalog));
    assert!(pane.filter(QuestId(3), &gain, &catalog));
    assert!(pane.filter(QuestId(3), &gain_hidden_complete, &catalog));
    pane.update(MsgTodo::SettingsTyp(Typ::Unless));
    assert!(pane.filter(QuestId(3), &unless, &catalog));
    assert!(!pane.filter(QuestId(3), &gain, &catalog));
    assert_eq!(pane.update(MsgTodo::ShowNote(QuestId(3))), NOTHING);
    assert_eq!(pane.save(), PaneTodoSer { show_keywords: SettingsKeywords::OnlyQuests, typ: Typ::Unless });
    pane.load(PaneTodoSer { show_keywords: SettingsKeywords::Both, typ: Typ::Active });
    assert_eq!(pane, PaneTodo { show_keywords: SettingsKeywords::Both, typ: Typ::Active });
    pane.reset_to_new();
    assert_eq!(pane, PaneTodo::create());
    assert_eq!(SettingsKeywords::default(), SettingsKeywords::OnlyQuests);
    assert_eq!(Typ::default(), Typ::Active);
}

#[test]
fn settings_pane_handles_its_messages() {
    let mut data = pane_data();
    let mut pane = PaneSettings::create();
    assert_eq!(
        pane.update(&mut data, MsgSettings::GameLanguage("Deutsch".to_string())),
        UpdateResults { render: true, save_game_data: true, save_settings: false }
    );
    assert_eq!(data.quest_locale.language(), GameLanguage(1));
    pane.update(&mut data, MsgSettings::GameLanguage("Latin".to_string()));
    assert_eq!(data.quest_locale.language(), GameLanguage(1));
    assert_eq!(
        pane.update(&mut data, MsgSettings::DarkMode(true)),
        UpdateResults { render: false, save_game_data: false, save_settings: true }
    );
    assert!(pane.dark_mode);
    assert!(pane.save().dark_mode);
    assert_eq!(pane.update(&mut data, MsgSettings::NewCampaign), SAVE);
    assert_eq!(pane.update(&mut data, MsgSettings::Clear), SAVE);
    assert_eq!(data.quest.keys(), vec![0, 1]);
    assert_eq!(data.chain_msg, vec![Effect::ResetToNew, Effect::ResetToNew]);
}

#[test]
fn settings_pane_reports_on_a_file() {
    let mut data = pane_data();
    let mut pane = PaneSettings::create();
    let header = "type,location,quest,status,prerequisite,visibility,note\n";
    let good = format!("{header}language,,,English,,,\nquest,,Bridge,in-game,,,n\n");
    assert_eq!(pane.update(&mut data, MsgSettings::LoadFinished(good.into_bytes())), SAVE);
    assert!(pane.alert.is_none());
    assert_eq!(data.quest.keys(), vec![0, 1, 3]);
    let partly = format!("{header}language,,,English,,,\nquest,,Nobody,,,,\nquest,,Bridge,in-game,,,n\n");
    assert_eq!(pane.update(&mut data, MsgSettings::LoadFinished(partly.into_bytes())), SAVE);
    match &pane.alert {
        Some(Alert::RowsSkipped(rows)) => assert_eq!(rows, "3"),
        _ => panic!("an alert about rows was expected"),
    }
    assert!(!pane.alert.as_ref().unwrap().is_danger());
    assert_eq!(pane.alert.as_ref().unwrap().text(), "The following rows have errors and are skipped:");
    assert_eq!(pane.update(&mut data, MsgSettings::LoadFinished(b"nothing".to_vec())), SAVE);
    match &pane.alert {
        Some(Alert::Refused(e)) => assert_eq!(*e, MyError::Header),
        _ => panic!("a refusal was expected"),
    }
    assert!(pane.alert.as_ref().unwrap().is_danger());
    assert_eq!(pane.alert.as_ref().unwrap().text(), "Header");
    assert_eq!(Alert::Refused(MyError::CsvError).text(), "CsvError");
    assert_eq!(Alert::Refused(MyError::Language).text(), "Language");
    assert_eq!(data.quest.keys(), vec![0, 1, 3]);
    assert_eq!(pane.update(&mut data, MsgSettings::CloseAlert), NOTHING);
    assert!(pane.alert.is_none());
    assert_eq!(data.chain_msg, vec![Effect::ResetToNew, Effect::ResetToNew, Effect::ResetToNew]);
}

#[test]
fn short_notes_are_kept() {
    assert_eq!(note_head(""), "");
    assert_eq!(note_head("short"), "short");
    assert_eq!(note_head("a\nb"), "a⏎ b");
    let fifty = "x".repeat(50);
    assert_eq!(note_head(&fifty), fifty);
    // 49 characters and a line break make 51
    let broken = format!("{}\n", "x".repeat(49));
    assert_eq!(note_head(&broken), "…");
}

#[test]
fn long_notes_are_cut_at_white_space() {
    let words = "word ".repeat(12);
    assert_eq!(note_head(&words), format!("{}…", "word ".repeat(9)));
    assert_eq!(note_head(&"x".repeat(51)), "…");
    let late = format!("{} {}", "x".repeat(47), "y".repeat(10));
    assert_eq!(note_head(&late), format!("{} …", "x".repeat(47)));
    let umlauts = format!("äöü {}", "ß".repeat(60));
    assert_eq!(note_head(&umlauts), "äöü …");
    let lines = "line\n".repeat(11);
    assert_eq!(note_head(&lines), format!("{}…", "line⏎ ".repeat(8)));
}

#[test]
fn routes_and_navigation() {
    assert_eq!(Nav::from(&Route::Info), Nav::Info);
    assert_eq!(Nav::from(&Route::Todo), Nav::TodoAndMap);
    assert_eq!(Nav::from(&Route::TodoAction(QuestId(1), LocationId(1))), Nav::TodoAndMap);
    assert_eq!(Nav::from(&Route::MapOverview), Nav::TodoAndMap);
    assert_eq!(Nav::from(&Route::MapLocation(LocationId(1))), Nav::TodoAndMap);
    assert_eq!(Nav::from(&Route::MapAction(LocationId(1), QuestId(1))), Nav::TodoAndMap);
    assert_eq!(Nav::from(&Route::MapNewQuest(LocationId(1))), Nav::TodoAndMap);
    assert_eq!(Nav::from(&Route::Edit), Nav::Edit);
    assert_eq!(Nav::from(&Route::EditQuest(QuestId(1))), Nav::Edit);
    assert_eq!(Nav::from(&Route::Settings), Nav::Settings);
    assert_eq!(Route::Todo.is_map(), Some(false));
    assert_eq!(Route::MapNewQuest(LocationId(1)).is_map(), Some(true));
    assert_eq!(Route::Settings.is_map(), None);
}

fn app() -> App {
    let mut app = App::create(pane_catalog());
    let amulet = encounter(Quest::new(), 1, EncounterType::Gain, None, Vis::Visible);
    app.data.put_quest(QuestId(2), amulet);
    app
}

#[test]
fn app_performs_and_goes_back_and_stores() {
    let mut app = app();
    assert_eq!(app.update(MsgApp::HistoryChanged(Some(Route::TodoAction(QuestId(2), LocationId(1))))), (vec![], true));
    assert_eq!(app.route, Route::TodoAction(QuestId(2), LocationId(1)));
    assert!(!app.quests_is_map);
    let (actions, render) = app.update(MsgApp::MsgAction(MsgAction::Perform(EncounterType::Gain)));
    assert_eq!(actions, vec![Action::Back, Action::StoreGameData]);
    assert!(!render);
    assert_eq!(state(&app.data, 2), QuestState::InGame);
    assert!(app.data.chain_msg.is_empty());
}

#[test]
fn app_cleans_up_before_it_stores() {
    let mut app = app();
    app.data.put_quest(QuestId(3), Quest::new());
    app.update(MsgApp::HistoryChanged(Some(Route::MapLocation(LocationId(2)))));
    assert!(app.quests_is_map);
    let (actions, render) = app.update(MsgApp::MsgLocation(MsgMapLocation::Note("n".to_string())));
    assert_eq!(actions, vec![Action::StoreGameData]);
    assert!(!render);
    assert_eq!(app.data.quest.keys(), vec![0, 1, 2]);
    // without anything to store nothing is cleaned
    app.data.put_quest(QuestId(3), Quest::new());
    assert_eq!(app.update(MsgApp::Back), (vec![Action::Back], false));
    assert_eq!(app.data.quest.keys(), vec![0, 1, 2, 3]);
}

#[test]
fn app_replaces_routes_that_lead_nowhere() {
    let mut app = app();
    assert_eq!(
        app.update(MsgApp::HistoryChanged(Some(Route::TodoAction(QuestId(3), LocationId(1))))),
        (vec![Action::GoReplace(Route::Todo)], false)
    );
    assert_eq!(
        app.update(MsgApp::HistoryChanged(Some(Route::MapAction(LocationId(2), QuestId(2))))),
        (vec![Action::GoReplace(Route::MapLocation(LocationId(2)))], false)
    );
    assert!(app.quests_is_map);
    assert_eq!(
        app.update(MsgApp::HistoryChanged(Some(Route::EditQuest(QuestId(3))))),
        (vec![Action::GoReplace(Route::Edit)], false)
    );
    assert!(app.quests_is_map);
    assert_eq!(app.update(MsgApp::HistoryChanged(Some(Route::EditQuest(QuestId(2))))), (vec![], true));
    assert_eq!(app.pane_edit_quest.quest_id, QuestId(2));
    assert_eq!(app.update(MsgApp::HistoryChanged(Some(Route::MapAction(LocationId(1), QuestId(2))))), (vec![], true));
    assert!(app.pane_action.is_map);
    assert_eq!(app.update(MsgApp::HistoryChanged(Some(Route::MapNewQuest(LocationId(2))))), (vec![], true));
    assert_eq!(app.pane_map_new_quest.location_id, LocationId(2));
    assert_eq!(app.update(MsgApp::HistoryChanged(None)), (vec![], false));
    assert_eq!(app.update(MsgApp::Go(Route::Settings)), (vec![Action::Go(Route::Settings)], false));
    assert_eq!(app.route, Route::MapNewQuest(LocationId(2)));
}

#[test]
fn app_stores_settings_at_the_next_tick_only() {
    let mut app = app();
    assert_eq!(app.update(MsgApp::Tick), (vec![], false));
    assert_eq!(app.update(MsgApp::MsgTodo(MsgTodo::SettingsTyp(Typ::Unless))), (vec![], true));
    assert!(app.save_settings);
    assert_eq!(app.update(MsgApp::MsgSettings(MsgSettings::DarkMode(true))), (vec![], false));
    assert_eq!(app.update(MsgApp::Tick), (vec![Action::StoreSettings], false));
    assert!(!app.save_settings);
    assert_eq!(app.update(MsgApp::Tick), (vec![], false));
}

#[test]
fn app_sets_the_panes_back_after_a_new_campaign() {
    let mut app = app();
    app.update(MsgApp::HistoryChanged(Some(Route::Settings)));
    app.update(MsgApp::MsgTodo(MsgTodo::SettingsTyp(Typ::Unless)));
    let (actions, render) = app.update(MsgApp::MsgSettings(MsgSettings::NewCampaign));
    assert_eq!(actions, vec![Action::StoreGameData]);
    assert!(render);
    assert_eq!(app.route, Route::Todo);
    assert_eq!(app.pane_todo, PaneTodo::create());
    assert!(app.data.chain_msg.is_empty());
    app.update(MsgApp::HistoryChanged(Some(Route::Settings)));
    assert_eq!(app.update(MsgApp::ResetToNew), (vec![], true));
    assert_eq!(app.route, Route::Todo);
}

#[test]
fn app_goes_to_the_list_after_an_edit() {
    let mut app = app();
    app.update(MsgApp::HistoryChanged(Some(Route::EditQuest(QuestId(2)))));
    app.update(MsgApp::MsgEditQuest(MsgEditQuest::State(QuestState::Removed)));
    let (actions, render) = app.update(MsgApp::MsgEditQuest(MsgEditQuest::Save("done".to_string())));
    assert_eq!(actions, vec![Action::Go(Route::Edit), Action::StoreGameData]);
    assert!(!render);
    assert_eq!(state(&app.data, 2), QuestState::Removed);
    let (actions, _) = app.update(MsgApp::MsgNewQuest(MsgMapNewQuest::Save(String::new())));
    assert_eq!(actions, vec![Action::Back, Action::StoreGameData]);
}

#[test]
fn paths_of_routes() {
    let mut data = pane_data();
    let base = "http://journal";
    assert_eq!(Route::Info.path(&data, base), "http://journal/#info");
    assert_eq!(Route::Todo.path(&data, base), "http://journal/#todo");
    assert_eq!(Route::MapOverview.path(&data, base), "http://journal/#map");
    assert_eq!(Route::Edit.path(&data, base), "http://journal/#edit");
    assert_eq!(Route::Settings.path(&data, base), "http://journal/#settings");
    assert_eq!(Route::TodoAction(QuestId(2), LocationId(1)).path(&data, base), "http://journal/#todo/Amulet/2");
    assert_eq!(Route::MapAction(LocationId(2), QuestId(3)).path(&data, base), "http://journal/#map/5/Bridge");
    assert_eq!(Route::MapLocation(LocationId(0)).path(&data, ""), "/#map/Prologue");
    assert_eq!(Route::MapNewQuest(LocationId(2)).path(&data, base), "http://journal/#map/5/new");
    assert_eq!(Route::EditQuest(QuestId(1)).path(&data, base), "http://journal/#edit/Cottage");
    data.quest_locale.set_language(GameLanguage(1));
    assert_eq!(Route::EditQuest(QuestId(1)).path(&data, base), "http://journal/#edit/H%C3%BCtte");
}

#[test]
fn routes_of_hashes() {
    let mut data = pane_data();
    assert_eq!(Route::parse(&data, ""), Route::Info);
    assert_eq!(Route::parse(&data, "#"), Route::Info);
    assert_eq!(Route::parse(&data, "#info"), Route::Info);
    assert_eq!(Route::parse(&data, "#nowhere"), Route::Info);
    assert_eq!(Route::parse(&data, "#todo"), Route::Todo);
    assert_eq!(Route::parse(&data, "todo"), Route::Todo);
    assert_eq!(Route::parse(&data, "#todo/Amulet"), Route::Todo);
    assert_eq!(Route::parse(&data, "#todo/Amulet/7"), Route::Todo);
    assert_eq!(Route::parse(&data, "#todo/Nobody/2"), Route::Todo);
    assert_eq!(Route::parse(&data, "#todo/Amulet/2"), Route::TodoAction(QuestId(2), LocationId(1)));
    assert_eq!(Route::parse(&data, "#todo/Amulet/2/more"), Route::TodoAction(QuestId(2), LocationId(1)));
    assert_eq!(Route::parse(&data, "#map"), Route::MapOverview);
    assert_eq!(Route::parse(&data, "#map/7"), Route::MapOverview);
    assert_eq!(Route::parse(&data, "#map/Prologue"), Route::MapOverview);
    assert_eq!(Route::parse(&data, "#map/5"), Route::MapLocation(LocationId(2)));
    assert_eq!(Route::parse(&data, "#map/5/"), Route::MapLocation(LocationId(2)));
    assert_eq!(Route::parse(&data, "#map/5/Nobody"), Route::MapLocation(LocationId(2)));
    assert_eq!(Route::parse(&data, "#map/5/new"), Route::MapNewQuest(LocationId(2)));
    assert_eq!(Route::parse(&data, "#map/5/Bridge"), Route::MapAction(LocationId(2), QuestId(3)));
    assert_eq!(Route::parse(&data, "#edit"), Route::Edit);
    assert_eq!(Route::parse(&data, "#edit/Raid"), Route::EditQuest(QuestId(0)));
    assert_eq!(Route::parse(&data, "#edit/raid"), Route::Edit);
    assert_eq!(Route::parse(&data, "#settings"), Route::Settings);
    assert_eq!(Route::parse(&data, "#settings/x"), Route::Settings);
    // a segment that cannot be decoded spoils the whole hash
    assert_eq!(Route::parse(&data, "#todo/%FF/2"), Route::Info);
    assert_eq!(Route::parse(&data, "#todo/Amulet/2/%FF"), Route::Info);
    assert_eq!(Route::parse(&data, "#%74odo/%41mulet/2"), Route::TodoAction(QuestId(2), LocationId(1)));
    data.quest_locale.set_language(GameLanguage(1));
    assert_eq!(Route::parse(&data, "#edit/H%C3%BCtte"), Route::EditQuest(QuestId(1)));
    assert_eq!(Route::parse(&data, "#edit/Hütte"), Route::EditQuest(QuestId(1)));
    assert_eq!(Route::parse(&data, "#edit/Cottage"), Route::Edit);
    let parts = vec!["map".to_string(), "2".to_string(), "new".to_string()];
    assert_eq!(route_from(&data, &parts), Route::MapNewQuest(LocationId(1)));
    assert_eq!(route_from(&data, &vec![]), Route::Info);
}

#[test]
fn address_settles_or_is_replaced() {
    let data = pane_data();
    let mut router = Router::new("http://journal".to_string());
    assert_eq!(router.current_route(&data, "http://journal/", "#todo"), (Some(Route::Todo), None));
    assert_eq!(router.redirect_counter, 0);
    for n in 1..=4 {
        assert_eq!(
            router.current_route(&data, "http://journal/", "#todo/Nobody"),
            (None, Some("http://journal/#todo".to_string()))
        );
        assert_eq!(router.redirect_counter, n);
    }
    // after four replacements in a row the route is handed out as it is
    assert_eq!(router.current_route(&data, "http://journal/", "#todo/Nobody"), (Some(Route::Todo), None));
    assert_eq!(router.redirect_counter, 4);
    router.moved();
    assert_eq!(router.redirect_counter, 0);
    assert_eq!(router.current_route(&data, "http://journal/", "#map/5"), (Some(Route::MapLocation(LocationId(2))), None));
    assert_eq!(router.current_route(&data, "elsewhere", ""), (None, Some("http://journal/#info".to_string())));
}

#[test]
fn map_pane_keeps_to_positions_with_pages() {
    let catalog = pane_catalog();
    let mut pane = PaneMap::create(&catalog);
    assert_eq!(pane.position, 1);
    assert_eq!(pane.pages(&catalog), ("3", "4"));
    assert_eq!(
        pane.update(&catalog, MsgMap::Page(2)),
        UpdateResults { render: true, save_game_data: false, save_settings: true }
    );
    assert_eq!(pane.pages(&catalog), ("7", ""));
    assert_eq!(pane.update(&catalog, MsgMap::Page(0)), NOTHING);
    assert_eq!(pane.update(&catalog, MsgMap::Page(3)), NOTHING);
    assert_eq!(pane.update(&catalog, MsgMap::ShowNote(LocationId(1))), NOTHING);
    assert_eq!(pane.position, 2);
    assert_eq!(pane.save(), PaneMapSer { position: 2 });
    pane.load(PaneMapSer { position: 0 }, &catalog);
    assert_eq!(pane.position, 1);
    pane.load(PaneMapSer { position: 2 }, &catalog);
    assert_eq!(pane.position, 2);
    pane.reset_to_new(&catalog);
    assert_eq!(pane.position, 1);
    assert!(catalog.is_map_position(1));
    assert!(!catalog.is_map_position(0));
    assert!(!catalog.is_map_position(3));
}

#[test]
fn incomplete_languages_are_marked_with_a_star() {
    let mut catalog = pane_catalog();
    assert!(!catalog.is_incomplete());
    catalog.languages[1].name = "Deutsch*".to_string();
    assert!(catalog.is_incomplete());
    catalog.languages[1].name = "*Deutsch".to_string();
    assert!(!catalog.is_incomplete());
    catalog.languages[1].name = String::new();
    assert!(!catalog.is_incomplete());
}

#[test]
fn settings_are_stored_and_taken_over() {
    let mut app = app();
    app.update(MsgApp::MsgMap(MsgMap::Page(2)));
    app.update(MsgApp::MsgTodo(MsgTodo::SettingsTyp(Typ::Unless)));
    app.update(MsgApp::MsgSettings(MsgSettings::DarkMode(true)));
    app.update(MsgApp::MsgSettings(MsgSettings::GameLanguage("Deutsch".to_string())));
    app.update(MsgApp::HistoryChanged(Some(Route::MapOverview)));
    let stored = app.save_settings();
    assert_eq!(stored.game_language, "Deutsch");
    assert!(stored.quests_is_map);
    assert_eq!(stored.pane_todo, PaneTodoSer { show_keywords: SettingsKeywords::OnlyQuests, typ: Typ::Unless });
    assert_eq!(stored.pane_map, PaneMapSer { position: 2 });
    assert_eq!(stored.pane_settings, PaneSettingsSer { dark_mode: true });
    let mut other = App::create(pane_catalog());
    other.load_settings(stored);
    assert_eq!(other.data.quest_locale.language(), GameLanguage(1));
    assert!(other.quests_is_map);
    assert_eq!(other.pane_todo.typ, Typ::Unless);
    assert_eq!(other.pane_map.position, 2);
    assert!(other.pane_settings.dark_mode);
    other.load_settings(SerdeSettings {
        game_language: "Latin".to_string(),
        quests_is_map: false,
        pane_todo: PaneTodoSer { show_keywords: SettingsKeywords::Both, typ: Typ::Active },
        pane_map: PaneMapSer { position: 9 },
        pane_settings: PaneSettingsSer { dark_mode: false },
    });
    assert_eq!(other.data.quest_locale.language(), GameLanguage(1));
    assert_eq!(other.pane_map.position, 1);
    assert_eq!(other.pane_todo.show_keywords, SettingsKeywords::Both);
}

#[test]
fn app_sets_the_map_back_too() {
    let mut app = app();
    assert_eq!(app.update(MsgApp::MsgMap(MsgMap::Page(2))), (vec![], true));
    assert!(app.save_settings);
    assert_eq!(app.pane_map.position, 2);
    app.update(MsgApp::MsgSettings(MsgSettings::Clear));
    assert_eq!(app.pane_map.position, 1);
}

#[test]
fn written_journal_is_handed_out_as_a_data_address() {
    assert_eq!(data_url(&b"type,location\n".to_vec()), "data:text/csv;charset=UTF-8;base64,dHlwZSxsb2NhdGlvbgo=");
    assert_eq!(data_url(&vec![]), "data:text/csv;charset=UTF-8;base64,");
    assert_eq!(data_url(&vec![0xff, 0xfe]), "data:text/csv;charset=UTF-8;base64,//4=");
}
