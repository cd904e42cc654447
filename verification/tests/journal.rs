use sleeping_journal::data::encounter_type::EncounterType;
use sleeping_journal::data::quest::{Quest, QuestState, QuestViewMode};
use sleeping_journal::data::quest_location::QuestLocation;
use sleeping_journal::data::vis::Vis;
use sleeping_journal::game::catalog::{Catalog, Language, Location};
use sleeping_journal::game::game_language::GameLanguage;
use sleeping_journal::game::location_id::LocationId;
use sleeping_journal::game::msg::MsgKey;
use sleeping_journal::game::quest_id::QuestId;
use sleeping_journal::game::quest_locale::QuestLocale;
use sleeping_journal::global::data::{Data, Effect};
use sleeping_journal::pane::settings::{clear_all, new_campaign};
use sleeping_journal::text::{decimal_string, str_eq, str_less};

fn journal_catalog() -> Catalog {
    Catalog {
        languages: vec![
            Language {
                name: "English".to_string(),
                prologue: "Prologue".to_string(),
                quests: vec![
                    "Raid".to_string(),
                    "Cottage".to_string(),
                    "Zeal".to_string(),
                    "Amulet".to_string(),
                    "Amulet".to_string(),
                ],
            },
            Language {
                name: "Deutsch".to_string(),
                prologue: "Prolog".to_string(),
                quests: vec![
                    "Überfall".to_string(),
                    "Hütte".to_string(),
                    "Eifer".to_string(),
                    "Amulett".to_string(),
                    "Zwilling".to_string(),
                ],
            },
        ],
        locations: vec![
            Location { name: None, page: None },
            Location { name: Some("2".to_string()), page: Some("3".to_string()) },
            Location { name: Some("5".to_string()), page: None },
            Location { name: Some("2".to_string()), page: Some("7".to_string()) },
        ],
        keywords: vec![false, false, true, false, true],
        map: vec![None, Some(("3".to_string(), "4".to_string())), Some(("7".to_string(), String::new()))],
        map_default_position: 1,
    }
}

fn with_encounter(mut quest: Quest, l: u16, t: EncounterType, vis: Vis) -> Quest {
    let mut at = match quest.encounter.get(l) {
        Some(at) => *at,
        None => QuestLocation::new(),
    };
    at.insert(t, None, vis);
    quest.encounter.insert(l, at);
    quest
}

fn states(data: &Data) -> Vec<(u16, QuestState)> {
    data.quest.keys().into_iter().map(|k| (k, data.quest.get(k).unwrap().state)).collect()
}

#[test]
fn new_journal_holds_the_built_in_quests() {
    let data = Data::new(journal_catalog());
    assert_eq!(states(&data), vec![(0, QuestState::InGame), (1, QuestState::InGame)]);
    for k in [0, 1] {
        let quest = data.quest.get(k).unwrap();
        assert_eq!(quest.vis, Vis::Visible);
        assert_eq!(quest.note, "");
        assert_eq!(quest.encounter.keys(), vec![0]);
        let gain = quest.encounter.get(0).unwrap().get(EncounterType::Gain).unwrap();
        assert_eq!(gain.prerequisite, None);
        assert_eq!(gain.vis, Vis::Visible);
        assert_eq!(quest.encounter.get(0).unwrap().len(), 1);
    }
    assert!(data.location.is_empty());
}

#[test]
fn reset_forgets_everything_else() {
    let mut data = Data::new(journal_catalog());
    let mut q = Quest::new();
    q.note = "n".to_string();
    data.put_quest(QuestId(3), q);
    data.location.insert(2, "x".to_string());
    let mut raid = data.take_quest(QuestId(0)).unwrap();
    raid.state = QuestState::Removed;
    data.put_quest(QuestId(0), raid);
    data.reset();
    assert_eq!(states(&data), vec![(0, QuestState::InGame), (1, QuestState::InGame)]);
    assert!(data.location.is_empty());
}

#[test]
fn built_in_keeps_a_removed_quest_removed() {
    let mut data = Data::new(journal_catalog());
    let mut raid = data.take_quest(QuestId(0)).unwrap();
    raid.state = QuestState::Removed;
    raid.note = "kept".to_string();
    let raid = with_encounter(raid, 0, EncounterType::Lose, Vis::HiddenForever);
    let raid = with_encounter(raid, 2, EncounterType::When, Vis::Visible);
    data.put_quest(QuestId(0), raid);
    data.take_quest(QuestId(1));
    data.built_in();
    assert_eq!(states(&data), vec![(0, QuestState::Removed), (1, QuestState::InGame)]);
    let raid = data.quest.get(0).unwrap();
    assert_eq!(raid.note, "kept");
    assert_eq!(raid.encounter.keys(), vec![0, 2]);
    assert!(!raid.encounter.get(0).unwrap().contains_key(EncounterType::Lose));
    assert!(raid.encounter.get(0).unwrap().contains_key(EncounterType::Gain));
}

#[test]
fn cleanup_drops_what_is_empty() {
    let mut data = Data::new(journal_catalog());
    // neither encounter nor note
    data.put_quest(QuestId(2), Quest::new());
    // a note only
    let mut noted = Quest::new();
    noted.note = "remember".to_string();
    data.put_quest(QuestId(3), noted);
    // one empty location and one that is not
    let mut mixed = with_encounter(Quest::new(), 2, EncounterType::When, Vis::Visible);
    mixed.encounter.insert(1, QuestLocation::new());
    data.put_quest(QuestId(4), mixed);
    data.location.insert(1, String::new());
    data.cleanup();
    assert_eq!(data.quest.keys(), vec![0, 1, 3, 4]);
    assert_eq!(data.quest.get(3).unwrap().note, "remember");
    assert_eq!(data.quest.get(4).unwrap().encounter.keys(), vec![2]);
    // notes of locations are not cleaned
    assert_eq!(data.location.keys(), vec![1]);
}

#[test]
fn cleanup_twice_is_cleanup_once() {
    let mut data = Data::new(journal_catalog());
    data.put_quest(QuestId(2), Quest::new());
    let mut hollow = Quest::new();
    hollow.state = QuestState::Removed;
    hollow.encounter.insert(3, QuestLocation::new());
    data.put_quest(QuestId(3), hollow);
    let mut mixed = with_encounter(Quest::new(), 2, EncounterType::When, Vis::Visible);
    mixed.encounter.insert(1, QuestLocation::new());
    data.put_quest(QuestId(4), mixed);
    data.cleanup();
    let once = data.save_csv();
    let keys = data.quest.keys();
    data.cleanup();
    assert_eq!(data.save_csv(), once);
    assert_eq!(data.quest.keys(), keys);
    assert_eq!(keys, vec![0, 1, 4]);
}

#[test]
fn new_campaign_resets_progress_and_campaign_hides() {
    let mut data = Data::new(journal_catalog());
    let mut a = with_encounter(Quest::new(), 1, EncounterType::Gain, Vis::HiddenThisCampaign);
    a = with_encounter(a, 1, EncounterType::Lose, Vis::HiddenForever);
    a = with_encounter(a, 2, EncounterType::When, Vis::Visible);
    a.state = QuestState::Removed;
    a.vis = Vis::HiddenThisCampaign;
    a.note = "a note".to_string();
    data.put_quest(QuestId(2), a);
    let mut b = with_encounter(Quest::new(), 1, EncounterType::Gain, Vis::Visible);
    b.state = QuestState::InGame;
    b.vis = Vis::HiddenForever;
    data.put_quest(QuestId(3), b);
    let mut raid = data.take_quest(QuestId(0)).unwrap();
    raid.state = QuestState::Removed;
    data.put_quest(QuestId(0), raid);
    let mut cottage = data.take_quest(QuestId(1)).unwrap();
    cottage.state = QuestState::NotFound;
    data.put_quest(QuestId(1), cottage);
    data.location.insert(1, "stays".to_string());

    new_campaign(&mut data);

    assert_eq!(
        states(&data),
        vec![
            (0, QuestState::InGame),
            (1, QuestState::InGame),
            (2, QuestState::NotFound),
            (3, QuestState::NotFound)
        ]
    );
    let a = data.quest.get(2).unwrap();
    assert_eq!(a.vis, Vis::Visible);
    assert_eq!(a.note, "a note");
    assert_eq!(a.encounter.get(1).unwrap().get(EncounterType::Gain).unwrap().vis, Vis::Visible);
    assert_eq!(a.encounter.get(1).unwrap().get(EncounterType::Lose).unwrap().vis, Vis::HiddenForever);
    assert_eq!(a.encounter.get(2).unwrap().get(EncounterType::When).unwrap().vis, Vis::Visible);
    assert_eq!(data.quest.get(3).unwrap().vis, Vis::HiddenForever);
    assert_eq!(data.location.get(1).map(|n| n.as_str()), Some("stays"));
    assert_eq!(data.chain_msg, vec![Effect::ResetToNew]);
}

#[test]
fn clear_all_leaves_the_built_in_quests() {
    let mut data = Data::new(journal_catalog());
    let mut q = Quest::new();
    q.note = "n".to_string();
    data.put_quest(QuestId(3), q);
    clear_all(&mut data);
    assert_eq!(data.quest.keys(), vec![0, 1]);
    assert_eq!(data.chain_msg, vec![Effect::ResetToNew]);
}

#[test]
fn quests_are_listed_by_name() {
    let mut data = Data::new(journal_catalog());
    data.put_quest(QuestId(2), Quest::new());
    data.put_quest(QuestId(4), Quest::new());
    let listed: Vec<(QuestId, String)> = data.quest_iter().into_iter().map(|(q, _, n)| (q, n.to_string())).collect();
    assert_eq!(
        listed,
        vec![
            (QuestId(4), "Amulet".to_string()),
            (QuestId(1), "Cottage".to_string()),
            (QuestId(0), "Raid".to_string()),
            (QuestId(2), "Zeal".to_string())
        ]
    );
}

#[test]
fn locale_lists_every_quest_in_the_order_of_the_names() {
    let mut locale = QuestLocale::new(journal_catalog());
    assert_eq!(locale.language(), GameLanguage(0));
    let all: Vec<(u16, String)> = locale.all_str().into_iter().map(|(q, n)| (q.0, n.to_string())).collect();
    assert_eq!(
        all,
        vec![
            (3, "Amulet".to_string()),
            (4, "Amulet".to_string()),
            (1, "Cottage".to_string()),
            (0, "Raid".to_string()),
            (2, "Zeal".to_string())
        ]
    );
    locale.set_language(GameLanguage(1));
    assert_eq!(locale.language(), GameLanguage(1));
    let order: Vec<u16> = locale.all_str().into_iter().map(|(q, _)| q.0).collect();
    // by the bytes of the names: "Ü" comes after every ASCII letter
    assert_eq!(order, vec![3, 2, 1, 4, 0]);
    assert_eq!(locale.get(QuestId(0)), "Überfall");
    assert_eq!(locale.try_get("Hütte"), Some(QuestId(1)));
    assert_eq!(locale.try_get("Cottage"), None);
}

#[test]
fn locale_finds_the_first_of_two_quests_with_one_name() {
    let locale = QuestLocale::new(journal_catalog());
    assert_eq!(locale.try_get("Amulet"), Some(QuestId(3)));
    assert_eq!(locale.try_get("Raid"), Some(QuestId(0)));
    assert_eq!(locale.try_get(""), None);
}

#[test]
fn quest_id_from_raw_and_keyword() {
    let catalog = journal_catalog();
    assert_eq!(QuestId::from_raw(0, &catalog), Some(QuestId(0)));
    assert_eq!(QuestId::from_raw(4, &catalog), Some(QuestId(4)));
    assert_eq!(QuestId::from_raw(5, &catalog), None);
    assert_eq!(QuestId(4).raw(), 4);
    assert!(QuestId(2).is_keyword_raw(&catalog));
    assert!(!QuestId(3).is_keyword_raw(&catalog));
    assert_eq!(QuestId::raid(), QuestId(0));
    assert_eq!(QuestId::cottage(), QuestId(1));
}

#[test]
fn location_id_functions() {
    let catalog = journal_catalog();
    assert_eq!(LocationId::from_raw(0, &catalog), None);
    assert_eq!(LocationId::from_raw(1, &catalog), Some(LocationId(1)));
    assert_eq!(LocationId::from_raw(3, &catalog), Some(LocationId(3)));
    assert_eq!(LocationId::from_raw(4, &catalog), None);
    assert_eq!(LocationId(3).raw(), 3);
    assert_eq!(
        LocationId::all(&catalog),
        vec![LocationId(0), LocationId(1), LocationId(2), LocationId(3)]
    );
    assert_eq!(LocationId::prologue(), LocationId(0));
    assert_eq!(LocationId(0).name(&catalog, GameLanguage(0)), "Prologue");
    assert_eq!(LocationId(0).name(&catalog, GameLanguage(1)), "Prolog");
    assert_eq!(LocationId(2).name(&catalog, GameLanguage(1)), "5");
    assert_eq!(LocationId::try_from_name("5", &catalog), Some(LocationId(2)));
    assert_eq!(LocationId::try_from_name("2", &catalog), Some(LocationId(1)));
    assert_eq!(LocationId::try_from_name("Prologue", &catalog), None);
    assert_eq!(LocationId(1).page(&catalog), Some("3"));
    assert_eq!(LocationId(2).page(&catalog), None);
}

#[test]
fn catalog_languages() {
    let catalog = journal_catalog();
    assert_eq!(catalog.language_count(), 2);
    assert_eq!(catalog.language_name(GameLanguage(1)), "Deutsch");
    assert_eq!(catalog.try_language("Deutsch"), Some(GameLanguage(1)));
    assert_eq!(catalog.try_language("deutsch"), None);
    assert_eq!(GameLanguage::default(), GameLanguage(0));
}

#[test]
fn tags_of_vis() {
    let all = [(Vis::Visible, ""), (Vis::HiddenThisCampaign, "hidden-this-campaign"), (Vis::HiddenForever, "hidden-forever")];
    for (v, tag) in all {
        assert_eq!(v.to_csv(), tag);
        assert_eq!(Vis::try_from_csv(tag), Some(v));
    }
    assert_eq!(Vis::try_from_csv("visible"), None);
    assert_eq!(Vis::try_from_csv("Hidden-Forever"), None);
    assert_eq!(Vis::default(), Vis::Visible);
}

#[test]
fn order_of_vis() {
    assert_eq!(Vis::Visible.raw(), 0);
    assert_eq!(Vis::HiddenThisCampaign.raw(), 1);
    assert_eq!(Vis::HiddenForever.raw(), 2);
    assert_eq!(Vis::Visible.most_restrictive(Vis::HiddenForever), Vis::HiddenForever);
    assert_eq!(Vis::HiddenThisCampaign.most_restrictive(Vis::Visible), Vis::HiddenThisCampaign);
    assert_eq!(Vis::HiddenForever.most_restrictive(Vis::HiddenForever), Vis::HiddenForever);
}

#[test]
fn tags_of_encounter_types() {
    let all = [
        (EncounterType::Unless, "unless", 0),
        (EncounterType::Gain, "gain", 1),
        (EncounterType::When, "when", 2),
        (EncounterType::Complete, "complete", 3),
        (EncounterType::Lose, "lose", 4),
    ];
    for (t, tag, raw) in all {
        assert_eq!(t.to_csv(), tag);
        assert_eq!(EncounterType::try_from_csv(tag), Some(t));
        assert_eq!(t.raw(), raw);
        assert_eq!(EncounterType::from_raw(raw), Some(t));
    }
    assert_eq!(EncounterType::try_from_csv(""), None);
    assert_eq!(EncounterType::try_from_csv("Gain"), None);
    assert_eq!(EncounterType::from_raw(5), None);
}

#[test]
fn tags_and_messages_of_states() {
    let all = [
        (QuestState::NotFound, "", MsgKey::StateNotFound),
        (QuestState::InGame, "in-game", MsgKey::StateInGame),
        (QuestState::Removed, "removed", MsgKey::StateRemoved),
    ];
    for (s, tag, key) in all {
        assert_eq!(s.to_csv(), tag);
        assert_eq!(QuestState::try_from_csv(tag), Some(s));
        assert_eq!(s.text(), key);
    }
    assert_eq!(QuestState::try_from_csv("in game"), None);
    assert_eq!(QuestState::default(), QuestState::NotFound);
}

#[test]
fn keyword_is_unknown_until_the_quest_can_be_gained() {
    let catalog = journal_catalog();
    let quest = with_encounter(Quest::new(), 2, EncounterType::When, Vis::Visible);
    assert_eq!(quest.is_keyword(QuestId(2), &catalog), None);
    let quest = with_encounter(quest, 3, EncounterType::Gain, Vis::HiddenForever);
    assert_eq!(quest.is_keyword(QuestId(2), &catalog), Some(true));
    assert_eq!(quest.is_keyword(QuestId(3), &catalog), Some(false));
}

#[test]
fn visible_encounter_types() {
    let quest = with_encounter(Quest::new(), 2, EncounterType::When, Vis::HiddenForever);
    assert!(!quest.contains_visible_encounter_type(EncounterType::When));
    let quest = with_encounter(quest, 3, EncounterType::When, Vis::Visible);
    assert!(quest.contains_visible_encounter_type(EncounterType::When));
    assert!(!quest.contains_visible_encounter_type(EncounterType::Gain));
}

#[test]
fn view_mode_filter() {
    assert!(QuestViewMode::Todo.filter(LocationId(3)));
    assert!(QuestViewMode::Location(LocationId(3)).filter(LocationId(3)));
    assert!(!QuestViewMode::Location(LocationId(3)).filter(LocationId(2)));
}

#[test]
fn get_mut_changes_an_encounter_in_place() {
    let mut at = QuestLocation::new();
    at.insert(EncounterType::Gain, Some(QuestId(1)), Vis::Visible);
    if let Some(e) = at.get_mut(EncounterType::Gain) {
        e.vis = Vis::HiddenForever;
    }
    assert!(at.get_mut(EncounterType::Lose).is_none());
    let e = at.get(EncounterType::Gain).unwrap();
    assert_eq!(e.vis, Vis::HiddenForever);
    assert_eq!(e.prerequisite, Some(QuestId(1)));
    assert!(at.set_vis(EncounterType::Gain, Vis::Visible));
    assert!(!at.set_vis(EncounterType::Lose, Vis::Visible));
    assert_eq!(at.get(EncounterType::Gain).unwrap().vis, Vis::Visible);
}

#[test]
fn text_comparisons() {
    assert!(str_eq("abc", "abc"));
    assert!(!str_eq("abc", "abd"));
    assert!(!str_eq("abc", "ab"));
    assert!(str_eq("", ""));
    assert!(str_less("ab", "abc"));
    assert!(!str_less("abc", "ab"));
    assert!(!str_less("abc", "abc"));
    assert!(str_less("Zeal", "amulet"));
    assert!(str_less("z", "Ü"));
    assert!(str_less("", "a"));
}

#[test]
fn decimal_strings() {
    assert_eq!(decimal_string(0), "0");
    assert_eq!(decimal_string(7), "7");
    assert_eq!(decimal_string(10), "10");
    assert_eq!(decimal_string(1234567890), "1234567890");
    assert_eq!(decimal_string(u128::MAX), "340282366920938463463374607431768211455");
}
